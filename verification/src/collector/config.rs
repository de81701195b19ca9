//! Settings of the collector: what the configuration file says, and what the environment
//! says instead.
use vstd::prelude::*;

use crate::ingress::can::SentFilterConfig;
use crate::ingress::serial;
use crate::ingress::serial::{parse_serial_mode, SerialIngressMode};
use crate::text;
use crate::time::Duration;
use crate::transport::can::{CanConfigData, CanTransportConfig};

verus! {

pub const DEFAULT_DB_FILTER_ORDER: usize = 10;

pub const DEFAULT_SENT_FILTER_WINDOW: usize = 10;

/// 48 kHz as a single-precision number, by its bits.
pub const DEFAULT_DB_FILTER_SAMPLE_RATE_BITS: u32 = 0x473B_8000;

/// 4 kHz as a single-precision number, by its bits.
pub const DEFAULT_DB_FILTER_CUTOFF_BITS: u32 = 0x457A_0000;

pub fn default_db_filter_enabled() -> (r: bool)
    ensures
        r == false,
{
    false
}

pub fn default_db_filter_order() -> (r: usize)
    ensures
        r == 10,
{
    DEFAULT_DB_FILTER_ORDER
}

pub fn default_sent_filter_enabled() -> (r: bool)
    ensures
        r == true,
{
    true
}

pub fn default_sent_filter_window() -> (r: usize)
    ensures
        r == 10,
{
    DEFAULT_SENT_FILTER_WINDOW
}

pub fn default_can_autostart_tsmaster() -> (r: bool)
    ensures
        r == true,
{
    true
}

/// The settings of the collector.
#[derive(Debug)]
pub struct CollectorConfig {
    pub ingress_addr: String,
    pub ui_feed_addr: String,
    pub health_addr: String,
    pub can_enabled: bool,
    pub can_tsmaster_bin: Option<String>,
    pub can_autostart_tsmaster: bool,
    pub can_hardware_name: String,
    pub can_channel: u8,
    pub can_baud_kbps: u32,
    pub can_data_baud_kbps: u32,
    pub serial_port: Option<String>,
    pub serial_baud: u32,
    pub serial_mode: String,
    pub pg_dsn: String,
    pub pg_connect_max_retries: u32,
    pub pg_connect_retry_ms: u64,
    pub db_filter_enabled: bool,
    pub db_filter_order: usize,
    /// A single-precision number, by its bits.
    pub db_filter_sample_rate_hz: u32,
    /// A single-precision number, by its bits.
    pub db_filter_cutoff_hz: u32,
    pub sent_filter_enabled: bool,
    pub sent_filter_window: usize,
    pub max_payload: usize,
    pub bus_capacity: usize,
    pub ui_feed_capacity: usize,
}

impl Default for CollectorConfig {
    fn default() -> (r: Self)
        ensures
            r.ingress_addr@ == "127.0.0.1:19010"@,
            r.ui_feed_addr@ == "127.0.0.1:19011"@,
            r.health_addr@ == "127.0.0.1:19012"@,
            !r.can_enabled,
            r.can_tsmaster_bin is None,
            r.can_autostart_tsmaster,
            r.can_hardware_name@ == "TC1012"@,
            r.can_channel == 0,
            r.can_baud_kbps == 500,
            r.can_data_baud_kbps == 2_000,
            r.serial_port is None,
            r.serial_baud == 2_000_000,
            r.serial_mode@ == "sent"@,
            r.pg_dsn@
                == "host=127.0.0.1 port=5432 user=postgres password=123456 dbname=demo2"@,
            r.pg_connect_max_retries == 20,
            r.pg_connect_retry_ms == 1000,
            !r.db_filter_enabled,
            r.db_filter_order == 10,
            r.db_filter_sample_rate_hz == DEFAULT_DB_FILTER_SAMPLE_RATE_BITS,
            r.db_filter_cutoff_hz == DEFAULT_DB_FILTER_CUTOFF_BITS,
            r.sent_filter_enabled,
            r.sent_filter_window == 10,
            r.max_payload == 4096,
            r.bus_capacity == 10_000,
            r.ui_feed_capacity == 10_000,
    {
        CollectorConfig {
            ingress_addr: text::owned("127.0.0.1:19010"),
            ui_feed_addr: text::owned("127.0.0.1:19011"),
            health_addr: text::owned("127.0.0.1:19012"),
            can_enabled: false,
            can_tsmaster_bin: None,
            can_autostart_tsmaster: true,
            can_hardware_name: text::owned("TC1012"),
            can_channel: 0,
            can_baud_kbps: 500,
            can_data_baud_kbps: 2_000,
            serial_port: None,
            serial_baud: 2_000_000,
            serial_mode: text::owned("sent"),
            pg_dsn: text::owned(
                "host=127.0.0.1 port=5432 user=postgres password=123456 dbname=demo2",
            ),
            pg_connect_max_retries: 20,
            pg_connect_retry_ms: 1000,
            db_filter_enabled: false,
            db_filter_order: DEFAULT_DB_FILTER_ORDER,
            db_filter_sample_rate_hz: DEFAULT_DB_FILTER_SAMPLE_RATE_BITS,
            db_filter_cutoff_hz: DEFAULT_DB_FILTER_CUTOFF_BITS,
            sent_filter_enabled: true,
            sent_filter_window: DEFAULT_SENT_FILTER_WINDOW,
            max_payload: 4096,
            bus_capacity: 10_000,
            ui_feed_capacity: 10_000,
        }
    }
}

/// A setting of the environment, where it is set and is text.
pub open spec fn setting(value: Option<String>) -> Option<Seq<char>> {
    match value {
        Some(s) => Some(s@),
        None => None,
    }
}

/// The switch that a setting stands for, whatever its capitals and the space around it.
pub open spec fn flag_of(value: Option<Seq<char>>) -> Option<bool> {
    match value {
        Some(s) => {
            let word = text::lowered(text::trimmed(s));
            if word == "1"@ || word == "true"@ || word == "yes"@ || word == "on"@ {
                Some(true)
            } else if word == "0"@ || word == "false"@ || word == "no"@ || word == "off"@ {
                Some(false)
            } else {
                None
            }
        },
        None => None,
    }
}

pub fn env_flag(value: &Option<String>) -> (r: Option<bool>)
    ensures
        r == flag_of(setting(*value)),
{
    match value {
        Some(s) => {
            let chars: Vec<char> = text::chars_of(s.as_str());
            let word: &[char] = text::trim(chars.as_slice());
            if text::is_word(word, "1") || text::is_word(word, "true") || text::is_word(word, "yes")
                || text::is_word(word, "on") {
                Some(true)
            } else if text::is_word(word, "0") || text::is_word(word, "false") || text::is_word(
                word,
                "no",
            ) || text::is_word(word, "off") {
                Some(false)
            } else {
                None
            }
        },
        None => None,
    }
}

/// The number that a setting stands for, or another where it stands for none.
pub open spec fn number_or(value: Option<Seq<char>>, max: nat, otherwise: nat) -> nat {
    match value {
        Some(s) => match text::parsed_unsigned(s, max) {
            Some(n) => n,
            None => otherwise,
        },
        None => otherwise,
    }
}

pub(crate) fn number_setting(value: &Option<String>, max: u64, otherwise: u64) -> (r: u64)
    requires
        otherwise <= max,
    ensures
        r == number_or(setting(*value), max as nat, otherwise as nat),
        r <= max,
{
    match value {
        Some(s) => {
            let chars: Vec<char> = text::chars_of(s.as_str());
            match text::parse_unsigned(chars.as_slice(), max) {
                Some(n) => n,
                None => otherwise,
            }
        },
        None => otherwise,
    }
}

/// What the environment says about the CAN channel.
#[derive(Debug)]
pub struct CanEnvironment {
    pub enabled: Option<String>,
    pub channel: Option<String>,
    pub tsmaster_bin: Option<String>,
    pub autostart_tsmaster: Option<String>,
    pub hardware_name: Option<String>,
    pub baud_kbps: Option<String>,
    pub data_baud_kbps: Option<String>,
    pub sent_filter_enabled: Option<String>,
    pub sent_filter_window: Option<String>,
}

/// A switch of the environment, or of the configuration where the environment has none.
pub open spec fn flag_or(value: Option<Seq<char>>, otherwise: bool) -> bool {
    match flag_of(value) {
        Some(flag) => flag,
        None => otherwise,
    }
}

/// A text of the environment, or of the configuration where the environment has none.
pub open spec fn text_or(value: Option<Seq<char>>, otherwise: Seq<char>) -> Seq<char> {
    match value {
        Some(s) => s,
        None => otherwise,
    }
}

/// The CAN channel to open.
pub open spec fn can_config_of(cfg: CollectorConfig, env: CanEnvironment) -> CanConfigData {
    let channel = number_or(setting(env.channel), 255, cfg.can_channel as nat);
    CanConfigData {
        tsmaster_bin: match setting(env.tsmaster_bin) {
            Some(path) => Some(path),
            None => setting(cfg.can_tsmaster_bin),
        },
        autostart_tsmaster: flag_or(setting(env.autostart_tsmaster), cfg.can_autostart_tsmaster),
        hardware_name: text_or(setting(env.hardware_name), cfg.can_hardware_name@),
        channel_index: channel as u8,
        channel_count: (channel + 1) as i32,
        arbitration_baud_kbps: number_or(
            setting(env.baud_kbps),
            u32::MAX as nat,
            cfg.can_baud_kbps as nat,
        ) as u32,
        data_baud_kbps: number_or(
            setting(env.data_baud_kbps),
            u32::MAX as nat,
            cfg.can_data_baud_kbps as nat,
        ) as u32,
        receive_timeout: Duration { nanos: 200_000_000 },
    }
}

/// The averages to take of SENT values.
pub open spec fn sent_filter_of(cfg: CollectorConfig, env: CanEnvironment) -> SentFilterConfig {
    let window = number_or(
        setting(env.sent_filter_window),
        usize::MAX as nat,
        cfg.sent_filter_window as nat,
    );
    SentFilterConfig {
        enabled: flag_or(setting(env.sent_filter_enabled), cfg.sent_filter_enabled),
        window_size: if window < 1 {
            1
        } else {
            window as usize
        },
    }
}

fn flag_setting(value: &Option<String>, otherwise: bool) -> (r: bool)
    ensures
        r == flag_or(setting(*value), otherwise),
{
    match env_flag(value) {
        Some(flag) => flag,
        None => otherwise,
    }
}

pub(crate) fn text_setting(value: &Option<String>, otherwise: &str) -> (r: String)
    ensures
        r@ == text_or(setting(*value), otherwise@),
{
    match value {
        Some(s) => text::owned(s.as_str()),
        None => text::owned(otherwise),
    }
}

/// The CAN channel to open and the averages to take, where CAN is on.
pub fn can_settings(cfg: &CollectorConfig, env: &CanEnvironment) -> (r: Option<
    (CanTransportConfig, SentFilterConfig),
>)
    ensures
        if flag_or(setting(env.enabled), cfg.can_enabled) {
            r is Some && (r->0).0@ == can_config_of(*cfg, *env) && (r->0).1 == sent_filter_of(
                *cfg,
                *env,
            )
        } else {
            r is None
        },
{
    if !flag_setting(&env.enabled, cfg.can_enabled) {
        return None;
    }
    let channel: u8 = number_setting(&env.channel, 255, cfg.can_channel as u64) as u8;
    let tsmaster_bin: Option<String> = match &env.tsmaster_bin {
        Some(path) => Some(text::owned(path.as_str())),
        None => match &cfg.can_tsmaster_bin {
            Some(path) => Some(text::owned(path.as_str())),
            None => None,
        },
    };
    let can = CanTransportConfig {
        tsmaster_bin,
        autostart_tsmaster: flag_setting(&env.autostart_tsmaster, cfg.can_autostart_tsmaster),
        hardware_name: text_setting(&env.hardware_name, cfg.can_hardware_name.as_str()),
        channel_index: channel,
        channel_count: channel as i32 + 1,
        arbitration_baud_kbps: number_setting(
            &env.baud_kbps,
            0xFFFF_FFFF,
            cfg.can_baud_kbps as u64,
        ) as u32,
        data_baud_kbps: number_setting(
            &env.data_baud_kbps,
            0xFFFF_FFFF,
            cfg.can_data_baud_kbps as u64,
        ) as u32,
        receive_timeout: Duration::from_millis(200),
    };
    let window: usize = number_setting(
        &env.sent_filter_window,
        usize::MAX as u64,
        cfg.sent_filter_window as u64,
    ) as usize;
    let filter = SentFilterConfig {
        enabled: flag_setting(&env.sent_filter_enabled, cfg.sent_filter_enabled),
        window_size: if window < 1 {
            1
        } else {
            window
        },
    };
    proof {
        assert(can@ =~= can_config_of(*cfg, *env));
    }
    Some((can, filter))
}

/// What the environment says about the serial port.
#[derive(Debug)]
pub struct SerialEnvironment {
    pub port: Option<String>,
    pub baud: Option<String>,
    pub mode: Option<String>,
}

/// The serial port to open.
#[derive(Debug)]
pub struct SerialSettings {
    pub port_name: String,
    pub baud_rate: u32,
    pub mode: SerialIngressMode,
}

/// The mode that a setting names; SENT where it names none.
pub open spec fn mode_or_sent(s: Seq<char>) -> SerialIngressMode {
    match serial::mode_of(s) {
        Some(mode) => mode,
        None => SerialIngressMode::Sent,
    }
}

/// The serial port to open, where there is one. The port of the configuration counts before
/// that of the environment; speed and mode of the environment count before those of the
/// configuration.
pub fn serial_settings(cfg: &CollectorConfig, env: &SerialEnvironment) -> (r: Option<SerialSettings>)
    ensures
        match setting(cfg.serial_port) {
            Some(port) => r is Some && r->0.port_name@ == port,
            None => match setting(env.port) {
                Some(port) => r is Some && r->0.port_name@ == port,
                None => r is None,
            },
        },
        r matches Some(settings) ==> {
            &&& settings.baud_rate == number_or(
                setting(env.baud),
                u32::MAX as nat,
                cfg.serial_baud as nat,
            )
            &&& settings.mode == mode_or_sent(text_or(setting(env.mode), cfg.serial_mode@))
        },
{
    let port_name: String = match &cfg.serial_port {
        Some(port) => text::owned(port.as_str()),
        None => match &env.port {
            Some(port) => text::owned(port.as_str()),
            None => {
                return None;
            },
        },
    };
    let baud_rate: u32 = number_setting(&env.baud, 0xFFFF_FFFF, cfg.serial_baud as u64) as u32;
    let mode_text: String = text_setting(&env.mode, cfg.serial_mode.as_str());
    let mode: SerialIngressMode = match parse_serial_mode(mode_text.as_str()) {
        Some(mode) => mode,
        None => SerialIngressMode::Sent,
    };
    Some(SerialSettings { port_name, baud_rate, mode })
}

/// Whether the environment switches persistence off: with `1`, or with `true` in any
/// capitals.
pub fn db_disabled(value: &Option<String>) -> (r: bool)
    ensures
        r == match setting(*value) {
            Some(s) => s == "1"@ || text::lowered(s) == "true"@,
            None => false,
        },
{
    match value {
        Some(s) => {
            let chars: Vec<char> = text::chars_of(s.as_str());
            text::same_text(s.as_str(), "1") || text::is_word(chars.as_slice(), "true")
        },
        None => false,
    }
}

/// How many second-order sections a low-pass filter of the given order has, or why there is
/// no such filter.
pub fn filter_sections(order: usize) -> (r: Result<usize, &'static str>)
    ensures
        if order < 2 {
            r matches Err(error) && error@ == "db_filter_order must be at least 2"@
        } else if order % 2 != 0 {
            r matches Err(error) && error@
                == "db_filter_order must be even for cascaded Butterworth sections"@
        } else {
            r matches Ok(count) && 2 * count == order
        },
{
    if order < 2 {
        return Err("db_filter_order must be at least 2");
    }
    if order % 2 != 0 {
        return Err("db_filter_order must be even for cascaded Butterworth sections");
    }
    Ok(order / 2)
}

// ---- what holds of all settings ----

/// A flag is on for 1, true, yes and on, and off for 0, false, no and off, in whatever case and
/// with blanks around it; anything else, or nothing, leaves what was configured.
pub proof fn law_flags(s: Seq<char>, otherwise: bool)
    ensures
        ({
            let word = text::lowered(text::trimmed(s));
            let on = word == "1"@ || word == "true"@ || word == "yes"@ || word == "on"@;
            let off = word == "0"@ || word == "false"@ || word == "no"@ || word == "off"@;
            &&& !(on && off)
            &&& on ==> flag_or(Some(s), otherwise)
            &&& off ==> !flag_or(Some(s), otherwise)
            &&& !on && !off ==> flag_or(Some(s), otherwise) == otherwise
            &&& flag_of(Some(s)) is Some <==> on || off
        }),
        flag_or(None, otherwise) == otherwise,
{
    reveal_strlit("1");
    reveal_strlit("true");
    reveal_strlit("yes");
    reveal_strlit("on");
    reveal_strlit("0");
    reveal_strlit("false");
    reveal_strlit("no");
    reveal_strlit("off");
    assert("1"@.len() == 1 && "true"@.len() == 4 && "yes"@.len() == 3 && "on"@.len() == 2);
    assert("0"@.len() == 1 && "false"@.len() == 5 && "no"@.len() == 2 && "off"@.len() == 3);
    assert("1"@[0] != "0"@[0] && "yes"@[0] != "off"@[0] && "on"@[0] != "no"@[0]);
}

/// What is set in the environment goes before what is configured, setting by setting; what is
/// not set, and a number that cannot be read or is too large, leaves what is configured. The
/// bus has one channel more than the number of the channel, and is waited for a fifth of a
/// second.
pub proof fn law_can_settings(cfg: CollectorConfig, env: CanEnvironment)
    ensures
        ({
            let can = can_config_of(cfg, env);
            &&& env.channel is None ==> can.channel_index == cfg.can_channel
            &&& env.channel matches Some(s) ==> match text::parsed_unsigned(s@, 255) {
                Some(n) => can.channel_index == n,
                None => can.channel_index == cfg.can_channel,
            }
            &&& can.channel_count == can.channel_index + 1
            &&& env.hardware_name is None ==> can.hardware_name == cfg.can_hardware_name@
            &&& env.hardware_name matches Some(s) ==> can.hardware_name == s@
            &&& env.tsmaster_bin matches Some(s) ==> can.tsmaster_bin == Some(s@)
            &&& env.tsmaster_bin is None ==> match cfg.can_tsmaster_bin {
                Some(s) => can.tsmaster_bin == Some(s@),
                None => can.tsmaster_bin is None,
            }
            &&& env.autostart_tsmaster is None ==> can.autostart_tsmaster
                == cfg.can_autostart_tsmaster
            &&& env.autostart_tsmaster matches Some(s) ==> can.autostart_tsmaster == flag_or(
                Some(s@),
                cfg.can_autostart_tsmaster,
            )
            &&& env.baud_kbps is None ==> can.arbitration_baud_kbps == cfg.can_baud_kbps
            &&& env.baud_kbps matches Some(s) ==> match text::parsed_unsigned(
                s@,
                0xFFFF_FFFF,
            ) {
                Some(n) => can.arbitration_baud_kbps == n,
                None => can.arbitration_baud_kbps == cfg.can_baud_kbps,
            }
            &&& env.data_baud_kbps is None ==> can.data_baud_kbps == cfg.can_data_baud_kbps
            &&& env.data_baud_kbps matches Some(s) ==> match text::parsed_unsigned(
                s@,
                0xFFFF_FFFF,
            ) {
                Some(n) => can.data_baud_kbps == n,
                None => can.data_baud_kbps == cfg.can_data_baud_kbps,
            }
            &&& can.receive_timeout.nanos == 200_000_000
        }),
{
}

/// The window of the SENT filter is the one that is set, or else the one that is configured,
/// and never smaller than one; the filter is on as its own flag says.
pub proof fn law_sent_filter_settings(cfg: CollectorConfig, env: CanEnvironment)
    ensures
        ({
            let filter = sent_filter_of(cfg, env);
            &&& filter.window_size >= 1
            &&& env.sent_filter_window is None && cfg.sent_filter_window >= 1
                ==> filter.window_size == cfg.sent_filter_window
            &&& env.sent_filter_window is None && cfg.sent_filter_window == 0
                ==> filter.window_size == 1
            &&& env.sent_filter_window matches Some(s) ==> match text::parsed_unsigned(
                s@,
                usize::MAX as nat,
            ) {
                Some(n) => n >= 1 ==> filter.window_size == n,
                None => cfg.sent_filter_window >= 1 ==> filter.window_size
                    == cfg.sent_filter_window,
            }
            &&& env.sent_filter_enabled is None ==> filter.enabled == cfg.sent_filter_enabled
            &&& env.sent_filter_enabled matches Some(s) ==> filter.enabled == flag_or(
                Some(s@),
                cfg.sent_filter_enabled,
            )
        }),
{
}

/// A mode that cannot be read is that of SENT; any other is the one that was named.
pub proof fn law_mode_or_sent(s: Seq<char>)
    ensures
        serial::mode_of(s) is None ==> mode_or_sent(s) == SerialIngressMode::Sent,
        serial::mode_of(s) matches Some(mode) ==> mode_or_sent(s) == mode,
{
}

} // verus!
