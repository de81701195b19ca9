//! What a sender is told to do: by the environment, on the command line, or in the fields of
//! the sender's window.
use vstd::prelude::*;

use crate::collector::config;
use crate::command_line::Parsed;
use crate::fault::{Fault, FaultData};
use crate::command_line;
use crate::sender::format::OutputFormat;
use crate::text;

verus! {

/// What a sender does.
#[derive(Debug)]
pub struct SenderConfig {
    pub port: String,
    pub baud: u32,
    pub sensor_count: usize,
    pub interval_ms: u64,
    pub duration_secs: u64,
    pub format: OutputFormat,
}

/// What a sender does.
#[verifier::ext_equal]
pub ghost struct SenderData {
    pub port: Seq<char>,
    pub baud: u32,
    pub sensor_count: usize,
    pub interval_ms: u64,
    pub duration_secs: u64,
    pub format: OutputFormat,
}

impl View for SenderConfig {
    type V = SenderData;

    open spec fn view(&self) -> SenderData {
        SenderData {
            port: self.port@,
            baud: self.baud,
            sensor_count: self.sensor_count,
            interval_ms: self.interval_ms,
            duration_secs: self.duration_secs,
            format: self.format,
        }
    }
}

/// What the environment says about the sender.
#[derive(Debug)]
pub struct SenderEnvironment {
    pub port: Option<String>,
    pub baud: Option<String>,
    pub sensors: Option<String>,
    pub interval_ms: Option<String>,
    pub duration_secs: Option<String>,
    pub format: Option<String>,
}

/// What the sender does where the command line says nothing.
pub open spec fn environment_config(env: SenderEnvironment) -> SenderData {
    SenderData {
        port: config::text_or(config::setting(env.port), "COM4"@),
        baud: config::number_or(config::setting(env.baud), u32::MAX as nat, 2_000_000) as u32,
        sensor_count: config::number_or(
            config::setting(env.sensors),
            usize::MAX as nat,
            4,
        ) as usize,
        interval_ms: config::number_or(
            config::setting(env.interval_ms),
            u64::MAX as nat,
            30,
        ) as u64,
        duration_secs: config::number_or(
            config::setting(env.duration_secs),
            u64::MAX as nat,
            60,
        ) as u64,
        format: match config::setting(env.format) {
            Some(s) => match crate::sender::format::line_format_of(s) {
                Some(format) => format,
                None => OutputFormat::Sent1,
            },
            None => OutputFormat::Sent1,
        },
    }
}

impl SenderConfig {
    pub fn of_environment(env: &SenderEnvironment) -> (r: Self)
        ensures
            r@ == environment_config(*env),
    {
        let format: OutputFormat = match &env.format {
            Some(s) => match OutputFormat::parse_line(s.as_str()) {
                Some(format) => format,
                None => OutputFormat::Sent1,
            },
            None => OutputFormat::Sent1,
        };
        SenderConfig {
            port: config::text_setting(&env.port, "COM4"),
            baud: config::number_setting(&env.baud, u32::MAX as u64, 2_000_000) as u32,
            sensor_count: config::number_setting(&env.sensors, usize::MAX as u64, 4) as usize,
            interval_ms: config::number_setting(&env.interval_ms, u64::MAX, 30),
            duration_secs: config::number_setting(&env.duration_secs, u64::MAX, 60),
            format,
        }
    }
}

/// Whether a word is an option that takes a value.
pub open spec fn takes_value(arg: Seq<char>) -> bool {
    arg == "--port"@ || arg == "--baud"@ || arg == "--format"@ || arg == "--sensors"@ || arg
        == "--interval-ms"@ || arg == "--duration-secs"@
}

/// The fault in a text that spells no number up to `max`.
pub open spec fn bad_number(context: Seq<char>, value: Seq<char>, max: nat) -> FaultData {
    FaultData::caused(context, text::unsigned_fault(value, max)->0.text())
}

/// The sender's task with one option set, or why the value cannot be used.
pub open spec fn with_option(cfg: SenderData, arg: Seq<char>, value: Seq<char>) -> Result<
    SenderData,
    FaultData,
> {
    let number = text::parsed_unsigned(value, u64::MAX as nat);
    if arg == "--port"@ {
        Ok(SenderData { port: value, ..cfg })
    } else if arg == "--baud"@ {
        match text::parsed_unsigned(value, u32::MAX as nat) {
            Some(n) => Ok(SenderData { baud: n as u32, ..cfg }),
            None => Err(bad_number("invalid --baud"@, value, u32::MAX as nat)),
        }
    } else if arg == "--format"@ {
        match crate::sender::format::line_format_of(value) {
            Some(format) => Ok(SenderData { format, ..cfg }),
            None => Err(FaultData::plain("invalid --format: "@ + value)),
        }
    } else if arg == "--sensors"@ {
        match text::parsed_unsigned(value, usize::MAX as nat) {
            Some(n) => Ok(SenderData { sensor_count: n as usize, ..cfg }),
            None => Err(bad_number("invalid --sensors"@, value, usize::MAX as nat)),
        }
    } else if arg == "--interval-ms"@ {
        match number {
            Some(n) => Ok(SenderData { interval_ms: n as u64, ..cfg }),
            None => Err(bad_number("invalid --interval-ms"@, value, u64::MAX as nat)),
        }
    } else {
        match number {
            Some(n) => Ok(SenderData { duration_secs: n as u64, ..cfg }),
            None => Err(bad_number("invalid --duration-secs"@, value, u64::MAX as nat)),
        }
    }
}

/// What a command line says, read from the left.
pub open spec fn read_args(cfg: SenderData, args: Seq<Seq<char>>) -> command_line::ParsedData<SenderData>
    decreases args.len(),
{
    if args.len() == 0 {
        command_line::ParsedData::Run(cfg)
    } else if args[0] == "--help"@ || args[0] == "-h"@ {
        command_line::ParsedData::Help
    } else if !takes_value(args[0]) {
        command_line::ParsedData::Failed(FaultData::plain("unknown argument: "@ + args[0]))
    } else if args.len() == 1 {
        command_line::ParsedData::Failed(FaultData::plain("missing value for "@ + args[0]))
    } else {
        match with_option(cfg, args[0], args[1]) {
            Ok(next) => read_args(next, args.skip(2)),
            Err(fault) => command_line::ParsedData::Failed(fault),
        }
    }
}

/// Why a sender cannot do what it is told, if it cannot.
pub open spec fn config_fault(cfg: SenderData) -> Option<Seq<char>> {
    if text::trimmed(cfg.port).len() == 0 {
        Some("serial port cannot be empty"@)
    } else if cfg.baud == 0 {
        Some("baud must be > 0"@)
    } else if cfg.sensor_count == 0 {
        Some("sensor count must be > 0"@)
    } else if cfg.format == OutputFormat::Legacy && cfg.interval_ms == 0 {
        Some("interval must be > 0 in legacy mode"@)
    } else {
        None
    }
}

/// Sets one option, or says why the value cannot be used.
fn set_option(cfg: &mut SenderConfig, arg: &str, value: &str) -> (r: Result<(), Fault>)
    requires
        takes_value(arg@),
    ensures
        match with_option(old(cfg)@, arg@, value@) {
            Ok(next) => r is Ok && final(cfg)@ == next,
            Err(fault) => r is Err && r->Err_0@ == fault,
        },
{
    let chars: Vec<char> = text::chars_of(value);
    if text::same_text(arg, "--port") {
        cfg.port = text::owned(value);
    } else if text::same_text(arg, "--baud") {
        match text::read_unsigned(chars.as_slice(), u32::MAX as u64) {
            Ok(n) => {
                cfg.baud = n as u32;
            },
            Err(fault) => {
                return Err(Fault::caused(text::owned("invalid --baud"), fault.as_str()));
            },
        }
    } else if text::same_text(arg, "--format") {
        match OutputFormat::parse_line(value) {
            Some(format) => {
                cfg.format = format;
            },
            None => {
                let mut message = text::owned("invalid --format: ");
                text::push_text(&mut message, value);
                return Err(Fault::plain(message));
            },
        }
    } else if text::same_text(arg, "--sensors") {
        match text::read_unsigned(chars.as_slice(), usize::MAX as u64) {
            Ok(n) => {
                cfg.sensor_count = n as usize;
            },
            Err(fault) => {
                return Err(Fault::caused(text::owned("invalid --sensors"), fault.as_str()));
            },
        }
    } else if text::same_text(arg, "--interval-ms") {
        match text::read_unsigned(chars.as_slice(), u64::MAX) {
            Ok(n) => {
                cfg.interval_ms = n;
            },
            Err(fault) => {
                return Err(Fault::caused(text::owned("invalid --interval-ms"), fault.as_str()));
            },
        }
    } else {
        match text::read_unsigned(chars.as_slice(), u64::MAX) {
            Ok(n) => {
                cfg.duration_secs = n;
            },
            Err(fault) => {
                return Err(Fault::caused(text::owned("invalid --duration-secs"), fault.as_str()));
            },
        }
    }
    Ok(())
}

/// Reads the command line of the sender; the environment fills in what it leaves open.
pub fn parse_args(env: &SenderEnvironment, args: &Vec<String>) -> (r: Parsed<SenderConfig>)
    ensures
        r@ == match read_args(environment_config(*env), command_line::words(args@)) {
            command_line::ParsedData::Run(cfg) => match config_fault(cfg) {
                Some(message) => command_line::ParsedData::Failed(FaultData::plain(message)),
                None => command_line::ParsedData::Run(cfg),
            },
            other => other,
        },
{
    let mut cfg: SenderConfig = SenderConfig::of_environment(env);
    let ghost all = command_line::words(args@);
    let ghost whole = read_args(cfg@, all);
    let mut at: usize = 0;
    proof {
        assert(all.skip(0) =~= all);
    }
    while at < args.len()
        invariant
            at <= args@.len(),
            all == command_line::words(args@),
            whole == read_args(environment_config(*env), all),
            whole == read_args(cfg@, all.skip(at as int)),
        decreases args@.len() - at,
    {
        let arg: &str = args[at].as_str();
        proof {
            assert(all.skip(at as int)[0] == arg@);
        }
        if text::same_text(arg, "--help") || text::same_text(arg, "-h") {
            return Parsed::Help;
        }
        if !(text::same_text(arg, "--port") || text::same_text(arg, "--baud") || text::same_text(
            arg,
            "--format",
        ) || text::same_text(arg, "--sensors") || text::same_text(arg, "--interval-ms")
            || text::same_text(arg, "--duration-secs")) {
            let mut message = text::owned("unknown argument: ");
            text::push_text(&mut message, arg);
            return Parsed::Failed(Fault::plain(message));
        }
        if args.len() - at == 1 {
            let mut message = text::owned("missing value for ");
            text::push_text(&mut message, arg);
            return Parsed::Failed(Fault::plain(message));
        }
        let value: &str = args[at + 1].as_str();
        proof {
            assert(all.skip(at as int)[1] == value@);
            assert(all.skip(at as int).skip(2) =~= all.skip(at + 2));
        }
        match set_option(&mut cfg, arg, value) {
            Ok(_) => {},
            Err(fault) => {
                return Parsed::Failed(fault);
            },
        }
        at = at + 2;
    }
    let port: Vec<char> = text::chars_of(cfg.port.as_str());
    if text::trim(port.as_slice()).len() == 0 {
        return Parsed::Failed(Fault::plain(text::owned("serial port cannot be empty")));
    }
    if cfg.baud == 0 {
        return Parsed::Failed(Fault::plain(text::owned("baud must be > 0")));
    }
    if cfg.sensor_count == 0 {
        return Parsed::Failed(Fault::plain(text::owned("sensor count must be > 0")));
    }
    if cfg.format == OutputFormat::Legacy && cfg.interval_ms == 0 {
        return Parsed::Failed(Fault::plain(text::owned("interval must be > 0 in legacy mode")));
    }
    Parsed::Run(cfg)
}

/// What stands in the fields of the sender's window.
#[derive(Debug)]
pub struct SenderFields {
    pub port: String,
    pub baud: String,
    pub format: String,
    pub sensor_count: String,
    pub interval_ms: String,
    pub duration_secs: String,
}

/// What the fields say, or the first fault.
pub open spec fn fields_config(fields: SenderFields) -> Result<SenderData, FaultData> {
    let port = text::trimmed(fields.port@);
    let baud = text::parsed_unsigned(text::trimmed(fields.baud@), u32::MAX as nat);
    let sensors = text::parsed_unsigned(text::trimmed(fields.sensor_count@), usize::MAX as nat);
    let format = crate::sender::format::format_of(fields.format@);
    let interval = text::parsed_unsigned(text::trimmed(fields.interval_ms@), u64::MAX as nat);
    let duration = text::parsed_unsigned(text::trimmed(fields.duration_secs@), u64::MAX as nat);
    if port.len() == 0 {
        Err(FaultData::plain("serial port cannot be empty"@))
    } else if baud is None {
        Err(bad_number("invalid baud"@, text::trimmed(fields.baud@), u32::MAX as nat))
    } else if sensors is None {
        Err(bad_number("invalid sensors"@, text::trimmed(fields.sensor_count@), usize::MAX as nat))
    } else if format is None {
        Err(FaultData::plain("invalid format"@))
    } else if interval is None {
        Err(bad_number("invalid interval"@, text::trimmed(fields.interval_ms@), u64::MAX as nat))
    } else if duration is None {
        Err(bad_number("invalid duration"@, text::trimmed(fields.duration_secs@), u64::MAX as nat))
    } else if baud->0 == 0 || sensors->0 == 0 {
        Err(FaultData::plain("baud and sensors must be > 0"@))
    } else if format->0 == OutputFormat::Legacy && interval->0 == 0 {
        Err(FaultData::plain("interval must be > 0 in legacy mode"@))
    } else {
        Ok(
            SenderData {
                port,
                baud: baud->0 as u32,
                sensor_count: sensors->0 as usize,
                interval_ms: interval->0 as u64,
                duration_secs: duration->0 as u64,
                format: format->0,
            },
        )
    }
}

/// The number in a field, whatever the space around it; or the fault in it.
fn field_number(context: &str, field: &str, max: u64) -> (r: Result<u64, Fault>)
    ensures
        match text::parsed_unsigned(text::trimmed(field@), max as nat) {
            Some(n) => r is Ok && r->Ok_0 == n && n <= max,
            None => r is Err && r->Err_0@ == bad_number(
                context@,
                text::trimmed(field@),
                max as nat,
            ),
        },
{
    let chars: Vec<char> = text::chars_of(field);
    match text::read_unsigned(text::trim(chars.as_slice()), max) {
        Ok(n) => Ok(n),
        Err(fault) => Err(Fault::caused(text::owned(context), fault.as_str())),
    }
}

impl SenderFields {
    pub fn parse_config(&self) -> (r: Result<SenderConfig, Fault>)
        ensures
            match fields_config(*self) {
                Ok(cfg) => r is Ok && r->Ok_0@ == cfg,
                Err(fault) => r is Err && r->Err_0@ == fault,
            },
    {
        let port_chars: Vec<char> = text::chars_of(self.port.as_str());
        let port: &[char] = text::trim(port_chars.as_slice());
        if port.len() == 0 {
            return Err(Fault::plain(text::owned("serial port cannot be empty")));
        }
        let baud: u64 = match field_number(
            "invalid baud",
            self.baud.as_str(),
            u32::MAX as u64,
        ) {
            Ok(n) => n,
            Err(fault) => {
                return Err(fault);
            },
        };
        let sensors: u64 = match field_number(
            "invalid sensors",
            self.sensor_count.as_str(),
            usize::MAX as u64,
        ) {
            Ok(n) => n,
            Err(fault) => {
                return Err(fault);
            },
        };
        let format: OutputFormat = match OutputFormat::parse(self.format.as_str()) {
            Some(format) => format,
            None => {
                return Err(Fault::plain(text::owned("invalid format")));
            },
        };
        let interval_ms: u64 = match field_number(
            "invalid interval",
            self.interval_ms.as_str(),
            u64::MAX,
        ) {
            Ok(n) => n,
            Err(fault) => {
                return Err(fault);
            },
        };
        let duration_secs: u64 = match field_number(
            "invalid duration",
            self.duration_secs.as_str(),
            u64::MAX,
        ) {
            Ok(n) => n,
            Err(fault) => {
                return Err(fault);
            },
        };
        if baud == 0 || sensors == 0 {
            return Err(Fault::plain(text::owned("baud and sensors must be > 0")));
        }
        if format == OutputFormat::Legacy && interval_ms == 0 {
            return Err(Fault::plain(text::owned("interval must be > 0 in legacy mode")));
        }
        Ok(
            SenderConfig {
                port: text::string_of(port),
                baud: baud as u32,
                sensor_count: sensors as usize,
                interval_ms,
                duration_secs,
                format,
            },
        )
    }
}

// ---- what holds of all settings ----

/// Where nothing is set the sender writes SENT1 to COM4 at 2 000 000 baud, for four sensors,
/// every 30 milliseconds, for 60 seconds; each setting takes the place of its own default, and
/// one that cannot be read leaves it.
pub proof fn law_sender_settings(env: SenderEnvironment)
    ensures
        ({
            let cfg = environment_config(env);
            &&& env.port is None ==> cfg.port == "COM4"@
            &&& env.port matches Some(s) ==> cfg.port == s@
            &&& env.baud is None ==> cfg.baud == 2_000_000
            &&& env.baud matches Some(s) ==> match text::parsed_unsigned(s@, u32::MAX as nat) {
                Some(n) => cfg.baud == n,
                None => cfg.baud == 2_000_000,
            }
            &&& env.sensors is None ==> cfg.sensor_count == 4
            &&& env.sensors matches Some(s) ==> match text::parsed_unsigned(
                s@,
                usize::MAX as nat,
            ) {
                Some(n) => cfg.sensor_count == n,
                None => cfg.sensor_count == 4,
            }
            &&& env.interval_ms is None ==> cfg.interval_ms == 30
            &&& env.interval_ms matches Some(s) ==> match text::parsed_unsigned(
                s@,
                u64::MAX as nat,
            ) {
                Some(n) => cfg.interval_ms == n,
                None => cfg.interval_ms == 30,
            }
            &&& env.duration_secs is None ==> cfg.duration_secs == 60
            &&& env.duration_secs matches Some(s) ==> match text::parsed_unsigned(
                s@,
                u64::MAX as nat,
            ) {
                Some(n) => cfg.duration_secs == n,
                None => cfg.duration_secs == 60,
            }
            &&& env.format is None ==> cfg.format == OutputFormat::Sent1
            &&& env.format matches Some(s) ==> match crate::sender::format::line_format_of(s@) {
                Some(format) => cfg.format == format,
                None => cfg.format == OutputFormat::Sent1,
            }
        }),
{
}

/// The options that take a value are these six, and no other word is an option with one.
pub proof fn law_option_words(arg: Seq<char>)
    ensures
        takes_value("--port"@),
        takes_value("--baud"@),
        takes_value("--format"@),
        takes_value("--sensors"@),
        takes_value("--interval-ms"@),
        takes_value("--duration-secs"@),
        takes_value(arg) ==> arg == "--port"@ || arg == "--baud"@ || arg == "--format"@ || arg
            == "--sensors"@ || arg == "--interval-ms"@ || arg == "--duration-secs"@,
{
}

proof fn lemma_option_words_differ()
    ensures
        "--port"@ != "--baud"@,
        "--format"@ != "--port"@ && "--format"@ != "--baud"@,
        "--sensors"@ != "--port"@ && "--sensors"@ != "--baud"@ && "--sensors"@ != "--format"@,
        "--interval-ms"@ != "--port"@ && "--interval-ms"@ != "--baud"@ && "--interval-ms"@
            != "--format"@ && "--interval-ms"@ != "--sensors"@,
        "--duration-secs"@ != "--port"@ && "--duration-secs"@ != "--baud"@ && "--duration-secs"@
            != "--format"@ && "--duration-secs"@ != "--sensors"@ && "--duration-secs"@
            != "--interval-ms"@,
        takes_value("--help"@) == false,
        takes_value("-h"@) == false,
{
    reveal_strlit("--port");
    reveal_strlit("--baud");
    reveal_strlit("--format");
    reveal_strlit("--sensors");
    reveal_strlit("--interval-ms");
    reveal_strlit("--duration-secs");
    reveal_strlit("--help");
    reveal_strlit("-h");
    assert("--port"@.len() == 6 && "--baud"@.len() == 6 && "--format"@.len() == 8
        && "--sensors"@.len() == 9 && "--interval-ms"@.len() == 13 && "--duration-secs"@.len() == 15
        && "--help"@.len() == 6 && "-h"@.len() == 2);
    assert("--port"@[2] != "--baud"@[2] && "--help"@[2] != "--port"@[2] && "--help"@[2]
        != "--baud"@[2]);
}

/// An option sets what it is named for and nothing else; a number that cannot be read, or a
/// format that is none, is refused.
pub proof fn law_options(cfg: SenderData, value: Seq<char>)
    ensures
        with_option(cfg, "--port"@, value) == Ok::<SenderData, FaultData>(
            SenderData { port: value, ..cfg },
        ),
        match text::parsed_unsigned(value, u32::MAX as nat) {
            Some(n) => with_option(cfg, "--baud"@, value) == Ok::<SenderData, FaultData>(
                SenderData { baud: n as u32, ..cfg },
            ),
            None => with_option(cfg, "--baud"@, value) is Err,
        },
        match crate::sender::format::line_format_of(value) {
            Some(format) => with_option(cfg, "--format"@, value) == Ok::<SenderData, FaultData>(
                SenderData { format, ..cfg },
            ),
            None => with_option(cfg, "--format"@, value) == Err::<SenderData, FaultData>(
                FaultData::plain("invalid --format: "@ + value),
            ),
        },
        match text::parsed_unsigned(value, usize::MAX as nat) {
            Some(n) => with_option(cfg, "--sensors"@, value) == Ok::<SenderData, FaultData>(
                SenderData { sensor_count: n as usize, ..cfg },
            ),
            None => with_option(cfg, "--sensors"@, value) is Err,
        },
        match text::parsed_unsigned(value, u64::MAX as nat) {
            Some(n) => {
                &&& with_option(cfg, "--interval-ms"@, value) == Ok::<SenderData, FaultData>(
                    SenderData { interval_ms: n as u64, ..cfg },
                )
                &&& with_option(cfg, "--duration-secs"@, value) == Ok::<SenderData, FaultData>(
                    SenderData { duration_secs: n as u64, ..cfg },
                )
            },
            None => with_option(cfg, "--interval-ms"@, value) is Err && with_option(
                cfg,
                "--duration-secs"@,
                value,
            ) is Err,
        },
{
    lemma_option_words_differ();
}

/// No argument changes nothing; help is given where it is asked for, before what follows is
/// read; an option is set and the rest is read on; an option without a value, and a word that
/// is no option, is refused.
pub proof fn law_arguments(
    cfg: SenderData,
    arg: Seq<char>,
    value: Seq<char>,
    rest: Seq<Seq<char>>,
)
    ensures
        read_args(cfg, Seq::empty()) == command_line::ParsedData::Run(cfg),
        read_args(cfg, seq!["--help"@] + rest) == command_line::ParsedData::<SenderData>::Help,
        read_args(cfg, seq!["-h"@] + rest) == command_line::ParsedData::<SenderData>::Help,
        !takes_value(arg) && arg != "--help"@ && arg != "-h"@ ==> read_args(cfg, seq![arg] + rest)
            == command_line::ParsedData::<SenderData>::Failed(
            FaultData::plain("unknown argument: "@ + arg),
        ),
        takes_value(arg) ==> read_args(cfg, seq![arg]) == command_line::ParsedData::<
            SenderData,
        >::Failed(FaultData::plain("missing value for "@ + arg)),
        takes_value(arg) ==> match with_option(cfg, arg, value) {
            Ok(next) => read_args(cfg, seq![arg, value] + rest) == read_args(next, rest),
            Err(fault) => read_args(cfg, seq![arg, value] + rest) == command_line::ParsedData::<
                SenderData,
            >::Failed(fault),
        },
{
    lemma_option_words_differ();
    let args = seq![arg, value] + rest;
    assert(args.skip(2) =~= rest);
    assert((seq!["--help"@] + rest)[0] == "--help"@);
    assert((seq!["-h"@] + rest)[0] == "-h"@);
    assert((seq![arg] + rest)[0] == arg);
}

/// A sender runs only where it has a port, a baud rate and a sensor, and in the plain format
/// an interval; the first that is missing is told.
pub proof fn law_config_fault(cfg: SenderData)
    ensures
        config_fault(cfg) is None <==> text::trimmed(cfg.port).len() > 0 && cfg.baud > 0
            && cfg.sensor_count > 0 && (cfg.format == OutputFormat::Legacy ==> cfg.interval_ms > 0),
        text::trimmed(cfg.port).len() == 0 ==> config_fault(cfg) == Some(
            "serial port cannot be empty"@,
        ),
        text::trimmed(cfg.port).len() > 0 && cfg.baud == 0 ==> config_fault(cfg) == Some(
            "baud must be > 0"@,
        ),
        text::trimmed(cfg.port).len() > 0 && cfg.baud > 0 && cfg.sensor_count == 0 ==> config_fault(
            cfg,
        ) == Some("sensor count must be > 0"@),
{
}

/// What is typed into the fields is taken field by field, without the blanks around it, where
/// the sender can run with it; what is taken can be run.
pub proof fn law_fields(fields: SenderFields)
    ensures
        fields_config(fields) matches Ok(cfg) ==> {
            &&& cfg.port == text::trimmed(fields.port@)
            &&& Some(cfg.baud as nat) == text::parsed_unsigned(
                text::trimmed(fields.baud@),
                u32::MAX as nat,
            )
            &&& Some(cfg.sensor_count as nat) == text::parsed_unsigned(
                text::trimmed(fields.sensor_count@),
                usize::MAX as nat,
            )
            &&& Some(cfg.interval_ms as nat) == text::parsed_unsigned(
                text::trimmed(fields.interval_ms@),
                u64::MAX as nat,
            )
            &&& Some(cfg.duration_secs as nat) == text::parsed_unsigned(
                text::trimmed(fields.duration_secs@),
                u64::MAX as nat,
            )
            &&& Some(cfg.format) == crate::sender::format::format_of(fields.format@)
            &&& config_fault(cfg) is None
        },
        fields_config(fields) is Err ==> {
            let baud = text::parsed_unsigned(text::trimmed(fields.baud@), u32::MAX as nat);
            let sensors = text::parsed_unsigned(
                text::trimmed(fields.sensor_count@),
                usize::MAX as nat,
            );
            let interval = text::parsed_unsigned(
                text::trimmed(fields.interval_ms@),
                u64::MAX as nat,
            );
            let duration = text::parsed_unsigned(
                text::trimmed(fields.duration_secs@),
                u64::MAX as nat,
            );
            let format = crate::sender::format::format_of(fields.format@);
            ||| text::trimmed(fields.port@).len() == 0
            ||| baud is None
            ||| sensors is None
            ||| interval is None
            ||| duration is None
            ||| format is None
            ||| baud == Some(0nat)
            ||| sensors == Some(0nat)
            ||| format == Some(OutputFormat::Legacy) && interval == Some(0nat)
        },
{
    text::law_trimmed(fields.port@);
}

/// A number that cannot be read is told by the option, or the field, and by why it cannot be.
pub proof fn law_bad_numbers(cfg: SenderData, value: Seq<char>)
    ensures
        text::parsed_unsigned(value, u32::MAX as nat) is None ==> with_option(
            cfg,
            "--baud"@,
            value,
        ) == Err::<SenderData, FaultData>(
            FaultData {
                context: "invalid --baud"@,
                cause: Some(text::unsigned_fault(value, u32::MAX as nat)->0.text()),
            },
        ),
        text::parsed_unsigned(value, usize::MAX as nat) is None ==> with_option(
            cfg,
            "--sensors"@,
            value,
        ) == Err::<SenderData, FaultData>(
            FaultData {
                context: "invalid --sensors"@,
                cause: Some(text::unsigned_fault(value, usize::MAX as nat)->0.text()),
            },
        ),
        text::parsed_unsigned(value, u64::MAX as nat) is None ==> with_option(
            cfg,
            "--interval-ms"@,
            value,
        ) == Err::<SenderData, FaultData>(
            FaultData {
                context: "invalid --interval-ms"@,
                cause: Some(text::unsigned_fault(value, u64::MAX as nat)->0.text()),
            },
        ),
        text::parsed_unsigned(value, u64::MAX as nat) is None ==> with_option(
            cfg,
            "--duration-secs"@,
            value,
        ) == Err::<SenderData, FaultData>(
            FaultData {
                context: "invalid --duration-secs"@,
                cause: Some(text::unsigned_fault(value, u64::MAX as nat)->0.text()),
            },
        ),
{
    lemma_option_words_differ();
}

/// The fault in what is typed is told by its first field: port, baud rate, sensors, format,
/// interval, duration, and only then what is too small.
pub proof fn law_field_faults(fields: SenderFields)
    ensures
        ({
            let port = text::trimmed(fields.port@);
            let baud = text::parsed_unsigned(text::trimmed(fields.baud@), u32::MAX as nat);
            let sensors = text::parsed_unsigned(
                text::trimmed(fields.sensor_count@),
                usize::MAX as nat,
            );
            let interval = text::parsed_unsigned(
                text::trimmed(fields.interval_ms@),
                u64::MAX as nat,
            );
            let duration = text::parsed_unsigned(
                text::trimmed(fields.duration_secs@),
                u64::MAX as nat,
            );
            let format = crate::sender::format::format_of(fields.format@);
            let read = port.len() > 0 && baud is Some && sensors is Some && format is Some
                && interval is Some && duration is Some;
            &&& port.len() == 0 ==> fields_config(fields) is Err && fields_config(
                fields,
            )->Err_0.context == "serial port cannot be empty"@
            &&& port.len() > 0 && baud is None ==> fields_config(fields) is Err && fields_config(
                fields,
            )->Err_0.context == "invalid baud"@
            &&& port.len() > 0 && baud is Some && sensors is None ==> fields_config(fields) is Err
                && fields_config(fields)->Err_0.context == "invalid sensors"@
            &&& port.len() > 0 && baud is Some && sensors is Some && format is None
                ==> fields_config(fields) is Err && fields_config(fields)->Err_0.context
                == "invalid format"@
            &&& port.len() > 0 && baud is Some && sensors is Some && format is Some && interval
                is None ==> fields_config(fields) is Err && fields_config(fields)->Err_0.context
                == "invalid interval"@
            &&& port.len() > 0 && baud is Some && sensors is Some && format is Some && interval
                is Some && duration is None ==> fields_config(fields) is Err && fields_config(
                fields,
            )->Err_0.context == "invalid duration"@
            &&& read && (baud == Some(0nat) || sensors == Some(0nat)) ==> fields_config(fields)
                is Err && fields_config(fields)->Err_0.context == "baud and sensors must be > 0"@
            &&& read && baud != Some(0nat) && sensors != Some(0nat) && format == Some(
                OutputFormat::Legacy,
            ) && interval == Some(0nat) ==> fields_config(fields) is Err && fields_config(
                fields,
            )->Err_0.context == "interval must be > 0 in legacy mode"@
        }),
{
}

} // verus!
