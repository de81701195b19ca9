//! The database: its schema, and setting it up.
use vstd::prelude::*;

use crate::collector::config;
use crate::command_line::Parsed;
use crate::fault::{Fault, FaultData};
use crate::command_line;
use crate::text;

verus! {

/// The tables, their indexes, and the function that makes the partition of a day.
pub const SCHEMA_SQL: &'static str = r#"
DO $$
BEGIN
    IF EXISTS (
        SELECT 1
        FROM information_schema.tables
        WHERE table_schema = 'public'
          AND table_name = 'telemetry_samples'
    ) AND NOT EXISTS (
        SELECT 1
        FROM pg_partitioned_table pt
        JOIN pg_class c ON c.oid = pt.partrelid
        JOIN pg_namespace n ON n.oid = c.relnamespace
        WHERE n.nspname = 'public'
          AND c.relname = 'telemetry_samples'
    ) THEN
        EXECUTE 'ALTER TABLE telemetry_samples RENAME TO telemetry_samples_legacy';
    END IF;
END
$$;

CREATE TABLE IF NOT EXISTS telemetry_samples (
    id BIGINT GENERATED ALWAYS AS IDENTITY,
    ts_ms BIGINT NOT NULL,
    created_at TIMESTAMPTZ NOT NULL DEFAULT CURRENT_TIMESTAMP,
    device_id TEXT NOT NULL,
    sensor_id INTEGER NOT NULL,
    axis TEXT NOT NULL DEFAULT '',
    alarm_bit BOOLEAN NOT NULL DEFAULT FALSE,
    t_sec DOUBLE PRECISION NOT NULL,
    value DOUBLE PRECISION NOT NULL,
    request_id BIGINT NOT NULL,
    PRIMARY KEY (created_at, id)
) PARTITION BY RANGE (created_at);

CREATE TABLE IF NOT EXISTS alarm_events (
    id BIGSERIAL PRIMARY KEY,
    ts_ms BIGINT NOT NULL,
    created_at TIMESTAMPTZ NOT NULL DEFAULT CURRENT_TIMESTAMP,
    device_id TEXT NOT NULL,
    alarm_id TEXT NOT NULL,
    level TEXT NOT NULL,
    message TEXT NOT NULL,
    cleared BOOLEAN NOT NULL
);

CREATE TABLE IF NOT EXISTS system_events (
    id BIGSERIAL PRIMARY KEY,
    ts_ms BIGINT NOT NULL,
    created_at TIMESTAMPTZ NOT NULL DEFAULT CURRENT_TIMESTAMP,
    level TEXT NOT NULL,
    message TEXT NOT NULL
);

ALTER TABLE alarm_events ADD COLUMN IF NOT EXISTS created_at TIMESTAMPTZ;
ALTER TABLE alarm_events ALTER COLUMN created_at SET DEFAULT CURRENT_TIMESTAMP;
UPDATE alarm_events
SET created_at = to_timestamp(ts_ms::double precision / 1000.0)
WHERE created_at IS NULL;
ALTER TABLE alarm_events ALTER COLUMN created_at SET NOT NULL;

ALTER TABLE system_events ADD COLUMN IF NOT EXISTS created_at TIMESTAMPTZ;
ALTER TABLE system_events ALTER COLUMN created_at SET DEFAULT CURRENT_TIMESTAMP;
UPDATE system_events
SET created_at = to_timestamp(ts_ms::double precision / 1000.0)
WHERE created_at IS NULL;
ALTER TABLE system_events ALTER COLUMN created_at SET NOT NULL;

CREATE INDEX IF NOT EXISTS idx_alarm_ts_ms ON alarm_events (ts_ms);
CREATE INDEX IF NOT EXISTS idx_alarm_created_at ON alarm_events (created_at);
CREATE INDEX IF NOT EXISTS idx_alarm_device_alarmid_ts
    ON alarm_events (device_id, alarm_id, ts_ms);

CREATE INDEX IF NOT EXISTS idx_system_events_ts_ms ON system_events (ts_ms);
CREATE INDEX IF NOT EXISTS idx_system_events_created_at ON system_events (created_at);

CREATE OR REPLACE FUNCTION ensure_telemetry_partition_for_day(target_day DATE)
RETURNS VOID
LANGUAGE plpgsql
AS $$
DECLARE
    partition_name TEXT := format('telemetry_samples_%s', to_char(target_day, 'YYYY_MM_DD'));
    start_ts TIMESTAMPTZ := target_day::timestamptz;
    end_ts TIMESTAMPTZ := (target_day + 1)::timestamptz;
BEGIN
    EXECUTE format(
        'CREATE TABLE IF NOT EXISTS %I PARTITION OF telemetry_samples
         FOR VALUES FROM (%L) TO (%L)',
        partition_name,
        start_ts,
        end_ts
    );

    EXECUTE format(
        'CREATE INDEX IF NOT EXISTS %I ON %I (ts_ms)',
        partition_name || '_ts_ms_idx',
        partition_name
    );
    EXECUTE format(
        'CREATE INDEX IF NOT EXISTS %I ON %I (device_id, sensor_id, ts_ms)',
        partition_name || '_device_sensor_ts_idx',
        partition_name
    );
    EXECUTE format(
        'CREATE INDEX IF NOT EXISTS %I ON %I (device_id, axis, ts_ms)',
        partition_name || '_device_axis_ts_idx',
        partition_name
    );
END
$$;

SELECT ensure_telemetry_partition_for_day(CURRENT_DATE);
SELECT ensure_telemetry_partition_for_day(CURRENT_DATE + 1);
"#;

/// A name with its quotation marks doubled.
pub open spec fn escaped(name: Seq<char>) -> Seq<char>
    decreases name.len(),
{
    if name.len() == 0 {
        Seq::empty()
    } else if name.last() == '"' {
        escaped(name.drop_last()).push('"').push('"')
    } else {
        escaped(name.drop_last()).push(name.last())
    }
}

/// A name as an identifier in SQL, whatever characters it holds.
pub open spec fn quoted(name: Seq<char>) -> Seq<char> {
    seq!['"'] + escaped(name) + seq!['"']
}

pub fn quote_ident(value: &str) -> (r: String)
    ensures
        r@ == quoted(value@),
{
    let mut r = text::owned("");
    let chars: Vec<char> = text::chars_of(value);
    r.push('"');
    proof {
        reveal_strlit("");
        assert(r@ =~= seq!['"'] + escaped(value@.take(0)));
    }
    for i in 0..chars.len()
        invariant
            chars@ == value@,
            r@ == seq!['"'] + escaped(value@.take(i as int)),
    {
        proof {
            assert(value@.take(i + 1).drop_last() =~= value@.take(i as int));
        }
        let ghost before = r@;
        if chars[i] == '"' {
            r.push('"');
        }
        r.push(chars[i]);
        proof {
            assert(r@ =~= seq!['"'] + escaped(value@.take(i + 1)));
        }
    }
    proof {
        assert(value@.take(value@.len() as int) =~= value@);
    }
    r.push('"');
    proof {
        assert(r@ =~= quoted(value@));
    }
    r
}

/// How SQL reads on inside a quoted identifier: the rest of the name, and what follows the
/// closing quotation mark. Two quotation marks in a row stand for one.
pub open spec fn read_quoted(s: Seq<char>) -> Option<(Seq<char>, Seq<char>)>
    decreases s.len(),
{
    if s.len() == 0 {
        None
    } else if s[0] != '"' {
        match read_quoted(s.skip(1)) {
            Some((name, rest)) => Some((seq![s[0]] + name, rest)),
            None => None,
        }
    } else if s.len() > 1 && s[1] == '"' {
        match read_quoted(s.skip(2)) {
            Some((name, rest)) => Some((seq!['"'] + name, rest)),
            None => None,
        }
    } else {
        Some((Seq::empty(), s.skip(1)))
    }
}

/// A quoted name is read back as that name, whatever it holds, and nothing of it is read as
/// anything else.
pub proof fn law_quoting_is_undone(name: Seq<char>, rest: Seq<char>)
    requires
        rest.len() > 0 ==> rest[0] != '"',
    ensures
        (quoted(name) + rest)[0] == '"',
        read_quoted((quoted(name) + rest).skip(1)) == Some((name, rest)),
{
    let tail = seq!['"'] + rest;
    assert((quoted(name) + rest).skip(1) =~= escaped(name) + tail);
    assert(tail.skip(1) =~= rest);
    assert(read_quoted(tail) == Some((Seq::<char>::empty(), rest)));
    lemma_read_escaped(name, tail);
    assert(name + Seq::<char>::empty() =~= name);
}

proof fn lemma_read_escaped(name: Seq<char>, tail: Seq<char>)
    requires
        read_quoted(tail) is Some,
    ensures
        read_quoted(escaped(name) + tail) == Some(
            (name + (read_quoted(tail)->0).0, (read_quoted(tail)->0).1),
        ),
    decreases name.len(),
{
    if name.len() == 0 {
        assert(escaped(name) + tail =~= tail);
        assert(name + (read_quoted(tail)->0).0 =~= (read_quoted(tail)->0).0);
    } else {
        let c = name.last();
        let front = name.drop_last();
        let next = if c == '"' {
            seq!['"', '"'] + tail
        } else {
            seq![c] + tail
        };
        assert(escaped(name) + tail =~= escaped(front) + next);
        if c == '"' {
            assert(next.skip(2) =~= tail);
        } else {
            assert(next.skip(1) =~= tail);
        }
        assert(read_quoted(next) == Some(
            (seq![c] + (read_quoted(tail)->0).0, (read_quoted(tail)->0).1),
        ));
        lemma_read_escaped(front, next);
        assert(front + (seq![c] + (read_quoted(tail)->0).0) =~= name + (read_quoted(tail)->0).0);
    }
}

/// The statement that makes a database.
pub fn create_database_sql(name: &str) -> (r: String)
    ensures
        r@ == "CREATE DATABASE "@ + quoted(name@),
{
    let mut r = text::owned("CREATE DATABASE ");
    let name: String = quote_ident(name);
    text::push_text(&mut r, name.as_str());
    r
}

/// Which database is set up, and how to reach the server.
#[derive(Debug)]
pub struct InitDbConfig {
    pub host: String,
    pub port: u16,
    pub user: String,
    pub password: String,
    pub database: String,
    pub bootstrap_db: String,
}

/// Which database is set up, and how to reach the server.
#[verifier::ext_equal]
pub ghost struct InitDbData {
    pub host: Seq<char>,
    pub port: u16,
    pub user: Seq<char>,
    pub password: Seq<char>,
    pub database: Seq<char>,
    pub bootstrap_db: Seq<char>,
}

impl View for InitDbConfig {
    type V = InitDbData;

    open spec fn view(&self) -> InitDbData {
        InitDbData {
            host: self.host@,
            port: self.port,
            user: self.user@,
            password: self.password@,
            database: self.database@,
            bootstrap_db: self.bootstrap_db@,
        }
    }
}

/// What the environment says about the database.
#[derive(Debug)]
pub struct InitDbEnvironment {
    pub host: Option<String>,
    pub port: Option<String>,
    pub user: Option<String>,
    pub password: Option<String>,
    pub database: Option<String>,
    pub bootstrap_db: Option<String>,
}

/// What is set up where the command line says nothing.
pub open spec fn environment_config(env: InitDbEnvironment) -> InitDbData {
    InitDbData {
        host: config::text_or(config::setting(env.host), "127.0.0.1"@),
        port: config::number_or(config::setting(env.port), u16::MAX as nat, 5432) as u16,
        user: config::text_or(config::setting(env.user), "postgres"@),
        password: config::text_or(config::setting(env.password), "123456"@),
        database: config::text_or(config::setting(env.database), "demo2"@),
        bootstrap_db: config::text_or(config::setting(env.bootstrap_db), "postgres"@),
    }
}

/// Whether a word is an option that takes a value.
pub open spec fn takes_value(arg: Seq<char>) -> bool {
    arg == "--host"@ || arg == "--port"@ || arg == "--user"@ || arg == "--password"@ || arg
        == "--database"@ || arg == "--bootstrap-db"@
}

/// The task with one option set, or why the value cannot be used.
pub open spec fn with_option(cfg: InitDbData, arg: Seq<char>, value: Seq<char>) -> Result<
    InitDbData,
    FaultData,
> {
    if arg == "--host"@ {
        Ok(InitDbData { host: value, ..cfg })
    } else if arg == "--port"@ {
        match text::parsed_unsigned(value, u16::MAX as nat) {
            Some(n) => Ok(InitDbData { port: n as u16, ..cfg }),
            None => Err(
                FaultData::caused(
                    "invalid value for --port"@,
                    text::unsigned_fault(value, u16::MAX as nat)->0.text(),
                ),
            ),
        }
    } else if arg == "--user"@ {
        Ok(InitDbData { user: value, ..cfg })
    } else if arg == "--password"@ {
        Ok(InitDbData { password: value, ..cfg })
    } else if arg == "--database"@ {
        Ok(InitDbData { database: value, ..cfg })
    } else {
        Ok(InitDbData { bootstrap_db: value, ..cfg })
    }
}

/// What a command line says, read from the left.
pub open spec fn read_args(cfg: InitDbData, args: Seq<Seq<char>>) -> command_line::ParsedData<
    InitDbData,
>
    decreases args.len(),
{
    if args.len() == 0 {
        command_line::ParsedData::Run(cfg)
    } else if args[0] == "--help"@ || args[0] == "-h"@ {
        command_line::ParsedData::Help
    } else if !takes_value(args[0]) {
        command_line::ParsedData::Failed(FaultData::plain("unknown argument: "@ + args[0]))
    } else if args.len() == 1 {
        command_line::ParsedData::Failed(FaultData::plain("missing value for "@ + args[0]))
    } else {
        match with_option(cfg, args[0], args[1]) {
            Ok(next) => read_args(next, args.skip(2)),
            Err(fault) => command_line::ParsedData::Failed(fault),
        }
    }
}

/// The word behind an option.
fn next_arg<'a>(args: &'a Vec<String>, at: usize, flag: &str) -> (r: Result<&'a str, Fault>)
    ensures
        if at < args@.len() {
            r is Ok && r->Ok_0@ == args@[at as int]@
        } else {
            r is Err && r->Err_0@ == FaultData::plain("missing value for "@ + flag@)
        },
{
    if at < args.len() {
        Ok(args[at].as_str())
    } else {
        let mut message = text::owned("missing value for ");
        text::push_text(&mut message, flag);
        Err(Fault::plain(message))
    }
}

impl InitDbConfig {
    pub fn of_environment(env: &InitDbEnvironment) -> (r: Self)
        ensures
            r@ == environment_config(*env),
    {
        InitDbConfig {
            host: config::text_setting(&env.host, "127.0.0.1"),
            port: config::number_setting(&env.port, u16::MAX as u64, 5432) as u16,
            user: config::text_setting(&env.user, "postgres"),
            password: config::text_setting(&env.password, "123456"),
            database: config::text_setting(&env.database, "demo2"),
            bootstrap_db: config::text_setting(&env.bootstrap_db, "postgres"),
        }
    }

    /// Sets one option, or says why the value cannot be used.
    fn set_option(&mut self, arg: &str, value: &str) -> (r: Result<(), Fault>)
        requires
            takes_value(arg@),
        ensures
            match with_option(old(self)@, arg@, value@) {
                Ok(next) => r is Ok && final(self)@ == next,
                Err(fault) => r is Err && r->Err_0@ == fault,
            },
    {
        if text::same_text(arg, "--host") {
            self.host = text::owned(value);
        } else if text::same_text(arg, "--port") {
            let chars: Vec<char> = text::chars_of(value);
            match text::read_unsigned(chars.as_slice(), u16::MAX as u64) {
                Ok(n) => {
                    self.port = n as u16;
                },
                Err(fault) => {
                    return Err(
                        Fault::caused(text::owned("invalid value for --port"), fault.as_str()),
                    );
                },
            }
        } else if text::same_text(arg, "--user") {
            self.user = text::owned(value);
        } else if text::same_text(arg, "--password") {
            self.password = text::owned(value);
        } else if text::same_text(arg, "--database") {
            self.database = text::owned(value);
        } else {
            self.bootstrap_db = text::owned(value);
        }
        Ok(())
    }

    /// Reads the command line; the environment fills in what it leaves open.
    pub fn from_args(env: &InitDbEnvironment, args: &Vec<String>) -> (r: Parsed<InitDbConfig>)
        ensures
            r@ == read_args(environment_config(*env), command_line::words(args@)),
    {
        let mut cfg: InitDbConfig = InitDbConfig::of_environment(env);
        let ghost all = command_line::words(args@);
        let ghost whole = read_args(cfg@, all);
        let mut at: usize = 0;
        proof {
            assert(all.skip(0) =~= all);
        }
        while at < args.len()
            invariant
                at <= args@.len(),
                all == command_line::words(args@),
                whole == read_args(environment_config(*env), all),
                whole == read_args(cfg@, all.skip(at as int)),
            decreases args@.len() - at,
        {
            let arg: &str = args[at].as_str();
            proof {
                assert(all.skip(at as int)[0] == arg@);
            }
            if text::same_text(arg, "--help") || text::same_text(arg, "-h") {
                return Parsed::Help;
            }
            if !(text::same_text(arg, "--host") || text::same_text(arg, "--port")
                || text::same_text(arg, "--user") || text::same_text(arg, "--password")
                || text::same_text(arg, "--database") || text::same_text(arg, "--bootstrap-db")) {
                let mut message = text::owned("unknown argument: ");
                text::push_text(&mut message, arg);
                return Parsed::Failed(Fault::plain(message));
            }
            let value: &str = match next_arg(args, at + 1, arg) {
                Ok(value) => value,
                Err(fault) => {
                    return Parsed::Failed(fault);
                },
            };
            proof {
                assert(all.skip(at as int)[1] == value@);
                assert(all.skip(at as int).skip(2) =~= all.skip(at + 2));
            }
            match cfg.set_option(arg, value) {
                Ok(_) => {},
                Err(fault) => {
                    return Parsed::Failed(fault);
                },
            }
            at = at + 2;
        }
        Parsed::Run(cfg)
    }
}

// ---- what holds of all settings ----

/// Where nothing is set, the database demo2 is made on this machine at port 5432, by the user
/// postgres from the database postgres; each setting takes the place of its own default.
pub proof fn law_database_settings(env: InitDbEnvironment)
    ensures
        ({
            let cfg = environment_config(env);
            &&& env.host is None ==> cfg.host == "127.0.0.1"@
            &&& env.host matches Some(s) ==> cfg.host == s@
            &&& env.port is None ==> cfg.port == 5432
            &&& env.port matches Some(s) ==> match text::parsed_unsigned(s@, u16::MAX as nat) {
                Some(n) => cfg.port == n,
                None => cfg.port == 5432,
            }
            &&& env.user is None ==> cfg.user == "postgres"@
            &&& env.user matches Some(s) ==> cfg.user == s@
            &&& env.password matches Some(s) ==> cfg.password == s@
            &&& env.database is None ==> cfg.database == "demo2"@
            &&& env.database matches Some(s) ==> cfg.database == s@
            &&& env.bootstrap_db is None ==> cfg.bootstrap_db == "postgres"@
            &&& env.bootstrap_db matches Some(s) ==> cfg.bootstrap_db == s@
        }),
{
}

proof fn lemma_option_words_differ()
    ensures
        "--port"@ != "--host"@,
        "--user"@ != "--host"@ && "--user"@ != "--port"@,
        "--password"@ != "--host"@ && "--password"@ != "--port"@ && "--password"@ != "--user"@,
        "--database"@ != "--host"@ && "--database"@ != "--port"@ && "--database"@ != "--user"@
            && "--database"@ != "--password"@,
        "--bootstrap-db"@ != "--host"@ && "--bootstrap-db"@ != "--port"@ && "--bootstrap-db"@
            != "--user"@ && "--bootstrap-db"@ != "--password"@ && "--bootstrap-db"@
            != "--database"@,
        !takes_value("--help"@),
        !takes_value("-h"@),
{
    reveal_strlit("--host");
    reveal_strlit("--port");
    reveal_strlit("--user");
    reveal_strlit("--password");
    reveal_strlit("--database");
    reveal_strlit("--bootstrap-db");
    reveal_strlit("--help");
    reveal_strlit("-h");
    assert("--host"@.len() == 6 && "--port"@.len() == 6 && "--user"@.len() == 6
        && "--password"@.len() == 10 && "--database"@.len() == 10 && "--bootstrap-db"@.len() == 14
        && "--help"@.len() == 6 && "-h"@.len() == 2);
    assert("--host"@[2] == 'h' && "--port"@[2] == 'p' && "--user"@[2] == 'u' && "--help"@[2] == 'h'
        && "--host"@[3] == 'o' && "--help"@[3] == 'e' && "--password"@[2] == 'p'
        && "--database"@[2] == 'd');
}

/// An option sets what it is named for and nothing else; a port that is no number up to 65535
/// is refused.
pub proof fn law_options(cfg: InitDbData, value: Seq<char>)
    ensures
        with_option(cfg, "--host"@, value) == Ok::<InitDbData, FaultData>(
            InitDbData { host: value, ..cfg },
        ),
        match text::parsed_unsigned(value, 65_535) {
            Some(n) => with_option(cfg, "--port"@, value) == Ok::<InitDbData, FaultData>(
                InitDbData { port: n as u16, ..cfg },
            ),
            None => with_option(cfg, "--port"@, value) is Err,
        },
        with_option(cfg, "--user"@, value) == Ok::<InitDbData, FaultData>(
            InitDbData { user: value, ..cfg },
        ),
        with_option(cfg, "--password"@, value) == Ok::<InitDbData, FaultData>(
            InitDbData { password: value, ..cfg },
        ),
        with_option(cfg, "--database"@, value) == Ok::<InitDbData, FaultData>(
            InitDbData { database: value, ..cfg },
        ),
        with_option(cfg, "--bootstrap-db"@, value) == Ok::<InitDbData, FaultData>(
            InitDbData { bootstrap_db: value, ..cfg },
        ),
        takes_value("--host"@) && takes_value("--port"@) && takes_value("--user"@) && takes_value(
            "--password"@,
        ) && takes_value("--database"@) && takes_value("--bootstrap-db"@),
{
    lemma_option_words_differ();
}

/// No argument changes nothing; help is given where it is asked for, before what follows is
/// read; an option is set and the rest is read on; an option without a value, and a word that
/// is no option, is refused.
pub proof fn law_arguments(
    cfg: InitDbData,
    arg: Seq<char>,
    value: Seq<char>,
    rest: Seq<Seq<char>>,
)
    ensures
        read_args(cfg, Seq::empty()) == command_line::ParsedData::Run(cfg),
        read_args(cfg, seq!["--help"@] + rest) == command_line::ParsedData::<InitDbData>::Help,
        read_args(cfg, seq!["-h"@] + rest) == command_line::ParsedData::<InitDbData>::Help,
        arg != "--host"@ && arg != "--port"@ && arg != "--user"@ && arg != "--password"@ && arg
            != "--database"@ && arg != "--bootstrap-db"@ && arg != "--help"@ && arg != "-h"@
            ==> read_args(cfg, seq![arg] + rest) == command_line::ParsedData::<InitDbData>::Failed(
            FaultData::plain("unknown argument: "@ + arg),
        ),
        takes_value(arg) ==> read_args(cfg, seq![arg]) == command_line::ParsedData::<
            InitDbData,
        >::Failed(FaultData::plain("missing value for "@ + arg)),
        takes_value(arg) ==> match with_option(cfg, arg, value) {
            Ok(next) => read_args(cfg, seq![arg, value] + rest) == read_args(next, rest),
            Err(fault) => read_args(cfg, seq![arg, value] + rest) == command_line::ParsedData::<
                InitDbData,
            >::Failed(fault),
        },
{
    lemma_option_words_differ();
    let args = seq![arg, value] + rest;
    assert(args.skip(2) =~= rest);
    assert((seq!["--help"@] + rest)[0] == "--help"@);
    assert((seq!["-h"@] + rest)[0] == "-h"@);
    assert((seq![arg] + rest)[0] == arg);
}

} // verus!
