use demo2::calendar::{
    civil_from_days, days_from_civil, default_can_export_filename, format_alarm_datetime,
    format_datetime_for_filename, format_datetime_input, format_ts_ms, parse_time_input,
};
use demo2::command_line::Parsed;
use demo2::db::{create_database_sql, quote_ident, InitDbConfig, InitDbEnvironment, SCHEMA_SQL};
use demo2::text::{
    check_float, chars_of, contains, parse_signed, parse_unsigned, push_decimal_int, words,
};

#[test]
fn days_of_known_dates() {
    assert_eq!(days_from_civil(1970, 1, 1), 0);
    assert_eq!(days_from_civil(2000, 2, 29), 11_016);
    assert_eq!(days_from_civil(1969, 12, 31), -1);
    assert_eq!(days_from_civil(0, 3, 1), -719_468);
    assert_eq!(civil_from_days(11_016), (2000, 2, 29));
    assert_eq!(civil_from_days(-719_529), (-1, 12, 31));
}

#[test]
fn dates_and_days_undo_each_other() {
    let mut days = -800_000i64;
    while days < 800_000 {
        let (year, month, day) = civil_from_days(days);
        assert_eq!(days_from_civil(year, month, day), days);
        days += 137;
    }
}

#[test]
fn moments_as_text() {
    assert_eq!(format_datetime_input(0), "1970-01-01 08:00:00");
    assert_eq!(format_datetime_input(-1), "1970-01-01 07:59:59");
    assert_eq!(format_datetime_for_filename(0), "01-01_08-00-00");
    assert_eq!(format_alarm_datetime(0), "01/01 08:00:00");
    assert_eq!(format_ts_ms(61_000), "08:01:01");
    assert_eq!(
        default_can_export_filename(0, 1000, 2000),
        "can_export_01-01_08-00-02_01-01_08-00-00_01-01_08-00-01.txt"
    );
}

#[test]
fn typed_moments() {
    assert_eq!(parse_time_input(" -42 "), Some(-42));
    assert_eq!(parse_time_input("1970-01-01 08:00:00"), Some(0));
    assert_eq!(parse_time_input("1970/1/1T8:0"), Some(0));
    assert_eq!(parse_time_input("1970-01-02"), Some(16 * 3600 * 1000));
    assert_eq!(parse_time_input(""), None);
    assert_eq!(parse_time_input("1970-13-01"), None);
    assert_eq!(parse_time_input("1970-01-01 24:00:00"), None);
    assert_eq!(parse_time_input("1970-01-01 1:2:3:4"), None);
    assert_eq!(parse_time_input("1970-01-01 1:2 3"), None);
    assert_eq!(parse_time_input("1970-01"), None);
    assert_eq!(parse_time_input("9223372036854775807-01-01"), None);
    for ts_ms in [0, 1_700_000_123_000, -62_000_000_000_000, 951_782_400_000] {
        assert_eq!(parse_time_input(&format_datetime_input(ts_ms)), Some(ts_ms));
    }
}

#[test]
fn identifiers_are_quoted() {
    assert_eq!(quote_ident("demo2"), "\"demo2\"");
    assert_eq!(quote_ident("a\"; DROP"), "\"a\"\"; DROP\"");
    assert_eq!(create_database_sql("x\"y"), "CREATE DATABASE \"x\"\"y\"");
    assert!(SCHEMA_SQL.contains("CREATE TABLE IF NOT EXISTS telemetry_samples"));
}

fn bare() -> InitDbEnvironment {
    InitDbEnvironment {
        host: None,
        port: None,
        user: None,
        password: None,
        database: None,
        bootstrap_db: None,
    }
}

fn words_of(args: &[&str]) -> Vec<String> {
    args.iter().map(|arg| arg.to_string()).collect()
}

#[test]
fn database_options() {
    match InitDbConfig::from_args(&bare(), &words_of(&["--port", "6000", "--user", "u"])) {
        Parsed::Run(cfg) => {
            assert_eq!((cfg.host.as_str(), cfg.port, cfg.user.as_str()), ("127.0.0.1", 6000, "u"));
            assert_eq!((cfg.database.as_str(), cfg.bootstrap_db.as_str()), ("demo2", "postgres"));
        }
        other => panic!("unexpected {:?}", other),
    }
    let fault = |args: &[&str]| match InitDbConfig::from_args(&bare(), &words_of(args)) {
        Parsed::Failed(fault) => fault.to_text(),
        other => panic!("unexpected {:?}", other),
    };
    assert_eq!(
        fault(&["--port", "70000"]),
        "invalid value for --port: number too large to fit in target type"
    );
    assert_eq!(fault(&["--database"]), "missing value for --database");
    assert_eq!(fault(&["-x"]), "unknown argument: -x");
    assert!(matches!(InitDbConfig::from_args(&bare(), &words_of(&["--help"])), Parsed::Help));
    let mut env = bare();
    env.port = Some("7000".to_string());
    match InitDbConfig::from_args(&env, &Vec::new()) {
        Parsed::Run(cfg) => assert_eq!(cfg.port, 7000),
        other => panic!("unexpected {:?}", other),
    }
}

#[test]
fn numbers_in_text() {
    let unsigned = |s: &str, max| parse_unsigned(&chars_of(s), max);
    assert_eq!(unsigned("+255", 255), Some(255));
    assert_eq!(unsigned("256", 255), None);
    assert_eq!(unsigned("18446744073709551615", u64::MAX), Some(u64::MAX));
    assert_eq!(unsigned("18446744073709551616", u64::MAX), None);
    assert_eq!(unsigned("", 9), None);
    let signed = |s: &str| parse_signed(&chars_of(s));
    assert_eq!(signed("-9223372036854775808"), Some(i64::MIN));
    assert_eq!(signed("9223372036854775808"), None);
    assert_eq!(signed("-"), None);
    let mut out = String::new();
    push_decimal_int(&mut out, i64::MIN);
    assert_eq!(out, "-9223372036854775808");
}

#[test]
fn float_notation_is_that_of_the_standard_library() {
    for s in [
        "1", "1.", ".5", "1.5e10", "-1E-3", "+2.5", "inf", "-Infinity", "NaN", "nan", "e5", ".",
        "", "+", "1e", "1e+", "0x10", "1_000", " 1", "1 ", "infin", "--1", "1.2.3", "1e5.0", "+nan",
    ] {
        assert_eq!(check_float(&chars_of(s)), s.parse::<f64>().is_ok(), "{}", s);
    }
}

#[test]
fn parts_of_a_text() {
    assert!(contains("CAN 自检结果", "自检"));
    assert!(contains("abc", ""));
    assert!(!contains("ab", "abc"));
    let found: Vec<String> =
        words(&chars_of("  a\u{3000}bc \t d")).into_iter().map(|w| w.into_iter().collect()).collect();
    assert_eq!(found, vec!["a".to_string(), "bc".to_string(), "d".to_string()]);
}
