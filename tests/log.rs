use dpdk::log::{localtime, Level, LevelParseError, Logger, MAX_STAMP_SECS};
use std::str::FromStr;

#[test]
fn level_from_usize_normal() {
    for i in 0..=8 {
        let lvl = Level::from(i);
        assert_eq!(i, lvl as usize);
    }
}

#[test]
fn level_from_str() {
    assert_eq!(Level::from_str("none"), Ok(Level::Off));
    assert_eq!(Level::from_str("NONE"), Ok(Level::Off));
    assert_eq!(Level::from_str("none1"), Err(LevelParseError));

    assert_eq!(Level::from_str("emerg"), Ok(Level::Emerg));
    assert_eq!(Level::from_str("EMERG"), Ok(Level::Emerg));
    assert_eq!(Level::from_str("EMERG2"), Err(LevelParseError));

    assert_eq!(Level::from_str("alert"), Ok(Level::Alert));
    assert_eq!(Level::from_str("ALERT"), Ok(Level::Alert));
    assert_eq!(Level::from_str("ALERT3"), Err(LevelParseError));

    assert_eq!(Level::from_str("crit"), Ok(Level::Crit));
    assert_eq!(Level::from_str("CRIT"), Ok(Level::Crit));
    assert_eq!(Level::from_str("crit4"), Err(LevelParseError));

    assert_eq!(Level::from_str("error"), Ok(Level::Error));
    assert_eq!(Level::from_str("Error"), Ok(Level::Error));
    assert_eq!(Level::from_str("5Error5"), Err(LevelParseError));

    assert_eq!(Level::from_str("warn"), Ok(Level::Warn));
    assert_eq!(Level::from_str("WARN"), Ok(Level::Warn));
    assert_eq!(Level::from_str(" warn"), Err(LevelParseError));

    assert_eq!(Level::from_str("notice"), Ok(Level::Notice));
    assert_eq!(Level::from_str("NoTiCe"), Ok(Level::Notice));
    assert_eq!(Level::from_str("motice"), Err(LevelParseError));

    assert_eq!(Level::from_str("info"), Ok(Level::Info));
    assert_eq!(Level::from_str("INFO"), Ok(Level::Info));
    assert_eq!(Level::from_str("iinfoo"), Err(LevelParseError));

    assert_eq!(Level::from_str("debug"), Ok(Level::Debug));
    assert_eq!(Level::from_str("deBUG"), Ok(Level::Debug));
    assert_eq!(Level::from_str("ddd"), Err(LevelParseError));
}

#[test]
fn level_parse_rejects_empty_and_symbols() {
    assert_eq!(Level::parse(""), Err(LevelParseError));
    assert_eq!(Level::parse("w@rn"), Err(LevelParseError));
    assert_eq!(Level::parse("WARNING"), Err(LevelParseError));
}

#[test]
fn level_index_and_names() {
    assert_eq!(Level::Off.index(), 0);
    assert_eq!(Level::Debug.index(), 8);
    assert_eq!(Level::Notice.name(), b"NOTICE".to_vec());
    assert_eq!(Level::Off.name(), b"NONE".to_vec());
    assert!(Level::Error < Level::Warn);
}

#[test]
fn localtime_epoch() {
    assert_eq!(localtime(0), (1970, 1, 1, 0, 0, 0));
}

#[test]
fn localtime_leap_days() {
    assert_eq!(localtime(951782400), (2000, 2, 29, 0, 0, 0));
    assert_eq!(localtime(951827696), (2000, 2, 29, 12, 34, 56));
    assert_eq!(localtime(951868800), (2000, 3, 1, 0, 0, 0));
    assert_eq!(localtime(4107456000), (2100, 2, 28, 0, 0, 0));
    assert_eq!(localtime(4107542400), (2100, 3, 1, 0, 0, 0));
    assert_eq!(localtime(94694399), (1972, 12, 31, 23, 59, 59));
}

#[test]
fn localtime_ordinary_and_last() {
    assert_eq!(localtime(1234567890), (2009, 2, 13, 23, 31, 30));
    assert_eq!(localtime(MAX_STAMP_SECS - 1), (9999, 12, 31, 23, 59, 59));
}

#[test]
fn logger_formats_line() {
    let mut lg = Logger::new(Level::Info);
    let line = lg.log(Level::Error, "main.rs", 42, 1234567890, 7, "hello").unwrap();
    assert_eq!(
        String::from_utf8(line).unwrap(),
        "2009-02-13 23:31:30.007 [ERROR] main.rs:42 hello\n"
    );
    let line = lg.log(Level::Info, "a.rs", 0, 1234567890, 999, "").unwrap();
    assert_eq!(String::from_utf8(line).unwrap(), "2009-02-13 23:31:30.999 [INFO] a.rs:0 \n");
    let line = lg.log(Level::Warn, "b.rs", 4294967295, 0, 120, "x").unwrap();
    assert_eq!(
        String::from_utf8(line).unwrap(),
        "1970-01-01 00:00:00.120 [WARN] b.rs:4294967295 x\n"
    );
}

#[test]
fn logger_filters_by_level() {
    let mut lg = Logger::new(Level::Warn);
    assert_eq!(lg.level(), Level::Warn);
    assert!(lg.log(Level::Info, "f.rs", 1, 10, 0, "m").is_none());
    assert!(lg.log(Level::Warn, "f.rs", 1, 10, 0, "m").is_some());
    lg.set_level(Level::Debug);
    assert_eq!(lg.level(), Level::Debug);
    assert!(lg.log(Level::Debug, "f.rs", 1, 10, 0, "m").is_some());
    lg.set_level(Level::Off);
    assert!(lg.log(Level::Emerg, "f.rs", 1, 10, 0, "m").is_none());
    assert!(lg.log(Level::Off, "f.rs", 1, 10, 0, "m").is_some());
}

#[test]
fn logger_reuses_and_refreshes_stamp() {
    let mut lg = Logger::new(Level::Debug);
    let a = lg.log(Level::Debug, "f.rs", 7, 86399, 1, "a").unwrap();
    let b = lg.log(Level::Debug, "f.rs", 7, 86399, 2, "b").unwrap();
    let c = lg.log(Level::Debug, "f.rs", 7, 86400, 3, "c").unwrap();
    assert_eq!(String::from_utf8(a).unwrap(), "1970-01-01 23:59:59.001 [DEBUG] f.rs:7 a\n");
    assert_eq!(String::from_utf8(b).unwrap(), "1970-01-01 23:59:59.002 [DEBUG] f.rs:7 b\n");
    assert_eq!(String::from_utf8(c).unwrap(), "1970-01-02 00:00:00.003 [DEBUG] f.rs:7 c\n");
}
