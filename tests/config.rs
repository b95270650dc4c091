use pdb_guard::config::{
    load_settings, parse_share, parse_unsigned, ConfigError, RawSettings,
};
use pdb_guard::policy::{Fraction, ThresholdPolicy};

fn bytes(s: &str) -> Option<Vec<u8>> {
    Some(s.as_bytes().to_vec())
}

fn full() -> RawSettings {
    RawSettings {
        update_interval: None,
        pod_namespace: Some("games".to_string()),
        pdb_name: Some("mc-pdb".to_string()),
        min_players: None,
        min_players_percent: None,
        server_host: Some("mc.local".to_string()),
        server_port: bytes("25565"),
    }
}

#[test]
fn unsigned_numbers_parse() {
    assert_eq!(parse_unsigned(b"42", u64::MAX), Some(42));
    assert_eq!(parse_unsigned(b"+7", u64::MAX), Some(7));
    assert_eq!(parse_unsigned(b"007", u64::MAX), Some(7));
    assert_eq!(parse_unsigned(b"18446744073709551615", u64::MAX), Some(u64::MAX));
}

#[test]
fn unsigned_numbers_reject_bad_text() {
    assert_eq!(parse_unsigned(b"", u64::MAX), None);
    assert_eq!(parse_unsigned(b"+", u64::MAX), None);
    assert_eq!(parse_unsigned(b"-1", u64::MAX), None);
    assert_eq!(parse_unsigned(b"1a", u64::MAX), None);
    assert_eq!(parse_unsigned(b" 1", u64::MAX), None);
    assert_eq!(parse_unsigned(b"18446744073709551616", u64::MAX), None);
}

#[test]
fn unsigned_numbers_respect_limit() {
    assert_eq!(parse_unsigned(b"65535", u16::MAX as u64), Some(65535));
    assert_eq!(parse_unsigned(b"65536", u16::MAX as u64), None);
    assert_eq!(parse_unsigned(b"4294967296", u32::MAX as u64), None);
}

#[test]
fn shares_parse_exactly() {
    assert_eq!(parse_share(b"0.5"), Some(Fraction { num: 5, den: 10 }));
    assert_eq!(parse_share(b".25"), Some(Fraction { num: 25, den: 100 }));
    assert_eq!(parse_share(b"+0.75"), Some(Fraction { num: 75, den: 100 }));
    assert_eq!(parse_share(b"1"), Some(Fraction { num: 1, den: 1 }));
    assert_eq!(parse_share(b"2."), Some(Fraction { num: 2, den: 1 }));
    assert_eq!(parse_share(b"0"), Some(Fraction { num: 0, den: 1 }));
}

#[test]
fn shares_reject_bad_text() {
    assert_eq!(parse_share(b""), None);
    assert_eq!(parse_share(b"."), None);
    assert_eq!(parse_share(b"abc"), None);
    assert_eq!(parse_share(b"1.2.3"), None);
    assert_eq!(parse_share(b"-0.5"), None);
    assert_eq!(parse_share(b"++1"), None);
    assert_eq!(parse_share(b"0.12345678901234567890"), None);
}

#[test]
fn settings_take_defaults() {
    let s = load_settings(full()).unwrap();
    assert_eq!(s.update_interval_secs, 10);
    assert_eq!(s.pod_namespace, "games");
    assert_eq!(s.pdb_name, "mc-pdb");
    assert_eq!(s.policy, ThresholdPolicy::MinPlayers(1));
    assert_eq!(s.server_host, "mc.local");
    assert_eq!(s.server_port, 25565);
}

#[test]
fn settings_share_overrides_minimum() {
    let mut raw = full();
    raw.min_players = bytes("7");
    raw.min_players_percent = bytes("0.5");
    raw.update_interval = bytes("30");
    let s = load_settings(raw).unwrap();
    assert_eq!(s.update_interval_secs, 30);
    assert_eq!(s.policy, ThresholdPolicy::Share(Fraction { num: 5, den: 10 }));

    let mut raw = full();
    raw.min_players = bytes("7");
    raw.min_players_percent = bytes("0");
    let s = load_settings(raw).unwrap();
    assert_eq!(s.policy, ThresholdPolicy::MinPlayers(7));
}

#[test]
fn settings_report_each_error() {
    let mut raw = full();
    raw.update_interval = bytes("ten");
    assert_eq!(load_settings(raw).err(), Some(ConfigError::InvalidUpdateInterval));
    let mut raw = full();
    raw.pod_namespace = None;
    assert_eq!(load_settings(raw).err(), Some(ConfigError::MissingNamespace));
    let mut raw = full();
    raw.pdb_name = None;
    assert_eq!(load_settings(raw).err(), Some(ConfigError::MissingPdbName));
    let mut raw = full();
    raw.min_players = bytes("-1");
    assert_eq!(load_settings(raw).err(), Some(ConfigError::InvalidMinPlayers));
    let mut raw = full();
    raw.min_players_percent = bytes("half");
    assert_eq!(load_settings(raw).err(), Some(ConfigError::InvalidMinPlayersPercent));
    let mut raw = full();
    raw.server_host = None;
    assert_eq!(load_settings(raw).err(), Some(ConfigError::MissingServerHost));
    let mut raw = full();
    raw.server_port = None;
    assert_eq!(load_settings(raw).err(), Some(ConfigError::MissingServerPort));
    let mut raw = full();
    raw.server_port = bytes("70000");
    assert_eq!(load_settings(raw).err(), Some(ConfigError::InvalidServerPort));
}

#[test]
fn settings_report_first_error_in_reading_order() {
    let mut raw = full();
    raw.pod_namespace = None;
    raw.server_port = None;
    assert_eq!(load_settings(raw).err(), Some(ConfigError::MissingNamespace));
}
