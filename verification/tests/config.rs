use retention_agent::config::{parse_id, ConfigError, Settings};
use retention_agent::message::TargetScope;

fn some(text: &str) -> Option<String> {
    Some(text.to_string())
}

#[test]
fn parse_id_reads_decimal_numbers() {
    assert_eq!(parse_id("0"), Some(0));
    assert_eq!(parse_id("7"), Some(7));
    assert_eq!(parse_id("0042"), Some(42));
    assert_eq!(parse_id("+15"), Some(15));
    assert_eq!(parse_id("381870553235193857"), Some(381_870_553_235_193_857));
    assert_eq!(parse_id("18446744073709551615"), Some(u64::MAX));
}

#[test]
fn parse_id_refuses_what_is_no_number() {
    assert_eq!(parse_id(""), None);
    assert_eq!(parse_id("+"), None);
    assert_eq!(parse_id("-"), None);
    assert_eq!(parse_id("-5"), None);
    assert_eq!(parse_id("++5"), None);
    assert_eq!(parse_id("5+"), None);
    assert_eq!(parse_id(" 5"), None);
    assert_eq!(parse_id("5 "), None);
    assert_eq!(parse_id("1_000"), None);
    assert_eq!(parse_id("12a"), None);
    assert_eq!(parse_id("0x10"), None);
    assert_eq!(parse_id("١٢"), None);
}

#[test]
fn parse_id_refuses_what_does_not_fit() {
    assert_eq!(parse_id("18446744073709551616"), None);
    assert_eq!(parse_id("18446744073709551620"), None);
    assert_eq!(parse_id("99999999999999999999"), None);
    assert_eq!(parse_id("184467440737095516150"), None);
    assert_eq!(parse_id("18446744073709551616x"), None);
}

#[test]
fn parse_id_agrees_with_the_standard_parser() {
    let samples = [
        "", "+", "-", "0", "+0", "-0", "00", "1", "+1", "12345", "18446744073709551615",
        "18446744073709551616", "+18446744073709551615", "000000000000000000000000001", "1e3",
        "٣", "9223372036854775808", "12 ", "\t12", "1+2",
    ];
    for sample in samples {
        assert_eq!(parse_id(sample), sample.parse::<u64>().ok(), "{:?}", sample);
    }
}

#[test]
fn load_takes_three_good_settings() {
    let settings = Settings::load(some("secret"), some("10"), some("20")).unwrap();
    assert_eq!(settings.credential, "secret");
    assert_eq!(settings.scope, TargetScope { community_id: 10, channel_id: 20 });
}

#[test]
fn load_names_what_is_missing() {
    assert_eq!(Settings::load(None, some("10"), some("20")).unwrap_err(), ConfigError::MissingCredential);
    assert_eq!(Settings::load(some("s"), None, some("20")).unwrap_err(), ConfigError::MissingCommunity);
    assert_eq!(Settings::load(some("s"), some("10"), None).unwrap_err(), ConfigError::MissingChannel);
}

#[test]
fn load_names_what_is_malformed() {
    assert_eq!(
        Settings::load(some("s"), some("ten"), some("20")).unwrap_err(),
        ConfigError::MalformedCommunity
    );
    assert_eq!(
        Settings::load(some("s"), some("10"), some("-20")).unwrap_err(),
        ConfigError::MalformedChannel
    );
}

#[test]
fn load_reports_the_first_fault() {
    assert_eq!(Settings::load(None, None, None).unwrap_err(), ConfigError::MissingCredential);
    assert_eq!(Settings::load(some("s"), None, None).unwrap_err(), ConfigError::MissingCommunity);
    assert_eq!(Settings::load(some("s"), some("x"), None).unwrap_err(), ConfigError::MissingChannel);
    assert_eq!(
        Settings::load(some("s"), some("x"), some("y")).unwrap_err(),
        ConfigError::MalformedCommunity
    );
}

#[test]
fn load_accepts_an_empty_credential() {
    let settings = Settings::load(some(""), some("1"), some("2")).unwrap();
    assert_eq!(settings.credential, "");
}
