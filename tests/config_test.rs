use hamrothermostat::config::{
    config, get_parse, init_config, reload_config, Config, ConfigError, Detail, Key, Source,
};
use hamrothermostat::address::{
    parse_ip, parse_ipv4, parse_ipv6, IpAddress, Ipv4Address, Ipv6Address,
};
use hamrothermostat::text::{parse_bool, parse_temperature};

fn source_with(pairs: &[(Key, &str)]) -> Source {
    let mut src = Source::new();
    for (k, v) in pairs {
        src.insert(*k, v.to_string());
    }
    src
}

fn valid_pairs() -> Vec<(Key, &'static str)> {
    vec![
        (Key::TapoUser, "user@example.com"),
        (Key::TapoPassword, "SECRET-REDACTED"),
        (Key::HubIp, "192.168.1.10"),
        (Key::Thermo1Ip, "192.168.1.11"),
        (Key::Thermo2Ip, "192.168.1.12"),
        (Key::MinTemp, "18"),
        (Key::MaxTemp, "22.5"),
        (Key::Duration, "100"),
        (Key::ThermostatEnabled, "yes"),
    ]
}

fn valid_source() -> Source {
    source_with(&valid_pairs())
}

fn source_without(key: Key) -> Source {
    let pairs: Vec<(Key, &str)> = valid_pairs().into_iter().filter(|(k, _)| *k != key).collect();
    source_with(&pairs)
}

fn source_replacing(key: Key, value: &str) -> Source {
    let mut src = valid_source();
    src.insert(key, value.to_string());
    src
}

#[test]
fn test_load_env_ok() {
    let cfg = Config::load(&valid_source()).expect("No pudo cargar el .env existente");

    assert!(!cfg.tapo_user.is_empty());
    assert!(!cfg.tapo_password.is_empty());

    assert!(cfg.hub_ip.is_ipv4());
    assert!(cfg.thermo_1_ip.is_ipv4());
    assert!(cfg.thermo_2_ip.is_ipv4());

    assert!(cfg.min_temp.hundredths > 0 && cfg.min_temp.hundredths < 10000);
    assert!(cfg.max_temp.hundredths > cfg.min_temp.hundredths && cfg.max_temp.hundredths < 10000);

    assert!(cfg.duration > 0);
    assert!(cfg.thermostat_enabled == true || cfg.thermostat_enabled == false);
}

#[test]
fn load_reflects_input_exactly() {
    let cfg = Config::load(&valid_source()).unwrap();
    assert_eq!(cfg.tapo_user, "user@example.com");
    assert_eq!(cfg.hub_ip, IpAddress::V4(Ipv4Address { a: 192, b: 168, c: 1, d: 10 }));
    assert_eq!(cfg.thermo_2_ip, IpAddress::V4(Ipv4Address { a: 192, b: 168, c: 1, d: 12 }));
    assert_eq!(cfg.min_temp.hundredths, 1800);
    assert_eq!(cfg.max_temp.hundredths, 2250);
    assert_eq!(cfg.duration, 100);
    assert!(cfg.thermostat_enabled);
}

#[test]
fn load_missing_key_names_it() {
    for key in [Key::TapoUser, Key::HubIp, Key::MinTemp, Key::Duration, Key::ThermostatEnabled] {
        let r = Config::load(&source_without(key));
        assert_eq!(r.unwrap_err(), ConfigError::MissingField(key));
    }
}

#[test]
fn load_empty_source_reports_first_key() {
    let r = Config::load(&Source::new());
    assert_eq!(r.unwrap_err(), ConfigError::MissingField(Key::TapoUser));
}

#[test]
fn load_malformed_values_are_parse_errors() {
    let cases = [
        (Key::TapoPassword, "", Detail::Empty),
        (Key::HubIp, "192.168.1", Detail::NotAnAddress),
        (Key::Thermo1Ip, "300.1.1.1", Detail::NotAnAddress),
        (Key::MaxTemp, "warm", Detail::NotATemperature),
        (Key::Duration, "5s", Detail::NotANumber),
        (Key::Duration, "0", Detail::ZeroInterval),
        (Key::ThermostatEnabled, "maybe", Detail::NotABool),
    ];
    for (key, value, detail) in cases {
        let r = Config::load(&source_replacing(key, value));
        assert_eq!(r.unwrap_err(), ConfigError::ParseError(key, detail));
    }
}

#[test]
fn duration_takes_plus_sign() {
    let cfg = Config::load(&source_replacing(Key::Duration, "+7")).unwrap();
    assert_eq!(cfg.duration, 7);
    let r = Config::load(&source_replacing(Key::Duration, "18446744073709551616"));
    assert_eq!(r.unwrap_err(), ConfigError::ParseError(Key::Duration, Detail::NotANumber));
}

#[test]
fn later_entry_overrides_earlier() {
    let src = source_replacing(Key::MinTemp, "19.25");
    assert_eq!(src.get(Key::MinTemp), Some("19.25"));
    assert_eq!(Config::load(&src).unwrap().min_temp.hundredths, 1925);
}

#[test]
fn key_names_match_environment() {
    assert_eq!(Key::TapoUser.name(), "TAPO_USER");
    assert_eq!(Key::Thermo2Ip.name(), "THERMO_2_IP");
    assert_eq!(Key::ThermostatEnabled.name(), "THERMOSTAT_ENABLED");
}

#[test]
fn bool_words_any_case() {
    for w in ["true", "1", "yes", "y", "TRUE", "Yes", "Y"] {
        assert_eq!(parse_bool(w), Some(true), "{w}");
    }
    for w in ["false", "0", "no", "n", "FALSE", "No", "N"] {
        assert_eq!(parse_bool(w), Some(false), "{w}");
    }
    for w in ["", "on", "off", "2", "truee", " yes", "nope"] {
        assert_eq!(parse_bool(w), None, "{w}");
    }
}

#[test]
fn temperature_notation() {
    assert_eq!(parse_temperature("18").map(|t| t.hundredths), Some(1800));
    assert_eq!(parse_temperature("-2.5").map(|t| t.hundredths), Some(-250));
    assert_eq!(parse_temperature("+21.75").map(|t| t.hundredths), Some(2175));
    assert_eq!(parse_temperature("0.05").map(|t| t.hundredths), Some(5));
    assert_eq!(parse_temperature("18.125").map(|t| t.hundredths), Some(1813));
    assert_eq!(parse_temperature("18.1249").map(|t| t.hundredths), Some(1812));
    assert_eq!(parse_temperature("-0.005").map(|t| t.hundredths), Some(-1));
    assert_eq!(parse_temperature("1.8e1").map(|t| t.hundredths), Some(1800));
    assert_eq!(parse_temperature("225E-1").map(|t| t.hundredths), Some(2250));
    assert_eq!(parse_temperature("2e+1").map(|t| t.hundredths), Some(2000));
    assert_eq!(parse_temperature(".5").map(|t| t.hundredths), Some(50));
    assert_eq!(parse_temperature("5.").map(|t| t.hundredths), Some(500));
    assert_eq!(parse_temperature("0e999999999999999999999").map(|t| t.hundredths), Some(0));
    assert_eq!(parse_temperature("1e400").map(|t| t.hundredths), Some(i64::MAX));
    assert_eq!(parse_temperature("-1e400").map(|t| t.hundredths), Some(-i64::MAX));
    assert_eq!(parse_temperature("1e-400").map(|t| t.hundredths), Some(0));
    for bad in ["", "-", ".", "e5", "1e", "1e+", "1.2.3", "1e2.5", "inf", "NaN", "abc", "18,5", " 18"] {
        assert_eq!(parse_temperature(bad), None, "{bad}");
    }
}

#[test]
fn load_accepts_any_float_notation() {
    let cfg = Config::load(&source_replacing(Key::MinTemp, "18.125")).unwrap();
    assert_eq!(cfg.min_temp.hundredths, 1813);
    let cfg = Config::load(&source_replacing(Key::MaxTemp, "2.2e1")).unwrap();
    assert_eq!(cfg.max_temp.hundredths, 2200);
}

#[test]
fn get_parse_returns_every_number() {
    let src = source_replacing(Key::Duration, "0");
    assert_eq!(get_parse(&src, Key::Duration), Ok(0));
    assert_eq!(get_parse(&valid_source(), Key::Duration), Ok(100));
    assert_eq!(get_parse(&Source::new(), Key::Duration), Err(ConfigError::MissingField(Key::Duration)));
}

#[test]
fn ipv4_notation() {
    assert_eq!(parse_ipv4("0.0.0.0"), Some(Ipv4Address { a: 0, b: 0, c: 0, d: 0 }));
    assert_eq!(parse_ipv4("255.255.255.255"), Some(Ipv4Address { a: 255, b: 255, c: 255, d: 255 }));
    for bad in ["", "1.2.3", "1.2.3.4.5", "1.2.3.256", "01.2.3.4", "1..2.3", "a.b.c.d", "1.2.3.4 "] {
        assert_eq!(parse_ipv4(bad), None, "{bad}");
    }
}

#[test]
fn reload_success_replaces_snapshot() {
    let mut store = init_config(&valid_source()).unwrap();
    assert_eq!(config(&store).min_temp.hundredths, 1800);
    let r = reload_config(&mut store, &source_replacing(Key::MinTemp, "20"));
    assert!(r.is_ok());
    assert_eq!(config(&store).min_temp.hundredths, 2000);
}

#[test]
fn reload_failure_keeps_previous_config() {
    let mut store = init_config(&valid_source()).unwrap();
    let before = config(&store);
    let r = reload_config(&mut store, &source_replacing(Key::MaxTemp, "hot"));
    assert_eq!(r, Err(ConfigError::ParseError(Key::MaxTemp, Detail::NotATemperature)));
    let after = config(&store);
    assert_eq!(after.tapo_user, before.tapo_user);
    assert_eq!(after.hub_ip, before.hub_ip);
    assert_eq!(after.min_temp, before.min_temp);
    assert_eq!(after.max_temp, before.max_temp);
    assert_eq!(after.duration, before.duration);
    assert_eq!(after.thermostat_enabled, before.thermostat_enabled);
}

#[test]
fn init_fails_on_invalid_source() {
    let r = init_config(&source_without(Key::TapoPassword));
    assert_eq!(r.err(), Some(ConfigError::MissingField(Key::TapoPassword)));
}

fn v6(g: [u16; 8]) -> Ipv6Address {
    Ipv6Address { g0: g[0], g1: g[1], g2: g[2], g3: g[3], g4: g[4], g5: g[5], g6: g[6], g7: g[7] }
}

#[test]
fn ipv6_notation() {
    assert_eq!(parse_ipv6("1:2:3:4:5:6:7:8"), Some(v6([1, 2, 3, 4, 5, 6, 7, 8])));
    assert_eq!(parse_ipv6("::"), Some(v6([0; 8])));
    assert_eq!(parse_ipv6("::1"), Some(v6([0, 0, 0, 0, 0, 0, 0, 1])));
    assert_eq!(parse_ipv6("fe80::1:AbCd"), Some(v6([0xfe80, 0, 0, 0, 0, 0, 1, 0xabcd])));
    assert_eq!(parse_ipv6("1:2:3::6:7:8"), Some(v6([1, 2, 3, 0, 0, 6, 7, 8])));
    assert_eq!(parse_ipv6("1:2:3:4:5:6:7::"), Some(v6([1, 2, 3, 4, 5, 6, 7, 0])));
    assert_eq!(
        parse_ipv6("::ffff:192.168.0.1"),
        Some(v6([0, 0, 0, 0, 0, 0xffff, 0xc0a8, 0x0001]))
    );
    assert_eq!(parse_ipv6("1:2:3:4:5:6:10.0.0.2"), Some(v6([1, 2, 3, 4, 5, 6, 0x0a00, 0x0002])));
    for bad in ["1.2.3.4::", "::1.2.3.4:5", "1:2:3:4:5:6:7:1.2.3.4", "::1.2.3.256"] {
        assert_eq!(parse_ipv6(bad), None, "{bad}");
    }
    for bad in ["", ":", ":::", "1:2:3:4:5:6:7", "1:2:3:4:5:6:7:8:9", "1::2::3", "12345::",
        "g::1", "1:2:3:4:5:6:7:8::", ":1:2:3:4:5:6:7:8", "1.2.3.4"] {
        assert_eq!(parse_ipv6(bad), None, "{bad}");
    }
}

#[test]
fn ip_of_either_version() {
    assert_eq!(parse_ip("10.0.0.1"), Some(IpAddress::V4(Ipv4Address { a: 10, b: 0, c: 0, d: 1 })));
    assert_eq!(parse_ip("::1"), Some(IpAddress::V6(v6([0, 0, 0, 0, 0, 0, 0, 1]))));
    assert!(!parse_ip("::1").unwrap().is_ipv4());
    assert_eq!(parse_ip("localhost"), None);
}

#[test]
fn load_accepts_ipv6_hub() {
    let cfg = Config::load(&source_replacing(Key::HubIp, "fd00::10")).unwrap();
    assert_eq!(cfg.hub_ip, IpAddress::V6(v6([0xfd00, 0, 0, 0, 0, 0, 0, 0x10])));
}
