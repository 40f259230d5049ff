use presence_scan::report::{build_instant_report, build_scheduled_report};
use presence_scan::session::{
    interpret_config, parse_config, plan_session, ConfigError, DeviceDetails, RunError,
    ScanConfig, ScanMode, ScanSession,
};

fn details(tag: &str) -> DeviceDetails {
    DeviceDetails {
        address_type: String::from("Public"),
        device_class: String::from("Unknown"),
        manufacturer: String::from(tag),
        local_name: String::from("Unknown"),
        manufacturer_data: String::from("{}"),
        service_data: String::from("{}"),
        services: String::from("[]"),
        rssi: String::from("-60"),
        tx_power_level: String::from("Unknown"),
    }
}

fn field<'a>(fields: &'a [(String, String)], name: &str) -> &'a str {
    for (k, v) in fields {
        if k == name {
            return v;
        }
    }
    panic!("missing field");
}

#[test]
fn parse_config_instant() {
    let r = parse_config("{\"instant_scan\": true}");
    assert_eq!(
        r,
        Ok(ScanConfig { mode: ScanMode::Instant, start_after: 0, scan_duration: 0 })
    );
}

#[test]
fn parse_config_scheduled_with_durations() {
    let r = parse_config(
        "{\"instant_scan\": false, \"start_after_duration\": 2, \"scan_duration\": 30}",
    );
    assert_eq!(
        r,
        Ok(ScanConfig { mode: ScanMode::Scheduled, start_after: 2, scan_duration: 30 })
    );
}

#[test]
fn parse_config_scheduled_defaults() {
    let r = parse_config("{\"instant_scan\": false}");
    assert_eq!(
        r,
        Ok(ScanConfig { mode: ScanMode::Scheduled, start_after: 0, scan_duration: 0 })
    );
}

#[test]
fn parse_config_non_boolean_mode_is_scheduled() {
    let r = parse_config("{\"instant_scan\": 1}");
    assert_eq!(
        r,
        Ok(ScanConfig { mode: ScanMode::Scheduled, start_after: 0, scan_duration: 0 })
    );
}

#[test]
fn parse_config_missing_mode_key() {
    assert_eq!(parse_config("{}"), Err(ConfigError::MissingModeKey));
}

#[test]
fn parse_config_unparseable() {
    assert_eq!(parse_config("not json at all"), Err(ConfigError::Unparseable));
}

#[test]
fn parse_config_invalid_duration() {
    let r = parse_config("{\"instant_scan\": false, \"scan_duration\": \"soon\"}");
    assert_eq!(r, Err(ConfigError::InvalidDuration));
    let r2 = parse_config("{\"instant_scan\": false, \"start_after_duration\": -3}");
    assert_eq!(r2, Err(ConfigError::InvalidDuration));
}

#[test]
fn interpret_config_instant_ignores_durations() {
    let r = interpret_config(Some(true), Some(None), Some(None));
    assert_eq!(
        r,
        Ok(ScanConfig { mode: ScanMode::Instant, start_after: 0, scan_duration: 0 })
    );
}

#[test]
fn missing_mode_key_and_missing_adapter_are_distinct() {
    let no_mode = plan_session(Err(ConfigError::MissingModeKey), true);
    let no_adapter = plan_session(
        Ok(ScanConfig { mode: ScanMode::Instant, start_after: 0, scan_duration: 0 }),
        false,
    );
    assert_eq!(no_mode, Err(RunError::Config(ConfigError::MissingModeKey)));
    assert_eq!(no_adapter, Err(RunError::AdapterUnavailable));
    assert_ne!(no_mode, no_adapter);
}

#[test]
fn adapter_absence_takes_precedence_over_missing_mode_key() {
    let r = plan_session(Err(ConfigError::MissingModeKey), false);
    assert_eq!(r, Err(RunError::AdapterUnavailable));
    let r2 = plan_session(Err(ConfigError::Unparseable), false);
    assert_eq!(r2, Err(RunError::Config(ConfigError::Unparseable)));
}

#[test]
fn scheduled_session_folds_and_reports_by_device() {
    let config = ScanConfig { mode: ScanMode::Scheduled, start_after: 0, scan_duration: 30 };
    let mut session = ScanSession::new(config, 5);
    for t in [0u64, 1, 2] {
        session.observe(String::from("AA:00"), details("a"), t);
    }
    session.observe(String::from("BB:11"), details("b"), 5);
    for t in [8u64, 9, 20] {
        session.observe(String::from("AA:00"), details("a2"), t);
    }
    let report = build_scheduled_report(&session);
    assert_eq!(report.entries.len(), 2);
    assert_eq!(report.entries[0].key, "AA:00");
    assert_eq!(report.entries[1].key, "BB:11");
    let durations = field(&report.entries[0].fields, "bluetooth_durations");
    assert_eq!(durations, "0-2,8-9,20-20");
    let durations_b = field(&report.entries[1].fields, "bluetooth_durations");
    assert_eq!(durations_b, "5-5");
    assert_eq!(field(&report.entries[0].fields, "fabricant"), "a2");
}

#[test]
fn instant_report_keys_are_contiguous_indices() {
    let snapshot = vec![
        (String::from("AA:00"), details("a")),
        (String::from("BB:11"), details("b")),
        (String::from("CC:22"), details("c")),
    ];
    let report = build_instant_report(&snapshot);
    assert_eq!(report.entries.len(), 3);
    assert_eq!(report.entries[0].key, "0");
    assert_eq!(report.entries[1].key, "1");
    assert_eq!(report.entries[2].key, "2");
    assert_eq!(field(&report.entries[1].fields, "mac_bluetooth"), "BB:11");
    for e in &report.entries {
        assert!(e.fields.iter().all(|(k, _)| k != "bluetooth_durations"));
    }
}
