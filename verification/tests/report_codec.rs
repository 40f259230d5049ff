use std::collections::HashMap;
use presence_scan::codec::serialize_document;
use presence_scan::numfmt::AddressKind;
use presence_scan::report::{build_details, intervals_to_string, services_to_string, ReportDocument, ReportEntry};
use presence_scan::intervals::PresenceInterval;

#[test]
fn serialize_empty_document() {
    let doc = ReportDocument { entries: Vec::new() };
    assert_eq!(serialize_document(&doc), "{}");
}

#[test]
fn serialize_document_exact_text() {
    let doc = ReportDocument {
        entries: vec![ReportEntry {
            key: String::from("k"),
            fields: vec![
                (String::from("a"), String::from("x")),
                (String::from("b"), String::from("y\"z\\w")),
            ],
        }],
    };
    let text = serialize_document(&doc);
    assert_eq!(text, "{\"k\":{\"a\":\"x\",\"b\":\"y\\\"z\\\\w\"}}");
}

#[test]
fn serialize_escapes_control_characters() {
    let doc = ReportDocument {
        entries: vec![ReportEntry {
            key: String::from("k"),
            fields: vec![(String::from("f"), String::from("a\nb\tc"))],
        }],
    };
    let text = serialize_document(&doc);
    assert_eq!(text, "{\"k\":{\"f\":\"a\\u000ab\\u0009c\"}}");
    let parsed: serde_json::Value = serde_json::from_str(&text).expect("report must be valid JSON");
    assert_eq!(parsed["k"]["f"], serde_json::Value::String(String::from("a\nb\tc")));
}

#[test]
fn serialized_document_parses_back_structurally_equal() {
    let doc = ReportDocument {
        entries: vec![
            ReportEntry {
                key: String::from("AA:00"),
                fields: vec![
                    (String::from("fabricant"), String::from("Acme \\ Radio")),
                    (String::from("services"), String::from("[a, b]")),
                ],
            },
            ReportEntry {
                key: String::from("BB:11"),
                fields: vec![(String::from("manufacturer_data"), String::from("{\"6\":[1,2]}"))],
            },
        ],
    };
    let text = serialize_document(&doc);
    let parsed: serde_json::Value = serde_json::from_str(&text).expect("report must be valid JSON");
    assert_eq!(parsed["AA:00"]["fabricant"], serde_json::Value::String(String::from("Acme \\ Radio")));
    assert_eq!(parsed["AA:00"]["services"], serde_json::Value::String(String::from("[a, b]")));
    assert_eq!(
        parsed["BB:11"]["manufacturer_data"],
        serde_json::Value::String(String::from("{\"6\":[1,2]}"))
    );
    let obj = parsed.as_object().expect("top level is an object");
    assert_eq!(obj.len(), 2);
    assert_eq!(obj["AA:00"].as_object().expect("entry is an object").len(), 2);
}

#[test]
fn intervals_and_services_rendering() {
    let iv = vec![
        PresenceInterval { start: 0, end: 2 },
        PresenceInterval { start: 8, end: 9 },
        PresenceInterval { start: 20, end: 20 },
    ];
    assert_eq!(intervals_to_string(&iv), "0-2,8-9,20-20");
    let empty: Vec<PresenceInterval> = Vec::new();
    assert_eq!(intervals_to_string(&empty), "");
    let services = vec![String::from("000018f0"), String::from("0000180a")];
    assert_eq!(services_to_string(&services), "[000018f0, 0000180a]");
    let none: Vec<String> = Vec::new();
    assert_eq!(services_to_string(&none), "[]");
}

#[test]
fn build_details_enriches_and_flattens() {
    let table = vec![String::from("1,AABBCC,Acme 'Radio'")];
    let mut mfr: HashMap<u16, Vec<u8>> = HashMap::new();
    mfr.insert(6, vec![1, 2]);
    let mut svc: HashMap<String, Vec<u8>> = HashMap::new();
    svc.insert(String::from("0000180a"), vec![3]);
    let services = vec![String::from("0000180a")];
    let d = build_details(
        "AA:BB:CC:01:02:03",
        &table,
        Some(AddressKind::Random),
        Some(7936),
        Some(String::from("My \"Beacon\"")),
        &mfr,
        &svc,
        &services,
        Some(-55),
        None,
    );
    assert_eq!(d.manufacturer, "Acme  Radio ");
    assert_eq!(d.local_name, "My  Beacon ");
    assert_eq!(d.address_type, "Random");
    assert_eq!(d.device_class, "7936");
    assert_eq!(d.rssi, "-55");
    assert_eq!(d.tx_power_level, "Unknown");
    assert_eq!(d.services, "[0000180a]");
    assert_eq!(d.manufacturer_data, "{\"6\":[1,2]}");
    assert_eq!(d.service_data, "{\"0000180a\":[3]}");
}

#[test]
fn build_details_missing_name_and_vendor() {
    let table: Vec<String> = Vec::new();
    let mfr: HashMap<u16, Vec<u8>> = HashMap::new();
    let svc: HashMap<String, Vec<u8>> = HashMap::new();
    let services: Vec<String> = Vec::new();
    let d = build_details("11:22:33:44:55:66", &table, None, None, None, &mfr, &svc, &services, None, None);
    assert_eq!(d.manufacturer, "Unknown");
    assert_eq!(d.local_name, "Unknown");
    assert_eq!(d.address_type, "Unknown");
    assert_eq!(d.manufacturer_data, "{}");
    assert_eq!(d.service_data, "{}");
    assert_eq!(d.services, "[]");
}
