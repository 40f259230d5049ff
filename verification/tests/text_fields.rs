use presence_scan::numfmt::{
    address_type_to_string, class_to_string, i16_to_string, rssi_to_string,
    tx_power_level_to_string, u64_to_string, AddressKind,
};
use presence_scan::sanitize::sanitize_string;
use presence_scan::vendor::get_manufacturer;

#[test]
fn sanitize_strips_quotes() {
    assert_eq!(sanitize_string(String::from("a'b`c\"d")), "a b c d");
}

#[test]
fn sanitize_idempotent_examples() {
    let once = sanitize_string(String::from("it's \"here\" `now`"));
    let twice = sanitize_string(once.clone());
    assert_eq!(once, twice);
    assert!(!once.contains('\''));
    assert!(!once.contains('"'));
    assert!(!once.contains('`'));
}

#[test]
fn sanitize_keeps_plain_text() {
    assert_eq!(sanitize_string(String::from("plain name 7")), "plain name 7");
    assert_eq!(sanitize_string(String::new()), "");
}

#[test]
fn decimal_rendering() {
    assert_eq!(u64_to_string(0), "0");
    assert_eq!(u64_to_string(90210), "90210");
    assert_eq!(i16_to_string(0), "0");
    assert_eq!(i16_to_string(-42), "-42");
    assert_eq!(i16_to_string(i16::MIN), "-32768");
    assert_eq!(i16_to_string(i16::MAX), "32767");
}

#[test]
fn optional_radio_fields() {
    assert_eq!(class_to_string(None), "Unknown");
    assert_eq!(class_to_string(Some(7936)), "7936");
    assert_eq!(rssi_to_string(Some(-60)), "-60");
    assert_eq!(rssi_to_string(None), "Unknown");
    assert_eq!(tx_power_level_to_string(Some(4)), "4");
    assert_eq!(tx_power_level_to_string(None), "Unknown");
    assert_eq!(address_type_to_string(Some(AddressKind::Public)), "Public");
    assert_eq!(address_type_to_string(Some(AddressKind::Random)), "Random");
    assert_eq!(address_type_to_string(None), "Unknown");
}

#[test]
fn vendor_known_prefix() {
    let table = vec![
        String::from("1,AABBCC,Acme Radio,extra"),
        String::from("2,DDEEFF,Other Corp"),
    ];
    assert_eq!(get_manufacturer("AA:BB:CC:01:02:03", &table), "Acme Radio");
    assert_eq!(get_manufacturer("DD:EE:FF:01:02:03", &table), "Other Corp");
}

#[test]
fn vendor_unknown_prefix() {
    let table = vec![String::from("1,AABBCC,Acme Radio")];
    assert_eq!(get_manufacturer("11:22:33:44:55:66", &table), "Unknown");
    let empty: Vec<String> = Vec::new();
    assert_eq!(get_manufacturer("11:22:33:44:55:66", &empty), "Unknown");
}

#[test]
fn vendor_first_match_wins_and_short_lines_are_skipped() {
    let table = vec![
        String::from("short line"),
        String::from("1,AABBCC,First"),
        String::from("1,AABBCC,Second"),
    ];
    assert_eq!(get_manufacturer("AA:BB:CC:00:00:00", &table), "First");
}
