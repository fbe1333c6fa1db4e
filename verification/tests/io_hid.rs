use macmon::io_hid::{
    IOHIDSensors, Probe, EVENT_FIELD_TEMPERATURE, EVENT_TYPE_TEMPERATURE, HID_PAGE_APPLE_VENDOR,
    HID_USAGE_TEMPERATURE_SENSOR, PRIMARY_USAGE, PRIMARY_USAGE_PAGE,
};

fn probe(name: Option<&str>, celsius: Option<f32>) -> Probe {
    Probe { name: name.map(|n| n.to_string()), temperature: celsius.map(|c| c.to_bits()) }
}

fn metrics(probes: Option<Vec<Probe>>) -> Vec<(String, f32)> {
    let scanner = IOHIDSensors::new(0x1000).unwrap();
    scanner.get_metrics(probes).into_iter().map(|r| (r.0, f32::from_bits(r.1))).collect()
}

#[test]
fn matching_is_the_vendor_temperature_usage() {
    assert_eq!(PRIMARY_USAGE_PAGE, "PrimaryUsagePage");
    assert_eq!(PRIMARY_USAGE, "PrimaryUsage");
    assert_eq!(HID_PAGE_APPLE_VENDOR, 0xff00);
    assert_eq!(HID_USAGE_TEMPERATURE_SENSOR, 5);
    assert_eq!(EVENT_TYPE_TEMPERATURE, 15);
    assert_eq!(EVENT_FIELD_TEMPERATURE as i64, 15 << 16);
    assert_eq!(IOHIDSensors::new(77).unwrap().dictionary(), 77);
}

#[test]
fn no_client_and_no_services_give_no_readings() {
    assert!(metrics(None).is_empty());
    assert!(metrics(Some(Vec::new())).is_empty());
}

#[test]
fn readings_come_out_sorted_by_name() {
    let out = metrics(Some(vec![
        probe(Some("gas gauge battery"), Some(30.5)),
        probe(Some("PMU tdie2"), Some(41.0)),
        probe(Some("NAND CH0 temp"), Some(35.25)),
        probe(Some("PMU tdie10"), Some(43.0)),
        probe(Some("PMU tdie1"), Some(40.0)),
    ]));
    let expected = vec![
        ("NAND CH0 temp".to_string(), 35.25),
        ("PMU tdie1".to_string(), 40.0),
        ("PMU tdie10".to_string(), 43.0),
        ("PMU tdie2".to_string(), 41.0),
        ("gas gauge battery".to_string(), 30.5),
    ];
    assert_eq!(out, expected);
}

#[test]
fn services_without_name_or_event_are_skipped() {
    let out = metrics(Some(vec![
        probe(None, None),
        probe(Some("b"), None),
        probe(None, Some(1.0)),
        probe(Some("a"), Some(2.0)),
        probe(Some(""), Some(3.0)),
    ]));
    assert_eq!(out, vec![("".to_string(), 3.0), ("a".to_string(), 2.0)]);
}

#[test]
fn sort_is_stable() {
    let out = metrics(Some(vec![
        probe(Some("tdie"), Some(3.0)),
        probe(Some("tcal"), Some(9.0)),
        probe(Some("tdie"), Some(1.0)),
        probe(Some("tdie"), Some(2.0)),
        probe(Some("tcal"), Some(8.0)),
    ]));
    let expected = vec![
        ("tcal".to_string(), 9.0),
        ("tcal".to_string(), 8.0),
        ("tdie".to_string(), 3.0),
        ("tdie".to_string(), 1.0),
        ("tdie".to_string(), 2.0),
    ];
    assert_eq!(out, expected);
}

#[test]
fn sort_agrees_with_the_stable_sort_of_std() {
    let names = ["b", "a", "c", "a", "B", "", "ab", "a", "\u{e9}", "b", "aa", "c"];
    let probes: Vec<Probe> =
        names.iter().enumerate().map(|(i, n)| probe(Some(n), Some(i as f32))).collect();
    let mut expected: Vec<(String, f32)> =
        names.iter().enumerate().map(|(i, n)| (n.to_string(), i as f32)).collect();
    expected.sort_by(|a, b| a.0.partial_cmp(&b.0).unwrap());
    assert_eq!(metrics(Some(probes)), expected);
}

#[test]
fn odd_readings_are_passed_on_as_they_are() {
    let scanner = IOHIDSensors::new(1).unwrap();
    let out = scanner.get_metrics(Some(vec![
        Probe { name: Some("nan".to_string()), temperature: Some(f32::NAN.to_bits()) },
        Probe { name: Some("cold".to_string()), temperature: Some((-273.15f32).to_bits()) },
    ]));
    assert_eq!(out[0], ("cold".to_string(), (-273.15f32).to_bits()));
    assert_eq!(out[1].0, "nan");
    assert!(f32::from_bits(out[1].1).is_nan());
}
