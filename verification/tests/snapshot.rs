use live_chart::chart::{Chart, ChartType, LineColor, YRange};
use live_chart::registry::Charts;
use live_chart::snapshot::info_to_json;
use live_chart::text::{to_json_string, u64_to_dec};

fn y_range(start: &str, end: &str) -> YRange {
    YRange { start: String::from(start), end: String::from(end) }
}

#[test]
fn decimal_rendering() {
    assert_eq!(u64_to_dec(0), "0");
    assert_eq!(u64_to_dec(7), "7");
    assert_eq!(u64_to_dec(10), "10");
    assert_eq!(u64_to_dec(1234567890), "1234567890");
    assert_eq!(u64_to_dec(u64::MAX), "18446744073709551615");
}

#[test]
fn json_string_escaping_plain() {
    assert_eq!(to_json_string(""), "\"\"");
    assert_eq!(to_json_string("sensorA"), "\"sensorA\"");
    assert_eq!(to_json_string("päivä"), "\"päivä\"");
}

#[test]
fn json_string_escaping_matches_reference_encoder() {
    let cases = [
        "plain",
        "with \"quotes\"",
        "back\\slash",
        "line\nbreak\ttab\rret",
        "ctrl\u{1}\u{b}\u{8}\u{c}\u{1f}",
        "unicode π … 漢",
        "",
    ];
    for s in cases {
        assert_eq!(to_json_string(s), serde_json::to_string(s).unwrap());
    }
}

#[test]
fn metadata_snapshot_exact_shape() {
    let c = Chart::new(
        String::from("Temp"),
        ChartType::PassThru(3),
        1000,
        y_range("0.0", "100.0"),
    );
    assert_eq!(
        info_to_json(&c.info),
        "{\"caption\":\"Temp\",\"chart_type\":{\"PassThru\":3},\"interval\":{\"secs\":1,\"nanos\":0},\"y_range\":{\"start\":0.0,\"end\":100.0}}"
    );
}

#[test]
fn metadata_snapshot_matches_reference_encoder_fields() {
    // The interval and y-range fields must serialize exactly as the standard
    // structures do under the reference JSON encoder.
    let interval_ms: u64 = 1500;
    let c = Chart::new(
        String::from("Log"),
        ChartType::Stack,
        interval_ms,
        y_range("-1.0", "1.0"),
    );
    let info = info_to_json(&c.info);
    let interval = serde_json::to_string(&std::time::Duration::from_millis(interval_ms)).unwrap();
    let range = serde_json::to_string(&(-1.0f64..1.0f64)).unwrap();
    let caption = serde_json::to_string("Log").unwrap();
    let expected = format!(
        "{{\"caption\":{},\"chart_type\":\"Stack\",\"interval\":{},\"y_range\":{}}}",
        caption, interval, range
    );
    assert_eq!(info, expected);
}

#[test]
fn lines_snapshot_matches_reference_encoder() {
    let mut reg = Charts::new();
    reg.insert_chart(
        1,
        Chart::new(String::from("t"), ChartType::Stack, 100, y_range("0.0", "1.0")),
        60000,
        0,
    )
    .unwrap();
    reg.new_label(1, String::from("a b\"c"), LineColor::init(1, 2, 3), 0).unwrap();
    for v in [0.5f64, 1.25, -3.75] {
        reg.insert_data(1, String::from("a b\"c"), serde_json::to_string(&v).unwrap(), 0)
            .unwrap();
    }
    let got = reg.get_lines_as_json_string(1, 0).unwrap();

    let mut samples: std::collections::VecDeque<f64> = std::collections::VecDeque::new();
    samples.push_back(0.5);
    samples.push_back(1.25);
    samples.push_back(-3.75);
    let key = serde_json::to_string("a b\"c").unwrap();
    let sample_text = serde_json::to_string(&samples).unwrap();
    let expected = format!("{{{}:[{},{{\"r\":1,\"g\":2,\"b\":3}}]}}", key, sample_text);
    assert_eq!(got, expected);
}

#[test]
fn empty_chart_snapshots() {
    let mut reg = Charts::new();
    reg.insert_chart(
        4,
        Chart::new(String::from(""), ChartType::Stack, 0, y_range("0.0", "0.0")),
        60000,
        0,
    )
    .unwrap();
    assert_eq!(reg.get_lines_as_json_string(4, 0).unwrap(), "{}");
    assert_eq!(
        reg.get_info_as_json_string(4, 0).unwrap(),
        "{\"caption\":\"\",\"chart_type\":\"Stack\",\"interval\":{\"secs\":0,\"nanos\":0},\"y_range\":{\"start\":0.0,\"end\":0.0}}"
    );
}

#[test]
fn interval_millis_split_into_secs_and_nanos() {
    let c = Chart::new(String::from("i"), ChartType::Stack, 61999, y_range("0.0", "1.0"));
    let info = info_to_json(&c.info);
    assert!(info.contains("\"interval\":{\"secs\":61,\"nanos\":999000000}"));
    let reference = serde_json::to_string(&std::time::Duration::from_millis(61999)).unwrap();
    assert!(info.contains(&reference));
}
