use live_chart::chart::{Chart, ChartType, LineColor, YRange};
use live_chart::error::Error;
use live_chart::registry::Charts;

fn y_range(start: &str, end: &str) -> YRange {
    YRange { start: String::from(start), end: String::from(end) }
}

fn temp_chart() -> Chart {
    Chart::new(
        String::from("Temp"),
        ChartType::PassThru(3),
        1000,
        y_range("0.0", "100.0"),
    )
}

fn log_chart() -> Chart {
    Chart::new(String::from("Log"), ChartType::Stack, 500, y_range("-1.0", "1.0"))
}

#[test]
fn create_then_exists() {
    let mut reg = Charts::new();
    assert!(!reg.contains(1, 0));
    assert!(reg.insert_chart(1, temp_chart(), 60000, 0).is_ok());
    assert!(reg.contains(1, 0));
    assert!(reg.contains(1, 60000));
}

#[test]
fn duplicate_create_rejected_and_state_kept() {
    let mut reg = Charts::new();
    reg.insert_chart(1, temp_chart(), 60000, 0).unwrap();
    reg.new_label(1, String::from("a"), LineColor::init(1, 2, 3), 0).unwrap();
    reg.insert_data(1, String::from("a"), String::from("7.5"), 0).unwrap();
    let before = reg.get_lines_as_json_string(1, 0).unwrap();

    let second = reg.insert_chart(1, log_chart(), 60000, 0);
    assert_eq!(second, Err(Error::AlreadyExistIndexError));

    let after = reg.get_lines_as_json_string(1, 0).unwrap();
    assert_eq!(before, after);
    assert!(reg.contains(1, 0));
}

#[test]
fn scenario_sliding_window_snapshot() {
    let mut reg = Charts::new();
    reg.insert_chart(1, temp_chart(), 60000, 0).unwrap();
    reg.new_label(1, String::from("sensorA"), LineColor::init(255, 0, 0), 0).unwrap();
    for v in ["1.0", "2.0", "3.0", "4.0"] {
        reg.insert_data(1, String::from("sensorA"), String::from(v), 0).unwrap();
    }
    let lines = reg.get_lines_as_json_string(1, 0).unwrap();
    assert_eq!(lines, "{\"sensorA\":[[2.0,3.0,4.0],{\"r\":255,\"g\":0,\"b\":0}]}");
}

#[test]
fn scenario_immediate_duplicate() {
    let mut reg = Charts::new();
    reg.insert_chart(2, log_chart(), 1000, 0).unwrap();
    let second = reg.insert_chart(
        2,
        Chart::new(String::from("Log"), ChartType::Stack, 500, y_range("-1.0", "1.0")),
        1000,
        0,
    );
    assert_eq!(second, Err(Error::AlreadyExistIndexError));
}

#[test]
fn unknown_chart_before_unknown_label() {
    let mut reg = Charts::new();
    // Nonexistent chart: the chart error comes first, whatever the label.
    let r = reg.insert_data(9, String::from("nope"), String::from("1.0"), 0);
    assert_eq!(r, Err(Error::InvalidChartNumberError));

    reg.insert_chart(9, log_chart(), 60000, 0).unwrap();
    let r = reg.insert_data(9, String::from("nope"), String::from("1.0"), 0);
    assert_eq!(r, Err(Error::InvalidLineLabelError));

    reg.new_label(9, String::from("nope"), LineColor::init(0, 0, 0), 0).unwrap();
    assert!(reg.insert_data(9, String::from("nope"), String::from("1.0"), 0).is_ok());
}

#[test]
fn unknown_chart_errors_everywhere() {
    let mut reg = Charts::new();
    assert_eq!(
        reg.new_label(3, String::from("x"), LineColor::init(0, 0, 0), 0),
        Err(Error::InvalidChartNumberError)
    );
    assert_eq!(reg.get_lines_as_json_string(3, 0), Err(Error::InvalidChartNumberError));
    assert_eq!(reg.get_info_as_json_string(3, 0), Err(Error::InvalidChartNumberError));
    assert_eq!(reg.resize_viewport(3, 2, 0), Err(Error::InvalidChartNumberError));
}

#[test]
fn idle_timeout_evicts() {
    let mut reg = Charts::new();
    reg.insert_chart(1, temp_chart(), 1000, 0).unwrap();
    // Exactly at the timeout the chart is still live; beyond it, gone.
    assert!(reg.contains(1, 1000));
    assert!(!reg.contains(1, 1001));
    assert_eq!(
        reg.insert_data(1, String::from("a"), String::from("1.0"), 1001),
        Err(Error::InvalidChartNumberError)
    );
    assert_eq!(reg.get_lines_as_json_string(1, 1001), Err(Error::InvalidChartNumberError));
}

#[test]
fn touch_resets_idle_timer() {
    let mut reg = Charts::new();
    reg.insert_chart(1, log_chart(), 1000, 0).unwrap();
    reg.new_label(1, String::from("a"), LineColor::init(0, 0, 0), 900).unwrap();
    // The label registration at 900 reset the timer: live until 1900.
    assert!(reg.contains(1, 1900));
    assert!(!reg.contains(1, 1901));
}

#[test]
fn existence_probe_does_not_reset_timer() {
    let mut reg = Charts::new();
    reg.insert_chart(1, log_chart(), 1000, 0).unwrap();
    assert!(reg.contains(1, 900));
    // The probe at 900 was read-only: the entry expired at 1001 all the same.
    assert!(!reg.contains(1, 1500));
}

#[test]
fn eviction_frees_the_id_for_reuse() {
    let mut reg = Charts::new();
    reg.insert_chart(1, temp_chart(), 1000, 0).unwrap();
    assert!(!reg.contains(1, 5000));
    assert!(reg.insert_chart(1, log_chart(), 1000, 5000).is_ok());
    let info = reg.get_info_as_json_string(1, 5000).unwrap();
    assert!(info.contains("\"caption\":\"Log\""));
}

#[test]
fn independent_charts_do_not_interfere() {
    let mut reg = Charts::new();
    reg.insert_chart(1, temp_chart(), 60000, 0).unwrap();
    reg.insert_chart(2, log_chart(), 60000, 0).unwrap();
    reg.new_label(1, String::from("a"), LineColor::init(1, 1, 1), 0).unwrap();
    reg.new_label(2, String::from("b"), LineColor::init(2, 2, 2), 0).unwrap();
    reg.insert_data(2, String::from("b"), String::from("0.5"), 0).unwrap();
    let one = reg.get_lines_as_json_string(1, 0).unwrap();
    let two = reg.get_lines_as_json_string(2, 0).unwrap();
    assert_eq!(one, "{\"a\":[[],{\"r\":1,\"g\":1,\"b\":1}]}");
    assert_eq!(two, "{\"b\":[[0.5],{\"r\":2,\"g\":2,\"b\":2}]}");
}

#[test]
fn registry_resize_viewport_truncates() {
    let mut reg = Charts::new();
    reg.insert_chart(1, Chart::new(String::from("w"), ChartType::PassThru(5), 100, y_range("0.0", "1.0")), 60000, 0).unwrap();
    reg.new_label(1, String::from("a"), LineColor::init(0, 0, 0), 0).unwrap();
    for v in ["1.0", "2.0", "3.0", "4.0", "5.0"] {
        reg.insert_data(1, String::from("a"), String::from(v), 0).unwrap();
    }
    reg.resize_viewport(1, 2, 0).unwrap();
    let lines = reg.get_lines_as_json_string(1, 0).unwrap();
    assert_eq!(lines, "{\"a\":[[4.0,5.0],{\"r\":0,\"g\":0,\"b\":0}]}");
    let info = reg.get_info_as_json_string(1, 0).unwrap();
    assert!(info.contains("{\"PassThru\":2}"));
}
