use sht20_node::status::{
    centi_value_text, decimal_text, initial_status, status_payload, status_round, switch_label,
    StatusState, STATUS_PERIOD_MS,
};

#[test]
fn decimal_text_writes_numbers() {
    assert_eq!(decimal_text(0), "0");
    assert_eq!(decimal_text(7), "7");
    assert_eq!(decimal_text(10), "10");
    assert_eq!(decimal_text(4294967295), "4294967295");
}

#[test]
fn centi_values_have_two_decimals() {
    assert_eq!(centi_value_text(0), "0.00");
    assert_eq!(centi_value_text(5), "0.05");
    assert_eq!(centi_value_text(2534), "25.34");
    assert_eq!(centi_value_text(10000), "100.00");
}

#[test]
fn centi_text_agrees_with_float_formatting_on_sensor_range() {
    for v in 0u32..=20000 {
        assert_eq!(centi_value_text(v), format!("{:.2}", (v as f32) / 100.), "{}", v);
    }
}

#[test]
fn centi_text_reads_back() {
    for v in [0u32, 1, 99, 100, 12345, 4294967295].iter() {
        let t = centi_value_text(*v);
        assert_eq!(t.replace('.', "").parse::<u64>().unwrap(), *v as u64);
    }
}

#[test]
fn switch_labels() {
    assert_eq!(switch_label(1), "开");
    assert_eq!(switch_label(0), "关");
    assert_eq!(switch_label(2), "关");
}

#[test]
fn payload_layout() {
    let expected = "[\n                    {\"k\": \"T\",\"v\":\"25.34\"},\n                    {\"k\": \"H\",\"v\":\"40.50\"},\n                    {\"k\": \"On\",\"v\":\"开\"}\n                  ]";
    assert_eq!(status_payload(2534, 4050, 1), expected);
}

#[test]
fn initial_status_defaults() {
    let s = initial_status(None, None, None);
    assert_eq!((s.switch_on, s.temp_centi, s.hum_centi), (1, 0, 0));
    let s = initial_status(Some(0), Some(2100), Some(3300));
    assert_eq!((s.switch_on, s.temp_centi, s.hum_centi), (0, 2100, 3300));
}

#[test]
fn round_keeps_old_value_on_failed_reading() {
    let mut s = StatusState { temp_centi: 2000, hum_centi: 3000, switch_on: 0 };
    let r = status_round(&mut s, None, Some(3100));
    assert_eq!((s.temp_centi, s.hum_centi), (2000, 3100));
    assert_eq!(r.store_temp, None);
    assert_eq!(r.store_hum, Some(3100));
    assert_eq!(r.publish.unwrap(), status_payload(2000, 3100, 0));
}

#[test]
fn round_publishes_only_with_both_values_positive() {
    let mut s = initial_status(Some(1), None, None);
    let r = status_round(&mut s, Some(2500), None);
    assert!(r.publish.is_none());
    let r = status_round(&mut s, None, None);
    assert!(r.publish.is_none());
    assert_eq!(r.store_temp, None);
    let r = status_round(&mut s, None, Some(1));
    assert_eq!(r.publish.unwrap(), status_payload(2500, 1, 1));
    let r = status_round(&mut s, Some(0), None);
    assert!(r.publish.is_none());
    assert_eq!(r.store_temp, Some(0));
}

#[test]
fn every_round_waits_a_minute() {
    let mut s = initial_status(None, None, None);
    assert_eq!(status_round(&mut s, None, None).pause_ms, 60000);
    assert_eq!(status_round(&mut s, Some(1), Some(1)).pause_ms, STATUS_PERIOD_MS);
}
