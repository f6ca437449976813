use baseline_core::json_view::{num_or_str, object, preview_len, JsonNode, JsonValue};
use serde_json::Value;

fn json(value: &JsonValue) -> Value {
    match value {
        JsonValue::Object => Value::Object(serde_json::Map::new()),
        JsonValue::Integer(n) => Value::from(*n),
        JsonValue::Text(s) => Value::from(s.as_str()),
        JsonValue::Plain(s) => match s.parse::<f64>() {
            Ok(f) if f.is_finite() => Value::from(f),
            _ => Value::from(s.as_str()),
        },
        JsonValue::Integers(list) => Value::from(list.clone()),
    }
}

fn tree(nodes: &[JsonNode]) -> Value {
    let mut root = Value::Object(serde_json::Map::new());
    for node in nodes {
        let (last, outer) = node.path.split_last().unwrap();
        let mut at = &mut root;
        for key in outer {
            at = &mut at[key.as_str()];
        }
        at[last.as_str()] = json(&node.value);
    }
    root
}

#[test]
fn num_or_str_parses_numbers_but_keeps_markers() {
    assert_eq!(json(&num_or_str(" 42 ")), Value::from(42));
    assert_eq!(json(&num_or_str("3.5")), Value::from(3.5));
    assert_eq!(json(&num_or_str("E225")), Value::from("E225"));
}

#[test]
fn object_preserves_insertion_order() {
    let members = object(vec![
        ("b".to_string(), JsonValue::Integer(1)),
        ("a".to_string(), JsonValue::Integer(2)),
    ]);
    let v = Value::Object(members.iter().map(|(k, v)| (k.clone(), json(v))).collect());
    assert_eq!(serde_json::to_string(&v).unwrap(), r#"{"b":1,"a":2}"#);
}

#[test]
fn a_later_value_takes_the_place_of_an_earlier_one() {
    let pairs = vec![
        ("b".to_string(), JsonValue::Integer(1)),
        ("a".to_string(), JsonValue::Integer(2)),
        ("b".to_string(), JsonValue::Integer(3)),
    ];
    let expected: serde_json::Map<String, Value> =
        pairs.iter().map(|(k, v)| (k.clone(), json(v))).collect();
    let members = object(pairs);
    assert_eq!(members.len(), 2);
    let kept: serde_json::Map<String, Value> =
        members.iter().map(|(k, v)| (k.clone(), json(v))).collect();
    assert_eq!(
        serde_json::to_string(&Value::Object(kept)).unwrap(),
        serde_json::to_string(&Value::Object(expected)).unwrap()
    );
    assert_eq!(members[0].0, "b");
    assert!(matches!(members[0].1, JsonValue::Integer(3)));
}

#[test]
fn numbers_beyond_an_integer_stay_as_text() {
    assert!(matches!(num_or_str("9223372036854775807"), JsonValue::Integer(i64::MAX)));
    assert!(matches!(num_or_str("9223372036854775808"), JsonValue::Plain(_)));
    assert!(matches!(num_or_str(""), JsonValue::Plain(_)));
    assert!(matches!(num_or_str("-5"), JsonValue::Integer(-5)));
}

#[test]
fn the_preview_shows_twenty_rows() {
    assert_eq!(preview_len(0), 0);
    assert_eq!(preview_len(20), 20);
    assert_eq!(preview_len(21), 20);
}

#[test]
fn rows_become_objects_in_order() {
    let segment = baseline_core::line::split_hex_data(&format!("E225{}", "00".repeat(2062)));
    let line = baseline_core::calibration::data_processor::parse_calibration_line(&segment).unwrap();
    let row = baseline_core::calibration_mode::CalibrationRow::from_line(
        line,
        vec!["1".to_string(), "2.5".to_string()],
    );
    let value = tree(&baseline_core::calibration_mode::calibration_row_json(&row));
    let keys: Vec<&String> = value.as_object().unwrap().keys().collect();
    assert_eq!(
        keys,
        vec!["header", "calibration_voltage_step", "tail", "reserved", "checksum"]
    );
    assert_eq!(
        serde_json::to_string(&value["header"]).unwrap(),
        r#"{"packet_sync_code":"E225","packet_id":0,"pakcet_seq":0,"packet_data_len":0,"time":"2024-10-01 00:00:00.000","data_type":"0000","sample_index":0}"#
    );
    let steps = value["calibration_voltage_step"].as_object().unwrap();
    assert_eq!(steps.len(), 11);
    assert_eq!(steps.keys().next().unwrap(), "00v");
    assert_eq!(steps.keys().last().unwrap(), "10v");
    assert_eq!(value["calibration_voltage_step"]["03v"]["l6"], Value::from(vec![0; 16]));
    assert_eq!(
        serde_json::to_string(&value["tail"]).unwrap(),
        r#"{"dssd1_temperature":1,"fee1_current":2.5}"#
    );
    assert_eq!(value["checksum"], Value::from("0000"));
}

#[test]
fn flux_rows_become_objects_in_order() {
    let mut text = format!("E225{}", "00".repeat(2062));
    text.replace_range(32..36, "01F4");
    text.replace_range(36..40, "0007");
    text.replace_range(64..68, "6003");
    let segment = baseline_core::line::split_hex_data(&text);
    let line = baseline_core::flux::data_processor::parse_flux_line(&segment).unwrap();
    let row = baseline_core::flux_mode::FluxRow::from_line(line, vec!["9".to_string()]);
    let value = tree(&baseline_core::flux_mode::flux_row_json(&row));
    let keys: Vec<&str> = value.as_object().unwrap().keys().map(|k| k.as_str()).collect();
    assert_eq!(keys[0], "header");
    assert_eq!(keys[1], "particle_counts_l1");
    assert_eq!(keys[7], "particle_counts_l7");
    assert_eq!(keys[8..], ["particle_info", "tail", "reserved", "checksum"]);
    assert_eq!(value["header"]["particle_time"], Value::from(500));
    assert_eq!(value["particle_counts_l1"], Value::from(7));
    assert_eq!(value["particle_info"][0], Value::from(0x6003));
    assert_eq!(value["particle_info"].as_array().unwrap().len(), 1000);
    assert_eq!(
        serde_json::to_string(&value["tail"]).unwrap(),
        r#"{"dssd_1_temperature":9}"#
    );
}
