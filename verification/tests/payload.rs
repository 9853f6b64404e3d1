use smech_farm::payload::{heartbeat_payload, package_payload, report_payload};

#[test]
fn a_heartbeat_is_an_object_with_its_keys_in_order() {
    assert_eq!(
        heartbeat_payload("w1", "box", "10.0.0.5", 16),
        r#"{"cores":16,"hostname":"box","id":"w1","ip_addr":"10.0.0.5"}"#
    );
}

#[test]
fn a_request_for_a_package() {
    assert_eq!(
        package_payload("kio", &Some("6.27".to_string()), "w1"),
        r#"{"package_name":"kio","version":"6.27","worker_id":"w1"}"#
    );
    assert_eq!(
        package_payload("kio", &None, "w1"),
        r#"{"package_name":"kio","version":null,"worker_id":"w1"}"#
    );
}

#[test]
fn a_report_on_a_job() {
    assert_eq!(
        report_payload(Some(12), "done", "w1"),
        r#"{"job_id":12,"status":"done","worker_id":"w1"}"#
    );
    assert_eq!(
        report_payload(Some(i64::MIN), "failed", "w1"),
        r#"{"job_id":-9223372036854775808,"status":"failed","worker_id":"w1"}"#
    );
    assert_eq!(
        report_payload(None, "failed", "w1"),
        r#"{"job_id":null,"status":"failed","worker_id":"w1"}"#
    );
}

#[test]
fn texts_are_escaped() {
    let odd = "\"\\/\u{8}\u{9}\u{a}\u{c}\u{d}\u{0}\u{1f}\u{7f}é\u{1f600}";
    let sent = package_payload(odd, &None, "");
    assert_eq!(
        sent,
        "{\"package_name\":\"\\\"\\\\/\\b\\t\\n\\f\\r\\u0000\\u001f\u{7f}é\u{1f600}\",\"version\":null,\"worker_id\":\"\"}"
    );
}

#[test]
fn what_is_sent_is_read_back() {
    for n in 0..0x180u32 {
        let name: String = char::from_u32(n).into_iter().collect();
        let sent = package_payload(&name, &Some(name.clone()), "w");
        let read: serde_json::Value = serde_json::from_str(&sent).unwrap();
        assert_eq!(read["package_name"], serde_json::Value::from(name.clone()));
        assert_eq!(read["version"], serde_json::Value::from(name));
        assert_eq!(read["worker_id"], serde_json::Value::from("w"));
    }
}
