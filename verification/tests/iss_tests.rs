use open_notify_api::error::OpenNotificationError;
use open_notify_api::{iss_now_from_json, iss_pass_times_from_json};

#[test]
fn iss_now_parse_successful_data() {
    let input_data = r#"{
        "iss_position": {"longitude": "73.5964", "latitude": "-34.6445"},
        "message": "success",
        "timestamp": 1521971230}"#;
    if let Ok(iss_now) = iss_now_from_json(input_data) {
        assert_eq!(iss_now.message(), "success");
        assert_eq!(iss_now.timestamp(), 1521971230);
        assert_eq!(iss_now.latitude(), "-34.6445");
        assert_eq!(iss_now.longitude(), "73.5964");
    } else {
        assert!(false);
    }
}

#[test]
fn iss_now_parse_unsuccessful_data() {
    let input_data = r#"{
        "iss_position": {"longitude": "73.5964", "latitude": "-34.6445"},
        "message": "failure",
        "timestamp": 1521971230}"#;
    match iss_now_from_json(input_data) {
        Err(OpenNotificationError::Data(m)) => {
            assert_eq!(m, "attribute message indicates no success but failure");
        }
        _ => assert!(false),
    }
}

#[test]
fn iss_now_parse_missing_position() {
    let input_data = r#"{"message": "success", "timestamp": 1521971230}"#;
    assert!(matches!(
        iss_now_from_json(input_data),
        Err(OpenNotificationError::Parsing(_))
    ));
}

#[test]
fn iss_now_parse_largest_timestamp() {
    let input_data = r#"{
        "iss_position": {"longitude": "0.0", "latitude": "0.0"},
        "message": "success",
        "timestamp": 9223372036854775807}"#;
    let iss_now = iss_now_from_json(input_data).unwrap();
    assert_eq!(iss_now.timestamp(), 9223372036854775807);
}

#[test]
fn iss_now_parse_rejects_oversized_timestamp() {
    let input_data = r#"{
        "iss_position": {"longitude": "0.0", "latitude": "0.0"},
        "message": "success",
        "timestamp": 9223372036854775808}"#;
    assert!(matches!(
        iss_now_from_json(input_data),
        Err(OpenNotificationError::Parsing(_))
    ));
}

#[test]
fn iss_now_parse_negative_timestamp() {
    let input_data = r#"{
        "iss_position": {"latitude": "1.5", "longitude": "-2.25"},
        "message": "success",
        "timestamp": -12}"#;
    let iss_now = iss_now_from_json(input_data).unwrap();
    assert_eq!(iss_now.timestamp(), -12);
    assert_eq!(iss_now.latitude(), "1.5");
    assert_eq!(iss_now.longitude(), "-2.25");
}

#[test]
fn pass_times_parse_successful_data() {
    let input_data = r#"{
        "message": "success",
        "request": {
            "altitude": 100.0,
            "datetime": 1521980000,
            "latitude": 52.5,
            "longitude": 13.4,
            "passes": 2
        },
        "response": [
            {"duration": 623, "risetime": 1521981000},
            {"duration": 169, "risetime": 1521987000}
        ]}"#;
    let reply = iss_pass_times_from_json(input_data).unwrap();
    assert_eq!(reply.passes().len(), 2);
    assert_eq!(reply.passes()[0].rise(), 1521981000);
    assert_eq!(reply.passes()[0].duration(), 623);
    assert_eq!(reply.passes()[1].rise(), 1521987000);
    assert_eq!(reply.passes()[1].duration(), 169);
}

#[test]
fn pass_times_failure_surfaces_reason() {
    let input_data = r#"{"message": "error", "reason": "bad altitude"}"#;
    match iss_pass_times_from_json(input_data) {
        Err(OpenNotificationError::Data(m)) => assert_eq!(m, "bad altitude"),
        _ => assert!(false),
    }
}

#[test]
fn pass_times_failure_without_reason_is_empty() {
    let input_data = r#"{"message": "error"}"#;
    match iss_pass_times_from_json(input_data) {
        Err(OpenNotificationError::Data(m)) => assert_eq!(m, ""),
        _ => assert!(false),
    }
}

#[test]
fn pass_times_missing_response_defaults_empty() {
    let input_data = r#"{"message": "success"}"#;
    let reply = iss_pass_times_from_json(input_data).unwrap();
    assert_eq!(reply.passes().len(), 0);
}

#[test]
fn pass_times_missing_message_is_parsing_error() {
    let input_data = r#"{"reason": "bad altitude"}"#;
    assert!(matches!(
        iss_pass_times_from_json(input_data),
        Err(OpenNotificationError::Parsing(_))
    ));
}

#[test]
fn pass_times_negative_risetime() {
    let input_data = r#"{"message": "success", "response": [{"risetime": -5, "duration": 0}]}"#;
    let reply = iss_pass_times_from_json(input_data).unwrap();
    assert_eq!(reply.passes()[0].rise(), -5);
    assert_eq!(reply.passes()[0].duration(), 0);
}

#[test]
fn iss_now_rejects_duplicate_position() {
    let input_data = r#"{
        "iss_position": {"latitude": "1", "longitude": "2"},
        "iss_position": {"latitude": "1", "longitude": "2"},
        "message": "success",
        "timestamp": 1}"#;
    assert!(matches!(
        iss_now_from_json(input_data),
        Err(OpenNotificationError::Parsing(_))
    ));
}
