use open_notify_api::{
    astro_from_json, iss_now_from_json, iss_pass_times_from_json, Astros, IssNow, IssPassTime,
    IssPassTimes, Person,
};

#[test]
fn person_serializes_canonically() {
    let p = Person::new("Anton Shkaplerov", "ISS");
    assert_eq!(p.to_json(), r#"{"name":"Anton Shkaplerov","craft":"ISS"}"#);
}

#[test]
fn astros_round_trip() {
    let people = vec![
        Person::new("Anton Shkaplerov", "ISS"),
        Person::new("Oleg Artemyev", "Soyuz MS-08"),
    ];
    let astros = Astros::new("success", 2, people);
    let text = astros.to_json();
    let back = astro_from_json(&text).unwrap();
    assert_eq!(back.message(), "success");
    assert_eq!(back.people().len(), 2);
    assert_eq!(back.people()[0].name(), "Anton Shkaplerov");
    assert_eq!(back.people()[0].craft(), "ISS");
    assert_eq!(back.people()[1].name(), "Oleg Artemyev");
    assert_eq!(back.people()[1].craft(), "Soyuz MS-08");
}

#[test]
fn astros_round_trip_empty_people() {
    let astros = Astros::new("success", 0, vec![]);
    let text = astros.to_json();
    assert_eq!(text, r#"{"message":"success","number":0,"people":[]}"#);
    let back = astro_from_json(&text).unwrap();
    assert_eq!(back.people().len(), 0);
}

#[test]
fn iss_now_round_trip() {
    let report = IssNow::new("success", 1521971230, "-34.6445", "73.5964");
    let text = report.to_json();
    let back = iss_now_from_json(&text).unwrap();
    assert_eq!(back.message(), "success");
    assert_eq!(back.timestamp(), 1521971230);
    assert_eq!(back.latitude(), "-34.6445");
    assert_eq!(back.longitude(), "73.5964");
}

#[test]
fn iss_now_round_trip_negative_timestamp() {
    let report = IssNow::new("success", -7, "0.0", "0.0");
    let back = iss_now_from_json(&report.to_json()).unwrap();
    assert_eq!(back.timestamp(), -7);
}

#[test]
fn pass_times_round_trip() {
    let passes = vec![IssPassTime::new(1521981000, 623), IssPassTime::new(1521987000, 169)];
    let reply = IssPassTimes::new("success", "", passes);
    let text = reply.to_json();
    let back = iss_pass_times_from_json(&text).unwrap();
    assert_eq!(back.passes().len(), 2);
    assert_eq!(back.passes()[0].rise(), 1521981000);
    assert_eq!(back.passes()[0].duration(), 623);
    assert_eq!(back.passes()[1].rise(), 1521987000);
    assert_eq!(back.passes()[1].duration(), 169);
}

#[test]
fn pass_times_round_trip_failure_reason() {
    let reply = IssPassTimes::new("error", "bad altitude", vec![]);
    let text = reply.to_json();
    match iss_pass_times_from_json(&text) {
        Err(open_notify_api::error::OpenNotificationError::Data(m)) => {
            assert_eq!(m, "bad altitude");
        }
        _ => assert!(false),
    }
}

#[test]
fn serialized_astros_is_valid_json_for_serde() {
    let people = vec![Person::new("Scott Tingle", "ISS")];
    let astros = Astros::new("success", 1, people);
    let value: serde_json::Value = serde_json::from_str(&astros.to_json()).unwrap();
    assert_eq!(value["message"], "success");
    assert_eq!(value["number"], 1);
    assert_eq!(value["people"][0]["name"], "Scott Tingle");
    assert_eq!(value["people"][0]["craft"], "ISS");
}

#[test]
fn serialized_iss_now_is_valid_json_for_serde() {
    let report = IssNow::new("success", 1521971230, "-34.6445", "73.5964");
    let value: serde_json::Value = serde_json::from_str(&report.to_json()).unwrap();
    assert_eq!(value["timestamp"], 1521971230);
    assert_eq!(value["iss_position"]["latitude"], "-34.6445");
    assert_eq!(value["iss_position"]["longitude"], "73.5964");
}

#[test]
fn serialized_pass_times_is_valid_json_for_serde() {
    let reply = IssPassTimes::new("success", "", vec![IssPassTime::new(-5, 10)]);
    let value: serde_json::Value = serde_json::from_str(&reply.to_json()).unwrap();
    assert_eq!(value["message"], "success");
    assert_eq!(value["reason"], "");
    assert_eq!(value["response"][0]["risetime"], -5);
    assert_eq!(value["response"][0]["duration"], 10);
}
