use open_notify_api::astro_from_json;
use open_notify_api::error::OpenNotificationError;
use open_notify_api::{Astros, Person};

#[test]
fn astro_parse_successful_data() {
    let input_data = r#"{
        "message": "success",
        "number": 6,
        "people": [
        {"name": "Anton Shkaplerov", "craft": "ISS"},
        {"name": "Scott Tingle", "craft": "ISS"},
        {"name": "Norishige Kanai", "craft": "ISS"},
        {"name": "Oleg Artemyev", "craft": "Soyuz MS-08"},
        {"name": "Andrew Feustel", "craft": "Soyuz MS-08"},
        {"name": "Richard Arnold", "craft": "Soyuz MS-08"}]
        }"#;

    let expected_people = vec![
        Person::new("Anton Shkaplerov", "ISS"),
        Person::new("Scott Tingle", "ISS"),
        Person::new("Norishige Kanai", "ISS"),
        Person::new("Oleg Artemyev", "Soyuz MS-08"),
        Person::new("Andrew Feustel", "Soyuz MS-08"),
        Person::new("Richard Arnold", "Soyuz MS-08"),
    ];

    if let Ok(astros) = astro_from_json(input_data) {
        assert_eq!(astros.message(), "success");
        assert_eq!(astros.people().len(), 6);
        for person in expected_people.iter() {
            assert!(astros.people().contains(&person));
        }
    } else {
        assert!(false);
    }
}

#[test]
fn astro_parse_missing_data() {
    let input_data = r#"{
        "message": "success",
        "number": 6,
        "people": [
        {"name": "Anton Shkaplerov", "craft": "ISS"},
        {"name": "Scott Tingle", "craft": "ISS"},
        {"name": "Norishige Kanai", "craft": "ISS"},
        {"name": "Oleg Artemyev" },
        {"name": "Andrew Feustel", "craft": "Soyuz MS-08"},
        {"name": "Richard Arnold", "craft": "Soyuz MS-08"}]
        }"#;

    match astro_from_json(input_data) {
        Err(OpenNotificationError::Parsing(_)) => assert!(true),
        Err(_) => assert!(false),
        Ok(_) => assert!(false),
    }
}

#[test]
fn astro_parse_inconsistent_data() {
    let input_data = r#"{
        "message": "success",
        "number": 5,
        "people": [
        {"name": "Anton Shkaplerov", "craft": "ISS"},
        {"name": "Scott Tingle", "craft": "ISS"},
        {"name": "Norishige Kanai", "craft": "ISS"},
        {"name": "Oleg Artemyev", "craft": "Soyuz MS-08"},
        {"name": "Andrew Feustel", "craft": "Soyuz MS-08"},
        {"name": "Richard Arnold", "craft": "Soyuz MS-08"}]
        }"#;

    match astro_from_json(input_data) {
        Err(OpenNotificationError::Data(_)) => assert!(true),
        Err(_) => assert!(false),
        Ok(_) => assert!(false),
    }
}

#[test]
fn astro_parse_unsuccessfull_data() {
    let input_data = r#"{
        "message": "unsuccess",
        "number": 6,
        "people": [
        {"name": "Anton Shkaplerov", "craft": "ISS"},
        {"name": "Scott Tingle", "craft": "ISS"},
        {"name": "Norishige Kanai", "craft": "ISS"},
        {"name": "Oleg Artemyev", "craft": "Soyuz MS-08"},
        {"name": "Andrew Feustel", "craft": "Soyuz MS-08"},
        {"name": "Richard Arnold", "craft": "Soyuz MS-08"}]
        }"#;

    match astro_from_json(input_data) {
        Err(OpenNotificationError::Data(_)) => assert!(true),
        Err(_) => assert!(false),
        Ok(_) => assert!(false),
    }
}

#[test]
fn astro_count_mismatch_reported_before_status() {
    // Both the count and the status are wrong; the count-mismatch error
    // comes first.
    let input_data = r#"{"message": "unsuccess", "number": 2, "people": [
        {"name": "Anton Shkaplerov", "craft": "ISS"}]}"#;
    match astro_from_json(input_data) {
        Err(OpenNotificationError::Data(m)) => {
            assert_eq!(m, "attribute 'number' does not match length of people field");
        }
        _ => assert!(false),
    }
}

#[test]
fn astro_status_error_carries_upstream_message() {
    let input_data = r#"{"message": "down", "number": 0, "people": []}"#;
    match astro_from_json(input_data) {
        Err(OpenNotificationError::Data(m)) => {
            assert_eq!(m, "attribute message indicates no success but down");
        }
        _ => assert!(false),
    }
}

#[test]
fn astro_parse_empty_people() {
    let input_data = r#"{"message": "success", "number": 0, "people": []}"#;
    let astros = astro_from_json(input_data).unwrap();
    assert_eq!(astros.people().len(), 0);
    assert_eq!(astros.message(), "success");
}

#[test]
fn astro_parse_keys_in_any_order_with_unknown_keys() {
    let input_data = r#"{
        "people": [{"craft": "ISS", "name": "Anton Shkaplerov"}],
        "extra": {"nested": [1, 2.5, true, false, null, "x"]},
        "number": 1,
        "message": "success"
        }"#;
    let astros = astro_from_json(input_data).unwrap();
    assert_eq!(astros.people().len(), 1);
    assert_eq!(astros.people()[0].name(), "Anton Shkaplerov");
    assert_eq!(astros.people()[0].craft(), "ISS");
}

#[test]
fn astro_parse_rejects_duplicate_key() {
    let input_data = r#"{"message": "success", "message": "success", "number": 0, "people": []}"#;
    assert!(matches!(
        astro_from_json(input_data),
        Err(OpenNotificationError::Parsing(_))
    ));
}

#[test]
fn astro_parse_rejects_number_out_of_range() {
    let input_data = r#"{"message": "success", "number": 2147483648, "people": []}"#;
    assert!(matches!(
        astro_from_json(input_data),
        Err(OpenNotificationError::Parsing(_))
    ));
}

#[test]
fn astro_parse_rejects_trailing_garbage() {
    let input_data = r#"{"message": "success", "number": 0, "people": []} tail"#;
    assert!(matches!(
        astro_from_json(input_data),
        Err(OpenNotificationError::Parsing(_))
    ));
}

#[test]
fn astro_parse_rejects_non_json() {
    assert!(matches!(
        astro_from_json("not json at all"),
        Err(OpenNotificationError::Parsing(_))
    ));
}

#[test]
fn astro_negative_number_is_count_mismatch() {
    let input_data = r#"{"message": "success", "number": -1, "people": []}"#;
    assert!(matches!(
        astro_from_json(input_data),
        Err(OpenNotificationError::Data(_))
    ));
}

#[test]
fn astros_fixture_accessors() {
    let people = vec![Person::new("A", "X"), Person::new("B", "Y")];
    let astros = Astros::new("success", 2, people);
    assert_eq!(astros.message(), "success");
    assert_eq!(astros.people().len(), 2);
    assert_eq!(astros.people()[1].craft(), "Y");
}

#[test]
fn astro_parse_number_at_i32_boundary() {
    // The declared count parses at the top of the i32 range; with no people
    // it then fails validation, not parsing.
    let input_data = r#"{"message": "success", "number": 2147483647, "people": []}"#;
    assert!(matches!(
        astro_from_json(input_data),
        Err(OpenNotificationError::Data(_))
    ));
}
