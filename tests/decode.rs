use event_log_tsv::{EventAggVisit, EventTypes, Json};

#[test]
fn test_event_type() {
    assert_eq!("search".parse::<EventTypes>().unwrap(), EventTypes::Search);
    assert_eq!("result".parse::<EventTypes>().unwrap(), EventTypes::Result);
    assert_eq!("click".parse::<EventTypes>().unwrap(), EventTypes::Click);
    assert_eq!("visit".parse::<EventTypes>().unwrap(), EventTypes::Visit);
}

#[test]
fn de_visit() {
    let j = Json::parse(
        r#"{
                "type":"visit",
                "eventId":"941a496e-79a1-4f53-908e-d31cf1fc0c6e",
                "trackId":"292d83cb-f5f3-4fe3-8a5a-e7569f892369",
                "timestamp":1550758923,
                "timeElapsed":132
                }"#,
    )
    .unwrap();
    assert_eq!(
        EventAggVisit::from_json(&j).unwrap(),
        EventAggVisit {
            _type: "visit".to_string(),
            event_id: "941a496e-79a1-4f53-908e-d31cf1fc0c6e".parse::<uuid::Uuid>().unwrap().as_u128(),
            track_id: "292d83cb-f5f3-4fe3-8a5a-e7569f892369".parse::<uuid::Uuid>().unwrap().as_u128(),
            timestamp: 1550758923,
            time_elapsed: 132,
        }
    )
}

#[test]
fn selector_rejects_other_words() {
    assert!("Search".parse::<EventTypes>().is_err());
    assert!("".parse::<EventTypes>().is_err());
    assert_eq!(EventTypes::parse("clicks"), None);
    assert_eq!(EventTypes::parse("visit"), Some(EventTypes::Visit));
}

#[test]
fn visit_with_unknown_key_does_not_decode() {
    let j = Json::parse(
        r#"{"type":"visit","eventId":"941a496e-79a1-4f53-908e-d31cf1fc0c6e","trackId":"292d83cb-f5f3-4fe3-8a5a-e7569f892369","timestamp":1,"timeElapsed":2,"foo":1}"#,
    )
    .unwrap();
    assert_eq!(EventAggVisit::from_json(&j), None);
}

#[test]
fn visit_with_negative_or_wide_numbers_does_not_decode() {
    let neg = Json::parse(
        r#"{"type":"visit","eventId":"941a496e-79a1-4f53-908e-d31cf1fc0c6e","trackId":"292d83cb-f5f3-4fe3-8a5a-e7569f892369","timestamp":1,"timeElapsed":-2}"#,
    )
    .unwrap();
    assert_eq!(EventAggVisit::from_json(&neg), None);
    let wide = Json::parse(
        r#"{"type":"visit","eventId":"941a496e-79a1-4f53-908e-d31cf1fc0c6e","trackId":"292d83cb-f5f3-4fe3-8a5a-e7569f892369","timestamp":4294967296,"timeElapsed":2}"#,
    )
    .unwrap();
    assert_eq!(EventAggVisit::from_json(&wide), None);
    let real = Json::parse(
        r#"{"type":"visit","eventId":"941a496e-79a1-4f53-908e-d31cf1fc0c6e","trackId":"292d83cb-f5f3-4fe3-8a5a-e7569f892369","timestamp":1.5,"timeElapsed":2}"#,
    )
    .unwrap();
    assert_eq!(EventAggVisit::from_json(&real), None);
}

#[test]
fn json_parse_rejects_trailing_text() {
    assert!(Json::parse("{} x").is_none());
    assert!(Json::parse("{\"a\":").is_none());
    assert!(Json::parse(" {} ").is_some());
}
