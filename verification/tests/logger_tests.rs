use indicators_core::logger::LogFormat;

#[test]
fn test_log_format_from_str() {
    assert_eq!(LogFormat::from("json"), LogFormat::Json);
    assert_eq!(LogFormat::from("JSON"), LogFormat::Json);
    assert_eq!(LogFormat::from("plain"), LogFormat::Plain);
    assert_eq!(LogFormat::from("invalid"), LogFormat::Plain);
}

#[test]
fn log_format_name_round_trip() {
    assert_eq!(LogFormat::from(&LogFormat::Json.name()), LogFormat::Json);
    assert_eq!(LogFormat::from(&LogFormat::Plain.name()), LogFormat::Plain);
    assert_eq!(LogFormat::Json.name(), "json");
    assert_eq!(LogFormat::Plain.name(), "plain");
}

#[test]
fn log_format_mixed_case_and_empty() {
    assert_eq!(LogFormat::from("Json"), LogFormat::Json);
    assert_eq!(LogFormat::from(""), LogFormat::Plain);
    assert_eq!(LogFormat::from("jsonl"), LogFormat::Plain);
}
