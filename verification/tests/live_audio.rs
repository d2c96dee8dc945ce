use foundry_local_sdk::error::FoundryLocalError;
use foundry_local_sdk::live_audio::{
    build_handle_request, build_start_request, CoreErrorResponse, LiveAudioTranscriptionOptions,
    LiveAudioTranscriptionRaw, LiveAudioTranscriptionResponse, Seconds,
};

type Fields = serde_json::Map<String, serde_json::Value>;

fn time(fields: &Fields, key: &str) -> Result<Option<Seconds>, serde_json::Error> {
    match fields.get(key) {
        Some(value) => {
            let seconds: Option<f64> = serde_json::from_value(value.clone())?;
            Ok(seconds.map(|s| Seconds { bits: s.to_bits() }))
        }
        None => Ok(None),
    }
}

fn parse_raw(text: &str) -> Result<LiveAudioTranscriptionRaw, serde_json::Error> {
    let fields: Fields = serde_json::from_str(text)?;
    Ok(LiveAudioTranscriptionRaw {
        is_final: match fields.get("is_final") {
            Some(value) => serde_json::from_value(value.clone())?,
            None => false,
        },
        text: match fields.get("text") {
            Some(value) => serde_json::from_value(value.clone())?,
            None => String::new(),
        },
        start_time: time(&fields, "start_time")?,
        end_time: time(&fields, "end_time")?,
    })
}

fn parse_error(text: &str) -> Result<CoreErrorResponse, serde_json::Error> {
    let fields: Fields = serde_json::from_str(text)?;
    let required = |key: &str| {
        serde_json::from_value(fields.get(key).cloned().unwrap_or(serde_json::Value::Null))
    };
    Ok(CoreErrorResponse {
        code: required("code")?,
        message: required("message")?,
        is_transient: match fields.get("isTransient") {
            Some(value) => serde_json::from_value(value.clone())?,
            None => false,
        },
    })
}

fn seconds(time: Option<Seconds>) -> Option<f64> {
    time.map(|s| f64::from_bits(s.bits))
}

#[test]
fn from_json_parses_text_and_is_final() {
    let json = r#"{"is_final":true,"text":"hello world","start_time":null,"end_time":null}"#;
    let result = LiveAudioTranscriptionResponse::from_json(json, parse_raw).unwrap();

    assert_eq!(result.content.len(), 1);
    assert_eq!(result.content[0].text, "hello world");
    assert_eq!(result.content[0].transcript, "hello world");
    assert!(result.is_final);
}

#[test]
fn from_json_maps_timing_fields() {
    let json = r#"{"is_final":false,"text":"partial","start_time":1.5,"end_time":3.0}"#;
    let result = LiveAudioTranscriptionResponse::from_json(json, parse_raw).unwrap();

    assert_eq!(result.content[0].text, "partial");
    assert!(!result.is_final);
    assert_eq!(seconds(result.start_time), Some(1.5));
    assert_eq!(seconds(result.end_time), Some(3.0));
}

#[test]
fn from_json_empty_text_parses_successfully() {
    let json = r#"{"is_final":true,"text":"","start_time":null,"end_time":null}"#;
    let result = LiveAudioTranscriptionResponse::from_json(json, parse_raw).unwrap();

    assert_eq!(result.content[0].text, "");
    assert!(result.is_final);
}

#[test]
fn from_json_only_start_time_sets_start_time() {
    let json = r#"{"is_final":true,"text":"word","start_time":2.0,"end_time":null}"#;
    let result = LiveAudioTranscriptionResponse::from_json(json, parse_raw).unwrap();

    assert_eq!(seconds(result.start_time), Some(2.0));
    assert_eq!(seconds(result.end_time), None);
    assert_eq!(result.content[0].text, "word");
}

#[test]
fn from_json_invalid_json_returns_error() {
    let result = LiveAudioTranscriptionResponse::from_json("not valid json", parse_raw);
    assert!(result.is_err());
    assert!(matches!(result, Err(FoundryLocalError::Serialization(_))));
}

#[test]
fn from_json_content_has_text_and_transcript() {
    let json = r#"{"is_final":true,"text":"test","start_time":null,"end_time":null}"#;
    let result = LiveAudioTranscriptionResponse::from_json(json, parse_raw).unwrap();

    assert_eq!(result.content[0].text, "test");
    assert_eq!(result.content[0].transcript, "test");
}

#[test]
fn options_default_values() {
    let options = LiveAudioTranscriptionOptions::default();

    assert_eq!(options.sample_rate, 16000);
    assert_eq!(options.channels, 1);
    assert_eq!(options.bits_per_sample, 16);
    assert_eq!(options.language, None);
    assert_eq!(options.push_queue_capacity, 100);
}

#[test]
fn core_error_response_try_parse_valid_json() {
    let json =
        r#"{"code":"ASR_SESSION_NOT_FOUND","message":"Session not found","isTransient":false}"#;
    let error = CoreErrorResponse::try_parse(json, parse_error).unwrap();

    assert_eq!(error.code, "ASR_SESSION_NOT_FOUND");
    assert_eq!(error.message, "Session not found");
    assert!(!error.is_transient);
}

#[test]
fn core_error_response_try_parse_invalid_json_returns_none() {
    let result = CoreErrorResponse::try_parse("not json", parse_error);
    assert!(result.is_none());
}

#[test]
fn core_error_response_try_parse_transient_error() {
    let json = r#"{"code":"BUSY","message":"Model busy","isTransient":true}"#;
    let error = CoreErrorResponse::try_parse(json, parse_error).unwrap();

    assert!(error.is_transient);
}

#[test]
fn core_error_response_of_another_schema_is_none() {
    let result = CoreErrorResponse::try_parse(r#"{"message":"no code"}"#, parse_error);
    assert!(result.is_none());
}

#[test]
fn from_raw_keeps_every_field() {
    let raw = LiveAudioTranscriptionRaw {
        is_final: false,
        text: "both".to_string(),
        start_time: Some(Seconds { bits: 7 }),
        end_time: None,
    };
    let response = LiveAudioTranscriptionResponse::from_raw(raw);
    assert_eq!(response.content.len(), 1);
    assert_eq!(response.content[0].text, "both");
    assert_eq!(response.content[0].transcript, "both");
    assert!(!response.is_final);
    assert_eq!(response.start_time, Some(Seconds { bits: 7 }));
    assert_eq!(response.end_time, None);
}

#[test]
fn from_parsed_reports_the_cause() {
    let cause = parse_raw("[").unwrap_err();
    let text = cause.to_string();
    match LiveAudioTranscriptionResponse::from_parsed(Err(cause)) {
        Err(FoundryLocalError::Serialization(error)) => assert_eq!(error.to_string(), text),
        _ => panic!("a failed parse gives its own error"),
    }
}

#[test]
fn start_request_holds_the_settings_as_strings() {
    let request = build_start_request("nemotron", &LiveAudioTranscriptionOptions::default());
    assert_eq!(
        request.to_string(),
        r#"{"Params":{"BitsPerSample":"16","Channels":"1","Model":"nemotron","SampleRate":"16000"}}"#
    );
}

#[test]
fn start_request_holds_the_language_when_there_is_one() {
    let mut settings = LiveAudioTranscriptionOptions::default();
    settings.sample_rate = -8000;
    settings.channels = 2;
    settings.bits_per_sample = 0;
    settings.language = Some("a \"b\"".to_string());
    let request = build_start_request("m\u{e9}", &settings);
    assert_eq!(
        request.to_string(),
        "{\"Params\":{\"BitsPerSample\":\"0\",\"Channels\":\"2\",\"Language\":\"a \\\"b\\\"\",\
         \"Model\":\"m\u{e9}\",\"SampleRate\":\"-8000\"}}"
    );
}

#[test]
fn handle_request_names_the_session() {
    let request = build_handle_request("session-1\n");
    assert_eq!(request.to_string(), "{\"Params\":{\"SessionHandle\":\"session-1\\n\"}}");
}
