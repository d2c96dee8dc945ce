use foundry_local_sdk::error::FoundryLocalError;
use foundry_local_sdk::live_audio::{CoreErrorResponse, LiveAudioTranscriptionRaw};
use foundry_local_sdk::push_loop::{PushLoop, PushReply};

fn raw(text: &str) -> LiveAudioTranscriptionRaw {
    LiveAudioTranscriptionRaw {
        is_final: true,
        text: text.to_string(),
        start_time: None,
        end_time: None,
    }
}

fn no_json() -> serde_json::Error {
    serde_json::from_str::<bool>("?").unwrap_err()
}

#[test]
fn each_chunk_is_pushed_to_the_session() {
    let push_loop = PushLoop::new("session-7".to_string());
    let push = push_loop.next_command(vec![1, 2, 3]).unwrap();
    assert_eq!(push.command.command, "audio_stream_push");
    assert_eq!(
        push.command.params.to_string(),
        r#"{"Params":{"SessionHandle":"session-7"}}"#
    );
    assert_eq!(push.audio_data, vec![1, 2, 3]);
    assert_eq!(push_loop.next_command(vec![]).unwrap().audio_data, Vec::<u8>::new());
}

#[test]
fn a_result_with_text_is_delivered() {
    let mut push_loop = PushLoop::new("s".to_string());
    let item = push_loop.handle_reply(PushReply::Accepted(Some(raw("hello"))));
    let response = item.unwrap().unwrap();
    assert_eq!(response.content[0].text, "hello");
    assert_eq!(response.content[0].transcript, "hello");
    assert!(push_loop.next_command(vec![0]).is_some());
}

#[test]
fn a_result_without_text_is_not_delivered() {
    let mut push_loop = PushLoop::new("s".to_string());
    assert!(push_loop.handle_reply(PushReply::Accepted(Some(raw("")))).is_none());
    assert!(push_loop.handle_reply(PushReply::Accepted(None)).is_none());
    assert!(push_loop.next_command(vec![0]).is_some());
}

#[test]
fn a_structured_error_is_delivered_with_its_code_and_ends_the_loop() {
    let mut push_loop = PushLoop::new("s".to_string());
    let reply = PushReply::Failed {
        error_text: "native text".to_string(),
        parsed: Some(CoreErrorResponse {
            code: "BUSY".to_string(),
            message: "Model busy".to_string(),
            is_transient: true,
        }),
    };
    match push_loop.handle_reply(reply) {
        Some(Err(FoundryLocalError::CommandExecution { reason })) => {
            assert_eq!(reason, "Push failed (code=BUSY): native text");
        }
        _ => panic!("the error is delivered"),
    }
    assert!(push_loop.ended);
    assert!(push_loop.next_command(vec![0]).is_none());
}

#[test]
fn an_answer_is_parsed_before_it_is_delivered() {
    let mut push_loop = PushLoop::new("s".to_string());
    let item = push_loop.handle_answer(
        Ok("the data".to_string()),
        |data| {
            assert_eq!(data, "the data");
            Ok(raw("parsed"))
        },
        |_| panic!("the answer is no error"),
    );
    assert_eq!(item.unwrap().unwrap().content[0].text, "parsed");

    let item = push_loop.handle_answer(
        Ok("garbage".to_string()),
        |_| Err(no_json()),
        |_| panic!("the answer is no error"),
    );
    assert!(item.is_none());
}

#[test]
fn an_unstructured_error_has_an_unknown_code() {
    let mut push_loop = PushLoop::new("s".to_string());
    let item = push_loop.handle_answer(
        Err("it broke".to_string()),
        |_| panic!("the answer is an error"),
        |error_text| {
            assert_eq!(error_text, "it broke");
            Err(no_json())
        },
    );
    match item {
        Some(Err(FoundryLocalError::CommandExecution { reason })) => {
            assert_eq!(reason, "Push failed (code=UNKNOWN): it broke");
        }
        _ => panic!("the error is delivered"),
    }
    assert!(push_loop.next_command(vec![0]).is_none());
}

#[test]
fn results_come_in_order_and_an_error_comes_last() {
    let mut push_loop = PushLoop::new("s".to_string());
    let replies = vec![
        PushReply::Accepted(Some(raw("one"))),
        PushReply::Accepted(Some(raw(""))),
        PushReply::Accepted(Some(raw("two"))),
        PushReply::Failed { error_text: "stop".to_string(), parsed: None },
        PushReply::Accepted(Some(raw("late"))),
    ];
    let mut items = Vec::new();
    for reply in replies {
        if push_loop.next_command(vec![0]).is_none() {
            break;
        }
        items.extend(push_loop.handle_reply(reply));
    }
    assert_eq!(items.len(), 3);
    for (item, text) in items[..2].iter().zip(["one", "two"]) {
        let response = item.as_ref().unwrap();
        assert_eq!(response.content.len(), 1);
        assert_eq!(response.content[0].text, text);
        assert_eq!(response.content[0].transcript, text);
    }
    assert!(items[2].is_err());
}
