use std::collections::VecDeque;

use foundry_local_sdk::core_interop::{CoreInterop, ResponseBuffer};
use foundry_local_sdk::live_audio::{CoreErrorResponse, LiveAudioTranscriptionRaw};
use foundry_local_sdk::push_loop::{PushLoop, PushReply};
use foundry_local_sdk::session::{LiveAudioTranscriptionSession, SendOutcome, SessionState};

type State = SessionState<(), (), (), ()>;

fn raw(_: &str) -> Result<LiveAudioTranscriptionRaw, serde_json::Error> {
    Err(serde_json::from_str::<bool>("?").unwrap_err())
}

fn structured(_: &str) -> Result<CoreErrorResponse, serde_json::Error> {
    Err(serde_json::from_str::<bool>("?").unwrap_err())
}

/// Runs a session on the given chunks, against a core that fails to take the chunk
/// `failing`. Gives the commands that the core got, each with its audio.
fn calls(chunks: &[&[u8]], failing: Option<usize>) -> Vec<(String, String, Option<Vec<u8>>)> {
    let core = CoreInterop { supports_binary: true };
    let mut state = State::new();
    LiveAudioTranscriptionSession::complete_start(&mut state, "h".to_string(), (), (), (), ());

    let mut queue = VecDeque::new();
    let mut buffer = Vec::new();
    for chunk in chunks {
        buffer.clear();
        buffer.extend_from_slice(chunk);
        let (_, copy) = LiveAudioTranscriptionSession::append(&state, &buffer).unwrap();
        queue.push_back(copy);
        assert!(LiveAudioTranscriptionSession::append_result(SendOutcome::Queued).is_ok());
    }

    assert!(LiveAudioTranscriptionSession::stop(&mut state).unwrap().push_loop.is_some());
    let mut got = Vec::new();
    let mut push_loop = PushLoop::new("h".to_string());
    while let Some(audio_data) = queue.pop_front() {
        let Some(push) = push_loop.next_command(audio_data) else {
            break;
        };
        let number = got.len();
        let answer = core.execute_command_with_binary(
            push.command.command,
            Some(&push.command.params),
            &push.audio_data,
            |whole| {
                got.push((
                    push.command.command.to_string(),
                    push.command.params.to_string(),
                    Some(whole.binary_data.unwrap_or(&[]).to_vec()),
                ));
                let error = if failing == Some(number) { Some(b"bad".to_vec()) } else { None };
                ResponseBuffer { data: None, error }
            },
        );
        push_loop.handle_answer(answer.map_err(|_| "bad".to_string()), raw, structured);
    }
    let stop = LiveAudioTranscriptionSession::stop_native_session(&state).unwrap();
    got.push((stop.command.to_string(), stop.params.to_string(), None));
    LiveAudioTranscriptionSession::complete_stop(&mut state, Ok(String::new()), None);
    got
}

fn push(audio: &[u8]) -> (String, String, Option<Vec<u8>>) {
    let params = r#"{"Params":{"SessionHandle":"h"}}"#;
    ("audio_stream_push".to_string(), params.to_string(), Some(audio.to_vec()))
}

fn stop() -> (String, String, Option<Vec<u8>>) {
    let params = r#"{"Params":{"SessionHandle":"h"}}"#;
    ("audio_stream_stop".to_string(), params.to_string(), None)
}

#[test]
fn a_stop_sends_every_chunk_first() {
    assert_eq!(
        calls(&[&[1, 2], &[], &[1, 2], &[3]], None),
        vec![push(&[1, 2]), push(&[]), push(&[1, 2]), push(&[3]), stop()]
    );
    assert_eq!(calls(&[], None), vec![stop()]);
}

#[test]
fn nothing_is_pushed_after_a_failure() {
    assert_eq!(calls(&[&[1], &[2], &[3]], Some(1)), vec![push(&[1]), push(&[2]), stop()]);
}

#[test]
fn the_stream_ends_with_the_final_result() {
    let result = |text: &str| LiveAudioTranscriptionRaw {
        is_final: true,
        text: text.to_string(),
        start_time: None,
        end_time: None,
    };
    let mut state = SessionState::<(), &str, (), ()>::new();
    LiveAudioTranscriptionSession::complete_start(&mut state, "h".to_string(), (), "out", (), ());
    LiveAudioTranscriptionSession::stop(&mut state);

    let mut push_loop = PushLoop::new("h".to_string());
    let mut items = Vec::new();
    for text in ["one", "", "two"] {
        items.extend(push_loop.handle_reply(PushReply::Accepted(Some(result(text)))));
    }
    let completion = LiveAudioTranscriptionSession::complete_stop(
        &mut state,
        Ok("data".to_string()),
        Some(result("last")),
    );
    if let Some((output_tx, response)) = completion.last {
        assert_eq!(output_tx, "out");
        items.push(Ok(response));
    }
    let texts: Vec<String> =
        items.into_iter().map(|item| item.unwrap().content[0].text.clone()).collect();
    assert_eq!(texts, vec!["one", "two", "last"]);
    assert_eq!(LiveAudioTranscriptionSession::finalize_state(&mut state), None);
}
