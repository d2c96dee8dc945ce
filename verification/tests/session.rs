use foundry_local_sdk::error::FoundryLocalError;
use foundry_local_sdk::live_audio::LiveAudioTranscriptionRaw;
use foundry_local_sdk::session::{
    stop_command, LiveAudioTranscriptionSession, SendOutcome, SessionState, StartOutcome,
};

type State = SessionState<&'static str, &'static str, &'static str, u32>;

const STOP_H1: &str = r#"{"Params":{"SessionHandle":"h1"}}"#;

fn running() -> State {
    let mut state = State::new();
    LiveAudioTranscriptionSession::complete_start(
        &mut state,
        "h1".to_string(),
        "push",
        "out",
        "in",
        9,
    );
    state
}

fn raw(text: &str) -> LiveAudioTranscriptionRaw {
    LiveAudioTranscriptionRaw {
        is_final: true,
        text: text.to_string(),
        start_time: None,
        end_time: None,
    }
}

fn validation<T>(result: Result<T, FoundryLocalError>) -> String {
    match result {
        Err(FoundryLocalError::Validation { reason }) => reason,
        _ => panic!("a validation error is expected"),
    }
}

fn execution<T>(result: Result<T, FoundryLocalError>) -> String {
    match result {
        Err(FoundryLocalError::CommandExecution { reason }) => reason,
        _ => panic!("a command execution error is expected"),
    }
}

const NOT_ACTIVE: &str = "No active streaming session. Call start() first.";

#[test]
fn a_new_session_has_default_settings() {
    let session = LiveAudioTranscriptionSession::new("nemotron");
    assert_eq!(session.model_id, "nemotron");
    assert_eq!(session.settings.sample_rate, 16000);
    assert_eq!(session.settings.channels, 1);
    assert_eq!(session.settings.bits_per_sample, 16);
    assert_eq!(session.settings.language, None);
    assert_eq!(session.settings.push_queue_capacity, 100);
}

#[test]
fn start_asks_the_native_core_with_the_settings() {
    let mut session = LiveAudioTranscriptionSession::new("nemotron");
    session.settings.push_queue_capacity = 5;
    session.settings.language = Some("en".to_string());
    let plan = session.start(&State::new()).unwrap();
    assert_eq!(plan.command.command, "audio_stream_start");
    assert_eq!(
        plan.command.params.to_string(),
        r#"{"Params":{"BitsPerSample":"16","Channels":"1","Language":"en","Model":"nemotron","SampleRate":"16000"}}"#
    );
    assert_eq!(plan.push_queue_capacity, 5);
}

#[test]
fn a_started_session_refuses_a_second_start() {
    let session = LiveAudioTranscriptionSession::new("m");
    assert_eq!(
        validation(session.start(&running())),
        "Streaming session already started. Call stop() first."
    );
}

#[test]
fn every_way_a_start_can_end() {
    let handle = |outcome| LiveAudioTranscriptionSession::started_handle(outcome);
    assert_eq!(handle(StartOutcome::Returned(Ok("h".to_string()))).unwrap(), "h");
    assert_eq!(
        execution(handle(StartOutcome::Returned(Ok(String::new())))),
        "Native core did not return a session handle."
    );
    let failure = FoundryLocalError::CommandExecution { reason: "no model".to_string() };
    assert_eq!(execution(handle(StartOutcome::Returned(Err(failure)))), "no model");
    assert_eq!(
        execution(handle(StartOutcome::JoinFailed("panic".to_string()))),
        "Start audio stream task join error: panic"
    );
    assert_eq!(execution(handle(StartOutcome::Cancelled)), "Start cancelled");
    assert_eq!(
        LiveAudioTranscriptionSession::await_start(StartOutcome::Returned(Ok(String::new())))
            .unwrap(),
        ""
    );
}

#[test]
fn a_native_session_of_a_cancelled_start_is_stopped() {
    let abandon = LiveAudioTranscriptionSession::abandon_start;
    let command = abandon(StartOutcome::Returned(Ok("h1".to_string()))).unwrap();
    assert_eq!(command.command, "audio_stream_stop");
    assert_eq!(command.params.to_string(), STOP_H1);
    assert!(abandon(StartOutcome::Returned(Ok(String::new()))).is_none());
    assert!(abandon(StartOutcome::JoinFailed("panic".to_string())).is_none());
    assert!(abandon(StartOutcome::Cancelled).is_none());
}

#[test]
fn audio_is_admitted_while_the_session_is_active() {
    assert_eq!(
        validation(LiveAudioTranscriptionSession::append(&State::new(), &[1])),
        NOT_ACTIVE
    );
    let mut state = running();
    let (push_tx, chunk) = LiveAudioTranscriptionSession::append(&state, &[1, 2]).unwrap();
    assert_eq!(*push_tx, "push");
    assert_eq!(chunk, vec![1, 2]);
    LiveAudioTranscriptionSession::stop(&mut state);
    assert_eq!(
        validation(LiveAudioTranscriptionSession::append(&state, &[1])),
        NOT_ACTIVE
    );
}

#[test]
fn every_way_an_append_can_end() {
    let result = LiveAudioTranscriptionSession::append_result;
    assert!(result(SendOutcome::Queued).is_ok());
    assert_eq!(
        execution(result(SendOutcome::Closed)),
        "Push channel closed \u{2014} session has been stopped"
    );
    assert_eq!(execution(result(SendOutcome::Cancelled)), "Append cancelled");
}

#[test]
fn the_stream_is_taken_once() {
    let taken = "No active streaming session, or stream already taken. \
                 Call start() first and only call get_transcription_stream() once.";
    let mut state = State::new();
    assert_eq!(
        validation(LiveAudioTranscriptionSession::get_transcription_stream(&mut state)),
        taken
    );
    let mut state = running();
    let stream = LiveAudioTranscriptionSession::get_transcription_stream(&mut state).unwrap();
    assert_eq!(stream.rx, "in");
    assert_eq!(
        validation(LiveAudioTranscriptionSession::get_transcription_stream(&mut state)),
        taken
    );
}

#[test]
fn a_stop_drains_then_stops_the_native_session() {
    let mut state = running();
    let plan = LiveAudioTranscriptionSession::stop(&mut state).unwrap();
    assert_eq!(plan.push_loop, Some(9));
    let command = LiveAudioTranscriptionSession::stop_native_session(&state).unwrap();
    assert_eq!(command.command, "audio_stream_stop");
    assert_eq!(command.params.to_string(), STOP_H1);

    let completion = LiveAudioTranscriptionSession::complete_stop(
        &mut state,
        Ok("data".to_string()),
        Some(raw("bye")),
    );
    assert!(completion.result.is_ok());
    let (output_tx, response) = completion.last.unwrap();
    assert_eq!(output_tx, "out");
    assert_eq!(response.content[0].text, "bye");
}

#[test]
fn a_stopped_session_can_be_started_again() {
    let session = LiveAudioTranscriptionSession::new("m");
    let mut state = running();
    LiveAudioTranscriptionSession::stop(&mut state);
    assert!(session.start(&state).is_err());
    LiveAudioTranscriptionSession::complete_stop(&mut state, Ok(String::new()), None);
    assert!(LiveAudioTranscriptionSession::stop(&mut state).is_none());
    assert!(session.start(&state).is_ok());
}

#[test]
fn a_session_that_is_not_active_has_nothing_to_stop() {
    assert!(LiveAudioTranscriptionSession::stop(&mut State::new()).is_none());
    let mut state = running();
    assert!(LiveAudioTranscriptionSession::stop(&mut state).is_some());
    assert!(LiveAudioTranscriptionSession::stop(&mut state).is_none());
}

#[test]
fn a_failed_stop_cleans_up_all_the_same() {
    let session = LiveAudioTranscriptionSession::new("m");
    let mut state = running();
    LiveAudioTranscriptionSession::stop(&mut state);
    let failed = LiveAudioTranscriptionSession::native_stop_result(Err("panic".to_string()));
    let completion =
        LiveAudioTranscriptionSession::complete_stop(&mut state, failed, Some(raw("lost")));
    assert!(completion.last.is_none());
    assert_eq!(
        execution(completion.result),
        "Stop audio stream task join error: panic"
    );
    assert!(session.start(&state).is_ok());
}

#[test]
fn a_native_stop_that_returned_gives_its_result() {
    let result = LiveAudioTranscriptionSession::native_stop_result(Ok(Ok("x".to_string())));
    assert_eq!(result.unwrap(), "x");
}

#[test]
fn a_session_without_a_handle_cannot_be_stopped() {
    match LiveAudioTranscriptionSession::stop_native_session(&State::new()) {
        Err(FoundryLocalError::Internal { reason }) => {
            assert_eq!(reason, "Session handle missing during stop");
        }
        _ => panic!("an internal error is expected"),
    }
}

#[test]
fn a_final_result_needs_data_and_text() {
    let last = LiveAudioTranscriptionSession::write_final_result;
    assert!(last(&Ok("data".to_string()), Some(raw("text"))).is_some());
    assert!(last(&Ok("data".to_string()), Some(raw(""))).is_none());
    assert!(last(&Ok("data".to_string()), None).is_none());
    assert!(last(&Ok(String::new()), Some(raw("text"))).is_none());
    let failure = FoundryLocalError::Internal { reason: "x".to_string() };
    assert!(last(&Err(failure), Some(raw("text"))).is_none());
}

#[test]
fn the_data_of_a_stop_is_parsed_when_there_is_any() {
    let parse = LiveAudioTranscriptionSession::parse_final_result(&Ok("d".to_string()), |data| {
        assert_eq!(data, "d");
        Ok(raw("parsed"))
    });
    assert_eq!(parse.unwrap().text, "parsed");
    let none = LiveAudioTranscriptionSession::parse_final_result(&Ok(String::new()), |_| {
        panic!("there is no data")
    });
    assert!(none.is_none());
    let failure = FoundryLocalError::Internal { reason: "x".to_string() };
    let none = LiveAudioTranscriptionSession::parse_final_result(&Err(failure), |_| {
        panic!("there is no data")
    });
    assert!(none.is_none());
    let bad = LiveAudioTranscriptionSession::parse_final_result(&Ok("d".to_string()), |_| {
        Err(serde_json::from_str::<bool>("?").unwrap_err())
    });
    assert!(bad.is_none());
}

#[test]
fn a_dropped_session_stops_its_native_session() {
    let mut state = running();
    let command = LiveAudioTranscriptionSession::drop_session(&mut state).unwrap();
    assert_eq!(command.command, "audio_stream_stop");
    assert_eq!(command.params.to_string(), STOP_H1);
    assert!(LiveAudioTranscriptionSession::drop_session(&mut state).is_none());
    assert_eq!(
        validation(LiveAudioTranscriptionSession::append(&state, &[1])),
        NOT_ACTIVE
    );

    let mut state = running();
    LiveAudioTranscriptionSession::stop(&mut state);
    assert!(LiveAudioTranscriptionSession::drop_session(&mut state).is_none());
    assert!(LiveAudioTranscriptionSession::drop_session(&mut State::new()).is_none());
}

#[test]
fn every_native_session_is_stopped_once() {
    let mut state = State::new();
    let mut opened = Vec::new();
    let mut closed = Vec::new();
    for handle in ["a", "b", "c"] {
        opened.push(stop_command(handle).params.to_string());
        LiveAudioTranscriptionSession::complete_start(
            &mut state,
            handle.to_string(),
            "push",
            "out",
            "in",
            1,
        );
        if handle != "c" {
            assert!(LiveAudioTranscriptionSession::stop(&mut state).is_some());
            let command = LiveAudioTranscriptionSession::stop_native_session(&state).unwrap();
            closed.push(command.params.to_string());
            LiveAudioTranscriptionSession::complete_stop(&mut state, Ok(String::new()), None);
        }
    }
    let last = LiveAudioTranscriptionSession::drop_session(&mut state).unwrap();
    closed.push(last.params.to_string());
    assert_eq!(opened, closed);
}

#[test]
fn a_finalized_state_gives_up_its_sender() {
    let mut state = running();
    assert_eq!(LiveAudioTranscriptionSession::drain_push_loop(&mut state), Some(9));
    assert_eq!(LiveAudioTranscriptionSession::drain_push_loop(&mut state), None);
    assert_eq!(LiveAudioTranscriptionSession::finalize_state(&mut state), Some("out"));
    assert_eq!(LiveAudioTranscriptionSession::finalize_state(&mut state), None);
}

#[test]
fn taking_the_stream_makes_no_difference_to_a_stop() {
    let mut before = running();
    assert!(LiveAudioTranscriptionSession::get_transcription_stream(&mut before).is_ok());
    let plan = LiveAudioTranscriptionSession::stop(&mut before).unwrap();
    assert_eq!(plan.push_loop, Some(9));
    let command = LiveAudioTranscriptionSession::stop_native_session(&before).unwrap();
    assert_eq!(command.params.to_string(), STOP_H1);

    let mut after = running();
    LiveAudioTranscriptionSession::stop(&mut after);
    LiveAudioTranscriptionSession::complete_stop(&mut after, Ok(String::new()), None);
    let stream = LiveAudioTranscriptionSession::get_transcription_stream(&mut after).unwrap();
    assert_eq!(stream.rx, "in");
    assert!(LiveAudioTranscriptionSession::get_transcription_stream(&mut after).is_err());
}

#[test]
fn a_running_session_never_reports_an_internal_error() {
    let mut state = running();
    assert!(LiveAudioTranscriptionSession::append(&state, &[]).is_ok());
    assert!(LiveAudioTranscriptionSession::stop_native_session(&state).is_ok());
    LiveAudioTranscriptionSession::stop(&mut state);
    assert!(LiveAudioTranscriptionSession::stop_native_session(&state).is_ok());
}

#[test]
fn a_queue_that_was_drained_early_is_an_internal_error() {
    let mut state = running();
    LiveAudioTranscriptionSession::drain_push_loop(&mut state);
    match LiveAudioTranscriptionSession::append(&state, &[1]) {
        Err(FoundryLocalError::Internal { reason }) => assert_eq!(
            reason,
            "Push channel not available \u{2014} session may be in an invalid state"
        ),
        _ => panic!("an internal error is expected"),
    }
}
