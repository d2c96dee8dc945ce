use foundry_local_sdk::core_interop::{
    build_request, callback_status, final_channel_item, join_result,
    piece_holds_bytes, process_response, read_native_buffer, CoreInterop, ResponseBuffer,
};
use foundry_local_sdk::error::FoundryLocalError;
use foundry_local_sdk::live_audio::build_handle_request;
use foundry_local_sdk::streaming::StreamingCallbackState;

fn answer(data: &[u8]) -> ResponseBuffer {
    ResponseBuffer { data: Some(data.to_vec()), error: None }
}

/// Takes in a piece and forwards every text that it leads to.
fn take(decoder: &mut StreamingCallbackState, piece: &[u8]) -> Vec<String> {
    let mut texts = Vec::new();
    let mut next = decoder.push(piece);
    while let Some(text) = next {
        texts.push(text);
        next = decoder.text_forwarded();
    }
    texts
}

fn reason<T>(result: Result<T, FoundryLocalError>) -> String {
    match result {
        Err(FoundryLocalError::CommandExecution { reason }) => reason,
        _ => panic!("a command execution error is expected"),
    }
}

#[test]
fn a_request_holds_terminated_bytes_and_their_lengths() {
    let params = build_handle_request("h");
    let request = build_request("audio_stream_stop", Some(&params)).unwrap();
    assert_eq!(request.command, b"audio_stream_stop\0");
    assert_eq!(request.command_length, 17);
    assert_eq!(request.data, b"{\"Params\":{\"SessionHandle\":\"h\"}}\0");
    assert_eq!(request.data_length, 32);
}

#[test]
fn a_request_without_params_has_no_data() {
    let request = build_request("initialize", None).unwrap();
    assert_eq!(request.data, b"\0");
    assert_eq!(request.data_length, 0);
}

#[test]
fn the_length_of_a_command_counts_bytes() {
    let request = build_request("\u{20ac}", None).unwrap();
    assert_eq!(request.command, b"\xE2\x82\xAC\0");
    assert_eq!(request.command_length, 3);
}

#[test]
fn a_nul_in_the_command_is_refused() {
    assert_eq!(
        reason(build_request("lo\u{e9}\0ad\0", None)),
        "Invalid command string: nul byte found in provided data at position: 4"
    );
}

#[test]
fn a_nul_in_the_params_is_escaped() {
    let params = build_handle_request("a\0b");
    let request = build_request("x", Some(&params)).unwrap();
    assert_eq!(request.data, b"{\"Params\":{\"SessionHandle\":\"a\\u0000b\"}}\0");
}

#[test]
fn a_new_response_holds_nothing() {
    let response = ResponseBuffer::new();
    assert!(response.data.is_none());
    assert!(response.error.is_none());
    assert_eq!(process_response(response).unwrap(), "");
}

#[test]
fn a_buffer_without_bytes_reads_as_nothing() {
    assert_eq!(read_native_buffer(&None), None);
    assert_eq!(read_native_buffer(&Some(vec![])), None);
    assert_eq!(read_native_buffer(&Some(b"ok\xFF".to_vec())), Some("ok\u{FFFD}".to_string()));
}

#[test]
fn a_response_gives_its_data() {
    assert_eq!(process_response(answer(b"data")).unwrap(), "data");
}

#[test]
fn the_error_of_a_response_wins() {
    let response = ResponseBuffer { data: Some(b"data".to_vec()), error: Some(b"bad".to_vec()) };
    assert_eq!(reason(process_response(response)), "bad");
}

#[test]
fn an_empty_error_is_no_error() {
    let response = ResponseBuffer { data: Some(b"data".to_vec()), error: Some(vec![]) };
    assert_eq!(process_response(response).unwrap(), "data");
}

#[test]
fn execute_command_sends_the_request_and_reads_the_answer() {
    let core = CoreInterop { supports_binary: false };
    let result = core.execute_command("load_model", None, |request| {
        assert_eq!(request.command, b"load_model\0");
        answer(b"loaded")
    });
    assert_eq!(result.unwrap(), "loaded");
}

#[test]
fn execute_command_does_not_call_the_core_with_a_bad_command() {
    let core = CoreInterop { supports_binary: false };
    let result = core.execute_command("a\0", None, |_| panic!("the core is not called"));
    assert_eq!(
        reason(result),
        "Invalid command string: nul byte found in provided data at position: 1"
    );
}

#[test]
fn execute_command_with_binary_carries_the_bytes() {
    let core = CoreInterop { supports_binary: true };
    let result = core.execute_command_with_binary("push", None, &[1, 2, 3], |whole| {
        assert_eq!(whole.request.command, b"push\0");
        assert_eq!(whole.binary_data, Some(&[1u8, 2, 3][..]));
        assert_eq!(whole.binary_data_length, 3);
        answer(b"taken")
    });
    assert_eq!(result.unwrap(), "taken");
}

#[test]
fn execute_command_with_binary_passes_null_for_no_bytes() {
    let core = CoreInterop { supports_binary: true };
    let result = core.execute_command_with_binary("push", None, &[], |whole| {
        assert_eq!(whole.binary_data, None);
        assert_eq!(whole.binary_data_length, 0);
        answer(b"")
    });
    assert_eq!(result.unwrap(), "");
}

#[test]
fn execute_command_with_binary_needs_the_symbol() {
    let core = CoreInterop { supports_binary: false };
    let result =
        core.execute_command_with_binary("a\0", None, &[1], |_| panic!("the core is not called"));
    assert_eq!(
        reason(result),
        "execute_command_with_binary is not supported by this native core (symbol not found)"
    );
}

#[test]
fn execute_command_with_binary_refuses_a_nul() {
    let core = CoreInterop { supports_binary: true };
    let result =
        core.execute_command_with_binary("\0", None, &[1], |_| panic!("the core is not called"));
    assert_eq!(
        reason(result),
        "Invalid command string: nul byte found in provided data at position: 0"
    );
}

#[test]
fn a_streaming_command_flushes_what_the_decoder_keeps() {
    let core = CoreInterop { supports_binary: false };
    let mut forwarded = Vec::new();
    let reply = core.execute_command_streaming("chat", None, |request, mut decoder| {
        assert_eq!(request.command, b"chat\0");
        forwarded.extend(take(&mut decoder, b"hi \xE2\x82"));
        forwarded.extend(take(&mut decoder, b"\xAC \xF0"));
        (answer(b"done"), decoder)
    });
    assert_eq!(forwarded, vec!["hi ".to_string(), "\u{20ac} ".to_string()]);
    assert_eq!(reply.trailing, Some("\u{FFFD}".to_string()));
    assert_eq!(reply.result.unwrap(), "done");
}

#[test]
fn a_streaming_command_reports_the_error_of_the_core() {
    let core = CoreInterop { supports_binary: false };
    let reply = core.execute_command_streaming("chat", None, |_, decoder| {
        (ResponseBuffer { data: None, error: Some(b"busy".to_vec()) }, decoder)
    });
    assert_eq!(reply.trailing, None);
    assert_eq!(reason(reply.result), "busy");
}

#[test]
fn a_streaming_command_refuses_a_nul() {
    let core = CoreInterop { supports_binary: false };
    let reply =
        core.execute_command_streaming("c\0", None, |_, _| panic!("the core is not called"));
    assert_eq!(reply.trailing, None);
    assert_eq!(
        reason(reply.result),
        "Invalid command string: nul byte found in provided data at position: 1"
    );
}

#[test]
fn a_piece_without_bytes_is_ignored() {
    assert!(piece_holds_bytes(false, 1));
    assert!(!piece_holds_bytes(false, 0));
    assert!(!piece_holds_bytes(false, -1));
    assert!(!piece_holds_bytes(true, 5));
}

#[test]
fn a_panicking_callback_cancels() {
    assert_eq!(callback_status(false), 0);
    assert_eq!(callback_status(true), 1);
}

#[test]
fn a_joined_thread_gives_its_result() {
    assert_eq!(CoreInterop::execute_command_async(Ok(Ok("fine".to_string()))).unwrap(), "fine");
    assert_eq!(
        reason(CoreInterop::execute_command_async(Err("panicked".to_string()))),
        "task join error: panicked"
    );
    assert_eq!(reason(join_result(Err("gone".to_string()), "what: ")), "what: gone");
}

#[test]
fn a_channel_ends_with_the_final_result() {
    let core = CoreInterop { supports_binary: false };
    let mut items = Vec::new();
    let reply = core.execute_command_streaming("chat", None, |_, mut decoder| {
        for piece in ["a", "b"] {
            items.extend(take(&mut decoder, piece.as_bytes()).into_iter().map(Ok));
        }
        (answer(b"done"), decoder)
    });
    items.extend(reply.trailing.map(Ok));
    items.extend(final_channel_item(reply.result));
    let texts: Vec<String> = items.into_iter().map(|item| item.unwrap()).collect();
    assert_eq!(texts, vec!["a", "b", "done"]);

    let failure = FoundryLocalError::CommandExecution { reason: "broken".to_string() };
    assert_eq!(reason(final_channel_item(Err(failure)).unwrap()), "broken");
}

#[test]
fn a_request_reads_back_by_length_and_by_terminator() {
    let params = build_handle_request("\u{1F600}");
    let request = build_request("caf\u{e9}", Some(&params)).unwrap();
    let by_length = &request.command[..request.command_length as usize];
    assert_eq!(std::str::from_utf8(by_length).unwrap(), "caf\u{e9}");
    assert_eq!(request.command.iter().position(|b| *b == 0), Some(5));
    let by_length = &request.data[..request.data_length as usize];
    assert_eq!(std::str::from_utf8(by_length).unwrap(), params.to_string());
    assert_eq!(
        request.data.iter().position(|b| *b == 0),
        Some(request.data_length as usize)
    );
}

#[test]
fn a_streaming_command_hands_out_what_a_panic_left() {
    let core = CoreInterop { supports_binary: false };
    let reply = core.execute_command_streaming("chat", None, |_, mut decoder| {
        assert_eq!(decoder.push(b"lost\xFFlater"), Some("lost".to_string()));
        (answer(b"done"), decoder)
    });
    assert_eq!(reply.trailing, Some("lost\u{FFFD}later".to_string()));
    assert_eq!(reply.result.unwrap(), "done");
}
