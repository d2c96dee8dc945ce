//! Commands to the native core: the buffers that go to it, the buffers that
//! come back, and what a caller gets of them.
//!
//! The calls themselves cross into foreign code and are handed in as closures
//! from plain buffers to plain buffers.
use crate::decimal;
use crate::error;
use crate::error::{ErrorView, FoundryLocalError};
use crate::json;
use crate::streaming::StreamingCallbackState;
use crate::utf8;
use vstd::prelude::*;
use vstd::utf8::*;

verus! {

/// What a command hands to the native core: two texts as NUL-terminated bytes,
/// with their lengths, which leave the terminator out.
#[derive(Debug)]
pub struct RequestBuffer {
    pub command: Vec<u8>,
    pub command_length: i32,
    pub data: Vec<u8>,
    pub data_length: i32,
}

/// The view of a [`RequestBuffer`].
pub struct RequestView {
    pub command: Seq<u8>,
    pub command_length: i32,
    pub data: Seq<u8>,
    pub data_length: i32,
}

impl View for RequestBuffer {
    type V = RequestView;

    open spec fn view(&self) -> RequestView {
        RequestView {
            command: self.command@,
            command_length: self.command_length,
            data: self.data@,
            data_length: self.data_length,
        }
    }
}

/// What the native core gave back. `None` stands for a null pointer.
#[derive(Debug)]
pub struct ResponseBuffer {
    pub data: Option<Vec<u8>>,
    pub error: Option<Vec<u8>>,
}

impl ResponseBuffer {
    /// A response that holds nothing yet.
    pub fn new() -> (res: Self)
        ensures
            res.data is None,
            res.error is None,
    {
        ResponseBuffer { data: None, error: None }
    }
}

/// A text as NUL-terminated bytes.
pub open spec fn c_bytes(text: Seq<char>) -> Seq<u8> {
    encode_utf8(text).push(0u8)
}

/// The reason given when a text cannot be NUL-terminated because a NUL byte
/// stands at `position` in it.
pub open spec fn nul_reason(what: Seq<char>, position: int) -> Seq<char> {
    what + "nul byte found in provided data at position: "@ + decimal::decimal(position)
}

/// The request for a command and its data, or the error for the first of the two
/// that holds a NUL byte.
pub open spec fn command_request(command: Seq<char>, data: Seq<char>) -> Result<
    RequestView,
    ErrorView,
> {
    match (encode_utf8(command).index_of_first(0u8), encode_utf8(data).index_of_first(0u8)) {
        (Some(i), _) => Err(
            ErrorView::CommandExecution(nul_reason("Invalid command string: "@, i)),
        ),
        (None, Some(i)) => Err(
            ErrorView::CommandExecution(nul_reason("Invalid data string: "@, i)),
        ),
        (None, None) => Ok(
            RequestView {
                command: c_bytes(command),
                command_length: encode_utf8(command).len() as i32,
                data: c_bytes(data),
                data_length: encode_utf8(data).len() as i32,
            },
        ),
    }
}

/// The data that goes along with a command: the JSON text of its parameters, or
/// nothing.
pub open spec fn data_text(params: Option<&serde_json::Value>) -> Seq<char> {
    match params {
        Some(value) => json::json_text(json::json_value(*value)),
        None => Seq::empty(),
    }
}

/// A text holds a NUL byte in UTF-8 exactly when it holds a NUL character.
pub proof fn lemma_nul_position(text: Seq<char>)
    ensures
        encode_utf8(text).index_of_first(0u8) is None <==> !text.contains('\0'),
{
    let bytes = encode_utf8(text);
    bytes.index_of_first_ensures(0u8);
    lemma_nul_bytes(text);
}

proof fn lemma_nul_bytes(text: Seq<char>)
    ensures
        encode_utf8(text).contains(0u8) <==> text.contains('\0'),
    decreases text.len(),
{
    let bytes = encode_utf8(text);
    if text.len() > 0 {
        let first = encode_scalar(text[0] as u32);
        let rest = encode_utf8(text.drop_first());
        lemma_nul_bytes(text.drop_first());
        encode_utf8_first_scalar(text);
        assert(bytes =~= first + rest);
        let b = bytes[0];
        assert(codepoint_width_1(b) == 0 && b <= 0x7F <==> b == 0) by (bit_vector);
        assert(first.contains(0u8) <==> text[0] == '\0') by {
            if text[0] == '\0' {
                assert((0u32 & 0x7F) as u8 == 0u8) by (bit_vector);
                assert(first[0] == 0u8);
            }
            if first.contains(0u8) {
                let i = choose|i: int| 0 <= i < first.len() && first[i] == 0u8;
                assert(bytes[i] == 0u8);
                assert(i == 0);
                char_u32_cast(text[0], 0u32);
                char_u32_cast('\0', 0u32);
                assert(text[0] == '\0');
            }
        }
        if bytes.contains(0u8) {
            let i = choose|i: int| 0 <= i < bytes.len() && bytes[i] == 0u8;
            if i < first.len() {
                assert(first[i] == 0u8);
                assert(text[0] == '\0');
            } else {
                assert(rest[i - first.len()] == 0u8);
                let j = choose|j: int|
                    0 <= j < text.drop_first().len() && text.drop_first()[j] == '\0';
                assert(text[j + 1] == '\0');
            }
        }
        if text.contains('\0') {
            let j = choose|j: int| 0 <= j < text.len() && text[j] == '\0';
            if j == 0 {
                let i = choose|i: int| 0 <= i < first.len() && first[i] == 0u8;
                assert(bytes[i] == 0u8);
            } else {
                assert(text.drop_first()[j - 1] == '\0');
                let i = choose|i: int| 0 <= i < rest.len() && rest[i] == 0u8;
                assert(bytes[first.len() + i] == 0u8);
            }
        }
    }
}

/// Copies a text into NUL-terminated bytes.
fn terminated(text: &str, what: &str) -> (res: Result<Vec<u8>, FoundryLocalError>)
    ensures
        match encode_utf8(text@).index_of_first(0u8) {
            None => res matches Ok(bytes) && bytes@ == c_bytes(text@),
            Some(i) => res matches Err(e) && e@ == ErrorView::CommandExecution(
                nul_reason(what@, i),
            ),
        },
{
    let source = text.as_bytes();
    let mut bytes: Vec<u8> = Vec::new();
    let mut i: usize = 0;
    proof {
        source@.index_of_first_ensures(0u8);
    }
    while i < source.len()
        invariant
            i <= source@.len(),
            source@ == encode_utf8(text@),
            bytes@ == source@.take(i as int),
            forall|j: int| 0 <= j < i ==> source@[j] != 0u8,
        decreases source@.len() - i,
    {
        if source[i] == 0u8 {
            let mut cause = "nul byte found in provided data at position: ".to_owned();
            let position = decimal::unsigned_text(i as u64);
            cause.append(position.as_str());
            let failure = error::command_execution(what, cause.as_str());
            proof {
                source@.index_of_first_ensures(0u8);
                assert(failure@->CommandExecution_0 =~= nul_reason(what@, i as int));
            }
            return Err(failure);
        }
        bytes.push(source[i]);
        assert(bytes@ =~= source@.take(i + 1));
        i = i + 1;
    }
    bytes.push(0u8);
    proof {
        source@.index_of_first_ensures(0u8);
        assert(bytes@ =~= c_bytes(text@));
    }
    Ok(bytes)
}

/// Whether a result is the request of the given view, or the error of that view.
pub open spec fn is_request(
    res: Result<RequestBuffer, FoundryLocalError>,
    view: Result<RequestView, ErrorView>,
) -> bool {
    match res {
        Ok(request) => view == Ok::<RequestView, ErrorView>(request@),
        Err(error) => view == Err::<RequestView, ErrorView>(error@),
    }
}

/// Builds the request for a command.
///
/// `command` is the operation name. `params` is an optional JSON value that is
/// sent as the data. Neither may hold a NUL byte.
pub fn build_request(command: &str, params: Option<&serde_json::Value>) -> (res: Result<
    RequestBuffer,
    FoundryLocalError,
>)
    ensures
        is_request(res, command_request(command@, data_text(params))),
        res is Ok <==> !command@.contains('\0'),
{
    proof {
        lemma_nul_position(command@);
    }
    let command_bytes = match terminated(command, "Invalid command string: ") {
        Ok(bytes) => bytes,
        Err(failure) => {
            return Err(failure);
        },
    };
    let data_json = match params {
        Some(value) => match json::value_text(value) {
            Ok(text) => text,
            Err(failure) => {
                return Err(FoundryLocalError::from(failure));
            },
        },
        None => String::new(),
    };
    proof {
        lemma_nul_position(data_json@);
    }
    let data_bytes = match terminated(data_json.as_str(), "Invalid data string: ") {
        Ok(bytes) => bytes,
        Err(failure) => {
            return Err(failure);
        },
    };
    let command_length: i32 = #[verifier::truncate]
    (command.as_bytes().len() as i32);
    let data_length: i32 = #[verifier::truncate]
    (data_json.as_str().as_bytes().len() as i32);
    Ok(RequestBuffer { command: command_bytes, command_length, data: data_bytes, data_length })
}

/// The core can read a request in both of the usual ways: up to the given lengths, or
/// up to the terminator. Either way it finds the two texts as they were given. The
/// lengths can only be right where they fit in 32 bits.
pub proof fn law_request_reads_back(command: Seq<char>, data: Seq<char>)
    requires
        !command.contains('\0'),
        !data.contains('\0'),
        encode_utf8(command).len() <= i32::MAX,
        encode_utf8(data).len() <= i32::MAX,
    ensures
        command_request(command, data) matches Ok(request) && {
            &&& decode_utf8(request.command.take(request.command_length as int)) == command
            &&& request.command.index_of_first(0u8) == Some(request.command_length as int)
            &&& decode_utf8(request.data.take(request.data_length as int)) == data
            &&& request.data.index_of_first(0u8) == Some(request.data_length as int)
        },
{
    lemma_c_bytes(command);
    lemma_c_bytes(data);
}

proof fn lemma_c_bytes(text: Seq<char>)
    requires
        !text.contains('\0'),
    ensures
        encode_utf8(text).index_of_first(0u8) is None,
        c_bytes(text).index_of_first(0u8) == Some(encode_utf8(text).len() as int),
        decode_utf8(c_bytes(text).take(encode_utf8(text).len() as int)) == text,
{
    let bytes = encode_utf8(text);
    let n = bytes.len() as int;
    lemma_nul_position(text);
    bytes.index_of_first_ensures(0u8);
    c_bytes(text).index_of_first_ensures(0u8);
    assert(c_bytes(text)[n] == 0u8);
    assert(c_bytes(text).take(n) =~= bytes);
    encode_utf8_decode_utf8(text);
}

/// The text of a buffer that the native core filled: none when the pointer is
/// null or the length is zero.
pub open spec fn buffer_text(buffer: Option<Vec<u8>>) -> Option<Seq<char>> {
    match buffer {
        Some(bytes) => if bytes@.len() == 0 {
            None
        } else {
            Some(utf8::lossy_text(bytes@))
        },
        None => None,
    }
}

/// What a response amounts to: its error if it has one, else its data, which
/// may be missing.
pub open spec fn response_outcome(response: ResponseBuffer) -> Result<Seq<char>, ErrorView> {
    match (buffer_text(response.error), buffer_text(response.data)) {
        (Some(reason), _) => Err(ErrorView::CommandExecution(reason)),
        (None, Some(data)) => Ok(data),
        (None, None) => Ok(Seq::empty()),
    }
}

/// Reads a buffer that the native core filled.
pub fn read_native_buffer(buffer: &Option<Vec<u8>>) -> (res: Option<String>)
    ensures
        match buffer_text(*buffer) {
            Some(text) => res matches Some(read) && read@ == text,
            None => res is None,
        },
{
    match buffer {
        Some(bytes) => if bytes.len() == 0 {
            None
        } else {
            Some(utf8::from_utf8_lossy(bytes.as_slice()))
        },
        None => None,
    }
}

/// Takes the data string out of a response, or raises its error.
pub fn process_response(response: ResponseBuffer) -> (res: Result<String, FoundryLocalError>)
    ensures
        error::result_view(res) == response_outcome(response),
{
    let error_text = read_native_buffer(&response.error);
    let data_text = read_native_buffer(&response.data);
    match error_text {
        Some(reason) => Err(FoundryLocalError::CommandExecution { reason }),
        None => match data_text {
            Some(data) => Ok(data),
            None => {
                let none = String::new();
                assert(none@ =~= Seq::<char>::empty());
                Ok(none)
            },
        },
    }
}

/// A request that carries raw bytes next to its two texts. `None` stands for a
/// null pointer.
#[derive(Debug)]
pub struct StreamingRequestBuffer<'a> {
    pub request: RequestBuffer,
    pub binary_data: Option<&'a [u8]>,
    pub binary_data_length: i32,
}

/// The pointer to pass for raw bytes: null when there are none.
pub open spec fn binary_pointer(bytes: &[u8]) -> Option<&[u8]> {
    if bytes@.len() == 0 {
        None
    } else {
        Some(bytes)
    }
}

/// What is left to hand out when a streaming command has returned.
#[derive(Debug)]
pub struct StreamingReply {
    /// A last text to forward.
    pub trailing: Option<String>,
    /// The result of the command.
    pub result: Result<String, FoundryLocalError>,
}

/// The loaded native core.
///
/// The raw calls are handed in: each takes the request by value, makes one call
/// into the core and gives back a copy of what the core answered.
#[derive(Debug)]
pub struct CoreInterop {
    /// Whether the core exports the call that carries raw bytes. Older cores do
    /// not.
    pub supports_binary: bool,
}

impl CoreInterop {
    /// Executes a command.
    ///
    /// The core is called once, with the request for the command, and its
    /// answer decides the result. It is not called when the request cannot be
    /// built.
    pub fn execute_command<F: FnOnce(RequestBuffer) -> ResponseBuffer>(
        &self,
        command: &str,
        params: Option<&serde_json::Value>,
        native: F,
    ) -> (res: Result<String, FoundryLocalError>)
        requires
            !command@.contains('\0') ==> forall|request: RequestBuffer|
                call_requires(native, (request,)),
        ensures
            command_request(command@, data_text(params)) is Ok <==> !command@.contains('\0'),
            match command_request(command@, data_text(params)) {
                Err(failure) => res matches Err(e) && e@ == failure,
                Ok(view) => exists|request: RequestBuffer, response: ResponseBuffer|
                    request@ == view && #[trigger] call_ensures(native, (request,), response)
                        && error::result_view(res) == response_outcome(response),
            },
    {
        match build_request(command, params) {
            Ok(request) => {
                let ghost sent = request;
                let response = native(request);
                assert(call_ensures(native, (sent,), response));
                process_response(response)
            },
            Err(failure) => Err(failure),
        }
    }

    /// Executes a command with an additional binary payload.
    ///
    /// The core is called once, with the request for the command and the given
    /// bytes. It is not called when it has no such call, or when the request
    /// cannot be built.
    pub fn execute_command_with_binary<'a, F: FnOnce(StreamingRequestBuffer<'a>) -> ResponseBuffer>(
        &self,
        command: &str,
        params: Option<&serde_json::Value>,
        binary_data: &'a [u8],
        native: F,
    ) -> (res: Result<String, FoundryLocalError>)
        requires
            self.supports_binary && !command@.contains('\0') ==> forall|
                request: StreamingRequestBuffer<'a>,
            | call_requires(native, (request,)),
        ensures
            self.supports_binary ==> (command_request(command@, data_text(params)) is Ok
                <==> !command@.contains('\0')),
            !self.supports_binary ==> (res matches Err(e) && e@ == ErrorView::CommandExecution(
                unsupported_reason(),
            )),
            self.supports_binary ==> match command_request(command@, data_text(params)) {
                Err(failure) => res matches Err(e) && e@ == failure,
                Ok(view) => exists|
                    request: StreamingRequestBuffer<'a>,
                    response: ResponseBuffer,
                |
                    request.request@ == view && request.binary_data == binary_pointer(binary_data)
                        && request.binary_data_length == binary_data@.len() as i32
                        && #[trigger] call_ensures(native, (request,), response)
                        && error::result_view(res) == response_outcome(response),
            },
    {
        if !self.supports_binary {
            return Err(
                FoundryLocalError::CommandExecution {
                    reason:
                        "execute_command_with_binary is not supported by this native core (symbol not found)".to_owned(),
                },
            );
        }
        match build_request(command, params) {
            Ok(request) => {
                let binary_pointer = if binary_data.len() == 0 {
                    None
                } else {
                    Some(binary_data)
                };
                let binary_data_length: i32 = #[verifier::truncate]
                (binary_data.len() as i32);
                let whole = StreamingRequestBuffer {
                    request,
                    binary_data: binary_pointer,
                    binary_data_length,
                };
                let ghost sent = whole;
                let response = native(whole);
                assert(call_ensures(native, (sent,), response));
                process_response(response)
            },
            Err(failure) => Err(failure),
        }
    }

    /// Executes a command that streams results back.
    ///
    /// The core is called once, with the request for the command and a fresh
    /// decoder, into which every piece that the core delivers is pushed. What
    /// the decoder still keeps when the call returns is handed out as the
    /// trailing text, before the result.
    pub fn execute_command_streaming<
        F: FnOnce(RequestBuffer, StreamingCallbackState) -> (ResponseBuffer, StreamingCallbackState),
    >(&self, command: &str, params: Option<&serde_json::Value>, native: F) -> (res: StreamingReply)
        requires
            !command@.contains('\0') ==> forall|
                request: RequestBuffer,
                decoder: StreamingCallbackState,
            | call_requires(native, (request, decoder)),
        ensures
            command_request(command@, data_text(params)) is Ok <==> !command@.contains('\0'),
            match command_request(command@, data_text(params)) {
                Err(failure) => res.trailing is None && (res.result matches Err(e) && e@
                    == failure),
                Ok(view) => exists|
                    request: RequestBuffer,
                    decoder: StreamingCallbackState,
                    answer: (ResponseBuffer, StreamingCallbackState),
                |
                    request@ == view && decoder@.len() == 0 && #[trigger] call_ensures(
                        native,
                        (request, decoder),
                        answer,
                    ) && is_trailing(res.trailing, answer.1@) && error::result_view(res.result)
                        == response_outcome(answer.0),
            },
    {
        match build_request(command, params) {
            Ok(request) => {
                let decoder = StreamingCallbackState::new();
                let ghost sent = (request, decoder);
                let answer = native(request, decoder);
                assert(call_ensures(native, sent, answer));
                let (response, mut state) = answer;
                let trailing = state.flush();
                let result = process_response(response);
                StreamingReply { trailing, result }
            },
            Err(failure) => StreamingReply { trailing: None, result: Err(failure) },
        }
    }

    /// The result of a command that ran on a thread of its own, for the caller who
    /// waits for it.
    pub fn execute_command_async(joined: Result<Result<String, FoundryLocalError>, String>) -> (res:
        Result<String, FoundryLocalError>)
        ensures
            match joined {
                Ok(result) => res == result,
                Err(cause) => res matches Err(e) && e@ == ErrorView::CommandExecution(
                    "task join error: "@ + cause@,
                ),
            },
    {
        join_result(joined, "task join error: ")
    }
}

/// The reason given when the core has no call that carries raw bytes.
pub open spec fn unsupported_reason() -> Seq<char> {
    "execute_command_with_binary is not supported by this native core (symbol not found)"@
}

/// Whether `trailing` is what a decoder that keeps `kept` back gives out last.
pub open spec fn is_trailing(trailing: Option<String>, kept: Seq<u8>) -> bool {
    match trailing {
        Some(text) => kept.len() > 0 && text@ == utf8::lossy_text(kept),
        None => kept.len() == 0,
    }
}

/// Whether a piece that the native core delivers holds anything: its pointer is
/// not null and its length is positive.
pub fn piece_holds_bytes(pointer_is_null: bool, length: i32) -> (res: bool)
    ensures
        res == (!pointer_is_null && length > 0),
{
    !(pointer_is_null || length <= 0)
}

/// What a streaming callback answers to the native core: 0 to go on, or 1 to
/// cancel because the receiver of the text panicked.
pub fn callback_status(panicked: bool) -> (res: i32)
    ensures
        res == (if panicked { 1int } else { 0int }),
{
    if panicked {
        1
    } else {
        0
    }
}

/// The result of a command that ran on another thread. The outer error is the
/// text of what kept the thread from finishing.
pub fn join_result(
    joined: Result<Result<String, FoundryLocalError>, String>,
    what: &str,
) -> (res: Result<String, FoundryLocalError>)
    ensures
        match joined {
            Ok(result) => res == result,
            Err(cause) => res matches Err(e) && e@ == ErrorView::CommandExecution(
                what@ + cause@,
            ),
        },
{
    match joined {
        Ok(result) => result,
        Err(cause) => Err(error::command_execution(what, cause.as_str())),
    }
}

/// The last item of a channel of streamed chunks: after all the text, the result of
/// the command goes through the same channel, be it the final payload or an error.
pub fn final_channel_item(result: Result<String, FoundryLocalError>) -> (res: Option<
    Result<String, FoundryLocalError>,
>)
    ensures
        res == Some(result),
{
    Some(result)
}

/// A response is read whole, however long it is: data that is the encoding of a text gives
/// that text, and an error that is the encoding of a text gives that text as the reason,
/// whatever the data is.
pub proof fn law_responses_are_read_whole(response: ResponseBuffer, text: Seq<char>)
    requires
        text.len() > 0,
    ensures
        (response.error is None || response.error->0@.len() == 0) && response.data is Some
            && response.data->0@ == encode_utf8(text) ==> response_outcome(response) == Ok::<
            Seq<char>,
            ErrorView,
        >(text),
        response.error is Some && response.error->0@ == encode_utf8(text) ==> response_outcome(
            response,
        ) == Err::<Seq<char>, ErrorView>(ErrorView::CommandExecution(text)),
        buffer_text(response.data) is Some <==> response.data is Some
            && response.data->0@.len() > 0,
{
    utf8::law_well_formed_text(text);
    encode_utf8_first_scalar(text);
    lemma_first_byte(text);
}

proof fn lemma_first_byte(text: Seq<char>)
    requires
        text.len() > 0,
    ensures
        encode_utf8(text).len() > 0,
{
    encode_utf8_first_scalar(text);
    utf8::lemma_well_formed_by_ranges(encode_utf8(text));
}

/// Of bytes that are not the encoding of a text no byte is lost either: what is read is what
/// reading with replacements gives for all of them. A response without any bytes is an empty
/// text, and an error of any bytes wins over the data.
pub proof fn law_no_byte_of_a_response_is_lost(response: ResponseBuffer)
    ensures
        response.error is Some && response.error->0@.len() > 0 ==> response_outcome(response)
            == Err::<Seq<char>, ErrorView>(
            ErrorView::CommandExecution(utf8::lossy_text(response.error->0@)),
        ),
        (response.error is None || response.error->0@.len() == 0) && response.data is Some
            && response.data->0@.len() > 0 ==> response_outcome(response) == Ok::<
            Seq<char>,
            ErrorView,
        >(utf8::lossy_text(response.data->0@)),
        (response.error is None || response.error->0@.len() == 0) && (response.data is None
            || response.data->0@.len() == 0) ==> response_outcome(response) == Ok::<
            Seq<char>,
            ErrorView,
        >(Seq::empty()),
{
}

/// A request holds its texts whole, however long they are: both are terminated by a NUL and
/// hold nothing else besides, and the lengths count the bytes before the terminator. The
/// request shows all of its fields.
pub proof fn law_request_holds_its_texts_whole(
    command: Seq<char>,
    data: Seq<char>,
    request: RequestBuffer,
)
    requires
        command_request(command, data) == Ok::<RequestView, ErrorView>(request@),
    ensures
        request.command@ == encode_utf8(command) + seq![0u8],
        request.data@ == encode_utf8(data) + seq![0u8],
        request.command_length == (request.command@.len() - 1) as i32,
        request.data_length == (request.data@.len() - 1) as i32,
        !encode_utf8(command).contains(0u8),
        !encode_utf8(data).contains(0u8),
{
    encode_utf8(command).index_of_first_ensures(0u8);
    encode_utf8(data).index_of_first_ensures(0u8);
    assert(request.command@ =~= encode_utf8(command) + seq![0u8]);
    assert(request.data@ =~= encode_utf8(data) + seq![0u8]);
}

/// A text that holds a NUL is refused, and the reason tells which text it is and where its
/// first NUL byte stands. The command is looked at first.
pub proof fn law_first_nul_is_reported(command: Seq<char>, data: Seq<char>, position: int)
    requires
        0 <= position,
    ensures
        ({
            let bytes = encode_utf8(command);
            position < bytes.len() && bytes[position] == 0u8 && (forall|j: int|
                0 <= j < position ==> bytes[j] != 0u8) ==> command_request(command, data) == Err::<
                RequestView,
                ErrorView,
            >(
                ErrorView::CommandExecution(
                    "Invalid command string: nul byte found in provided data at position: "@
                        + decimal::decimal(position),
                ),
            )
        }),
        ({
            let bytes = encode_utf8(data);
            !command.contains('\0') && position < bytes.len() && bytes[position] == 0u8 && (forall|
                j: int,
            |
                0 <= j < position ==> bytes[j] != 0u8) ==> command_request(command, data) == Err::<
                RequestView,
                ErrorView,
            >(
                ErrorView::CommandExecution(
                    "Invalid data string: nul byte found in provided data at position: "@
                        + decimal::decimal(position),
                ),
            )
        }),
{
    lemma_nul_position(command);
    encode_utf8(command).index_of_first_ensures(0u8);
    encode_utf8(data).index_of_first_ensures(0u8);
    reveal_strlit("Invalid command string: ");
    reveal_strlit("Invalid data string: ");
    reveal_strlit("nul byte found in provided data at position: ");
    reveal_strlit("Invalid command string: nul byte found in provided data at position: ");
    reveal_strlit("Invalid data string: nul byte found in provided data at position: ");
    assert("Invalid command string: "@ + "nul byte found in provided data at position: "@
        =~= "Invalid command string: nul byte found in provided data at position: "@);
    assert("Invalid data string: "@ + "nul byte found in provided data at position: "@
        =~= "Invalid data string: nul byte found in provided data at position: "@);
}

/// The data of a command is the JSON text of its parameters, whole, and nothing when there
/// are none. The pointer to raw bytes is to all of them, and null exactly when there are
/// none. A last text is what reading all that a decoder holds gives.
pub proof fn law_arguments_are_passed_whole(
    value: &serde_json::Value,
    bytes: &[u8],
    trailing: Option<String>,
    kept: Seq<u8>,
)
    ensures
        data_text(Some(value)) == json::json_text(json::json_value(*value)),
        data_text(None).len() == 0,
        bytes@.len() > 0 ==> binary_pointer(bytes) == Some(bytes),
        bytes@.len() == 0 ==> binary_pointer(bytes) is None,
        is_trailing(trailing, kept) <==> (trailing is Some <==> kept.len() > 0) && (
        trailing is Some ==> trailing->0@ == utf8::lossy_text(kept)),
        unsupported_reason()
            == "execute_command_with_binary is not supported by this native core (symbol not found)"@,
{
}

/// A built request is the one that was asked for, or its error.
pub proof fn law_requests_are_as_asked(
    res: Result<RequestBuffer, FoundryLocalError>,
    view: Result<RequestView, ErrorView>,
)
    requires
        is_request(res, view),
    ensures
        res is Ok <==> view is Ok,
        res is Ok ==> res->Ok_0@ == view->Ok_0,
        res is Err ==> res->Err_0@ == view->Err_0,
{
}

} // verus!
