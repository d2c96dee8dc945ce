//! The loop that sends queued audio to the native core, one chunk at a time.
//!
//! The caller takes chunks off the queue, sends each with the command that
//! [`PushLoop::next_command`] gives, and hands the answer to
//! [`PushLoop::handle_answer`].
use crate::error::{ErrorView, FoundryLocalError};
use crate::json;
use crate::json::JsonView;
use crate::live_audio;
use crate::live_audio::{
    CoreErrorResponse, LiveAudioTranscriptionRaw, LiveAudioTranscriptionResponse, ResponseView,
};
use crate::session;
use crate::session::{NativeCall, NativeCommand};
use vstd::prelude::*;

verus! {

/// What became of a chunk that was sent to the native core.
#[derive(Debug)]
pub enum PushReply {
    /// The core took the chunk. The data of its answer parses as this result, or
    /// as none.
    Accepted(Option<LiveAudioTranscriptionRaw>),
    /// The push failed with an error of this text, which parses as this
    /// structured error, or as none.
    Failed { error_text: String, parsed: Option<CoreErrorResponse> },
}

/// The reason reported for a failed push.
pub open spec fn push_failed_reason(error_text: Seq<char>, code: Seq<char>) -> Seq<char> {
    "Push failed (code="@ + code + "): "@ + error_text
}

/// The code of a failed push: that of its structured error, if it has one.
pub open spec fn failure_code(parsed: Option<CoreErrorResponse>) -> Seq<char> {
    match parsed {
        Some(response) => response.code@,
        None => "UNKNOWN"@,
    }
}

/// What the answer to a push delivers to the stream of results: a result that has
/// text, an error, or nothing.
pub open spec fn delivery(reply: PushReply) -> Option<Result<ResponseView, ErrorView>> {
    match reply {
        PushReply::Accepted(Some(raw)) => if raw.text@.len() > 0 {
            Some(Ok(live_audio::response_of(raw@)))
        } else {
            None
        },
        PushReply::Accepted(None) => None,
        PushReply::Failed { error_text, parsed } => Some(
            Err(
                ErrorView::CommandExecution(
                    push_failed_reason(error_text@, failure_code(parsed)),
                ),
            ),
        ),
    }
}

/// Whether a delivered item is the one of the given view.
pub open spec fn is_item(
    item: Option<Result<LiveAudioTranscriptionResponse, FoundryLocalError>>,
    view: Option<Result<ResponseView, ErrorView>>,
) -> bool {
    match (item, view) {
        (None, None) => true,
        (Some(Ok(response)), Some(Ok(expected))) => response@ == expected,
        (Some(Err(failure)), Some(Err(expected))) => failure@ == expected,
        _ => false,
    }
}

/// The push loop of one session.
#[derive(Debug)]
pub struct PushLoop {
    /// The handle of the session.
    pub session_handle: String,
    /// Whether a push failed. The loop sends nothing after that.
    pub ended: bool,
}

/// The view of a [`PushLoop`].
pub struct LoopView {
    pub session_handle: Seq<char>,
    pub ended: bool,
}

impl View for PushLoop {
    type V = LoopView;

    open spec fn view(&self) -> LoopView {
        LoopView { session_handle: self.session_handle@, ended: self.ended }
    }
}

/// A chunk together with the command that pushes it.
#[derive(Debug)]
pub struct PushCommand {
    pub command: NativeCommand,
    pub audio_data: Vec<u8>,
}

impl PushCommand {
    /// Whether this is the command and the audio of the given call.
    pub open spec fn makes(&self, call: NativeCall) -> bool {
        self.command.makes(call) && call.audio == Some(self.audio_data@)
    }
}

/// The loop of a session that just started.
pub open spec fn fresh(session_handle: Seq<char>) -> LoopView {
    LoopView { session_handle, ended: false }
}

/// The call that the loop makes for a chunk, if it has not ended.
pub open spec fn push_of(push_loop: LoopView, audio: Seq<u8>) -> Option<NativeCall> {
    if push_loop.ended {
        None
    } else {
        Some(session::push_call(push_loop.session_handle, audio))
    }
}

/// The loop after it took in what became of a chunk.
pub open spec fn after_reply(push_loop: LoopView, reply: PushReply) -> LoopView {
    LoopView { ended: push_loop.ended || reply is Failed, ..push_loop }
}

impl PushLoop {
    /// The loop for a session that just started.
    pub fn new(session_handle: String) -> (res: Self)
        ensures
            res@ == fresh(session_handle@),
    {
        PushLoop { session_handle, ended: false }
    }

    /// The command that pushes the next chunk, with the chunk as it is, or `None` when
    /// the loop has ended.
    pub fn next_command(&self, audio_data: Vec<u8>) -> (res: Option<PushCommand>)
        ensures
            match push_of(self@, audio_data@) {
                Some(call) => res matches Some(push) && push.makes(call),
                None => res is None,
            },
            res is None <==> self.ended,
            res matches Some(push) ==> push.audio_data@ == audio_data@ && push.command.carries(
                "audio_stream_push"@,
                live_audio::handle_params(self.session_handle@),
            ),
    {
        if self.ended {
            None
        } else {
            let command = NativeCommand {
                command: "audio_stream_push",
                params: live_audio::build_handle_request(self.session_handle.as_str()),
            };
            Some(PushCommand { command, audio_data })
        }
    }

    /// Takes in the answer of the native core to a chunk: its data, or the text of
    /// its error. Gives what to deliver to the stream of results.
    ///
    /// `parse_result` reads data as a raw result, `parse_error` reads an error as
    /// a structured one. The one that fits the answer is called, once.
    pub fn handle_answer<
        F: FnOnce(&str) -> Result<LiveAudioTranscriptionRaw, serde_json::Error>,
        G: FnOnce(&str) -> Result<CoreErrorResponse, serde_json::Error>,
    >(&mut self, answer: Result<String, String>, parse_result: F, parse_error: G) -> (res: Option<
        Result<LiveAudioTranscriptionResponse, FoundryLocalError>,
    >)
        requires
            forall|data: &str|
                is_data(answer, data@) ==> #[trigger] call_requires(parse_result, (data,)),
            forall|text: &str|
                is_error(answer, text@) ==> #[trigger] call_requires(parse_error, (text,)),
        ensures
            match answer {
                Ok(data) => exists|
                    sent: &str,
                    parsed: Result<LiveAudioTranscriptionRaw, serde_json::Error>,
                |
                    sent@ == data@ && #[trigger] call_ensures(parse_result, (sent,), parsed)
                        && is_item(res, delivery(PushReply::Accepted(parsed.ok()))),
                Err(error_text) => exists|
                    sent: &str,
                    parsed: Result<CoreErrorResponse, serde_json::Error>,
                |
                    sent@ == error_text@ && #[trigger] call_ensures(parse_error, (sent,), parsed)
                        && is_item(
                        res,
                        delivery(PushReply::Failed { error_text, parsed: parsed.ok() }),
                    ),
            },
            answer is Ok ==> final(self)@ == old(self)@,
            answer is Err ==> final(self)@ == (LoopView { ended: true, ..old(self)@ }),
    {
        match answer {
            Ok(data) => {
                let text = data.as_str();
                let parsed = parse_result(text);
                let ghost outcome = parsed;
                assert(call_ensures(parse_result, (text,), outcome));
                self.handle_reply(PushReply::Accepted(parsed.ok()))
            },
            Err(error_text) => {
                let text = error_text.as_str();
                let parsed = CoreErrorResponse::try_parse(text, parse_error);
                self.handle_reply(PushReply::Failed { error_text, parsed })
            },
        }
    }

    /// Takes in what became of a chunk, and gives what to deliver to the stream of
    /// results. Any error ends the loop.
    pub fn handle_reply(&mut self, reply: PushReply) -> (res: Option<
        Result<LiveAudioTranscriptionResponse, FoundryLocalError>,
    >)
        ensures
            is_item(res, delivery(reply)),
            final(self)@ == after_reply(old(self)@, reply),
            reply matches PushReply::Accepted(Some(raw)) ==> (raw.text@.len() > 0 ==> (
            res matches Some(Ok(response)) && response.content@.len() == 1
                && response.content@[0].text@ == raw.text@ && response.content@[0].transcript@
                == raw.text@ && response.is_final == raw.is_final && response.start_time
                == raw.start_time && response.end_time == raw.end_time)),
            reply matches PushReply::Accepted(Some(raw)) ==> (raw.text@.len() == 0 ==> res is None),
            reply matches PushReply::Accepted(None) ==> res is None,
            reply is Failed ==> res matches Some(Err(FoundryLocalError::CommandExecution { .. })),
            final(self).ended == (old(self).ended || reply is Failed),
            final(self).session_handle == old(self).session_handle,
    {
        match reply {
            PushReply::Accepted(parsed) => match parsed {
                Some(raw) => if raw.text.as_str().is_empty() {
                    None
                } else {
                    Some(Ok(LiveAudioTranscriptionResponse::from_raw(raw)))
                },
                None => None,
            },
            PushReply::Failed { error_text, parsed } => {
                let mut reason = "Push failed (code=".to_owned();
                match &parsed {
                    Some(response) => reason.append(response.code.as_str()),
                    None => reason.append("UNKNOWN"),
                }
                reason.append("): ");
                reason.append(error_text.as_str());
                self.ended = true;
                Some(Err(FoundryLocalError::CommandExecution { reason }))
            },
        }
    }
}

/// Whether the native core answered a chunk with the given data.
pub open spec fn is_data(answer: Result<String, String>, data: Seq<char>) -> bool {
    answer matches Ok(text) && text@ == data
}

/// Whether the native core answered a chunk with an error of the given text.
pub open spec fn is_error(answer: Result<String, String>, error_text: Seq<char>) -> bool {
    answer matches Err(text) && text@ == error_text
}

/// The calls that a loop makes when it takes the given chunks off the queue and gets
/// the given replies, one per call.
pub open spec fn sent(
    push_loop: LoopView,
    chunks: Seq<Seq<u8>>,
    replies: Seq<PushReply>,
) -> Seq<NativeCall>
    decreases chunks.len(),
{
    if chunks.len() == 0 {
        Seq::empty()
    } else {
        match push_of(push_loop, chunks[0]) {
            Some(call) => seq![call] + sent(
                after_reply(push_loop, replies[0]),
                chunks.drop_first(),
                replies.drop_first(),
            ),
            None => Seq::empty(),
        }
    }
}

/// The calls of a whole session after its start: those of the push loop, and then the
/// one that stops the native session.
pub open spec fn sent_until_stop(
    handle: Seq<char>,
    chunks: Seq<Seq<u8>>,
    replies: Seq<PushReply>,
) -> Seq<NativeCall> {
    sent(fresh(handle), chunks, replies).push(session::stop_call(handle))
}

/// The calls that push the given chunks, one call per chunk.
pub open spec fn pushes(handle: Seq<char>, chunks: Seq<Seq<u8>>) -> Seq<NativeCall> {
    chunks.map_values(|audio: Seq<u8>| session::push_call(handle, audio))
}

/// Each chunk is pushed once, in order and as it is, up to and with the first chunk
/// whose push fails, and the native session is stopped after the last of them. Here `n`
/// is the number of chunks up to and with that one, or of all if none fails.
pub proof fn law_chunks_are_sent_in_order(
    handle: Seq<char>,
    chunks: Seq<Seq<u8>>,
    replies: Seq<PushReply>,
    n: int,
)
    requires
        chunks.len() == replies.len(),
        0 <= n <= chunks.len(),
        forall|i: int| 0 <= i < n - 1 ==> !(#[trigger] replies[i] is Failed),
        n < chunks.len() ==> n > 0 && replies[n - 1] is Failed,
    ensures
        sent(fresh(handle), chunks, replies) == pushes(handle, chunks.take(n)),
        sent_until_stop(handle, chunks, replies) == pushes(handle, chunks.take(n)).push(
            session::stop_call(handle),
        ),
    decreases chunks.len(),
{
    if chunks.len() > 0 {
        let rest = chunks.drop_first();
        let later = replies.drop_first();
        if replies[0] is Failed {
            assert(n == 1);
            let ended = after_reply(fresh(handle), replies[0]);
            assert(sent(ended, rest, later) =~= Seq::<NativeCall>::empty());
        } else {
            assert forall|i: int| 0 <= i < n - 2 implies !(#[trigger] later[i] is Failed) by {
                assert(!(replies[i + 1] is Failed));
            }
            law_chunks_are_sent_in_order(handle, rest, later, n - 1);
            assert(after_reply(fresh(handle), replies[0]) == fresh(handle));
            assert(chunks.take(n).drop_first() =~= rest.take(n - 1));
        }
    }
    assert(sent(fresh(handle), chunks, replies) =~= pushes(handle, chunks.take(n)));
}

/// What the loop has delivered after the given answers, the ones after a failed
/// push left out because the loop never asks for them.
pub open spec fn deliveries(replies: Seq<PushReply>) -> Seq<Result<ResponseView, ErrorView>>
    decreases replies.len(),
{
    if replies.len() == 0 {
        Seq::empty()
    } else {
        let first = match delivery(replies[0]) {
            Some(item) => seq![item],
            None => Seq::empty(),
        };
        if replies[0] is Failed {
            first
        } else {
            first + deliveries(replies.drop_first())
        }
    }
}

/// A result on the stream has exactly one content part, whose text is not empty
/// and equals its transcript.
pub open spec fn well_shaped(item: Result<ResponseView, ErrorView>) -> bool {
    item matches Ok(response) ==> response.content.len() == 1 && response.content[0].0.len() > 0
        && response.content[0].0 == response.content[0].1
}

/// Every delivered result has one content part with text, and its text equals its
/// transcript. An error is delivered at most once, as the last item.
pub proof fn law_stream_of_results(replies: Seq<PushReply>, i: int)
    requires
        0 <= i < deliveries(replies).len(),
    ensures
        well_shaped(deliveries(replies)[i]),
        deliveries(replies)[i] is Err ==> i == deliveries(replies).len() - 1,
    decreases replies.len(),
{
    let first = match delivery(replies[0]) {
        Some(item) => seq![item],
        None => Seq::empty(),
    };
    if !(replies[0] is Failed) && i >= first.len() {
        law_stream_of_results(replies.drop_first(), i - first.len());
    }
}

/// What comes after a failed push makes no difference: the loop has ended.
pub proof fn law_nothing_after_a_failed_push(
    before: Seq<PushReply>,
    failed: PushReply,
    after: Seq<PushReply>,
)
    requires
        failed is Failed,
    ensures
        deliveries(before.push(failed) + after) == deliveries(before.push(failed)),
    decreases before.len(),
{
    let whole = before.push(failed) + after;
    let short = before.push(failed);
    assert(whole[0] == short[0]);
    if before.len() > 0 {
        law_nothing_after_a_failed_push(before.drop_first(), failed, after);
        assert(whole.drop_first() =~= before.drop_first().push(failed) + after);
        assert(short.drop_first() =~= before.drop_first().push(failed));
    }
}

/// A loop that has not ended pushes every chunk as it is: the audio of the call is the chunk,
/// byte for byte and of the same length, and the call names the session of the loop. One that
/// has ended pushes nothing.
pub proof fn law_push_carries_the_chunk(push_loop: LoopView, audio: Seq<u8>, push: PushCommand)
    ensures
        push_of(push_loop, audio) is None <==> push_loop.ended,
        push_of(push_loop, audio) matches Some(call) ==> {
            &&& call.audio == Some(audio)
            &&& call.command == "audio_stream_push"@
            &&& call.params.dom() == set!["SessionHandle"@]
            &&& call.params["SessionHandle"@] == JsonView::Text(push_loop.session_handle)
            &&& push.makes(call) ==> push.audio_data@ == audio && push.command.command@
                == "audio_stream_push"@ && json::json_value(push.command.params)
                == live_audio::request_value(live_audio::handle_params(push_loop.session_handle))
        },
{
    live_audio::law_handle_request_names_the_session(push_loop.session_handle);
}

/// Chunks that differ are pushed by calls that differ.
pub proof fn law_different_chunks_make_different_pushes(
    push_loop: LoopView,
    a: Seq<u8>,
    b: Seq<u8>,
)
    requires
        !push_loop.ended,
        push_of(push_loop, a) == push_of(push_loop, b),
    ensures
        a == b,
{
}

/// The loop shows its handle and whether it has ended. It starts with the handle that it is
/// given, it ends exactly when a push fails, and it keeps its handle.
pub proof fn law_loop_ends_with_a_failed_push(
    push_loop: PushLoop,
    handle: Seq<char>,
    reply: PushReply,
)
    ensures
        push_loop@.session_handle == push_loop.session_handle@,
        push_loop@.ended == push_loop.ended,
        !fresh(handle).ended,
        fresh(handle).session_handle == handle,
        after_reply(push_loop@, reply).session_handle == push_loop.session_handle@,
        after_reply(push_loop@, reply).ended <==> push_loop.ended || reply is Failed,
{
}

/// An accepted push delivers an item exactly when its answer parsed and the result has text,
/// whether the result is final or interim and whatever its times are. The item has the text,
/// the transcript, the finality and the times of the result.
pub proof fn law_every_result_with_text_is_delivered(
    parsed: Option<LiveAudioTranscriptionRaw>,
    item: Option<Result<LiveAudioTranscriptionResponse, FoundryLocalError>>,
)
    ensures
        delivery(PushReply::Accepted(parsed)) is Some <==> parsed is Some
            && parsed->0.text@.len() > 0,
        delivery(PushReply::Accepted(parsed)) matches Some(delivered) ==> (delivered matches Ok(
            response,
        ) && response.content == seq![(parsed->0.text@, parsed->0.text@)] && response.is_final
            == parsed->0.is_final && response.start_time == parsed->0.start_time
            && response.end_time == parsed->0.end_time),
        is_item(item, delivery(PushReply::Accepted(parsed))) && parsed is Some
            && parsed->0.text@.len() > 0 ==> (item matches Some(Ok(response))
            && response.content@.len() == 1 && response.content@[0].text@ == parsed->0.text@
            && response.content@[0].transcript@ == parsed->0.text@ && response.is_final
            == parsed->0.is_final && response.start_time == parsed->0.start_time
            && response.end_time == parsed->0.end_time),
        is_item(item, delivery(PushReply::Accepted(parsed))) && (parsed is None
            || parsed->0.text@.len() == 0) ==> item is None,
{
    if is_item(item, delivery(PushReply::Accepted(parsed))) && parsed is Some
        && parsed->0.text@.len() > 0 {
        live_audio::law_response_has_every_field_of_the_result(item->0->Ok_0, parsed->0);
    }
}

/// A failed push always delivers an error. Its reason holds the code of the structured error,
/// whole, or says that there is none, and the whole text of the error.
pub proof fn law_every_failure_is_delivered(
    error_text: String,
    parsed: Option<CoreErrorResponse>,
    item: Option<Result<LiveAudioTranscriptionResponse, FoundryLocalError>>,
)
    requires
        is_item(item, delivery(PushReply::Failed { error_text, parsed })),
    ensures
        item matches Some(Err(failure)) && failure@ == ErrorView::CommandExecution(
            "Push failed (code="@ + (match parsed {
                Some(response) => response.code@,
                None => "UNKNOWN"@,
            }) + "): "@ + error_text@,
        ),
{
}

} // verus!
