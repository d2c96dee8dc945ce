//! The lifecycle of a live transcription session: what each call may do in which
//! state, what it asks of the native core, and what it makes of the answer.
//!
//! The ends of the channels and the handle of the push loop belong to an
//! asynchronous runtime. They are type parameters here: `P` is the sending end of
//! the push queue, `O` and `R` are the sending and the receiving end of the
//! stream of results, and `J` is the handle of the running push loop.
use crate::core_interop;
use crate::error;
use crate::error::{ErrorView, FoundryLocalError};
use crate::json;
use crate::json::JsonView;
use crate::live_audio;
use crate::live_audio::{
    LiveAudioTranscriptionOptions, LiveAudioTranscriptionRaw, LiveAudioTranscriptionResponse,
};
use vstd::prelude::*;

verus! {

/// The state of a session.
pub struct SessionState<P, O, R, J> {
    session_handle: Option<String>,
    started: bool,
    stopped: bool,
    push_tx: Option<P>,
    output_tx: Option<O>,
    output_rx: Option<R>,
    push_loop_handle: Option<J>,
}

/// The view of a [`SessionState`].
pub struct SessionView<P, O, R, J> {
    /// The handle that the native core gave to the session.
    pub session_handle: Option<Seq<char>>,
    /// Whether the session was started and is not cleaned up yet.
    pub started: bool,
    /// Whether the session is being stopped or was stopped.
    pub stopped: bool,
    pub push_tx: Option<P>,
    pub output_tx: Option<O>,
    pub output_rx: Option<R>,
    pub push_loop_handle: Option<J>,
}

impl<P, O, R, J> View for SessionState<P, O, R, J> {
    type V = SessionView<P, O, R, J>;

    closed spec fn view(&self) -> SessionView<P, O, R, J> {
        SessionView {
            session_handle: match self.session_handle {
                Some(handle) => Some(handle@),
                None => None,
            },
            started: self.started,
            stopped: self.stopped,
            push_tx: self.push_tx,
            output_tx: self.output_tx,
            output_rx: self.output_rx,
            push_loop_handle: self.push_loop_handle,
        }
    }
}

impl<P, O, R, J> SessionView<P, O, R, J> {
    /// Whether audio can be appended: the session was started and nobody stops it.
    pub open spec fn active(self) -> bool {
        self.started && !self.stopped
    }

    /// What every reachable state keeps to. A started session has a handle that
    /// is not empty, an active one also both channels that it feeds. A session
    /// that is being stopped takes no audio. A session that is not started holds
    /// on to nothing but the stream that nobody took.
    pub open spec fn wf(self) -> bool {
        &&& self.started ==> self.session_handle is Some && self.session_handle->0.len() > 0
            && self.output_tx is Some
        &&& self.active() ==> self.push_tx is Some && self.push_loop_handle is Some
        &&& !self.active() ==> self.push_tx is None
        &&& !self.started ==> self.session_handle is None && self.output_tx is None
    }
}

/// The state before the first start.
pub open spec fn initial<P, O, R, J>() -> SessionView<P, O, R, J> {
    SessionView {
        session_handle: None,
        started: false,
        stopped: false,
        push_tx: None,
        output_tx: None,
        output_rx: None,
        push_loop_handle: None,
    }
}

/// The state after a start that gave `handle`.
pub open spec fn after_start<P, O, R, J>(
    handle: Seq<char>,
    push_tx: P,
    output_tx: O,
    output_rx: R,
    push_loop_handle: J,
) -> SessionView<P, O, R, J> {
    SessionView {
        session_handle: Some(handle),
        started: true,
        stopped: false,
        push_tx: Some(push_tx),
        output_tx: Some(output_tx),
        output_rx: Some(output_rx),
        push_loop_handle: Some(push_loop_handle),
    }
}

/// The state after the stream of results was taken.
pub open spec fn after_take<P, O, R, J>(state: SessionView<P, O, R, J>) -> SessionView<P, O, R, J> {
    SessionView { output_rx: None, ..state }
}

/// The state while an active session is being stopped: the push queue is closed
/// and the push loop is waited for.
pub open spec fn while_stopping<P, O, R, J>(state: SessionView<P, O, R, J>) -> SessionView<
    P,
    O,
    R,
    J,
> {
    SessionView { stopped: true, push_tx: None, push_loop_handle: None, ..state }
}

/// The state after a stop was completed: the stream of results is closed and the
/// handle is forgotten.
pub open spec fn after_stop<P, O, R, J>(state: SessionView<P, O, R, J>) -> SessionView<P, O, R, J> {
    SessionView { output_tx: None, session_handle: None, started: false, ..state }
}

/// The state after a session was dropped.
pub open spec fn after_drop<P, O, R, J>(state: SessionView<P, O, R, J>) -> SessionView<P, O, R, J> {
    let closed = SessionView { push_tx: None, output_tx: None, ..state };
    if state.active() {
        SessionView { session_handle: None, started: false, stopped: true, ..closed }
    } else {
        closed
    }
}

/// A command for the native core.
#[derive(Debug)]
pub struct NativeCommand {
    pub command: &'static str,
    pub params: serde_json::Value,
}

impl NativeCommand {
    /// Whether this is the given command with the given parameters.
    pub open spec fn carries(&self, command: Seq<char>, params: Map<Seq<char>, JsonView>) -> bool {
        self.command@ == command && json::json_value(self.params) == live_audio::request_value(
            params,
        )
    }

    /// Whether this is the command of the given call.
    pub open spec fn makes(&self, call: NativeCall) -> bool {
        self.carries(call.command, call.params)
    }
}

/// A call of the native core: a command with its parameters, and the raw bytes that
/// go along with it.
pub struct NativeCall {
    pub command: Seq<char>,
    pub params: Map<Seq<char>, JsonView>,
    pub audio: Option<Seq<u8>>,
}

/// The call that pushes a chunk of audio to the native session of the given handle.
pub open spec fn push_call(handle: Seq<char>, audio: Seq<u8>) -> NativeCall {
    NativeCall {
        command: "audio_stream_push"@,
        params: live_audio::handle_params(handle),
        audio: Some(audio),
    }
}

/// The call that stops the native session of the given handle.
pub open spec fn stop_call(handle: Seq<char>) -> NativeCall {
    NativeCall {
        command: "audio_stream_stop"@,
        params: live_audio::handle_params(handle),
        audio: None,
    }
}

/// Whether `command` is the one that stops the native session of the given handle,
/// or the error that there is no handle.
pub open spec fn is_stop_of(
    command: Result<NativeCommand, FoundryLocalError>,
    session_handle: Option<Seq<char>>,
) -> bool {
    match (command, session_handle) {
        (Ok(command), Some(handle)) => command.makes(stop_call(handle)),
        (Err(failure), None) => failure@ == ErrorView::Internal(
            "Session handle missing during stop"@,
        ),
        _ => false,
    }
}

/// The command that stops the native session of the given handle.
pub fn stop_command(handle: &str) -> (res: NativeCommand)
    ensures
        res.makes(stop_call(handle@)),
{
    NativeCommand {
        command: "audio_stream_stop",
        params: live_audio::build_handle_request(handle),
    }
}

/// What is needed to start a session: the command for the native core, and the
/// capacity of the push queue.
#[derive(Debug)]
pub struct StartPlan {
    pub command: NativeCommand,
    pub push_queue_capacity: usize,
}

/// How the wait for the native start ended.
#[derive(Debug)]
pub enum StartOutcome {
    /// The native core answered.
    Returned(Result<String, FoundryLocalError>),
    /// The thread that called the native core did not finish, for this cause.
    JoinFailed(String),
    /// The caller cancelled the start before the native core answered.
    Cancelled,
}

/// How the attempt to queue a chunk ended.
#[derive(Clone, Copy, PartialEq, Eq, Structural, Debug)]
pub enum SendOutcome {
    Queued,
    /// The push queue was closed.
    Closed,
    /// The caller cancelled before there was room in the queue.
    Cancelled,
}

/// A stream of [`LiveAudioTranscriptionResponse`] items, read from its receiving
/// end.
pub struct LiveAudioTranscriptionStream<R> {
    pub rx: R,
}

/// What has to happen before the native session is stopped.
pub struct StopPlan<J> {
    /// The push loop to wait for. It ends when it has sent what is queued.
    pub push_loop: Option<J>,
}

/// What remains to be done when a stop was completed.
pub struct StopCompletion<O> {
    /// A last result to deliver, and where to send it.
    pub last: Option<(O, LiveAudioTranscriptionResponse)>,
    /// The result of the stop.
    pub result: Result<(), FoundryLocalError>,
}

/// Session for real-time audio streaming ASR (Automatic Speech Recognition).
pub struct LiveAudioTranscriptionSession {
    /// The model that the session transcribes with.
    pub model_id: String,
    /// Audio format settings. They are read when the session starts.
    pub settings: LiveAudioTranscriptionOptions,
}

/// The result of the wait for the native start.
pub open spec fn awaited(outcome: StartOutcome) -> Result<Seq<char>, ErrorView> {
    match outcome {
        StartOutcome::Returned(result) => error::result_view(result),
        StartOutcome::JoinFailed(cause) => Err(
            ErrorView::CommandExecution("Start audio stream task join error: "@ + cause@),
        ),
        StartOutcome::Cancelled => Err(ErrorView::CommandExecution("Start cancelled"@)),
    }
}

/// The handle of a started session, or why there is none.
pub open spec fn start_outcome(outcome: StartOutcome) -> Result<Seq<char>, ErrorView> {
    match awaited(outcome) {
        Ok(handle) => if handle.len() == 0 {
            Err(ErrorView::CommandExecution("Native core did not return a session handle."@))
        } else {
            Ok(handle)
        },
        Err(failure) => Err(failure),
    }
}

/// Whether the answer to a stop is the given data, which is not empty.
pub open spec fn has_data(stop_result: Result<String, FoundryLocalError>, data: Seq<char>) -> bool {
    stop_result matches Ok(answer) && answer@ == data && data.len() > 0
}

/// The result of an append: it succeeds exactly when the chunk was queued.
pub open spec fn append_outcome(outcome: SendOutcome) -> Result<(), ErrorView> {
    match outcome {
        SendOutcome::Queued => Ok(()),
        SendOutcome::Closed => Err(
            ErrorView::CommandExecution("Push channel closed — session has been stopped"@),
        ),
        SendOutcome::Cancelled => Err(ErrorView::CommandExecution("Append cancelled"@)),
    }
}

/// The result that the answer to a stop holds: none if the stop failed, if there
/// is no data, if the data did not parse as a result, or if the result has no
/// text.
pub open spec fn final_result(
    stop_result: Result<String, FoundryLocalError>,
    parsed: Option<LiveAudioTranscriptionRaw>,
) -> Option<live_audio::ResponseView> {
    match (stop_result, parsed) {
        (Ok(data), Some(raw)) => if data@.len() > 0 && raw.text@.len() > 0 {
            Some(live_audio::response_of(raw@))
        } else {
            None
        },
        _ => None,
    }
}

impl<P, O, R, J> SessionState<P, O, R, J> {
    /// The state before the first start.
    pub fn new() -> (res: Self)
        ensures
            res@ == initial::<P, O, R, J>(),
            res@.wf(),
    {
        SessionState {
            session_handle: None,
            started: false,
            stopped: false,
            push_tx: None,
            output_tx: None,
            output_rx: None,
            push_loop_handle: None,
        }
    }
}

impl LiveAudioTranscriptionSession {
    /// A session with default settings.
    pub fn new(model_id: &str) -> (res: Self)
        ensures
            res.model_id@ == model_id@,
            res.settings.sample_rate == 16000,
            res.settings.channels == 1,
            res.settings.bits_per_sample == 16,
            res.settings.language is None,
            res.settings.push_queue_capacity == 100,
    {
        LiveAudioTranscriptionSession {
            model_id: model_id.to_owned(),
            settings: LiveAudioTranscriptionOptions::default(),
        }
    }

    /// Begins to start the session: refuses if it is started already, and else
    /// tells what to ask of the native core.
    pub fn start<P, O, R, J>(&self, state: &SessionState<P, O, R, J>) -> (res: Result<
        StartPlan,
        FoundryLocalError,
    >)
        ensures
            state@.started ==> (res matches Err(e) && e@ == ErrorView::Validation(
                "Streaming session already started. Call stop() first."@,
            )),
            !state@.started ==> (res matches Ok(plan) && plan.command.carries(
                "audio_stream_start"@,
                live_audio::start_params(self.model_id@, self.settings),
            ) && plan.push_queue_capacity == self.settings.push_queue_capacity),
    {
        if state.started {
            return Err(
                FoundryLocalError::Validation {
                    reason: "Streaming session already started. Call stop() first.".to_owned(),
                },
            );
        }
        let params = live_audio::build_start_request(self.model_id.as_str(), &self.settings);
        Ok(
            StartPlan {
                command: NativeCommand { command: "audio_stream_start", params },
                push_queue_capacity: self.settings.push_queue_capacity,
            },
        )
    }

    /// The result of the wait for the native start.
    pub fn await_start(outcome: StartOutcome) -> (res: Result<String, FoundryLocalError>)
        ensures
            error::result_view(res) == awaited(outcome),
    {
        match outcome {
            StartOutcome::Returned(result) => result,
            StartOutcome::JoinFailed(cause) => Err(
                error::command_execution("Start audio stream task join error: ", cause.as_str()),
            ),
            StartOutcome::Cancelled => Err(
                FoundryLocalError::CommandExecution { reason: "Start cancelled".to_owned() },
            ),
        }
    }

    /// The handle of the session that the native core started.
    pub fn started_handle(outcome: StartOutcome) -> (res: Result<String, FoundryLocalError>)
        ensures
            error::result_view(res) == start_outcome(outcome),
    {
        match Self::await_start(outcome) {
            Ok(handle) => if handle.as_str().is_empty() {
                Err(
                    FoundryLocalError::CommandExecution {
                        reason: "Native core did not return a session handle.".to_owned(),
                    },
                )
            } else {
                Ok(handle)
            },
            Err(failure) => Err(failure),
        }
    }

    /// Completes a start: the session is active from now on.
    pub fn complete_start<P, O, R, J>(
        state: &mut SessionState<P, O, R, J>,
        session_handle: String,
        push_tx: P,
        output_tx: O,
        output_rx: R,
        push_loop_handle: J,
    )
        ensures
            final(state)@ == after_start(
                session_handle@,
                push_tx,
                output_tx,
                output_rx,
                push_loop_handle,
            ),
            session_handle@.len() > 0 ==> final(state)@.wf(),
    {
        state.session_handle = Some(session_handle);
        state.started = true;
        state.stopped = false;
        state.push_tx = Some(push_tx);
        state.output_tx = Some(output_tx);
        state.output_rx = Some(output_rx);
        state.push_loop_handle = Some(push_loop_handle);
    }

    /// What to do about a start that the caller cancelled, once the native core
    /// has answered it: the native session that it created, if any, is stopped.
    pub fn abandon_start(outcome: StartOutcome) -> (res: Option<NativeCommand>)
        ensures
            match start_outcome(outcome) {
                Ok(handle) => res matches Some(command) && command.makes(stop_call(handle)),
                Err(_) => res is None,
            },
    {
        match Self::started_handle(outcome) {
            Ok(handle) => Some(stop_command(handle.as_str())),
            Err(_) => None,
        }
    }

    /// Admits a chunk of raw PCM audio: tells where to queue it, and gives the
    /// copy to queue.
    pub fn append<'a, P, O, R, J>(state: &'a SessionState<P, O, R, J>, pcm_data: &[u8]) -> (res:
        Result<(&'a P, Vec<u8>), FoundryLocalError>)
        ensures
            !state@.active() ==> (res matches Err(e) && e@ == ErrorView::Validation(
                "No active streaming session. Call start() first."@,
            )),
            state@.active() ==> match state@.push_tx {
                Some(push_tx) => res matches Ok(chunk) && *chunk.0 == push_tx && chunk.1@
                    == pcm_data@,
                None => res matches Err(e) && e@ == ErrorView::Internal(
                    "Push channel not available — session may be in an invalid state"@,
                ),
            },
    {
        if !state.started || state.stopped {
            return Err(
                FoundryLocalError::Validation {
                    reason: "No active streaming session. Call start() first.".to_owned(),
                },
            );
        }
        match &state.push_tx {
            Some(push_tx) => Ok((push_tx, vstd::slice::slice_to_vec(pcm_data))),
            None => Err(
                FoundryLocalError::Internal {
                    reason:
                        "Push channel not available — session may be in an invalid state".to_owned(),
                },
            ),
        }
    }

    /// The result of an append, from how the attempt to queue the chunk ended.
    pub fn append_result(outcome: SendOutcome) -> (res: Result<(), FoundryLocalError>)
        ensures
            error::unit_view(res) == append_outcome(outcome),
    {
        match outcome {
            SendOutcome::Queued => Ok(()),
            SendOutcome::Closed => Err(
                FoundryLocalError::CommandExecution {
                    reason: "Push channel closed — session has been stopped".to_owned(),
                },
            ),
            SendOutcome::Cancelled => Err(
                FoundryLocalError::CommandExecution { reason: "Append cancelled".to_owned() },
            ),
        }
    }

    /// Gives out the stream of transcription results. It can be taken once per
    /// start.
    pub fn get_transcription_stream<P, O, R, J>(state: &mut SessionState<P, O, R, J>) -> (res:
        Result<LiveAudioTranscriptionStream<R>, FoundryLocalError>)
        ensures
            final(state)@ == after_take(old(state)@),
            old(state)@.wf() ==> final(state)@.wf(),
            match old(state)@.output_rx {
                Some(rx) => res matches Ok(stream) && stream.rx == rx,
                None => res matches Err(e) && e@ == ErrorView::Validation(
                    "No active streaming session, or stream already taken. Call start() first and only call get_transcription_stream() once."@,
                ),
            },
    {
        match state.output_rx.take() {
            Some(rx) => Ok(LiveAudioTranscriptionStream { rx }),
            None => Err(
                FoundryLocalError::Validation {
                    reason:
                        "No active streaming session, or stream already taken. Call start() first and only call get_transcription_stream() once.".to_owned(),
                },
            ),
        }
    }

    /// Begins to stop the session, if it is active. No more audio is admitted from
    /// now on. The push loop has to be waited for, and then the native session has
    /// to be stopped with the command of
    /// [`stop_native_session`](Self::stop_native_session), whatever the caller
    /// cancels meanwhile. If the session is not active there is nothing to stop.
    pub fn stop<P, O, R, J>(state: &mut SessionState<P, O, R, J>) -> (res: Option<StopPlan<J>>)
        ensures
            old(state)@.active() ==> final(state)@ == while_stopping(old(state)@) && (
            res matches Some(plan) && plan.push_loop == old(state)@.push_loop_handle),
            !old(state)@.active() ==> final(state)@ == old(state)@ && res is None,
            old(state)@.wf() ==> final(state)@.wf(),
    {
        if !state.started || state.stopped {
            return None;
        }
        state.stopped = true;
        let push_loop = Self::drain_push_loop(state);
        Some(StopPlan { push_loop })
    }

    /// Closes the push queue and gives the push loop to wait for. The loop sends
    /// what is queued already to the native core and then ends.
    pub fn drain_push_loop<P, O, R, J>(state: &mut SessionState<P, O, R, J>) -> (res: Option<J>)
        ensures
            res == old(state)@.push_loop_handle,
            final(state)@ == (SessionView {
                push_tx: None,
                push_loop_handle: None,
                ..old(state)@
            }),
    {
        state.push_tx = None;
        state.push_loop_handle.take()
    }

    /// The command that stops the native session, once the push loop has ended.
    pub fn stop_native_session<P, O, R, J>(state: &SessionState<P, O, R, J>) -> (res: Result<
        NativeCommand,
        FoundryLocalError,
    >)
        ensures
            is_stop_of(res, state@.session_handle),
    {
        match &state.session_handle {
            Some(handle) => Ok(stop_command(handle.as_str())),
            None => Err(
                FoundryLocalError::Internal {
                    reason: "Session handle missing during stop".to_owned(),
                },
            ),
        }
    }

    /// The answer to the stop command, from the thread that ran it.
    pub fn native_stop_result(joined: Result<Result<String, FoundryLocalError>, String>) -> (res:
        Result<String, FoundryLocalError>)
        ensures
            match joined {
                Ok(result) => res == result,
                Err(cause) => res matches Err(e) && e@ == ErrorView::CommandExecution(
                    "Stop audio stream task join error: "@ + cause@,
                ),
            },
    {
        core_interop::join_result(joined, "Stop audio stream task join error: ")
    }

    /// Reads the data in the answer to a stop, if there is any.
    ///
    /// `parse` reads a text as a raw result. It is called once, on the data, or not
    /// at all.
    pub fn parse_final_result<
        F: FnOnce(&str) -> Result<LiveAudioTranscriptionRaw, serde_json::Error>,
    >(stop_result: &Result<String, FoundryLocalError>, parse: F) -> (res: Option<
        LiveAudioTranscriptionRaw,
    >)
        requires
            forall|data: &str|
                has_data(*stop_result, data@) ==> #[trigger] call_requires(parse, (data,)),
        ensures
            match *stop_result {
                Ok(data) => if data@.len() == 0 {
                    res is None
                } else {
                    exists|sent: &str, parsed: Result<LiveAudioTranscriptionRaw, serde_json::Error>|
                        sent@ == data@ && #[trigger] call_ensures(parse, (sent,), parsed) && res
                            == parsed.ok()
                },
                Err(_) => res is None,
            },
    {
        match stop_result {
            Ok(data) => {
                let text = data.as_str();
                if text.is_empty() {
                    return None;
                }
                let parsed = parse(text);
                let ghost answer = parsed;
                assert(call_ensures(parse, (text,), answer));
                parsed.ok()
            },
            Err(_) => None,
        }
    }

    /// The transcription result in the answer to a stop, if it holds one.
    /// `parsed` is what the data of the answer parses as.
    pub fn write_final_result(
        stop_result: &Result<String, FoundryLocalError>,
        parsed: Option<LiveAudioTranscriptionRaw>,
    ) -> (res: Option<LiveAudioTranscriptionResponse>)
        ensures
            match final_result(*stop_result, parsed) {
                Some(view) => res matches Some(response) && response@ == view,
                None => res is None,
            },
            res is Some <==> stop_result is Ok && stop_result->Ok_0@.len() > 0 && parsed is Some
                && parsed->0.text@.len() > 0,
            res matches Some(response) ==> response.content@.len() == 1
                && response.content@[0].text@ == parsed->0.text@
                && response.content@[0].transcript@ == parsed->0.text@ && response.is_final
                == parsed->0.is_final && response.start_time == parsed->0.start_time
                && response.end_time == parsed->0.end_time,
    {
        match (stop_result, parsed) {
            (Ok(data), Some(raw)) => if !data.as_str().is_empty() && !raw.text.as_str().is_empty() {
                Some(LiveAudioTranscriptionResponse::from_raw(raw))
            } else {
                None
            },
            _ => None,
        }
    }

    /// Cleans up after a stop and gives out the sending end of the stream of
    /// results. The stream ends when that end is dropped.
    pub fn finalize_state<P, O, R, J>(state: &mut SessionState<P, O, R, J>) -> (res: Option<O>)
        ensures
            final(state)@ == after_stop(old(state)@),
            res == old(state)@.output_tx,
    {
        let output_tx = state.output_tx.take();
        state.session_handle = None;
        state.started = false;
        output_tx
    }

    /// Completes a stop with the answer of the native core. The session is cleaned
    /// up whether or not the core could stop it.
    pub fn complete_stop<P, O, R, J>(
        state: &mut SessionState<P, O, R, J>,
        stop_result: Result<String, FoundryLocalError>,
        parsed: Option<LiveAudioTranscriptionRaw>,
    ) -> (res: StopCompletion<O>)
        ensures
            final(state)@ == after_stop(old(state)@),
            old(state)@.wf() && old(state)@.stopped ==> final(state)@.wf(),
            match (final_result(stop_result, parsed), old(state)@.output_tx) {
                (Some(view), Some(output_tx)) => res.last matches Some(last) && last.0 == output_tx
                    && last.1@ == view,
                _ => res.last is None,
            },
            match stop_result {
                Ok(_) => res.result is Ok,
                Err(failure) => res.result == Err::<(), FoundryLocalError>(failure),
            },
            res.last is Some <==> stop_result is Ok && stop_result->Ok_0@.len() > 0
                && parsed is Some && parsed->0.text@.len() > 0 && old(state)@.output_tx is Some,
            res.last matches Some(last) ==> last.0 == old(state)@.output_tx->0
                && last.1.content@.len() == 1 && last.1.content@[0].text@ == parsed->0.text@
                && last.1.content@[0].transcript@ == parsed->0.text@ && last.1.is_final
                == parsed->0.is_final && last.1.start_time == parsed->0.start_time
                && last.1.end_time == parsed->0.end_time,
    {
        let response = Self::write_final_result(&stop_result, parsed);
        let output_tx = Self::finalize_state(state);
        let last = match (output_tx, response) {
            (Some(output_tx), Some(response)) => Some((output_tx, response)),
            _ => None,
        };
        let result = match stop_result {
            Ok(_) => Ok(()),
            Err(failure) => Err(failure),
        };
        StopCompletion { last, result }
    }

    /// Lets go of a session that is dropped. Both channels are closed. If the
    /// session is active, its native session has to be stopped, and the command
    /// for that is given.
    pub fn drop_session<P, O, R, J>(state: &mut SessionState<P, O, R, J>) -> (res: Option<
        NativeCommand,
    >)
        ensures
            final(state)@ == after_drop(old(state)@),
            old(state)@.wf() && (old(state)@.active() || !old(state)@.started)
                ==> final(state)@.wf(),
            match old(state)@.session_handle {
                Some(handle) => if old(state)@.active() {
                    res matches Some(command) && command.makes(stop_call(handle))
                } else {
                    res is None
                },
                None => res is None,
            },
    {
        state.push_tx = None;
        state.output_tx = None;
        let mut command: Option<NativeCommand> = None;
        if state.started && !state.stopped {
            if let Some(handle) = &state.session_handle {
                command = Some(stop_command(handle.as_str()));
            }
            state.session_handle = None;
            state.started = false;
            state.stopped = true;
        }
        command
    }
}

/// Every step of the lifecycle leads from a well-formed state to a well-formed
/// state.
pub proof fn law_lifecycle_keeps_well_formed<P, O, R, J>(
    state: SessionView<P, O, R, J>,
    handle: Seq<char>,
    push_tx: P,
    output_tx: O,
    output_rx: R,
    push_loop_handle: J,
)
    requires
        state.wf(),
    ensures
        initial::<P, O, R, J>().wf(),
        handle.len() > 0 ==> after_start(
            handle,
            push_tx,
            output_tx,
            output_rx,
            push_loop_handle,
        ).wf(),
        after_take(state).wf(),
        state.active() ==> while_stopping(state).wf(),
        state.active() ==> after_stop(while_stopping(state)).wf(),
        state.active() || !state.started ==> after_drop(state).wf(),
{
}

/// In a well-formed state no call finds the state inconsistent: an active session
/// has a push queue to append to, and a started one has a handle to stop.
pub proof fn law_no_internal_error<P, O, R, J>(state: SessionView<P, O, R, J>)
    requires
        state.wf(),
    ensures
        state.active() ==> state.push_tx is Some,
        state.started ==> state.session_handle is Some,
        state.active() ==> while_stopping(state).session_handle == state.session_handle,
{
}

/// A session can be started, stopped and started again. It is active in between,
/// and refuses a second start. After the stop it takes no audio, it keeps no
/// handle, and stopping it again changes nothing.
pub proof fn law_start_and_stop<P, O, R, J>(
    handle: Seq<char>,
    push_tx: P,
    output_tx: O,
    output_rx: R,
    push_loop_handle: J,
)
    ensures
        !initial::<P, O, R, J>().started,
        ({
            let running = after_start(handle, push_tx, output_tx, output_rx, push_loop_handle);
            let ended = after_stop(while_stopping(running));
            &&& running.active()
            &&& running.started
            &&& !while_stopping(running).active()
            &&& !ended.started
            &&& !ended.active()
            &&& ended.session_handle is None
            &&& ended.push_tx is None
            &&& ended.output_tx is None
        }),
{
}

/// A start brings a stream of results that can be taken once: after it was taken
/// there is none, until the next start.
pub proof fn law_stream_is_taken_once<P, O, R, J>(
    handle: Seq<char>,
    push_tx: P,
    output_tx: O,
    output_rx: R,
    push_loop_handle: J,
)
    ensures
        ({
            let running = after_start(handle, push_tx, output_tx, output_rx, push_loop_handle);
            let taken = after_take(running);
            &&& running.output_rx == Some(output_rx)
            &&& taken.output_rx is None
            &&& after_take(taken) == taken
            &&& after_stop(while_stopping(taken)).output_rx is None
            &&& after_stop(while_stopping(running)).output_rx == Some(output_rx)
        }),
{
}

/// Taking the stream of results neither starts nor stops anything: it makes no
/// difference whether it is taken before a stop or after it.
pub proof fn law_taking_the_stream_changes_nothing_else<P, O, R, J>(
    state: SessionView<P, O, R, J>,
)
    ensures
        after_take(state).active() == state.active(),
        after_take(state).started == state.started,
        after_take(state).session_handle == state.session_handle,
        after_stop(while_stopping(after_take(state))) == after_take(
            after_stop(while_stopping(state)),
        ),
{
}

/// A session that is dropped takes no audio and delivers no results any more. If
/// it was active it is left stopped, without a handle.
pub proof fn law_dropped_session_lets_go<P, O, R, J>(state: SessionView<P, O, R, J>)
    ensures
        after_drop(state).push_tx is None,
        after_drop(state).output_tx is None,
        !after_drop(state).active(),
        state.active() ==> after_drop(state).session_handle is None && !after_drop(state).started,
{
}

/// A step in the life of a session. A stop is one step, from its begin to its
/// completion. So is a cancelled start, up to the stop that it leads to.
pub enum LifecycleStep<P, O, R, J> {
    /// The native core answered a start with a handle.
    Start { handle: Seq<char>, push_tx: P, output_tx: O, output_rx: R, push_loop_handle: J },
    /// The caller cancelled a start that the native core then answered with a
    /// handle.
    CancelledStart { handle: Seq<char> },
    TakeStream,
    Stop,
    Drop,
}

/// Whether a start leads to a native session: none runs yet, and the handle is
/// not empty.
pub open spec fn start_accepted<P, O, R, J>(
    state: SessionView<P, O, R, J>,
    handle: Seq<char>,
) -> bool {
    !state.started && handle.len() > 0
}

/// The state after a step.
pub open spec fn step<P, O, R, J>(
    state: SessionView<P, O, R, J>,
    taken: LifecycleStep<P, O, R, J>,
) -> SessionView<P, O, R, J> {
    match taken {
        LifecycleStep::Start { handle, push_tx, output_tx, output_rx, push_loop_handle } => {
            if start_accepted(state, handle) {
                after_start(handle, push_tx, output_tx, output_rx, push_loop_handle)
            } else {
                state
            }
        },
        LifecycleStep::CancelledStart { .. } => state,
        LifecycleStep::TakeStream => after_take(state),
        LifecycleStep::Stop => {
            if state.active() {
                after_stop(while_stopping(state))
            } else {
                state
            }
        },
        LifecycleStep::Drop => after_drop(state),
    }
}

/// The state after the given steps.
pub open spec fn run<P, O, R, J>(steps: Seq<LifecycleStep<P, O, R, J>>) -> SessionView<P, O, R, J>
    decreases steps.len(),
{
    if steps.len() == 0 {
        initial()
    } else {
        step(run(steps.drop_last()), steps.last())
    }
}

/// The handles of the native sessions that the given steps started, in order.
pub open spec fn opened<P, O, R, J>(steps: Seq<LifecycleStep<P, O, R, J>>) -> Seq<Seq<char>>
    decreases steps.len(),
{
    if steps.len() == 0 {
        Seq::empty()
    } else {
        let before = opened(steps.drop_last());
        match steps.last() {
            LifecycleStep::Start { handle, .. } | LifecycleStep::CancelledStart { handle } => {
                if start_accepted(run(steps.drop_last()), handle) {
                    before.push(handle)
                } else {
                    before
                }
            },
            _ => before,
        }
    }
}

/// The handles of the native sessions that the given steps asked the native core
/// to stop, in order.
pub open spec fn closed<P, O, R, J>(steps: Seq<LifecycleStep<P, O, R, J>>) -> Seq<Seq<char>>
    decreases steps.len(),
{
    if steps.len() == 0 {
        Seq::empty()
    } else {
        let before = closed(steps.drop_last());
        let state = run(steps.drop_last());
        match (steps.last(), state.session_handle) {
            (LifecycleStep::CancelledStart { handle }, _) => {
                if start_accepted(state, handle) {
                    before.push(handle)
                } else {
                    before
                }
            },
            (LifecycleStep::Stop, Some(handle)) | (LifecycleStep::Drop, Some(handle)) => {
                if state.active() {
                    before.push(handle)
                } else {
                    before
                }
            },
            _ => before,
        }
    }
}

/// No native session leaks and none is stopped twice: whatever steps are taken,
/// the native sessions that were started are those that were asked to stop, in
/// the same order, and then the one that still runs, if any. Every state on the
/// way is well formed.
pub proof fn law_no_native_session_leaks<P, O, R, J>(steps: Seq<LifecycleStep<P, O, R, J>>)
    ensures
        run(steps).wf(),
        run(steps).started ==> run(steps).active(),
        opened(steps) == closed(steps) + (match run(steps).session_handle {
            Some(handle) => seq![handle],
            None => Seq::empty(),
        }),
    decreases steps.len(),
{
    if steps.len() == 0 {
        assert(opened(steps) =~= closed(steps) + Seq::<Seq<char>>::empty());
    } else {
        law_no_native_session_leaks(steps.drop_last());
        let running = match run(steps).session_handle {
            Some(handle) => seq![handle],
            None => Seq::empty(),
        };
        assert(opened(steps) =~= closed(steps) + running);
    }
}

/// A stop leads to a last result exactly when the native core answered it with data that
/// parsed as a result with text, whether that result is final or interim and whatever its
/// times are. The last result has the text, the finality and the times of that result.
pub proof fn law_last_words_are_not_lost(
    stop_result: Result<String, FoundryLocalError>,
    parsed: Option<LiveAudioTranscriptionRaw>,
)
    ensures
        final_result(stop_result, parsed) is Some <==> stop_result is Ok
            && stop_result->Ok_0@.len() > 0 && parsed is Some && parsed->0.text@.len() > 0,
        final_result(stop_result, parsed) matches Some(response) ==> response.content == seq![
            (parsed->0.text@, parsed->0.text@),
        ] && response.is_final == parsed->0.is_final && response.start_time
            == parsed->0.start_time && response.end_time == parsed->0.end_time,
{
}

/// A command makes a call exactly when it has the name of the call and an object that holds
/// nothing but the parameters of the call.
pub proof fn law_commands_carry_name_and_parameters(command: NativeCommand, call: NativeCall)
    ensures
        command.makes(call) <==> command.command@ == call.command && json::json_value(
            command.params,
        ) == JsonView::Object(
            Map::<Seq<char>, JsonView>::empty().insert("Params"@, JsonView::Object(call.params)),
        ),
        command.carries(call.command, call.params) <==> command.makes(call),
{
}

/// A push carries the audio as it is, a stop carries none, and both name the session by its
/// whole handle and hold no other parameter.
pub proof fn law_calls_name_the_session(handle: Seq<char>, audio: Seq<u8>)
    ensures
        push_call(handle, audio).command == "audio_stream_push"@,
        push_call(handle, audio).audio == Some(audio),
        push_call(handle, audio).params.dom() == set!["SessionHandle"@],
        push_call(handle, audio).params["SessionHandle"@] == JsonView::Text(handle),
        stop_call(handle).command == "audio_stream_stop"@,
        stop_call(handle).audio is None,
        stop_call(handle).params.dom() == set!["SessionHandle"@],
        stop_call(handle).params["SessionHandle"@] == JsonView::Text(handle),
{
    live_audio::law_handle_request_names_the_session(handle);
}

/// A session with a handle is stopped by the command that names it. One without a handle has
/// no such command, which is an internal error.
pub proof fn law_stop_names_the_running_session(
    command: Result<NativeCommand, FoundryLocalError>,
    session_handle: Option<Seq<char>>,
)
    requires
        is_stop_of(command, session_handle),
    ensures
        command is Ok <==> session_handle is Some,
        command is Ok ==> command->Ok_0.command@ == "audio_stream_stop"@ && json::json_value(
            command->Ok_0.params,
        ) == JsonView::Object(
            Map::<Seq<char>, JsonView>::empty().insert(
                "Params"@,
                JsonView::Object(
                    Map::<Seq<char>, JsonView>::empty().insert(
                        "SessionHandle"@,
                        JsonView::Text(session_handle->0),
                    ),
                ),
            ),
        ),
        command is Err ==> command->Err_0@ == ErrorView::Internal(
            "Session handle missing during stop"@,
        ),
{
}

/// A start succeeds exactly when the native core answered with a handle that is not empty,
/// and the handle is kept whole. Every other end of it is an error that says which.
pub proof fn law_start_succeeds_with_a_handle(outcome: StartOutcome)
    ensures
        start_outcome(outcome) is Ok <==> (outcome matches StartOutcome::Returned(Ok(handle))
            && handle@.len() > 0),
        outcome matches StartOutcome::Returned(Ok(handle)) ==> awaited(outcome) == Ok::<
            Seq<char>,
            ErrorView,
        >(handle@) && (handle@.len() > 0 ==> start_outcome(outcome) == Ok::<Seq<char>, ErrorView>(
            handle@,
        )) && (handle@.len() == 0 ==> start_outcome(outcome) == Err::<Seq<char>, ErrorView>(
            ErrorView::CommandExecution("Native core did not return a session handle."@),
        )),
        outcome matches StartOutcome::Returned(Err(failure)) ==> awaited(outcome) == Err::<
            Seq<char>,
            ErrorView,
        >(failure@) && start_outcome(outcome) == Err::<Seq<char>, ErrorView>(failure@),
        outcome matches StartOutcome::JoinFailed(cause) ==> awaited(outcome) == Err::<
            Seq<char>,
            ErrorView,
        >(
            ErrorView::CommandExecution("Start audio stream task join error: "@ + cause@),
        ) && start_outcome(outcome) == awaited(outcome),
        outcome is Cancelled ==> awaited(outcome) == Err::<Seq<char>, ErrorView>(
            ErrorView::CommandExecution("Start cancelled"@),
        ) && start_outcome(outcome) == awaited(outcome),
{
}

/// An append succeeds exactly when its chunk was queued, and else says why it was not.
pub proof fn law_append_succeeds_when_queued(outcome: SendOutcome)
    ensures
        append_outcome(outcome) is Ok <==> outcome is Queued,
        outcome is Closed ==> append_outcome(outcome) == Err::<(), ErrorView>(
            ErrorView::CommandExecution("Push channel closed — session has been stopped"@),
        ),
        outcome is Cancelled ==> append_outcome(outcome) == Err::<(), ErrorView>(
            ErrorView::CommandExecution("Append cancelled"@),
        ),
{
}

/// A new session has nothing. A start sets everything, with the whole handle. What is not
/// named in a later step stays as it is: taking the stream takes the stream only, beginning to
/// stop closes the queue and takes the push loop only, and completing it forgets the handle
/// and closes the stream only. Audio is admitted from the start to the begin of the stop.
pub proof fn law_steps_change_what_they_name<P, O, R, J>(
    state: SessionView<P, O, R, J>,
    handle: Seq<char>,
    push_tx: P,
    output_tx: O,
    output_rx: R,
    push_loop_handle: J,
)
    ensures
        ({
            let none = initial::<P, O, R, J>();
            &&& none.session_handle is None && none.push_tx is None && none.output_tx is None
            &&& none.output_rx is None && none.push_loop_handle is None
            &&& !none.started && !none.stopped
        }),
        ({
            let running = after_start(handle, push_tx, output_tx, output_rx, push_loop_handle);
            &&& running.session_handle == Some(handle) && running.push_tx == Some(push_tx)
            &&& running.output_tx == Some(output_tx) && running.output_rx == Some(output_rx)
            &&& running.push_loop_handle == Some(push_loop_handle)
            &&& running.started && !running.stopped
        }),
        ({
            let taken = after_take(state);
            &&& taken.session_handle == state.session_handle && taken.push_tx == state.push_tx
            &&& taken.output_tx == state.output_tx && taken.output_rx is None
            &&& taken.push_loop_handle == state.push_loop_handle
            &&& taken.started == state.started && taken.stopped == state.stopped
        }),
        ({
            let stopping = while_stopping(state);
            &&& stopping.session_handle == state.session_handle && stopping.push_tx is None
            &&& stopping.output_tx == state.output_tx && stopping.output_rx == state.output_rx
            &&& stopping.push_loop_handle is None
            &&& stopping.started == state.started && stopping.stopped
        }),
        ({
            let ended = after_stop(state);
            &&& ended.session_handle is None && ended.push_tx == state.push_tx
            &&& ended.output_tx is None && ended.output_rx == state.output_rx
            &&& ended.push_loop_handle == state.push_loop_handle
            &&& !ended.started && ended.stopped == state.stopped
        }),
        ({
            let dropped = after_drop(state);
            let active = state.started && !state.stopped;
            &&& dropped.push_tx is None && dropped.output_tx is None
            &&& dropped.output_rx == state.output_rx
            &&& dropped.push_loop_handle == state.push_loop_handle
            &&& active ==> dropped.session_handle is None && !dropped.started && dropped.stopped
            &&& !active ==> dropped.session_handle == state.session_handle && dropped.started
                == state.started && dropped.stopped == state.stopped
        }),
        state.active() <==> state.started && !state.stopped,
{
}

} // verus!
