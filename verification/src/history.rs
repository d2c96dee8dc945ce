//! What a session does from its start to its stop, whatever the order in which its
//! callers, its push loop and the native core take their turns.
//!
//! Between the callers and the push loop stands a bounded queue, which hands chunks out
//! in the order in which they came in. It belongs to the asynchronous runtime. Here it is
//! a sequence, with the steps that such a queue allows.
use crate::error::{ErrorView, FoundryLocalError};
use crate::live_audio::{LiveAudioTranscriptionRaw, ResponseView};
use crate::push_loop;
use crate::push_loop::{LoopView, PushReply};
use crate::session;
use crate::session::{NativeCall, SendOutcome, SessionView};
use vstd::multiset::Multiset;
use vstd::prelude::*;

verus! {

/// A session that was started, with its queue, its push loop and what they did so far.
pub struct History<P, O, R, J> {
    pub session: SessionView<P, O, R, J>,
    pub push_loop: LoopView,
    /// Whether the push loop has returned. It takes nothing off the queue after that.
    pub loop_done: bool,
    /// How many chunks the queue can hold.
    pub capacity: nat,
    /// The chunks of the appends that were admitted and wait for room in the queue.
    pub waiting: Multiset<Seq<u8>>,
    /// The chunks in the queue.
    pub queue: Seq<Seq<u8>>,
    /// The chunks of all appends that succeeded, in the order in which they were queued.
    pub appended: Seq<Seq<u8>>,
    /// What became of the chunks that were pushed, in order.
    pub replies: Seq<PushReply>,
    /// The calls of the native core after the start, in order.
    pub calls: Seq<NativeCall>,
    /// The items that were sent to the stream of results, in order.
    pub results: Seq<Result<ResponseView, ErrorView>>,
}

/// A step of one of the parties.
pub enum HistoryStep {
    /// An append is admitted and begins to wait for room in the queue.
    Admit { chunk: Seq<u8> },
    /// An append that was admitted ends.
    EndAppend { chunk: Seq<u8>, outcome: SendOutcome },
    /// The push loop takes a chunk off the queue and pushes it.
    Push { reply: PushReply },
    /// The push loop returns.
    EndLoop,
    /// A stop begins.
    BeginStop,
    /// The push loop was waited for. The native session is stopped, with this answer,
    /// whose data parses as this result or as none.
    CompleteStop {
        stop_result: Result<String, FoundryLocalError>,
        parsed: Option<LiveAudioTranscriptionRaw>,
    },
}

/// A session that just started.
pub open spec fn begun<P, O, R, J>(
    handle: Seq<char>,
    push_tx: P,
    output_tx: O,
    output_rx: R,
    push_loop_handle: J,
    capacity: nat,
) -> History<P, O, R, J> {
    History {
        session: session::after_start(handle, push_tx, output_tx, output_rx, push_loop_handle),
        push_loop: push_loop::fresh(handle),
        loop_done: false,
        capacity,
        waiting: Multiset::empty(),
        queue: Seq::empty(),
        appended: Seq::empty(),
        replies: Seq::empty(),
        calls: Seq::empty(),
        results: Seq::empty(),
    }
}

/// The items that an optional item stands for: itself, or nothing.
pub open spec fn if_any(item: Option<Result<ResponseView, ErrorView>>) -> Seq<
    Result<ResponseView, ErrorView>,
> {
    match item {
        Some(item) => seq![item],
        None => Seq::empty(),
    }
}

/// The last item of the stream of results, from the answer to the stop.
pub open spec fn last_item(
    stop_result: Result<String, FoundryLocalError>,
    parsed: Option<LiveAudioTranscriptionRaw>,
) -> Option<Result<ResponseView, ErrorView>> {
    match session::final_result(stop_result, parsed) {
        Some(response) => Some(Ok(response)),
        None => None,
    }
}

/// Whether the stream of results has come to its end: neither the session nor the push
/// loop can send to it any more.
pub open spec fn stream_ended<P, O, R, J>(h: History<P, O, R, J>) -> bool {
    h.session.output_tx is None && h.loop_done
}

/// Whether a step can be taken. A chunk is queued when there is room and the loop still
/// reads the queue. The loop returns when a push failed, or when the queue is empty and
/// nobody is left who could fill it.
pub open spec fn possible<P, O, R, J>(h: History<P, O, R, J>, taken: HistoryStep) -> bool {
    match taken {
        HistoryStep::Admit { .. } => h.session.active(),
        HistoryStep::EndAppend { chunk, outcome } => h.waiting.count(chunk) > 0 && match outcome {
            SendOutcome::Queued => !h.loop_done && h.queue.len() < h.capacity,
            SendOutcome::Closed => h.loop_done,
            SendOutcome::Cancelled => true,
        },
        HistoryStep::Push { .. } => !h.loop_done && h.queue.len() > 0 && push_loop::push_of(
            h.push_loop,
            h.queue[0],
        ) is Some,
        HistoryStep::EndLoop => !h.loop_done && (h.push_loop.ended || (h.queue.len() == 0
            && h.waiting.len() == 0 && h.session.push_tx is None)),
        HistoryStep::BeginStop => h.session.active(),
        HistoryStep::CompleteStop { .. } => h.session.started && h.session.stopped && h.loop_done,
    }
}

/// What a step leads to.
pub open spec fn next<P, O, R, J>(h: History<P, O, R, J>, taken: HistoryStep) -> History<
    P,
    O,
    R,
    J,
> {
    match taken {
        HistoryStep::Admit { chunk } => History { waiting: h.waiting.insert(chunk), ..h },
        HistoryStep::EndAppend { chunk, outcome } => {
            let ended = History { waiting: h.waiting.remove(chunk), ..h };
            if session::append_outcome(outcome) is Ok {
                History {
                    queue: h.queue.push(chunk),
                    appended: h.appended.push(chunk),
                    ..ended
                }
            } else {
                ended
            }
        },
        HistoryStep::Push { reply } => History {
            queue: h.queue.drop_first(),
            calls: h.calls.push(push_loop::push_of(h.push_loop, h.queue[0])->0),
            replies: h.replies.push(reply),
            push_loop: push_loop::after_reply(h.push_loop, reply),
            results: h.results + if_any(push_loop::delivery(reply)),
            ..h
        },
        HistoryStep::EndLoop => History { loop_done: true, ..h },
        HistoryStep::BeginStop => History { session: session::while_stopping(h.session), ..h },
        HistoryStep::CompleteStop { stop_result, parsed } => History {
            results: h.results + if_any(last_item(stop_result, parsed)),
            calls: h.calls.push(session::stop_call(h.session.session_handle->0)),
            session: session::after_stop(h.session),
            ..h
        },
    }
}

/// What the given steps lead to.
pub open spec fn after<P, O, R, J>(
    start: History<P, O, R, J>,
    steps: Seq<HistoryStep>,
) -> History<P, O, R, J>
    decreases steps.len(),
{
    if steps.len() == 0 {
        start
    } else {
        next(after(start, steps.drop_last()), steps.last())
    }
}

/// Whether the given steps can be taken one after the other.
pub open spec fn all_possible<P, O, R, J>(
    start: History<P, O, R, J>,
    steps: Seq<HistoryStep>,
) -> bool
    decreases steps.len(),
{
    steps.len() == 0 || (all_possible(start, steps.drop_last()) && possible(
        after(start, steps.drop_last()),
        steps.last(),
    ))
}

/// What holds at every moment of a session with the given handle.
spec fn consistent<P, O, R, J>(h: History<P, O, R, J>, handle: Seq<char>) -> bool {
    let n = h.replies.len() as int;
    &&& h.queue.len() <= h.capacity
    &&& n <= h.appended.len()
    &&& h.appended =~= h.appended.take(n) + h.queue
    &&& h.calls =~= push_loop::pushes(handle, h.appended.take(n)) + (if h.session.started {
        seq![]
    } else {
        seq![session::stop_call(handle)]
    })
    &&& forall|i: int| 0 <= i < n - 1 ==> !(#[trigger] h.replies[i] is Failed)
    &&& h.push_loop.ended <==> n > 0 && h.replies[n - 1] is Failed
    &&& h.push_loop.session_handle == handle
    &&& h.session.started ==> h.session.session_handle == Some(handle)
    &&& !h.session.started ==> h.session.stopped && h.loop_done
    &&& h.loop_done ==> h.push_loop.ended || h.queue.len() == 0
    &&& h.session.started ==> h.results =~= push_loop::deliveries(h.replies)
    &&& h.session.started <==> h.session.output_tx is Some
}

proof fn lemma_consistent<P, O, R, J>(
    start: History<P, O, R, J>,
    steps: Seq<HistoryStep>,
    handle: Seq<char>,
)
    requires
        consistent(start, handle),
        all_possible(start, steps),
    ensures
        consistent(after(start, steps), handle),
        after(start, steps).capacity == start.capacity,
    decreases steps.len(),
{
    if steps.len() > 0 {
        lemma_consistent(start, steps.drop_last(), handle);
        lemma_step(after(start, steps.drop_last()), steps.last(), handle);
    }
}

/// The reply to one more chunk delivers one more item, if any.
proof fn lemma_deliveries_push(replies: Seq<PushReply>, reply: PushReply)
    requires
        forall|i: int| 0 <= i < replies.len() ==> !(#[trigger] replies[i] is Failed),
    ensures
        push_loop::deliveries(replies.push(reply)) == push_loop::deliveries(replies) + if_any(
            push_loop::delivery(reply),
        ),
    decreases replies.len(),
{
    let longer = replies.push(reply);
    let rest = longer.drop_first();
    if replies.len() == 0 {
        assert(rest =~= Seq::<PushReply>::empty());
        assert(push_loop::deliveries(rest) =~= Seq::<Result<ResponseView, ErrorView>>::empty());
        assert(longer[0] == reply);
    } else {
        let fewer = replies.drop_first();
        assert(!(replies[0] is Failed));
        assert forall|i: int| 0 <= i < fewer.len() implies !(#[trigger] fewer[i] is Failed) by {
            assert(!(replies[i + 1] is Failed));
        }
        lemma_deliveries_push(fewer, reply);
        assert(rest =~= fewer.push(reply));
        assert(longer[0] == replies[0]);
    }
    assert(push_loop::deliveries(longer) =~= push_loop::deliveries(replies) + if_any(
        push_loop::delivery(reply),
    ));
}

proof fn lemma_step<P, O, R, J>(h: History<P, O, R, J>, taken: HistoryStep, handle: Seq<char>)
    requires
        consistent(h, handle),
        possible(h, taken),
    ensures
        consistent(next(h, taken), handle),
{
    let g = next(h, taken);
    let n = h.replies.len() as int;
    match taken {
        HistoryStep::EndAppend { chunk, outcome } => {
            assert(g.appended.take(n) =~= h.appended.take(n));
        },
        HistoryStep::Push { reply } => {
            let audio = h.queue[0];
            assert(h.appended[n] == audio);
            assert(g.appended.take(n + 1) =~= h.appended.take(n).push(audio));
            assert(push_loop::pushes(handle, g.appended.take(n + 1)) =~= push_loop::pushes(
                handle,
                h.appended.take(n),
            ).push(session::push_call(handle, audio)));
            assert forall|i: int| 0 <= i < n implies !(#[trigger] g.replies[i] is Failed) by {
                assert(g.replies[i] == h.replies[i]);
            }
            assert forall|i: int| 0 <= i < n implies !(#[trigger] h.replies[i] is Failed) by {
                assert(g.replies[i] == h.replies[i]);
            }
            lemma_deliveries_push(h.replies, reply);
        },
        _ => {},
    }
}

/// Every chunk whose append succeeded goes to the native core in the order in which it
/// was queued, in a call of its own, unmerged and unchanged, and none is pushed twice.
/// What was not pushed yet is in the queue, which never holds more than its capacity.
/// After a push that failed there is none. If the native session is stopped, then once,
/// after all pushes.
pub proof fn law_appended_chunks_are_pushed_in_order<P, O, R, J>(
    handle: Seq<char>,
    push_tx: P,
    output_tx: O,
    output_rx: R,
    push_loop_handle: J,
    capacity: nat,
    steps: Seq<HistoryStep>,
)
    requires
        all_possible(
            begun(handle, push_tx, output_tx, output_rx, push_loop_handle, capacity),
            steps,
        ),
    ensures
        ({
            let h = after(
                begun(handle, push_tx, output_tx, output_rx, push_loop_handle, capacity),
                steps,
            );
            let n = h.replies.len() as int;
            &&& h.queue.len() <= capacity
            &&& n <= h.appended.len()
            &&& h.appended == h.appended.take(n) + h.queue
            &&& h.calls == push_loop::pushes(handle, h.appended.take(n)) + (
            if h.session.started {
                seq![]
            } else {
                seq![session::stop_call(handle)]
            })
            &&& forall|i: int| 0 <= i < n - 1 ==> !(#[trigger] h.replies[i] is Failed)
        }),
{
    let start = begun(handle, push_tx, output_tx, output_rx, push_loop_handle, capacity);
    lemma_consistent(start, steps, handle);
}

/// A stop loses no audio: when the native session was stopped and no push failed, the
/// native core got every chunk whose append succeeded, each once and in order, and after
/// the last of them exactly one stop.
pub proof fn law_stop_loses_no_audio<P, O, R, J>(
    handle: Seq<char>,
    push_tx: P,
    output_tx: O,
    output_rx: R,
    push_loop_handle: J,
    capacity: nat,
    steps: Seq<HistoryStep>,
)
    requires
        all_possible(
            begun(handle, push_tx, output_tx, output_rx, push_loop_handle, capacity),
            steps,
        ),
        ({
            let h = after(
                begun(handle, push_tx, output_tx, output_rx, push_loop_handle, capacity),
                steps,
            );
            &&& !h.session.started
            &&& forall|i: int| 0 <= i < h.replies.len() ==> !(#[trigger] h.replies[i] is Failed)
        }),
    ensures
        ({
            let h = after(
                begun(handle, push_tx, output_tx, output_rx, push_loop_handle, capacity),
                steps,
            );
            h.calls == push_loop::pushes(handle, h.appended).push(session::stop_call(handle))
        }),
{
    let start = begun(handle, push_tx, output_tx, output_rx, push_loop_handle, capacity);
    let h = after(start, steps);
    lemma_consistent(start, steps, handle);
    assert(h.appended.take(h.replies.len() as int) =~= h.appended);
}

/// Final results come through the stream before it ends: up to the stop the stream holds
/// what the replies to the pushes delivered, in order. The stop adds the result in its
/// answer, if there is one, and ends the stream.
pub proof fn law_stream_ends_with_the_final_result<P, O, R, J>(
    handle: Seq<char>,
    push_tx: P,
    output_tx: O,
    output_rx: R,
    push_loop_handle: J,
    capacity: nat,
    steps: Seq<HistoryStep>,
    stop_result: Result<String, FoundryLocalError>,
    parsed: Option<LiveAudioTranscriptionRaw>,
)
    requires
        all_possible(
            begun(handle, push_tx, output_tx, output_rx, push_loop_handle, capacity),
            steps.push(HistoryStep::CompleteStop { stop_result, parsed }),
        ),
    ensures
        ({
            let start = begun(
                handle,
                push_tx,
                output_tx,
                output_rx,
                push_loop_handle,
                capacity,
            );
            let before = after(start, steps);
            let h = after(start, steps.push(HistoryStep::CompleteStop { stop_result, parsed }));
            &&& before.results == push_loop::deliveries(before.replies)
            &&& h.replies == before.replies
            &&& h.results == push_loop::deliveries(h.replies) + if_any(
                last_item(stop_result, parsed),
            )
            &&& stream_ended(h)
        }),
{
    let start = begun(handle, push_tx, output_tx, output_rx, push_loop_handle, capacity);
    let stop = HistoryStep::CompleteStop { stop_result, parsed };
    assert(push_loop::deliveries(start.replies) =~= start.results);
    assert(steps.push(stop).drop_last() =~= steps);
    lemma_consistent(start, steps, handle);
    lemma_consistent(start, steps.push(stop), handle);
}

/// Nothing is added to a stream of results that has ended, and the native core is not
/// called any more, whatever steps follow.
pub proof fn law_nothing_after_the_end<P, O, R, J>(
    handle: Seq<char>,
    push_tx: P,
    output_tx: O,
    output_rx: R,
    push_loop_handle: J,
    capacity: nat,
    steps: Seq<HistoryStep>,
    later: HistoryStep,
)
    requires
        all_possible(
            begun(handle, push_tx, output_tx, output_rx, push_loop_handle, capacity),
            steps,
        ),
        stream_ended(
            after(
                begun(handle, push_tx, output_tx, output_rx, push_loop_handle, capacity),
                steps,
            ),
        ),
        possible(
            after(
                begun(handle, push_tx, output_tx, output_rx, push_loop_handle, capacity),
                steps,
            ),
            later,
        ),
    ensures
        ({
            let h = after(
                begun(handle, push_tx, output_tx, output_rx, push_loop_handle, capacity),
                steps,
            );
            &&& next(h, later).results == h.results
            &&& next(h, later).calls == h.calls
            &&& stream_ended(next(h, later))
        }),
{
    let start = begun(handle, push_tx, output_tx, output_rx, push_loop_handle, capacity);
    assert(push_loop::deliveries(start.replies) =~= start.results);
    lemma_consistent(start, steps, handle);
}

/// The raw bytes that went along with the given calls, one after the other.
pub open spec fn audio_of(calls: Seq<NativeCall>) -> Seq<u8>
    decreases calls.len(),
{
    if calls.len() == 0 {
        Seq::empty()
    } else {
        audio_of(calls.drop_last()) + (match calls.last().audio {
            Some(audio) => audio,
            None => Seq::empty(),
        })
    }
}

proof fn lemma_audio_of_pushes(handle: Seq<char>, chunks: Seq<Seq<u8>>)
    ensures
        audio_of(push_loop::pushes(handle, chunks)) == chunks.flatten(),
    decreases chunks.len(),
{
    let calls = push_loop::pushes(handle, chunks);
    if chunks.len() == 0 {
        assert(audio_of(calls) =~= chunks.flatten());
    } else {
        let init = chunks.drop_last();
        lemma_audio_of_pushes(handle, init);
        assert(calls.drop_last() =~= push_loop::pushes(handle, init));
        assert(chunks =~= init.push(chunks.last()));
        init.lemma_flatten_push(chunks.last());
        session::law_calls_name_the_session(handle, chunks.last());
        assert(calls.last() == session::push_call(handle, chunks.last()));
    }
}

/// No byte of audio is lost, added, changed or moved: at every moment what the native core
/// got, followed by what is in the queue, is all that was appended.
pub proof fn law_no_byte_of_audio_is_lost<P, O, R, J>(
    handle: Seq<char>,
    push_tx: P,
    output_tx: O,
    output_rx: R,
    push_loop_handle: J,
    capacity: nat,
    steps: Seq<HistoryStep>,
)
    requires
        all_possible(
            begun(handle, push_tx, output_tx, output_rx, push_loop_handle, capacity),
            steps,
        ),
    ensures
        ({
            let h = after(
                begun(handle, push_tx, output_tx, output_rx, push_loop_handle, capacity),
                steps,
            );
            &&& audio_of(h.calls) + h.queue.flatten() == h.appended.flatten()
            &&& !h.session.started && !h.push_loop.ended ==> audio_of(h.calls)
                == h.appended.flatten()
        }),
{
    let start = begun(handle, push_tx, output_tx, output_rx, push_loop_handle, capacity);
    let h = after(start, steps);
    lemma_consistent(start, steps, handle);
    let done = h.appended.take(h.replies.len() as int);
    let pushed = push_loop::pushes(handle, done);
    lemma_audio_of_pushes(handle, done);
    vstd::seq_lib::lemma_flatten_concat(done, h.queue);
    if h.session.started {
        assert(h.calls =~= pushed);
    } else {
        session::law_calls_name_the_session(handle, Seq::empty());
        assert(h.calls =~= pushed.push(session::stop_call(handle)));
        assert(h.calls.drop_last() =~= pushed);
        assert(audio_of(h.calls) =~= audio_of(pushed));
        if !h.push_loop.ended {
            assert(h.appended =~= done);
        }
    }
}

} // verus!
