//! Text that the native core streams back in pieces.
//!
//! The core hands out raw bytes and may cut them anywhere, also inside a
//! character. [`StreamingCallbackState`] turns the pieces into text.
use crate::utf8;
use crate::utf8::Scan;
use vstd::prelude::*;
use vstd::utf8::*;

verus! {

/// The decoder behind a streaming callback. It holds the bytes of the text that is
/// being forwarded and all that came after it, and the beginning of a character that
/// the next piece may complete.
///
/// A text is let go only when it was forwarded: a receiver that panics on it leaves it
/// in the decoder.
///
/// Its view is the bytes that it holds.
pub struct StreamingCallbackState {
    buf: Vec<u8>,
}

impl View for StreamingCallbackState {
    type V = Seq<u8>;

    closed spec fn view(&self) -> Seq<u8> {
        self.buf@
    }
}

/// The text that a decoder with these bytes has to forward next, if any: the longest
/// well-formed beginning.
pub open spec fn next_text(held: Seq<u8>) -> Option<Seq<char>> {
    if utf8::valid_run(held) > 0 {
        Some(decode_utf8(held.take(utf8::valid_run(held))))
    } else {
        None
    }
}

/// The bytes that a decoder holds when that text was forwarded: those after the text
/// and after the ill-formed sequences that follow it.
pub open spec fn after_text(held: Seq<u8>) -> Seq<u8> {
    utf8::settled(held.skip(utf8::valid_run(held)))
}

/// Whether `res` is the given text.
pub open spec fn is_text(res: Option<String>, text: Option<Seq<char>>) -> bool {
    match (res, text) {
        (Some(given), Some(expected)) => given@ == expected,
        (None, None) => true,
        _ => false,
    }
}

impl StreamingCallbackState {
    /// Whether the bytes held begin with a text to forward, or are nothing but the
    /// beginning of a character.
    pub open spec fn wf(&self) -> bool {
        utf8::undecided(self@) || valid_first_scalar(self@)
    }

    /// A decoder that holds nothing.
    pub fn new() -> (res: Self)
        ensures
            res@ == Seq::<u8>::empty(),
            res.wf(),
    {
        StreamingCallbackState { buf: Vec::new() }
    }

    /// Takes in a piece and gives the first text to forward. When it was forwarded,
    /// [`text_forwarded`](Self::text_forwarded) gives the next one.
    ///
    /// As much as possible is decoded. An ill-formed sequence is skipped, and
    /// ends a text. The beginning of a character at the end of the piece is
    /// kept for the next one.
    pub fn push(&mut self, bytes: &[u8]) -> (res: Option<String>)
        ensures
            final(self)@ == utf8::settled(old(self)@ + bytes@),
            is_text(res, next_text(final(self)@)),
            final(self).wf(),
    {
        let ghost whole = self.buf@ + bytes@;
        self.buf.extend_from_slice(bytes);
        assert(self.buf@ =~= whole);
        self.settle();
        self.first_text()
    }

    /// Lets go of the text that was forwarded, and gives the next one.
    pub fn text_forwarded(&mut self) -> (res: Option<String>)
        ensures
            final(self)@ == after_text(old(self)@),
            is_text(res, next_text(final(self)@)),
            final(self).wf(),
    {
        let end = utf8::well_formed_end(self.buf.as_slice(), 0);
        proof {
            assert(self.buf@.skip(0) =~= self.buf@);
            assert(self.buf@.subrange(end as int, self.buf@.len() as int) =~= self.buf@.skip(
                end as int,
            ));
        }
        let rest = self.buf.split_off(end);
        self.buf = rest;
        self.settle();
        self.first_text()
    }

    /// Drops the ill-formed sequences at the beginning.
    fn settle(&mut self)
        ensures
            final(self)@ == utf8::settled(old(self)@),
            final(self).wf(),
    {
        let ghost whole = self.buf@;
        let len: usize = self.buf.len();
        let mut at: usize = 0;
        let mut going: bool = len > 0;
        assert(whole.skip(0) =~= whole);
        while going
            invariant
                self.buf@ == whole,
                len == whole.len(),
                at <= len,
                going ==> at < whole.len(),
                utf8::settled(whole.skip(at as int)) == utf8::settled(whole),
                !going ==> utf8::settled(whole) == whole.skip(at as int),
            decreases whole.len() - at, (if going { 1int } else { 0int }),
        {
            match utf8::scan(self.buf.as_slice(), at) {
                Scan::IllFormed(n) => {
                    assert(whole.skip(at as int).skip(n as int) =~= whole.skip(at + n));
                    at = at + n;
                    going = at < len;
                },
                _ => {
                    going = false;
                },
            }
        }
        proof {
            utf8::lemma_settled(whole);
            assert(whole.subrange(at as int, whole.len() as int) =~= whole.skip(at as int));
        }
        let rest = self.buf.split_off(at);
        self.buf = rest;
    }

    /// The text to forward next.
    fn first_text(&self) -> (res: Option<String>)
        ensures
            is_text(res, next_text(self@)),
    {
        let end = utf8::well_formed_end(self.buf.as_slice(), 0);
        assert(self.buf@.skip(0) =~= self.buf@);
        if end > 0 {
            assert(self.buf@.subrange(0, end as int) =~= self.buf@.take(end as int));
            Some(utf8::run_text(self.buf.as_slice(), 0, end))
        } else {
            None
        }
    }

    /// Gives out what is still held, with a replacement character for what is not
    /// well formed, and holds nothing any more. Called once, after the last piece.
    pub fn flush(&mut self) -> (res: Option<String>)
        ensures
            old(self)@.len() == 0 <==> res is None,
            res matches Some(text) ==> text@ == utf8::lossy_text(old(self)@),
            final(self)@ == Seq::<u8>::empty(),
            final(self).wf(),
    {
        if self.buf.is_empty() {
            assert(self.buf@ =~= Seq::<u8>::empty());
            None
        } else {
            let text = utf8::from_utf8_lossy(self.buf.as_slice());
            self.buf.clear();
            Some(text)
        }
    }
}

/// The texts that come out of a decoder when each is forwarded without a panic.
pub open spec fn handed_out(held: Seq<u8>) -> Seq<Seq<char>>
    decreases held.len(),
{
    proof {
        utf8::lemma_valid_run_bounds(held);
        utf8::lemma_settled(held.skip(utf8::valid_run(held)));
    }
    match next_text(held) {
        Some(text) => seq![text] + handed_out(after_text(held)),
        None => Seq::empty(),
    }
}

/// The bytes that a decoder still holds then.
pub open spec fn left_over(held: Seq<u8>) -> Seq<u8>
    decreases held.len(),
{
    proof {
        utf8::lemma_valid_run_bounds(held);
        utf8::lemma_settled(held.skip(utf8::valid_run(held)));
    }
    match next_text(held) {
        Some(_) => left_over(after_text(held)),
        None => held,
    }
}

/// The bytes held after a fresh decoder took in the pieces one by one, and every text
/// was forwarded.
pub open spec fn pending_after(pieces: Seq<Seq<u8>>) -> Seq<u8>
    decreases pieces.len(),
{
    if pieces.len() == 0 {
        Seq::empty()
    } else {
        left_over(utf8::settled(pending_after(pieces.drop_last()) + pieces.last()))
    }
}

/// The texts forwarded while a fresh decoder took in the pieces one by one.
pub open spec fn forwarded_by(pieces: Seq<Seq<u8>>) -> Seq<Seq<char>>
    decreases pieces.len(),
{
    if pieces.len() == 0 {
        Seq::empty()
    } else {
        forwarded_by(pieces.drop_last()) + handed_out(
            utf8::settled(pending_after(pieces.drop_last()) + pieces.last()),
        )
    }
}

/// When every text of a piece was forwarded, these are the longest well-formed runs
/// between ill-formed sequences, in order, and only the beginning of a character is
/// kept.
pub proof fn law_every_text_is_forwarded(held: Seq<u8>, piece: Seq<u8>)
    ensures
        handed_out(utf8::settled(held + piece)) == utf8::delivered(held + piece),
        left_over(utf8::settled(held + piece)) == utf8::withheld(held + piece),
{
    utf8::lemma_settled(held + piece);
    lemma_handed_out(utf8::settled(held + piece));
}

proof fn lemma_handed_out(held: Seq<u8>)
    requires
        utf8::undecided(held) || valid_first_scalar(held),
    ensures
        handed_out(held) == utf8::delivered(held),
        left_over(held) == utf8::withheld(held),
    decreases held.len(),
{
    utf8::lemma_first_run(held);
    utf8::lemma_valid_run_bounds(held);
    utf8::lemma_valid_run_bounds(pop_first_scalar(held));
    let rest = held.skip(utf8::valid_run(held));
    utf8::lemma_settled(rest);
    if utf8::valid_run(held) > 0 {
        lemma_handed_out(after_text(held));
    }
}

/// A text on which the receiver panicked is not lost. It comes first again, also when
/// more bytes arrive, and if none arrive the last text begins with it.
pub proof fn law_text_is_kept_until_it_is_forwarded(held: Seq<u8>, piece: Seq<u8>)
    requires
        next_text(held) is Some,
    ensures
        utf8::settled(held + piece) == held + piece,
        next_text(held + piece) matches Some(text) && next_text(held)->0.is_prefix_of(text),
        next_text(held)->0.is_prefix_of(utf8::lossy_text(held)),
{
    let n = utf8::valid_run(held);
    let whole = held + piece;
    let m = utf8::valid_run(whole);
    utf8::lemma_valid_run_bounds(held);
    utf8::lemma_valid_run_bounds(whole);
    utf8::lemma_lossy_text_run(held);
    utf8::lemma_well_formed_by_ranges(held);
    utf8::lemma_well_formed_by_ranges(whole);
    assert(whole.take(n) =~= held.take(n));
    utf8::law_valid_run_is_longest(whole, n);
    let head = held.take(n);
    let run = whole.take(m);
    assert(valid_first_scalar(held));
    assert(run.take(n) =~= head);
    utf8::lemma_decode_prefix(run, n);
}

/// Where the native core cuts its bytes makes no difference: the forwarded text
/// and the bytes kept back are those of all the bytes taken in at once.
pub proof fn law_cuts_make_no_difference(pieces: Seq<Seq<u8>>)
    ensures
        forwarded_by(pieces).flatten() == utf8::delivered(pieces.flatten()).flatten(),
        pending_after(pieces) == utf8::withheld(pieces.flatten()),
    decreases pieces.len(),
{
    if pieces.len() == 0 {
        utf8::lemma_nothing_delivered();
    } else {
        let init = pieces.drop_last();
        law_cuts_make_no_difference(init);
        assert(pieces =~= init.push(pieces.last()));
        init.lemma_flatten_push(pieces.last());
        utf8::law_split(init.flatten(), pieces.last());
        law_every_text_is_forwarded(pending_after(init), pieces.last());
        vstd::seq_lib::lemma_flatten_concat(
            forwarded_by(init),
            utf8::delivered(pending_after(init) + pieces.last()),
        );
    }
}

/// Text that is sent in UTF-8 and cut anywhere comes out whole, and nothing of
/// it is kept back.
pub proof fn law_streamed_text_comes_out_whole(text: Seq<char>, pieces: Seq<Seq<u8>>)
    requires
        pieces.flatten() == encode_utf8(text),
    ensures
        forwarded_by(pieces).flatten() == text,
        pending_after(pieces) == Seq::<u8>::empty(),
{
    law_cuts_make_no_difference(pieces);
    utf8::law_well_formed_text(text);
}

/// However much was taken in, at most three bytes are kept when every text was
/// forwarded.
pub proof fn law_little_is_kept_back(pieces: Seq<Seq<u8>>)
    ensures
        pending_after(pieces).len() <= 3,
        utf8::undecided(pending_after(pieces)),
{
    law_cuts_make_no_difference(pieces);
    utf8::lemma_withheld_undecided(pieces.flatten());
}

/// What is kept at the end of a stream, when every text was forwarded, comes out as one
/// replacement character.
pub proof fn law_flush_gives_one_replacement(pieces: Seq<Seq<u8>>)
    requires
        pending_after(pieces).len() > 0,
    ensures
        utf8::lossy_text(pending_after(pieces)) == seq![utf8::replacement_character()],
{
    law_little_is_kept_back(pieces);
    utf8::lemma_lossy_text_start(pending_after(pieces));
}

/// The text to forward next is the longest one that the bytes begin with: its encoding comes
/// first in them, and every other text whose encoding comes first is a beginning of it. There
/// is none only if the bytes begin with no character.
pub proof fn law_next_text_is_longest(held: Seq<u8>, other: Seq<char>)
    ensures
        next_text(held) matches Some(text) ==> text.len() > 0 && encode_utf8(text).is_prefix_of(
            held,
        ),
        encode_utf8(other).is_prefix_of(held) && other.len() > 0 ==> (next_text(held) matches Some(
            text,
        ) && other.is_prefix_of(text)),
{
    let m = utf8::valid_run(held);
    utf8::lemma_valid_run_bounds(held);
    let run = held.take(m);
    decode_utf8_encode_utf8(run);
    if m > 0 {
        assert(encode_utf8(decode_utf8(run)) =~= held.subrange(0, m));
        if decode_utf8(run).len() == 0 {
            assert(encode_utf8(decode_utf8(run)).len() == 0);
        }
    }
    if encode_utf8(other).is_prefix_of(held) && other.len() > 0 {
        let n = encode_utf8(other).len() as int;
        encode_utf8_valid_utf8(other);
        encode_utf8_decode_utf8(other);
        encode_utf8_first_scalar(other);
        assert(held.take(n) =~= encode_utf8(other));
        utf8::law_valid_run_is_longest(held, n);
        assert(run.take(n) =~= encode_utf8(other));
        utf8::lemma_decode_prefix(run, n);
    }
}

/// When a text was forwarded, its encoding is let go and nothing else but the ill-formed
/// bytes that follow it.
pub proof fn law_only_the_forwarded_text_is_let_go(text: Seq<char>, rest: Seq<u8>)
    requires
        next_text(encode_utf8(text) + rest) == Some(text),
    ensures
        after_text(encode_utf8(text) + rest) == utf8::settled(rest),
{
    let held = encode_utf8(text) + rest;
    let m = utf8::valid_run(held);
    utf8::lemma_valid_run_bounds(held);
    decode_utf8_encode_utf8(held.take(m));
    assert(held.take(m) == encode_utf8(text));
    assert(held.skip(m) =~= rest);
}

/// A text to forward is given as it is, and none when there is none.
pub proof fn law_texts_are_given_as_they_are(res: Option<String>, text: Option<Seq<char>>)
    ensures
        is_text(res, text) <==> (res is Some <==> text is Some) && (res is Some ==> res->0@
            == text->0),
{
}

} // verus!
