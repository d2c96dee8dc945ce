//! Decoding of UTF-8 that may be ill-formed or cut off.
//!
//! Well-formed UTF-8 is what `vstd::utf8` defines. Where bytes are not well
//! formed, the ill-formed sequence at a position is the longest run of bytes
//! there that could still have become one character, and at least one byte.
//! That is how the standard library counts it.
use vstd::prelude::*;
use vstd::slice::slice_subrange;
use vstd::utf8::*;

verus! {

/// `core::str::Utf8Error`, what a failed check of UTF-8 reports.
#[verifier::external_type_specification]
#[verifier::external_body]
pub struct ExUtf8Error(core::str::Utf8Error);

/// `core::str::from_utf8` accepts exactly the bytes that are well-formed UTF-8,
/// and the string that it gives is made of those bytes.
pub assume_specification[ core::str::from_utf8 ](v: &[u8]) -> (res: Result<
    &str,
    core::str::Utf8Error,
>)
    ensures
        res is Ok <==> valid_utf8(v@),
        res is Ok ==> encode_utf8(res->Ok_0@) == v@,
;

/// The character that stands for an ill-formed sequence.
pub open spec fn replacement_character() -> char {
    '\u{FFFD}'
}

/// Whether `second` can follow the leading byte `first` of a sequence of three
/// or four bytes. The narrower ranges rule out overlong forms, surrogates and
/// values above the last code point.
pub open spec fn second_byte_fits(first: u8, second: u8) -> bool {
    if first == 0xE0 {
        0xA0 <= second <= 0xBF
    } else if first == 0xED {
        0x80 <= second <= 0x9F
    } else if first == 0xF0 {
        0x90 <= second <= 0xBF
    } else if first == 0xF4 {
        0x80 <= second <= 0x8F
    } else {
        is_continuation_byte(second)
    }
}

/// Whether `bytes` is the beginning of the encoding of some character, without
/// being the whole encoding.
pub open spec fn scalar_start(bytes: Seq<u8>) -> bool {
    ||| bytes.len() == 1 && 0xC2 <= bytes[0] <= 0xF4
    ||| bytes.len() == 2 && 0xE0 <= bytes[0] <= 0xF4 && second_byte_fits(bytes[0], bytes[1])
    ||| bytes.len() == 3 && 0xF0 <= bytes[0] <= 0xF4 && second_byte_fits(bytes[0], bytes[1])
        && is_continuation_byte(bytes[2])
}

/// The length of the ill-formed sequence that `bytes` begins with, when they do
/// not begin with a well-formed character.
pub open spec fn ill_formed_len(bytes: Seq<u8>) -> int {
    if bytes.len() >= 3 && scalar_start(bytes.take(3)) {
        3
    } else if bytes.len() >= 2 && scalar_start(bytes.take(2)) {
        2
    } else {
        1
    }
}

/// The number of bytes in the longest beginning of `bytes` that is well formed.
pub open spec fn valid_run(bytes: Seq<u8>) -> int
    decreases bytes.len(),
{
    if valid_first_scalar(bytes) {
        length_of_first_scalar(bytes) + valid_run(pop_first_scalar(bytes))
    } else {
        0
    }
}

/// Whether nothing more can be decided about `bytes` before more bytes arrive:
/// there are none, or they are the beginning of a character.
pub open spec fn undecided(bytes: Seq<u8>) -> bool {
    bytes.len() == 0 || scalar_start(bytes)
}

/// The texts that a decoder forwards from `bytes`: each longest well-formed
/// run between ill-formed sequences, the empty runs left out.
pub open spec fn delivered(bytes: Seq<u8>) -> Seq<Seq<char>>
    decreases bytes.len(),
{
    let n = valid_run(bytes);
    let rest = bytes.skip(n);
    let run = if n > 0 {
        seq![decode_utf8(bytes.take(n))]
    } else {
        seq![]
    };
    proof {
        lemma_valid_run_bounds(bytes);
    }
    if undecided(rest) {
        run
    } else {
        run + delivered(rest.skip(ill_formed_len(rest)))
    }
}

/// The bytes that a decoder keeps back from `bytes`: the beginning of a
/// character at their end, or nothing.
pub open spec fn withheld(bytes: Seq<u8>) -> Seq<u8>
    decreases bytes.len(),
{
    let n = valid_run(bytes);
    let rest = bytes.skip(n);
    proof {
        lemma_valid_run_bounds(bytes);
    }
    if undecided(rest) {
        rest
    } else {
        withheld(rest.skip(ill_formed_len(rest)))
    }
}

/// `bytes` without the ill-formed sequences that they begin with. What is left
/// begins with a well-formed character, or nothing can be decided about it yet.
pub open spec fn settled(bytes: Seq<u8>) -> Seq<u8>
    decreases bytes.len(),
{
    if undecided(bytes) || valid_first_scalar(bytes) {
        bytes
    } else {
        settled(bytes.skip(ill_formed_len(bytes)))
    }
}

/// The text of `bytes` with a replacement character in the place of each
/// ill-formed sequence.
pub open spec fn lossy_text(bytes: Seq<u8>) -> Seq<char>
    decreases bytes.len(),
{
    if bytes.len() == 0 {
        seq![]
    } else if valid_first_scalar(bytes) {
        seq![decode_first_scalar(bytes) as char] + lossy_text(pop_first_scalar(bytes))
    } else {
        seq![replacement_character()] + lossy_text(bytes.skip(ill_formed_len(bytes)))
    }
}

/// The longest well-formed beginning lies within the bytes, and what follows it
/// does not begin with a well-formed character.
pub proof fn lemma_valid_run_bounds(bytes: Seq<u8>)
    ensures
        0 <= valid_run(bytes) <= bytes.len(),
        valid_utf8(bytes.take(valid_run(bytes))),
        !valid_first_scalar(bytes.skip(valid_run(bytes))),
    decreases bytes.len(),
{
    if valid_first_scalar(bytes) {
        let k = length_of_first_scalar(bytes);
        let tail = pop_first_scalar(bytes);
        lemma_valid_run_bounds(tail);
        let n = valid_run(bytes);
        assert(bytes.skip(n) =~= tail.skip(n - k));
        lemma_valid_first_scalar_prefix(bytes, n);
        assert(pop_first_scalar(bytes.take(n)) =~= tail.take(n - k));
    } else {
        assert(bytes.skip(0) =~= bytes);
    }
}

/// Whether bytes begin with a well-formed character depends on that character's
/// bytes alone.
proof fn lemma_valid_first_scalar_prefix(bytes: Seq<u8>, n: int)
    requires
        valid_first_scalar(bytes),
        length_of_first_scalar(bytes) <= n <= bytes.len(),
    ensures
        valid_first_scalar(bytes.take(n)),
        length_of_first_scalar(bytes.take(n)) == length_of_first_scalar(bytes),
        decode_first_scalar(bytes.take(n)) == decode_first_scalar(bytes),
{
}

/// A sequence of two bytes is overlong exactly when its leading byte is below 0xC2.
proof fn lemma_width_2_ranges(b1: u8, b2: u8)
    by (bit_vector)
    requires
        is_leading_byte_width_2(b1),
        is_continuation_byte(b2),
    ensures
        not_overlong_encoding(codepoint_width_2(b1, b2), 2) <==> 0xC2 <= b1,
        not_surrogate(codepoint_width_2(b1, b2)),
{
}

/// A sequence of three bytes encodes a character exactly when its second byte
/// fits its leading byte.
proof fn lemma_width_3_ranges(b1: u8, b2: u8, b3: u8)
    by (bit_vector)
    requires
        is_leading_byte_width_3(b1),
        is_continuation_byte(b2),
        is_continuation_byte(b3),
    ensures
        not_overlong_encoding(codepoint_width_3(b1, b2, b3), 3) && not_surrogate(
            codepoint_width_3(b1, b2, b3),
        ) <==> second_byte_fits(b1, b2),
{
}

/// A sequence of four bytes encodes a character exactly when its leading byte is
/// at most 0xF4 and its second byte fits it.
proof fn lemma_width_4_ranges(b1: u8, b2: u8, b3: u8, b4: u8)
    by (bit_vector)
    requires
        is_leading_byte_width_4(b1),
        is_continuation_byte(b2),
        is_continuation_byte(b3),
        is_continuation_byte(b4),
    ensures
        not_overlong_encoding(codepoint_width_4(b1, b2, b3, b4), 4) && not_surrogate(
            codepoint_width_4(b1, b2, b3, b4),
        ) <==> b1 <= 0xF4 && second_byte_fits(b1, b2),
{
}

/// Whether `bytes` begin with a well-formed character, told by the ranges of
/// its bytes.
pub open spec fn well_formed_by_ranges(bytes: Seq<u8>) -> bool {
    ||| bytes.len() >= 1 && bytes[0] <= 0x7F
    ||| bytes.len() >= 2 && 0xC2 <= bytes[0] <= 0xDF && is_continuation_byte(bytes[1])
    ||| bytes.len() >= 3 && 0xE0 <= bytes[0] <= 0xEF && second_byte_fits(bytes[0], bytes[1])
        && is_continuation_byte(bytes[2])
    ||| bytes.len() >= 4 && 0xF0 <= bytes[0] <= 0xF4 && second_byte_fits(bytes[0], bytes[1])
        && is_continuation_byte(bytes[2]) && is_continuation_byte(bytes[3])
}

/// The ranges tell the well-formed characters.
pub proof fn lemma_well_formed_by_ranges(bytes: Seq<u8>)
    ensures
        valid_first_scalar(bytes) <==> well_formed_by_ranges(bytes),
{
    if bytes.len() >= 2 && is_leading_byte_width_2(bytes[0]) && is_continuation_byte(bytes[1]) {
        lemma_width_2_ranges(bytes[0], bytes[1]);
    }
    if bytes.len() >= 3 && is_leading_byte_width_3(bytes[0]) && is_continuation_byte(bytes[1])
        && is_continuation_byte(bytes[2]) {
        lemma_width_3_ranges(bytes[0], bytes[1], bytes[2]);
    }
    if bytes.len() >= 4 && is_leading_byte_width_4(bytes[0]) && is_continuation_byte(bytes[1])
        && is_continuation_byte(bytes[2]) && is_continuation_byte(bytes[3]) {
        lemma_width_4_ranges(bytes[0], bytes[1], bytes[2], bytes[3]);
    }
    if bytes.len() >= 1 && bytes[0] <= 0x7F {
        let b = bytes[0];
        assert(not_surrogate(codepoint_width_1(b))) by (bit_vector);
    }
}

/// What the bytes at a position turn out to be.
#[derive(Clone, Copy, PartialEq, Eq, Structural, Debug)]
pub enum Scan {
    /// A well-formed character of this many bytes.
    Scalar(usize),
    /// An ill-formed sequence of this many bytes.
    IllFormed(usize),
    /// The beginning of a character, and then no more bytes.
    Truncated,
}

/// Examines the bytes at a position.
pub fn scan(bytes: &[u8], at: usize) -> (res: Scan)
    requires
        at < bytes@.len(),
    ensures
        match res {
            Scan::Scalar(n) => valid_first_scalar(bytes@.skip(at as int)) && n
                == length_of_first_scalar(bytes@.skip(at as int)) && at + n <= bytes@.len(),
            Scan::IllFormed(n) => !valid_first_scalar(bytes@.skip(at as int)) && !scalar_start(
                bytes@.skip(at as int),
            ) && n == ill_formed_len(bytes@.skip(at as int)) && at + n <= bytes@.len(),
            Scan::Truncated => !valid_first_scalar(bytes@.skip(at as int)) && scalar_start(
                bytes@.skip(at as int),
            ),
        },
{
    let ghost rest = bytes@.skip(at as int);
    proof {
        lemma_well_formed_by_ranges(rest);
        assert(rest.len() >= 1 ==> rest[0] == bytes@[at as int]);
        assert(rest.len() >= 2 ==> rest[1] == bytes@[at + 1]);
        assert(rest.len() >= 3 ==> rest[2] == bytes@[at + 2]);
        assert(rest.len() >= 4 ==> rest[3] == bytes@[at + 3]);
    }
    let left: usize = bytes.len() - at;
    let first = bytes[at];
    if first <= 0x7F {
        return Scan::Scalar(1);
    }
    if first < 0xC2 || first > 0xF4 {
        return Scan::IllFormed(1);
    }
    if left < 2 {
        return Scan::Truncated;
    }
    let second = bytes[at + 1];
    if first <= 0xDF {
        if is_continuation(second) {
            return Scan::Scalar(2);
        }
        return Scan::IllFormed(1);
    }
    if !fits(first, second) {
        return Scan::IllFormed(1);
    }
    if left < 3 {
        return Scan::Truncated;
    }
    let third = bytes[at + 2];
    if !is_continuation(third) {
        return Scan::IllFormed(2);
    }
    if first <= 0xEF {
        return Scan::Scalar(3);
    }
    if left < 4 {
        return Scan::Truncated;
    }
    if is_continuation(bytes[at + 3]) {
        Scan::Scalar(4)
    } else {
        Scan::IllFormed(3)
    }
}

fn is_continuation(byte: u8) -> (res: bool)
    ensures
        res == is_continuation_byte(byte),
{
    0x80 <= byte && byte <= 0xBF
}

fn fits(first: u8, second: u8) -> (res: bool)
    ensures
        res == second_byte_fits(first, second),
{
    if first == 0xE0 {
        0xA0 <= second && second <= 0xBF
    } else if first == 0xED {
        0x80 <= second && second <= 0x9F
    } else if first == 0xF0 {
        0x90 <= second && second <= 0xBF
    } else if first == 0xF4 {
        0x80 <= second && second <= 0x8F
    } else {
        is_continuation(second)
    }
}

/// Finds where the longest well-formed run from a position ends.
pub fn well_formed_end(bytes: &[u8], at: usize) -> (end: usize)
    requires
        at <= bytes@.len(),
    ensures
        end == at + valid_run(bytes@.skip(at as int)),
        at <= end <= bytes@.len(),
        valid_utf8(bytes@.subrange(at as int, end as int)),
        end < bytes@.len() ==> !valid_first_scalar(bytes@.skip(end as int)),
{
    let len: usize = bytes.len();
    let mut end: usize = at;
    let mut going: bool = end < len;
    while going
        invariant
            len == bytes@.len(),
            at <= end <= len,
            going ==> end < bytes@.len(),
            end + valid_run(bytes@.skip(end as int)) == at + valid_run(bytes@.skip(at as int)),
            !going ==> valid_run(bytes@.skip(end as int)) == 0,
        decreases bytes@.len() - end, (if going { 1int } else { 0int }),
    {
        match scan(bytes, end) {
            Scan::Scalar(n) => {
                assert(pop_first_scalar(bytes@.skip(end as int)) =~= bytes@.skip(end + n));
                end = end + n;
                going = end < len;
            },
            _ => {
                going = false;
            },
        }
    }
    proof {
        lemma_valid_run_bounds(bytes@.skip(at as int));
        assert(bytes@.skip(at as int).take(end - at) =~= bytes@.subrange(at as int, end as int));
        assert(bytes@.skip(at as int).skip(end - at) =~= bytes@.skip(end as int));
    }
    end
}

/// The text of a well-formed run of bytes.
pub fn run_text(bytes: &[u8], from: usize, to: usize) -> (res: String)
    requires
        from <= to <= bytes@.len(),
        valid_utf8(bytes@.subrange(from as int, to as int)),
    ensures
        res@ == decode_utf8(bytes@.subrange(from as int, to as int)),
{
    match core::str::from_utf8(slice_subrange(bytes, from, to)) {
        Ok(text) => {
            proof {
                encode_utf8_decode_utf8(text@);
            }
            text.to_owned()
        },
        Err(_) => String::new(),
    }
}

/// Reads bytes as UTF-8, with a replacement character for each ill-formed
/// sequence.
pub fn from_utf8_lossy(bytes: &[u8]) -> (res: String)
    ensures
        res@ == lossy_text(bytes@),
{
    let mut res = String::new();
    let mut at: usize = 0;
    proof {
        assert(bytes@.skip(0) =~= bytes@);
    }
    while at < bytes.len()
        invariant
            at <= bytes@.len(),
            res@ + lossy_text(bytes@.skip(at as int)) == lossy_text(bytes@),
        decreases bytes@.len() - at,
    {
        let ghost before = res@;
        let ghost rest = bytes@.skip(at as int);
        match scan(bytes, at) {
            Scan::Scalar(_) => {
                let end = well_formed_end(bytes, at);
                let run = run_text(bytes, at, end);
                res.append(run.as_str());
                proof {
                    lemma_valid_run_bounds(rest);
                    lemma_valid_run_bounds(pop_first_scalar(rest));
                    lemma_lossy_text_run(rest);
                    assert(rest.take(end - at) =~= bytes@.subrange(at as int, end as int));
                    assert(rest.skip(end - at) =~= bytes@.skip(end as int));
                    assert(res@ + lossy_text(bytes@.skip(end as int)) =~= before + lossy_text(
                        rest,
                    ));
                }
                at = end;
            },
            Scan::IllFormed(n) => {
                res.append("\u{FFFD}");
                proof {
                    reveal_strlit("\u{FFFD}");
                    assert("\u{FFFD}"@ =~= seq![replacement_character()]);
                    assert(rest.skip(n as int) =~= bytes@.skip(at + n));
                    assert(res@ + lossy_text(bytes@.skip(at + n)) =~= before + lossy_text(rest));
                }
                at = at + n;
            },
            Scan::Truncated => {
                res.append("\u{FFFD}");
                proof {
                    reveal_strlit("\u{FFFD}");
                    assert("\u{FFFD}"@ =~= seq![replacement_character()]);
                    lemma_lossy_text_start(rest);
                    assert(bytes@.skip(bytes@.len() as int) =~= Seq::<u8>::empty());
                    assert(res@ + lossy_text(bytes@.skip(bytes@.len() as int)) =~= before
                        + lossy_text(rest));
                }
                at = bytes.len();
            },
        }
    }
    proof {
        assert(bytes@.skip(at as int) =~= Seq::<u8>::empty());
        assert(res@ =~= lossy_text(bytes@));
    }
    res
}

/// A well-formed run contributes its own text to the lossy text.
pub proof fn lemma_lossy_text_run(bytes: Seq<u8>)
    ensures
        lossy_text(bytes) == decode_utf8(bytes.take(valid_run(bytes))) + lossy_text(
            bytes.skip(valid_run(bytes)),
        ),
    decreases bytes.len(),
{
    lemma_valid_run_bounds(bytes);
    let n = valid_run(bytes);
    if valid_first_scalar(bytes) {
        let k = length_of_first_scalar(bytes);
        let tail = pop_first_scalar(bytes);
        lemma_lossy_text_run(tail);
        lemma_valid_run_bounds(tail);
        lemma_valid_first_scalar_prefix(bytes, n);
        assert(pop_first_scalar(bytes.take(n)) =~= tail.take(n - k));
        assert(bytes.skip(n) =~= tail.skip(n - k));
        assert(lossy_text(bytes) =~= decode_utf8(bytes.take(n)) + lossy_text(bytes.skip(n)));
    } else {
        assert(bytes.skip(0) =~= bytes);
        assert(bytes.take(0) =~= Seq::<u8>::empty());
        assert(lossy_text(bytes) =~= decode_utf8(bytes.take(n)) + lossy_text(bytes.skip(n)));
    }
}

/// The beginning of a character, cut off, reads as one replacement character.
pub proof fn lemma_lossy_text_start(bytes: Seq<u8>)
    requires
        scalar_start(bytes),
    ensures
        lossy_text(bytes) == seq![replacement_character()],
{
    lemma_well_formed_by_ranges(bytes);
    assert(bytes.take(bytes.len() as int) =~= bytes);
    assert(ill_formed_len(bytes) == bytes.len());
    assert(bytes.skip(bytes.len() as int) =~= Seq::<u8>::empty());
    assert(lossy_text(Seq::<u8>::empty()) =~= Seq::<char>::empty());
    assert(lossy_text(bytes) =~= seq![replacement_character()]);
}

/// The text that a decoder forwards, character by character.
spec fn through(bytes: Seq<u8>) -> Seq<char>
    decreases bytes.len(),
{
    if undecided(bytes) {
        Seq::empty()
    } else if valid_first_scalar(bytes) {
        seq![decode_first_scalar(bytes) as char] + through(pop_first_scalar(bytes))
    } else {
        through(bytes.skip(ill_formed_len(bytes)))
    }
}

/// The bytes that a decoder keeps back, found character by character.
spec fn kept(bytes: Seq<u8>) -> Seq<u8>
    decreases bytes.len(),
{
    if undecided(bytes) {
        bytes
    } else if valid_first_scalar(bytes) {
        kept(pop_first_scalar(bytes))
    } else {
        kept(bytes.skip(ill_formed_len(bytes)))
    }
}

/// Bytes that begin with a well-formed character are not undecided.
proof fn lemma_well_formed_is_decided(bytes: Seq<u8>)
    requires
        valid_first_scalar(bytes),
    ensures
        !undecided(bytes),
{
    lemma_well_formed_by_ranges(bytes);
}

/// A well-formed run is forwarded as it is.
proof fn lemma_through_run(bytes: Seq<u8>)
    ensures
        through(bytes) == decode_utf8(bytes.take(valid_run(bytes))) + through(
            bytes.skip(valid_run(bytes)),
        ),
        kept(bytes) == kept(bytes.skip(valid_run(bytes))),
    decreases bytes.len(),
{
    lemma_valid_run_bounds(bytes);
    let n = valid_run(bytes);
    if valid_first_scalar(bytes) {
        let k = length_of_first_scalar(bytes);
        let tail = pop_first_scalar(bytes);
        lemma_well_formed_is_decided(bytes);
        lemma_through_run(tail);
        lemma_valid_run_bounds(tail);
        lemma_valid_first_scalar_prefix(bytes, n);
        assert(pop_first_scalar(bytes.take(n)) =~= tail.take(n - k));
        assert(bytes.skip(n) =~= tail.skip(n - k));
    } else {
        assert(bytes.skip(0) =~= bytes);
        assert(bytes.take(0) =~= Seq::<u8>::empty());
    }
    assert(through(bytes) =~= decode_utf8(bytes.take(n)) + through(bytes.skip(n)));
}

/// Both ways to say what is forwarded and kept back agree.
proof fn lemma_delivered_through(bytes: Seq<u8>)
    ensures
        delivered(bytes).flatten() == through(bytes),
        withheld(bytes) == kept(bytes),
    decreases bytes.len(),
{
    lemma_valid_run_bounds(bytes);
    lemma_through_run(bytes);
    let n = valid_run(bytes);
    let rest = bytes.skip(n);
    let text = decode_utf8(bytes.take(n));
    let run = if n > 0 {
        seq![text]
    } else {
        Seq::<Seq<char>>::empty()
    };
    assert(run.flatten() =~= text) by {
        if n > 0 {
            run.lemma_flatten_one_element();
        } else {
            assert(bytes.take(0) =~= Seq::<u8>::empty());
        }
    }
    if undecided(rest) {
        assert(delivered(bytes) =~= run);
        assert(through(bytes) =~= text);
    } else {
        let after = rest.skip(ill_formed_len(rest));
        lemma_delivered_through(after);
        vstd::seq_lib::lemma_flatten_concat(run, delivered(after));
    }
}

/// Nothing comes out of no bytes.
pub proof fn lemma_nothing_delivered()
    ensures
        delivered(Seq::<u8>::empty()) == Seq::<Seq<char>>::empty(),
        withheld(Seq::<u8>::empty()) == Seq::<u8>::empty(),
{
    let none = Seq::<u8>::empty();
    assert(valid_run(none) == 0);
    assert(none.skip(0) =~= none);
    assert(delivered(none) =~= Seq::<Seq<char>>::empty());
}

/// Ill-formed sequences at the beginning contribute nothing.
pub proof fn lemma_settled(bytes: Seq<u8>)
    ensures
        delivered(settled(bytes)) == delivered(bytes),
        withheld(settled(bytes)) == withheld(bytes),
        undecided(settled(bytes)) || valid_first_scalar(settled(bytes)),
        settled(bytes).len() <= bytes.len(),
    decreases bytes.len(),
{
    if !undecided(bytes) && !valid_first_scalar(bytes) {
        let after = bytes.skip(ill_formed_len(bytes));
        lemma_settled(after);
        assert(bytes.skip(0) =~= bytes);
        assert(delivered(bytes) =~= delivered(after));
    }
}

/// The first well-formed run is forwarded as one text, and the rest after it.
pub proof fn lemma_first_run(bytes: Seq<u8>)
    ensures
        valid_run(bytes) > 0 ==> delivered(bytes) == seq![
            decode_utf8(bytes.take(valid_run(bytes))),
        ] + delivered(settled(bytes.skip(valid_run(bytes)))),
        valid_run(bytes) > 0 ==> withheld(bytes) == withheld(
            settled(bytes.skip(valid_run(bytes))),
        ),
        undecided(bytes) ==> delivered(bytes) == Seq::<Seq<char>>::empty() && withheld(bytes)
            == bytes && valid_run(bytes) == 0,
{
    lemma_valid_run_bounds(bytes);
    lemma_well_formed_by_ranges(bytes);
    let n = valid_run(bytes);
    let rest = bytes.skip(n);
    assert(bytes.skip(0) =~= bytes);
    if undecided(bytes) {
        assert(delivered(bytes) =~= Seq::<Seq<char>>::empty());
    }
    if n > 0 {
        let run = seq![decode_utf8(bytes.take(n))];
        if undecided(rest) {
            assert(rest.skip(0) =~= rest);
            assert(delivered(rest) =~= Seq::<Seq<char>>::empty());
            assert(delivered(bytes) =~= run + delivered(rest));
        } else {
            lemma_settled(rest.skip(ill_formed_len(rest)));
        }
    }
}

/// More bytes do not change the verdict on bytes that are already decided.
proof fn lemma_decided_stays(a: Seq<u8>, b: Seq<u8>)
    requires
        !undecided(a),
    ensures
        !undecided(a + b),
        valid_first_scalar(a + b) <==> valid_first_scalar(a),
        valid_first_scalar(a) ==> length_of_first_scalar(a + b) == length_of_first_scalar(a)
            && decode_first_scalar(a + b) == decode_first_scalar(a),
        !valid_first_scalar(a) ==> ill_formed_len(a + b) == ill_formed_len(a),
{
    let ab = a + b;
    lemma_well_formed_by_ranges(a);
    lemma_well_formed_by_ranges(ab);
    assert(ab[0] == a[0]);
    assert(a.len() >= 2 ==> ab[1] == a[1]);
    assert(a.len() >= 3 ==> ab[2] == a[2]);
    assert(a.len() >= 4 ==> ab[3] == a[3]);
    if a.len() >= 3 {
        assert(ab.take(3) =~= a.take(3));
    }
    if a.len() >= 2 {
        assert(ab.take(2) =~= a.take(2));
    }
    if a.len() == 2 {
        assert(a.take(2) =~= a);
    }
    if a.len() == 3 {
        assert(a.take(3) =~= a);
    }
}

/// What is forwarded from two pieces is what is forwarded from the first, and
/// then from what was kept of it together with the second.
pub proof fn law_split(a: Seq<u8>, b: Seq<u8>)
    ensures
        delivered(a + b).flatten() == delivered(a).flatten() + delivered(
            withheld(a) + b,
        ).flatten(),
        withheld(a + b) == withheld(withheld(a) + b),
{
    lemma_delivered_through(a);
    lemma_delivered_through(a + b);
    lemma_delivered_through(kept(a) + b);
    lemma_through_split(a, b);
}

proof fn lemma_through_split(a: Seq<u8>, b: Seq<u8>)
    ensures
        through(a + b) == through(a) + through(kept(a) + b),
        kept(a + b) == kept(kept(a) + b),
    decreases a.len(),
{
    if undecided(a) {
        assert(through(a) + through(a + b) =~= through(a + b));
    } else {
        lemma_decided_stays(a, b);
        if valid_first_scalar(a) {
            let tail = pop_first_scalar(a);
            lemma_through_split(tail, b);
            assert(pop_first_scalar(a + b) =~= tail + b);
            assert(through(a + b) =~= through(a) + through(kept(a) + b));
        } else {
            let n = ill_formed_len(a);
            lemma_through_split(a.skip(n), b);
            assert((a + b).skip(n) =~= a.skip(n) + b);
        }
    }
}

/// What is kept back is nothing or the beginning of a character.
pub proof fn lemma_withheld_undecided(bytes: Seq<u8>)
    ensures
        undecided(withheld(bytes)),
        withheld(bytes).len() <= 3,
    decreases bytes.len(),
{
    lemma_valid_run_bounds(bytes);
    let rest = bytes.skip(valid_run(bytes));
    if !undecided(rest) {
        lemma_withheld_undecided(rest.skip(ill_formed_len(rest)));
    }
}

/// Well-formed bytes are one run.
proof fn lemma_valid_run_of_well_formed(bytes: Seq<u8>)
    requires
        valid_utf8(bytes),
    ensures
        valid_run(bytes) == bytes.len(),
    decreases bytes.len(),
{
    if bytes.len() > 0 {
        lemma_valid_run_of_well_formed(pop_first_scalar(bytes));
    }
}

/// Text in UTF-8 is forwarded whole and reads as itself.
pub proof fn law_well_formed_text(text: Seq<char>)
    ensures
        delivered(encode_utf8(text)).flatten() == text,
        withheld(encode_utf8(text)) == Seq::<u8>::empty(),
        lossy_text(encode_utf8(text)) == text,
{
    let bytes = encode_utf8(text);
    let none = Seq::<u8>::empty();
    encode_utf8_valid_utf8(text);
    encode_utf8_decode_utf8(text);
    lemma_valid_run_of_well_formed(bytes);
    assert(bytes.take(bytes.len() as int) =~= bytes);
    assert(bytes.skip(bytes.len() as int) =~= none);
    lemma_delivered_through(bytes);
    lemma_through_run(bytes);
    lemma_lossy_text_run(bytes);
    assert(through(none) =~= Seq::<char>::empty());
    assert(lossy_text(none) =~= Seq::<char>::empty());
    assert(kept(none) =~= none);
    assert(through(bytes) =~= text);
    assert(lossy_text(bytes) =~= text);
}

/// A well-formed beginning of well-formed bytes is read as the beginning of their text.
pub proof fn lemma_decode_prefix(bytes: Seq<u8>, n: int)
    requires
        0 <= n <= bytes.len(),
        valid_utf8(bytes),
        valid_utf8(bytes.take(n)),
    ensures
        decode_utf8(bytes.take(n)).is_prefix_of(decode_utf8(bytes)),
    decreases bytes.len(),
{
    let head = bytes.take(n);
    if n > 0 {
        lemma_well_formed_by_ranges(head);
        lemma_well_formed_by_ranges(bytes);
        let k = length_of_first_scalar(head);
        assert(pop_first_scalar(head) =~= pop_first_scalar(bytes).take(n - k));
        lemma_decode_prefix(pop_first_scalar(bytes), n - k);
        let short = decode_utf8(pop_first_scalar(head));
        let long = decode_utf8(pop_first_scalar(bytes));
        let c = decode_first_scalar(head) as char;
        assert(decode_utf8(head) =~= seq![c] + short);
        assert(decode_utf8(bytes) =~= seq![c] + long);
        assert(decode_utf8(head) =~= decode_utf8(bytes).take(decode_utf8(head).len() as int));
    }
}

/// [`valid_run`] is the longest beginning that is well formed.
pub proof fn law_valid_run_is_longest(bytes: Seq<u8>, n: int)
    requires
        0 <= n <= bytes.len(),
        valid_utf8(bytes.take(n)),
    ensures
        n <= valid_run(bytes),
    decreases bytes.len(),
{
    lemma_valid_run_bounds(bytes);
    if n > 0 {
        let head = bytes.take(n);
        lemma_well_formed_by_ranges(head);
        lemma_well_formed_by_ranges(bytes);
        let k = length_of_first_scalar(head);
        assert(valid_first_scalar(bytes));
        assert(pop_first_scalar(head) =~= pop_first_scalar(bytes).take(n - k));
        law_valid_run_is_longest(pop_first_scalar(bytes), n - k);
    }
}

/// Whether `bytes` are the first bytes of the encoding of `c`, at least one of
/// them and not all.
pub open spec fn begins_encoding(bytes: Seq<u8>, c: char) -> bool {
    let encoding = encode_scalar(c as u32);
    0 < bytes.len() < encoding.len() && bytes == encoding.take(bytes.len() as int)
}

/// [`scalar_start`] tells exactly the bytes that begin the encoding of some
/// character.
pub proof fn law_scalar_start(bytes: Seq<u8>)
    ensures
        scalar_start(bytes) <==> exists|c: char| begins_encoding(bytes, c),
{
    if scalar_start(bytes) {
        let second: u8 = if bytes[0] == 0xE0 {
            0xA0
        } else if bytes[0] == 0xF0 {
            0x90
        } else {
            0x80
        };
        let full = if bytes.len() == 1 {
            if bytes[0] <= 0xDF {
                bytes + seq![0x80u8]
            } else if bytes[0] <= 0xEF {
                bytes + seq![second, 0x80u8]
            } else {
                bytes + seq![second, 0x80u8, 0x80u8]
            }
        } else if bytes.len() == 2 {
            if bytes[0] <= 0xEF {
                bytes + seq![0x80u8]
            } else {
                bytes + seq![0x80u8, 0x80u8]
            }
        } else {
            bytes + seq![0x80u8]
        };
        lemma_well_formed_by_ranges(full);
        assert(pop_first_scalar(full) =~= Seq::<u8>::empty());
        assert(valid_utf8(full)) by {
            reveal_with_fuel(valid_utf8, 2);
        }
        decode_utf8_first_scalar(full);
        assert(take_first_scalar(full) =~= full);
        let c = decode_first_scalar(full) as char;
        assert(encode_scalar(c as u32).take(bytes.len() as int) =~= bytes);
        assert(begins_encoding(bytes, c));
    }
    if exists|c: char| begins_encoding(bytes, c) {
        let c = choose|c: char| begins_encoding(bytes, c);
        let encoding = encode_scalar(c as u32);
        assert(encode_utf8(seq![c]) =~= encoding) by {
            assert(seq![c].drop_first() =~= Seq::<char>::empty());
            reveal_with_fuel(encode_utf8, 2);
        }
        encode_utf8_first_scalar(seq![c]);
        lemma_well_formed_by_ranges(encoding);
    }
}

/// Whether `bytes` begin with the encoding of `c`.
pub open spec fn starts_with(bytes: Seq<u8>, c: char) -> bool {
    encode_scalar(c as u32).is_prefix_of(bytes)
}

/// Whether `bytes` could still become one character.
pub open spec fn could_become(bytes: Seq<u8>) -> bool {
    exists|c: char| begins_encoding(bytes, c)
}

/// Bytes begin with a well-formed character exactly when they begin with the encoding of
/// some character.
pub proof fn lemma_starts_with(bytes: Seq<u8>)
    ensures
        valid_first_scalar(bytes) <==> exists|c: char| starts_with(bytes, c),
        valid_first_scalar(bytes) ==> starts_with(bytes, decode_first_scalar(bytes) as char),
{
    if valid_first_scalar(bytes) {
        let first = take_first_scalar(bytes);
        lemma_well_formed_by_ranges(bytes);
        lemma_well_formed_by_ranges(first);
        assert(pop_first_scalar(first) =~= Seq::<u8>::empty());
        assert(valid_utf8(first)) by {
            reveal_with_fuel(valid_utf8, 2);
        }
        decode_utf8_first_scalar(first);
        assert(take_first_scalar(first) =~= first);
        assert(decode_first_scalar(first) == decode_first_scalar(bytes));
        assert(starts_with(bytes, decode_first_scalar(bytes) as char));
    }
    if exists|c: char| starts_with(bytes, c) {
        let c = choose|c: char| starts_with(bytes, c);
        lemma_encoding_in_front(c, bytes);
    }
}

/// Bytes that begin with the encoding of a character begin with that character.
proof fn lemma_encoding_in_front(c: char, bytes: Seq<u8>)
    requires
        starts_with(bytes, c),
    ensures
        valid_first_scalar(bytes),
        decode_first_scalar(bytes) as char == c,
        length_of_first_scalar(bytes) == encode_scalar(c as u32).len(),
{
    let encoding = encode_scalar(c as u32);
    assert(encode_utf8(seq![c]) =~= encoding) by {
        assert(seq![c].drop_first() =~= Seq::<char>::empty());
        reveal_with_fuel(encode_utf8, 2);
    }
    encode_utf8_first_scalar(seq![c]);
    lemma_well_formed_by_ranges(encoding);
    lemma_well_formed_by_ranges(bytes);
    let k = encoding.len();
    assert forall|i: int| 0 <= i < k implies bytes[i] == encoding[i] by {
        assert(bytes.subrange(0, k as int)[i] == encoding[i]);
    }
    assert(decode_first_scalar(bytes) == decode_first_scalar(encoding));
    char_u32_cast(c, decode_first_scalar(bytes));
}

/// An ill-formed sequence is the longest run of bytes that could still have become one
/// character, and at least one byte.
pub proof fn law_ill_formed_sequence_is_longest(bytes: Seq<u8>, n: int)
    requires
        1 <= n <= bytes.len(),
        n > 1 ==> could_become(bytes.take(n)),
        forall|m: int| n < m <= bytes.len() ==> !could_become(#[trigger] bytes.take(m)),
    ensures
        ill_formed_len(bytes) == n,
{
    law_scalar_start(bytes.take(n));
    if bytes.len() >= 2 {
        law_scalar_start(bytes.take(2));
    }
    if bytes.len() >= 3 {
        law_scalar_start(bytes.take(3));
    }
}

/// Reading bytes goes character by character: a character that they begin with is read as
/// itself, and the rest after it.
pub proof fn law_characters_are_read_as_they_are(c: char, rest: Seq<u8>)
    ensures
        lossy_text(encode_scalar(c as u32) + rest) == seq![c] + lossy_text(rest),
        lossy_text(Seq::<u8>::empty()) == Seq::<char>::empty(),
{
    let bytes = encode_scalar(c as u32) + rest;
    assert(encode_scalar(c as u32) =~= bytes.subrange(
        0,
        encode_scalar(c as u32).len() as int,
    ));
    lemma_encoding_in_front(c, bytes);
    assert(pop_first_scalar(bytes) =~= rest);
    assert(lossy_text(bytes) =~= seq![c] + lossy_text(rest));
    assert(lossy_text(Seq::<u8>::empty()) =~= Seq::<char>::empty());
}

/// Where bytes begin with no character, the longest run that could have become one is read
/// as one U+FFFD, and the rest after it.
pub proof fn law_ill_formed_bytes_are_replaced(bytes: Seq<u8>, n: int)
    requires
        forall|c: char| !starts_with(bytes, c),
        1 <= n <= bytes.len(),
        n > 1 ==> could_become(bytes.take(n)),
        forall|m: int| n < m <= bytes.len() ==> !could_become(#[trigger] bytes.take(m)),
    ensures
        lossy_text(bytes) == seq!['\u{FFFD}'] + lossy_text(bytes.skip(n)),
{
    lemma_starts_with(bytes);
    law_ill_formed_sequence_is_longest(bytes, n);
}

/// Bytes are settled when they begin with a character or could still become one, or when
/// there are none. Else the longest run that could have become a character is skipped.
pub proof fn law_only_ill_formed_bytes_are_skipped(bytes: Seq<u8>, n: int)
    requires
        bytes.len() > 0 ==> 1 <= n <= bytes.len(),
        n > 1 && bytes.len() > 0 ==> could_become(bytes.take(n)),
        forall|m: int| n < m <= bytes.len() ==> !could_become(#[trigger] bytes.take(m)),
    ensures
        bytes.len() == 0 || could_become(bytes) || (exists|c: char| starts_with(bytes, c))
            ==> settled(bytes) == bytes,
        !(bytes.len() == 0 || could_become(bytes) || (exists|c: char| starts_with(bytes, c)))
            ==> settled(bytes) == settled(bytes.skip(n)),
{
    lemma_starts_with(bytes);
    law_scalar_start(bytes);
    if bytes.len() > 0 {
        law_ill_formed_sequence_is_longest(bytes, n);
    }
}

} // verus!
