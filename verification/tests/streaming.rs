use foundry_local_sdk::streaming::StreamingCallbackState;
use foundry_local_sdk::utf8::{from_utf8_lossy, run_text, scan, well_formed_end, Scan};

/// Takes in a piece and forwards every text that it leads to.
fn take(state: &mut StreamingCallbackState, piece: &[u8]) -> Vec<String> {
    let mut texts = Vec::new();
    let mut next = state.push(piece);
    while let Some(text) = next {
        texts.push(text);
        next = state.text_forwarded();
    }
    texts
}

/// The texts that the pieces lead to, one list per piece.
fn stream(pieces: &[&[u8]]) -> (Vec<Vec<String>>, Option<String>) {
    let mut state = StreamingCallbackState::new();
    let forwarded = pieces.iter().map(|piece| take(&mut state, piece)).collect();
    let last = state.flush();
    (forwarded, last)
}

/// What the standard library says of the bytes, in the terms of `scan`.
fn verdict(bytes: &[u8]) -> Scan {
    match std::str::from_utf8(bytes) {
        Ok(text) => Scan::Scalar(text.chars().next().unwrap().len_utf8()),
        Err(error) => {
            if error.valid_up_to() > 0 {
                let text = std::str::from_utf8(&bytes[..error.valid_up_to()]).unwrap();
                Scan::Scalar(text.chars().next().unwrap().len_utf8())
            } else {
                match error.error_len() {
                    Some(len) => Scan::IllFormed(len),
                    None => Scan::Truncated,
                }
            }
        }
    }
}

/// Bytes on both sides of every boundary that the ranges draw.
const EDGES: [u8; 24] = [
    0x00, 0x41, 0x7F, 0x80, 0x8F, 0x90, 0x9F, 0xA0, 0xBF, 0xC0, 0xC1, 0xC2, 0xDF, 0xE0, 0xE1, 0xEC,
    0xED, 0xEE, 0xEF, 0xF0, 0xF1, 0xF4, 0xF5, 0xFF,
];

#[test]
fn scan_agrees_with_the_standard_library_on_two_bytes() {
    for a in 0..=255u8 {
        assert_eq!(scan(&[a], 0), verdict(&[a]));
        for b in 0..=255u8 {
            assert_eq!(scan(&[a, b], 0), verdict(&[a, b]));
        }
    }
}

#[test]
fn scan_agrees_with_the_standard_library_at_the_edges() {
    for a in EDGES {
        for b in EDGES {
            for c in EDGES {
                assert_eq!(scan(&[a, b, c], 0), verdict(&[a, b, c]));
                for d in EDGES {
                    assert_eq!(scan(&[a, b, c, d], 0), verdict(&[a, b, c, d]));
                }
            }
        }
    }
}

#[test]
fn lossy_text_agrees_with_the_standard_library() {
    for a in EDGES {
        for b in EDGES {
            for c in EDGES {
                for d in [0x41u8, 0x80, 0xC2, 0xF0] {
                    let bytes = [a, b, c, d];
                    assert_eq!(from_utf8_lossy(&bytes), String::from_utf8_lossy(&bytes));
                }
            }
        }
    }
    assert_eq!(from_utf8_lossy(b""), "");
    assert_eq!(from_utf8_lossy("h\u{e9}llo \u{1F600}".as_bytes()), "h\u{e9}llo \u{1F600}");
}

#[test]
fn well_formed_end_stops_at_the_first_error() {
    let bytes = b"ab\xFFcd\xE2\x82";
    assert_eq!(well_formed_end(bytes, 0), 2);
    assert_eq!(well_formed_end(bytes, 2), 2);
    assert_eq!(well_formed_end(bytes, 3), 5);
    assert_eq!(run_text(bytes, 3, 5), "cd");
    assert_eq!(scan(bytes, 5), Scan::Truncated);
}

#[test]
fn whole_text_is_forwarded_at_once() {
    let (forwarded, last) = stream(&[b"hello"]);
    assert_eq!(forwarded, vec![vec!["hello".to_string()]]);
    assert_eq!(last, None);
}

#[test]
fn an_empty_piece_forwards_nothing() {
    let (forwarded, last) = stream(&[b""]);
    assert_eq!(forwarded, vec![Vec::<String>::new()]);
    assert_eq!(last, None);
}

#[test]
fn a_character_cut_in_two_is_forwarded_with_the_second_piece() {
    let (forwarded, last) = stream(&[b"caf\xC3", b"\xA9!"]);
    assert_eq!(forwarded, vec![vec!["caf".to_string()], vec!["\u{e9}!".to_string()]]);
    assert_eq!(last, None);
}

#[test]
fn an_ill_formed_sequence_is_skipped_and_ends_a_text() {
    let (forwarded, last) = stream(&[b"a\xFFb\xE2\x28c"]);
    assert_eq!(
        forwarded,
        vec![vec!["a".to_string(), "b".to_string(), "(c".to_string()]]
    );
    assert_eq!(last, None);
}

#[test]
fn a_character_that_never_ends_is_flushed_as_one_replacement() {
    let (forwarded, last) = stream(&[b"x\xF0\x9F", b"\x98"]);
    assert_eq!(forwarded, vec![vec!["x".to_string()], vec![]]);
    assert_eq!(last, Some("\u{FFFD}".to_string()));
}

#[test]
fn a_flushed_decoder_starts_afresh() {
    let mut state = StreamingCallbackState::new();
    assert_eq!(state.push(b"\xC3"), None);
    assert_eq!(state.flush(), Some("\u{FFFD}".to_string()));
    assert_eq!(state.flush(), None);
    assert_eq!(state.push(b"\xA9ok"), Some("ok".to_string()));
}

#[test]
fn a_text_that_was_not_forwarded_comes_again_in_the_flush() {
    let mut state = StreamingCallbackState::new();
    assert_eq!(state.push(b"a\xFFb\xFFc\xE2"), Some("a".to_string()));
    assert_eq!(state.text_forwarded(), Some("b".to_string()));
    assert_eq!(state.flush(), Some("b\u{FFFD}c\u{FFFD}".to_string()));
    assert_eq!(state.flush(), None);
}

#[test]
fn a_text_that_was_not_forwarded_comes_again_with_the_next_piece() {
    let mut state = StreamingCallbackState::new();
    assert_eq!(state.push(b"\xFFone \xC3"), Some("one ".to_string()));
    assert_eq!(state.push(b"\xA9!"), Some("one \u{e9}!".to_string()));
    assert_eq!(state.text_forwarded(), None);
    assert_eq!(state.text_forwarded(), None);
    assert_eq!(state.flush(), None);
}

#[test]
fn text_cut_anywhere_comes_out_whole() {
    let text = "a\u{e9}\u{20ac}\u{1F600}z";
    let bytes = text.as_bytes();
    for i in 0..=bytes.len() {
        for j in i..=bytes.len() {
            let (forwarded, last) = stream(&[&bytes[..i], &bytes[i..j], &bytes[j..]]);
            assert_eq!(forwarded.concat().concat(), text);
            assert_eq!(last, None);
        }
    }
}

#[test]
fn cuts_make_no_difference_to_ill_formed_bytes() {
    let bytes = b"a\xE2\x82b\xF0\x9F\x98\x80\xC0\x80\xED\xA0\x80c\xF4\x90";
    let (whole, whole_last) = stream(&[bytes]);
    for i in 0..=bytes.len() {
        let (cut, last) = stream(&[&bytes[..i], &bytes[i..]]);
        assert_eq!(cut.concat().concat(), whole.concat().concat());
        assert_eq!(last, whole_last);
    }
}

#[test]
fn the_well_formed_run_is_the_longest() {
    for a in EDGES {
        for b in EDGES {
            for c in EDGES {
                let bytes = [0x41, a, b, c];
                let expected = match std::str::from_utf8(&bytes) {
                    Ok(_) => bytes.len(),
                    Err(error) => error.valid_up_to(),
                };
                assert_eq!(well_formed_end(&bytes, 0), expected);
            }
        }
    }
}

#[test]
fn the_beginning_of_a_character_is_kept_back() {
    for c in ['\u{80}', '\u{7ff}', '\u{800}', '\u{d7ff}', '\u{e000}', '\u{ffff}', '\u{10000}', '\u{10ffff}'] {
        let text = c.to_string();
        let bytes = text.as_bytes();
        for n in 1..bytes.len() {
            assert_eq!(scan(&bytes[..n], 0), Scan::Truncated);
            let (forwarded, last) = stream(&[&bytes[..n]]);
            assert_eq!(forwarded, vec![Vec::<String>::new()]);
            assert_eq!(last, Some("\u{FFFD}".to_string()));
        }
        assert_eq!(scan(bytes, 0), Scan::Scalar(bytes.len()));
    }
}
