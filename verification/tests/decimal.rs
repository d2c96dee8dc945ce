use foundry_local_sdk::decimal::{signed_text, unsigned_text};

#[test]
fn unsigned_numbers_are_written_in_decimal() {
    for n in [0u64, 1, 9, 10, 99, 100, 16000, 1_234_567_890, u64::MAX] {
        assert_eq!(unsigned_text(n), n.to_string());
    }
}

#[test]
fn signed_numbers_are_written_in_decimal() {
    for n in [0i32, 7, -7, 10, -10, 16000, i32::MAX, i32::MIN] {
        assert_eq!(signed_text(n), n.to_string());
    }
}
