use stream_messages::bytes::{copy_bytes, same_bytes, to_signed, to_unsigned};
use stream_messages::error::MessageStreamError;
use stream_messages::position::MessagePosition;

#[test]
fn position_is_at_its_cursor() {
    let mut position = MessagePosition::from(7);
    assert_eq!(position.pos(), 7);
    position.set(3);
    assert_eq!(position.pos(), 3);
    assert_eq!(position, MessagePosition::from(3));
    assert_ne!(position, MessagePosition::from(4));
}

#[test]
fn position_is_shown_in_decimal() {
    assert_eq!(MessagePosition::from(0).display(), "0");
    assert_eq!(MessagePosition::from(9).display(), "9");
    assert_eq!(MessagePosition::from(10).display(), "10");
    assert_eq!(MessagePosition::from(90817263540).display(), "90817263540");
    assert_eq!(MessagePosition::from(u64::MAX).display(), "18446744073709551615");
}

#[test]
fn positions_go_by_their_cursors() {
    let three = MessagePosition::from(3);
    let four = MessagePosition::from(4);
    assert!(three < four);
    assert!(four > three);
    assert!(!(three > three));
    assert!(MessagePosition::from(0) < MessagePosition::from(u64::MAX));
    assert!(MessagePosition::from(1 << 63) > MessagePosition::from(i64::MAX as u64));
    assert!(three <= three);
    let mut sorted = vec![four, three];
    sorted.sort();
    assert_eq!(sorted, vec![three, four]);
}

#[test]
fn not_subscribed_names_the_group_in_hex() {
    let error = MessageStreamError::NotSubscribed(vec![1, 2, 3, 15, 16, 0xab]);
    assert_eq!(
        error.display(),
        "received message for not subscribed group 0102030f10ab"
    );
    assert_eq!(
        MessageStreamError::NotSubscribed(vec![]).display(),
        "received message for not subscribed group "
    );
    assert!(!error.is_retryable());
}

#[test]
fn invalid_payload_has_its_text() {
    assert_eq!(MessageStreamError::InvalidPayload.display(), "Invalid Payload");
    assert!(!MessageStreamError::InvalidPayload.is_retryable());
}

#[test]
fn numbers_are_read_by_their_bits() {
    assert_eq!(to_signed(0), 0);
    assert_eq!(to_signed(i64::MAX as u64), i64::MAX);
    assert_eq!(to_signed(i64::MAX as u64 + 1), i64::MIN);
    assert_eq!(to_signed(u64::MAX), -1);
    assert_eq!(to_unsigned(5), 5);
    assert_eq!(to_unsigned(-1), u64::MAX);
    assert_eq!(to_unsigned(i64::MIN), 1 << 63);
}

#[test]
fn byte_strings_are_compared_and_copied() {
    assert!(same_bytes(&[1, 2], &[1, 2]));
    assert!(!same_bytes(&[1, 2], &[1, 3]));
    assert!(!same_bytes(&[1, 2], &[1]));
    assert!(same_bytes(&[], &[]));
    assert_eq!(copy_bytes(&[4, 5, 6]), vec![4, 5, 6]);
}
