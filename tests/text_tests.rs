use chat::ids::{format_id, message_id};
use chat::text::hash_password;
use chat::timestamp::Timestamp;

#[test]
fn ids_render_nanoseconds_and_salt() {
    let t = Timestamp { secs: 1, nanos: 5 };
    assert_eq!(message_id(t), "1000000005");
    assert_eq!(format_id(t, 0x00af), "1000000005-00af");
    assert_eq!(format_id(Timestamp { secs: -1, nanos: 0 }, 0xffff), "-1000000000-ffff");
    assert_eq!(message_id(Timestamp { secs: i64::MAX, nanos: 0 }), "0");
}

#[test]
fn timestamps_order_and_convert() {
    let a = Timestamp { secs: 10, nanos: 999 };
    let b = Timestamp { secs: 11, nanos: 0 };
    assert!(a.le(&b));
    assert!(!b.le(&a));
    assert!(a.le(&a));
    assert_eq!(a.nanos_since_epoch(), Some(10_000_000_999));
    assert_eq!(Timestamp { secs: -9_223_372_037, nanos: 0 }.nanos_since_epoch(), None);
    assert_eq!(Timestamp { secs: -9_223_372_037, nanos: 999_999_999 }.nanos_since_epoch(), Some(-9_223_372_036_000_000_001));
}

#[test]
fn password_digest_is_lowercase_hex() {
    assert_eq!(
        hash_password(""),
        "e3b0c44298fc1c149afbf4c8996fb92427ae41e4649b934ca495991b7852b855"
    );
}
