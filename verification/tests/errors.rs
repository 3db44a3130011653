use convosniffer::text::{push_decimal, push_signed_decimal};
use convosniffer::{ErrorKind, HandlerError, ManifestField, ParseError, StoreError};

#[test]
fn decimal_agrees_with_std() {
    for n in [0u64, 1, 9, 10, 11, 99, 100, 101, 12345, 4294967295, 4294967296, u64::MAX] {
        let mut out = String::from("n=");
        push_decimal(&mut out, n);
        assert_eq!(out, format!("n={}", n));
    }
}

#[test]
fn signed_decimal_agrees_with_std() {
    for i in [0i64, 1, -1, 9, -9, 10, -10, 2147483647, -2147483648, i64::MAX, i64::MIN] {
        let mut out = String::from("i=");
        push_signed_decimal(&mut out, i);
        assert_eq!(out, format!("i={}", i));
    }
}

#[test]
fn manifest_field_names() {
    let fields = [
        (ManifestField::Separator, "separator"),
        (ManifestField::Index, "index"),
        (ManifestField::Style, "style"),
        (ManifestField::Category, "category"),
        (ManifestField::Paraphrase, "paraphrase"),
        (ManifestField::Text, "text"),
    ];
    for (offset, (field, name)) in fields.iter().enumerate() {
        assert_eq!(field.name(), *name);
        assert_eq!(ManifestField::from_offset(offset), *field);
    }
    assert_eq!(ManifestField::from_offset(6), ManifestField::Text);
}

#[test]
fn parse_error_messages() {
    assert_eq!(ParseError::Empty.message(), "too few lines in reply manifest");
    assert_eq!(ParseError::InvalidCount.message(), "invalid count line");
    assert_eq!(ParseError::CountTooHigh { count: 16 }.message(), "reply count too high: 16");
    assert_eq!(
        ParseError::MissingLine { field: ManifestField::Paraphrase, reply: 12 }.message(),
        "failed to pop paraphrase line for reply 12"
    );
    assert_eq!(
        ParseError::MissingLine { field: ManifestField::Separator, reply: 0 }.message(),
        "failed to pop separator line for reply 0"
    );
    assert_eq!(
        ParseError::InvalidSeparator { reply: 3 }.message(),
        "invalid separator line for reply 3"
    );
    assert_eq!(ParseError::InvalidIndex { reply: 14 }.message(), "invalid index line for reply 14");
    assert_eq!(
        ParseError::IndexTooHigh { index: 99, count: 2, reply: 1 }.message(),
        "reply index too high (2) for reply 1"
    );
}

#[test]
fn store_error_messages() {
    assert_eq!(StoreError::InvalidIndex.message(), "invalid index integer");
    assert_eq!(StoreError::IndexOutOfBounds { index: 16 }.message(), "index 16 out of bounds");
    assert_eq!(StoreError::IndexOutOfBounds { index: -3 }.message(), "index -3 out of bounds");
    assert_eq!(
        StoreError::IndexOutOfBounds { index: i32::MIN }.message(),
        "index -2147483648 out of bounds"
    );
    assert_eq!(StoreError::NotStarted.message(), "conversation not started");
    assert_eq!(StoreError::InvalidKeybindCount.message(), "invalid keybind count");
    assert_eq!(StoreError::Manifest(ParseError::InvalidCount).message(), "invalid count line");
}

#[test]
fn failures_fall_into_three_classes() {
    assert_eq!(ParseError::Empty.kind(), ErrorKind::Structure);
    assert_eq!(
        ParseError::MissingLine { field: ManifestField::Text, reply: 0 }.kind(),
        ErrorKind::Structure
    );
    assert_eq!(ParseError::InvalidSeparator { reply: 0 }.kind(), ErrorKind::Structure);
    assert_eq!(ParseError::InvalidCount.kind(), ErrorKind::Validation);
    assert_eq!(ParseError::CountTooHigh { count: 20 }.kind(), ErrorKind::Validation);
    assert_eq!(ParseError::InvalidIndex { reply: 0 }.kind(), ErrorKind::Validation);
    assert_eq!(
        ParseError::IndexTooHigh { index: 16, count: 1, reply: 0 }.kind(),
        ErrorKind::Validation
    );
    assert_eq!(StoreError::Manifest(ParseError::Empty).kind(), ErrorKind::Structure);
    assert_eq!(StoreError::Manifest(ParseError::InvalidCount).kind(), ErrorKind::Validation);
    assert_eq!(StoreError::InvalidKeybindCount.kind(), ErrorKind::Structure);
    assert_eq!(StoreError::InvalidIndex.kind(), ErrorKind::Validation);
    assert_eq!(StoreError::IndexOutOfBounds { index: 16 }.kind(), ErrorKind::Validation);
    assert_eq!(StoreError::NotStarted.kind(), ErrorKind::State);
}

#[test]
fn a_handler_error_answers_with_status_500_and_the_message() {
    let error = HandlerError::from(StoreError::from(ParseError::CountTooHigh { count: 40 }));
    assert_eq!(error, HandlerError(StoreError::Manifest(ParseError::CountTooHigh { count: 40 })));
    assert_eq!(error.status(), 500);
    assert_eq!(error.message(), "reply count too high: 40");
    assert_eq!(HandlerError::from(StoreError::NotStarted).message(), "conversation not started");
}
