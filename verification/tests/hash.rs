use boulder_upstream::upstream::plain::{self, ParseHashError};
use std::str::FromStr;

#[test]
fn five_bytes_are_enough() {
    let hash = plain::Hash::from_str("abcde").unwrap();
    assert_eq!(hash.as_str(), "abcde");
    assert_eq!(&*hash, "abcde");
    assert_eq!(hash.len(), 5);
    assert_eq!(hash.to_text(), "abcde");
}

#[test]
fn four_bytes_are_too_short() {
    assert!(matches!(
        plain::Hash::from_str("abcd"),
        Err(ParseHashError::TooShort(text)) if text == "abcd"
    ));
    assert!(matches!(plain::Hash::from_str(""), Err(ParseHashError::TooShort(_))));
}

#[test]
fn bytes_count_not_characters() {
    assert!(plain::Hash::from_str("\u{e9}\u{e9}").is_err());
    assert!(plain::Hash::from_str("\u{e9}\u{e9}\u{e9}").is_ok());
}

#[test]
fn owned_texts_are_read_alike() {
    let hash: plain::Hash = "abcde".to_owned().try_into().unwrap();
    assert!(hash == plain::Hash::from_str("abcde").unwrap());
    assert!(hash != plain::Hash::from_str("abcdf").unwrap());
    assert!(hash.same_as(&hash.clone()));
    assert!(matches!(
        plain::Hash::try_from("abc".to_owned()),
        Err(ParseHashError::TooShort(text)) if text == "abc"
    ));
    let parsed: Result<plain::Hash, ParseHashError> = "abcde".parse();
    assert!(parsed.is_ok());
    let refused: Result<plain::Hash, ParseHashError> = "abc".parse();
    assert!(refused.is_err());
}

#[test]
fn a_short_text_is_named() {
    assert_eq!(ParseHashError::TooShort("ab".to_owned()).message(), "hash too short: ab");
}

#[test]
fn hashes_are_shown_by_their_text() {
    let hash = plain::Hash::from_str("abcde").unwrap();
    assert_eq!(format!("{hash:?}"), "Hash(\"abcde\")");
}
