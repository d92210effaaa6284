use ntlib::locator::{Locator, LocatorError};

#[test]
fn valid() {
    let result = Locator::from_str("matatk/landmarks#1").unwrap();
    assert_eq!(result.owner(), "matatk");
    assert_eq!(result.repo(), "landmarks");
    assert_eq!(result.issue(), 1);
}

#[test]
fn no_slash() {
    let result = Locator::from_str("");
    assert_eq!(Err(LocatorError), result)
}

#[test]
fn no_hash() {
    let result = Locator::from_str("/");
    assert_eq!(Err(LocatorError), result)
}

#[test]
fn zero_length_owner() {
    let result = Locator::from_str("/#");
    assert_eq!(Err(LocatorError), result)
}

#[test]
fn zero_length_repo() {
    let result = Locator::from_str("moo/#");
    assert_eq!(Err(LocatorError), result)
}

#[test]
fn zero_length_issue() {
    let result = Locator::from_str("moo/moo#");
    assert_eq!(Err(LocatorError), result)
}

#[test]
fn issue_is_zero() {
    let result = Locator::from_str("matatk/landmarks#0");
    assert_eq!(Err(LocatorError), result)
}

#[test]
fn url() {
    let result = Locator::from_str("matatk/landmarks#1").unwrap().url();
    assert_eq!(
        result,
        String::from("https://github.com/matatk/landmarks/issues/1")
    )
}

#[test]
fn locator_written_back() {
    let result = Locator::from_str("w3c/apa#42").unwrap();
    assert_eq!(result.to_string(), "w3c/apa#42");
}

#[test]
fn hash_before_slash_is_refused() {
    assert_eq!(Locator::from_str("a#1/b"), Err(LocatorError));
}

#[test]
fn repo_may_hold_a_slash() {
    let result = Locator::from_str("a/b/c#7").unwrap();
    assert_eq!(result.repo(), "b/c");
    assert_eq!(result.issue(), 7);
}

#[test]
fn number_too_large_is_refused() {
    assert_eq!(Locator::from_str("a/b#4294967296"), Err(LocatorError));
    assert_eq!(Locator::from_str("a/b#4294967295").unwrap().issue(), 4294967295);
}

#[test]
fn number_must_be_digits() {
    assert_eq!(Locator::from_str("a/b#1x"), Err(LocatorError));
    assert_eq!(Locator::from_str("a/b#+5").unwrap().issue(), 5);
}
