use ntlib::config::{ConfigError, ConfigJsonErrorSource};
use ntlib::query::{search_outcome, QueryError};
use ntlib::requests::{CommentField, DisplayableCommentFieldVec};

#[test]
fn search_failure_is_an_error() {
    assert_eq!(
        search_outcome(false, 3, "specs"),
        Err(QueryError::GhDidNotRunSuccessfully)
    );
    assert_eq!(
        QueryError::GhDidNotRunSuccessfully.to_string(),
        "'gh' did not run successfully"
    );
}

#[test]
fn no_results_is_not_an_error() {
    assert_eq!(
        search_outcome(true, 0, "comments"),
        Ok(String::from("no comments found"))
    );
}

#[test]
fn results_are_counted() {
    assert_eq!(
        search_outcome(true, 4, "actions"),
        Ok(String::from("Showing 4 actions"))
    );
    assert_eq!(
        search_outcome(true, 30, "actions"),
        Ok(String::from("Showing the top 30 actions"))
    );
}

#[test]
fn config_error_messages() {
    let e = ConfigError::JsonError {
        source: ConfigJsonErrorSource::Internal,
        details: String::from("expected value"),
    };
    assert_eq!(
        e.to_string(),
        "JSON error in internal data: expected value\n\nNOTE: This is a bug; please report it :-)."
    );
    let e = ConfigError::JsonError {
        source: ConfigJsonErrorSource::File(String::from("/tmp/s.json")),
        details: String::from("bad"),
    };
    assert!(e
        .to_string()
        .starts_with("JSON error in '/tmp/s.json': bad\n\nNOTE: This could be due to the file format changing."));
    assert_eq!(
        ConfigError::IoError(String::from("denied")).to_string(),
        "IO: denied"
    );
}

#[test]
fn column_names_listed() {
    let v = DisplayableCommentFieldVec::from(vec![
        CommentField::Id,
        CommentField::Title,
        CommentField::Our,
    ]);
    assert_eq!(v.to_string(), "id, title, our");
    assert_eq!(DisplayableCommentFieldVec::from(vec![]).to_string(), "");
}
