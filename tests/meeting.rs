use ntlib::date::Date;
use ntlib::issue::{Assignee, Repository, ReturnedIssueANTBR, ReturnedIssueANTBRL};
use ntlib::meeting::{actions_meeting, charters_meeting, specs_meeting};
use ntlib::report::{comments_or_specs, ReviewTarget};
use ntlib::requests::{Action, CharterReviewRequest, SpecReviewRequest};

#[test]
fn action_notes() {
    let issue = ReturnedIssueANTBR {
        assignees: vec![Assignee {
            id: String::new(),
            is_bot: false,
            login: String::from("dana"),
            account_type: String::from("User"),
            url: String::new(),
        }],
        number: 9,
        title: String::from("Reply to TAG"),
        body: String::from("Due: 2025-01-31"),
        repository: Repository {
            name: String::from("apa"),
            name_with_owner: String::from("w3c/apa"),
        },
    };
    let notes = actions_meeting(&vec![Action::from(issue)]);
    assert_eq!(
        notes,
        "gb, off\n\nsubtopic: Reply to TAG\nhttps://github.com/w3c/apa/issues/9\nDue: 2025-01-31\nAssignees: dana\n\ngb, on\n"
    );
}

#[test]
fn spec_notes() {
    let r = SpecReviewRequest {
        spec: String::from("CSS Grid"),
        due: Date::from_ymd_opt(2024, 2, 3).unwrap(),
        number: 5,
        assignees: String::from("UNASSIGNED"),
    };
    assert_eq!(
        specs_meeting("w3c/a11y-request", &vec![r]),
        "gb, off\nsubtopic: CSS Grid\nhttps://github.com/w3c/a11y-request/issues/5\nDue: 2024-02-03\n\ngb, on\n"
    );
}

#[test]
fn charter_notes() {
    let r = CharterReviewRequest::from(&ReturnedIssueANTBRL {
        assignees: vec![],
        number: 400,
        title: String::from("New WG"),
        body: String::new(),
        repository: Repository {
            name: String::from("strategy"),
            name_with_owner: String::from("w3c/strategy"),
        },
        labels: vec![],
    });
    assert_eq!(
        charters_meeting("w3c/strategy", &vec![r]),
        "gb, off\n\nsubtopic: New WG\nhttps://github.com/w3c/strategy/issues/400\n\ngb, on\n"
    );
    assert_eq!(charters_meeting("w3c/strategy", &vec![]), "gb, off\n\ngb, on\n");
}

#[test]
fn review_targets() {
    let repo = String::from("w3c/a11y-review");
    assert_eq!(
        comments_or_specs("apa", Some(&repo), Some(42)),
        Ok(ReviewTarget::Open(String::from("w3c/a11y-review#42")))
    );
    assert_eq!(
        comments_or_specs("apa", Some(&repo), None),
        Ok(ReviewTarget::List(repo.clone()))
    );
    assert_eq!(
        comments_or_specs("css", None, Some(1)),
        Err(String::from("'css' doesn't do this kind of horizontal review"))
    );
}
