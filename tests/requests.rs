use ntlib::date::Date;
use ntlib::issue::{
    flatten_assignees, showing, Assignee, IssueFields, Label, Repository, ReturnedIssueANT,
    ReturnedIssueANTBR, ReturnedIssueANTBRL, ReturnedIssueANTBRLA,
};
use ntlib::requests::{
    Action, CharterReviewRequest, CommentField, CommentReviewRequest, SpecReviewRequest,
};

fn user(login: &str) -> Assignee {
    Assignee {
        id: String::from("id"),
        is_bot: false,
        login: String::from(login),
        account_type: String::from("User"),
        url: String::new(),
    }
}

fn label(name: &str) -> Label {
    Label {
        id: String::new(),
        color: String::new(),
        description: String::new(),
        name: String::from(name),
    }
}

fn repo() -> Repository {
    Repository {
        name: String::from("apa"),
        name_with_owner: String::from("w3c/apa"),
    }
}

fn comment_issue(labels: Vec<&str>, author: &str) -> ReturnedIssueANTBRLA {
    ReturnedIssueANTBRLA {
        assignees: vec![user("alice"), user("bob")],
        number: 42,
        title: String::from("Check the dialog"),
        body: String::from("\u{a7} https://github.com/openui/open-ui/issues/530"),
        repository: repo(),
        labels: labels.into_iter().map(label).collect(),
        author: user(author),
    }
}

#[test]
fn assignees_joined_or_unassigned() {
    assert_eq!(flatten_assignees(&vec![user("a"), user("b")]), "a,b");
    assert_eq!(flatten_assignees(&vec![]), "UNASSIGNED");
}

#[test]
fn showing_counts() {
    assert_eq!(showing(3), "Showing 3");
    assert_eq!(showing(0), "Showing 0");
    assert_eq!(showing(30), "Showing the top 30");
    assert_eq!(showing(31), "Showing the top 30");
}

#[test]
fn json_field_lists() {
    assert_eq!(IssueFields::ANT.json_fields(), "assignees,number,title");
    assert_eq!(
        IssueFields::ANTBRLA.json_fields(),
        "assignees,number,title,body,repository,labels,author"
    );
}

#[test]
fn comment_request_classified() {
    let issue = comment_issue(vec!["s:html", "pending", "wg:apa", "tracker", "other"], "w3cbot");
    let r = CommentReviewRequest::from(&issue);
    assert_eq!(r.group, Some(String::from("apa")));
    assert_eq!(r.spec, Some(String::from("html")));
    assert_eq!(r.source, "openui/open-ui#530");
    assert_eq!(r.assignees, "alice,bob");
    assert!(!r.our);
    assert!(r.status.is_valid());
    let row = r.to_vec_string(&vec![
        CommentField::Id,
        CommentField::Title,
        CommentField::Group,
        CommentField::Spec,
        CommentField::Status,
        CommentField::Assignees,
        CommentField::Our,
        CommentField::Source,
    ]);
    assert_eq!(
        row,
        vec![
            "42",
            "Check the dialog",
            "apa",
            "html",
            "P T",
            "alice,bob",
            " - ",
            "openui/open-ui#530"
        ]
    );
}

#[test]
fn comment_request_without_origins() {
    let issue = comment_issue(vec!["pending", "needs-resolution"], "someone");
    let r = CommentReviewRequest::from(&issue);
    assert!(r.our);
    assert!(!r.status.is_valid());
    assert_eq!(
        r.to_vec_string(&vec![CommentField::Group, CommentField::Spec, CommentField::Our]),
        vec!["???", "???", "Yes"]
    );
}

#[test]
fn design_request_reads_topic_and_venue() {
    let issue = comment_issue(
        vec!["Topic: Popover", "Venue: OpenUI", "Progress: untriaged"],
        "w3cbot",
    );
    let r = CommentReviewRequest::from_design(&issue);
    assert_eq!(r.spec, Some(String::from("Popover")));
    assert_eq!(r.group, Some(String::from("OpenUI")));
    assert_eq!(r.status.to_string(), "U");
}

#[test]
fn column_widths() {
    assert_eq!(CommentReviewRequest::max_field_width(&CommentField::Assignees), Some(15));
    assert_eq!(CommentReviewRequest::max_field_width(&CommentField::Group), Some(11));
    assert_eq!(CommentReviewRequest::max_field_width(&CommentField::Spec), Some(15));
    assert_eq!(CommentReviewRequest::max_field_width(&CommentField::Title), None);
    assert_eq!(CommentField::Status.as_str(), "status");
}

#[test]
fn charter_request_row() {
    let issue = ReturnedIssueANTBRL {
        assignees: vec![],
        number: 7,
        title: String::from("Some WG charter"),
        body: String::new(),
        repository: repo(),
        labels: vec![label("a11y-needs-resolution"), label("TAG review completed")],
    };
    let r = CharterReviewRequest::from(&issue);
    assert_eq!(r.to_vec_string(), vec!["7", "Some WG charter", "A t"]);
}

#[test]
fn action_row() {
    let issue = ReturnedIssueANTBR {
        assignees: vec![user("carol")],
        number: 12,
        title: String::from("Write it up"),
        body: String::from("Text\nDue: 2027-05-23"),
        repository: repo(),
    };
    let a = Action::from(issue);
    assert_eq!(a.due, Date::from_ymd_opt(2027, 5, 23));
    assert_eq!(
        a.to_vec_string(),
        vec!["2027-05-23", "w3c/apa#12", "Write it up", "carol"]
    );
    let undated = Action::from(ReturnedIssueANTBR {
        assignees: vec![],
        number: 13,
        title: String::from("Later"),
        body: String::from("no date here"),
        repository: repo(),
    });
    assert_eq!(
        undated.to_vec_string(),
        vec!["(no date)", "w3c/apa#13", "Later", "UNASSIGNED"]
    );
}

#[test]
fn spec_request_row() {
    let issue = ReturnedIssueANT {
        assignees: vec![],
        number: 44,
        title: String::from("CSS View Transitions 2022-11-20"),
    };
    let r = SpecReviewRequest::from(&issue).unwrap();
    assert_eq!(
        r.to_vec_string(),
        vec!["2022-12-11", "44", "CSS View Transitions", "UNASSIGNED"]
    );
    let bad = ReturnedIssueANT {
        assignees: vec![],
        number: 45,
        title: String::from("No dates"),
    };
    assert!(SpecReviewRequest::from(&bad).is_none());
}
