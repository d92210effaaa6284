use ntlib::query::{AssigneeQuery, OriginQuery, Query};

#[test]
fn assignee_query_choices() {
    assert_eq!(
        AssigneeQuery::new(Some(String::from("me")), true),
        AssigneeQuery::User(String::from("me"))
    );
    assert_eq!(AssigneeQuery::new(None, true), AssigneeQuery::Nobody);
    assert_eq!(
        AssigneeQuery::new(None, false),
        AssigneeQuery::NotImportantRightNow
    );
}

#[test]
fn origin_query_choices() {
    assert_eq!(OriginQuery::new(true, false), OriginQuery::OurGroup);
    assert_eq!(OriginQuery::new(false, true), OriginQuery::OtherGroup);
    assert_eq!(OriginQuery::new(false, false), OriginQuery::Whatevs);
}

#[test]
fn plain_query_asks_for_open_issues() {
    let mut q = Query::new("Test", false);
    q.repo("w3c/apa");
    assert_eq!(
        q.args(false, None),
        vec!["search", "issues", "--repo", "w3c/apa", "--state", "open"]
    );
}

#[test]
fn full_query_arguments() {
    let mut q = Query::new("Test", false);
    q.repos(&vec![String::from("a/b"), String::from("c/d")]);
    q.label("x");
    q.not_label("action");
    q.include_closed(true);
    q.assignee(&AssigneeQuery::User(String::from("me")));
    q.origin(&OriginQuery::OurGroup);
    assert_eq!(
        q.args(true, Some("number,title")),
        vec![
            "search", "issues", "--web", "--repo", "a/b", "--repo", "c/d", "--label", "x",
            "--json", "number,title", "--assignee", "me", "--", "-label:action", "-author:w3cbot"
        ]
    );
}

#[test]
fn other_groups_and_nobody() {
    let mut q = Query::new("Test", true);
    q.repo("r/s");
    q.assignee(&AssigneeQuery::Nobody);
    q.origin(&OriginQuery::OtherGroup);
    assert_eq!(
        q.args(false, None),
        vec![
            "search", "issues", "--repo", "r/s", "--state", "open", "--no-assignee", "--author",
            "w3cbot"
        ]
    );
    assert!(q.verbose());
    assert!(!q.has_no_repos());
    assert!(Query::new("Empty", false).has_no_repos());
}
