use ntlib::query::AssigneeQuery;
use ntlib::report::{actions, charters, comments, issues, plan_formats, ReportFormat, Step};
use ntlib::query::OriginQuery;

#[test]
fn table_and_meeting_fetch_once() {
    let steps = plan_formats(&vec![ReportFormat::Table, ReportFormat::Meeting]);
    assert_eq!(
        steps,
        vec![
            Step::Fetch,
            Step::Render(ReportFormat::Table),
            Step::Render(ReportFormat::Meeting)
        ]
    );
    assert_eq!(steps.iter().filter(|s| **s == Step::Fetch).count(), 1);
}

#[test]
fn delegating_formats_do_not_fetch() {
    let steps = plan_formats(&vec![
        ReportFormat::Web,
        ReportFormat::Gh,
        ReportFormat::Agenda,
    ]);
    assert_eq!(
        steps,
        vec![
            Step::Delegate { web: true },
            Step::Delegate { web: false },
            Step::Unsupported(ReportFormat::Agenda)
        ]
    );
}

#[test]
fn fetch_comes_before_first_render_only() {
    let steps = plan_formats(&vec![
        ReportFormat::Web,
        ReportFormat::Meeting,
        ReportFormat::Table,
        ReportFormat::Meeting,
    ]);
    assert_eq!(
        steps,
        vec![
            Step::Delegate { web: true },
            Step::Fetch,
            Step::Render(ReportFormat::Meeting),
            Step::Render(ReportFormat::Table),
            Step::Render(ReportFormat::Meeting)
        ]
    );
}

#[test]
fn issues_exclude_actions_unless_asked() {
    let r = issues(
        &vec![String::from("w3c/apa")],
        &AssigneeQuery::NotImportantRightNow,
        &vec![],
        false,
        false,
        &vec![ReportFormat::Table, ReportFormat::Meeting],
        false,
    );
    assert_eq!(
        r.query.args(false, None),
        vec!["search", "issues", "--repo", "w3c/apa", "--state", "open", "--", "-label:action"]
    );
    assert_eq!(
        r.steps,
        vec![
            Step::Delegate { web: false },
            Step::Unsupported(ReportFormat::Meeting)
        ]
    );
    let r = issues(
        &vec![String::from("w3c/apa")],
        &AssigneeQuery::NotImportantRightNow,
        &vec![String::from("action")],
        true,
        false,
        &vec![],
        false,
    );
    assert_eq!(
        r.query.args(false, None),
        vec!["search", "issues", "--repo", "w3c/apa", "--label", "action"]
    );
}

#[test]
fn actions_require_action_label() {
    let r = actions(
        &vec![String::from("w3c/apa")],
        &AssigneeQuery::Nobody,
        &vec![String::from("x")],
        false,
        &vec![ReportFormat::Table],
        false,
    );
    assert_eq!(
        r.query.args(false, None),
        vec![
            "search", "issues", "--repo", "w3c/apa", "--label", "x", "--label", "action",
            "--state", "open", "--no-assignee"
        ]
    );
    assert_eq!(r.steps, vec![Step::Fetch, Step::Render(ReportFormat::Table)]);
}

#[test]
fn comments_query_with_spec_and_statuses() {
    let r = comments(
        "w3c/a11y-review",
        &vec![String::from("pending")],
        &vec![String::from("tracker")],
        &Some(String::from("html")),
        &AssigneeQuery::NotImportantRightNow,
        &OriginQuery::OtherGroup,
        &vec![ReportFormat::Meeting],
        false,
    );
    assert_eq!(
        r.query.args(false, Some("title")),
        vec![
            "search", "issues", "--repo", "w3c/a11y-review", "--label", "s:html", "--label",
            "pending", "--state", "open", "--json", "title", "--author", "w3cbot", "--",
            "-label:tracker"
        ]
    );
}

#[test]
fn charters_query() {
    let r = charters("w3c/strategy", &vec![], &vec![], &vec![ReportFormat::Table], false);
    assert_eq!(
        r.query.args(false, None),
        vec![
            "search", "issues", "--repo", "w3c/strategy", "--label", "charter", "--label",
            "Horizontal review requested", "--state", "open"
        ]
    );
}
