use ntlib::date::Date;
use ntlib::issue::{Assignee, Label, Repository, ReturnedIssueANTBRLA};
use ntlib::repos::{AllGroupRepos, GroupRepos, MainAndOtherRepos, ReposError};
use ntlib::requests::{CommentField, CommentReviewRequest, DesignField};
use ntlib::settings::Settings;
use ntlib::sort::due_order;
use ntlib::table::comment_table;

fn request(number: u32, labels: Vec<&str>) -> CommentReviewRequest {
    let issue = ReturnedIssueANTBRLA {
        assignees: vec![],
        number,
        title: format!("Request {number}"),
        body: String::new(),
        repository: Repository {
            name: String::from("a11y-review"),
            name_with_owner: String::from("w3c/a11y-review"),
        },
        labels: labels
            .into_iter()
            .map(|n| Label {
                id: String::new(),
                color: String::new(),
                description: String::new(),
                name: String::from(n),
            })
            .collect(),
        author: Assignee {
            id: String::new(),
            is_bot: true,
            login: String::from("w3cbot"),
            account_type: String::from("Bot"),
            url: String::new(),
        },
    };
    CommentReviewRequest::from(&issue)
}

#[test]
fn table_parts() {
    let requests = vec![
        request(1, vec!["wg:css", "s:css-grid", "pending"]),
        request(2, vec!["wg:apa", "pending", "needs-resolution"]),
        request(3, vec!["wg:css", "s:html"]),
    ];
    let t = comment_table(
        &None,
        &vec![CommentField::Id, CommentField::Group, CommentField::Status],
        true,
        &requests,
    );
    assert_eq!(t.headers, vec!["ID", "GROUP", "STATUS", "SOURCE"]);
    assert_eq!(t.widths, vec![(1, 11)]);
    assert_eq!(t.groups, vec!["apa", "css"]);
    assert_eq!(t.specs, vec!["css-grid", "html"]);
    assert_eq!(t.invalid, vec![vec!["2", "Request 2", "P N"]]);
    assert_eq!(t.rows[0], vec!["1", "css", "P", "UNKNOWN!"]);
    assert_eq!(t.rows.len(), 3);
}

#[test]
fn table_with_spec_filter_lists_no_specs() {
    let requests = vec![request(1, vec!["s:html"])];
    let t = comment_table(
        &Some(String::from("html")),
        &vec![CommentField::Source, CommentField::Spec, CommentField::Assignees],
        true,
        &requests,
    );
    assert_eq!(t.headers, vec!["SOURCE", "SPEC", "ASSIGNEES"]);
    assert_eq!(t.widths, vec![(1, 15), (2, 15)]);
    assert!(t.specs.is_empty());
    assert!(t.groups.is_empty());
    assert!(t.invalid.is_empty());
}

#[test]
fn undated_first_then_by_date_stably() {
    let d = |y, m, dd| Date::from_ymd_opt(y, m, dd);
    let keys = vec![
        d(2024, 5, 1),
        None,
        d(2023, 12, 31),
        d(2024, 5, 1),
        None,
        d(2024, 1, 2),
    ];
    assert_eq!(due_order(&keys), vec![1, 4, 2, 5, 0, 3]);
    assert_eq!(due_order(&vec![]), Vec::<usize>::new());
}

#[test]
fn settings_defaults_and_changes() {
    let mut s = Settings::defaults(false);
    assert_eq!(s.group(), "apa");
    assert_eq!(
        s.comment_fields(),
        vec![
            CommentField::Id,
            CommentField::Title,
            CommentField::Group,
            CommentField::Spec,
            CommentField::Status,
            CommentField::Assignees,
            CommentField::Our
        ]
    );
    assert_eq!(s.design_fields().len(), 6);
    assert!(s.is_modified());
    let mut t = Settings::from_parts(String::from("apa"), vec![], vec![DesignField::Id], false);
    assert!(!t.is_modified());
    assert!(!t.set_group(String::from("apa")));
    assert!(!t.is_modified());
    assert!(t.set_group(String::from("css")));
    assert_eq!(t.group(), "css");
    assert!(t.is_modified());
    s.set_comment_fields(vec![CommentField::Title]);
    assert_eq!(s.comment_fields(), vec![CommentField::Title]);
}

fn group(main: &str) -> GroupRepos {
    GroupRepos {
        group: MainAndOtherRepos {
            main: String::from(main),
            others: None,
        },
        horizontal_review: None,
        task_forces: None,
    }
}

#[test]
fn group_lookup() {
    let all = AllGroupRepos {
        repos: vec![
            (String::from("css"), group("w3c/csswg-drafts")),
            (String::from("apa"), group("w3c/apa")),
        ],
    };
    assert_eq!(all.for_group("apa").unwrap().group.main, "w3c/apa");
    assert_eq!(all.known_group_names(), vec!["apa", "css"]);
    match all.for_group("nope") {
        Err(ReposError::InvalidGroup {
            group_name,
            valid_groups,
        }) => {
            assert_eq!(group_name, "nope");
            assert_eq!(valid_groups, vec!["apa", "css"]);
        }
        Ok(_) => panic!("unknown group accepted"),
    }
}
