use ntlib::date::Date;
use ntlib::due::{get_due, spec_and_due, SpecTitleAndDueDate};

fn ymd(y: i32, m: u32, d: u32) -> Date {
    Date::from_ymd_opt(y, m, d).unwrap()
}

#[test]
fn issues_actions_no_crash_if_no_dates() {
    assert_eq!(get_due("Invalid request"), None);
}

#[test]
fn simple() {
    assert_eq!(get_due("Due: 2027-05-23"), Some(ymd(2027, 5, 23)));
}

#[test]
fn simple_case_space_dot() {
    assert_eq!(get_due("dUe:  2027-05-23."), Some(ymd(2027, 5, 23)));
}

#[test]
fn simple_comment_dot_space() {
    assert_eq!(
        get_due("Due: 2027-05-23 (Saturday the 42nd of Septembruary).  "),
        Some(ymd(2027, 5, 23))
    );
}

#[test]
fn multiple_lines_last() {
    assert_eq!(
        get_due("Description of the action\n\nDue: 2027-05-23"),
        Some(ymd(2027, 5, 23))
    );
}

#[test]
fn multiple_lines_first_takes_precedence() {
    assert_eq!(
        get_due("Due: 2027-05-24\n\nHere's some more info...\n\nDue: 2027-05-23"),
        Some(ymd(2027, 5, 24))
    );
}

#[test]
fn date_may_not_be_on_first_line() {
    assert_eq!(
        get_due(
            r#"Opened by matatk via IRC channel #apa on irc.w3.org

Due: 2023-12-06 (Wednesday  6 December)

Background: our meta-issue on this horizontal review query: w3c/a11y-review#138

[As discussed during today's call](https://www.w3.org/2023/11/22-apa-minutes#t06), there are potentially three ways we may engage with the APG team (TBD following an initial review of their issues):

1. Requesting the APG *dialog patterns to mirror the apparent emerging consensus that the browser chrome should be reachable in the focus order.

2. Requesting the APG to use `inert` (separate issue, but worth making a link betwixt them?)

3. Asking the APG what the policy is on "widely supported" and when updates may be made to reflect widely supported techniques. (Seems that such an issue will have been discussed; we'll need to find it.)"#
        ),
        Some(ymd(2023, 12, 6))
    );
}

#[test]
fn no_padding() {
    assert_eq!(get_due("due 23 May 2027"), Some(ymd(2027, 5, 23)));
}

#[test]
fn with_padding() {
    assert_eq!(get_due("due  4 Jun 2028"), Some(ymd(2028, 6, 4)));
}

#[test]
fn issues_actions_multiple_lines() {
    assert_eq!(
        get_due("due 23 May 2027\n\nHere's some more info..."),
        Some(ymd(2027, 5, 23))
    );
}

#[test]
fn due_line_with_crlf_endings() {
    assert_eq!(get_due("Intro\r\nDue: 2027-05-23\r\nMore"), Some(ymd(2027, 5, 23)));
}

#[test]
fn first_due_shaped_line_decides_even_without_a_date() {
    assert_eq!(get_due("Due: 2027-13-40\nDue: 2027-05-23"), None);
}

#[test]
fn two_trailing_characters_are_refused() {
    assert_eq!(get_due("Due: 2027-05-23.."), None);
    assert_eq!(get_due("Due: 2027-05-23 (x).."), None);
    assert_eq!(get_due("Due:2027-05-23"), None);
}

#[test]
fn month_abbreviation_in_any_case() {
    assert_eq!(get_due("due 1 dec 2025"), Some(ymd(2025, 12, 1)));
    assert_eq!(get_due("due 1 Foo 2025"), None);
    assert_eq!(get_due("due 31 Feb 2025"), None);
}

#[test]
fn leap_day() {
    assert_eq!(get_due("Due: 2024-02-29"), Some(ymd(2024, 2, 29)));
    assert_eq!(get_due("Due: 2023-02-29"), None);
}

#[test]
fn date_written_back() {
    assert_eq!(ymd(2027, 5, 3).to_string(), "2027-05-03");
    assert_eq!(ymd(7, 1, 9).to_string(), "0007-01-09");
}

#[test]
fn days_added_across_year_end() {
    assert_eq!(ymd(2022, 12, 20).plus_days(21), ymd(2023, 1, 10));
    assert_eq!(ymd(9999, 12, 31).plus_days(1).to_string(), "+10000-01-01");
}

#[test]
fn specs_no_crash_if_no_dates() {
    assert_eq!(spec_and_due("Invalid request"), None);
}

#[test]
fn one_date() {
    assert_eq!(
        spec_and_due("CSS View Transitions 2022-11-20"),
        Some(SpecTitleAndDueDate {
            spec: String::from("CSS View Transitions"),
            due: ymd(2022, 12, 11)
        })
    );
}

#[test]
fn two_dates_chevron() {
    assert_eq!(
        spec_and_due("Digital Publishing WAI-ARIA Module 1.1 and Digital Publishing Accessibility API Mappings 1.1 2023-02-23 > 2023-04-01"),
        Some(SpecTitleAndDueDate {
            spec: String::from("Digital Publishing WAI-ARIA Module 1.1 and Digital Publishing Accessibility API Mappings 1.1"),
            due: ymd(2023, 4, 1)
        })
    );
}

#[test]
fn two_dates_chevron_extra_gap() {
    assert_eq!(
        spec_and_due("VISS 2 Core and Transport documents  2022-08-31 > 2022-09-30"),
        Some(SpecTitleAndDueDate {
            spec: String::from("VISS 2 Core and Transport documents"),
            due: ymd(2022, 9, 30)
        })
    );
}

#[test]
fn two_dates_full_arrow() {
    assert_eq!(
        spec_and_due("Verifiable Credential Data Integrity (and vc-di-eddsa and vc-di-ecdsa) 2023-05-27 -> 2023-07-31"),
        Some(SpecTitleAndDueDate {
            spec: String::from("Verifiable Credential Data Integrity (and vc-di-eddsa and vc-di-ecdsa)"),
            due: ymd(2023, 7, 31)
        })
    );
}

#[test]
fn invalid_due_date_in_title() {
    assert_eq!(spec_and_due("Thing 2023-01-01 > 2023-02-30"), None);
    assert_eq!(spec_and_due("Thing 2023-02-30"), None);
}
