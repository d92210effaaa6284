use ntlib::source::get_source_issue_locator;

const PREAMBLE: &str = "**This is a tracker issue.** Only discuss things here if they are a11y group internal meta-discussions about the issue. **Contribute to the actual discussion at the following link:**";

#[test]
fn comments_no_crash_if_no_dates() {
    assert_eq!(
        get_source_issue_locator("Invalid request"),
        String::from("UNKNOWN!")
    );
}

#[test]
fn comments_multiple_lines() {
    let body = format!("{PREAMBLE}\n\n\u{a7} https://github.com/openui/open-ui/issues/530");
    assert_eq!(
        get_source_issue_locator(&body),
        String::from("openui/open-ui#530")
    );
}

#[test]
fn comments_multiple_lines_pr() {
    let body = format!("{PREAMBLE}\n\n\u{a7} https://github.com/whatwg/html/pull/8352");
    assert_eq!(get_source_issue_locator(&body), String::from("whatwg/html#8352"));
}

#[test]
fn comments_designs_no_crash_if_no_dates() {
    assert_eq!(
        get_source_issue_locator("Invalid request"),
        String::from("UNKNOWN!")
    );
}

#[test]
fn comments_designs_multiple_lines() {
    let body = format!("{PREAMBLE}\n\n\u{a7} https://github.com/openui/open-ui/issues/530");
    assert_eq!(
        get_source_issue_locator(&body),
        String::from("openui/open-ui#530")
    );
}

#[test]
fn comments_designs_multiple_lines_pr() {
    let body = format!("{PREAMBLE}\n\n\u{a7} https://github.com/whatwg/html/pull/8352");
    assert_eq!(get_source_issue_locator(&body), String::from("whatwg/html#8352"));
}

#[test]
fn parts_are_taken_as_long_as_possible() {
    assert_eq!(
        get_source_issue_locator("\u{a7} https://github.com/a/b/c/issues/12x"),
        String::from("a/b/c#12")
    );
    assert_eq!(
        get_source_issue_locator("\u{a7} https://github.com/a/b/c/issues/12x and 3/4"),
        String::from("a/b/c/issues#4")
    );
}

#[test]
fn link_stops_at_end_of_line() {
    assert_eq!(
        get_source_issue_locator("\u{a7} https://github.com/a/b\n/issues/12"),
        String::from("UNKNOWN!")
    );
}

#[test]
fn first_link_wins() {
    assert_eq!(
        get_source_issue_locator(
            "\u{a7} https://github.com/a/b/issues/1\n\u{a7} https://github.com/c/d/issues/2"
        ),
        String::from("a/b#1")
    );
}
