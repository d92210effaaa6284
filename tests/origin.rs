use ntlib::origin::OriginSyntax;

#[test]
fn comments_valid_source() {
    let result = OriginSyntax::comment_spec().parse("s:html").unwrap();
    assert_eq!(result, String::from("html"))
}

#[test]
fn comments_valid_source_multiple() {
    let result = OriginSyntax::comment_group().parse("wg:apa").unwrap();
    assert_eq!(result, String::from("apa"))
}

#[test]
fn comments_invalid_source() {
    let result = OriginSyntax::comment_spec().parse("noop:html");
    assert_eq!(result, None)
}

#[test]
fn comments_designs_valid_source() {
    let result = OriginSyntax::design_spec().parse("s:html").unwrap();
    assert_eq!(result, String::from("html"))
}

#[test]
fn comments_designs_valid_source_multiple() {
    let result = OriginSyntax::design_group().parse("wg:apa").unwrap();
    assert_eq!(result, String::from("apa"));

    let result = OriginSyntax::design_group().parse("Venue: OpenUI").unwrap();
    assert_eq!(result, String::from("OpenUI"))
}

#[test]
fn comments_designs_invalid_source() {
    let result = OriginSyntax::design_spec().parse("noop:html");
    assert_eq!(result, None)
}

#[test]
fn whole_label_names_itself() {
    assert_eq!(
        OriginSyntax::comment_group().parse("whatwg"),
        Some(String::from("whatwg"))
    );
    assert_eq!(OriginSyntax::comment_group().parse("whatwg:x"), None);
}

#[test]
fn no_separator_is_no_origin() {
    assert_eq!(OriginSyntax::comment_spec().parse("html"), None);
}

#[test]
fn value_is_trimmed_and_split_at_first_colon() {
    assert_eq!(
        OriginSyntax::comment_spec().parse("s:  css:grid \u{A0}"),
        Some(String::from("css:grid"))
    );
}

#[test]
fn topic_is_a_design_spec_only() {
    assert_eq!(
        OriginSyntax::design_spec().parse("Topic: Popover"),
        Some(String::from("Popover"))
    );
    assert_eq!(OriginSyntax::comment_spec().parse("Topic: Popover"), None);
}
