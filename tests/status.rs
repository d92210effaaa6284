use ntlib::status::{LabelStringVec, ParseFlagError, Status, Taxonomy, TaxonomyError};

fn priorities() -> Taxonomy {
    Taxonomy::new(
        vec![
            String::from("priority-1"),
            String::from("priority-2"),
            String::from("hotifx"),
        ],
        vec!['1', '2', 'h'],
        vec![(0, 1), (1, 0)],
    )
    .unwrap()
}

#[test]
fn status_pretty_empty() {
    let status = Status::new(priorities());
    assert_eq!(status.to_string(), "");
}

#[test]
fn status_pretty_one() {
    let mut status = Status::new(priorities());
    status.is("priority-2");
    assert_eq!(status.to_string(), "2");
}

#[test]
fn status_pretty_two() {
    let mut status = Status::new(priorities());
    status.is("priority-2");
    status.is("hotifx");
    assert_eq!(status.to_string(), "2 h");
}

#[test]
fn status_labels_for_flag_1() {
    assert_eq!(priorities().label_for('1'), Some(String::from("priority-1")));
}

#[test]
fn status_labels_for_flag_2() {
    assert_eq!(priorities().label_for('2'), Some(String::from("priority-2")));
}

#[test]
fn status_labels_for_flag_h() {
    assert_eq!(priorities().label_for('h'), Some(String::from("hotifx")));
}

#[test]
fn status_labels_for_flag_invalid() {
    assert_eq!(priorities().label_for('q'), None);
}

#[test]
fn status_pretty_all() {
    assert_eq!(
        priorities().flags_labels_conflicts(),
        "1: priority-1 (conflicts with: priority-2)
2: priority-2 (conflicts with: priority-1)
h: hotifx"
    );
}

#[test]
fn status_empty_status_is_valid() {
    let status = Status::new(priorities());
    assert!(status.is_valid());
}

#[test]
fn status_valid_status_is_valid() {
    let mut status = Status::new(priorities());
    status.is("priority-2");
    status.is("hotifx");
    assert!(status.is_valid());
}

#[test]
fn status_invalid_status_is_invalid() {
    let mut status = Status::new(priorities());
    status.is("priority-1");
    status.is("priority-2");
    assert!(!status.is_valid());
}

#[test]
fn make_status_structs_pretty_empty() {
    let status = Status::new(priorities());
    assert_eq!(status.to_string(), "");
}

#[test]
fn make_status_structs_pretty_one() {
    let mut status = Status::new(priorities());
    status.is("priority-2");
    assert_eq!(status.to_string(), "2");
}

#[test]
fn make_status_structs_pretty_two() {
    let mut status = Status::new(priorities());
    status.is("priority-2");
    status.is("hotifx");
    assert_eq!(status.to_string(), "2 h");
}

#[test]
fn make_status_structs_labels_for_flag_1() {
    assert_eq!(priorities().label_for('1'), Some(String::from("priority-1")));
}

#[test]
fn make_status_structs_labels_for_flag_2() {
    assert_eq!(priorities().label_for('2'), Some(String::from("priority-2")));
}

#[test]
fn make_status_structs_labels_for_flag_h() {
    assert_eq!(priorities().label_for('h'), Some(String::from("hotifx")));
}

#[test]
fn make_status_structs_labels_for_flag_invalid() {
    assert_eq!(priorities().label_for('q'), None);
}

#[test]
fn make_status_structs_pretty_all() {
    assert_eq!(
        priorities().flags_labels_conflicts(),
        "1: priority-1 (conflicts with: priority-2)
2: priority-2 (conflicts with: priority-1)
h: hotifx"
    );
}

#[test]
fn make_status_structs_empty_status_is_valid() {
    let status = Status::new(priorities());
    assert!(status.is_valid());
}

#[test]
fn make_status_structs_valid_status_is_valid() {
    let mut status = Status::new(priorities());
    status.is("priority-2");
    status.is("hotifx");
    assert!(status.is_valid());
}

#[test]
fn make_status_structs_invalid_status_is_invalid() {
    let mut status = Status::new(priorities());
    status.is("priority-1");
    status.is("priority-2");
    assert!(!status.is_valid());
}

#[test]
fn valid_source_is_not_status() {
    assert_eq!(Taxonomy::comment().flag_for("s:html"), None);
}

#[test]
fn pending() {
    assert_eq!(Taxonomy::comment().flag_for("pending"), Some('P'));
}

#[test]
fn close() {
    assert_eq!(Taxonomy::comment().flag_for("close?"), Some('C'));
}

#[test]
fn tracker() {
    assert_eq!(Taxonomy::comment().flag_for("tracker"), Some('T'));
}

#[test]
fn needs_resolution() {
    assert_eq!(Taxonomy::comment().flag_for("needs-resolution"), Some('N'));
}

#[test]
fn recycle() {
    assert_eq!(Taxonomy::comment().flag_for("recycle"), Some('R'));
}

#[test]
fn advice_requested() {
    assert_eq!(Taxonomy::comment().flag_for("advice-requested"), Some('A'));
}

#[test]
fn needs_attention() {
    assert_eq!(Taxonomy::comment().flag_for("needs-attention"), Some('X'));
}

#[test]
fn conflict_declared_on_one_side_holds_both_ways() {
    let t = Taxonomy::new(
        vec![String::from("priority-1"), String::from("priority-2")],
        vec!['1', '2'],
        vec![(1, 0)],
    )
    .unwrap();
    assert!(t.conflicts_with(0, 1));
    assert!(t.conflicts_with(1, 0));
    let mut status = Status::new(t);
    status.is("priority-1");
    status.is("priority-2");
    assert!(!status.is_valid());
}

#[test]
fn comment_conflicts_are_listed() {
    let listing = Taxonomy::comment().flags_labels_conflicts();
    assert_eq!(
        listing,
        "P: pending (conflicts with: needs-resolution)
C: close?
T: tracker (conflicts with: needs-resolution)
N: needs-resolution (conflicts with: pending tracker)
R: recycle
A: advice-requested
X: needs-attention"
    );
}

#[test]
fn flags_expand_to_labels() {
    let labels = Taxonomy::comment().labels_for_flags("TAP").unwrap();
    assert_eq!(labels, vec!["tracker", "advice-requested", "pending"]);
}

#[test]
fn unknown_flag_lists_valid_ones() {
    let err: ParseFlagError = Taxonomy::design().labels_for_flags("Uq").unwrap_err();
    assert_eq!(
        err.message(),
        "Valid flags:
U: Progress: untriaged
i: Progress: in progress
x: Progress: pending external feedback"
    );
}

#[test]
fn malformed_tables_are_refused() {
    assert_eq!(
        Taxonomy::new(vec![String::from("a")], vec!['a', 'b'], vec![]).err(),
        Some(TaxonomyError::LengthMismatch)
    );
    assert_eq!(
        Taxonomy::new(vec![String::from("a")], vec!['a'], vec![(0, 1)]).err(),
        Some(TaxonomyError::BadConflict)
    );
    assert_eq!(
        Taxonomy::new(vec![String::from("a")], vec!['a'], vec![(0, 0)]).err(),
        Some(TaxonomyError::BadConflict)
    );
}

#[test]
fn charter_flags() {
    assert_eq!(
        Taxonomy::charter().label_for('S'),
        Some(String::from("security-needs-resolution"))
    );
    assert_eq!(Taxonomy::charter().flag_count(), 10);
}

#[test]
fn comment_status_with_conflict() {
    let mut status = Status::new(Taxonomy::comment());
    status.is("pending");
    status.is("needs-resolution");
    status.is("unrelated");
    assert!(!status.is_valid());
    assert_eq!(status.to_string(), "P N");
}

#[test]
fn label_string_vec_from_flags() {
    let labels = LabelStringVec::from_str(&Taxonomy::charter(), "aT").unwrap();
    assert!(!labels.is_empty());
    assert_eq!(
        labels.into_vec(),
        vec!["Accessibility review completed", "tag-needs-resolution"]
    );
    assert!(LabelStringVec::default().is_empty());
    assert!(LabelStringVec::from_str(&Taxonomy::charter(), "z").is_err());
}
