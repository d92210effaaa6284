//! Review requests and actions classified from issue records, and their table rows.
use vstd::prelude::*;
use vstd::string::*;

use crate::date::{date_text, Date};
use crate::due::{
    date_text_parts, due_date, get_due, spec_and_due, title_form, DEFAULT_REVIEW_DAYS,
};
use crate::issue::{
    assignees_text, flatten_assignees, join_push, joined, Label, ReturnedIssueANT, ReturnedIssueANTBR,
    ReturnedIssueANTBRL, ReturnedIssueANTBRLA,
};
use crate::origin::{
    comment_spec_syntax, design_spec_syntax, group_syntax, origin_in, OriginSyntax, SyntaxView,
};
use crate::query::bot_account;
use crate::source::{get_source_issue_locator, source_locator};
use crate::status::{spaced, Status, Taxonomy};
use crate::text::{append_decimal, decimal, views};

verus! {

pub open spec fn label_names(labels: Seq<Label>) -> Seq<Seq<char>> {
    labels.map_values(|l: Label| l.name@)
}

pub open spec fn opt_view(o: Option<String>) -> Option<Seq<char>> {
    match o {
        Some(s) => Some(s@),
        None => None,
    }
}

/// The group named by the last label that names one.
pub open spec fn last_group(g: SyntaxView, names: Seq<Seq<char>>) -> Option<Seq<char>>
    decreases names.len(),
{
    if names.len() == 0 {
        None
    } else {
        match origin_in(g, names.last()) {
            Some(v) => Some(v),
            None => last_group(g, names.drop_last()),
        }
    }
}

/// The spec named by the last label that names a spec and no group.
pub open spec fn last_spec(g: SyntaxView, sp: SyntaxView, names: Seq<Seq<char>>) -> Option<
    Seq<char>,
>
    decreases names.len(),
{
    if names.len() == 0 {
        None
    } else if origin_in(g, names.last()) is Some {
        last_spec(g, sp, names.drop_last())
    } else {
        match origin_in(sp, names.last()) {
            Some(v) => Some(v),
            None => last_spec(g, sp, names.drop_last()),
        }
    }
}

/// A label that names no origin, and so may name a status flag.
pub open spec fn status_label(g: SyntaxView, sp: SyntaxView, name: Seq<char>) -> bool {
    origin_in(g, name) is None && origin_in(sp, name) is None
}

/// The status has exactly the flags that the status labels among `names` name.
pub open spec fn status_of_labels(st: Status, g: SyntaxView, sp: SyntaxView, names: Seq<Seq<char>>) -> bool {
    &&& st.wf()
    &&& forall|i: int|
        0 <= i < st.taxonomy().len() ==> #[trigger] st.flags_set()[i] == exists|j: int|
            0 <= j < names.len() && status_label(g, sp, names[j]) && st.taxonomy().label(i)
                == names[j]
}

/// Reads a request's labels: its group, its spec, and its status over `taxonomy`.
fn classify_labels(
    labels: &Vec<Label>,
    group: &OriginSyntax,
    spec: &OriginSyntax,
    taxonomy: Taxonomy,
) -> (r: (Option<String>, Option<String>, Status))
    requires
        taxonomy.wf(),
    ensures
        opt_view(r.0) == last_group(group.view_of(), label_names(labels@)),
        opt_view(r.1) == last_spec(group.view_of(), spec.view_of(), label_names(labels@)),
        status_of_labels(r.2, group.view_of(), spec.view_of(), label_names(labels@)),
        r.2.taxonomy() == taxonomy,
{
    let ghost g = group.view_of();
    let ghost sp = spec.view_of();
    let ghost names = label_names(labels@);
    let mut found_group: Option<String> = None;
    let mut found_spec: Option<String> = None;
    let mut status = Status::new(taxonomy);
    let mut k: usize = 0;
    while k < labels.len()
        invariant
            k <= labels@.len(),
            names == label_names(labels@),
            g == group.view_of(),
            sp == spec.view_of(),
            status.taxonomy() == taxonomy,
            opt_view(found_group) == last_group(g, names.take(k as int)),
            opt_view(found_spec) == last_spec(g, sp, names.take(k as int)),
            status_of_labels(status, g, sp, names.take(k as int)),
        decreases labels@.len() - k,
    {
        let name = labels[k].name.as_str();
        assert(names.take(k + 1).drop_last() =~= names.take(k as int));
        assert(names.take(k + 1).last() == name@);
        let ghost before = status;
        match group.parse(name) {
            Some(v) => {
                found_group = Some(v);
            },
            None => match spec.parse(name) {
                Some(v) => {
                    found_spec = Some(v);
                },
                None => {
                    status.is(name);
                },
            },
        }
        proof {
            let t = names.take(k + 1);
            let t0 = names.take(k as int);
            assert forall|i: int| 0 <= i < status.taxonomy().len() implies #[trigger] status.flags_set()[i]
                == exists|j: int|
                0 <= j < t.len() && status_label(g, sp, t[j]) && status.taxonomy().label(i) == t[j] by {
                assert forall|j: int| 0 <= j < t0.len() implies t[j] == t0[j] by {}
                if status.flags_set()[i] {
                    if before.flags_set()[i] {
                        let j = choose|j: int|
                            0 <= j < t0.len() && status_label(g, sp, t0[j]) && before.taxonomy().label(i)
                                == t0[j];
                        assert(t[j] == t0[j]);
                    } else {
                        assert(status_label(g, sp, t[k as int]));
                    }
                } else {
                    if exists|j: int|
                        0 <= j < t.len() && status_label(g, sp, t[j]) && status.taxonomy().label(i) == t[j] {
                        let j = choose|j: int|
                            0 <= j < t.len() && status_label(g, sp, t[j]) && status.taxonomy().label(i)
                                == t[j];
                        if j < k {
                            assert(t[j] == t0[j]);
                        }
                    }
                }
            }
        }
        k = k + 1;
    }
    assert(names.take(k as int) =~= names);
    (found_group, found_spec, status)
}

/// A column of the comment review table.
#[derive(Debug, Clone, Copy, PartialEq, Eq)]
pub enum CommentField {
    /// Assigned users
    Assignees,
    /// The group the request is from or relates to
    Group,
    /// The tracking issue's number
    Id,
    /// Whether the issue comes from our group
    Our,
    /// The source issue
    Source,
    /// The spec the request relates to
    Spec,
    /// The status of the request
    Status,
    /// The request's title
    Title,
}

pub open spec fn comment_field_name(f: CommentField) -> Seq<char> {
    match f {
        CommentField::Assignees => "assignees"@,
        CommentField::Group => "group"@,
        CommentField::Id => "id"@,
        CommentField::Our => "our"@,
        CommentField::Source => "source"@,
        CommentField::Spec => "spec"@,
        CommentField::Status => "status"@,
        CommentField::Title => "title"@,
    }
}

/// The widest that a column may be, for the columns whose values run long.
pub open spec fn comment_field_width(f: CommentField) -> Option<u16> {
    match f {
        CommentField::Assignees => Some(15u16),
        CommentField::Group => Some(11u16),
        CommentField::Spec => Some(15u16),
        _ => None,
    }
}

/// A column's heading: its name in capitals.
pub open spec fn header_text(f: CommentField) -> Seq<char> {
    match f {
        CommentField::Assignees => "ASSIGNEES"@,
        CommentField::Group => "GROUP"@,
        CommentField::Id => "ID"@,
        CommentField::Our => "OUR"@,
        CommentField::Source => "SOURCE"@,
        CommentField::Spec => "SPEC"@,
        CommentField::Status => "STATUS"@,
        CommentField::Title => "TITLE"@,
    }
}

impl CommentField {
    /// The column's heading.
    pub fn header(&self) -> (r: &'static str)
        ensures
            r@ == header_text(*self),
    {
        match self {
            CommentField::Assignees => "ASSIGNEES",
            CommentField::Group => "GROUP",
            CommentField::Id => "ID",
            CommentField::Our => "OUR",
            CommentField::Source => "SOURCE",
            CommentField::Spec => "SPEC",
            CommentField::Status => "STATUS",
            CommentField::Title => "TITLE",
        }
    }

    /// The field's name, in lower case.
    pub fn as_str(&self) -> (r: &'static str)
        ensures
            r@ == comment_field_name(*self),
    {
        match self {
            CommentField::Assignees => "assignees",
            CommentField::Group => "group",
            CommentField::Id => "id",
            CommentField::Our => "our",
            CommentField::Source => "source",
            CommentField::Spec => "spec",
            CommentField::Status => "status",
            CommentField::Title => "title",
        }
    }
}

/// A column of the design review table.
#[derive(Debug, Clone, Copy, PartialEq, Eq)]
pub enum DesignField {
    /// Assigned users
    Assignees,
    /// The group the request is from or relates to
    Group,
    /// The tracking issue's number
    Id,
    /// The source issue
    Source,
    /// The spec the request relates to
    Spec,
    /// The status of the request
    Status,
    /// The request's title
    Title,
}

impl DesignField {
    /// The comment column that shows the same thing.
    pub fn as_comment_field(&self) -> (r: CommentField)
        ensures
            r == match *self {
                DesignField::Assignees => CommentField::Assignees,
                DesignField::Group => CommentField::Group,
                DesignField::Id => CommentField::Id,
                DesignField::Source => CommentField::Source,
                DesignField::Spec => CommentField::Spec,
                DesignField::Status => CommentField::Status,
                DesignField::Title => CommentField::Title,
            },
    {
        match self {
            DesignField::Assignees => CommentField::Assignees,
            DesignField::Group => CommentField::Group,
            DesignField::Id => CommentField::Id,
            DesignField::Source => CommentField::Source,
            DesignField::Spec => CommentField::Spec,
            DesignField::Status => CommentField::Status,
            DesignField::Title => CommentField::Title,
        }
    }
}

/// A list of columns, written as their names separated by commas.
pub struct DisplayableCommentFieldVec {
    fields: Vec<CommentField>,
}

impl DisplayableCommentFieldVec {
    pub closed spec fn fields_view(&self) -> Seq<CommentField> {
        self.fields@
    }

    pub fn from(fields: Vec<CommentField>) -> (r: DisplayableCommentFieldVec)
        ensures
            r.fields_view() == fields@,
    {
        DisplayableCommentFieldVec { fields }
    }

    /// The column names, separated by `, `.
    pub fn to_string(&self) -> (r: String)
        ensures
            r@ == joined(
                self.fields_view().map_values(|f: CommentField| comment_field_name(f)),
                ", "@,
            ),
    {
        let ghost names = self.fields@.map_values(|f: CommentField| comment_field_name(f));
        let mut out = String::new();
        let mut i: usize = 0;
        while i < self.fields.len()
            invariant
                i <= self.fields@.len(),
                names == self.fields@.map_values(|f: CommentField| comment_field_name(f)),
                out@ == joined(names.take(i as int), ", "@),
            decreases self.fields@.len() - i,
        {
            assert(names.take(i + 1) =~= names.take(i as int).push(names[i as int]));
            join_push(&mut out, i == 0, ", ", self.fields[i].as_str(), Ghost(names.take(i as int)));
            i = i + 1;
        }
        assert(names.take(i as int) =~= names);
        out
    }
}

/// A request for comments on another group's issue, or for a design review.
pub struct CommentReviewRequest {
    pub group: Option<String>,
    pub spec: Option<String>,
    pub status: Status,
    pub source: String,
    pub title: String,
    pub assignees: String,
    pub id: u32,
    pub our: bool,
}

/// A text, or `???` when there is none.
pub open spec fn or_unknown(o: Option<String>) -> Seq<char> {
    match o {
        Some(s) => s@,
        None => "???"@,
    }
}

impl CommentReviewRequest {
    /// The widest that a column may be, for the columns whose values run long.
    pub fn max_field_width(field: &CommentField) -> (r: Option<u16>)
        ensures
            r == comment_field_width(*field),
    {
        match field {
            CommentField::Assignees => Some(15),
            CommentField::Group => Some(11),
            CommentField::Spec => Some(15),
            _ => None,
        }
    }

    /// The request's table cell for a column.
    pub open spec fn field_text(&self, f: CommentField) -> Seq<char> {
        match f {
            CommentField::Assignees => self.assignees@,
            CommentField::Group => or_unknown(self.group),
            CommentField::Id => decimal(self.id as nat),
            CommentField::Our => if self.our {
                "Yes"@
            } else {
                " - "@
            },
            CommentField::Source => self.source@,
            CommentField::Spec => or_unknown(self.spec),
            CommentField::Status => spaced(self.status.set_chars(self.status.taxonomy().len())),
            CommentField::Title => self.title@,
        }
    }

    /// Classifies a comment review request: its group and spec from its labels, its status from
    /// the other labels, its source issue from its body; it is ours unless the bot filed it.
    pub fn from(issue: &ReturnedIssueANTBRLA) -> (r: CommentReviewRequest)
        ensures
            opt_view(r.group) == last_group(group_syntax(), label_names(issue.labels@)),
            opt_view(r.spec) == last_spec(group_syntax(), comment_spec_syntax(), label_names(issue.labels@)),
            status_of_labels(r.status, group_syntax(), comment_spec_syntax(), label_names(issue.labels@)),
            r.status.taxonomy().is_comment(),
            r.source@ == source_locator(issue.body@),
            r.title@ == issue.title@,
            r.assignees@ == assignees_text(issue.assignees@),
            r.id == issue.number,
            r.our == (issue.author.login@ != bot_account()),
    {
        let g = OriginSyntax::comment_group();
        let sp = OriginSyntax::comment_spec();
        assert(g.view_of() == group_syntax());
        assert(sp.view_of() == comment_spec_syntax());
        let (group, spec, status) = classify_labels(&issue.labels, &g, &sp, Taxonomy::comment());
        let bot = String::from_str("w3cbot");
        CommentReviewRequest {
            group,
            spec,
            status,
            source: get_source_issue_locator(issue.body.as_str()),
            title: issue.title.clone(),
            assignees: flatten_assignees(&issue.assignees),
            id: issue.number,
            our: !(issue.author.login == bot),
        }
    }

    /// Classifies a design review request as above; the spec may also be given as `Topic:`.
    pub fn from_design(issue: &ReturnedIssueANTBRLA) -> (r: CommentReviewRequest)
        ensures
            opt_view(r.group) == last_group(group_syntax(), label_names(issue.labels@)),
            opt_view(r.spec) == last_spec(group_syntax(), design_spec_syntax(), label_names(issue.labels@)),
            status_of_labels(r.status, group_syntax(), design_spec_syntax(), label_names(issue.labels@)),
            r.status.taxonomy().is_design(),
            r.source@ == source_locator(issue.body@),
            r.title@ == issue.title@,
            r.assignees@ == assignees_text(issue.assignees@),
            r.id == issue.number,
            r.our == (issue.author.login@ != bot_account()),
    {
        let g = OriginSyntax::design_group();
        let sp = OriginSyntax::design_spec();
        assert(g.view_of() == group_syntax());
        assert(sp.view_of() == design_spec_syntax());
        let (group, spec, status) = classify_labels(&issue.labels, &g, &sp, Taxonomy::design());
        let bot = String::from_str("w3cbot");
        CommentReviewRequest {
            group,
            spec,
            status,
            source: get_source_issue_locator(issue.body.as_str()),
            title: issue.title.clone(),
            assignees: flatten_assignees(&issue.assignees),
            id: issue.number,
            our: !(issue.author.login == bot),
        }
    }

    /// The request's cell for one column.
    pub fn field(&self, f: CommentField) -> (r: String)
        requires
            self.status.wf(),
        ensures
            r@ == self.field_text(f),
    {
        match f {
            CommentField::Assignees => self.assignees.clone(),
            CommentField::Group => match &self.group {
                Some(g) => g.clone(),
                None => String::from_str("???"),
            },
            CommentField::Id => {
                let mut s = String::new();
                append_decimal(&mut s, self.id);
                assert(s@ =~= decimal(self.id as nat));
                s
            },
            CommentField::Our => if self.our {
                String::from_str("Yes")
            } else {
                String::from_str(" - ")
            },
            CommentField::Source => self.source.clone(),
            CommentField::Spec => match &self.spec {
                Some(s) => s.clone(),
                None => String::from_str("???"),
            },
            CommentField::Status => self.status.to_string(),
            CommentField::Title => self.title.clone(),
        }
    }

    /// The request's row, one cell for each of the given columns.
    pub fn to_vec_string(&self, fields: &Vec<CommentField>) -> (r: Vec<String>)
        requires
            self.status.wf(),
        ensures
            views(r@) == fields@.map_values(|f: CommentField| self.field_text(f)),
    {
        let mut out: Vec<String> = Vec::new();
        let mut i: usize = 0;
        while i < fields.len()
            invariant
                self.status.wf(),
                i <= fields@.len(),
                views(out@) == fields@.take(i as int).map_values(|f: CommentField| self.field_text(f)),
            decreases fields@.len() - i,
        {
            let cell = self.field(fields[i]);
            let ghost prev = views(out@);
            out.push(cell);
            assert(views(out@) =~= prev.push(self.field_text(fields@[i as int])));
            assert(fields@.take(i + 1) =~= fields@.take(i as int).push(fields@[i as int]));
            assert(views(out@) =~= fields@.take(i + 1).map_values(|f: CommentField| self.field_text(f)));
            i = i + 1;
        }
        assert(fields@.take(i as int) =~= fields@);
        out
    }
}

/// A charter review request.
pub struct CharterReviewRequest {
    pub title: String,
    pub tracking_number: u32,
    pub status: Status,
}

impl CharterReviewRequest {
    /// Classifies a charter review request: every label that names a flag sets it.
    pub fn from(issue: &ReturnedIssueANTBRL) -> (r: CharterReviewRequest)
        ensures
            r.status.wf(),
            r.status.taxonomy().is_charter(),
            forall|i: int|
                0 <= i < r.status.taxonomy().len() ==> #[trigger] r.status.flags_set()[i]
                    == label_names(issue.labels@).contains(r.status.taxonomy().label(i)),
            r.title@ == issue.title@,
            r.tracking_number == issue.number,
    {
        let mut status = Status::new(Taxonomy::charter());
        let ghost names = label_names(issue.labels@);
        let mut k: usize = 0;
        while k < issue.labels.len()
            invariant
                k <= issue.labels@.len(),
                names == label_names(issue.labels@),
                status.wf(),
                status.taxonomy().is_charter(),
                forall|i: int|
                    0 <= i < status.taxonomy().len() ==> #[trigger] status.flags_set()[i]
                        == names.take(k as int).contains(status.taxonomy().label(i)),
            decreases issue.labels@.len() - k,
        {
            let ghost before = status;
            status.is(issue.labels[k].name.as_str());
            proof {
                let t = names.take(k + 1);
                let t0 = names.take(k as int);
                assert(t =~= t0.push(names[k as int]));
                assert forall|i: int| 0 <= i < status.taxonomy().len() implies #[trigger] status.flags_set()[i]
                    == t.contains(status.taxonomy().label(i)) by {
                    let l = status.taxonomy().label(i);
                    assert(status.flags_set()[i] == (before.flags_set()[i] || before.taxonomy().label(i)
                        == names[k as int]));
                    assert(before.flags_set()[i] == t0.contains(l));
                    assert(t[k as int] == names[k as int]);
                    if t0.contains(l) {
                        let j = choose|j: int| 0 <= j < t0.len() && t0[j] == l;
                        assert(t[j] == l);
                    }
                    if t.contains(l) && !t0.contains(l) {
                        let j = choose|j: int| 0 <= j < t.len() && t[j] == l;
                        if j < k {
                            assert(t0[j] == l);
                        }
                    }
                }
            }
            k = k + 1;
        }
        assert(names.take(k as int) =~= names);
        CharterReviewRequest {
            title: issue.title.clone(),
            tracking_number: issue.number,
            status,
        }
    }

    /// The row: number, title, status.
    pub fn to_vec_string(&self) -> (r: Vec<String>)
        requires
            self.status.wf(),
        ensures
            views(r@) == seq![
                decimal(self.tracking_number as nat),
                self.title@,
                spaced(self.status.set_chars(self.status.taxonomy().len())),
            ],
    {
        let mut id = String::new();
        append_decimal(&mut id, self.tracking_number);
        assert(id@ =~= decimal(self.tracking_number as nat));
        let r = vec![id, self.title.clone(), self.status.to_string()];
        assert(views(r@) =~= seq![
            decimal(self.tracking_number as nat),
            self.title@,
            spaced(self.status.set_chars(self.status.taxonomy().len())),
        ]);
        r
    }
}

/// An action issue and its due date, if its body gives one.
pub struct Action {
    pub issue: ReturnedIssueANTBR,
    pub due: Option<Date>,
}

impl Action {
    pub fn from(issue: ReturnedIssueANTBR) -> (r: Action)
        ensures
            r.issue == issue,
            r.due is Some <==> due_date(issue.body@) is Some,
            r.due matches Some(d) ==> d.wf() && due_date(issue.body@) == Some(d.ymd()),
    {
        let due = get_due(issue.body.as_str());
        Action { issue, due }
    }

    /// The row: due date (or `(no date)`), locator, title, assignees.
    pub fn to_vec_string(&self) -> (r: Vec<String>)
        requires
            self.due matches Some(d) ==> d.wf(),
        ensures
            views(r@) == seq![
                match self.due {
                    Some(d) => date_text(d.ymd().0, d.ymd().1, d.ymd().2),
                    None => "(no date)"@,
                },
                self.issue.repository.name_with_owner@ + "#"@ + decimal(self.issue.number as nat),
                self.issue.title@,
                assignees_text(self.issue.assignees@),
            ],
    {
        let due = match &self.due {
            Some(d) => d.to_string(),
            None => String::from_str("(no date)"),
        };
        let mut locator = self.issue.repository.name_with_owner.clone();
        locator.append("#");
        append_decimal(&mut locator, self.issue.number);
        let r = vec![due, locator, self.issue.title.clone(), flatten_assignees(&self.issue.assignees)];
        assert(views(r@) =~= seq![
            match self.due {
                Some(d) => date_text(d.ymd().0, d.ymd().1, d.ymd().2),
                None => "(no date)"@,
            },
            self.issue.repository.name_with_owner@ + "#"@ + decimal(self.issue.number as nat),
            self.issue.title@,
            assignees_text(self.issue.assignees@),
        ]);
        r
    }
}

/// A spec review request: the spec, when the review is due, its number and assignees.
pub struct SpecReviewRequest {
    pub spec: String,
    pub due: Date,
    pub number: u32,
    pub assignees: String,
}

impl SpecReviewRequest {
    /// Reads a spec review request from its title; none when the title gives no due date, in
    /// which case the caller reports the issue by number and title.
    pub fn from(issue: &ReturnedIssueANT) -> (r: Option<SpecReviewRequest>)
        ensures
            ({
                let t = issue.title@;
                let p = date_text_parts(t.skip(t.len() - 10));
                &&& r is Some <==> title_form(t) is Some && crate::date::valid_ymd(p.0, p.1, p.2)
                &&& r matches Some(x) ==> ({
                    let (end, range) = title_form(t)->0;
                    &&& x.spec@ == crate::text::trim_end(t.take(end))
                    &&& x.due.wf()
                    &&& if range {
                        x.due.ymd() == p
                    } else {
                        x.due.number() == crate::date::day_number(p.0, p.1, p.2) + DEFAULT_REVIEW_DAYS
                    }
                    &&& x.number == issue.number
                    &&& x.assignees@ == assignees_text(issue.assignees@)
                })
            }),
    {
        match spec_and_due(issue.title.as_str()) {
            Some(found) => Some(
                SpecReviewRequest {
                    spec: found.spec,
                    due: found.due,
                    number: issue.number,
                    assignees: flatten_assignees(&issue.assignees),
                },
            ),
            None => None,
        }
    }

    /// The row: due date, number, spec, assignees.
    pub fn to_vec_string(&self) -> (r: Vec<String>)
        requires
            self.due.wf(),
        ensures
            views(r@) == seq![
                date_text(self.due.ymd().0, self.due.ymd().1, self.due.ymd().2),
                decimal(self.number as nat),
                self.spec@,
                self.assignees@,
            ],
    {
        let mut number = String::new();
        append_decimal(&mut number, self.number);
        assert(number@ =~= decimal(self.number as nat));
        let r = vec![self.due.to_string(), number, self.spec.clone(), self.assignees.clone()];
        assert(views(r@) =~= seq![
            date_text(self.due.ymd().0, self.due.ymd().1, self.due.ymd().2),
            decimal(self.number as nat),
            self.spec@,
            self.assignees@,
        ]);
        r
    }
}

} // verus!
