//! Issue records as the search returns them, and small renderings of their parts.
use vstd::prelude::*;
use vstd::string::*;

use crate::text::{append_decimal, decimal, views};

verus! {

/// A user account: an assignee or an author.
#[derive(Debug, Clone)]
pub struct Assignee {
    pub id: String,
    pub is_bot: bool,
    pub login: String,
    pub account_type: String,
    pub url: String,
}

/// An issue label.
#[derive(Debug, Clone)]
pub struct Label {
    pub id: String,
    pub color: String,
    pub description: String,
    pub name: String,
}

/// The repository that an issue belongs to.
#[derive(Debug, Clone)]
pub struct Repository {
    pub name: String,
    pub name_with_owner: String,
}

/// An issue with its assignees, number and title.
#[derive(Debug, Clone)]
pub struct ReturnedIssueANT {
    pub assignees: Vec<Assignee>,
    pub number: u32,
    pub title: String,
}

/// An issue with its assignees, number, title, body and repository.
#[derive(Debug, Clone)]
pub struct ReturnedIssueANTBR {
    pub assignees: Vec<Assignee>,
    pub number: u32,
    pub title: String,
    pub body: String,
    pub repository: Repository,
}

/// An issue with its assignees, number, title, body, repository and labels.
#[derive(Debug, Clone)]
pub struct ReturnedIssueANTBRL {
    pub assignees: Vec<Assignee>,
    pub number: u32,
    pub title: String,
    pub body: String,
    pub repository: Repository,
    pub labels: Vec<Label>,
}

/// An issue with its assignees, number, title, body, repository, labels and author.
#[derive(Debug, Clone)]
pub struct ReturnedIssueANTBRLA {
    pub assignees: Vec<Assignee>,
    pub number: u32,
    pub title: String,
    pub body: String,
    pub repository: Repository,
    pub labels: Vec<Label>,
    pub author: Assignee,
}

/// The fields that a search must return for each kind of issue record.
#[derive(Debug, Clone, Copy, PartialEq, Eq)]
pub enum IssueFields {
    ANT,
    ANTBR,
    ANTBRL,
    ANTBRLA,
}

pub open spec fn field_names(kind: IssueFields) -> Seq<Seq<char>> {
    let ant = seq!["assignees"@, "number"@, "title"@];
    match kind {
        IssueFields::ANT => ant,
        IssueFields::ANTBR => ant + seq!["body"@, "repository"@],
        IssueFields::ANTBRL => ant + seq!["body"@, "repository"@, "labels"@],
        IssueFields::ANTBRLA => ant + seq!["body"@, "repository"@, "labels"@, "author"@],
    }
}

/// Strings joined by a separator.
pub open spec fn joined(xs: Seq<Seq<char>>, sep: Seq<char>) -> Seq<char>
    decreases xs.len(),
{
    if xs.len() == 0 {
        Seq::empty()
    } else if xs.len() == 1 {
        xs[0]
    } else {
        joined(xs.drop_last(), sep) + sep + xs.last()
    }
}

/// Appends `x` to the text of `xs` joined by `sep`.
pub(crate) fn join_push(out: &mut String, first: bool, sep: &str, x: &str, ghost_xs: Ghost<Seq<Seq<char>>>)
    requires
        first == (ghost_xs@.len() == 0),
        old(out)@ == joined(ghost_xs@, sep@),
    ensures
        final(out)@ == joined(ghost_xs@.push(x@), sep@),
{
    if !first {
        out.append(sep);
    }
    out.append(x);
    assert(ghost_xs@.push(x@).drop_last() =~= ghost_xs@);
    if first {
        assert(final(out)@ =~= x@);
    }
}

impl IssueFields {
    /// The field names, comma-separated, as the search's JSON option takes them.
    pub fn json_fields(&self) -> (r: String)
        ensures
            r@ == joined(field_names(*self), ","@),
    {
        let names: Vec<&str> = match self {
            IssueFields::ANT => vec!["assignees", "number", "title"],
            IssueFields::ANTBR => vec!["assignees", "number", "title", "body", "repository"],
            IssueFields::ANTBRL => vec!["assignees", "number", "title", "body", "repository", "labels"],
            IssueFields::ANTBRLA => vec![
                "assignees",
                "number",
                "title",
                "body",
                "repository",
                "labels",
                "author",
            ],
        };
        let ghost all = names@.map_values(|s: &str| s@);
        assert(all =~= field_names(*self));
        let mut out = String::new();
        let mut i: usize = 0;
        while i < names.len()
            invariant
                i <= names@.len(),
                all == names@.map_values(|s: &str| s@),
                out@ == joined(all.take(i as int), ","@),
            decreases names@.len() - i,
        {
            assert(all.take(i + 1) =~= all.take(i as int).push(names@[i as int]@));
            join_push(&mut out, i == 0, ",", names[i], Ghost(all.take(i as int)));
            i = i + 1;
        }
        assert(all.take(i as int) =~= all);
        out
    }
}

pub open spec fn logins(assignees: Seq<Assignee>) -> Seq<Seq<char>> {
    assignees.map_values(|a: Assignee| a.login@)
}

/// The assignees' logins joined by commas, or `UNASSIGNED` when that is empty.
pub open spec fn assignees_text(assignees: Seq<Assignee>) -> Seq<char> {
    let j = joined(logins(assignees), ","@);
    if j.len() == 0 {
        "UNASSIGNED"@
    } else {
        j
    }
}

/// The assignees' logins, comma-separated, or `UNASSIGNED`.
pub fn flatten_assignees(assignees: &Vec<Assignee>) -> (r: String)
    ensures
        r@ == assignees_text(assignees@),
{
    let mut out = String::new();
    let mut i: usize = 0;
    while i < assignees.len()
        invariant
            i <= assignees@.len(),
            out@ == joined(logins(assignees@.take(i as int)), ","@),
        decreases assignees@.len() - i,
    {
        assert(logins(assignees@.take(i + 1)) =~= logins(assignees@.take(i as int)).push(
            assignees@[i as int].login@,
        ));
        join_push(&mut out, i == 0, ",", assignees[i].login.as_str(), Ghost(logins(assignees@.take(i as int))));
        i = i + 1;
    }
    assert(assignees@.take(i as int) =~= assignees@);
    if out.unicode_len() == 0 {
        String::from_str("UNASSIGNED")
    } else {
        out
    }
}

/// How many results are shown: the search returns at most thirty.
pub open spec fn showing_text(number: nat) -> Seq<char> {
    if number >= 30 {
        "Showing the top 30"@
    } else {
        "Showing "@ + decimal(number)
    }
}

/// The line that introduces a listing of `number` results.
pub fn showing(number: usize) -> (r: String)
    ensures
        r@ == showing_text(number as nat),
{
    if number >= 30 {
        String::from_str("Showing the top 30")
    } else {
        let mut r = String::from_str("Showing ");
        append_decimal(&mut r, number as u32);
        r
    }
}

} // verus!
