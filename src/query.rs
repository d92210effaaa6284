//! Search queries: filters accumulated by a builder and written out as the arguments of one
//! issue search.
use vstd::prelude::*;
use vstd::string::*;

use crate::issue::{showing, showing_text};
use crate::text::views;

verus! {

/// How results are filtered by assignment.
#[derive(Debug, Clone, PartialEq, Eq)]
pub enum AssigneeQuery {
    /// Issues assigned to this user.
    User(String),
    /// Issues assigned to nobody.
    Nobody,
    /// Any assignment.
    NotImportantRightNow,
}

impl AssigneeQuery {
    /// A user when one is given; otherwise nobody when `unassigned` is asked; otherwise any.
    pub fn new(username: Option<String>, unassigned: bool) -> (r: AssigneeQuery)
        ensures
            username matches Some(u) ==> r == AssigneeQuery::User(u),
            username is None && unassigned ==> r == AssigneeQuery::Nobody,
            username is None && !unassigned ==> r == AssigneeQuery::NotImportantRightNow,
    {
        match username {
            Some(user) => AssigneeQuery::User(user),
            None => if unassigned {
                AssigneeQuery::Nobody
            } else {
                AssigneeQuery::NotImportantRightNow
            },
        }
    }
}

/// Which group an issue should come from.
#[derive(Debug, Clone, Copy, PartialEq, Eq)]
pub enum OriginQuery {
    /// Our own group.
    OurGroup,
    /// Another group (the issue was filed by the bot account).
    OtherGroup,
    /// Either.
    Whatevs,
}

impl OriginQuery {
    /// Ours, others', or either; asking for both at once is not allowed.
    pub fn new(ours: bool, others: bool) -> (r: OriginQuery)
        requires
            !(ours && others),
        ensures
            ours ==> r == OriginQuery::OurGroup,
            others ==> r == OriginQuery::OtherGroup,
            !ours && !others ==> r == OriginQuery::Whatevs,
    {
        if ours {
            OriginQuery::OurGroup
        } else if others {
            OriginQuery::OtherGroup
        } else {
            OriginQuery::Whatevs
        }
    }
}

/// The account that files issues on behalf of other groups.
pub open spec fn bot_account() -> Seq<char> {
    "w3cbot"@
}

/// The arguments that an assignee filter adds.
pub open spec fn assignee_args(aq: AssigneeQuery) -> Seq<Seq<char>> {
    match aq {
        AssigneeQuery::User(u) => seq!["--assignee"@, u@],
        AssigneeQuery::Nobody => seq!["--no-assignee"@],
        AssigneeQuery::NotImportantRightNow => Seq::empty(),
    }
}

/// What an origin filter makes of a query.
pub open spec fn with_origin(m: QueryModel, oq: OriginQuery) -> QueryModel {
    match oq {
        OriginQuery::OurGroup => QueryModel { not_author: Some(bot_account()), ..m },
        OriginQuery::OtherGroup => QueryModel {
            extra: m.extra + seq!["--author"@, bot_account()],
            ..m
        },
        OriginQuery::Whatevs => m,
    }
}

/// What a query holds.
pub struct QueryModel {
    pub task_name: Seq<char>,
    pub verbose: bool,
    pub include_closed: bool,
    pub repos: Seq<Seq<char>>,
    pub labels: Seq<Seq<char>>,
    pub not_labels: Seq<Seq<char>>,
    pub extra: Seq<Seq<char>>,
    pub not_author: Option<Seq<char>>,
}

/// An issue search being built up.
pub struct Query {
    task_name: String,
    verbose: bool,
    include_closed: bool,
    repos: Vec<String>,
    labels: Vec<String>,
    not_labels: Vec<String>,
    extra: Vec<String>,
    not_author: Option<String>,
}

/// `flag, v` for each value `v`, in order.
pub open spec fn flagged(flag: Seq<char>, vals: Seq<Seq<char>>) -> Seq<Seq<char>>
    decreases vals.len(),
{
    if vals.len() == 0 {
        Seq::empty()
    } else {
        flagged(flag, vals.drop_last()) + seq![flag, vals.last()]
    }
}

/// `pre + v` for each value `v`, in order.
pub open spec fn prefixed(pre: Seq<char>, vals: Seq<Seq<char>>) -> Seq<Seq<char>> {
    vals.map_values(|v: Seq<char>| pre + v)
}

/// The search arguments: the subcommand, `--web` when asked, the repositories, the required
/// labels, the open-state filter unless closed issues are included, the requested fields, the
/// assignee and author filters, and then, after a `--` boundary, the negated terms.
pub open spec fn query_args(q: QueryModel, web: bool, fields: Option<Seq<char>>) -> Seq<Seq<char>> {
    seq!["search"@, "issues"@] + (if web {
        seq!["--web"@]
    } else {
        Seq::empty()
    }) + flagged("--repo"@, q.repos) + flagged("--label"@, q.labels) + (if !q.include_closed {
        seq!["--state"@, "open"@]
    } else {
        Seq::empty()
    }) + (match fields {
        Some(f) => seq!["--json"@, f],
        None => Seq::empty(),
    }) + q.extra + (if q.not_labels.len() > 0 || q.not_author is Some {
        seq!["--"@]
    } else {
        Seq::empty()
    }) + prefixed("-label:"@, q.not_labels) + (match q.not_author {
        Some(a) => seq!["-author:"@ + a],
        None => Seq::empty(),
    })
}

fn push_flagged(out: &mut Vec<String>, flag: &str, vals: &Vec<String>)
    ensures
        views(final(out)@) == views(old(out)@) + flagged(flag@, views(vals@)),
{
    let mut i: usize = 0;
    while i < vals.len()
        invariant
            i <= vals@.len(),
            views(out@) == views(old(out)@) + flagged(flag@, views(vals@.take(i as int))),
        decreases vals@.len() - i,
    {
        let ghost prev = views(out@);
        out.push(String::from_str(flag));
        out.push(vals[i].clone());
        proof {
            assert(views(out@) =~= prev.push(flag@).push(vals@[i as int]@));
            assert(vals@.take(i + 1) =~= vals@.take(i as int).push(vals@[i as int]));
            assert(views(vals@.take(i + 1)) =~= views(vals@.take(i as int)).push(vals@[i as int]@));
            assert(views(vals@.take(i + 1)).drop_last() =~= views(vals@.take(i as int)));
            assert(views(out@) =~= views(old(out)@) + flagged(flag@, views(vals@.take(i + 1))));
        }
        i = i + 1;
    }
    assert(vals@.take(i as int) =~= vals@);
}

fn push_prefixed(out: &mut Vec<String>, pre: &str, vals: &Vec<String>)
    ensures
        views(final(out)@) == views(old(out)@) + prefixed(pre@, views(vals@)),
{
    let mut i: usize = 0;
    while i < vals.len()
        invariant
            i <= vals@.len(),
            views(out@) == views(old(out)@) + prefixed(pre@, views(vals@.take(i as int))),
        decreases vals@.len() - i,
    {
        let ghost prev = views(out@);
        let mut s = String::from_str(pre);
        s.append(vals[i].as_str());
        out.push(s);
        proof {
            assert(views(out@) =~= prev.push(pre@ + vals@[i as int]@));
            assert(vals@.take(i + 1) =~= vals@.take(i as int).push(vals@[i as int]));
            assert(views(vals@.take(i + 1)) =~= views(vals@.take(i as int)).push(vals@[i as int]@));
            assert(views(out@) =~= views(old(out)@) + prefixed(pre@, views(vals@.take(i + 1))));
        }
        i = i + 1;
    }
    assert(vals@.take(i as int) =~= vals@);
}

fn push_all(out: &mut Vec<String>, vals: &Vec<String>)
    ensures
        views(final(out)@) == views(old(out)@) + views(vals@),
{
    let mut i: usize = 0;
    while i < vals.len()
        invariant
            i <= vals@.len(),
            views(out@) == views(old(out)@) + views(vals@.take(i as int)),
        decreases vals@.len() - i,
    {
        let ghost prev = views(out@);
        out.push(vals[i].clone());
        proof {
            assert(views(out@) =~= prev.push(vals@[i as int]@));
            assert(vals@.take(i + 1) =~= vals@.take(i as int).push(vals@[i as int]));
            assert(views(vals@.take(i + 1)) =~= views(vals@.take(i as int)).push(vals@[i as int]@));
            assert(views(out@) =~= views(old(out)@) + views(vals@.take(i + 1)));
        }
        i = i + 1;
    }
    assert(vals@.take(i as int) =~= vals@);
}

fn push_str(out: &mut Vec<String>, s: &str)
    ensures
        views(final(out)@) == views(old(out)@).push(s@),
{
    out.push(String::from_str(s));
    assert(views(out@) =~= views(old(out)@).push(s@));
}

impl Query {
    pub closed spec fn model(&self) -> QueryModel {
        QueryModel {
            task_name: self.task_name@,
            verbose: self.verbose,
            include_closed: self.include_closed,
            repos: views(self.repos@),
            labels: views(self.labels@),
            not_labels: views(self.not_labels@),
            extra: views(self.extra@),
            not_author: match self.not_author {
                Some(a) => Some(a@),
                None => None,
            },
        }
    }

    /// An empty query that only asks for open issues.
    pub fn new(task_name: &str, verbose: bool) -> (q: Query)
        ensures
            q.model() == (QueryModel {
                task_name: task_name@,
                verbose,
                include_closed: false,
                repos: Seq::empty(),
                labels: Seq::empty(),
                not_labels: Seq::empty(),
                extra: Seq::empty(),
                not_author: None,
            }),
    {
        let q = Query {
            task_name: String::from_str(task_name),
            verbose,
            include_closed: false,
            repos: Vec::new(),
            labels: Vec::new(),
            not_labels: Vec::new(),
            extra: Vec::new(),
            not_author: None,
        };
        assert(q.model().repos =~= Seq::empty());
        assert(q.model().labels =~= Seq::empty());
        assert(q.model().not_labels =~= Seq::empty());
        assert(q.model().extra =~= Seq::empty());
        q
    }

    pub fn task_name(&self) -> (r: &String)
        ensures
            r@ == self.model().task_name,
    {
        &self.task_name
    }

    pub fn verbose(&self) -> (r: bool)
        ensures
            r == self.model().verbose,
    {
        self.verbose
    }

    /// Adds a repository to search.
    pub fn repo(&mut self, repo: &str)
        ensures
            final(self).model() == (QueryModel {
                repos: old(self).model().repos.push(repo@),
                ..old(self).model()
            }),
    {
        self.repos.push(String::from_str(repo));
        assert(final(self).model().repos =~= old(self).model().repos.push(repo@));
    }

    /// Adds repositories to search, in order.
    pub fn repos(&mut self, repos: &Vec<String>)
        ensures
            final(self).model() == (QueryModel {
                repos: old(self).model().repos + views(repos@),
                ..old(self).model()
            }),
    {
        push_all(&mut self.repos, repos);
    }

    /// Adds a label that every result must carry.
    pub fn label(&mut self, label: &str)
        ensures
            final(self).model() == (QueryModel {
                labels: old(self).model().labels.push(label@),
                ..old(self).model()
            }),
    {
        self.labels.push(String::from_str(label));
        assert(final(self).model().labels =~= old(self).model().labels.push(label@));
    }

    /// Adds labels that every result must carry, in order.
    pub fn labels(&mut self, labels: &Vec<String>)
        ensures
            final(self).model() == (QueryModel {
                labels: old(self).model().labels + views(labels@),
                ..old(self).model()
            }),
    {
        push_all(&mut self.labels, labels);
    }

    /// Adds a label that no result may carry.
    pub fn not_label(&mut self, label: &str)
        ensures
            final(self).model() == (QueryModel {
                not_labels: old(self).model().not_labels.push(label@),
                ..old(self).model()
            }),
    {
        self.not_labels.push(String::from_str(label));
        assert(final(self).model().not_labels =~= old(self).model().not_labels.push(label@));
    }

    /// Adds labels that no result may carry, in order.
    pub fn not_labels(&mut self, labels: &Vec<String>)
        ensures
            final(self).model() == (QueryModel {
                not_labels: old(self).model().not_labels + views(labels@),
                ..old(self).model()
            }),
    {
        push_all(&mut self.not_labels, labels);
    }

    /// Whether closed issues are found too.
    pub fn include_closed(&mut self, include_closed: bool)
        ensures
            final(self).model() == (QueryModel { include_closed, ..old(self).model() }),
    {
        self.include_closed = include_closed;
    }

    /// Filters by assignment: a user, nobody, or (leaving the query as it is) anyone.
    pub fn assignee(&mut self, aq: &AssigneeQuery)
        ensures
            final(self).model() == (QueryModel {
                extra: old(self).model().extra + assignee_args(*aq),
                ..old(self).model()
            }),
    {
        match aq {
            AssigneeQuery::User(user) => {
                push_str(&mut self.extra, "--assignee");
                push_str(&mut self.extra, user.as_str());
            },
            AssigneeQuery::Nobody => {
                push_str(&mut self.extra, "--no-assignee");
            },
            AssigneeQuery::NotImportantRightNow => {},
        }
        assert(final(self).model().extra =~= old(self).model().extra + assignee_args(*aq));
    }

    /// Filters by origin: our group excludes the bot's issues, other groups require them.
    pub fn origin(&mut self, oq: &OriginQuery)
        ensures
            final(self).model() == with_origin(old(self).model(), *oq),
    {
        match oq {
            OriginQuery::OurGroup => {
                self.not_author = Some(String::from_str("w3cbot"));
            },
            OriginQuery::OtherGroup => {
                push_str(&mut self.extra, "--author");
                push_str(&mut self.extra, "w3cbot");
                assert(final(self).model().extra =~= old(self).model().extra + seq![
                    "--author"@,
                    bot_account(),
                ]);
            },
            OriginQuery::Whatevs => {},
        }
    }

    /// Whether the query names no repository, so that it cannot be run.
    pub fn has_no_repos(&self) -> (r: bool)
        ensures
            r == (self.model().repos.len() == 0),
    {
        self.repos.len() == 0
    }

    /// The arguments of the search, either opened in a browser (`web`) or printed by the
    /// search tool, or returning the given comma-separated fields as JSON.
    pub fn args(&self, web: bool, fields: Option<&str>) -> (r: Vec<String>)
        ensures
            views(r@) == query_args(
                self.model(),
                web,
                match fields {
                    Some(f) => Some(f@),
                    None => None,
                },
            ),
    {
        let ghost m = self.model();
        let mut out: Vec<String> = Vec::new();
        assert(views(out@) =~= Seq::empty());
        push_str(&mut out, "search");
        push_str(&mut out, "issues");
        assert(views(out@) =~= seq!["search"@, "issues"@]);
        if web {
            push_str(&mut out, "--web");
        }
        let ghost s2 = seq!["search"@, "issues"@] + (if web {
            seq!["--web"@]
        } else {
            Seq::empty()
        });
        assert(views(out@) =~= s2);
        push_flagged(&mut out, "--repo", &self.repos);
        push_flagged(&mut out, "--label", &self.labels);
        if !self.include_closed {
            push_str(&mut out, "--state");
            push_str(&mut out, "open");
        }
        let ghost s5 = s2 + flagged("--repo"@, m.repos) + flagged("--label"@, m.labels) + (
        if !m.include_closed {
            seq!["--state"@, "open"@]
        } else {
            Seq::empty()
        });
        assert(views(out@) =~= s5);
        match fields {
            Some(f) => {
                push_str(&mut out, "--json");
                push_str(&mut out, f);
            },
            None => {},
        }
        let ghost s6 = s5 + (match fields {
            Some(f) => seq!["--json"@, f@],
            None => Seq::empty(),
        });
        assert(views(out@) =~= s6);
        push_all(&mut out, &self.extra);
        if self.not_labels.len() > 0 || self.not_author.is_some() {
            push_str(&mut out, "--");
        }
        let ghost s8 = s6 + m.extra + (if m.not_labels.len() > 0 || m.not_author is Some {
            seq!["--"@]
        } else {
            Seq::empty()
        });
        assert(views(out@) =~= s8);
        push_prefixed(&mut out, "-label:", &self.not_labels);
        let ghost s9 = s8 + prefixed("-label:"@, m.not_labels);
        match &self.not_author {
            Some(a) => {
                let mut s = String::from_str("-author:");
                s.append(a.as_str());
                out.push(s);
                assert(views(out@) =~= s9.push("-author:"@ + a@));
            },
            None => {},
        }
        assert(views(out@) =~= query_args(
            self.model(),
            web,
            match fields {
                Some(f) => Some(f@),
                None => None,
            },
        ));
        out
    }
}

/// A search that failed.
#[derive(Debug, Clone, PartialEq, Eq)]
pub enum QueryError {
    /// The search tool exited with an error; its own output says why.
    GhDidNotRunSuccessfully,
}

impl QueryError {
    pub fn to_string(&self) -> (r: String)
        ensures
            r@ == "'gh' did not run successfully"@,
    {
        String::from_str("'gh' did not run successfully")
    }
}

/// What a finished search tells the user: a failure of the search tool is an error; no results
/// is not, and is said so; otherwise how many results are shown.
pub open spec fn outcome_text(count: nat, description: Seq<char>) -> Seq<char> {
    if count == 0 {
        "no "@ + description + " found"@
    } else {
        showing_text(count) + " "@ + description
    }
}

/// The line that reports a finished search of `count` results of the kind `description`, or
/// the error when the search tool failed.
pub fn search_outcome(success: bool, count: usize, description: &str) -> (r: Result<
    String,
    QueryError,
>)
    ensures
        !success ==> r == Err::<String, QueryError>(QueryError::GhDidNotRunSuccessfully),
        success ==> (r matches Ok(t) && t@ == outcome_text(count as nat, description@)),
{
    if !success {
        return Err(QueryError::GhDidNotRunSuccessfully);
    }
    if count == 0 {
        let mut r = String::from_str("no ");
        r.append(description);
        r.append(" found");
        Ok(r)
    } else {
        let mut r = showing(count);
        r.append(" ");
        r.append(description);
        Ok(r)
    }
}

} // verus!
