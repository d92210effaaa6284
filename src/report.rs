//! Report plans: which searches to run and which renderers to call for the formats asked for,
//! fetching the classified results at most once however many formats use them.
use vstd::prelude::*;
use vstd::string::*;

use crate::query::{assignee_args, with_origin, AssigneeQuery, OriginQuery, Query, QueryModel};
use crate::text::{append_decimal, contains_string, decimal, views};

verus! {

/// How results are shown.
#[derive(Debug, Clone, Copy, PartialEq, Eq)]
pub enum ReportFormat {
    /// Printed by the search tool itself.
    Gh,
    /// A table.
    Table,
    /// Subtopics and links, for pasting into a meeting's text channel.
    Meeting,
    /// A list for call announcements.
    Agenda,
    /// Opened in a browser by the search tool.
    Web,
}

/// One thing to do for a report.
#[derive(Debug, Clone, Copy, PartialEq, Eq)]
pub enum Step {
    /// Run the search and let the search tool show it: in a browser when `web`, else printed.
    Delegate { web: bool },
    /// Run the search for JSON results, then classify and sort them; later renders reuse them.
    Fetch,
    /// Render the fetched results in this format.
    Render(ReportFormat),
    /// This report cannot be shown in this format.
    Unsupported(ReportFormat),
}

/// The steps for the formats, in order, for a report whose tables and meeting notes are made
/// from fetched results; `fetched` says whether the results are already at hand.
pub open spec fn steps_from(formats: Seq<ReportFormat>, fetched: bool) -> Seq<Step>
    decreases formats.len(),
{
    if formats.len() == 0 {
        Seq::empty()
    } else {
        let rest = formats.drop_first();
        match formats[0] {
            ReportFormat::Web => seq![Step::Delegate { web: true }] + steps_from(rest, fetched),
            ReportFormat::Gh => seq![Step::Delegate { web: false }] + steps_from(rest, fetched),
            ReportFormat::Agenda => seq![Step::Unsupported(ReportFormat::Agenda)] + steps_from(
                rest,
                fetched,
            ),
            f => (if fetched {
                Seq::empty()
            } else {
                seq![Step::Fetch]
            }) + seq![Step::Render(f)] + steps_from(rest, true),
        }
    }
}

/// The format is rendered from fetched results.
pub open spec fn renders_fetched(f: ReportFormat) -> bool {
    f is Table || f is Meeting
}

/// The number of fetches among the steps.
pub open spec fn fetch_count(steps: Seq<Step>) -> nat
    decreases steps.len(),
{
    if steps.len() == 0 {
        0
    } else {
        (if steps[0] is Fetch {
            1nat
        } else {
            0nat
        }) + fetch_count(steps.drop_first())
    }
}

proof fn lemma_fetch_count_append(a: Seq<Step>, b: Seq<Step>)
    ensures
        fetch_count(a + b) == fetch_count(a) + fetch_count(b),
    decreases a.len(),
{
    if a.len() > 0 {
        assert((a + b).drop_first() =~= a.drop_first() + b);
        lemma_fetch_count_append(a.drop_first(), b);
    } else {
        assert(a + b =~= b);
    }
}

proof fn lemma_fetch_count_from(formats: Seq<ReportFormat>, fetched: bool)
    ensures
        fetch_count(steps_from(formats, fetched)) == if !fetched && exists|i: int|
            0 <= i < formats.len() && renders_fetched(#[trigger] formats[i]) {
            1nat
        } else {
            0nat
        },
    decreases formats.len(),
{
    if formats.len() > 0 {
        let rest = formats.drop_first();
        lemma_fetch_count_from(rest, fetched);
        lemma_fetch_count_from(rest, true);
        assert forall|i: int| 0 <= i < rest.len() implies rest[i] == formats[i + 1] by {}
        let head = match formats[0] {
            ReportFormat::Web => seq![Step::Delegate { web: true }],
            ReportFormat::Gh => seq![Step::Delegate { web: false }],
            ReportFormat::Agenda => seq![Step::Unsupported(ReportFormat::Agenda)],
            f => (if fetched {
                Seq::empty()
            } else {
                seq![Step::Fetch]
            }) + seq![Step::Render(f)],
        };
        let next = if renders_fetched(formats[0]) {
            true
        } else {
            fetched
        };
        assert(steps_from(formats, fetched) == head + steps_from(rest, next));
        lemma_fetch_count_append(head, steps_from(rest, next));
        if renders_fetched(formats[0]) {
            let f = formats[0];
            let pre: Seq<Step> = if fetched {
                Seq::empty()
            } else {
                seq![Step::Fetch]
            };
            lemma_fetch_count_append(pre, seq![Step::Render(f)]);
            assert(seq![Step::Render(f)].drop_first() =~= Seq::<Step>::empty());
            assert(fetch_count(seq![Step::Render(f)]) == 0) by {
                assert(fetch_count(Seq::<Step>::empty()) == 0);
            }
            if !fetched {
                assert(seq![Step::Fetch].drop_first() =~= Seq::<Step>::empty());
                assert(fetch_count(pre) == 1) by {
                    assert(fetch_count(Seq::<Step>::empty()) == 0);
                }
            } else {
                assert(fetch_count(pre) == 0);
            }
            assert(head == pre + seq![Step::Render(f)]);
        } else {
            assert(head.drop_first() =~= Seq::<Step>::empty());
            assert(fetch_count(head) == 0) by {
                assert(fetch_count(head.drop_first()) == 0);
            }
            if exists|i: int| 0 <= i < formats.len() && renders_fetched(#[trigger] formats[i]) {
                let i = choose|i: int| 0 <= i < formats.len() && renders_fetched(#[trigger] formats[i]);
                assert(renders_fetched(rest[i - 1]));
            }
            if exists|i: int| 0 <= i < rest.len() && renders_fetched(#[trigger] rest[i]) {
                let i = choose|i: int| 0 <= i < rest.len() && renders_fetched(#[trigger] rest[i]);
                assert(renders_fetched(formats[i + 1]));
            }
        }
    }
}

/// However many formats ask for fetched results, the search is fetched exactly once if any
/// does, and never otherwise.
pub proof fn lemma_fetch_at_most_once(formats: Seq<ReportFormat>)
    ensures
        fetch_count(steps_from(formats, false)) == if exists|i: int|
            0 <= i < formats.len() && renders_fetched(#[trigger] formats[i]) {
            1nat
        } else {
            0nat
        },
        fetch_count(steps_from(formats, false)) <= 1,
{
    lemma_fetch_count_from(formats, false);
}

/// The steps for `formats`, for a report made from fetched results.
pub fn plan_formats(formats: &Vec<ReportFormat>) -> (r: Vec<Step>)
    ensures
        r@ == steps_from(formats@, false),
{
    let mut out: Vec<Step> = Vec::new();
    let mut fetched = false;
    let mut i: usize = 0;
    assert(formats@.skip(0) =~= formats@);
    assert(out@ + steps_from(formats@, false) =~= steps_from(formats@, false));
    while i < formats.len()
        invariant
            i <= formats@.len(),
            out@ + steps_from(formats@.skip(i as int), fetched) == steps_from(formats@, false),
        decreases formats@.len() - i,
    {
        let ghost before = out@;
        let ghost was = fetched;
        let f = formats[i];
        assert(formats@.skip(i as int).drop_first() =~= formats@.skip(i + 1));
        assert(formats@.skip(i as int)[0] == f);
        match f {
            ReportFormat::Web => out.push(Step::Delegate { web: true }),
            ReportFormat::Gh => out.push(Step::Delegate { web: false }),
            ReportFormat::Agenda => out.push(Step::Unsupported(ReportFormat::Agenda)),
            _ => {
                if !fetched {
                    out.push(Step::Fetch);
                }
                out.push(Step::Render(f));
                fetched = true;
            },
        }
        proof {
            let tail = steps_from(formats@.skip(i + 1), fetched);
            match f {
                ReportFormat::Web | ReportFormat::Gh | ReportFormat::Agenda => {
                    assert(out@ + tail =~= before + steps_from(formats@.skip(i as int), was));
                },
                _ => {
                    if was {
                        assert(out@ =~= before + seq![Step::Render(f)]);
                    } else {
                        assert(out@ =~= before + seq![Step::Fetch] + seq![Step::Render(f)]);
                    }
                    assert(out@ + tail =~= before + steps_from(formats@.skip(i as int), was));
                },
            }
        }
        i = i + 1;
    }
    assert(formats@.skip(i as int) =~= Seq::<ReportFormat>::empty());
    assert(out@ + Seq::<Step>::empty() =~= out@);
    out
}

/// The steps for plain issue searches, which the search tool always shows itself: a table is
/// printed by it, and meeting notes and agendas cannot be made.
pub open spec fn issue_step(f: ReportFormat) -> Step {
    match f {
        ReportFormat::Web => Step::Delegate { web: true },
        ReportFormat::Gh => Step::Delegate { web: false },
        ReportFormat::Table => Step::Delegate { web: false },
        g => Step::Unsupported(g),
    }
}

/// A search and what to do with its results.
pub struct Report {
    pub query: Query,
    pub steps: Vec<Step>,
}

fn plan_issue_formats(formats: &Vec<ReportFormat>) -> (r: Vec<Step>)
    ensures
        r@ == formats@.map_values(|f: ReportFormat| issue_step(f)),
{
    let mut out: Vec<Step> = Vec::new();
    let mut i: usize = 0;
    while i < formats.len()
        invariant
            i <= formats@.len(),
            out@ == formats@.take(i as int).map_values(|f: ReportFormat| issue_step(f)),
        decreases formats@.len() - i,
    {
        let step = match formats[i] {
            ReportFormat::Web => Step::Delegate { web: true },
            ReportFormat::Gh => Step::Delegate { web: false },
            ReportFormat::Table => Step::Delegate { web: false },
            g => Step::Unsupported(g),
        };
        out.push(step);
        assert(out@ =~= formats@.take(i + 1).map_values(|f: ReportFormat| issue_step(f)));
        i = i + 1;
    }
    assert(formats@.take(i as int) =~= formats@);
    out
}

/// Issues in the given repositories with all the given labels; those labelled `action` only
/// when actions are asked for or `action` is among the labels.
pub fn issues(
    repos: &Vec<String>,
    assignee: &AssigneeQuery,
    labels: &Vec<String>,
    closed: bool,
    actions: bool,
    report_formats: &Vec<ReportFormat>,
    verbose: bool,
) -> (r: Report)
    ensures
        r.query.model() == (QueryModel {
            task_name: "Issues"@,
            verbose,
            include_closed: closed,
            repos: views(repos@),
            labels: views(labels@),
            not_labels: if actions || views(labels@).contains("action"@) {
                Seq::empty()
            } else {
                seq!["action"@]
            },
            extra: assignee_args(*assignee),
            not_author: None,
        }),
        r.steps@ == report_formats@.map_values(|f: ReportFormat| issue_step(f)),
{
    let mut query = Query::new("Issues", verbose);
    query.labels(labels);
    let action = String::from_str("action");
    if !actions && !contains_string(labels, &action) {
        query.not_label("action");
    }
    query.repos(repos);
    query.include_closed(closed);
    query.assignee(assignee);
    proof {
        assert(Seq::<Seq<char>>::empty() + views(labels@) =~= views(labels@));
        assert(Seq::<Seq<char>>::empty() + views(repos@) =~= views(repos@));
        assert(Seq::<Seq<char>>::empty() + assignee_args(*assignee) =~= assignee_args(*assignee));
        assert(Seq::<Seq<char>>::empty().push("action"@) =~= seq!["action"@]);
    }
    Report { query, steps: plan_issue_formats(report_formats) }
}

/// Action issues (labelled `action` and all the given labels) in the given repositories.
pub fn actions(
    repos: &Vec<String>,
    assignee: &AssigneeQuery,
    labels: &Vec<String>,
    closed: bool,
    report_formats: &Vec<ReportFormat>,
    verbose: bool,
) -> (r: Report)
    ensures
        r.query.model() == (QueryModel {
            task_name: "Actions"@,
            verbose,
            include_closed: closed,
            repos: views(repos@),
            labels: views(labels@).push("action"@),
            not_labels: Seq::empty(),
            extra: assignee_args(*assignee),
            not_author: None,
        }),
        r.steps@ == steps_from(report_formats@, false),
{
    let mut query = Query::new("Actions", verbose);
    query.repos(repos);
    query.assignee(assignee);
    query.labels(labels);
    query.label("action");
    query.include_closed(closed);
    proof {
        assert(Seq::<Seq<char>>::empty() + views(labels@) =~= views(labels@));
        assert(Seq::<Seq<char>>::empty() + views(repos@) =~= views(repos@));
        assert(Seq::<Seq<char>>::empty() + assignee_args(*assignee) =~= assignee_args(*assignee));
    }
    Report { query, steps: plan_formats(report_formats) }
}

/// Spec review requests in the given repository.
pub fn specs(repo: &str, assignee: &AssigneeQuery, report_formats: &Vec<ReportFormat>, verbose: bool) -> (r: Report)
    ensures
        r.query.model() == (QueryModel {
            task_name: "Specs"@,
            verbose,
            include_closed: false,
            repos: seq![repo@],
            labels: Seq::empty(),
            not_labels: Seq::empty(),
            extra: assignee_args(*assignee),
            not_author: None,
        }),
        r.steps@ == steps_from(report_formats@, false),
{
    let mut query = Query::new("Specs", verbose);
    query.repo(repo);
    query.assignee(assignee);
    proof {
        assert(Seq::<Seq<char>>::empty().push(repo@) =~= seq![repo@]);
        assert(Seq::<Seq<char>>::empty() + assignee_args(*assignee) =~= assignee_args(*assignee));
    }
    Report { query, steps: plan_formats(report_formats) }
}

/// The label that asks for one spec.
pub open spec fn spec_filter(spec: Option<Seq<char>>) -> Seq<Seq<char>> {
    match spec {
        Some(s) => seq!["s:"@ + s],
        None => Seq::empty(),
    }
}

fn review_query(
    task_name: &str,
    repo: &str,
    status: &Vec<String>,
    not_status: &Vec<String>,
    spec: &Option<String>,
    assignee: &AssigneeQuery,
    verbose: bool,
) -> (q: Query)
    ensures
        q.model() == (QueryModel {
            task_name: task_name@,
            verbose,
            include_closed: false,
            repos: seq![repo@],
            labels: spec_filter(
                match spec {
                    Some(s) => Some(s@),
                    None => None,
                },
            ) + views(status@),
            not_labels: views(not_status@),
            extra: assignee_args(*assignee),
            not_author: None,
        }),
{
    let mut query = Query::new(task_name, verbose);
    match spec {
        Some(s) => {
            let mut l = String::from_str("s:");
            l.append(s.as_str());
            query.label(l.as_str());
        },
        None => {},
    }
    query.labels(status);
    query.not_labels(not_status);
    query.repo(repo);
    query.assignee(assignee);
    proof {
        assert(Seq::<Seq<char>>::empty().push(repo@) =~= seq![repo@]);
        assert(Seq::<Seq<char>>::empty() + assignee_args(*assignee) =~= assignee_args(*assignee));
        assert(Seq::<Seq<char>>::empty() + views(not_status@) =~= views(not_status@));
        match spec {
            Some(s) => {
                assert(Seq::<Seq<char>>::empty().push("s:"@ + s@) =~= seq!["s:"@ + s@]);
            },
            None => {
                assert(Seq::<Seq<char>>::empty() + views(status@) =~= views(status@));
            },
        }
    }
    query
}

/// Comment review requests in the given repository, with all of the `status` labels and none
/// of the `not_status` ones, optionally for one spec and from one origin.
pub fn comments(
    repo: &str,
    status: &Vec<String>,
    not_status: &Vec<String>,
    spec: &Option<String>,
    assignee: &AssigneeQuery,
    origin: &OriginQuery,
    report_formats: &Vec<ReportFormat>,
    verbose: bool,
) -> (r: Report)
    ensures
        r.query.model() == with_origin(
            QueryModel {
                task_name: "Comments"@,
                verbose,
                include_closed: false,
                repos: seq![repo@],
                labels: spec_filter(
                    match spec {
                        Some(s) => Some(s@),
                        None => None,
                    },
                ) + views(status@),
                not_labels: views(not_status@),
                extra: assignee_args(*assignee),
                not_author: None,
            },
            *origin,
        ),
        r.steps@ == steps_from(report_formats@, false),
{
    let mut query = review_query("Comments", repo, status, not_status, spec, assignee, verbose);
    query.origin(origin);
    Report { query, steps: plan_formats(report_formats) }
}

/// Design review requests in the given repository, with all of the `status` labels and none
/// of the `not_status` ones, optionally for one spec.
pub fn designs(
    repo: &str,
    status: &Vec<String>,
    not_status: &Vec<String>,
    spec: &Option<String>,
    assignee: &AssigneeQuery,
    report_formats: &Vec<ReportFormat>,
    verbose: bool,
) -> (r: Report)
    ensures
        r.query.model() == (QueryModel {
            task_name: "Designs"@,
            verbose,
            include_closed: false,
            repos: seq![repo@],
            labels: spec_filter(
                match spec {
                    Some(s) => Some(s@),
                    None => None,
                },
            ) + views(status@),
            not_labels: views(not_status@),
            extra: assignee_args(*assignee),
            not_author: None,
        }),
        r.steps@ == steps_from(report_formats@, false),
{
    let query = review_query("Designs", repo, status, not_status, spec, assignee, verbose);
    Report { query, steps: plan_formats(report_formats) }
}

/// Charter review requests in the given repository, with all of the `status` labels and none
/// of the `not_status` ones.
pub fn charters(
    repo: &str,
    status: &Vec<String>,
    not_status: &Vec<String>,
    report_formats: &Vec<ReportFormat>,
    verbose: bool,
) -> (r: Report)
    ensures
        r.query.model() == (QueryModel {
            task_name: "Charters"@,
            verbose,
            include_closed: false,
            repos: seq![repo@],
            labels: seq!["charter"@, "Horizontal review requested"@] + views(status@),
            not_labels: views(not_status@),
            extra: Seq::empty(),
            not_author: None,
        }),
        r.steps@ == steps_from(report_formats@, false),
{
    let mut query = Query::new("Charters", verbose);
    query.label("charter");
    query.label("Horizontal review requested");
    query.labels(status);
    query.not_labels(not_status);
    query.repo(repo);
    proof {
        assert(Seq::<Seq<char>>::empty().push(repo@) =~= seq![repo@]);
        assert(Seq::<Seq<char>>::empty() + views(not_status@) =~= views(not_status@));
        assert(Seq::<Seq<char>>::empty().push("charter"@).push("Horizontal review requested"@)
            =~= seq!["charter"@, "Horizontal review requested"@]);
    }
    Report { query, steps: plan_formats(report_formats) }
}

/// What a horizontal review command does: open one request in the browser, by its locator, or
/// list the requests in a repository.
#[derive(Debug, Clone, PartialEq, Eq)]
pub enum ReviewTarget {
    Open(String),
    List(String),
}

/// Chooses what a horizontal review command does, given the group's repository for that kind
/// of review (if it does such reviews) and the request number to open, if one was given.
pub fn comments_or_specs(group_name: &str, org_and_repo: Option<&String>, open_number: Option<u32>) -> (r: Result<
    ReviewTarget,
    String,
>)
    ensures
        match org_and_repo {
            None => r matches Err(m) && m@ == "'"@ + group_name@
                + "' doesn't do this kind of horizontal review"@,
            Some(repo) => match open_number {
                Some(n) => r matches Ok(ReviewTarget::Open(l)) && l@ == repo@ + "#"@ + decimal(
                    n as nat,
                ),
                None => r matches Ok(ReviewTarget::List(l)) && l@ == repo@,
            },
        },
{
    match org_and_repo {
        None => {
            let mut m = String::from_str("'");
            m.append(group_name);
            m.append("' doesn't do this kind of horizontal review");
            Err(m)
        },
        Some(repo) => match open_number {
            Some(n) => {
                let mut l = repo.clone();
                l.append("#");
                append_decimal(&mut l, n);
                Ok(ReviewTarget::Open(l))
            },
            None => Ok(ReviewTarget::List(repo.clone())),
        },
    }
}

} // verus!
