//! Meeting notes: one block per item, between markers that pause and resume the meeting bot,
//! for pasting into the meeting's text channel.
use vstd::prelude::*;
use vstd::string::*;

use crate::date::{date_text, Date};
use crate::issue::assignees_text;
use crate::requests::{Action, CharterReviewRequest, CommentReviewRequest, SpecReviewRequest};
use crate::text::{append_decimal, decimal};

verus! {

pub open spec fn issue_url(repo: Seq<char>, number: nat) -> Seq<char> {
    "https://github.com/"@ + repo + "/issues/"@ + decimal(number)
}

pub open spec fn due_or_none(d: Option<Date>) -> Seq<char> {
    match d {
        Some(d) => date_text(d.ymd().0, d.ymd().1, d.ymd().2),
        None => "(no date)"@,
    }
}

pub open spec fn action_block(a: Action) -> Seq<char> {
    "subtopic: "@ + a.issue.title@ + "\n"@ + issue_url(a.issue.repository.name_with_owner@, a.issue.number as nat)
        + "\nDue: "@ + due_or_none(a.due) + "\nAssignees: "@ + assignees_text(a.issue.assignees@) + "\n\n"@
}

pub open spec fn action_blocks(s: Seq<Action>) -> Seq<char>
    decreases s.len(),
{
    if s.len() == 0 {
        Seq::empty()
    } else {
        action_blocks(s.drop_last()) + action_block(s.last())
    }
}

pub open spec fn spec_block(repo: Seq<char>, r: SpecReviewRequest) -> Seq<char> {
    "subtopic: "@ + r.spec@ + "\n"@ + issue_url(repo, r.number as nat) + "\nDue: "@ + date_text(
        r.due.ymd().0,
        r.due.ymd().1,
        r.due.ymd().2,
    ) + "\n\n"@
}

pub open spec fn spec_blocks(repo: Seq<char>, s: Seq<SpecReviewRequest>) -> Seq<char>
    decreases s.len(),
{
    if s.len() == 0 {
        Seq::empty()
    } else {
        spec_blocks(repo, s.drop_last()) + spec_block(repo, s.last())
    }
}

pub open spec fn charter_block(repo: Seq<char>, r: CharterReviewRequest) -> Seq<char> {
    "subtopic: "@ + r.title@ + "\n"@ + issue_url(repo, r.tracking_number as nat) + "\n\n"@
}

pub open spec fn charter_blocks(repo: Seq<char>, s: Seq<CharterReviewRequest>) -> Seq<char>
    decreases s.len(),
{
    if s.len() == 0 {
        Seq::empty()
    } else {
        charter_blocks(repo, s.drop_last()) + charter_block(repo, s.last())
    }
}

pub open spec fn comment_block(repo: Seq<char>, r: CommentReviewRequest) -> Seq<char> {
    "subtopic: "@ + r.title@ + "\nsource: "@ + r.source@ + "\ntracking: "@ + issue_url(repo, r.id as nat)
        + "\n\n"@
}

pub open spec fn comment_blocks(repo: Seq<char>, s: Seq<CommentReviewRequest>) -> Seq<char>
    decreases s.len(),
{
    if s.len() == 0 {
        Seq::empty()
    } else {
        comment_blocks(repo, s.drop_last()) + comment_block(repo, s.last())
    }
}

fn append_url(out: &mut String, repo: &str, number: u32)
    ensures
        final(out)@ == old(out)@ + issue_url(repo@, number as nat),
{
    out.append("https://github.com/");
    out.append(repo);
    out.append("/issues/");
    append_decimal(out, number);
    assert(final(out)@ =~= old(out)@ + issue_url(repo@, number as nat));
}

fn action_block_text(a: &Action) -> (r: String)
    requires
        a.due matches Some(d) ==> d.wf(),
    ensures
        r@ == action_block(*a),
{
    let mut out = String::from_str("subtopic: ");
    out.append(a.issue.title.as_str());
    out.append("\n");
    append_url(&mut out, a.issue.repository.name_with_owner.as_str(), a.issue.number);
    out.append("\nDue: ");
    let due = match &a.due {
        Some(d) => d.to_string(),
        None => String::from_str("(no date)"),
    };
    out.append(due.as_str());
    out.append("\nAssignees: ");
    let people = crate::issue::flatten_assignees(&a.issue.assignees);
    out.append(people.as_str());
    out.append("\n\n");
    assert(out@ =~= action_block(*a));
    out
}

/// Meeting notes for actions: title, link, due date and assignees of each.
pub fn actions_meeting(actions: &Vec<Action>) -> (r: String)
    requires
        forall|i: int| 0 <= i < actions@.len() ==> ((#[trigger] actions@[i]).due matches Some(d) ==> d.wf()),
    ensures
        r@ == "gb, off\n\n"@ + action_blocks(actions@) + "gb, on\n"@,
{
    let mut out = String::from_str("gb, off\n\n");
    let mut i: usize = 0;
    while i < actions.len()
        invariant
            i <= actions@.len(),
            forall|j: int| 0 <= j < actions@.len() ==> ((#[trigger] actions@[j]).due matches Some(d) ==> d.wf()),
            out@ == "gb, off\n\n"@ + action_blocks(actions@.take(i as int)),
        decreases actions@.len() - i,
    {
        let a = &actions[i];
        let ghost before = out@;
        let block = action_block_text(a);
        out.append(block.as_str());
        assert(actions@.take(i + 1).drop_last() =~= actions@.take(i as int));
        assert(out@ =~= before + action_block(*a));
        i = i + 1;
    }
    assert(actions@.take(i as int) =~= actions@);
    out.append("gb, on\n");
    out
}

/// Meeting notes for spec reviews in `repo`: spec, link and due date of each.
pub fn specs_meeting(repo: &str, requests: &Vec<SpecReviewRequest>) -> (r: String)
    requires
        forall|i: int| 0 <= i < requests@.len() ==> (#[trigger] requests@[i]).due.wf(),
    ensures
        r@ == "gb, off\n"@ + spec_blocks(repo@, requests@) + "gb, on\n"@,
{
    let mut out = String::from_str("gb, off\n");
    let mut i: usize = 0;
    while i < requests.len()
        invariant
            i <= requests@.len(),
            forall|j: int| 0 <= j < requests@.len() ==> (#[trigger] requests@[j]).due.wf(),
            out@ == "gb, off\n"@ + spec_blocks(repo@, requests@.take(i as int)),
        decreases requests@.len() - i,
    {
        let r = &requests[i];
        let ghost before = out@;
        out.append("subtopic: ");
        out.append(r.spec.as_str());
        out.append("\n");
        append_url(&mut out, repo, r.number);
        out.append("\nDue: ");
        let due = r.due.to_string();
        out.append(due.as_str());
        out.append("\n\n");
        assert(requests@.take(i + 1).drop_last() =~= requests@.take(i as int));
        assert(out@ =~= before + spec_block(repo@, *r));
        i = i + 1;
    }
    assert(requests@.take(i as int) =~= requests@);
    out.append("gb, on\n");
    out
}

/// Meeting notes for charter reviews in `repo`: title and link of each.
pub fn charters_meeting(repo: &str, requests: &Vec<CharterReviewRequest>) -> (r: String)
    ensures
        r@ == "gb, off\n\n"@ + charter_blocks(repo@, requests@) + "gb, on\n"@,
{
    let mut out = String::from_str("gb, off\n\n");
    let mut i: usize = 0;
    while i < requests.len()
        invariant
            i <= requests@.len(),
            out@ == "gb, off\n\n"@ + charter_blocks(repo@, requests@.take(i as int)),
        decreases requests@.len() - i,
    {
        let r = &requests[i];
        let ghost before = out@;
        out.append("subtopic: ");
        out.append(r.title.as_str());
        out.append("\n");
        append_url(&mut out, repo, r.tracking_number);
        out.append("\n\n");
        assert(requests@.take(i + 1).drop_last() =~= requests@.take(i as int));
        assert(out@ =~= before + charter_block(repo@, *r));
        i = i + 1;
    }
    assert(requests@.take(i as int) =~= requests@);
    out.append("gb, on\n");
    out
}

/// Meeting notes for comment or design reviews tracked in `repo`: title, source issue and
/// tracking link of each.
pub fn comments_meeting(repo: &str, requests: &Vec<CommentReviewRequest>) -> (r: String)
    ensures
        r@ == "gb, off\n\n"@ + comment_blocks(repo@, requests@) + "gb, on\n"@,
{
    let mut out = String::from_str("gb, off\n\n");
    let mut i: usize = 0;
    while i < requests.len()
        invariant
            i <= requests@.len(),
            out@ == "gb, off\n\n"@ + comment_blocks(repo@, requests@.take(i as int)),
        decreases requests@.len() - i,
    {
        let r = &requests[i];
        let ghost before = out@;
        out.append("subtopic: ");
        out.append(r.title.as_str());
        out.append("\nsource: ");
        out.append(r.source.as_str());
        out.append("\ntracking: ");
        append_url(&mut out, repo, r.id);
        out.append("\n\n");
        assert(requests@.take(i + 1).drop_last() =~= requests@.take(i as int));
        assert(out@ =~= before + comment_block(repo@, *r));
        i = i + 1;
    }
    assert(requests@.take(i as int) =~= requests@);
    out.append("gb, on\n");
    out
}

} // verus!
