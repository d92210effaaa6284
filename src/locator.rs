//! Compact references to one tracked issue, `owner/repo#number`.
use vstd::prelude::*;
use vstd::string::*;

use crate::text::{
    append_decimal, chars_of, decimal, find_char, is_first, lemma_first_unique, number_text,
    parse_u32, string_of,
};

verus! {

/// Locates one issue: its repository's owner and name, and its number.
#[derive(Debug, PartialEq, Eq)]
pub struct Locator {
    owner: String,
    repo: String,
    issue: u32,
}

/// A string that is not a well-formed locator.
#[derive(Debug, PartialEq, Eq)]
pub struct LocatorError;

/// `s` reads as the locator with these parts: the owner runs up to the first `/`, the repository
/// from there to the first `#`, and the issue number is the rest; neither name is empty, and the
/// number is a positive decimal.
pub open spec fn locator_parts(s: Seq<char>, owner: Seq<char>, repo: Seq<char>, issue: nat) -> bool {
    exists|i: int, j: int|
        {
            &&& is_first(s, '/', i)
            &&& is_first(s, '#', j)
            &&& i < j
            &&& owner == s.take(i)
            &&& repo == s.subrange(i + 1, j)
            &&& owner.len() > 0
            &&& repo.len() > 0
            &&& number_text(s.skip(j + 1)) == Some(issue)
            &&& issue > 0
        }
}

pub open spec fn url_text(owner: Seq<char>, repo: Seq<char>, issue: nat) -> Seq<char> {
    "https://github.com/"@ + owner + "/"@ + repo + "/issues/"@ + decimal(issue)
}

pub open spec fn locator_text(owner: Seq<char>, repo: Seq<char>, issue: nat) -> Seq<char> {
    owner + "/"@ + repo + "#"@ + decimal(issue)
}

impl Locator {
    pub closed spec fn owner_view(&self) -> Seq<char> {
        self.owner@
    }

    pub closed spec fn repo_view(&self) -> Seq<char> {
        self.repo@
    }

    pub closed spec fn issue_view(&self) -> nat {
        self.issue as nat
    }

    /// Reads a locator such as `w3c/apa#42`.
    pub fn from_str(s: &str) -> (r: Result<Locator, LocatorError>)
        ensures
            r matches Ok(l) ==> locator_parts(s@, l.owner_view(), l.repo_view(), l.issue_view()),
            r is Err ==> forall|o: Seq<char>, p: Seq<char>, n: u32|
                !#[trigger] locator_parts(s@, o, p, n as nat),
    {
        let cs = chars_of(s);
        let slash = match find_char(&cs, '/') {
            Some(i) => i,
            None => {
                return Err(LocatorError);
            },
        };
        let hash = match find_char(&cs, '#') {
            Some(j) => j,
            None => {
                return Err(LocatorError);
            },
        };
        proof {
            assert forall|i: int| is_first(s@, '/', i) implies i == slash by {
                lemma_first_unique(s@, '/', slash as int, i);
            }
            assert forall|j: int| is_first(s@, '#', j) implies j == hash by {
                lemma_first_unique(s@, '#', hash as int, j);
            }
        }
        if hash <= slash + 1 || slash == 0 {
            return Err(LocatorError);
        }
        let owner = string_of(&cs, 0, slash);
        let repo = string_of(&cs, slash + 1, hash);
        assert(cs@.subrange(hash + 1, cs@.len() as int) =~= s@.skip(hash + 1));
        assert(owner@ =~= s@.take(slash as int));
        match parse_u32(&cs, hash + 1, cs.len()) {
            Some(issue) => {
                if issue == 0 {
                    return Err(LocatorError);
                }
                Ok(Locator { owner, repo, issue })
            },
            None => Err(LocatorError),
        }
    }

    pub fn owner(&self) -> (r: &String)
        ensures
            r@ == self.owner_view(),
    {
        &self.owner
    }

    pub fn repo(&self) -> (r: &String)
        ensures
            r@ == self.repo_view(),
    {
        &self.repo
    }

    pub fn issue(&self) -> (r: u32)
        ensures
            r as nat == self.issue_view(),
    {
        self.issue
    }

    /// The HTTPS address of the issue's page.
    pub fn url(&self) -> (r: String)
        ensures
            r@ == url_text(self.owner_view(), self.repo_view(), self.issue_view()),
    {
        let mut r = String::from_str("https://github.com/");
        r.append(self.owner.as_str());
        r.append("/");
        r.append(self.repo.as_str());
        r.append("/issues/");
        append_decimal(&mut r, self.issue);
        r
    }

    /// The locator written back in its compact form.
    pub fn to_string(&self) -> (r: String)
        ensures
            r@ == locator_text(self.owner_view(), self.repo_view(), self.issue_view()),
    {
        let mut r = String::new();
        r.append(self.owner.as_str());
        r.append("/");
        r.append(self.repo.as_str());
        r.append("#");
        append_decimal(&mut r, self.issue);
        assert(r@ =~= locator_text(self.owner_view(), self.repo_view(), self.issue_view()));
        r
    }
}

} // verus!
