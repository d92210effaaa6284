//! Origin labels: the spec or group that a request relates to, read from an issue label such as
//! `s:html` or `wg:apa`.
use vstd::prelude::*;
use vstd::string::*;

use crate::text::{
    chars_of, contains_string, find_char, is_first, lemma_first_unique, string_of, trim,
    trimmed_end, trimmed_start, views,
};

verus! {

/// Which labels name an origin of one category: those whose text before the first `:` is one of
/// `prefixes`, and those equal to one of `wholes`.
pub struct OriginSyntax {
    prefixes: Vec<String>,
    wholes: Vec<String>,
}

/// The origin that the label `l` names: a whole-label literal stands for itself; otherwise the
/// text after the first `:`, trimmed, when the text before it is an accepted prefix.
pub open spec fn origin_of(prefixes: Seq<Seq<char>>, wholes: Seq<Seq<char>>, l: Seq<char>) -> Option<
    Seq<char>,
> {
    if wholes.contains(l) {
        Some(l)
    } else if exists|i: int| is_first(l, ':', i) && prefixes.contains(l.take(i)) {
        let i = choose|i: int| is_first(l, ':', i);
        Some(trim(l.skip(i + 1)))
    } else {
        None
    }
}

/// What an origin syntax accepts.
pub struct SyntaxView {
    pub prefixes: Seq<Seq<char>>,
    pub wholes: Seq<Seq<char>>,
}

/// The origin that `l` names under the syntax `v`.
pub open spec fn origin_in(v: SyntaxView, l: Seq<char>) -> Option<Seq<char>> {
    origin_of(v.prefixes, v.wholes, l)
}

pub open spec fn comment_spec_syntax() -> SyntaxView {
    SyntaxView { prefixes: seq!["s"@], wholes: Seq::empty() }
}

pub open spec fn group_syntax() -> SyntaxView {
    SyntaxView { prefixes: seq!["wg"@, "cg"@, "ig"@, "bg"@, "Venue"@], wholes: seq!["whatwg"@] }
}

pub open spec fn design_spec_syntax() -> SyntaxView {
    SyntaxView { prefixes: seq!["s"@, "Topic"@], wholes: Seq::empty() }
}

impl OriginSyntax {
    pub open spec fn view_of(&self) -> SyntaxView {
        SyntaxView { prefixes: self.prefixes_view(), wholes: self.wholes_view() }
    }

    pub closed spec fn prefixes_view(&self) -> Seq<Seq<char>> {
        views(self.prefixes@)
    }

    pub closed spec fn wholes_view(&self) -> Seq<Seq<char>> {
        views(self.wholes@)
    }

    pub fn new(prefixes: Vec<String>, wholes: Vec<String>) -> (r: OriginSyntax)
        ensures
            r.prefixes_view() == views(prefixes@),
            r.wholes_view() == views(wholes@),
    {
        OriginSyntax { prefixes, wholes }
    }

    /// Spec labels of comment review requests: `s:<spec>`.
    pub fn comment_spec() -> (r: OriginSyntax)
        ensures
            r.prefixes_view() == seq!["s"@],
            r.wholes_view() == Seq::<Seq<char>>::empty(),
    {
        let r = OriginSyntax { prefixes: vec![String::from_str("s")], wholes: Vec::new() };
        assert(r.prefixes_view() =~= seq!["s"@]);
        assert(r.wholes_view() =~= Seq::<Seq<char>>::empty());
        r
    }

    /// Group labels of comment review requests: `wg:`, `cg:`, `ig:`, `bg:`, `Venue:`, or the
    /// bare `whatwg`.
    pub fn comment_group() -> (r: OriginSyntax)
        ensures
            r.prefixes_view() == seq!["wg"@, "cg"@, "ig"@, "bg"@, "Venue"@],
            r.wholes_view() == seq!["whatwg"@],
    {
        let r = OriginSyntax {
            prefixes: vec![
                String::from_str("wg"),
                String::from_str("cg"),
                String::from_str("ig"),
                String::from_str("bg"),
                String::from_str("Venue"),
            ],
            wholes: vec![String::from_str("whatwg")],
        };
        assert(r.prefixes_view() =~= seq!["wg"@, "cg"@, "ig"@, "bg"@, "Venue"@]);
        assert(r.wholes_view() =~= seq!["whatwg"@]);
        r
    }

    /// Spec labels of design review requests: `s:<spec>` or `Topic: <spec>`.
    pub fn design_spec() -> (r: OriginSyntax)
        ensures
            r.prefixes_view() == seq!["s"@, "Topic"@],
            r.wholes_view() == Seq::<Seq<char>>::empty(),
    {
        let r = OriginSyntax {
            prefixes: vec![String::from_str("s"), String::from_str("Topic")],
            wholes: Vec::new(),
        };
        assert(r.prefixes_view() =~= seq!["s"@, "Topic"@]);
        assert(r.wholes_view() =~= Seq::<Seq<char>>::empty());
        r
    }

    /// Group labels of design review requests: as for comments.
    pub fn design_group() -> (r: OriginSyntax)
        ensures
            r.prefixes_view() == seq!["wg"@, "cg"@, "ig"@, "bg"@, "Venue"@],
            r.wholes_view() == seq!["whatwg"@],
    {
        OriginSyntax::comment_group()
    }

    /// The origin that `label` names, if it is one of this category.
    pub fn parse(&self, label: &str) -> (r: Option<String>)
        ensures
            r is Some == origin_of(self.prefixes_view(), self.wholes_view(), label@) is Some,
            r matches Some(v) ==> origin_of(self.prefixes_view(), self.wholes_view(), label@)
                == Some(v@),
    {
        let whole = String::from_str(label);
        if contains_string(&self.wholes, &whole) {
            return Some(whole);
        }
        let cs = chars_of(label);
        let n = cs.len();
        match find_char(&cs, ':') {
            None => {
                assert(!exists|i: int| is_first(label@, ':', i));
                None
            },
            Some(i) => {
                let prefix = string_of(&cs, 0, i);
                assert(prefix@ =~= label@.take(i as int));
                proof {
                    assert forall|j: int| is_first(label@, ':', j) implies j == i by {
                        lemma_first_unique(label@, ':', i as int, j);
                    }
                }
                if contains_string(&self.prefixes, &prefix) {
                    let e = trimmed_end(&cs, i + 1, cs.len());
                    let b = trimmed_start(&cs, i + 1, e);
                    assert(cs@.subrange(i + 1, cs@.len() as int) =~= label@.skip(i + 1));
                    Some(string_of(&cs, b, e))
                } else {
                    None
                }
            },
        }
    }
}

} // verus!
