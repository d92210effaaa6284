//! Status flags: a table of named flags per report kind, with single-character abbreviations
//! and a symmetric conflict relation, and the per-request set of flags read from its labels.
use vstd::prelude::*;
use vstd::string::*;

use crate::text::{chars_of, push_char, views};

verus! {

/// A table of status flags for one kind of report.
///
/// Flag `i` is matched against issue labels by `labels[i]` and abbreviated by `flags[i]`.
/// Each pair in `conflicts` declares that two flags cannot be set together; the relation is
/// read in both directions, whichever flag declared it.
pub struct Taxonomy {
    labels: Vec<String>,
    flags: Vec<char>,
    conflicts: Vec<(usize, usize)>,
}

/// Why a flag table was refused.
#[derive(Debug, PartialEq, Eq)]
pub enum TaxonomyError {
    /// The labels and the abbreviations differ in number.
    LengthMismatch,
    /// A conflict names a flag that does not exist, or a flag and itself.
    BadConflict,
}

/// An abbreviation was given that names no flag; the message lists the valid ones.
#[derive(Debug, PartialEq, Eq)]
pub struct ParseFlagError {
    message: String,
}

impl ParseFlagError {
    pub closed spec fn text(&self) -> Seq<char> {
        self.message@
    }

    pub fn new(message: String) -> (r: ParseFlagError)
        ensures
            r.text() == message@,
    {
        ParseFlagError { message }
    }

    pub fn message(&self) -> (r: &String)
        ensures
            r@ == self.text(),
    {
        &self.message
    }
}

pub open spec fn pairs_valid(n: int, conflicts: Seq<(usize, usize)>) -> bool {
    forall|k: int|
        0 <= k < conflicts.len() ==> {
            &&& (#[trigger] conflicts[k]).0 < n
            &&& conflicts[k].1 < n
            &&& conflicts[k].0 != conflicts[k].1
        }
}

impl Taxonomy {
    pub closed spec fn labels_view(&self) -> Seq<Seq<char>> {
        views(self.labels@)
    }

    pub closed spec fn flags_view(&self) -> Seq<char> {
        self.flags@
    }

    pub closed spec fn pairs(&self) -> Seq<(usize, usize)> {
        self.conflicts@
    }

    pub open spec fn len(&self) -> int {
        self.flags_view().len() as int
    }

    pub open spec fn label(&self, i: int) -> Seq<char> {
        self.labels_view()[i]
    }

    pub open spec fn flag(&self, i: int) -> char {
        self.flags_view()[i]
    }

    pub open spec fn wf(&self) -> bool {
        &&& self.labels_view().len() == self.flags_view().len()
        &&& pairs_valid(self.len(), self.pairs())
    }

    /// Flags `i` and `j` may not be set together: some declared pair joins them, in either order.
    pub open spec fn conflicting(&self, i: int, j: int) -> bool {
        exists|k: int|
            0 <= k < self.pairs().len() && ((#[trigger] self.pairs()[k]).0 == i && self.pairs()[k].1
                == j || self.pairs()[k].0 == j && self.pairs()[k].1 == i)
    }

    /// `i` is the first flag abbreviated by `c`.
    pub open spec fn first_with_flag(&self, c: char, i: int) -> bool {
        &&& 0 <= i < self.len()
        &&& self.flag(i) == c
        &&& forall|j: int| 0 <= j < i ==> self.flag(j) != c
    }

    /// The label that the abbreviation `c` stands for.
    pub open spec fn label_for_flag(&self, c: char) -> Option<Seq<char>> {
        if exists|i: int| 0 <= i < self.len() && self.flag(i) == c {
            Some(self.label(choose|i: int| self.first_with_flag(c, i)))
        } else {
            None
        }
    }

    /// `i` is the first flag matched by the label `l`.
    pub open spec fn first_with_label(&self, l: Seq<char>, i: int) -> bool {
        &&& 0 <= i < self.len()
        &&& self.label(i) == l
        &&& forall|j: int| 0 <= j < i ==> self.label(j) != l
    }

    /// The abbreviation of the flag that the label `l` names.
    pub open spec fn flag_for_label(&self, l: Seq<char>) -> Option<char> {
        if exists|i: int| 0 <= i < self.len() && self.label(i) == l {
            Some(self.flag(choose|i: int| self.first_with_label(l, i)))
        } else {
            None
        }
    }

    /// `" "` and the label of each flag `j < upto` that conflicts with flag `i`, in table order.
    pub open spec fn conflict_text(&self, i: int, upto: int) -> Seq<char>
        decreases upto,
    {
        if upto <= 0 {
            Seq::empty()
        } else {
            self.conflict_text(i, upto - 1) + if self.conflicting(i, upto - 1) {
                seq![' '] + self.label(upto - 1)
            } else {
                Seq::empty()
            }
        }
    }

    /// One line of the listing: `c: label`, then the conflicting labels if there are any
    /// (the conflict text is non-empty exactly when some flag conflicts with this one).
    pub open spec fn flag_line(&self, i: int) -> Seq<char> {
        let c = self.conflict_text(i, self.len());
        seq![self.flag(i)] + ": "@ + self.label(i) + if c.len() > 0 {
            " (conflicts with:"@ + c + ")"@
        } else {
            Seq::empty()
        }
    }

    /// The lines of flags `0..upto`, separated by line feeds.
    pub open spec fn listing(&self, upto: int) -> Seq<char>
        decreases upto,
    {
        if upto <= 0 {
            Seq::empty()
        } else if upto == 1 {
            self.flag_line(0)
        } else {
            self.listing(upto - 1) + "\n"@ + self.flag_line(upto - 1)
        }
    }

    /// Builds a table; the conflict pairs are indices into the labels.
    pub fn new(labels: Vec<String>, flags: Vec<char>, conflicts: Vec<(usize, usize)>) -> (r: Result<
        Taxonomy,
        TaxonomyError,
    >)
        ensures
            labels@.len() != flags@.len() ==> r == Err::<Taxonomy, TaxonomyError>(
                TaxonomyError::LengthMismatch,
            ),
            labels@.len() == flags@.len() && !pairs_valid(flags@.len() as int, conflicts@) ==> r
                == Err::<Taxonomy, TaxonomyError>(TaxonomyError::BadConflict),
            r is Ok <==> labels@.len() == flags@.len() && pairs_valid(
                flags@.len() as int,
                conflicts@,
            ),
            r matches Ok(t) ==> {
                &&& t.wf()
                &&& t.labels_view() == views(labels@)
                &&& t.flags_view() == flags@
                &&& t.pairs() == conflicts@
            },
    {
        if labels.len() != flags.len() {
            return Err(TaxonomyError::LengthMismatch);
        }
        let n = flags.len();
        let mut k: usize = 0;
        while k < conflicts.len()
            invariant
                n == flags@.len(),
                labels@.len() == flags@.len(),
                k <= conflicts@.len(),
                pairs_valid(n as int, conflicts@.take(k as int)),
            decreases conflicts@.len() - k,
        {
            let (a, b) = conflicts[k];
            if a >= n || b >= n || a == b {
                assert(!pairs_valid(n as int, conflicts@)) by {
                    assert(conflicts@[k as int] == (a, b));
                }
                return Err(TaxonomyError::BadConflict);
            }
            assert(pairs_valid(n as int, conflicts@.take(k + 1))) by {
                assert forall|m: int| 0 <= m < k + 1 implies {
                    &&& (#[trigger] conflicts@.take(k + 1)[m]).0 < n
                    &&& conflicts@.take(k + 1)[m].1 < n
                    &&& conflicts@.take(k + 1)[m].0 != conflicts@.take(k + 1)[m].1
                } by {
                    if m < k {
                        assert(conflicts@.take(k + 1)[m] == conflicts@.take(k as int)[m]);
                    }
                }
            }
            k = k + 1;
        }
        assert(conflicts@.take(k as int) =~= conflicts@);
        Ok(Taxonomy { labels, flags, conflicts })
    }

    fn from_parts(labels: Vec<String>, flags: Vec<char>, conflicts: Vec<(usize, usize)>) -> (t:
        Taxonomy)
        requires
            labels@.len() == flags@.len(),
            pairs_valid(flags@.len() as int, conflicts@),
        ensures
            t.wf(),
            t.labels_view() == views(labels@),
            t.flags_view() == flags@,
            t.pairs() == conflicts@,
    {
        Taxonomy { labels, flags, conflicts }
    }

    pub fn flag_count(&self) -> (n: usize)
        requires
            self.wf(),
        ensures
            n == self.len(),
    {
        self.flags.len()
    }

    /// Whether flags `i` and `j` conflict.
    pub fn conflicts_with(&self, i: usize, j: usize) -> (r: bool)
        requires
            self.wf(),
        ensures
            r == self.conflicting(i as int, j as int),
    {
        let mut k: usize = 0;
        while k < self.conflicts.len()
            invariant
                k <= self.conflicts@.len(),
                forall|m: int|
                    0 <= m < k ==> !((#[trigger] self.conflicts@[m]).0 == i && self.conflicts@[m].1
                        == j || self.conflicts@[m].0 == j && self.conflicts@[m].1 == i),
            decreases self.conflicts@.len() - k,
        {
            let (a, b) = self.conflicts[k];
            if (a == i && b == j) || (a == j && b == i) {
                assert(self.pairs()[k as int] == (a, b));
                return true;
            }
            k = k + 1;
        }
        assert(!self.conflicting(i as int, j as int)) by {
            assert forall|m: int| 0 <= m < self.pairs().len() implies !((
            #[trigger] self.pairs()[m]).0 == i && self.pairs()[m].1 == j || self.pairs()[m].0 == j
                && self.pairs()[m].1 == i) by {
                assert(self.pairs()[m] == self.conflicts@[m]);
            }
        }
        false
    }

    /// The label that a single-character abbreviation stands for.
    pub fn label_for(&self, flag: char) -> (r: Option<String>)
        requires
            self.wf(),
        ensures
            r is Some == self.label_for_flag(flag) is Some,
            r matches Some(l) ==> self.label_for_flag(flag) == Some(l@),
    {
        let mut i: usize = 0;
        while i < self.flags.len()
            invariant
                self.wf(),
                i <= self.flags@.len(),
                forall|j: int| 0 <= j < i ==> self.flags@[j] != flag,
            decreases self.flags@.len() - i,
        {
            if self.flags[i] == flag {
                let ghost c = choose|j: int| self.first_with_flag(flag, j);
                assert(self.first_with_flag(flag, i as int));
                assert(c == i) by {
                    if c < i {
                        assert(self.flag(c) == flag);
                    } else if c > i {
                        assert(self.flag(i as int) == flag);
                    }
                }
                let l = self.labels[i].clone();
                assert(self.label(i as int) == self.labels@[i as int]@);
                return Some(l);
            }
            i = i + 1;
        }
        assert(!exists|j: int| 0 <= j < self.len() && self.flag(j) == flag);
        None
    }

    /// The abbreviation of the flag that a label names.
    pub fn flag_for(&self, label: &str) -> (r: Option<char>)
        requires
            self.wf(),
        ensures
            r == self.flag_for_label(label@),
    {
        let l = String::from_str(label);
        let mut i: usize = 0;
        while i < self.labels.len()
            invariant
                self.wf(),
                l@ == label@,
                i <= self.labels@.len(),
                forall|j: int| 0 <= j < i ==> self.label(j) != label@,
            decreases self.labels@.len() - i,
        {
            assert(self.label(i as int) == self.labels@[i as int]@);
            if self.labels[i] == l {
                let ghost c = choose|j: int| self.first_with_label(label@, j);
                assert(self.first_with_label(label@, i as int));
                assert(c == i) by {
                    if c < i {
                        assert(self.label(c) == label@);
                    } else if c > i {
                        assert(self.label(i as int) == label@);
                    }
                }
                return Some(self.flags[i]);
            }
            i = i + 1;
        }
        None
    }

    /// Every flag with its abbreviation, label and conflicts, one per line, in table order.
    pub fn flags_labels_conflicts(&self) -> (r: String)
        requires
            self.wf(),
        ensures
            r@ == self.listing(self.len()),
    {
        let n = self.flags.len();
        let mut out = String::new();
        let mut i: usize = 0;
        while i < n
            invariant
                self.wf(),
                n == self.len(),
                i <= n,
                out@ == self.listing(i as int),
            decreases n - i,
        {
            if i > 0 {
                out.append("\n");
            }
            let line = self.flag_line_text(i);
            out.append(line.as_str());
            i = i + 1;
        }
        out
    }

    fn flag_line_text(&self, i: usize) -> (r: String)
        requires
            self.wf(),
            i < self.len(),
        ensures
            r@ == self.flag_line(i as int),
    {
        let n = self.flags.len();
        let mut conflicts = String::new();
        let mut j: usize = 0;
        while j < n
            invariant
                self.wf(),
                n == self.len(),
                i < n,
                j <= n,
                conflicts@ == self.conflict_text(i as int, j as int),
            decreases n - j,
        {
            if self.conflicts_with(i, j) {
                push_char(&mut conflicts, ' ');
                conflicts.append(self.labels[j].as_str());
                assert(self.label(j as int) == self.labels@[j as int]@);
                assert(conflicts@ =~= self.conflict_text(i as int, j + 1));
            } else {
                assert(conflicts@ =~= self.conflict_text(i as int, j + 1));
            }
            j = j + 1;
        }
        let mut line = String::new();
        push_char(&mut line, self.flags[i]);
        line.append(": ");
        line.append(self.labels[i].as_str());
        assert(self.label(i as int) == self.labels@[i as int]@);
        if conflicts.unicode_len() > 0 {
            line.append(" (conflicts with:");
            line.append(conflicts.as_str());
            line.append(")");
        }
        assert(line@ =~= self.flag_line(i as int));
        line
    }
}

impl Taxonomy {
    /// Expands a string of abbreviations (such as `"TAP"`) into the labels they stand for, in
    /// the same order; fails on the first character that abbreviates no flag.
    pub fn labels_for_flags(&self, abbreviated: &str) -> (r: Result<Vec<String>, ParseFlagError>)
        requires
            self.wf(),
        ensures
            r is Ok <==> forall|k: int|
                0 <= k < abbreviated@.len() ==> (#[trigger] self.label_for_flag(abbreviated@[k]))
                    is Some,
            r matches Ok(v) ==> v@.len() == abbreviated@.len() && forall|k: int|
                0 <= k < v@.len() ==> self.label_for_flag(abbreviated@[k]) == Some(
                    (#[trigger] v@[k])@,
                ),
            r matches Err(e) ==> e.text() == "Valid flags:\n"@ + self.listing(self.len()),
    {
        let cs = chars_of(abbreviated);
        let mut out: Vec<String> = Vec::new();
        let mut k: usize = 0;
        while k < cs.len()
            invariant
                self.wf(),
                cs@ == abbreviated@,
                k <= cs@.len(),
                out@.len() == k,
                forall|m: int|
                    0 <= m < k ==> self.label_for_flag(cs@[m]) == Some((#[trigger] out@[m])@),
            decreases cs@.len() - k,
        {
            match self.label_for(cs[k]) {
                Some(l) => {
                    out.push(l);
                },
                None => {
                    let mut message = String::from_str("Valid flags:\n");
                    let listing = self.flags_labels_conflicts();
                    message.append(listing.as_str());
                    return Err(ParseFlagError::new(message));
                },
            }
            k = k + 1;
        }
        assert forall|m: int| 0 <= m < abbreviated@.len() implies (#[trigger] self.label_for_flag(
            abbreviated@[m],
        )) is Some by {
            assert(self.label_for_flag(cs@[m]) == Some(out@[m]@));
        }
        Ok(out)
    }

    /// The table is the built-in one for comment review requests.
    pub open spec fn is_comment(&self) -> bool {
        &&& self.labels_view() == seq![
            "pending"@,
            "close?"@,
            "tracker"@,
            "needs-resolution"@,
            "recycle"@,
            "advice-requested"@,
            "needs-attention"@,
        ]
        &&& self.flags_view() == seq!['P', 'C', 'T', 'N', 'R', 'A', 'X']
        &&& self.pairs() == seq![(0usize, 3usize), (2usize, 3usize)]
    }

    /// The flags of comment review requests.
    pub fn comment() -> (t: Taxonomy)
        ensures
            t.wf(),
            t.is_comment(),
    {
        let labels = vec![
            String::from_str("pending"),
            String::from_str("close?"),
            String::from_str("tracker"),
            String::from_str("needs-resolution"),
            String::from_str("recycle"),
            String::from_str("advice-requested"),
            String::from_str("needs-attention"),
        ];
        let t = Taxonomy::from_parts(
            labels,
            vec!['P', 'C', 'T', 'N', 'R', 'A', 'X'],
            vec![(0usize, 3usize), (2usize, 3usize)],
        );
        assert(t.labels_view() =~= seq![
            "pending"@,
            "close?"@,
            "tracker"@,
            "needs-resolution"@,
            "recycle"@,
            "advice-requested"@,
            "needs-attention"@,
        ]);
        t
    }

    /// The table is the built-in one for design review requests.
    pub open spec fn is_design(&self) -> bool {
        &&& self.labels_view() == seq![
            "Progress: untriaged"@,
            "Progress: in progress"@,
            "Progress: pending external feedback"@,
        ]
        &&& self.flags_view() == seq!['U', 'i', 'x']
        &&& self.pairs() == Seq::<(usize, usize)>::empty()
    }

    /// The flags of design review requests.
    pub fn design() -> (t: Taxonomy)
        ensures
            t.wf(),
            t.is_design(),
    {
        let labels = vec![
            String::from_str("Progress: untriaged"),
            String::from_str("Progress: in progress"),
            String::from_str("Progress: pending external feedback"),
        ];
        let t = Taxonomy::from_parts(labels, vec!['U', 'i', 'x'], Vec::new());
        assert(t.labels_view() =~= seq![
            "Progress: untriaged"@,
            "Progress: in progress"@,
            "Progress: pending external feedback"@,
        ]);
        assert(t.pairs() =~= Seq::<(usize, usize)>::empty());
        t
    }

    /// The table is the built-in one for charter review requests.
    pub open spec fn is_charter(&self) -> bool {
        &&& self.labels_view() == seq![
            "Accessibility review completed"@,
            "a11y-needs-resolution"@,
            "Internationalization review completed"@,
            "i18n-needs-resolution"@,
            "privacy review completed"@,
            "privacy-needs-resolution"@,
            "Security review completed"@,
            "security-needs-resolution"@,
            "TAG review completed"@,
            "tag-needs-resolution"@,
        ]
        &&& self.flags_view() == seq!['a', 'A', 'i', 'I', 'p', 'P', 's', 'S', 't', 'T']
        &&& self.pairs() == Seq::<(usize, usize)>::empty()
    }

    /// The flags of charter review requests.
    pub fn charter() -> (t: Taxonomy)
        ensures
            t.wf(),
            t.is_charter(),
    {
        let labels = vec![
            String::from_str("Accessibility review completed"),
            String::from_str("a11y-needs-resolution"),
            String::from_str("Internationalization review completed"),
            String::from_str("i18n-needs-resolution"),
            String::from_str("privacy review completed"),
            String::from_str("privacy-needs-resolution"),
            String::from_str("Security review completed"),
            String::from_str("security-needs-resolution"),
            String::from_str("TAG review completed"),
            String::from_str("tag-needs-resolution"),
        ];
        let t = Taxonomy::from_parts(
            labels,
            vec!['a', 'A', 'i', 'I', 'p', 'P', 's', 'S', 't', 'T'],
            Vec::new(),
        );
        assert(t.labels_view() =~= seq![
            "Accessibility review completed"@,
            "a11y-needs-resolution"@,
            "Internationalization review completed"@,
            "i18n-needs-resolution"@,
            "privacy review completed"@,
            "privacy-needs-resolution"@,
            "Security review completed"@,
            "security-needs-resolution"@,
            "TAG review completed"@,
            "tag-needs-resolution"@,
        ]);
        assert(t.pairs() =~= Seq::<(usize, usize)>::empty());
        t
    }
}

/// Conflicts hold in both directions, whichever flag declared them.
pub proof fn lemma_conflict_symmetric(t: Taxonomy, i: int, j: int)
    ensures
        t.conflicting(i, j) == t.conflicting(j, i),
{
    if t.conflicting(i, j) {
        let k = choose|k: int|
            0 <= k < t.pairs().len() && ((#[trigger] t.pairs()[k]).0 == i && t.pairs()[k].1 == j
                || t.pairs()[k].0 == j && t.pairs()[k].1 == i);
        assert(0 <= k < t.pairs().len() && (t.pairs()[k].0 == j && t.pairs()[k].1 == i
            || t.pairs()[k].0 == i && t.pairs()[k].1 == j));
    }
    if t.conflicting(j, i) {
        let k = choose|k: int|
            0 <= k < t.pairs().len() && ((#[trigger] t.pairs()[k]).0 == j && t.pairs()[k].1 == i
                || t.pairs()[k].0 == i && t.pairs()[k].1 == j);
        assert(0 <= k < t.pairs().len() && (t.pairs()[k].0 == i && t.pairs()[k].1 == j
            || t.pairs()[k].0 == j && t.pairs()[k].1 == i));
    }
}

/// Issue labels given by their flags' abbreviations, as a search filter.
pub struct LabelStringVec {
    list: Vec<String>,
}

impl LabelStringVec {
    pub closed spec fn labels_view(&self) -> Seq<Seq<char>> {
        views(self.list@)
    }

    /// No labels.
    pub fn default() -> (r: LabelStringVec)
        ensures
            r.labels_view() == Seq::<Seq<char>>::empty(),
    {
        let r = LabelStringVec { list: Vec::new() };
        assert(r.labels_view() =~= Seq::<Seq<char>>::empty());
        r
    }

    /// The labels that the abbreviations in `abbreviated` stand for in `taxonomy`, in order.
    pub fn from_str(taxonomy: &Taxonomy, abbreviated: &str) -> (r: Result<LabelStringVec, ParseFlagError>)
        requires
            taxonomy.wf(),
        ensures
            r is Ok <==> forall|k: int|
                0 <= k < abbreviated@.len() ==> (#[trigger] taxonomy.label_for_flag(abbreviated@[k]))
                    is Some,
            r matches Ok(v) ==> v.labels_view().len() == abbreviated@.len() && forall|k: int|
                0 <= k < abbreviated@.len() ==> taxonomy.label_for_flag(abbreviated@[k]) == Some(
                    #[trigger] v.labels_view()[k],
                ),
            r matches Err(e) ==> e.text() == "Valid flags:\n"@ + taxonomy.listing(taxonomy.len()),
    {
        match taxonomy.labels_for_flags(abbreviated) {
            Ok(list) => {
                let r = LabelStringVec { list };
                assert forall|k: int| 0 <= k < abbreviated@.len() implies taxonomy.label_for_flag(
                    abbreviated@[k],
                ) == Some(#[trigger] r.labels_view()[k]) by {
                    assert(r.labels_view()[k] == list@[k]@);
                }
                Ok(r)
            },
            Err(e) => Err(e),
        }
    }

    pub fn is_empty(&self) -> (r: bool)
        ensures
            r == (self.labels_view().len() == 0),
    {
        self.list.len() == 0
    }

    /// The labels, in order.
    pub fn into_vec(self) -> (r: Vec<String>)
        ensures
            views(r@) == self.labels_view(),
    {
        self.list
    }
}

/// The flags set on one request, over a given table.
pub struct Status {
    taxonomy: Taxonomy,
    set: Vec<bool>,
}

impl Status {
    pub closed spec fn taxonomy(&self) -> Taxonomy {
        self.taxonomy
    }

    /// Which flags are set, by index in the table.
    pub closed spec fn flags_set(&self) -> Seq<bool> {
        self.set@
    }

    pub open spec fn wf(&self) -> bool {
        self.taxonomy().wf() && self.flags_set().len() == self.taxonomy().len()
    }

    /// No two set flags conflict.
    pub open spec fn valid(&self) -> bool {
        forall|i: int, j: int|
            0 <= i < self.taxonomy().len() && 0 <= j < self.taxonomy().len()
                && #[trigger] self.taxonomy().conflicting(i, j) ==> !(self.flags_set()[i]
                && self.flags_set()[j])
    }

    /// The abbreviations of the set flags, in table order.
    pub open spec fn set_chars(&self, upto: int) -> Seq<char>
        decreases upto,
    {
        if upto <= 0 {
            Seq::empty()
        } else if self.flags_set()[upto - 1] {
            self.set_chars(upto - 1).push(self.taxonomy().flag(upto - 1))
        } else {
            self.set_chars(upto - 1)
        }
    }

    /// A status with no flag set.
    pub fn new(taxonomy: Taxonomy) -> (r: Status)
        requires
            taxonomy.wf(),
        ensures
            r.wf(),
            r.taxonomy() == taxonomy,
            forall|i: int| 0 <= i < r.taxonomy().len() ==> !(#[trigger] r.flags_set()[i]),
    {
        let n = taxonomy.flag_count();
        let mut set: Vec<bool> = Vec::new();
        let mut i: usize = 0;
        while i < n
            invariant
                i <= n,
                set@.len() == i,
                forall|k: int| 0 <= k < i ==> !(#[trigger] set@[k]),
            decreases n - i,
        {
            set.push(false);
            i = i + 1;
        }
        Status { taxonomy, set }
    }

    /// Records that the request carries `label`: the flag that it names, if any, is set.
    /// Other labels are ignored.
    pub fn is(&mut self, label: &str)
        requires
            old(self).wf(),
        ensures
            final(self).wf(),
            final(self).taxonomy() == old(self).taxonomy(),
            forall|i: int|
                0 <= i < final(self).taxonomy().len() ==> #[trigger] final(self).flags_set()[i] == (
                old(self).flags_set()[i] || old(self).taxonomy().label(i) == label@),
    {
        let l = String::from_str(label);
        let n = self.set.len();
        let mut i: usize = 0;
        while i < n
            invariant
                self.taxonomy == old(self).taxonomy,
                self.taxonomy.wf(),
                l@ == label@,
                n == self.set@.len(),
                n == self.taxonomy.len(),
                i <= n,
                forall|k: int|
                    0 <= k < i ==> #[trigger] self.set@[k] == (old(self).set@[k]
                        || self.taxonomy.label(k) == label@),
                forall|k: int| i <= k < n ==> #[trigger] self.set@[k] == old(self).set@[k],
            decreases n - i,
        {
            assert(self.taxonomy.label(i as int) == self.taxonomy.labels@[i as int]@);
            if self.taxonomy.labels[i] == l {
                self.set.set(i, true);
            }
            i = i + 1;
        }
    }

    /// Whether no two set flags conflict.
    pub fn is_valid(&self) -> (r: bool)
        requires
            self.wf(),
        ensures
            r == self.valid(),
    {
        let mut k: usize = 0;
        while k < self.taxonomy.conflicts.len()
            invariant
                self.wf(),
                k <= self.taxonomy.conflicts@.len(),
                forall|m: int|
                    0 <= m < k ==> !(self.set@[(#[trigger] self.taxonomy.conflicts@[m]).0 as int]
                        && self.set@[self.taxonomy.conflicts@[m].1 as int]),
            decreases self.taxonomy.conflicts@.len() - k,
        {
            let (a, b) = self.taxonomy.conflicts[k];
            assert(self.taxonomy.pairs()[k as int] == (a, b));
            if self.set[a] && self.set[b] {
                assert(self.taxonomy.conflicting(a as int, b as int));
                return false;
            }
            k = k + 1;
        }
        assert forall|i: int, j: int|
            0 <= i < self.taxonomy().len() && 0 <= j < self.taxonomy().len()
                && #[trigger] self.taxonomy().conflicting(i, j) implies !(self.flags_set()[i]
            && self.flags_set()[j]) by {
            let m = choose|m: int|
                0 <= m < self.taxonomy.pairs().len() && ((
                #[trigger] self.taxonomy.pairs()[m]).0 == i && self.taxonomy.pairs()[m].1 == j
                    || self.taxonomy.pairs()[m].0 == j && self.taxonomy.pairs()[m].1 == i);
            assert(self.taxonomy.conflicts@[m] == self.taxonomy.pairs()[m]);
        }
        true
    }

    /// The abbreviations of the set flags, in table order, separated by single spaces.
    pub fn to_string(&self) -> (r: String)
        requires
            self.wf(),
        ensures
            r@ == spaced(self.set_chars(self.taxonomy().len())),
    {
        let n = self.set.len();
        let mut out = String::new();
        let mut any = false;
        let mut i: usize = 0;
        while i < n
            invariant
                self.wf(),
                n == self.taxonomy().len(),
                i <= n,
                out@ == spaced(self.set_chars(i as int)),
                any == (self.set_chars(i as int).len() > 0),
            decreases n - i,
        {
            if self.set[i] {
                let ghost before = self.set_chars(i as int);
                if any {
                    push_char(&mut out, ' ');
                }
                any = true;
                push_char(&mut out, self.taxonomy.flags[i]);
                proof {
                    lemma_spaced_push(before, self.taxonomy().flag(i as int));
                }
                assert(out@ =~= spaced(self.set_chars(i + 1)));
            }
            i = i + 1;
        }
        out
    }
}

/// Characters separated by single spaces.
pub open spec fn spaced(cs: Seq<char>) -> Seq<char>
    decreases cs.len(),
{
    if cs.len() <= 1 {
        cs
    } else {
        spaced(cs.drop_last()) + seq![' ', cs.last()]
    }
}

proof fn lemma_spaced_push(cs: Seq<char>, c: char)
    ensures
        spaced(cs.push(c)) == if cs.len() == 0 {
            seq![c]
        } else {
            spaced(cs) + seq![' ', c]
        },
{
    assert(cs.push(c).drop_last() =~= cs);
    if cs.len() == 0 {
        assert(cs.push(c) =~= seq![c]);
    }
}

} // verus!
