//! The source issue of a review request: the body links to it on a line that starts with `§`.
use vstd::prelude::*;
use vstd::string::*;

use crate::due::{lemma_next_newline_at, next_newline};
use crate::text::{ascii_digit, is_ascii_digit, push_char, starts_with_at};

verus! {

/// A `/` followed by a digit, at `c`.
pub open spec fn slash_digit(l: Seq<char>, c: int) -> bool {
    0 <= c && c + 1 < l.len() && l[c] == '/' && is_ascii_digit(l[c + 1])
}

/// `b` is the last `/` at or before `lim`.
pub open spec fn last_slash_upto(l: Seq<char>, b: int, lim: int) -> bool {
    &&& 0 <= b <= lim
    &&& b < l.len()
    &&& l[b] == '/'
    &&& forall|k: int| b < k <= lim && k < l.len() ==> l[k] != '/'
}

/// The link's parts within the rest of its line `l`, as the pattern `owner/repo/kind/number`
/// reads them when each part is taken as long as the rest allows: `c` is the last `/` followed
/// by a digit, `b` the last `/` two or more places before it, `a` the last `/` two or more
/// places before that (and not the first character), and the number runs from `c + 1` to `z`.
pub open spec fn source_parts(l: Seq<char>, a: int, b: int, c: int, z: int) -> bool {
    &&& slash_digit(l, c)
    &&& forall|k: int| c < k ==> !#[trigger] slash_digit(l, k)
    &&& last_slash_upto(l, b, c - 2)
    &&& last_slash_upto(l, a, b - 2)
    &&& a >= 1
    &&& c + 1 < z <= l.len()
    &&& forall|k: int| c + 1 <= k < z ==> is_ascii_digit(#[trigger] l[k])
    &&& (z == l.len() || !is_ascii_digit(l[z]))
}

/// `owner/repo#number` from the rest of a link line, if it has those parts.
pub open spec fn source_in(l: Seq<char>) -> Option<Seq<char>> {
    if exists|a: int, b: int, c: int, z: int| source_parts(l, a, b, c, z) {
        let (a, b, c, z) = choose|a: int, b: int, c: int, z: int| source_parts(l, a, b, c, z);
        Some(l.take(a) + "/"@ + l.subrange(a + 1, b) + "#"@ + l.subrange(c + 1, z))
    } else {
        None
    }
}

/// At `p` stands `§ https://github?com/`, where `?` is any character but a line feed.
pub open spec fn link_prefix_at(s: Seq<char>, p: int) -> bool {
    &&& 0 <= p
    &&& p + 21 <= s.len()
    &&& s[p] == '\u{a7}'
    &&& s.subrange(p + 1, p + 16) == " https://github"@
    &&& s[p + 16] != '\n'
    &&& s.subrange(p + 17, p + 21) == "com/"@
}

/// The source locator of a link starting at `p`, if one does.
pub open spec fn link_at(s: Seq<char>, p: int) -> Option<Seq<char>> {
    if link_prefix_at(s, p) {
        source_in(s.subrange(p + 21, next_newline(s, p + 21)))
    } else {
        None
    }
}

/// The first link at or after `p`.
pub open spec fn link_from(s: Seq<char>, p: int) -> Option<Seq<char>>
    decreases s.len() - p,
{
    if p < 0 || p >= s.len() {
        None
    } else {
        match link_at(s, p) {
            Some(x) => Some(x),
            None => link_from(s, p + 1),
        }
    }
}

/// The source issue's locator given in a body, or `UNKNOWN!`.
pub open spec fn source_locator(s: Seq<char>) -> Seq<char> {
    match link_from(s, 0) {
        Some(x) => x,
        None => "UNKNOWN!"@,
    }
}

proof fn lemma_source_parts_unique(
    l: Seq<char>,
    a: int,
    b: int,
    c: int,
    z: int,
    a2: int,
    b2: int,
    c2: int,
    z2: int,
)
    requires
        source_parts(l, a, b, c, z),
        source_parts(l, a2, b2, c2, z2),
    ensures
        a == a2 && b == b2 && c == c2 && z == z2,
{
    if c < c2 {
        assert(!slash_digit(l, c2));
    } else if c2 < c {
        assert(!slash_digit(l, c));
    }
    if b < b2 {
        assert(l[b2] != '/');
    } else if b2 < b {
        assert(l[b] != '/');
    }
    if a < a2 {
        assert(l[a2] != '/');
    } else if a2 < a {
        assert(l[a] != '/');
    }
    if z < z2 {
        assert(is_ascii_digit(l[z]));
    } else if z2 < z {
        assert(is_ascii_digit(l[z2]));
    }
}

/// The last `/` in `cs[lo..=hi]`.
fn last_slash(cs: &Vec<char>, lo: usize, hi: usize) -> (r: Option<usize>)
    requires
        lo <= hi < cs@.len(),
    ensures
        r matches Some(k) ==> lo <= k <= hi && cs@[k as int] == '/' && forall|j: int|
            k < j <= hi ==> cs@[j] != '/',
        r is None ==> forall|j: int| lo <= j <= hi ==> cs@[j] != '/',
{
    let mut k = hi;
    loop
        invariant
            lo <= k <= hi < cs@.len(),
            forall|j: int| k < j <= hi ==> cs@[j] != '/',
        decreases k,
    {
        if cs[k] == '/' {
            return Some(k);
        }
        if k == lo {
            return None;
        }
        k = k - 1;
    }
}

/// The last `/` followed by a digit in `cs[q..e]`.
fn last_slash_digit(cs: &Vec<char>, q: usize, e: usize) -> (r: Option<usize>)
    requires
        q + 2 <= e <= cs@.len(),
    ensures
        r matches Some(k) ==> q <= k && slash_digit(cs@.subrange(q as int, e as int), k - q),
        forall|j: int|
            (match r {
                Some(k) => k - q < j,
                None => true,
            }) ==> !#[trigger] slash_digit(cs@.subrange(q as int, e as int), j),
{
    let ghost l = cs@.subrange(q as int, e as int);
    assert forall|i: int| 0 <= i < l.len() implies l[i] == cs@[q + i] by {}
    let mut k = e - 2;
    loop
        invariant
            q <= k <= e - 2,
            e <= cs@.len(),
            l == cs@.subrange(q as int, e as int),
            forall|i: int| 0 <= i < l.len() ==> l[i] == cs@[q + i],
            forall|j: int| k - q < j ==> !#[trigger] slash_digit(l, j),
        decreases k,
    {
        if cs[k] == '/' && ascii_digit(cs[k + 1]) {
            assert(slash_digit(l, k - q));
            return Some(k);
        }
        assert(!slash_digit(l, k - q));
        if k == q {
            assert forall|j: int| true implies !#[trigger] slash_digit(l, j) by {
                if j < 0 {
                }
            }
            return None;
        }
        k = k - 1;
    }
}

/// The locator in the rest of the link line `cs[q..e]`.
fn source_in_line(cs: &Vec<char>, q: usize, e: usize) -> (r: Option<String>)
    requires
        q <= e <= cs@.len(),
    ensures
        r matches Some(x) ==> source_in(cs@.subrange(q as int, e as int)) == Some(x@),
        r is None ==> source_in(cs@.subrange(q as int, e as int)) is None,
{
    let ghost l = cs@.subrange(q as int, e as int);
    assert forall|i: int| 0 <= i < l.len() implies l[i] == cs@[q + i] by {}
    if e - q < 2 {
        assert(!exists|a: int, b: int, c: int, z: int| source_parts(l, a, b, c, z));
        return None;
    }
    let c = last_slash_digit(cs, q, e);
    let c = match c {
        Some(c) => c,
        None => {
            assert(!exists|a: int, b: int, c: int, z: int| source_parts(l, a, b, c, z)) by {
                if exists|a: int, b: int, c: int, z: int| source_parts(l, a, b, c, z) {
                    let (a, b, c2, z) = choose|a: int, b: int, c: int, z: int|
                        source_parts(l, a, b, c, z);
                    assert(slash_digit(l, c2));
                }
            }
            return None;
        },
    };
    let ghost rc = c - q;
    if c < q + 2 {
        assert(!exists|a: int, b: int, c: int, z: int| source_parts(l, a, b, c, z)) by {
            if exists|a: int, b: int, c2: int, z: int| source_parts(l, a, b, c2, z) {
                let (a, b, c2, z) = choose|a: int, b: int, c2: int, z: int|
                    source_parts(l, a, b, c2, z);
                assert(slash_digit(l, c2));
                if c2 > rc {
                } else if c2 < rc {
                    assert(!slash_digit(l, rc));
                }
            }
        }
        return None;
    }
    let b = match last_slash(cs, q, c - 2) {
        Some(b) => b,
        None => {
            assert(!exists|a: int, b: int, c: int, z: int| source_parts(l, a, b, c, z)) by {
                if exists|a: int, b2: int, c2: int, z: int| source_parts(l, a, b2, c2, z) {
                    let (a, b2, c2, z) = choose|a: int, b2: int, c2: int, z: int|
                        source_parts(l, a, b2, c2, z);
                    if c2 > rc {
                    } else if c2 < rc {
                        assert(!slash_digit(l, rc));
                    }
                    assert(cs@[q + b2] == '/');
                }
            }
            return None;
        },
    };
    let ghost rb = b - q;
    if b < q + 2 {
        assert(!exists|a: int, b: int, c: int, z: int| source_parts(l, a, b, c, z)) by {
            if exists|a: int, b2: int, c2: int, z: int| source_parts(l, a, b2, c2, z) {
                let (a, b2, c2, z) = choose|a: int, b2: int, c2: int, z: int|
                    source_parts(l, a, b2, c2, z);
                if c2 > rc {
                } else if c2 < rc {
                    assert(!slash_digit(l, rc));
                }
                if b2 > rb {
                    assert(cs@[q + b2] == '/');
                } else if b2 < rb {
                    assert(l[rb] == '/');
                }
            }
        }
        return None;
    }
    let a = match last_slash(cs, q, b - 2) {
        Some(a) => a,
        None => {
            assert(!exists|a: int, b: int, c: int, z: int| source_parts(l, a, b, c, z)) by {
                if exists|a2: int, b2: int, c2: int, z: int| source_parts(l, a2, b2, c2, z) {
                    let (a2, b2, c2, z) = choose|a2: int, b2: int, c2: int, z: int|
                        source_parts(l, a2, b2, c2, z);
                    if c2 > rc {
                    } else if c2 < rc {
                        assert(!slash_digit(l, rc));
                    }
                    if b2 > rb {
                        assert(cs@[q + b2] == '/');
                    } else if b2 < rb {
                        assert(l[rb] == '/');
                    }
                    assert(cs@[q + a2] == '/');
                }
            }
            return None;
        },
    };
    let ghost ra = a - q;
    if a == q {
        assert(!exists|a: int, b: int, c: int, z: int| source_parts(l, a, b, c, z)) by {
            if exists|a2: int, b2: int, c2: int, z: int| source_parts(l, a2, b2, c2, z) {
                let (a2, b2, c2, z) = choose|a2: int, b2: int, c2: int, z: int|
                    source_parts(l, a2, b2, c2, z);
                if c2 > rc {
                } else if c2 < rc {
                    assert(!slash_digit(l, rc));
                }
                if b2 > rb {
                    assert(cs@[q + b2] == '/');
                } else if b2 < rb {
                    assert(l[rb] == '/');
                }
                assert(cs@[q + a2] == '/');
            }
        }
        return None;
    }
    let mut z = c + 2;
    while z < e && ascii_digit(cs[z])
        invariant
            c + 2 <= z <= e <= cs@.len(),
            forall|j: int| c + 1 <= j < z ==> is_ascii_digit(#[trigger] cs@[j]),
        decreases e - z,
    {
        z = z + 1;
    }
    let ghost rz = z - q;
    assert(source_parts(l, ra, rb, rc, rz)) by {
        assert forall|j: int| rc + 1 <= j < rz implies is_ascii_digit(#[trigger] l[j]) by {
            assert(l[j] == cs@[q + j]);
        }
        assert forall|j: int| rb < j <= rc - 2 && j < l.len() implies l[j] != '/' by {
            assert(l[j] == cs@[q + j]);
        }
        assert forall|j: int| ra < j <= rb - 2 && j < l.len() implies l[j] != '/' by {
            assert(l[j] == cs@[q + j]);
        }
    }
    proof {
        let (a2, b2, c2, z2) = choose|a2: int, b2: int, c2: int, z2: int|
            source_parts(l, a2, b2, c2, z2);
        lemma_source_parts_unique(l, ra, rb, rc, rz, a2, b2, c2, z2);
    }
    let mut out = String::new();
    let mut i = q;
    while i < a
        invariant
            q <= i <= a < e <= cs@.len(),
            out@ == cs@.subrange(q as int, i as int),
        decreases a - i,
    {
        push_char(&mut out, cs[i]);
        assert(out@ =~= cs@.subrange(q as int, i + 1));
        i = i + 1;
    }
    push_char(&mut out, '/');
    let ghost o1 = out@;
    let mut i = a + 1;
    while i < b
        invariant
            a + 1 <= i <= b < e <= cs@.len(),
            out@ == o1 + cs@.subrange(a + 1, i as int),
        decreases b - i,
    {
        push_char(&mut out, cs[i]);
        assert(out@ =~= o1 + cs@.subrange(a + 1, i + 1));
        i = i + 1;
    }
    push_char(&mut out, '#');
    let ghost o2 = out@;
    let mut i = c + 1;
    while i < z
        invariant
            c + 1 <= i <= z <= e <= cs@.len(),
            out@ == o2 + cs@.subrange(c + 1, i as int),
        decreases z - i,
    {
        push_char(&mut out, cs[i]);
        assert(out@ =~= o2 + cs@.subrange(c + 1, i + 1));
        i = i + 1;
    }
    proof {
        reveal_strlit("/");
        reveal_strlit("#");
        assert(l.take(ra) =~= cs@.subrange(q as int, a as int));
        assert(l.subrange(ra + 1, rb) =~= cs@.subrange(a + 1, b as int));
        assert(l.subrange(rc + 1, rz) =~= cs@.subrange(c + 1, z as int));
        assert(out@ =~= l.take(ra) + "/"@ + l.subrange(ra + 1, rb) + "#"@ + l.subrange(rc + 1, rz));
    }
    Some(out)
}

/// The locator `owner/repo#number` of the source issue that a request's body links to on a
/// line `§ https://github.com/owner/repo/.../number`, or `UNKNOWN!` when there is none.
pub fn get_source_issue_locator(body: &str) -> (r: String)
    ensures
        r@ == source_locator(body@),
{
    let cs = crate::text::chars_of(body);
    let n = cs.len();
    let mut p: usize = 0;
    while p < n
        invariant
            cs@ == body@,
            n == cs@.len(),
            p <= n,
            link_from(cs@, p as int) == link_from(cs@, 0),
        decreases n - p,
    {
        let is_link = n - p >= 21 && cs[p] == '\u{a7}' && starts_with_at(
            &cs,
            p + 1,
            " https://github",
        ) && cs[p + 16] != '\n' && starts_with_at(&cs, p + 17, "com/");
        proof {
            reveal_strlit(" https://github");
            reveal_strlit("com/");
        }
        assert(is_link == link_prefix_at(cs@, p as int));
        if is_link {
            let q = p + 21;
            let mut e = q;
            while e < n && cs[e] != '\n'
                invariant
                    q <= e <= n,
                    n == cs@.len(),
                    forall|k: int| q <= k < e ==> cs@[k] != '\n',
                decreases n - e,
            {
                e = e + 1;
            }
            proof {
                lemma_next_newline_at(cs@, q as int, e as int);
            }
            assert(link_prefix_at(cs@, p as int));
            match source_in_line(&cs, q, e) {
                Some(x) => {
                    return x;
                },
                None => {},
            }
        }
        p = p + 1;
    }
    String::from_str("UNKNOWN!")
}

} // verus!
