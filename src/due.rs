//! Due dates written in free text: a `Due:` line in an issue body, and the date or date range
//! at the end of a spec review request's title.
use vstd::prelude::*;

use crate::date::{day_number, valid_ymd, Date};
use crate::text::{
    ascii_digit, ascii_trimmed_end, ascii_trimmed_start, chars_of, digit_value, is_ascii_digit,
    is_ascii_space, spaces_from, string_of, trim_end, trimmed_end,
};

verus! {

/// `YYYY-MM-DD`: ten characters, ASCII digits but for the two hyphens.
pub open spec fn is_date_text(s: Seq<char>) -> bool {
    &&& s.len() == 10
    &&& forall|k: int| 0 <= k < 10 && k != 4 && k != 7 ==> is_ascii_digit(#[trigger] s[k])
    &&& s[4] == '-'
    &&& s[7] == '-'
}

pub open spec fn dv(c: char) -> int {
    digit_value(c) as int
}

/// Year, month and day written in a date text.
pub open spec fn date_text_parts(s: Seq<char>) -> (int, int, int) {
    (
        1000 * dv(s[0]) + 100 * dv(s[1]) + 10 * dv(s[2]) + dv(
            s[3],
        ),
        10 * dv(s[5]) + dv(s[6]),
        10 * dv(s[8]) + dv(s[9]),
    )
}

pub open spec fn either(c: char, lower: char, upper: char) -> bool {
    c == lower || c == upper
}

pub open spec fn is_ascii_alpha(c: char) -> bool {
    ('a' <= c && c <= 'z') || ('A' <= c && c <= 'Z')
}

/// The month that a three-letter English abbreviation names, in any letter case.
pub open spec fn month_number(a: char, b: char, c: char) -> Option<int> {
    if either(a, 'j', 'J') && either(b, 'a', 'A') && either(c, 'n', 'N') {
        Some(1)
    } else if either(a, 'f', 'F') && either(b, 'e', 'E') && either(c, 'b', 'B') {
        Some(2)
    } else if either(a, 'm', 'M') && either(b, 'a', 'A') && either(c, 'r', 'R') {
        Some(3)
    } else if either(a, 'a', 'A') && either(b, 'p', 'P') && either(c, 'r', 'R') {
        Some(4)
    } else if either(a, 'm', 'M') && either(b, 'a', 'A') && either(c, 'y', 'Y') {
        Some(5)
    } else if either(a, 'j', 'J') && either(b, 'u', 'U') && either(c, 'n', 'N') {
        Some(6)
    } else if either(a, 'j', 'J') && either(b, 'u', 'U') && either(c, 'l', 'L') {
        Some(7)
    } else if either(a, 'a', 'A') && either(b, 'u', 'U') && either(c, 'g', 'G') {
        Some(8)
    } else if either(a, 's', 'S') && either(b, 'e', 'E') && either(c, 'p', 'P') {
        Some(9)
    } else if either(a, 'o', 'O') && either(b, 'c', 'C') && either(c, 't', 'T') {
        Some(10)
    } else if either(a, 'n', 'N') && either(b, 'o', 'O') && either(c, 'v', 'V') {
        Some(11)
    } else if either(a, 'd', 'D') && either(b, 'e', 'E') && either(c, 'c', 'C') {
        Some(12)
    } else {
        None
    }
}

/// What may follow the date on a `Due:` line: at most one character and then whitespace, or
/// whitespace, a parenthesised comment, at most one character, and whitespace.
pub open spec fn due_tail(t: Seq<char>) -> bool {
    ||| spaces_from(t, 0)
    ||| spaces_from(t, 1)
    ||| exists|w: int, j: int|
        {
            &&& 1 <= w
            &&& w + 2 <= j < t.len()
            &&& forall|k: int| 0 <= k < w ==> is_ascii_space(#[trigger] t[k])
            &&& t[w] == '('
            &&& t[j] == ')'
            &&& (spaces_from(t, j + 1) || spaces_from(t, j + 2))
        }
}

/// The line reads `due:` in any letter case, `w` whitespace characters (at least one), a date
/// text, and a tail.
pub open spec fn due_line_at(l: Seq<char>, w: int) -> bool {
    &&& 1 <= w
    &&& l.len() >= 14 + w
    &&& either(l[0], 'd', 'D') && either(l[1], 'u', 'U') && either(l[2], 'e', 'E') && l[3] == ':'
    &&& forall|k: int| 4 <= k < 4 + w ==> is_ascii_space(#[trigger] l[k])
    &&& is_date_text(l.subrange(4 + w, 14 + w))
    &&& due_tail(l.skip(14 + w))
}

/// The date parts of a `Due:` line.
pub open spec fn due_line(l: Seq<char>) -> Option<(int, int, int)> {
    if exists|w: int| due_line_at(l, w) {
        let w = choose|w: int| due_line_at(l, w);
        Some(date_text_parts(l.subrange(4 + w, 14 + w)))
    } else {
        None
    }
}

/// The older form `due D Mon YYYY`: `due`, `pad` spaces (one or two), a day of `dl` digits
/// (one or two), a space, three ASCII letters, a space, four digits, and nothing else.
pub open spec fn legacy_line_at(l: Seq<char>, pad: int, dl: int) -> bool {
    let d = 3 + pad;
    let m = d + dl + 1;
    &&& 1 <= pad <= 2
    &&& 1 <= dl <= 2
    &&& l.len() == m + 8
    &&& l[0] == 'd' && l[1] == 'u' && l[2] == 'e'
    &&& forall|k: int| 3 <= k < d ==> #[trigger] l[k] == ' '
    &&& forall|k: int| d <= k < d + dl ==> is_ascii_digit(#[trigger] l[k])
    &&& l[d + dl] == ' '
    &&& is_ascii_alpha(l[m]) && is_ascii_alpha(l[m + 1]) && is_ascii_alpha(l[m + 2])
    &&& l[m + 3] == ' '
    &&& forall|k: int| m + 4 <= k < m + 8 ==> is_ascii_digit(#[trigger] l[k])
}

/// Day, month (if the letters name one) and year of an older-form line.
pub open spec fn legacy_line(l: Seq<char>) -> Option<(int, Option<int>, int)> {
    if exists|pad: int, dl: int| legacy_line_at(l, pad, dl) {
        let (pad, dl) = choose|pad: int, dl: int| legacy_line_at(l, pad, dl);
        let d = 3 + pad;
        let m = d + dl + 1;
        let day = if dl == 1 {
            dv(l[d])
        } else {
            10 * dv(l[d]) + dv(l[d + 1])
        };
        let year = 1000 * dv(l[m + 4]) + 100 * dv(l[m + 5]) + 10 * dv(
            l[m + 6],
        ) + dv(l[m + 7]);
        Some((day, month_number(l[m], l[m + 1], l[m + 2]), year))
    } else {
        None
    }
}

/// What one line says of the due date: nothing (`None`), or a date, which is absent when the
/// line has the shape of a due line but names no calendar date.
pub open spec fn line_due(l: Seq<char>) -> Option<Option<(int, int, int)>> {
    match due_line(l) {
        Some(p) => Some(
            if valid_ymd(p.0, p.1, p.2) {
                Some(p)
            } else {
                None
            },
        ),
        None => match legacy_line(l) {
            Some((day, month, year)) => Some(
                match month {
                    Some(m) => if valid_ymd(year, m, day) {
                        Some((year, m, day))
                    } else {
                        None
                    },
                    None => None,
                },
            ),
            None => None,
        },
    }
}

/// Position of the first line feed at or after `p` (or the length).
pub open spec fn next_newline(s: Seq<char>, p: int) -> int
    decreases s.len() - p,
{
    if p >= s.len() {
        s.len() as int
    } else if s[p] == '\n' {
        p
    } else {
        next_newline(s, p + 1)
    }
}

/// The line that starts at `p`, without its line ending (`\n` or `\r\n`).
pub open spec fn line_at(s: Seq<char>, p: int) -> Seq<char> {
    let e = next_newline(s, p);
    if e < s.len() && e > p && s[e - 1] == '\r' {
        s.subrange(p, e - 1)
    } else {
        s.subrange(p, e)
    }
}

/// The due date given by the first line from `p` on that has the shape of a due line.
pub open spec fn due_from(s: Seq<char>, p: int) -> Option<(int, int, int)>
    decreases s.len() - p,
{
    if p < 0 || p >= s.len() {
        None
    } else {
        match line_due(line_at(s, p)) {
            Some(r) => r,
            None => {
                let e = next_newline(s, p);
                if e < p || e >= s.len() {
                    None
                } else {
                    due_from(s, e + 1)
                }
            },
        }
    }
}

/// The due date that a text gives: that of its first line in either due form.
pub open spec fn due_date(s: Seq<char>) -> Option<(int, int, int)> {
    due_from(s, 0)
}

proof fn lemma_next_newline(s: Seq<char>, p: int)
    requires
        0 <= p <= s.len(),
    ensures
        p <= next_newline(s, p) <= s.len(),
        next_newline(s, p) < s.len() ==> s[next_newline(s, p)] == '\n',
        forall|k: int| p <= k < next_newline(s, p) ==> s[k] != '\n',
    decreases s.len() - p,
{
    if p < s.len() && s[p] != '\n' {
        lemma_next_newline(s, p + 1);
    }
}

fn digit_at(cs: &Vec<char>, i: usize) -> (r: u32)
    requires
        i < cs@.len(),
        is_ascii_digit(cs@[i as int]),
    ensures
        r == digit_value(cs@[i as int]),
        r <= 9,
{
    (cs[i] as u32) - ('0' as u32)
}

fn month_of(a: char, b: char, c: char) -> (r: Option<u32>)
    ensures
        r matches Some(m) ==> month_number(a, b, c) == Some(m as int),
        r is None ==> month_number(a, b, c) is None,
{
    if (a == 'j' || a == 'J') && (b == 'a' || b == 'A') && (c == 'n' || c == 'N') {
        Some(1)
    } else if (a == 'f' || a == 'F') && (b == 'e' || b == 'E') && (c == 'b' || c == 'B') {
        Some(2)
    } else if (a == 'm' || a == 'M') && (b == 'a' || b == 'A') && (c == 'r' || c == 'R') {
        Some(3)
    } else if (a == 'a' || a == 'A') && (b == 'p' || b == 'P') && (c == 'r' || c == 'R') {
        Some(4)
    } else if (a == 'm' || a == 'M') && (b == 'a' || b == 'A') && (c == 'y' || c == 'Y') {
        Some(5)
    } else if (a == 'j' || a == 'J') && (b == 'u' || b == 'U') && (c == 'n' || c == 'N') {
        Some(6)
    } else if (a == 'j' || a == 'J') && (b == 'u' || b == 'U') && (c == 'l' || c == 'L') {
        Some(7)
    } else if (a == 'a' || a == 'A') && (b == 'u' || b == 'U') && (c == 'g' || c == 'G') {
        Some(8)
    } else if (a == 's' || a == 'S') && (b == 'e' || b == 'E') && (c == 'p' || c == 'P') {
        Some(9)
    } else if (a == 'o' || a == 'O') && (b == 'c' || b == 'C') && (c == 't' || c == 'T') {
        Some(10)
    } else if (a == 'n' || a == 'N') && (b == 'o' || b == 'O') && (c == 'v' || c == 'V') {
        Some(11)
    } else if (a == 'd' || a == 'D') && (b == 'e' || b == 'E') && (c == 'c' || c == 'C') {
        Some(12)
    } else {
        None
    }
}

fn alpha(c: char) -> (r: bool)
    ensures
        r == is_ascii_alpha(c),
{
    ('a' <= c && c <= 'z') || ('A' <= c && c <= 'Z')
}

/// Whether `cs[at..at + 10]` is a date text.
fn date_text_at(cs: &Vec<char>, at: usize) -> (r: bool)
    requires
        at + 10 <= cs@.len(),
    ensures
        r == is_date_text(cs@.subrange(at as int, at + 10)),
{
    let n = cs.len();
    assert(at + 10 <= n);
    let ghost s = cs@.subrange(at as int, at + 10);
    let r = ascii_digit(cs[at]) && ascii_digit(cs[at + 1]) && ascii_digit(cs[at + 2])
        && ascii_digit(cs[at + 3]) && cs[at + 4] == '-' && ascii_digit(cs[at + 5]) && ascii_digit(
        cs[at + 6],
    ) && cs[at + 7] == '-' && ascii_digit(cs[at + 8]) && ascii_digit(cs[at + 9]);
    assert(s[0] == cs@[at as int] && s[1] == cs@[at + 1] && s[2] == cs@[at + 2] && s[3] == cs@[at
        + 3] && s[4] == cs@[at + 4] && s[5] == cs@[at + 5] && s[6] == cs@[at + 6] && s[7] == cs@[at
        + 7] && s[8] == cs@[at + 8] && s[9] == cs@[at + 9]);
    r
}

/// The calendar date written at `cs[at..at + 10]`, if it exists.
fn read_date(cs: &Vec<char>, at: usize) -> (r: Option<Date>)
    requires
        at + 10 <= cs@.len(),
        is_date_text(cs@.subrange(at as int, at + 10)),
    ensures
        ({
            let p = date_text_parts(cs@.subrange(at as int, at + 10));
            &&& r is Some <==> valid_ymd(p.0, p.1, p.2)
            &&& r matches Some(d) ==> d.wf() && d.ymd() == p
        }),
{
    let n = cs.len();
    assert(at + 10 <= n);
    let ghost s = cs@.subrange(at as int, at + 10);
    assert(s[0] == cs@[at as int] && s[1] == cs@[at + 1] && s[2] == cs@[at + 2] && s[3] == cs@[at
        + 3] && s[5] == cs@[at + 5] && s[6] == cs@[at + 6] && s[8] == cs@[at + 8] && s[9] == cs@[at
        + 9]);
    assert(is_ascii_digit(s[0]) && is_ascii_digit(s[1]) && is_ascii_digit(s[2]) && is_ascii_digit(s[3])
        && is_ascii_digit(s[5]) && is_ascii_digit(s[6]) && is_ascii_digit(s[8]) && is_ascii_digit(s[9]));
    let year = 1000 * digit_at(cs, at) + 100 * digit_at(cs, at + 1) + 10 * digit_at(cs, at + 2)
        + digit_at(cs, at + 3);
    let month = 10 * digit_at(cs, at + 5) + digit_at(cs, at + 6);
    let day = 10 * digit_at(cs, at + 8) + digit_at(cs, at + 9);
    Date::from_ymd_opt(year as i32, month, day)
}

/// Whether `cs[from..to]` is a tail that may follow the date on a `Due:` line.
fn due_tail_at(cs: &Vec<char>, from: usize, to: usize) -> (r: bool)
    requires
        from <= to <= cs@.len(),
    ensures
        r == due_tail(cs@.subrange(from as int, to as int)),
{
    let n = cs.len();
    assert(to <= n);
    let ghost t = cs@.subrange(from as int, to as int);
    let e = ascii_trimmed_end(cs, from, to);
    let b = ascii_trimmed_start(cs, from, to);
    let ghost ee = e - from;
    let ghost bb = b - from;
    assert forall|q: int| 0 <= q implies spaces_from(t, q) == (q >= ee) by {
        if q >= ee {
            assert forall|m: int| q <= m < t.len() implies is_ascii_space(#[trigger] t[m]) by {
                assert(t[m] == cs@[from + m]);
            }
        } else {
            assert(t[ee - 1] == cs@[e - 1]);
        }
    }
    if e - from <= 1 {
        assert(spaces_from(t, 1));
        return true;
    }
    assert(!spaces_from(t, 0) && !spaces_from(t, 1));
    if b > from && b < to && cs[b] == '(' {
        if e >= 3 && e - 3 >= b && cs[e - 1] == ')' {
            let ghost j = ee - 1;
            assert(t[bb] == '(' && t[j] == ')');
            assert(forall|k: int| 0 <= k < bb ==> is_ascii_space(#[trigger] t[k])) by {
                assert forall|k: int| 0 <= k < bb implies is_ascii_space(#[trigger] t[k]) by {
                    assert(t[k] == cs@[from + k]);
                }
            }
            assert(spaces_from(t, j + 1));
            return true;
        }
        if e >= 4 && e - 4 >= b && cs[e - 2] == ')' {
            let ghost j = ee - 2;
            assert(t[bb] == '(' && t[j] == ')');
            assert(forall|k: int| 0 <= k < bb ==> is_ascii_space(#[trigger] t[k])) by {
                assert forall|k: int| 0 <= k < bb implies is_ascii_space(#[trigger] t[k]) by {
                    assert(t[k] == cs@[from + k]);
                }
            }
            assert(spaces_from(t, j + 2));
            return true;
        }
    }
    assert(!due_tail(t)) by {
        if exists|w: int, j: int|
            {
                &&& 1 <= w
                &&& w + 2 <= j < t.len()
                &&& forall|k: int| 0 <= k < w ==> is_ascii_space(#[trigger] t[k])
                &&& t[w] == '('
                &&& t[j] == ')'
                &&& (spaces_from(t, j + 1) || spaces_from(t, j + 2))
            } {
            let (w, j) = choose|w: int, j: int|
                {
                    &&& 1 <= w
                    &&& w + 2 <= j < t.len()
                    &&& forall|k: int| 0 <= k < w ==> is_ascii_space(#[trigger] t[k])
                    &&& t[w] == '('
                    &&& t[j] == ')'
                    &&& (spaces_from(t, j + 1) || spaces_from(t, j + 2))
                };
            if w < bb {
                assert(t[w] == cs@[from + w]);
            } else if w > bb {
                assert(t[bb] == cs@[b as int]);
            }
            assert(w == bb);
            assert(t[w] == cs@[b as int]);
            if j >= ee {
                assert(t[j] == cs@[from + j]);
            }
            assert(j < ee);
            assert(j + 1 >= ee || j + 2 >= ee);
            assert(t[j] == cs@[from + j]);
        }
    }
    false
}

/// The due-line reading matches the spec's: both absent, both without a date, or the same date.
pub open spec fn same_due(r: Option<Option<Date>>, s: Option<Option<(int, int, int)>>) -> bool {
    match (r, s) {
        (None, None) => true,
        (Some(None), Some(None)) => true,
        (Some(Some(d)), Some(Some(p))) => d.wf() && d.ymd() == p,
        _ => false,
    }
}

/// The date parts of the `Due:` line `cs[from..to]`, if it is one.
fn due_line_in(cs: &Vec<char>, from: usize, to: usize) -> (r: Option<Option<Date>>)
    requires
        from <= to <= cs@.len(),
    ensures
        ({
            let l = cs@.subrange(from as int, to as int);
            &&& r is Some <==> due_line(l) is Some
            &&& r matches Some(x) ==> ({
                let p = due_line(l)->0;
                &&& x is Some <==> valid_ymd(p.0, p.1, p.2)
                &&& x matches Some(d) ==> d.wf() && d.ymd() == p
            })
        }),
{
    let ghost l = cs@.subrange(from as int, to as int);
    if to - from < 15 {
        assert(!exists|w: int| due_line_at(l, w));
        return None;
    }
    let head = (cs[from] == 'd' || cs[from] == 'D') && (cs[from + 1] == 'u' || cs[from + 1] == 'U')
        && (cs[from + 2] == 'e' || cs[from + 2] == 'E') && cs[from + 3] == ':';
    assert(l[0] == cs@[from as int] && l[1] == cs@[from + 1] && l[2] == cs@[from + 2] && l[3]
        == cs@[from + 3]);
    let b = ascii_trimmed_start(cs, from + 4, to);
    let ghost w = b - from - 4;
    let ok = head && b > from + 4 && to - b >= 10 && date_text_at(cs, b) && due_tail_at(
        cs,
        b + 10,
        to,
    );
    if ok {
        assert(l.subrange(4 + w, 14 + w) =~= cs@.subrange(b as int, b + 10));
        assert(l.skip(14 + w) =~= cs@.subrange(b + 10, to as int));
        assert forall|k: int| 4 <= k < 4 + w implies is_ascii_space(#[trigger] l[k]) by {
            assert(l[k] == cs@[from + k]);
        }
        assert(due_line_at(l, w));
        assert forall|w2: int| due_line_at(l, w2) implies w2 == w by {
            if w2 < w {
                assert(l[4 + w2] == cs@[from + 4 + w2]);
                assert(l.subrange(4 + w2, 14 + w2)[0] == l[4 + w2]);
            } else if w2 > w {
                assert(l[4 + w] == cs@[b as int]);
                assert(cs@.subrange(b as int, b + 10)[0] == cs@[b as int]);
            }
        }
        return Some(read_date(cs, b));
    }
    assert(!exists|w2: int| due_line_at(l, w2)) by {
        if exists|w2: int| due_line_at(l, w2) {
            let w2 = choose|w2: int| due_line_at(l, w2);
            if w2 < w {
                assert(l[4 + w2] == cs@[from + 4 + w2]);
                assert(l.subrange(4 + w2, 14 + w2)[0] == l[4 + w2]);
            } else if w2 > w {
                assert(l[4 + w] == cs@[b as int]);
                if b < to {
                    assert(l[4 + w] == cs@[b as int]);
                }
            }
            assert(w2 == w);
            assert(l.subrange(4 + w, 14 + w) =~= cs@.subrange(b as int, b + 10));
            assert(l.skip(14 + w) =~= cs@.subrange(b + 10, to as int));
        }
    }
    None
}

/// What the older form asks of the character at `i`: a space in the padding, a digit in the
/// day and in the year.
pub open spec fn legacy_char(s: Seq<char>, d: int, dl: int, m: int, i: int) -> bool {
    if i < d {
        s[i] == ' '
    } else if i < d + dl {
        is_ascii_digit(s[i])
    } else if m + 4 <= i {
        is_ascii_digit(s[i])
    } else {
        true
    }
}

proof fn lemma_legacy_unique(l: Seq<char>, pad: int, dl: int, pad2: int, dl2: int)
    requires
        legacy_line_at(l, pad, dl),
        legacy_line_at(l, pad2, dl2),
    ensures
        pad == pad2 && dl == dl2,
{
    if pad == 1 {
        assert(is_ascii_digit(l[4]));
    } else {
        assert(l[4] == ' ');
    }
    if pad2 == 1 {
        assert(is_ascii_digit(l[4]));
    } else {
        assert(l[4] == ' ');
    }
}

/// The padding and day width of the older-form line `cs[from..to]`, if it is one.
fn legacy_shape(cs: &Vec<char>, from: usize, to: usize) -> (r: Option<(usize, usize)>)
    requires
        from <= to <= cs@.len(),
    ensures
        r matches Some((pad, dl)) ==> legacy_line_at(
            cs@.subrange(from as int, to as int),
            pad as int,
            dl as int,
        ),
        r is None ==> forall|pad: int, dl: int|
            !#[trigger] legacy_line_at(cs@.subrange(from as int, to as int), pad, dl),
{
    let ghost l = cs@.subrange(from as int, to as int);
    let len = to - from;
    if len < 14 || len > 16 {
        return None;
    }
    assert forall|i: int| 0 <= i < l.len() implies l[i] == cs@[from + i] by {}
    let pad: usize = if cs[from + 4] == ' ' {
        2
    } else {
        1
    };
    if len - 12 - pad < 1 || len - 12 - pad > 2 {
        assert forall|pad2: int, dl2: int| !#[trigger] legacy_line_at(l, pad2, dl2) by {
            if legacy_line_at(l, pad2, dl2) {
                if pad2 == 1 {
                    assert(is_ascii_digit(l[4]));
                } else {
                    assert(l[4] == ' ');
                }
            }
        }
        return None;
    }
    let dl = len - 12 - pad;
    let d = from + 3 + pad;
    let m = d + dl + 1;
    let head = cs[from] == 'd' && cs[from + 1] == 'u' && cs[from + 2] == 'e' && cs[d + dl] == ' '
        && alpha(cs[m]) && alpha(cs[m + 1]) && alpha(cs[m + 2]) && cs[m + 3] == ' ';
    let mut fits = true;
    let mut k = from + 3;
    while k < to
        invariant
            from + 3 <= k <= to <= cs@.len(),
            d == from + 3 + pad,
            m == d + dl + 1,
            to == m + 8,
            fits == forall|i: int|
                from + 3 <= i < k ==> #[trigger] legacy_char(
                    cs@,
                    d as int,
                    dl as int,
                    m as int,
                    i,
                ),
        decreases to - k,
    {
        let c = cs[k];
        let here = if k < d {
            c == ' '
        } else if k < d + dl {
            ascii_digit(c)
        } else if m + 4 <= k {
            ascii_digit(c)
        } else {
            true
        };
        assert(here == legacy_char(cs@, d as int, dl as int, m as int, k as int));
        fits = fits && here;
        k = k + 1;
    }
    let ghost rd = d - from;
    let ghost rm = m - from;
    if head && fits {
        assert(legacy_line_at(l, pad as int, dl as int)) by {
            assert forall|k2: int| 3 <= k2 < rd implies #[trigger] l[k2] == ' ' by {
                assert(legacy_char(cs@, d as int, dl as int, m as int, from + k2));
            }
            assert forall|k2: int| rd <= k2 < rd + dl implies is_ascii_digit(#[trigger] l[k2]) by {
                assert(legacy_char(cs@, d as int, dl as int, m as int, from + k2));
            }
            assert forall|k2: int| rm + 4 <= k2 < rm + 8 implies is_ascii_digit(
                #[trigger] l[k2],
            ) by {
                assert(legacy_char(cs@, d as int, dl as int, m as int, from + k2));
            }
        }
        return Some((pad, dl));
    }
    assert forall|pad2: int, dl2: int| !#[trigger] legacy_line_at(l, pad2, dl2) by {
        if legacy_line_at(l, pad2, dl2) {
            if pad2 == 1 {
                assert(is_ascii_digit(l[4]));
            } else {
                assert(l[4] == ' ');
            }
            assert(pad2 == pad && dl2 == dl);
            assert(head);
            assert forall|i: int| from + 3 <= i < to implies #[trigger] legacy_char(
                cs@,
                d as int,
                dl as int,
                m as int,
                i,
            ) by {
                let j = i - from;
                if i < d {
                    assert(l[j] == ' ');
                } else if i < d + dl {
                    assert(is_ascii_digit(l[j]));
                } else if m + 4 <= i {
                    assert(is_ascii_digit(l[j]));
                }
            }
        }
    }
    None
}

/// The date of the older-form line `cs[from..to]`, if it is one.
fn legacy_line_in(cs: &Vec<char>, from: usize, to: usize) -> (r: Option<Option<Date>>)
    requires
        from <= to <= cs@.len(),
    ensures
        ({
            let l = cs@.subrange(from as int, to as int);
            &&& r is Some <==> legacy_line(l) is Some
            &&& r matches Some(x) ==> ({
                let (day, month, year) = legacy_line(l)->0;
                &&& x is Some <==> month is Some && valid_ymd(year, month->0, day)
                &&& x matches Some(d) ==> d.wf() && d.ymd() == (year, month->0, day)
            })
        }),
{
    let ghost l = cs@.subrange(from as int, to as int);
    match legacy_shape(cs, from, to) {
        None => None,
        Some((pad, dl)) => {
            proof {
                let (p2, d2) = choose|p2: int, d2: int| legacy_line_at(l, p2, d2);
                lemma_legacy_unique(l, pad as int, dl as int, p2, d2);
            }
            let d = from + 3 + pad;
            let m = d + dl + 1;
            assert(l[3 + pad + 0] == cs@[d as int]);
            assert(l[3 + pad + 1] == cs@[d + 1]);
            assert(l[3 + pad + dl + 1] == cs@[m as int]);
            assert(l[3 + pad + dl + 2] == cs@[m + 1]);
            assert(l[3 + pad + dl + 3] == cs@[m + 2]);
            assert(l[3 + pad + dl + 5] == cs@[m + 4]);
            assert(l[3 + pad + dl + 6] == cs@[m + 5]);
            assert(l[3 + pad + dl + 7] == cs@[m + 6]);
            assert(l[3 + pad + dl + 8] == cs@[m + 7]);
            assert(is_ascii_digit(l[3 + pad + dl + 5]));
            assert(is_ascii_digit(l[3 + pad + dl + 6]));
            assert(is_ascii_digit(l[3 + pad + dl + 7]));
            assert(is_ascii_digit(l[3 + pad + dl + 8]));
            assert(is_ascii_digit(l[3 + pad + 0]));
            let day = if dl == 1 {
                digit_at(cs, d)
            } else {
                assert(is_ascii_digit(l[3 + pad + 1]));
                10 * digit_at(cs, d) + digit_at(cs, d + 1)
            };
            let year = 1000 * digit_at(cs, m + 4) + 100 * digit_at(cs, m + 5) + 10 * digit_at(
                cs,
                m + 6,
            ) + digit_at(cs, m + 7);
            match month_of(cs[m], cs[m + 1], cs[m + 2]) {
                Some(month) => Some(Date::from_ymd_opt(year as i32, month, day)),
                None => Some(None),
            }
        },
    }
}

/// What the line `cs[from..to]` says of the due date.
fn line_due_in(cs: &Vec<char>, from: usize, to: usize) -> (r: Option<Option<Date>>)
    requires
        from <= to <= cs@.len(),
    ensures
        same_due(r, line_due(cs@.subrange(from as int, to as int))),
{
    match due_line_in(cs, from, to) {
        Some(x) => Some(x),
        None => legacy_line_in(cs, from, to),
    }
}

pub(crate) proof fn lemma_next_newline_at(s: Seq<char>, p: int, e: int)
    requires
        0 <= p <= e <= s.len(),
        forall|k: int| p <= k < e ==> s[k] != '\n',
        e == s.len() || s[e] == '\n',
    ensures
        next_newline(s, p) == e,
    decreases e - p,
{
    if p < e {
        lemma_next_newline_at(s, p + 1, e);
    }
}

/// The due date given in an issue body: the first line that reads `Due: YYYY-MM-DD` (the
/// keyword in any letter case, optionally followed by a parenthesised comment and one
/// punctuation character) or `due D Mon YYYY` decides; none gives none.
pub fn get_due(text: &str) -> (r: Option<Date>)
    ensures
        r is Some <==> due_date(text@) is Some,
        r matches Some(d) ==> d.wf() && due_date(text@) == Some(d.ymd()),
{
    let cs = chars_of(text);
    let n = cs.len();
    let mut p: usize = 0;
    while p < n
        invariant
            cs@ == text@,
            n == cs@.len(),
            p <= n,
            due_from(cs@, p as int) == due_date(text@),
        decreases n - p,
    {
        let mut e = p;
        while e < n && cs[e] != '\n'
            invariant
                p <= e <= n,
                n == cs@.len(),
                forall|k: int| p <= k < e ==> cs@[k] != '\n',
            decreases n - e,
        {
            e = e + 1;
        }
        proof {
            lemma_next_newline_at(cs@, p as int, e as int);
        }
        let le = if e < n && e > p && cs[e - 1] == '\r' {
            e - 1
        } else {
            e
        };
        assert(cs@.subrange(p as int, le as int) == line_at(cs@, p as int));
        match line_due_in(&cs, p, le) {
            Some(x) => {
                return x;
            },
            None => {},
        }
        if e >= n {
            return None;
        }
        p = e + 1;
    }
    None
}

/// The first line with the shape of a due line decides, whatever the lines after it say.
pub proof fn lemma_first_due_line_wins(first: Seq<char>, rest: Seq<char>)
    requires
        !first.contains('\n'),
        line_due(
            if first.len() > 0 && first.last() == '\r' {
                first.drop_last()
            } else {
                first
            },
        ) is Some,
    ensures
        due_date(first + seq!['\n'] + rest) == line_due(
            if first.len() > 0 && first.last() == '\r' {
                first.drop_last()
            } else {
                first
            },
        )->0,
{
    let s = first + seq!['\n'] + rest;
    assert forall|k: int| 0 <= k < first.len() implies s[k] != '\n' by {
        assert(s[k] == first[k]);
        if s[k] == '\n' {
            assert(first.contains('\n'));
        }
    }
    lemma_next_newline_at(s, 0, first.len() as int);
    if first.len() > 0 && first.last() == '\r' {
        assert(s.subrange(0, first.len() - 1) =~= first.drop_last());
    } else {
        assert(s.subrange(0, first.len() as int) =~= first);
    }
}

proof fn lemma_due_from_skips(s: Seq<char>, q: int, p: int)
    requires
        0 <= q <= p < s.len(),
        q == 0 || s[q - 1] == '\n',
        p == 0 || s[p - 1] == '\n',
        forall|r: int|
            q <= r < p && (r == 0 || s[r - 1] == '\n') ==> #[trigger] line_due(line_at(s, r)) is None,
    ensures
        due_from(s, q) == due_from(s, p),
    decreases p - q,
{
    if q < p {
        lemma_next_newline(s, q);
        let e = next_newline(s, q);
        if e > p - 1 {
            assert(s[p - 1] != '\n');
        }
        lemma_due_from_skips(s, e + 1, p);
    }
}

/// The first line that has the shape of a due line decides: the lines before it have none, and
/// the lines after it do not matter.
pub proof fn lemma_first_due_line_decides(s: Seq<char>, p: int)
    requires
        0 <= p < s.len(),
        p == 0 || s[p - 1] == '\n',
        line_due(line_at(s, p)) is Some,
        forall|q: int|
            0 <= q < p && (q == 0 || s[q - 1] == '\n') ==> #[trigger] line_due(line_at(s, q)) is None,
    ensures
        due_date(s) == line_due(line_at(s, p))->0,
{
    lemma_due_from_skips(s, 0, p);
}

proof fn lemma_no_due_from(s: Seq<char>, p: int)
    requires
        0 <= p,
        p == 0 || (p <= s.len() && s[p - 1] == '\n'),
        forall|q: int|
            0 <= q < s.len() && (q == 0 || s[q - 1] == '\n') ==> #[trigger] line_due(line_at(s, q))
                is None,
    ensures
        due_from(s, p) is None,
    decreases s.len() - p,
{
    if p < s.len() {
        lemma_next_newline(s, p);
        let e = next_newline(s, p);
        if e < s.len() {
            lemma_no_due_from(s, e + 1);
        }
    }
}

/// A text none of whose lines has the shape of a due line gives no due date.
pub proof fn lemma_no_due_line(s: Seq<char>)
    requires
        forall|q: int|
            0 <= q < s.len() && (q == 0 || s[q - 1] == '\n') ==> #[trigger] line_due(line_at(s, q))
                is None,
    ensures
        due_date(s) is None,
{
    lemma_no_due_from(s, 0);
}

/// The title ends in a date range, `D1 ?> D2`, starting at `start`: a date text, a space, one
/// optional character other than a line feed (present when `wide`), `>`, a space, a date text.
pub open spec fn range_at(t: Seq<char>, start: int, wide: bool) -> bool {
    let k: int = if wide {
        1
    } else {
        0
    };
    &&& 0 <= start
    &&& start + 23 + k == t.len()
    &&& is_date_text(t.subrange(start, start + 10))
    &&& t[start + 10] == ' '
    &&& (wide ==> t[start + 11] != '\n')
    &&& t[start + 11 + k] == '>'
    &&& t[start + 12 + k] == ' '
    &&& is_date_text(t.subrange(start + 13 + k, t.len() as int))
}

/// How a spec review title ends: where the spec's name stops, and whether a date range (due on
/// its second date) or a single filing date follows.
pub open spec fn title_form(t: Seq<char>) -> Option<(int, bool)> {
    if t.len() >= 24 && range_at(t, t.len() - 24, true) {
        Some((t.len() - 24, true))
    } else if t.len() >= 23 && range_at(t, t.len() - 23, false) {
        Some((t.len() - 23, true))
    } else if t.len() >= 10 && is_date_text(t.skip(t.len() - 10)) {
        Some((t.len() - 10, false))
    } else {
        None
    }
}

/// Days given for a review when the title names only the filing date.
pub const DEFAULT_REVIEW_DAYS: u32 = 21;

/// A spec review request's spec name and due date, read from its title.
#[derive(Debug, PartialEq, Eq)]
pub struct SpecTitleAndDueDate {
    pub spec: String,
    pub due: Date,
}

fn range_in(cs: &Vec<char>, start: usize, wide: bool) -> (r: bool)
    requires
        start <= cs@.len(),
    ensures
        r == range_at(cs@, start as int, wide),
{
    let n = cs.len();
    let k: usize = if wide {
        1
    } else {
        0
    };
    if n - start != 23 + k {
        return false;
    }
    let r = date_text_at(cs, start) && cs[start + 10] == ' ' && (!wide || cs[start + 11] != '\n')
        && cs[start + 11 + k] == '>' && cs[start + 12 + k] == ' ' && date_text_at(cs, start + 13 + k);
    r
}

/// Reads a spec review title: `<spec> D1 -> D2` or `<spec> D1 > D2` is due on `D2`;
/// `<spec> D` was filed on `D` and is due the default number of days later. The spec is the
/// text before the first date, without trailing whitespace.
pub fn spec_and_due(title: &str) -> (r: Option<SpecTitleAndDueDate>)
    ensures
        ({
            let t = title@;
            let p = date_text_parts(t.skip(t.len() - 10));
            &&& r is Some <==> title_form(t) is Some && valid_ymd(p.0, p.1, p.2)
            &&& r matches Some(x) ==> ({
                let (end, range) = title_form(t)->0;
                &&& x.spec@ == trim_end(t.take(end))
                &&& valid_ymd(x.due.ymd().0, x.due.ymd().1, x.due.ymd().2)
                &&& if range {
                    x.due.ymd() == p
                } else {
                    x.due.number() == day_number(p.0, p.1, p.2) + DEFAULT_REVIEW_DAYS
                }
            })
        }),
{
    let cs = chars_of(title);
    let n = cs.len();
    if n < 10 || !date_text_at(&cs, n - 10) {
        proof {
            if n >= 10 {
                assert(cs@.subrange(n - 10, n as int) =~= title@.skip(n - 10));
            }
            if n >= 24 && range_at(title@, n - 24, true) {
                assert(title@.subrange(n - 10, n as int) =~= title@.skip(n - 10));
            }
            if n >= 23 && range_at(title@, n - 23, false) {
                assert(title@.subrange(n - 10, n as int) =~= title@.skip(n - 10));
            }
        }
        return None;
    }
    assert(cs@.subrange(n - 10, n as int) =~= title@.skip(n - 10));
    let range = if n >= 24 && range_in(&cs, n - 24, true) {
        Some(n - 24)
    } else if n >= 23 && range_in(&cs, n - 23, false) {
        Some(n - 23)
    } else {
        None
    };
    let end = match range {
        Some(st) => st,
        None => n - 10,
    };
    match read_date(&cs, n - 10) {
        None => None,
        Some(d) => {
            let e = trimmed_end(&cs, 0, end);
            let spec = string_of(&cs, 0, e);
            assert(cs@.subrange(0, end as int) =~= title@.take(end as int));
            let due = match range {
                Some(_) => d,
                None => d.plus_days(DEFAULT_REVIEW_DAYS),
            };
            Some(SpecTitleAndDueDate { spec, due })
        },
    }
}

proof fn lemma_trim_end_space(s: Seq<char>)
    ensures
        trim_end(s + seq![' ']) == trim_end(s),
{
    assert((s + seq![' ']).drop_last() =~= s);
}

/// A title `<spec> D1 -> D2` or `<spec> D1 > D2` names the spec before `D1` and is due on `D2`.
pub proof fn lemma_range_title(spec: Seq<char>, d1: Seq<char>, arrow: Seq<char>, d2: Seq<char>)
    requires
        is_date_text(d1),
        is_date_text(d2),
        arrow == seq!['-', '>'] || arrow == seq!['>'],
    ensures
        ({
            let t = spec + seq![' '] + d1 + seq![' '] + arrow + seq![' '] + d2;
            &&& title_form(t) == Some(((spec.len() + 1) as int, true))
            &&& t.skip(t.len() - 10) == d2
            &&& trim_end(t.take(spec.len() as int + 1)) == trim_end(spec)
        }),
{
    let t = spec + seq![' '] + d1 + seq![' '] + arrow + seq![' '] + d2;
    let st = spec.len() as int + 1;
    assert(t.subrange(st, st + 10) =~= d1);
    assert(t.skip(t.len() - 10) =~= d2);
    assert(t.take(spec.len() as int + 1) =~= spec + seq![' ']);
    lemma_trim_end_space(spec);
    if arrow == seq!['-', '>'] {
        assert(t.subrange(st + 14, t.len() as int) =~= d2);
        assert(range_at(t, st, true));
    } else {
        assert(t.subrange(st + 13, t.len() as int) =~= d2);
        assert(range_at(t, st, false));
        assert(!range_at(t, t.len() - 24, true)) by {
            if t.len() >= 24 {
                assert(t[t.len() - 24] == ' ');
                assert(t.subrange(t.len() - 24, t.len() - 14)[0] == t[t.len() - 24]);
            }
        }
    }
}

/// A title `<spec> D` with no range before it names the spec before `D` and was filed on `D`.
pub proof fn lemma_single_date_title(spec: Seq<char>, d: Seq<char>)
    requires
        is_date_text(d),
        spec.len() == 0 || spec.last() != '>',
    ensures
        ({
            let t = spec + seq![' '] + d;
            &&& title_form(t) == Some(((spec.len() + 1) as int, false))
            &&& t.skip(t.len() - 10) == d
            &&& trim_end(t.take(spec.len() as int + 1)) == trim_end(spec)
        }),
{
    let t = spec + seq![' '] + d;
    assert(t.skip(t.len() - 10) =~= d);
    assert(t.take(spec.len() as int + 1) =~= spec + seq![' ']);
    lemma_trim_end_space(spec);
    assert(!range_at(t, t.len() - 24, true)) by {
        if t.len() >= 24 && range_at(t, t.len() - 24, true) {
            assert(t[t.len() - 13] == spec.last());
        }
    }
    assert(!range_at(t, t.len() - 23, false)) by {
        if t.len() >= 23 && range_at(t, t.len() - 23, false) {
            assert(t[t.len() - 12] == ' ');
        }
    }
}

} // verus!
