//! What a comment or design review table shows: the rows, the requests whose statuses conflict,
//! the groups and specs seen, and the column headings and widths.
use vstd::prelude::*;

use crate::order::{sorted_unique, strictly_sorted};
use crate::requests::{comment_field_width, header_text, CommentField, CommentReviewRequest};
use crate::status::spaced;
use crate::text::{append_decimal, decimal, views};

verus! {

/// The columns shown: those asked for, and the source column at the end when it is to be shown
/// and was not asked for.
pub open spec fn table_columns(fields: Seq<CommentField>, show_source: bool) -> Seq<CommentField> {
    if show_source && !fields.contains(CommentField::Source) {
        fields.push(CommentField::Source)
    } else {
        fields
    }
}

pub open spec fn status_text(r: CommentReviewRequest) -> Seq<char> {
    spaced(r.status.set_chars(r.status.taxonomy().len()))
}

/// Number, title and status of each request whose status is not valid, in order.
pub open spec fn invalid_rows(reqs: Seq<CommentReviewRequest>) -> Seq<Seq<Seq<char>>>
    decreases reqs.len(),
{
    if reqs.len() == 0 {
        Seq::empty()
    } else {
        let r = reqs.last();
        invalid_rows(reqs.drop_last()) + if !r.status.valid() {
            seq![seq![decimal(r.id as nat), r.title@, status_text(r)]]
        } else {
            Seq::empty()
        }
    }
}

/// The groups of the requests that name one, in order.
pub open spec fn group_list(reqs: Seq<CommentReviewRequest>) -> Seq<Seq<char>>
    decreases reqs.len(),
{
    if reqs.len() == 0 {
        Seq::empty()
    } else {
        group_list(reqs.drop_last()) + match reqs.last().group {
            Some(g) => seq![g@],
            None => Seq::empty(),
        }
    }
}

/// The specs of the requests that name one, in order.
pub open spec fn spec_list(reqs: Seq<CommentReviewRequest>) -> Seq<Seq<char>>
    decreases reqs.len(),
{
    if reqs.len() == 0 {
        Seq::empty()
    } else {
        spec_list(reqs.drop_last()) + match reqs.last().spec {
            Some(s) => seq![s@],
            None => Seq::empty(),
        }
    }
}

/// The index and widest width of each column that has one, in order.
pub open spec fn column_widths(cols: Seq<CommentField>) -> Seq<(usize, u16)>
    decreases cols.len(),
{
    if cols.len() == 0 {
        Seq::empty()
    } else {
        column_widths(cols.drop_last()) + match comment_field_width(cols.last()) {
            Some(w) => seq![((cols.len() - 1) as usize, w)],
            None => Seq::empty(),
        }
    }
}

pub open spec fn rows_view(rows: Seq<Vec<String>>) -> Seq<Seq<Seq<char>>> {
    rows.map_values(|r: Vec<String>| views(r@))
}

/// The parts of a review request table.
pub struct CommentTable {
    /// Number, title and status of the requests whose statuses conflict.
    pub invalid: Vec<Vec<String>>,
    /// The groups seen, sorted, each once.
    pub groups: Vec<String>,
    /// The specs seen, sorted, each once (none when the search asked for one spec).
    pub specs: Vec<String>,
    pub headers: Vec<String>,
    /// Column index and widest width, for the columns that have one.
    pub widths: Vec<(usize, u16)>,
    pub rows: Vec<Vec<String>>,
}

fn columns_of(fields: &Vec<CommentField>, show_source: bool) -> (r: Vec<CommentField>)
    ensures
        r@ == table_columns(fields@, show_source),
{
    let mut cols: Vec<CommentField> = Vec::new();
    let mut has_source = false;
    let mut i: usize = 0;
    while i < fields.len()
        invariant
            i <= fields@.len(),
            cols@ == fields@.take(i as int),
            has_source == fields@.take(i as int).contains(CommentField::Source),
        decreases fields@.len() - i,
    {
        let f = fields[i];
        cols.push(f);
        proof {
            let t = fields@.take(i + 1);
            assert(t =~= fields@.take(i as int).push(f));
            if f == CommentField::Source {
                assert(t[i as int] == f);
            }
            if fields@.take(i as int).contains(CommentField::Source) {
                let k = choose|k: int| 0 <= k < i && fields@.take(i as int)[k] == CommentField::Source;
                assert(t[k] == CommentField::Source);
            }
            if t.contains(CommentField::Source) && f != CommentField::Source {
                let k = choose|k: int| 0 <= k < i + 1 && t[k] == CommentField::Source;
                assert(fields@.take(i as int)[k] == CommentField::Source);
            }
        }
        has_source = has_source || match f {
            CommentField::Source => true,
            _ => false,
        };
        i = i + 1;
    }
    assert(fields@.take(i as int) =~= fields@);
    if show_source && !has_source {
        cols.push(CommentField::Source);
    }
    cols
}

/// Lays out a review request table for the given columns; `spec` is the spec the search asked
/// for, if any.
pub fn comment_table(
    spec: &Option<String>,
    fields: &Vec<CommentField>,
    show_source: bool,
    requests: &Vec<CommentReviewRequest>,
) -> (t: CommentTable)
    requires
        forall|i: int| 0 <= i < requests@.len() ==> (#[trigger] requests@[i]).status.wf(),
    ensures
        ({
            let cols = table_columns(fields@, show_source);
            &&& views(t.headers@) == cols.map_values(|f: CommentField| header_text(f))
            &&& t.widths@ == column_widths(cols)
            &&& rows_view(t.rows@).len() == requests@.len()
            &&& forall|i: int|
                0 <= i < requests@.len() ==> #[trigger] rows_view(t.rows@)[i] == cols.map_values(
                    |f: CommentField| requests@[i].field_text(f),
                )
            &&& rows_view(t.invalid@) == invalid_rows(requests@)
            &&& strictly_sorted(views(t.groups@))
            &&& views(t.groups@).to_set() == group_list(requests@).to_set()
            &&& strictly_sorted(views(t.specs@))
            &&& views(t.specs@).to_set() == if spec is None {
                spec_list(requests@).to_set()
            } else {
                Set::empty()
            }
        }),
{
    let cols = columns_of(fields, show_source);
    let mut headers: Vec<String> = Vec::new();
    let mut widths: Vec<(usize, u16)> = Vec::new();
    let mut k: usize = 0;
    while k < cols.len()
        invariant
            k <= cols@.len(),
            views(headers@) == cols@.take(k as int).map_values(|f: CommentField| header_text(f)),
            widths@ == column_widths(cols@.take(k as int)),
        decreases cols@.len() - k,
    {
        let ghost prev = views(headers@);
        headers.push(String::from_str(cols[k].header()));
        assert(views(headers@) =~= prev.push(header_text(cols@[k as int])));
        assert(cols@.take(k + 1).drop_last() =~= cols@.take(k as int));
        assert(cols@.take(k + 1) =~= cols@.take(k as int).push(cols@[k as int]));
        assert(views(headers@) =~= cols@.take(k + 1).map_values(|f: CommentField| header_text(f)));
        match CommentReviewRequest::max_field_width(&cols[k]) {
            Some(w) => {
                widths.push((k, w));
                assert(widths@ =~= column_widths(cols@.take(k + 1)));
            },
            None => {
                assert(widths@ =~= column_widths(cols@.take(k + 1)));
            },
        }
        k = k + 1;
    }
    assert(cols@.take(k as int) =~= cols@);
    let mut rows: Vec<Vec<String>> = Vec::new();
    let mut invalid: Vec<Vec<String>> = Vec::new();
    let mut groups: Vec<String> = Vec::new();
    let mut specs: Vec<String> = Vec::new();
    let mut i: usize = 0;
    while i < requests.len()
        invariant
            i <= requests@.len(),
            cols@ == table_columns(fields@, show_source),
            forall|j: int| 0 <= j < requests@.len() ==> (#[trigger] requests@[j]).status.wf(),
            rows_view(rows@).len() == i,
            forall|j: int|
                0 <= j < i ==> #[trigger] rows_view(rows@)[j] == cols@.map_values(
                    |f: CommentField| requests@[j].field_text(f),
                ),
            rows_view(invalid@) == invalid_rows(requests@.take(i as int)),
            views(groups@) == group_list(requests@.take(i as int)),
            views(specs@) == if spec is None {
                spec_list(requests@.take(i as int))
            } else {
                Seq::empty()
            },
        decreases requests@.len() - i,
    {
        let r = &requests[i];
        let ghost t = requests@.take(i + 1);
        assert(t.drop_last() =~= requests@.take(i as int));
        assert(t.last() == *r);
        let ghost rows_before = rows_view(rows@);
        rows.push(r.to_vec_string(&cols));
        assert forall|j: int| 0 <= j < i + 1 implies #[trigger] rows_view(rows@)[j] == cols@.map_values(
            |f: CommentField| requests@[j].field_text(f),
        ) by {
            if j < i {
                assert(rows_view(rows@)[j] == rows_before[j]);
            }
        }
        let ghost inv_before = rows_view(invalid@);
        if !r.status.is_valid() {
            let mut id = String::new();
            append_decimal(&mut id, r.id);
            let row = vec![id, r.title.clone(), r.status.to_string()];
            assert(views(row@) =~= seq![decimal(r.id as nat), r.title@, status_text(*r)]);
            invalid.push(row);
            assert(rows_view(invalid@) =~= inv_before.push(views(row@)));
            assert(rows_view(invalid@) =~= invalid_rows(t));
        } else {
            assert(rows_view(invalid@) =~= invalid_rows(t));
        }
        let ghost g_before = views(groups@);
        match &r.group {
            Some(g) => {
                groups.push(g.clone());
                assert(views(groups@) =~= g_before.push(g@));
            },
            None => {},
        }
        assert(views(groups@) =~= group_list(t));
        let ghost s_before = views(specs@);
        if spec.is_none() {
            match &r.spec {
                Some(s) => {
                    specs.push(s.clone());
                    assert(views(specs@) =~= s_before.push(s@));
                },
                None => {},
            }
            assert(views(specs@) =~= spec_list(t));
        }
        i = i + 1;
    }
    assert(requests@.take(i as int) =~= requests@);
    let groups = sorted_unique(&groups);
    let specs = sorted_unique(&specs);
    proof {
        if spec is Some {
            assert(Seq::<Seq<char>>::empty().to_set() =~= Set::<Seq<char>>::empty());
        }
    }
    CommentTable { invalid, groups, specs, headers, widths, rows }
}

} // verus!
