use vstd::prelude::*;

use crate::pattern::{regex_found, Pattern};

verus! {

/// The text of each string, in order.
pub open spec fn strs(v: Seq<String>) -> Seq<Seq<char>> {
    v.map_values(|s: String| s@)
}

/// The text of each field of each row, in order.
pub open spec fn rows_view(v: Seq<Vec<String>>) -> Seq<Seq<Seq<char>>> {
    v.map_values(|r: Vec<String>| strs(r@))
}

/// The fields of one row that the pattern matches, left to right.
pub open spec fn row_matches(p: Seq<char>, row: Seq<Seq<char>>) -> Seq<Seq<char>>
    decreases row.len(),
{
    if row.len() == 0 {
        seq![]
    } else if regex_found(p, row.last()) {
        row_matches(p, row.drop_last()).push(row.last())
    } else {
        row_matches(p, row.drop_last())
    }
}

/// The matching fields of all rows: row by row, then field by field.
pub open spec fn all_matches(p: Seq<char>, rows: Seq<Seq<Seq<char>>>) -> Seq<Seq<char>>
    decreases rows.len(),
{
    if rows.len() == 0 {
        seq![]
    } else {
        all_matches(p, rows.drop_last()) + row_matches(p, rows.last())
    }
}

/// How many fields of one row the pattern matches.
pub open spec fn row_count(p: Seq<char>, row: Seq<Seq<char>>) -> nat
    decreases row.len(),
{
    if row.len() == 0 {
        0
    } else {
        row_count(p, row.drop_last()) + if regex_found(p, row.last()) { 1nat } else { 0nat }
    }
}

/// How many fields of all rows the pattern matches.
pub open spec fn match_count(p: Seq<char>, rows: Seq<Seq<Seq<char>>>) -> nat
    decreases rows.len(),
{
    if rows.len() == 0 {
        0
    } else {
        match_count(p, rows.drop_last()) + row_count(p, rows.last())
    }
}

/// How many fields all rows hold together.
pub open spec fn field_total(rows: Seq<Seq<Seq<char>>>) -> nat
    decreases rows.len(),
{
    if rows.len() == 0 {
        0
    } else {
        field_total(rows.drop_last()) + rows.last().len()
    }
}

/// The marker that stands in place of a matching field: `[MERGED]`.
pub open spec fn marker() -> Seq<char> {
    seq!['[', 'M', 'E', 'R', 'G', 'E', 'D', ']']
}

/// The row with each matching field replaced by the marker.
pub open spec fn mark_row(p: Seq<char>, row: Seq<Seq<char>>) -> Seq<Seq<char>> {
    row.map_values(|f: Seq<char>| if regex_found(p, f) { marker() } else { f })
}

/// Whether the pattern matches at least one field of the row.
pub open spec fn row_hit(p: Seq<char>, row: Seq<Seq<char>>) -> bool {
    exists|k: int| 0 <= k < row.len() && regex_found(p, #[trigger] row[k])
}

/// The rows that hold a match, in their order, each with its matching fields
/// replaced by the marker; rows without a match are dropped.
pub open spec fn merge_rows(p: Seq<char>, rows: Seq<Seq<Seq<char>>>) -> Seq<Seq<Seq<char>>>
    decreases rows.len(),
{
    if rows.len() == 0 {
        seq![]
    } else if row_hit(p, rows.last()) {
        merge_rows(p, rows.drop_last()).push(mark_row(p, rows.last()))
    } else {
        merge_rows(p, rows.drop_last())
    }
}

/// Merging keeps the rows' width: each kept row has as many fields as before.
pub proof fn lemma_merge_width(p: Seq<char>, rows: Seq<Seq<Seq<char>>>, w: nat)
    requires
        forall|i: int| 0 <= i < rows.len() ==> #[trigger] rows[i].len() == w,
    ensures
        forall|i: int|
            0 <= i < merge_rows(p, rows).len() ==> #[trigger] merge_rows(p, rows)[i].len() == w,
    decreases rows.len(),
{
    if rows.len() > 0 {
        let prev = rows.drop_last();
        assert forall|i: int| 0 <= i < prev.len() implies #[trigger] prev[i].len() == w by {
            assert(prev[i] == rows[i]);
        }
        lemma_merge_width(p, prev, w);
        let before = merge_rows(p, prev);
        let m = merge_rows(p, rows);
        assert(rows.last() == rows[rows.len() - 1]);
        assert forall|i: int| 0 <= i < m.len() implies #[trigger] m[i].len() == w by {
            if i < before.len() {
                assert(m[i] == before[i]);
            } else {
                assert(m[i] == mark_row(p, rows.last()));
            }
        }
    }
}

proof fn lemma_row_count_le(p: Seq<char>, row: Seq<Seq<char>>)
    ensures
        row_count(p, row) <= row.len(),
    decreases row.len(),
{
    if row.len() > 0 {
        lemma_row_count_le(p, row.drop_last());
    }
}

proof fn lemma_match_count_le(p: Seq<char>, rows: Seq<Seq<Seq<char>>>)
    ensures
        match_count(p, rows) <= field_total(rows),
    decreases rows.len(),
{
    if rows.len() > 0 {
        lemma_match_count_le(p, rows.drop_last());
        lemma_row_count_le(p, rows.last());
    }
}

proof fn lemma_field_total_prefix(rows: Seq<Seq<Seq<char>>>, i: int)
    requires
        0 <= i <= rows.len(),
    ensures
        field_total(rows.take(i)) <= field_total(rows),
    decreases rows.len(),
{
    if i < rows.len() {
        assert(rows.drop_last().take(i) =~= rows.take(i));
        lemma_field_total_prefix(rows.drop_last(), i);
    } else {
        assert(rows.take(i) =~= rows);
    }
}

/// The fields of `rows` that the pattern matches, in the order met: row by
/// row, then field by field, with repeats kept.
pub fn find_in_rows(pattern: &Pattern, rows: &Vec<Vec<String>>) -> (r: Vec<String>)
    ensures
        strs(r@) == all_matches(pattern@, rows_view(rows@)),
{
    let ghost p = pattern@;
    let ghost all = rows_view(rows@);
    let mut out: Vec<String> = Vec::new();
    let mut i: usize = 0;
    while i < rows.len()
        invariant
            0 <= i <= rows.len(),
            all == rows_view(rows@),
            p == pattern@,
            strs(out@) == all_matches(p, all.take(i as int)),
        decreases rows.len() - i,
    {
        let row = &rows[i];
        let ghost rv = all[i as int];
        assert(rv == strs(row@));
        let mut j: usize = 0;
        while j < row.len()
            invariant
                0 <= i < rows.len(),
                0 <= j <= row.len(),
                row == &rows@[i as int],
                rv == strs(row@),
                all == rows_view(rows@),
                p == pattern@,
                strs(out@) == all_matches(p, all.take(i as int)) + row_matches(p, rv.take(j as int)),
            decreases row.len() - j,
        {
            let field = &row[j];
            assert(rv.take(j + 1).drop_last() =~= rv.take(j as int));
            assert(rv.take(j + 1).last() == field@);
            if pattern.found_in(field.as_str()) {
                let ghost before = out@;
                out.push(field.clone());
                assert(strs(out@) =~= strs(before).push(field@));
                assert(row_matches(p, rv.take(j + 1)) == row_matches(p, rv.take(j as int)).push(
                    field@,
                ));
                assert(strs(out@) =~= all_matches(p, all.take(i as int)) + row_matches(
                    p,
                    rv.take(j + 1),
                ));
            }
            j += 1;
        }
        assert(all.take(i + 1).drop_last() =~= all.take(i as int));
        assert(rv.take(row.len() as int) =~= rv);
        i += 1;
    }
    assert(all.take(rows.len() as int) =~= all);
    out
}

/// Whether all fields of `rows` together can be counted in a `usize`.
pub fn fields_fit(rows: &Vec<Vec<String>>) -> (r: bool)
    ensures
        r == (field_total(rows_view(rows@)) <= usize::MAX),
{
    let ghost all = rows_view(rows@);
    let mut total: usize = 0;
    let mut i: usize = 0;
    while i < rows.len()
        invariant
            0 <= i <= rows.len(),
            all == rows_view(rows@),
            total == field_total(all.take(i as int)),
        decreases rows.len() - i,
    {
        assert(all.take(i + 1).drop_last() =~= all.take(i as int));
        assert(all[i as int].len() == rows@[i as int]@.len());
        if rows[i].len() > usize::MAX - total {
            proof {
                lemma_field_total_prefix(all, i + 1);
            }
            return false;
        }
        total = total + rows[i].len();
        i += 1;
    }
    assert(all.take(rows.len() as int) =~= all);
    true
}

/// How many fields of `rows` the pattern matches, in one pass.
pub fn count_in_rows(pattern: &Pattern, rows: &Vec<Vec<String>>) -> (r: usize)
    requires
        field_total(rows_view(rows@)) <= usize::MAX,
    ensures
        r == match_count(pattern@, rows_view(rows@)),
{
    let ghost p = pattern@;
    let ghost all = rows_view(rows@);
    let mut count: usize = 0;
    let mut i: usize = 0;
    while i < rows.len()
        invariant
            0 <= i <= rows.len(),
            all == rows_view(rows@),
            p == pattern@,
            field_total(all) <= usize::MAX,
            count == match_count(p, all.take(i as int)),
        decreases rows.len() - i,
    {
        let row = &rows[i];
        let ghost rv = all[i as int];
        assert(rv == strs(row@));
        assert(all.take(i + 1).drop_last() =~= all.take(i as int));
        proof {
            lemma_field_total_prefix(all, i + 1);
            lemma_match_count_le(p, all.take(i as int));
        }
        let mut j: usize = 0;
        while j < row.len()
            invariant
                0 <= i < rows.len(),
                0 <= j <= row.len(),
                row == &rows@[i as int],
                rv == strs(row@),
                all == rows_view(rows@),
                p == pattern@,
                field_total(all.take(i as int)) + rv.len() <= usize::MAX,
                match_count(p, all.take(i as int)) <= field_total(all.take(i as int)),
                count == match_count(p, all.take(i as int)) + row_count(p, rv.take(j as int)),
            decreases row.len() - j,
        {
            assert(rv.take(j + 1).drop_last() =~= rv.take(j as int));
            proof {
                lemma_row_count_le(p, rv.take(j as int));
            }
            if pattern.found_in(row[j].as_str()) {
                count = count + 1;
            }
            j += 1;
        }
        assert(rv.take(row.len() as int) =~= rv);
        i += 1;
    }
    assert(all.take(rows.len() as int) =~= all);
    count
}

/// The rows of `rows` that hold a match, in their order, each with its
/// matching fields replaced by `[MERGED]`; rows without a match are dropped.
pub fn merge_in_rows(pattern: &Pattern, rows: &Vec<Vec<String>>) -> (r: Vec<Vec<String>>)
    ensures
        rows_view(r@) == merge_rows(pattern@, rows_view(rows@)),
{
    let ghost p = pattern@;
    let ghost all = rows_view(rows@);
    let mut kept: Vec<Vec<String>> = Vec::new();
    let mut i: usize = 0;
    while i < rows.len()
        invariant
            0 <= i <= rows.len(),
            all == rows_view(rows@),
            p == pattern@,
            rows_view(kept@) == merge_rows(p, all.take(i as int)),
        decreases rows.len() - i,
    {
        let row = &rows[i];
        let ghost rv = all[i as int];
        assert(rv == strs(row@));
        let mut marked: Vec<String> = Vec::new();
        let mut hit = false;
        let mut j: usize = 0;
        while j < row.len()
            invariant
                0 <= i < rows.len(),
                0 <= j <= row.len(),
                row == &rows@[i as int],
                rv == strs(row@),
                p == pattern@,
                strs(marked@) == mark_row(p, rv).take(j as int),
                hit == (exists|k: int| 0 <= k < j && regex_found(p, #[trigger] rv[k])),
            decreases row.len() - j,
        {
            let field = &row[j];
            let ghost before = marked@;
            if pattern.found_in(field.as_str()) {
                let m = "[MERGED]".to_string();
                proof {
                    reveal_strlit("[MERGED]");
                    assert(m@ =~= marker());
                }
                marked.push(m);
                hit = true;
            } else {
                marked.push(field.clone());
            }
            assert(strs(marked@) =~= strs(before).push(mark_row(p, rv)[j as int]));
            assert(strs(marked@) =~= mark_row(p, rv).take(j + 1));
            j += 1;
        }
        assert(strs(marked@) =~= mark_row(p, rv));
        assert(all.take(i + 1).drop_last() =~= all.take(i as int));
        assert(hit == row_hit(p, rv));
        if hit {
            let ghost before = kept@;
            kept.push(marked);
            assert(rows_view(kept@) =~= rows_view(before).push(mark_row(p, rv)));
        }
        i += 1;
    }
    assert(all.take(rows.len() as int) =~= all);
    kept
}

} // verus!
