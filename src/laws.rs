use vstd::prelude::*;

use crate::pattern::regex_found;
use crate::scan::{all_matches, mark_row, marker, match_count, merge_rows, row_count, row_hit, row_matches};

verus! {

proof fn lemma_row_count_is_len(p: Seq<char>, row: Seq<Seq<char>>)
    ensures
        row_count(p, row) == row_matches(p, row).len(),
    decreases row.len(),
{
    if row.len() > 0 {
        lemma_row_count_is_len(p, row.drop_last());
    }
}

/// Whether some field of the row is the marker `[MERGED]`.
pub open spec fn has_marker(row: Seq<Seq<char>>) -> bool {
    exists|k: int| 0 <= k < row.len() && #[trigger] row[k] == marker()
}

/// Counting the matches gives the number of fields that finding them
/// returns, for every pattern and every set of rows.
pub proof fn lemma_count_is_find_len(p: Seq<char>, rows: Seq<Seq<Seq<char>>>)
    ensures
        match_count(p, rows) == all_matches(p, rows).len(),
    decreases rows.len(),
{
    if rows.len() > 0 {
        lemma_count_is_find_len(p, rows.drop_last());
        lemma_row_count_is_len(p, rows.last());
    }
}

/// Merging keeps at most as many rows as it is given, and each row it keeps
/// holds at least one `[MERGED]` field.
pub proof fn lemma_merge_shrinks(p: Seq<char>, rows: Seq<Seq<Seq<char>>>)
    ensures
        merge_rows(p, rows).len() <= rows.len(),
        forall|i: int|
            0 <= i < merge_rows(p, rows).len() ==> has_marker(#[trigger] merge_rows(p, rows)[i]),
    decreases rows.len(),
{
    if rows.len() > 0 {
        lemma_merge_shrinks(p, rows.drop_last());
        let prev = merge_rows(p, rows.drop_last());
        if row_hit(p, rows.last()) {
            let row = rows.last();
            let k = choose|k: int| 0 <= k < row.len() && regex_found(p, #[trigger] row[k]);
            let m = mark_row(p, row);
            assert(m[k] == marker());
            assert forall|i: int| 0 <= i < merge_rows(p, rows).len() implies has_marker(
                #[trigger] merge_rows(p, rows)[i],
            ) by {
                if i < prev.len() {
                    assert(merge_rows(p, rows)[i] == prev[i]);
                } else {
                    assert(merge_rows(p, rows)[i] == m);
                }
            }
        }
    }
}

proof fn lemma_mark_row_again(p: Seq<char>, row: Seq<Seq<char>>)
    requires
        regex_found(p, marker()),
        row_hit(p, row),
    ensures
        row_hit(p, mark_row(p, row)),
        mark_row(p, mark_row(p, row)) == mark_row(p, row),
{
    let m = mark_row(p, row);
    let k = choose|k: int| 0 <= k < row.len() && regex_found(p, #[trigger] row[k]);
    assert(m[k] == marker());
    assert(regex_found(p, m[k]));
    assert(mark_row(p, m) =~= m);
}

/// Merging the merged rows again with the same pattern changes nothing,
/// provided the pattern matches the marker `[MERGED]` itself: each kept row
/// then still holds a match, and its marker fields stay markers. (A pattern
/// that does not match the marker drops every merged row on the second pass.)
pub proof fn lemma_merge_idempotent(p: Seq<char>, rows: Seq<Seq<Seq<char>>>)
    requires
        regex_found(p, marker()),
    ensures
        merge_rows(p, merge_rows(p, rows)) == merge_rows(p, rows),
    decreases rows.len(),
{
    if rows.len() > 0 {
        lemma_merge_idempotent(p, rows.drop_last());
        let prev = merge_rows(p, rows.drop_last());
        if row_hit(p, rows.last()) {
            let m = mark_row(p, rows.last());
            lemma_mark_row_again(p, rows.last());
            let merged = prev.push(m);
            assert(merged.drop_last() =~= prev);
            assert(merged.last() == m);
        }
    }
}

} // verus!
