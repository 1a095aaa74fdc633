use vstd::prelude::*;

use crate::error::ScanError;
use crate::path::{is_csv_path, validate_csv_extension};
use crate::pattern::{pattern_usable, Pattern};
use crate::scan::{
    all_matches, count_in_rows, field_total, fields_fit, find_in_rows, lemma_merge_width, match_count,
    merge_in_rows,
    merge_rows, rows_view, strs,
};
use crate::table::{csv_records, csv_text, read_rows, same_width, write_rows};

verus! {

/// The data rows that an operation scans, or the error it stops on. The
/// checks come in this order: the path's extension, then the pattern, then
/// the records of the file's contents.
pub open spec fn scan_input(path: Seq<char>, pat: Seq<char>, data: Seq<u8>) -> Result<
    Seq<Seq<Seq<char>>>,
    ScanError,
> {
    if !is_csv_path(path) {
        Err(ScanError::InvalidFileType)
    } else if !pattern_usable(pat) {
        Err(ScanError::InvalidPattern)
    } else {
        match csv_records(data) {
            Some(rows) => Ok(rows),
            None => Err(ScanError::MalformedRecord),
        }
    }
}

/// Checks the path and the pattern, then reads the records of `data`.
fn prepare(file_path: &str, pattern: &str, data: &[u8]) -> (r: Result<
    (Pattern, Vec<Vec<String>>),
    ScanError,
>)
    ensures
        match scan_input(file_path@, pattern@, data@) {
            Ok(rows) => r matches Ok((p, v)) && p@ == pattern@ && rows_view(v@)
                == rows,
            Err(e) => r == Err::<(Pattern, Vec<Vec<String>>), ScanError>(e),
        },
        r matches Ok((p, v)) ==> same_width(rows_view(v@)),
{
    match validate_csv_extension(file_path) {
        Ok(()) => {},
        Err(e) => return Err(e),
    }
    let p = match Pattern::new(pattern) {
        Ok(p) => p,
        Err(e) => return Err(e),
    };
    match read_rows(data) {
        Ok(rows) => Ok((p, rows)),
        Err(_) => Err(ScanError::MalformedRecord),
    }
}

/// Finds the fields of the `.csv` contents `data` that `regex_pattern`
/// matches anywhere within, header row excluded, in the order met.
/// `file_path` is the name the contents were read from.
pub fn find_partial_matches(file_path: &str, regex_pattern: &str, data: &[u8]) -> (r: Result<
    Vec<String>,
    ScanError,
>)
    ensures
        match scan_input(file_path@, regex_pattern@, data@) {
            Ok(rows) => r matches Ok(v) && strs(v@) == all_matches(regex_pattern@, rows),
            Err(e) => r == Err::<Vec<String>, ScanError>(e),
        },
{
    let (p, rows) = match prepare(file_path, regex_pattern, data) {
        Ok(x) => x,
        Err(e) => return Err(e),
    };
    Ok(find_in_rows(&p, &rows))
}

/// Counts the fields of the `.csv` contents `data` that `patron` matches
/// anywhere within, header row excluded.
pub fn count_coincidences(file_path: &str, patron: &str, data: &[u8]) -> (r: Result<
    usize,
    ScanError,
>)
    ensures
        match scan_input(file_path@, patron@, data@) {
            Ok(rows) => if field_total(rows) <= usize::MAX {
                r == Ok::<usize, ScanError>(match_count(patron@, rows) as usize)
            } else {
                r == Err::<usize, ScanError>(ScanError::CountOverflow)
            },
            Err(e) => r == Err::<usize, ScanError>(e),
        },
{
    let (p, rows) = match prepare(file_path, patron, data) {
        Ok(x) => x,
        Err(e) => return Err(e),
    };
    if !fields_fit(&rows) {
        return Err(ScanError::CountOverflow);
    }
    Ok(count_in_rows(&p, &rows))
}

/// Keeps the rows of the `.csv` contents `data` (header excluded) in which
/// `patron` matches some field, replaces each matching field by `[MERGED]`,
/// and writes the kept rows back as comma-separated text, without a header.
/// Well-formed contents always give text, empty where no row is kept.
pub fn merge_coincidence(file_path: &str, patron: &str, data: &[u8]) -> (r: Result<
    String,
    ScanError,
>)
    ensures
        match scan_input(file_path@, patron@, data@) {
            Ok(rows) => r matches Ok(s) && csv_text(merge_rows(patron@, rows)) == Some(s@) && (
            merge_rows(patron@, rows).len() == 0 ==> s@.len() == 0),
            Err(e) => r == Err::<String, ScanError>(e),
        },
{
    let (p, rows) = match prepare(file_path, patron, data) {
        Ok(x) => x,
        Err(e) => return Err(e),
    };
    let kept = merge_in_rows(&p, &rows);
    proof {
        let all = rows_view(rows@);
        let out = rows_view(kept@);
        if all.len() > 0 {
            assert forall|i: int| 0 <= i < all.len() implies #[trigger] all[i].len()
                == all[0].len() by {
                assert(all[i].len() == all[0].len());
            }
            lemma_merge_width(p@, all, all[0].len());
            assert forall|i: int, j: int|
                0 <= i < out.len() && 0 <= j < out.len() implies #[trigger] out[i].len()
                    == #[trigger] out[j].len() by {}
        }
        assert(same_width(out));
    }
    match write_rows(&kept) {
        Some(s) => Ok(s),
        None => Err(ScanError::SerializationFailure),
    }
}

} // verus!
