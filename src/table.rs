use vstd::prelude::*;

use crate::scan::rows_view;

verus! {

#[verifier::external_type_specification]
#[verifier::external_body]
pub struct ExCsvError(csv::Error);

/// The data rows that the `csv` reader finds in `data` (comma-delimited,
/// double-quote escaping, the first row taken as the header and left out),
/// or `None` where the reader reports an error.
pub uninterp spec fn csv_records(data: Seq<u8>) -> Option<Seq<Seq<Seq<char>>>>;

/// The text that the `csv` writer produces for `rows`, one line per row, or
/// `None` where the writer reports an error.
pub uninterp spec fn csv_text(rows: Seq<Seq<Seq<char>>>) -> Option<Seq<char>>;

/// Whether all rows hold the same number of fields.
pub open spec fn same_width(rows: Seq<Seq<Seq<char>>>) -> bool {
    forall|i: int, j: int|
        0 <= i < rows.len() && 0 <= j < rows.len() ==> #[trigger] rows[i].len()
            == #[trigger] rows[j].len()
}

/// Relies on csv::ReaderBuilder with headers on, and on its Reader::records:
/// the records after the header, each field as text, or the first error.
/// With the default `flexible(false)` a record whose length differs from the
/// first one is an error, so the rows returned all have one width.
#[verifier::external_body]
pub(crate) fn read_rows(data: &[u8]) -> (r: Result<Vec<Vec<String>>, csv::Error>)
    ensures
        match r {
            Ok(rows) => csv_records(data@) == Some(rows_view(rows@)),
            Err(_) => csv_records(data@) is None,
        },
        r matches Ok(rows) ==> same_width(rows_view(rows@)),
{
    let mut rdr = csv::ReaderBuilder::new().has_headers(true).from_reader(data);
    let mut rows: Vec<Vec<String>> = Vec::new();
    for rec in rdr.records() {
        rows.push(rec?.iter().map(|f| f.to_string()).collect());
    }
    Ok(rows)
}

/// Relies on csv::WriterBuilder, Writer::write_record and Writer::into_inner
/// writing into a byte vector, and on String::from_utf8 for the result.
/// Writing into a vector cannot fail, so the one error is a row whose length
/// differs from the first row's (`flexible(false)`); the fields and the
/// ASCII quotes and separators written around them keep the bytes UTF-8.
/// No rows give no text.
#[verifier::external_body]
pub(crate) fn write_rows(rows: &Vec<Vec<String>>) -> (r: Option<String>)
    ensures
        match r {
            Some(s) => csv_text(rows_view(rows@)) == Some(s@),
            None => csv_text(rows_view(rows@)) is None,
        },
        same_width(rows_view(rows@)) ==> r is Some,
        rows@.len() == 0 ==> r is Some && r.unwrap()@.len() == 0,
{
    let mut wtr = csv::WriterBuilder::new().from_writer(Vec::new());
    for row in rows.iter() {
        wtr.write_record(row).ok()?;
    }
    String::from_utf8(wtr.into_inner().ok()?).ok()
}

} // verus!
