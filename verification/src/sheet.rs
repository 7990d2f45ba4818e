//! A sheet to and from the bytes of a CSV file, through the `csv` crate:
//! rows may differ in length, and no row is taken for a header.

use vstd::prelude::*;
use crate::record::{grid, lemma_grid_push, record_fields};
use vstd::utf8::valid_utf8;

verus! {

/// The error type of the `csv` crate.
#[verifier::external_type_specification]
#[verifier::external_body]
pub struct ExCsvError(csv::Error);

/// A `csv::Writer` into memory. Verus sees nothing inside; what it has
/// been handed is named by [`csv_written`]. (Verus refuses a declaration of
/// `csv::Writer` itself, whose parameter is bound by `std::io::Write`.)
#[verifier::external_body]
pub struct CsvOut {
    w: csv::Writer<Vec<u8>>,
}

/// The rows that a `csv` reader with flexible rows and no header row reads
/// from `bytes`; `None` where it stops at an error (a field that is not
/// UTF-8).
pub uninterp spec fn csv_rows(bytes: Seq<u8>) -> Option<Seq<Seq<Seq<char>>>>;

/// The rows that a `csv` writer has been handed so far.
pub uninterp spec fn csv_written(w: CsvOut) -> Seq<Seq<Seq<char>>>;

/// The bytes that a `csv` writer with flexible rows and no header row puts
/// out for `rows`: each field quoted where it needs it, each row ended by a
/// line feed.
pub uninterp spec fn csv_text(rows: Seq<Seq<Seq<char>>>) -> Seq<u8>;

/// Reads every row of `bytes` with `csv::ReaderBuilder` (flexible, no
/// headers) and its `records` iterator, stopping at the first error, as
/// `Result`'s `collect` does. Reading from memory with flexible rows fails
/// only on a field that is not UTF-8; the reader splits only at ASCII bytes,
/// so valid UTF-8 bytes always read.
#[verifier::external_body]
fn read_rows(bytes: &[u8]) -> (res: Result<Vec<csv::StringRecord>, csv::Error>)
    ensures
        res.is_ok() == csv_rows(bytes@).is_some(),
        valid_utf8(bytes@) ==> res.is_ok(),
        res.is_ok() ==> grid(res.unwrap()@) == csv_rows(bytes@).unwrap(),
{
    csv::ReaderBuilder::new().flexible(true).has_headers(false).from_reader(bytes).records().collect()
}

/// `csv::WriterBuilder` (flexible, no headers) writing into an empty
/// `Vec<u8>`: nothing written yet.
#[verifier::external_body]
fn new_writer() -> (w: CsvOut)
    ensures
        csv_written(w) == Seq::<Seq<Seq<char>>>::empty(),
{
    CsvOut { w: csv::WriterBuilder::new().flexible(true).has_headers(false).from_writer(Vec::new()) }
}

/// `csv::Writer::write_record` with the fields of `r`: `r` is one more row
/// written. It succeeds: the writer fails only where its inner writer does,
/// and a `Vec<u8>` never refuses bytes, and with flexible rows it checks no
/// row length.
#[verifier::external_body]
fn write_row(w: &mut CsvOut, r: &csv::StringRecord) -> (res: Result<(), csv::Error>)
    ensures
        res.is_ok(),
        csv_written(*final(w)) == csv_written(*old(w)).push(record_fields(*r)),
{
    w.w.write_record(r.iter())
}

/// `csv::Writer::into_inner`: flushes and hands back the bytes, which are
/// the text of the rows written. The flush into a `Vec<u8>` cannot fail, so
/// the bytes always come back.
#[verifier::external_body]
fn finish(w: CsvOut) -> (res: Option<Vec<u8>>)
    ensures
        res.is_some(),
        res.unwrap()@ == csv_text(csv_written(w)),
{
    w.w.into_inner().ok()
}

/// Why a sheet could not be read.
#[derive(Debug)]
pub enum LoadError {
    /// The reader stopped at this error.
    Csv(csv::Error),
}

/// Why a sheet could not be written.
#[derive(Debug)]
pub enum SaveError {
    /// The writer refused a row with this error.
    Csv(csv::Error),
    /// The writer could not flush its buffer.
    Flush,
}

/// The rows of a CSV file (see [`csv_rows`]); a file of valid UTF-8 always
/// reads.
pub fn read_cells(bytes: &[u8]) -> (res: Result<Vec<csv::StringRecord>, LoadError>)
    ensures
        res.is_ok() == csv_rows(bytes@).is_some(),
        valid_utf8(bytes@) ==> res.is_ok(),
        res.is_ok() ==> grid(res.unwrap()@) == csv_rows(bytes@).unwrap(),
{
    match read_rows(bytes) {
        Ok(rows) => Ok(rows),
        Err(e) => Err(LoadError::Csv(e)),
    }
}

/// The bytes of a CSV file that holds `cells`, row after row (see
/// [`csv_text`]); writing into memory always succeeds.
pub fn write_cells(cells: &Vec<csv::StringRecord>) -> (res: Result<Vec<u8>, SaveError>)
    ensures
        res.is_ok(),
        res.unwrap()@ == csv_text(grid(cells@)),
{
    let mut w = new_writer();
    let mut i: usize = 0;
    while i < cells.len()
        invariant
            i <= cells.len(),
            csv_written(w) == grid(cells@.take(i as int)),
        decreases cells.len() - i,
    {
        match write_row(&mut w, &cells[i]) {
            Ok(()) => {},
            Err(e) => {
                return Err(SaveError::Csv(e));
            },
        }
        proof {
            lemma_grid_push(cells@.take(i as int), cells@[i as int]);
            assert(cells@.take(i + 1) =~= cells@.take(i as int).push(cells@[i as int]));
        }
        i = i + 1;
    }
    assert(cells@.take(cells.len() as int) =~= cells@);
    match finish(w) {
        Some(bytes) => Ok(bytes),
        None => Err(SaveError::Flush),
    }
}

} // verus!
