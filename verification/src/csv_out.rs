//! The `csv` crate's writer, as the library uses it: records written to an
//! in-memory buffer with the default settings (comma, `\n`, quoting only
//! where needed, every record as long as the first).
use vstd::prelude::*;

use crate::csv_format::csv_record_bytes;

verus! {

/// A `csv::Writer` over a `Vec<u8>`, kept opaque in a private field; the
/// functions below say what it holds.
#[verifier::external_body]
pub struct CsvBuffer {
    writer: csv::Writer<Vec<u8>>,
}

#[verifier::external_type_specification]
#[verifier::external_body]
pub struct ExCsvError(csv::Error);

/// The bytes a writer has accepted so far, in order.
pub uninterp spec fn csv_written(w: CsvBuffer) -> Seq<u8>;

/// The number of fields of the first record a writer accepted, if any.
pub uninterp spec fn csv_first_record_len(w: CsvBuffer) -> Option<nat>;


/// Calls `csv::Writer::from_writer` on an empty `Vec<u8>`. Trusted: the new
/// writer has accepted no bytes and no record.
#[verifier::external_body]
pub(crate) fn csv_writer_new() -> (w: CsvBuffer)
    ensures
        csv_written(w) == Seq::<u8>::empty(),
        csv_first_record_len(w) is None,
{
    CsvBuffer { writer: csv::Writer::from_writer(Vec::new()) }
}

/// Calls `csv::Writer::write_record`. Trusted: writing to memory fails only
/// when the record's length differs from the first record's; on success the
/// record's bytes (`csv_record_bytes`: the default encoding, in UTF-8) follow
/// what was written before. A writer that failed is
/// dropped, so every writer in hand has only ever succeeded.
#[verifier::external_body]
pub(crate) fn csv_write_record(w: CsvBuffer, fields: &Vec<String>) -> (r: Result<CsvBuffer, csv::Error>)
    ensures
        r is Ok <==> (csv_first_record_len(w) is None || csv_first_record_len(w) == Some(fields@.len())),
        r matches Ok(next) ==> csv_written(next) == csv_written(w) + csv_record_bytes(fields.deep_view()),
        r matches Ok(next) ==> csv_first_record_len(next) == Some(
            match csv_first_record_len(w) {
                Some(n) => n,
                None => fields@.len(),
            },
        ),
{
    let mut w = w;
    match w.writer.write_record(fields) {
        Ok(()) => Ok(w),
        Err(e) => Err(e),
    }
}

/// Calls `csv::Writer::into_inner`. Trusted: flushing into a `Vec<u8>`
/// cannot fail, and the vector then holds every byte the writer accepted.
/// The crate's error (which cannot occur here) becomes `None`.
#[verifier::external_body]
pub(crate) fn csv_into_bytes(w: CsvBuffer) -> (r: Option<Vec<u8>>)
    ensures
        r is Some,
        r matches Some(bytes) ==> bytes@ == csv_written(w),
{
    match w.writer.into_inner() {
        Ok(bytes) => Some(bytes),
        Err(_) => None,
    }
}

} // verus!
