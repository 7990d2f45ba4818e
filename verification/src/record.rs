//! The cells of a sheet, held as `csv::StringRecord` rows, and the read and
//! write of a whole sheet through the `csv` crate.

use vstd::prelude::*;

verus! {

/// The row type of the `csv` crate, declared so that it can stand in
/// signatures and fields. Verus sees nothing inside it.
#[verifier::external_type_specification]
#[verifier::external_body]
pub struct ExStringRecord(csv::StringRecord);

/// The fields that a `csv::StringRecord` holds, in order.
pub uninterp spec fn record_fields(r: csv::StringRecord) -> Seq<Seq<char>>;

/// The sheet that a list of rows holds: row by row, field by field.
pub open spec fn grid(rows: Seq<csv::StringRecord>) -> Seq<Seq<Seq<char>>> {
    rows.map_values(|r: csv::StringRecord| record_fields(r))
}

pub proof fn lemma_grid_push(rows: Seq<csv::StringRecord>, r: csv::StringRecord)
    ensures
        grid(rows.push(r)) == grid(rows).push(record_fields(r)),
{
    assert(grid(rows.push(r)) =~= grid(rows).push(record_fields(r)));
}

pub proof fn lemma_grid_update(rows: Seq<csv::StringRecord>, i: int, r: csv::StringRecord)
    requires
        0 <= i < rows.len(),
    ensures
        grid(rows.update(i, r)) == grid(rows).update(i, record_fields(r)),
{
    assert(grid(rows.update(i, r)) =~= grid(rows).update(i, record_fields(r)));
}

/// `csv::StringRecord::new`: a record with no field.
#[verifier::external_body]
pub(crate) fn record_new() -> (r: csv::StringRecord)
    ensures
        record_fields(r) == Seq::<Seq<char>>::empty(),
{
    csv::StringRecord::new()
}

/// `csv::StringRecord::len`: the number of fields.
#[verifier::external_body]
pub(crate) fn record_len(r: &csv::StringRecord) -> (n: usize)
    ensures
        n == record_fields(*r).len(),
{
    r.len()
}

/// `csv::StringRecord::get`: the field at index `i`, or `None` past the last
/// field.
#[verifier::external_body]
pub(crate) fn record_get(r: &csv::StringRecord, i: usize) -> (res: Option<&str>)
    ensures
        res.is_some() == (i < record_fields(*r).len()),
        res.is_some() ==> res.unwrap()@ == record_fields(*r)[i as int],
{
    r.get(i)
}

/// `csv::StringRecord::push_field`: appends one field at the end.
#[verifier::external_body]
pub(crate) fn record_push(r: &mut csv::StringRecord, field: &str)
    ensures
        record_fields(*final(r)) == record_fields(*old(r)).push(field@),
{
    r.push_field(field)
}

/// The derived `Clone` of `csv::StringRecord`: a record with the same fields.
#[verifier::external_body]
pub(crate) fn record_clone(r: &csv::StringRecord) -> (c: csv::StringRecord)
    ensures
        record_fields(c) == record_fields(*r),
{
    r.clone()
}

} // verus!
