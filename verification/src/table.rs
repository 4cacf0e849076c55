//! The two-column table that a finished run is written out as.

use crate::resolver::{ResolvedTownship, ResolvedView};
use vstd::prelude::*;

verus! {

/// Heading of the first column.
pub const ADDRESS_COLUMN: &'static str = "Address";

/// Heading of the second column.
pub const TOWNSHIP_COLUMN: &'static str = "Township";

/// The record of one row: the formatted address, then the township.
pub open spec fn record_of(row: ResolvedView) -> Seq<Seq<char>> {
    seq![row.0, row.1]
}

/// The records of the table: the heading, then one record for each row, in
/// the order of the rows.
pub open spec fn table_of(rows: Seq<ResolvedView>) -> Seq<Seq<Seq<char>>> {
    seq![seq![ADDRESS_COLUMN@, TOWNSHIP_COLUMN@]] + rows.map_values(
        |row: ResolvedView| record_of(row),
    )
}

/// Lays out the rows of a finished run as the records of the table.
pub fn output_records(rows: &Vec<ResolvedTownship>) -> (records: Vec<Vec<String>>)
    ensures
        records.deep_view() == table_of(rows.deep_view()),
        records.len() == rows.len() + 1,
{
    let mut records: Vec<Vec<String>> = Vec::new();
    let mut heading: Vec<String> = Vec::new();
    heading.push(ADDRESS_COLUMN.to_owned());
    heading.push(TOWNSHIP_COLUMN.to_owned());
    assert(heading.deep_view() =~= seq![ADDRESS_COLUMN@, TOWNSHIP_COLUMN@]);
    records.push(heading);
    let mut i: usize = 0;
    while i < rows.len()
        invariant
            i <= rows.len(),
            records.len() == i + 1,
            records.deep_view() == table_of(rows.deep_view().take(i as int)),
        decreases rows.len() - i,
    {
        let ghost before = records.deep_view();
        let mut record: Vec<String> = Vec::new();
        record.push(rows[i].0.clone());
        record.push(rows[i].1.clone());
        assert(record.deep_view() =~= record_of(rows.deep_view()[i as int]));
        records.push(record);
        assert(records.deep_view() =~= before.push(record_of(rows.deep_view()[i as int])));
        i += 1;
    }
    records
}

} // verus!
