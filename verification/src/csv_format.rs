//! Comma-separated files: the first record names the columns, every later
//! record is one row.

use vstd::prelude::*;
use crate::row::{inserted, keys_of, lemma_position, names_of, Row};

verus! {

#[verifier::external_type_specification]
#[verifier::external_body]
pub struct ExCsvError(csv::Error);

/// The records of a comma-separated file: the header, then the data records.
pub struct CsvTable {
    pub header: Vec<String>,
    pub records: Vec<Vec<String>>,
}

/// The fields of each record of `records`, as plain text.
pub open spec fn records_of(records: Seq<Vec<String>>) -> Seq<Seq<Seq<char>>> {
    Seq::new(records.len(), |i: int| names_of(records[i]@))
}

/// What the csv reader makes of `bytes`: the header and the data records, or
/// nothing where it reports an error.
pub uninterp spec fn csv_table(bytes: Seq<u8>) -> Option<(Seq<Seq<char>>, Seq<Seq<Seq<char>>>)>;

/// Reads `contents` with `csv::ReaderBuilder` (headers on, other settings as
/// the crate sets them), by `Reader::headers` and `Reader::records`, up to the
/// first error. The reader is not flexible: it reports a record whose number
/// of fields differs from the header's as an error, so every record that
/// comes back has as many fields as the header.
#[verifier::external_body]
pub(crate) fn csv_read(contents: &Vec<u8>) -> (table: Result<CsvTable, csv::Error>)
    ensures
        match table {
            Ok(t) => csv_table(contents@) == Some((names_of(t.header@), records_of(t.records@)))
                && forall|i: int|
                0 <= i < t.records@.len() ==> (#[trigger] t.records@[i])@.len() == t.header@.len(),
            Err(_) => csv_table(contents@).is_none(),
        },
{
    let mut reader = csv::ReaderBuilder::new().has_headers(true).from_reader(contents.as_slice());
    let header: Vec<String> = reader.headers()?.iter().map(String::from).collect();
    let records: Vec<Vec<String>> = reader
        .records()
        .map(|record| record.map(|fields| fields.iter().map(String::from).collect()))
        .collect::<Result<_, csv::Error>>()?;
    Ok(CsvTable { header, records })
}

/// The first `n` fields of `record`, each under the header's name for its
/// place. Where the header names a column twice, the later field stays.
pub open spec fn zipped(header: Seq<Seq<char>>, record: Seq<Seq<char>>, n: nat) -> Seq<
    (Seq<char>, Seq<char>),
>
    decreases n,
{
    if n == 0 {
        Seq::empty()
    } else {
        inserted(zipped(header, record, (n - 1) as nat), header[n - 1], record[n - 1])
    }
}

/// The number of fields of `record` that have a name in `header`.
pub open spec fn paired(header: Seq<Seq<char>>, record: Seq<Seq<char>>) -> nat {
    if record.len() <= header.len() {
        record.len()
    } else {
        header.len()
    }
}

/// The row that a record makes under a header.
pub open spec fn csv_row(header: Seq<Seq<char>>, record: Seq<Seq<char>>) -> Seq<
    (Seq<char>, Seq<char>),
> {
    zipped(header, record, paired(header, record))
}

/// The rows of the first `n` records: one for each record, in the records'
/// order, but none for a record that leaves a row without columns.
pub open spec fn csv_rows_upto(header: Seq<Seq<char>>, records: Seq<Seq<Seq<char>>>, n: nat) -> Seq<
    Seq<(Seq<char>, Seq<char>)>,
>
    decreases n,
{
    if n == 0 {
        Seq::empty()
    } else {
        let before = csv_rows_upto(header, records, (n - 1) as nat);
        let row = csv_row(header, records[n - 1]);
        if row.len() > 0 {
            before.push(row)
        } else {
            before
        }
    }
}

/// The rows of a comma-separated file with this header and these records.
pub open spec fn csv_rows(header: Seq<Seq<char>>, records: Seq<Seq<Seq<char>>>) -> Seq<
    Seq<(Seq<char>, Seq<char>)>,
> {
    csv_rows_upto(header, records, records.len())
}

/// Giving a column a value keeps the other columns: the row grows by at most
/// one column and never shrinks.
pub proof fn lemma_inserted_len(cells: Seq<(Seq<char>, Seq<char>)>, name: Seq<char>, text: Seq<char>)
    ensures
        cells.len() <= inserted(cells, name, text).len() <= cells.len() + 1,
        inserted(cells, name, text).len() >= 1,
{
    lemma_position(keys_of(cells), name);
}

/// The first `n` fields of a record make a row of at most `n` columns, and of
/// at least one where `n` is not zero.
pub proof fn lemma_zipped_len(header: Seq<Seq<char>>, record: Seq<Seq<char>>, n: nat)
    ensures
        zipped(header, record, n).len() <= n,
        n > 0 ==> zipped(header, record, n).len() >= 1,
    decreases n,
{
    if n > 0 {
        lemma_zipped_len(header, record, (n - 1) as nat);
        lemma_inserted_len(zipped(header, record, (n - 1) as nat), header[n - 1], record[n - 1]);
    }
}

/// Where the header has a column and every record has as many fields as the
/// header, the first `n` records give `n` rows, the row at each place made
/// from the record at that place.
pub proof fn lemma_csv_rows_upto(header: Seq<Seq<char>>, records: Seq<Seq<Seq<char>>>, n: nat)
    requires
        header.len() >= 1,
        n <= records.len(),
        forall|i: int| 0 <= i < records.len() ==> (#[trigger] records[i]).len() == header.len(),
    ensures
        csv_rows_upto(header, records, n).len() == n,
        forall|i: int|
            0 <= i < n ==> #[trigger] csv_rows_upto(header, records, n)[i] == csv_row(
                header,
                records[i],
            ),
    decreases n,
{
    if n > 0 {
        lemma_csv_rows_upto(header, records, (n - 1) as nat);
        lemma_zipped_len(header, records[n - 1], header.len());
    }
}

/// A file with a header of `H` columns, `H` at least one, and `N` records of
/// `H` fields each decodes to `N` rows, in the records' order; each row has at
/// least one column and at most `H`.
pub proof fn lemma_csv_row_count(header: Seq<Seq<char>>, records: Seq<Seq<Seq<char>>>)
    requires
        header.len() >= 1,
        forall|i: int| 0 <= i < records.len() ==> (#[trigger] records[i]).len() == header.len(),
    ensures
        csv_rows(header, records).len() == records.len(),
        forall|i: int|
            0 <= i < records.len() ==> {
                &&& #[trigger] csv_rows(header, records)[i] == csv_row(header, records[i])
                &&& 1 <= csv_rows(header, records)[i].len() <= header.len()
            },
{
    lemma_csv_rows_upto(header, records, records.len());
    assert forall|i: int| 0 <= i < records.len() implies 1 <= (#[trigger] csv_rows(
        header,
        records,
    )[i]).len() <= header.len() by {
        lemma_zipped_len(header, records[i], header.len());
    }
}

/// The cells of each row of `rows`.
pub open spec fn cells_of(rows: Seq<Row>) -> Seq<Seq<(Seq<char>, Seq<char>)>> {
    Seq::new(rows.len(), |i: int| rows[i].cells())
}

/// Every row of `rows` is well formed.
pub open spec fn all_wf(rows: Seq<Row>) -> bool {
    forall|i: int| 0 <= i < rows.len() ==> (#[trigger] rows[i]).wf()
}

/// Builds the row of one record: field by field, under the header's names.
pub fn row_from_record(header: &Vec<String>, record: &Vec<String>) -> (row: Row)
    ensures
        row.wf(),
        row.cells() == csv_row(names_of(header@), names_of(record@)),
{
    let limit: usize = if record.len() <= header.len() {
        record.len()
    } else {
        header.len()
    };
    let mut row = Row::new();
    let mut i: usize = 0;
    while i < limit
        invariant
            i <= limit,
            limit <= header@.len(),
            limit <= record@.len(),
            row.wf(),
            row.cells() == zipped(names_of(header@), names_of(record@), i as nat),
        decreases limit - i,
    {
        row.insert(header[i].clone(), record[i].clone());
        i += 1;
    }
    row
}

/// Builds the rows of a file from its header and records.
pub fn rows_from_csv(header: &Vec<String>, records: &Vec<Vec<String>>) -> (rows: Vec<Row>)
    ensures
        all_wf(rows@),
        cells_of(rows@) == csv_rows(names_of(header@), records_of(records@)),
{
    let mut rows: Vec<Row> = Vec::new();
    let mut i: usize = 0;
    assert(cells_of(rows@) =~= Seq::<Seq<(Seq<char>, Seq<char>)>>::empty());
    while i < records.len()
        invariant
            i <= records@.len(),
            all_wf(rows@),
            cells_of(rows@) == csv_rows_upto(names_of(header@), records_of(records@), i as nat),
        decreases records@.len() - i,
    {
        let row = row_from_record(header, &records[i]);
        let ghost before = rows@;
        if row.len() > 0 {
            rows.push(row);
            assert(cells_of(rows@) =~= cells_of(before).push(row.cells()));
        }
        i += 1;
    }
    rows
}

} // verus!
