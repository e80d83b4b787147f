//! Text shared by the listings: numbers and flags as printed, CSV documents.
use vstd::prelude::*;

use crate::structs::{OutputFormat, PGCliError};
use crate::text::{decimal, replace_all, u64_to_decimal, views};

verus! {

/// A list of records, each the views of its fields.
pub open spec fn record_views(records: Seq<Vec<String>>) -> Seq<Seq<Seq<char>>> {
    records.map_values(|r: Vec<String>| views(r@))
}

/// All records have as many fields as the first.
pub open spec fn same_lengths(records: Seq<Seq<Seq<char>>>) -> bool {
    forall|i: int| 0 <= i < records.len() ==> #[trigger] records[i].len() == records[0].len()
}

/// A `csv::Writer` into memory. Verus does not take the writer's type in a signature (its
/// parameter is bound by `std::io::Write`), so it is held here, out of Verus's sight.
#[verifier::external_body]
pub struct CsvBuffer {
    writer: csv::Writer<Vec<u8>>,
}

/// The records that a CSV writer into memory has written so far, each as its fields.
pub uninterp spec fn csv_records(w: CsvBuffer) -> Seq<Seq<Seq<char>>>;

/// A field that the default writer quotes: one holding `,`, `"`, a carriage return or a
/// line feed.
pub open spec fn csv_needs_quotes(field: Seq<char>) -> bool {
    field.contains(',') || field.contains('"') || field.contains('\r') || field.contains('\n')
}

/// A field as written: quoted with its quotes doubled when it needs quotes, else as it is.
pub open spec fn csv_field(field: Seq<char>) -> Seq<char> {
    if csv_needs_quotes(field) {
        "\""@ + replace_all(field, "\""@, "\"\""@) + "\""@
    } else {
        field
    }
}

/// The fields of a record as written, separated by `,`.
pub open spec fn csv_fields(fields: Seq<Seq<char>>) -> Seq<char>
    decreases fields.len(),
{
    if fields.len() == 0 {
        Seq::<char>::empty()
    } else if fields.len() == 1 {
        csv_field(fields[0])
    } else {
        csv_fields(fields.drop_last()) + ","@ + csv_field(fields.last())
    }
}

/// A record as written, ended by a line feed; a record whose only field is empty is
/// written as `""`.
pub open spec fn csv_record(fields: Seq<Seq<char>>) -> Seq<char> {
    (if fields.len() == 1 && fields[0].len() == 0 {
        "\"\""@
    } else {
        csv_fields(fields)
    }) + "\n"@
}

/// The CSV text that the `csv` crate's default writer produces for records: each record
/// as written, in order.
pub open spec fn csv_document(records: Seq<Seq<Seq<char>>>) -> Seq<char>
    decreases records.len(),
{
    if records.len() == 0 {
        Seq::<char>::empty()
    } else {
        csv_document(records.drop_last()) + csv_record(records.last())
    }
}

/// `csv::Writer::from_writer` on an empty byte vector: a default writer that has written
/// nothing.
#[verifier::external_body]
fn csv_writer() -> (w: CsvBuffer)
    ensures
        csv_records(w) == Seq::<Seq<Seq<char>>>::empty(),
{
    CsvBuffer { writer: csv::Writer::from_writer(Vec::new()) }
}

/// `csv::Writer::write_record` with a non-empty record. The writer refuses a record whose
/// number of fields differs from that of its first record (`UnequalLengths`); writing into
/// memory cannot fail otherwise. After a refusal nothing is stated of the writer.
#[verifier::external_body]
fn csv_write_record(w: &mut CsvBuffer, record: &Vec<String>) -> (r: Result<(), csv::Error>)
    requires
        record.len() > 0,
    ensures
        r is Ok <==> (csv_records(*old(w)).len() == 0 || csv_records(*old(w))[0].len() == record.len()),
        r is Ok ==> csv_records(*final(w)) == csv_records(*old(w)).push(views(record@)),
{
    w.writer.write_record(record)
}

/// `csv::Writer::into_inner`, the bytes read as text. Flushing into a byte vector cannot
/// fail, so the text comes back: the records written, as the default writer writes them
/// (quote style `Necessary`, `,` between fields, `"` doubled, `\n` after each record).
#[verifier::external_body]
fn csv_text(w: CsvBuffer) -> (r: Result<String, csv::Error>)
    ensures
        (match r {
            Ok(text) => text@ == csv_document(csv_records(w)),
            Err(_) => false,
        }),
{
    match w.writer.into_inner() {
        Ok(bytes) => Ok(String::from_utf8_lossy(&bytes).into_owned()),
        Err(e) => Err(csv::Error::from(e.into_error())),
    }
}

/// The CSV document of a listing, or the CSV error when its records differ in length.
pub fn csv_listing(records: &Vec<Vec<String>>) -> (r: Result<String, PGCliError>)
    requires
        forall|i: int| 0 <= i < records.len() ==> #[trigger] records@[i].len() > 0,
    ensures
        same_lengths(record_views(records@)) ==> crate::structs::yields_text(
            r,
            csv_document(record_views(records@)),
        ),
        !same_lengths(record_views(records@)) ==> r matches Err(PGCliError::SerdeCsv(_)),
{
    let mut w = csv_writer();
    let mut i: usize = 0;
    assert(record_views(records@.take(0)) =~= Seq::<Seq<Seq<char>>>::empty());
    while i < records.len()
        invariant
            i <= records.len(),
            forall|k: int| 0 <= k < records.len() ==> #[trigger] records@[k].len() > 0,
            csv_records(w) == record_views(records@.take(i as int)),
            same_lengths(record_views(records@.take(i as int))),
        decreases records.len() - i,
    {
        let ghost done = record_views(records@.take(i as int));
        assert(record_views(records@.take(i + 1)) =~= done.push(views(records@[i as int]@)));
        match csv_write_record(&mut w, &records[i]) {
            Ok(()) => {},
            Err(e) => {
                proof {
                    let all = record_views(records@);
                    assert(all[0] == views(records@[0]@));
                    assert(all[i as int] == views(records@[i as int]@));
                    assert(done[0] == all[0]);
                }
                return Err(PGCliError::SerdeCsv(e));
            },
        }
        i = i + 1;
    }
    assert(records@.take(records.len() as int) =~= records@);
    match csv_text(w) {
        Ok(s) => Ok(s),
        Err(e) => Err(PGCliError::SerdeCsv(e)),
    }
}

/// A flag as printed: `true` or `false`.
pub open spec fn bool_text(b: bool) -> Seq<char> {
    if b {
        "true"@
    } else {
        "false"@
    }
}

pub fn bool_string(b: bool) -> (r: String)
    ensures
        r@ == bool_text(b),
{
    if b {
        "true".to_owned()
    } else {
        "false".to_owned()
    }
}

/// A number as printed.
pub fn number_string(n: u64) -> (r: String)
    ensures
        r@ == decimal(n as nat),
{
    u64_to_decimal(n)
}

/// A record from string slices.
pub fn record(fields: &[&str]) -> (r: Vec<String>)
    ensures
        r.len() == fields.len(),
        forall|i: int| 0 <= i < fields.len() ==> #[trigger] r@[i]@ == fields@[i]@,
{
    let mut r: Vec<String> = Vec::new();
    let mut i: usize = 0;
    while i < fields.len()
        invariant
            i <= fields.len(),
            r.len() == i,
            forall|k: int| 0 <= k < i ==> #[trigger] r@[k]@ == fields@[k]@,
        decreases fields.len() - i,
    {
        r.push(fields[i].to_owned());
        i = i + 1;
    }
    r
}


/// What a listing prints.
#[derive(Debug, Clone, PartialEq, Eq)]
pub enum Listing {
    /// Nothing was found; a notice is logged instead.
    Empty,
    /// One line each.
    Lines(Vec<String>),
    /// A table: the header, then one row each.
    Table(Vec<Vec<String>>),
    /// A CSV document.
    Csv(String),
    /// The entries serialized as JSON in the given format.
    Json(OutputFormat),
}

/// The listing of entries whose header and rows are `records` and whose simple lines are
/// `lines`, in `format`.
pub open spec fn listing_matches(
    l: Listing,
    format: OutputFormat,
    records: Seq<Seq<Seq<char>>>,
    lines: Seq<Seq<char>>,
) -> bool {
    match format {
        OutputFormat::Simple => l matches Listing::Lines(v) && views(v@) == lines,
        OutputFormat::Table => l matches Listing::Table(t) && record_views(t@) == records,
        OutputFormat::Csv => l matches Listing::Csv(s) && s@ == csv_document(records),
        _ => l == Listing::Json(format),
    }
}

/// Puts a listing together from its records and simple lines.
pub fn make_listing(format: OutputFormat, records: Vec<Vec<String>>, lines: Vec<String>) -> (r: Result<
    Listing,
    PGCliError,
>)
    requires
        forall|i: int| 0 <= i < records.len() ==> #[trigger] records@[i].len() > 0,
    ensures
        (format != OutputFormat::Csv || same_lengths(record_views(records@))) ==> (r matches Ok(l)
            && listing_matches(l, format, record_views(records@), views(lines@))),
        format == OutputFormat::Csv && !same_lengths(record_views(records@)) ==> r matches Err(
            PGCliError::SerdeCsv(_),
        ),
{
    match format {
        OutputFormat::Simple => Ok(Listing::Lines(lines)),
        OutputFormat::Table => Ok(Listing::Table(records)),
        OutputFormat::Csv => match csv_listing(&records) {
            Ok(s) => Ok(Listing::Csv(s)),
            Err(e) => Err(e),
        },
        _ => Ok(Listing::Json(format)),
    }
}

} // verus!
