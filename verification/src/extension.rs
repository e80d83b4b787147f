//! The `extension` command: what an extension listing prints.
use vstd::prelude::*;

use crate::output::{
    listing_matches, make_listing, number_string, record, record_views, same_lengths, Listing,
};
use crate::structs::{ExtensionDetails, OutputFormat, PGCliError, SortingOrder};
use crate::text::{decimal, views};

verus! {

/// The options of the `extension` command.
#[derive(Debug, Clone, PartialEq, Eq)]
pub struct ExtensionArgs {
    /// The database the extensions are in.
    pub database: String,
    /// The action.
    pub subcommand: ExtensionSubCommands,
}

/// The actions of the `extension` command.
#[derive(Debug, Clone, PartialEq, Eq)]
pub enum ExtensionSubCommands {
    /// List extensions, sorted, in a format, with details.
    List { sort: Option<SortingOrder>, output: OutputFormat, extra: bool },
    /// Create an extension.
    Create { extension: String },
    /// Drop an extension.
    Delete { extension: String },
}


/// The header of an extension table or CSV listing.
pub open spec fn extension_header(extra: bool) -> Seq<Seq<char>> {
    if extra {
        seq!["IDX"@, "Name"@, "Owner"@, "Version"@, "Oid"@]
    } else {
        seq!["IDX"@, "Name"@]
    }
}

/// The row of the `i`-th extension: with its details when they are there.
pub open spec fn extension_row(i: int, e: ExtensionDetails) -> Seq<Seq<char>> {
    match e {
        ExtensionDetails::Extra { name, owner, version, oid } => seq![
            decimal(i as nat),
            name@,
            decimal(owner as nat),
            version@,
            decimal(oid as nat),
        ],
        ExtensionDetails::Name(name) => seq![decimal(i as nat), name@],
    }
}

/// The header, then one row per extension.
pub open spec fn extension_records(exts: Seq<ExtensionDetails>, extra: bool) -> Seq<Seq<Seq<char>>> {
    seq![extension_header(extra)] + Seq::new(exts.len(), |i: int| extension_row(i, exts[i]))
}

/// The simple line of an extension: name, owner, version and oid separated by tabs, or
/// the name.
pub open spec fn extension_line(e: ExtensionDetails) -> Seq<char> {
    match e {
        ExtensionDetails::Extra { name, owner, version, oid } => name@ + "\t"@ + decimal(
            owner as nat,
        ) + "\t"@ + version@ + "\t"@ + decimal(oid as nat),
        ExtensionDetails::Name(name) => name@,
    }
}

/// The header and rows of an extension table or CSV listing.
pub fn extension_records_of(exts: &Vec<ExtensionDetails>, extra: bool) -> (r: Vec<Vec<String>>)
    ensures
        record_views(r@) == extension_records(exts@, extra),
        forall|i: int| 0 <= i < r.len() ==> #[trigger] r@[i].len() > 0,
{
    let mut r: Vec<Vec<String>> = Vec::new();
    let header = if extra {
        record(&["IDX", "Name", "Owner", "Version", "Oid"])
    } else {
        record(&["IDX", "Name"])
    };
    assert(views(header@) =~= extension_header(extra));
    r.push(header);
    assert(record_views(r@) =~= extension_records(exts@.take(0), extra));
    let mut i: usize = 0;
    while i < exts.len()
        invariant
            i <= exts.len(),
            r.len() == i + 1,
            record_views(r@) == extension_records(exts@.take(i as int), extra),
            forall|k: int| 0 <= k < r.len() ==> #[trigger] r@[k].len() > 0,
        decreases exts.len() - i,
    {
        let idx = number_string(i as u64);
        let row = match &exts[i] {
            ExtensionDetails::Extra { name, owner, version, oid } => {
                let ow = number_string(*owner as u64);
                let o = number_string(*oid as u64);
                record(&[idx.as_str(), name.as_str(), ow.as_str(), version.as_str(), o.as_str()])
            },
            ExtensionDetails::Name(name) => record(&[idx.as_str(), name.as_str()]),
        };
        assert(views(row@) =~= extension_row(i as int, exts@[i as int]));
        let ghost before = r@;
        r.push(row);
        assert(exts@.take(i + 1).take(i as int) =~= exts@.take(i as int));
        assert(record_views(r@) =~= extension_records(exts@.take(i + 1), extra)) by {
            assert(record_views(r@) =~= record_views(before).push(views(row@)));
        }
        i = i + 1;
    }
    assert(exts@.take(exts.len() as int) =~= exts@);
    r
}

/// The simple lines of an extension listing.
pub fn extension_lines(exts: &Vec<ExtensionDetails>) -> (r: Vec<String>)
    ensures
        views(r@) == Seq::new(exts.len() as nat, |i: int| extension_line(exts@[i])),
{
    let mut r: Vec<String> = Vec::new();
    let mut i: usize = 0;
    while i < exts.len()
        invariant
            i <= exts.len(),
            views(r@) == Seq::new(i as nat, |k: int| extension_line(exts@[k])),
        decreases exts.len() - i,
    {
        let line = match &exts[i] {
            ExtensionDetails::Extra { name, owner, version, oid } => {
                let mut s = name.clone();
                s.append("\t");
                s.append(number_string(*owner as u64).as_str());
                s.append("\t");
                s.append(version.as_str());
                s.append("\t");
                s.append(number_string(*oid as u64).as_str());
                s
            },
            ExtensionDetails::Name(name) => name.clone(),
        };
        let ghost before = r@;
        r.push(line);
        assert(views(r@) =~= views(before).push(line@));
        assert(views(r@) =~= Seq::new((i + 1) as nat, |k: int| extension_line(exts@[k])));
        i = i + 1;
    }
    r
}

/// What `database extension list` prints in each format: the lines, the table, the CSV
/// document, or JSON of the entries.
pub fn extension_listing(exts: &Vec<ExtensionDetails>, format: OutputFormat, extra: bool) -> (r:
    Result<Listing, PGCliError>)
    ensures
        (format != OutputFormat::Csv || same_lengths(extension_records(exts@, extra))) ==> (r matches Ok(
            l,
        ) && listing_matches(
            l,
            format,
            extension_records(exts@, extra),
            Seq::new(exts.len() as nat, |i: int| extension_line(exts@[i])),
        )),
        format == OutputFormat::Csv && !same_lengths(extension_records(exts@, extra)) ==> r matches Err(
            PGCliError::SerdeCsv(_),
        ),
{
    let records = extension_records_of(exts, extra);
    let lines = extension_lines(exts);
    make_listing(format, records, lines)
}

/// In a detailed extension listing, every field of an extension's row stands under the
/// header that names it (index, name, owner, version, oid); each of these headers is there;
/// and the row's fields after the index, joined by tabs, are the extension's simple line.
pub proof fn law_extension_rows_match_headers(exts: Seq<ExtensionDetails>, i: int)
    requires
        0 <= i < exts.len(),
        exts[i] is Extra,
    ensures
        ({
            let recs = extension_records(exts, true);
            let header = recs[0];
            let row = recs[i + 1];
            let d = exts[i];
            &&& row.len() == header.len()
            &&& exists|k: int| 0 <= k < header.len() && header[k] == "IDX"@
            &&& exists|k: int| 0 <= k < header.len() && header[k] == "Name"@
            &&& exists|k: int| 0 <= k < header.len() && header[k] == "Owner"@
            &&& exists|k: int| 0 <= k < header.len() && header[k] == "Version"@
            &&& exists|k: int| 0 <= k < header.len() && header[k] == "Oid"@
            &&& forall|k: int|
                #![trigger header[k]]
                0 <= k < header.len() ==> {
                    &&& header[k] == "IDX"@ ==> row[k] == decimal(i as nat)
                    &&& header[k] == "Name"@ ==> row[k] == d->Extra_name@
                    &&& header[k] == "Owner"@ ==> row[k] == decimal(d->Extra_owner as nat)
                    &&& header[k] == "Version"@ ==> row[k] == d->Extra_version@
                    &&& header[k] == "Oid"@ ==> row[k] == decimal(d->Extra_oid as nat)
                }
            &&& extension_line(d) == row[1] + "\t"@ + row[2] + "\t"@ + row[3] + "\t"@ + row[4]
        }),
{
    reveal_strlit("IDX");
    reveal_strlit("Name");
    reveal_strlit("Owner");
    reveal_strlit("Version");
    reveal_strlit("Oid");
    let recs = extension_records(exts, true);
    let header = recs[0];
    assert(header == extension_header(true));
    assert(header[0] == "IDX"@);
    assert(header[1] == "Name"@);
    assert(header[2] == "Owner"@);
    assert(header[3] == "Version"@);
    assert(header[4] == "Oid"@);
    assert(recs[i + 1] == extension_row(i, exts[i]));
    assert("IDX"@[0] != "Name"@[0]);
    assert("IDX"@[0] != "Owner"@[0]);
    assert("IDX"@[0] != "Version"@[0]);
    assert("IDX"@[0] != "Oid"@[0]);
    assert("Name"@[0] != "Owner"@[0]);
    assert("Name"@[0] != "Version"@[0]);
    assert("Name"@[0] != "Oid"@[0]);
    assert("Owner"@[0] != "Version"@[0]);
    assert("Owner"@[1] != "Oid"@[1]);
    assert("Version"@[0] != "Oid"@[0]);
}

} // verus!
