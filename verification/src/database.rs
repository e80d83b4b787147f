//! The `database` command: what a database listing prints, and the owners it uses.
use vstd::prelude::*;

use crate::extension::ExtensionArgs;
use crate::output::{
    bool_text, listing_matches, make_listing, number_string, record, record_views, same_lengths,
    Listing,
};
use crate::structs::{DatabaseDetails, OutputFormat, PGCliError, PostgresCredentials, SortingOrder};
use crate::text::{decimal, views};

verus! {

/// The options of the `database` command.
#[derive(Debug, Clone, PartialEq, Eq)]
pub struct DatabaseArgs {
    /// The action; none does nothing.
    pub subcommand: Option<DatabaseSubCommands>,
}

/// The actions of the `database` command.
#[derive(Debug, Clone, PartialEq, Eq)]
pub enum DatabaseSubCommands {
    /// List databases, sorted, in a format, with details, narrowed by a fuzzy query.
    List { sort: Option<SortingOrder>, output: OutputFormat, extra: bool, query: Option<String> },
    /// Create a database for an owner (the superuser when none is given).
    Create { database: String, owner: Option<String> },
    /// Delete a database.
    Delete { database: String },
    /// Give a database and its objects to a new owner.
    Update { database: String, new_owner: Option<String> },
    /// Work on the extensions of a database.
    Extension(ExtensionArgs),
}


/// The header of a database table or CSV listing.
pub open spec fn database_header(extra: bool) -> Seq<Seq<char>> {
    if extra {
        seq!["IDX"@, "DB name"@, "Owner"@, "Size"@, "OID"@]
    } else {
        seq!["IDX"@, "Name"@]
    }
}

/// The row of the `i`-th database: with extra details only when they were asked for and
/// are there.
pub open spec fn database_row(i: int, d: DatabaseDetails, extra: bool) -> Seq<Seq<char>> {
    match d {
        DatabaseDetails::Extra { name, oid, size_pretty, owner } => if extra {
            seq![decimal(i as nat), name@, owner@, size_pretty@, decimal(oid as nat)]
        } else {
            seq![decimal(i as nat), name@]
        },
        DatabaseDetails::Name(name) => seq![decimal(i as nat), name@],
    }
}

/// The header, then one row per database.
pub open spec fn database_records(dbs: Seq<DatabaseDetails>, extra: bool) -> Seq<Seq<Seq<char>>> {
    seq![database_header(extra)] + Seq::new(dbs.len(), |i: int| database_row(i, dbs[i], extra))
}

/// The simple line of a database: name, owner, size and oid separated by tabs, or the name.
pub open spec fn database_line(d: DatabaseDetails) -> Seq<char> {
    match d {
        DatabaseDetails::Extra { name, oid, size_pretty, owner } => name@ + "\t"@ + owner@ + "\t"@
            + size_pretty@ + "\t"@ + decimal(oid as nat),
        DatabaseDetails::Name(name) => name@,
    }
}

fn database_header_record(extra: bool) -> (r: Vec<String>)
    ensures
        views(r@) == database_header(extra),
        r.len() > 0,
{
    let r = if extra {
        record(&["IDX", "DB name", "Owner", "Size", "OID"])
    } else {
        record(&["IDX", "Name"])
    };
    assert(views(r@) =~= database_header(extra));
    r
}

/// The header and rows of a database table or CSV listing.
pub fn database_records_of(dbs: &Vec<DatabaseDetails>, extra: bool) -> (r: Vec<Vec<String>>)
    ensures
        record_views(r@) == database_records(dbs@, extra),
        forall|i: int| 0 <= i < r.len() ==> #[trigger] r@[i].len() > 0,
{
    let mut r: Vec<Vec<String>> = Vec::new();
    r.push(database_header_record(extra));
    let mut i: usize = 0;
    while i < dbs.len()
        invariant
            i <= dbs.len(),
            r.len() == i + 1,
            record_views(r@) == database_records(dbs@.take(i as int), extra),
            forall|k: int| 0 <= k < r.len() ==> #[trigger] r@[k].len() > 0,
        decreases dbs.len() - i,
    {
        let idx = number_string(i as u64);
        let row = match &dbs[i] {
            DatabaseDetails::Extra { name, oid, size_pretty, owner } => if extra {
                let oid_text = number_string(*oid as u64);
                record(&[idx.as_str(), name.as_str(), owner.as_str(), size_pretty.as_str(), oid_text.as_str()])
            } else {
                record(&[idx.as_str(), name.as_str()])
            },
            DatabaseDetails::Name(name) => record(&[idx.as_str(), name.as_str()]),
        };
        assert(views(row@) =~= database_row(i as int, dbs@[i as int], extra));
        let ghost before = r@;
        r.push(row);
        assert(dbs@.take(i + 1).take(i as int) =~= dbs@.take(i as int));
        assert(record_views(r@) =~= database_records(dbs@.take(i + 1), extra)) by {
            assert(record_views(r@) =~= record_views(before).push(views(row@)));
        }
        i = i + 1;
    }
    assert(dbs@.take(dbs.len() as int) =~= dbs@);
    r
}

/// The simple lines of a database listing.
pub fn database_lines(dbs: &Vec<DatabaseDetails>) -> (r: Vec<String>)
    ensures
        views(r@) == Seq::new(dbs.len() as nat, |i: int| database_line(dbs@[i])),
{
    let mut r: Vec<String> = Vec::new();
    let mut i: usize = 0;
    while i < dbs.len()
        invariant
            i <= dbs.len(),
            views(r@) == Seq::new(i as nat, |k: int| database_line(dbs@[k])),
        decreases dbs.len() - i,
    {
        let line = match &dbs[i] {
            DatabaseDetails::Extra { name, oid, size_pretty, owner } => {
                let mut s = name.clone();
                s.append("\t");
                s.append(owner.as_str());
                s.append("\t");
                s.append(size_pretty.as_str());
                s.append("\t");
                s.append(number_string(*oid as u64).as_str());
                s
            },
            DatabaseDetails::Name(name) => name.clone(),
        };
        let ghost before = r@;
        r.push(line);
        assert(views(r@) =~= views(before).push(line@));
        assert(views(r@) =~= Seq::new((i + 1) as nat, |k: int| database_line(dbs@[k])));
        i = i + 1;
    }
    r
}

/// What `database list` prints in each format: a notice when there are no databases, else
/// the lines, the table, the CSV document, or JSON of the entries.
pub fn database_listing(dbs: &Vec<DatabaseDetails>, format: OutputFormat, extra: bool) -> (r: Result<
    Listing,
    PGCliError,
>)
    ensures
        dbs.len() == 0 ==> r == Ok::<Listing, PGCliError>(Listing::Empty),
        dbs.len() > 0 && (format != OutputFormat::Csv || same_lengths(database_records(dbs@, extra)))
            ==> (r matches Ok(l) && listing_matches(
            l,
            format,
            database_records(dbs@, extra),
            Seq::new(dbs.len() as nat, |i: int| database_line(dbs@[i])),
        )),
        dbs.len() > 0 && format == OutputFormat::Csv && !same_lengths(database_records(dbs@, extra))
            ==> r matches Err(PGCliError::SerdeCsv(_)),
{
    if dbs.len() == 0 {
        return Ok(Listing::Empty);
    }
    let records = database_records_of(dbs, extra);
    let lines = database_lines(dbs);
    make_listing(format, records, lines)
}

/// The owner to use: the one given, else the superuser of the connection.
pub fn owner_or_superuser(owner: &Option<String>, credentials: &PostgresCredentials) -> (r: String)
    ensures
        r@ == (match owner {
            Some(o) => o@,
            None => credentials.pg_superuser@,
        }),
{
    match owner {
        Some(o) => o.clone(),
        None => credentials.pg_superuser.clone(),
    }
}

/// In a detailed database listing, every field of a database's row stands under the
/// header that names it (index, name, owner, size, oid); each of these headers is there;
/// and the row's fields after the index, joined by tabs, are the database's simple line.
pub proof fn law_database_rows_match_headers(dbs: Seq<DatabaseDetails>, i: int)
    requires
        0 <= i < dbs.len(),
        dbs[i] is Extra,
    ensures
        ({
            let recs = database_records(dbs, true);
            let header = recs[0];
            let row = recs[i + 1];
            let d = dbs[i];
            &&& row.len() == header.len()
            &&& exists|k: int| 0 <= k < header.len() && header[k] == "IDX"@
            &&& exists|k: int| 0 <= k < header.len() && header[k] == "DB name"@
            &&& exists|k: int| 0 <= k < header.len() && header[k] == "Owner"@
            &&& exists|k: int| 0 <= k < header.len() && header[k] == "Size"@
            &&& exists|k: int| 0 <= k < header.len() && header[k] == "OID"@
            &&& forall|k: int|
                #![trigger header[k]]
                0 <= k < header.len() ==> {
                    &&& header[k] == "IDX"@ ==> row[k] == decimal(i as nat)
                    &&& header[k] == "DB name"@ ==> row[k] == d->Extra_name@
                    &&& header[k] == "Owner"@ ==> row[k] == d->Extra_owner@
                    &&& header[k] == "Size"@ ==> row[k] == d->Extra_size_pretty@
                    &&& header[k] == "OID"@ ==> row[k] == decimal(d->Extra_oid as nat)
                }
            &&& database_line(d) == row[1] + "\t"@ + row[2] + "\t"@ + row[3] + "\t"@ + row[4]
        }),
{
    reveal_strlit("IDX");
    reveal_strlit("DB name");
    reveal_strlit("Owner");
    reveal_strlit("Size");
    reveal_strlit("OID");
    let recs = database_records(dbs, true);
    let header = recs[0];
    assert(header == database_header(true));
    assert(header[0] == "IDX"@);
    assert(header[1] == "DB name"@);
    assert(header[2] == "Owner"@);
    assert(header[3] == "Size"@);
    assert(header[4] == "OID"@);
    assert(recs[i + 1] == database_row(i, dbs[i], true));
    assert("IDX"@[0] != "DB name"@[0]);
    assert("IDX"@[0] != "Owner"@[0]);
    assert("IDX"@[0] != "Size"@[0]);
    assert("IDX"@[0] != "OID"@[0]);
    assert("DB name"@[0] != "Owner"@[0]);
    assert("DB name"@[0] != "Size"@[0]);
    assert("DB name"@[0] != "OID"@[0]);
    assert("Owner"@[0] != "Size"@[0]);
    assert("Owner"@[1] != "OID"@[1]);
    assert("Size"@[0] != "OID"@[0]);
}

} // verus!
