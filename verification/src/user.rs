//! The `user` command: what a role listing prints.
use vstd::prelude::*;

use crate::output::{
    bool_string, bool_text, listing_matches, make_listing, number_string, record, record_views,
    same_lengths, Listing,
};
use crate::structs::{OutputFormat, PGCliError, SortingOrder, UserDetails, UserPrivileges};
use crate::text::{decimal, views};

verus! {

/// The options of the `user` command.
#[derive(Debug, Clone, PartialEq, Eq)]
pub struct UserArgs {
    /// The action.
    pub subcommand: UserSubCommands,
}

/// The actions of the `user` command.
#[derive(Debug, Clone, PartialEq, Eq)]
pub enum UserSubCommands {
    /// List roles, sorted, in a format, with details, narrowed by a fuzzy query.
    List { sort: Option<SortingOrder>, output: OutputFormat, extra: bool, query: Option<String> },
    /// Create a role.
    Create { username: String, password: Option<String>, superuser: bool, createdb: bool, no_login: bool },
    /// Delete a role.
    Delete { username: String },
    /// Change the attributes that are given.
    Update {
        username: String,
        password: Option<String>,
        superuser: Option<bool>,
        createdb: Option<bool>,
        no_login: Option<bool>,
    },
    /// Grant an access level on a database and schema.
    Grant { username: String, database: String, schema: String, privileges: UserPrivileges },
    /// Revoke an access level on a database and schema.
    Revoke { username: String, database: String, schema: String, privileges: UserPrivileges },
}


/// The header of a role table or CSV listing.
pub open spec fn user_header(extra: bool) -> Seq<Seq<char>> {
    if extra {
        seq!["IDX"@, "Username"@, "Createdb"@, "Superuser"@, "Login"@, "OID"@]
    } else {
        seq!["IDX"@, "Username"@]
    }
}

/// The row of the `i`-th role: with its details when they are there.
pub open spec fn user_row(i: int, u: UserDetails) -> Seq<Seq<char>> {
    match u {
        UserDetails::Extra { username, createdb, superuser, login, oid } => seq![
            decimal(i as nat),
            username@,
            bool_text(createdb),
            bool_text(superuser),
            bool_text(login),
            decimal(oid as nat),
        ],
        UserDetails::Username(username) => seq![decimal(i as nat), username@],
    }
}

/// The header, then one row per role.
pub open spec fn user_records(users: Seq<UserDetails>, extra: bool) -> Seq<Seq<Seq<char>>> {
    seq![user_header(extra)] + Seq::new(users.len(), |i: int| user_row(i, users[i]))
}

/// The simple line of a role: name, createdb, superuser, login and oid separated by tabs,
/// or the name.
pub open spec fn user_line(u: UserDetails) -> Seq<char> {
    match u {
        UserDetails::Extra { username, createdb, superuser, login, oid } => username@ + "\t"@
            + bool_text(createdb) + "\t"@ + bool_text(superuser) + "\t"@ + bool_text(login) + "\t"@
            + decimal(oid as nat),
        UserDetails::Username(username) => username@,
    }
}

/// The header and rows of a role table or CSV listing.
pub fn user_records_of(users: &Vec<UserDetails>, extra: bool) -> (r: Vec<Vec<String>>)
    ensures
        record_views(r@) == user_records(users@, extra),
        forall|i: int| 0 <= i < r.len() ==> #[trigger] r@[i].len() > 0,
{
    let mut r: Vec<Vec<String>> = Vec::new();
    let header = if extra {
        record(&["IDX", "Username", "Createdb", "Superuser", "Login", "OID"])
    } else {
        record(&["IDX", "Username"])
    };
    assert(views(header@) =~= user_header(extra));
    r.push(header);
    assert(record_views(r@) =~= user_records(users@.take(0), extra));
    let mut i: usize = 0;
    while i < users.len()
        invariant
            i <= users.len(),
            r.len() == i + 1,
            record_views(r@) == user_records(users@.take(i as int), extra),
            forall|k: int| 0 <= k < r.len() ==> #[trigger] r@[k].len() > 0,
        decreases users.len() - i,
    {
        let idx = number_string(i as u64);
        let row = match &users[i] {
            UserDetails::Extra { username, createdb, superuser, login, oid } => {
                let c = bool_string(*createdb);
                let s = bool_string(*superuser);
                let l = bool_string(*login);
                let o = number_string(*oid as u64);
                record(&[idx.as_str(), username.as_str(), c.as_str(), s.as_str(), l.as_str(), o.as_str()])
            },
            UserDetails::Username(username) => record(&[idx.as_str(), username.as_str()]),
        };
        assert(views(row@) =~= user_row(i as int, users@[i as int]));
        let ghost before = r@;
        r.push(row);
        assert(users@.take(i + 1).take(i as int) =~= users@.take(i as int));
        assert(record_views(r@) =~= user_records(users@.take(i + 1), extra)) by {
            assert(record_views(r@) =~= record_views(before).push(views(row@)));
        }
        i = i + 1;
    }
    assert(users@.take(users.len() as int) =~= users@);
    r
}

/// The simple lines of a role listing.
pub fn user_lines(users: &Vec<UserDetails>) -> (r: Vec<String>)
    ensures
        views(r@) == Seq::new(users.len() as nat, |i: int| user_line(users@[i])),
{
    let mut r: Vec<String> = Vec::new();
    let mut i: usize = 0;
    while i < users.len()
        invariant
            i <= users.len(),
            views(r@) == Seq::new(i as nat, |k: int| user_line(users@[k])),
        decreases users.len() - i,
    {
        let line = match &users[i] {
            UserDetails::Extra { username, createdb, superuser, login, oid } => {
                let mut s = username.clone();
                s.append("\t");
                s.append(bool_string(*createdb).as_str());
                s.append("\t");
                s.append(bool_string(*superuser).as_str());
                s.append("\t");
                s.append(bool_string(*login).as_str());
                s.append("\t");
                s.append(number_string(*oid as u64).as_str());
                s
            },
            UserDetails::Username(username) => username.clone(),
        };
        let ghost before = r@;
        r.push(line);
        assert(views(r@) =~= views(before).push(line@));
        assert(views(r@) =~= Seq::new((i + 1) as nat, |k: int| user_line(users@[k])));
        i = i + 1;
    }
    r
}

/// What `user list` prints in each format: the lines, the table, the CSV document, or
/// JSON of the entries.
pub fn user_listing(users: &Vec<UserDetails>, format: OutputFormat, extra: bool) -> (r: Result<
    Listing,
    PGCliError,
>)
    ensures
        (format != OutputFormat::Csv || same_lengths(user_records(users@, extra))) ==> (r matches Ok(
            l,
        ) && listing_matches(
            l,
            format,
            user_records(users@, extra),
            Seq::new(users.len() as nat, |i: int| user_line(users@[i])),
        )),
        format == OutputFormat::Csv && !same_lengths(user_records(users@, extra)) ==> r matches Err(
            PGCliError::SerdeCsv(_),
        ),
{
    let records = user_records_of(users, extra);
    let lines = user_lines(users);
    make_listing(format, records, lines)
}

/// In a detailed role listing, every field of a role's row stands under the header that
/// names it: the index under `IDX`, the name under `Username`, the `createdb`, `superuser`
/// and `login` attributes under `Createdb`, `Superuser` and `Login`, the oid under `OID`;
/// each of these headers is there; and the row's fields after the index, joined by tabs,
/// are the role's simple line.
pub proof fn law_user_rows_match_headers(users: Seq<UserDetails>, i: int)
    requires
        0 <= i < users.len(),
        users[i] is Extra,
    ensures
        ({
            let recs = user_records(users, true);
            let header = recs[0];
            let row = recs[i + 1];
            let u = users[i];
            &&& row.len() == header.len()
            &&& exists|k: int| 0 <= k < header.len() && header[k] == "Createdb"@
            &&& exists|k: int| 0 <= k < header.len() && header[k] == "Superuser"@
            &&& exists|k: int| 0 <= k < header.len() && header[k] == "Login"@
            &&& exists|k: int| 0 <= k < header.len() && header[k] == "Username"@
            &&& exists|k: int| 0 <= k < header.len() && header[k] == "OID"@
            &&& forall|k: int|
                #![trigger header[k]]
                0 <= k < header.len() ==> {
                    &&& header[k] == "IDX"@ ==> row[k] == decimal(i as nat)
                    &&& header[k] == "Username"@ ==> row[k] == u->Extra_username@
                    &&& header[k] == "Createdb"@ ==> row[k] == bool_text(u->Extra_createdb)
                    &&& header[k] == "Superuser"@ ==> row[k] == bool_text(u->Extra_superuser)
                    &&& header[k] == "Login"@ ==> row[k] == bool_text(u->Extra_login)
                    &&& header[k] == "OID"@ ==> row[k] == decimal(u->Extra_oid as nat)
                }
            &&& user_line(u) == row[1] + "\t"@ + row[2] + "\t"@ + row[3] + "\t"@ + row[4] + "\t"@
                + row[5]
        }),
{
    reveal_strlit("IDX");
    reveal_strlit("Username");
    reveal_strlit("Createdb");
    reveal_strlit("Superuser");
    reveal_strlit("Login");
    reveal_strlit("OID");
    let recs = user_records(users, true);
    let header = recs[0];
    let row = recs[i + 1];
    assert(header == user_header(true));
    assert(row == user_row(i, users[i]));
    assert(header[1] == "Username"@);
    assert(header[2] == "Createdb"@);
    assert(header[3] == "Superuser"@);
    assert(header[4] == "Login"@);
    assert(header[5] == "OID"@);
    assert("IDX"@[0] != "Username"@[0]);
    assert("IDX"@[0] != "Createdb"@[0]);
    assert("IDX"@[0] != "Superuser"@[0]);
    assert("IDX"@[0] != "Login"@[0]);
    assert("IDX"@[0] != "OID"@[0]);
    assert("Username"@[0] != "Createdb"@[0]);
    assert("Username"@[0] != "Superuser"@[0]);
    assert("Username"@[0] != "Login"@[0]);
    assert("Username"@[0] != "OID"@[0]);
    assert("Createdb"@[0] != "Superuser"@[0]);
    assert("Createdb"@[0] != "Login"@[0]);
    assert("Createdb"@[0] != "OID"@[0]);
    assert("Superuser"@[0] != "Login"@[0]);
    assert("Superuser"@[0] != "OID"@[0]);
    assert("Login"@[0] != "OID"@[0]);
}

} // verus!
