//! Statements about databases: listing, creating, dropping, changing owners.
use vstd::prelude::*;

use crate::db::general::{check_name, order_clause, push_order_clause, push_quoted, quoted, valid_pg_name};
use crate::structs::{fails_with, PGCliError, SortingOrder};

verus! {

/// The columns of a database listing: the name only, or name, oid, size and owner.
pub open spec fn database_fields(extra: bool) -> Seq<char> {
    if extra {
        "d.datname, d.oid, pg_size_pretty(pg_database_size(d.datname)), r.rolname"@
    } else {
        "d.datname"@
    }
}

/// The query that lists the databases that are not templates, sorted by name if asked.
pub open spec fn spec_list_databases_query(sort: Option<SortingOrder>, extra: bool) -> Seq<char> {
    "SELECT "@ + database_fields(extra)
        + " FROM pg_database d LEFT JOIN pg_roles r ON d.datdba = r.oid WHERE d.datistemplate = false AND d.datname NOT IN ('template0','template1')"@
        + order_clause(sort, "d.datname"@)
}

/// The query that `list_databases` runs.
pub fn list_databases_query(sort: &Option<SortingOrder>, extra: bool) -> (r: String)
    ensures
        r@ == spec_list_databases_query(*sort, extra),
{
    let mut q = "SELECT ".to_owned();
    if extra {
        q.append("d.datname, d.oid, pg_size_pretty(pg_database_size(d.datname)), r.rolname");
    } else {
        q.append("d.datname");
    }
    q.append(
        " FROM pg_database d LEFT JOIN pg_roles r ON d.datdba = r.oid WHERE d.datistemplate = false AND d.datname NOT IN ('template0','template1')",
    );
    push_order_clause(&mut q, sort, "d.datname");
    q
}

/// The query that tells whether a database exists (its name is the parameter).
pub fn check_database_exists_query() -> (r: &'static str)
    ensures
        r@ == "SELECT EXISTS(SELECT 1 FROM pg_database WHERE datname=$1)"@,
{
    "SELECT EXISTS(SELECT 1 FROM pg_database WHERE datname=$1)"
}

/// The statement that ends the other sessions on a database (its name is the parameter).
pub fn kill_connections_query() -> (r: &'static str)
    ensures
        r@
            == "SELECT pg_terminate_backend(pid) FROM pg_stat_activity WHERE pid <> pg_backend_pid() AND datname = $1"@,
{
    "SELECT pg_terminate_backend(pid) FROM pg_stat_activity WHERE pid <> pg_backend_pid() AND datname = $1"
}

/// The query that gives the owner of a database (its name is the parameter).
pub fn database_owner_query() -> (r: &'static str)
    ensures
        r@
            == "SELECT r.rolname FROM pg_database d JOIN pg_roles r ON d.datdba = r.oid WHERE d.datname = $1"@,
{
    "SELECT r.rolname FROM pg_database d JOIN pg_roles r ON d.datdba = r.oid WHERE d.datname = $1"
}

/// Checks the names given to `create_db`: the database, then the owner.
pub fn check_create_db(db: &str, owner: &str) -> (r: Result<(), PGCliError>)
    ensures
        !valid_pg_name(db@) ==> fails_with(r, "Invalid database name"@),
        valid_pg_name(db@) && !valid_pg_name(owner@) ==> fails_with(r, "Invalid owner name"@),
        valid_pg_name(db@) && valid_pg_name(owner@) ==> r is Ok,
{
    check_name(db, "Invalid database name")?;
    check_name(owner, "Invalid owner name")
}

/// The statement that `create_db` runs: `CREATE DATABASE "db" WITH OWNER "owner"`.
pub fn create_db_statement(db: &str, owner: &str) -> (r: String)
    ensures
        r@ == "CREATE DATABASE "@ + quoted(db@) + " WITH OWNER "@ + quoted(owner@),
{
    let mut s = "CREATE DATABASE ".to_owned();
    push_quoted(&mut s, db);
    s.append(" WITH OWNER ");
    push_quoted(&mut s, owner);
    s
}

/// The statement that `delete_db` runs: `DROP DATABASE "db"`.
pub fn delete_db_statement(db: &str) -> (r: String)
    ensures
        r@ == "DROP DATABASE "@ + quoted(db@),
{
    let mut s = "DROP DATABASE ".to_owned();
    push_quoted(&mut s, db);
    s
}

/// Checks the names given to the owner changes: the new owner, then the database.
pub fn check_owner_change(db: &str, new_owner: &str) -> (r: Result<(), PGCliError>)
    ensures
        !valid_pg_name(new_owner@) ==> fails_with(r, "Invalid new owner name"@),
        valid_pg_name(new_owner@) && !valid_pg_name(db@) ==> fails_with(r, "Invalid database name"@),
        valid_pg_name(new_owner@) && valid_pg_name(db@) ==> r is Ok,
{
    check_name(new_owner, "Invalid new owner name")?;
    check_name(db, "Invalid database name")
}

/// The statement that `change_owner_of_db` runs: `ALTER DATABASE "db" OWNER TO "owner"`.
pub fn change_owner_of_db_statement(db: &str, new_owner: &str) -> (r: String)
    ensures
        r@ == "ALTER DATABASE "@ + quoted(db@) + " OWNER TO "@ + quoted(new_owner@),
{
    let mut s = "ALTER DATABASE ".to_owned();
    push_quoted(&mut s, db);
    s.append(" OWNER TO ");
    push_quoted(&mut s, new_owner);
    s
}

/// The query for the tables whose owner `change_owner_of_tables_in_db` changes.
pub fn public_tables_query() -> (r: &'static str)
    ensures
        r@ == "SELECT tablename FROM pg_tables WHERE schemaname = 'public'"@,
{
    "SELECT tablename FROM pg_tables WHERE schemaname = 'public'"
}

/// The statement that gives a table of the `public` schema a new owner:
/// `ALTER TABLE "public"."table" OWNER TO owner`.
pub fn change_table_owner_statement(table: &str, new_owner: &str) -> (r: String)
    ensures
        r@ == "ALTER TABLE "@ + quoted("public"@) + "."@ + quoted(table@) + " OWNER TO "@
            + new_owner@,
{
    let mut s = "ALTER TABLE ".to_owned();
    push_quoted(&mut s, "public");
    s.append(".");
    push_quoted(&mut s, table);
    s.append(" OWNER TO ");
    s.append(new_owner);
    s
}

/// The query for the user-defined base and enum types whose owner
/// `change_owner_of_objects_in_db` changes.
pub fn user_types_query() -> (r: &'static str)
    ensures
        r@
            == "SELECT typname FROM pg_type WHERE typtype IN ('b', 'e') AND typcategory != 'A' AND typnamespace IN (SELECT oid FROM pg_namespace WHERE nspname NOT IN ('pg_catalog', 'information_schema'))"@,
{
    "SELECT typname FROM pg_type WHERE typtype IN ('b', 'e') AND typcategory != 'A' AND typnamespace IN (SELECT oid FROM pg_namespace WHERE nspname NOT IN ('pg_catalog', 'information_schema'))"
}

/// The statement that gives a type a new owner: `ALTER TYPE "type" OWNER TO "owner"`.
pub fn change_type_owner_statement(typname: &str, new_owner: &str) -> (r: String)
    ensures
        r@ == "ALTER TYPE "@ + quoted(typname@) + " OWNER TO "@ + quoted(new_owner@),
{
    let mut s = "ALTER TYPE ".to_owned();
    push_quoted(&mut s, typname);
    s.append(" OWNER TO ");
    push_quoted(&mut s, new_owner);
    s
}

} // verus!
