//! Statements about the extensions of a database.
use vstd::prelude::*;

use crate::db::general::{check_name, order_clause, push_order_clause, push_quoted, quoted, valid_pg_name};
use crate::structs::{fails_with, yields_text, PGCliError, SortingOrder};

verus! {

/// The columns of an extension listing: the name only, or name, owner, version and oid.
pub open spec fn extension_fields(extra: bool) -> Seq<char> {
    if extra {
        "extname, extowner, extversion, oid"@
    } else {
        "extname"@
    }
}

/// The query that lists the extensions, sorted by name if asked.
pub open spec fn spec_list_extensions_query(sort: Option<SortingOrder>, extra: bool) -> Seq<char> {
    "SELECT "@ + extension_fields(extra) + " FROM pg_extension"@ + order_clause(sort, "extname"@)
}

/// The query that `list_extensions` runs.
pub fn list_extensions_query(sort: &Option<SortingOrder>, extra: bool) -> (r: String)
    ensures
        r@ == spec_list_extensions_query(*sort, extra),
{
    let mut q = "SELECT ".to_owned();
    if extra {
        q.append("extname, extowner, extversion, oid");
    } else {
        q.append("extname");
    }
    q.append(" FROM pg_extension");
    push_order_clause(&mut q, sort, "extname");
    q
}

/// The statement that `create_extension` runs: `CREATE EXTENSION IF NOT EXISTS "name"`,
/// for a valid name.
pub fn create_extension_statement(extension: &str) -> (r: Result<String, PGCliError>)
    ensures
        !valid_pg_name(extension@) ==> fails_with(r, "Invalid extension name"@),
        valid_pg_name(extension@) ==> yields_text(
            r,
            "CREATE EXTENSION IF NOT EXISTS "@ + quoted(extension@),
        ),
{
    check_name(extension, "Invalid extension name")?;
    let mut s = "CREATE EXTENSION IF NOT EXISTS ".to_owned();
    push_quoted(&mut s, extension);
    Ok(s)
}

/// The statement that `drop_extension` runs: `DROP EXTENSION IF EXISTS "name"`, for a
/// valid name.
pub fn drop_extension_statement(extension: &str) -> (r: Result<String, PGCliError>)
    ensures
        !valid_pg_name(extension@) ==> fails_with(r, "Invalid extension name"@),
        valid_pg_name(extension@) ==> yields_text(r, "DROP EXTENSION IF EXISTS "@ + quoted(extension@)),
{
    check_name(extension, "Invalid extension name")?;
    let mut s = "DROP EXTENSION IF EXISTS ".to_owned();
    push_quoted(&mut s, extension);
    Ok(s)
}

} // verus!
