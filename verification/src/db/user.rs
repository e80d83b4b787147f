//! Statements about roles: listing, creating, changing, dropping, granting, revoking.
use vstd::prelude::*;

use crate::db::general::{
    check_name, order_clause, push_order_clause, push_quoted, quoted, valid_pg_name,
    validate_pg_names,
};
use crate::misc::generate_random_string;
use crate::structs::{fails_with, yields_text, PGCliError, SortingOrder, UserPrivileges};
use crate::text::{has_text, is_ascii_alphanumeric, lemma_has_text_between, starts_with};

verus! {

/// Built-in roles that listings leave out.
pub open spec fn ignored_roles() -> Seq<char> {
    "'pg_checkpoint','pg_create_subscription','pg_database_owner','pg_execute_server_program','pg_monitor','pg_read_all_data','pg_read_all_settings','pg_read_all_stats','pg_read_server_files','pg_stat_scan_tables','pg_use_reserved_connections','pg_write_all_data','pg_write_server_files','pg_signal_backend'"@
}

/// The columns of a role listing: name only, or name, superuser, createdb, login and oid.
pub open spec fn role_fields(extra: bool) -> Seq<char> {
    if extra {
        "rolname, rolsuper, rolcreatedb, rolcanlogin, oid"@
    } else {
        "rolname"@
    }
}

/// The query that lists roles, built-in ones excluded, sorted by name if asked.
pub open spec fn spec_list_roles_query(sort: Option<SortingOrder>, extra: bool) -> Seq<char> {
    "SELECT "@ + role_fields(extra) + " FROM pg_roles WHERE rolname NOT IN ("@ + ignored_roles()
        + ")"@ + order_clause(sort, "rolname"@)
}

/// The query that `list_roles` runs.
pub fn list_roles_query(sort: &Option<SortingOrder>, extra: bool) -> (r: String)
    ensures
        r@ == spec_list_roles_query(*sort, extra),
{
    let mut q = "SELECT ".to_owned();
    if extra {
        q.append("rolname, rolsuper, rolcreatedb, rolcanlogin, oid");
    } else {
        q.append("rolname");
    }
    q.append(" FROM pg_roles WHERE rolname NOT IN (");
    q.append(
        "'pg_checkpoint','pg_create_subscription','pg_database_owner','pg_execute_server_program','pg_monitor','pg_read_all_data','pg_read_all_settings','pg_read_all_stats','pg_read_server_files','pg_stat_scan_tables','pg_use_reserved_connections','pg_write_all_data','pg_write_server_files','pg_signal_backend'",
    );
    q.append(")");
    push_order_clause(&mut q, sort, "rolname");
    q
}

/// The query that tells whether a role exists (its name is the parameter).
pub fn check_user_exists_query() -> (r: &'static str)
    ensures
        r@ == "SELECT EXISTS(SELECT 1 FROM pg_roles WHERE rolname=$1)"@,
{
    "SELECT EXISTS(SELECT 1 FROM pg_roles WHERE rolname=$1)"
}

/// A password is given and is not a valid name.
pub open spec fn bad_password(password: Option<String>) -> bool {
    match password {
        Some(p) => !valid_pg_name(p@),
        None => false,
    }
}

/// Checks the arguments of `create_user`: the user name, then the password if given.
pub fn check_create_user(user: &str, password: &Option<String>) -> (r: Result<(), PGCliError>)
    ensures
        !valid_pg_name(user@) ==> fails_with(r, "Invalid user name"@),
        valid_pg_name(user@) && bad_password(*password) ==> fails_with(r, "Invalid password"@),
        valid_pg_name(user@) && !bad_password(*password) ==> r is Ok,
{
    check_name(user, "Invalid user name")?;
    match password {
        Some(p) => check_name(p.as_str(), "Invalid password"),
        None => Ok(()),
    }
}

/// The password of a new role: the given one if it is a valid name, else an error; without
/// one, 32 random ASCII letters and digits.
pub fn role_password(password: &Option<String>) -> (r: Result<String, PGCliError>)
    ensures
        match password {
            Some(p) => if valid_pg_name(p@) {
                yields_text(r, p@)
            } else {
                fails_with(r, "Invalid password"@)
            },
            None => r matches Ok(s) && s@.len() == 32 && forall|i: int|
                0 <= i < 32 ==> is_ascii_alphanumeric(#[trigger] s@[i]),
        },
{
    match password {
        Some(p) => {
            if validate_pg_names(p.as_str()) {
                Ok(p.clone())
            } else {
                Err(PGCliError::Other("Invalid password".to_owned()))
            }
        },
        None => Ok(generate_random_string(32, false)),
    }
}

/// `CREATE ROLE "role" WITH PASSWORD 'password'`, then ` SUPERUSER`, ` CREATEDB` and
/// ` LOGIN` as asked.
pub open spec fn spec_create_role_statement(
    role: Seq<char>,
    password: Seq<char>,
    superuser: bool,
    createdb: bool,
    no_login: bool,
) -> Seq<char> {
    "CREATE ROLE "@ + quoted(role) + " WITH PASSWORD '"@ + password + "'"@ + (if superuser {
        " SUPERUSER"@
    } else {
        Seq::<char>::empty()
    }) + (if createdb {
        " CREATEDB"@
    } else {
        Seq::<char>::empty()
    }) + (if !no_login {
        " LOGIN"@
    } else {
        Seq::<char>::empty()
    })
}

/// The statement that `create_role` runs.
pub fn create_role_statement(
    role: &str,
    password: &str,
    superuser: bool,
    createdb: bool,
    no_login: bool,
) -> (r: String)
    ensures
        r@ == spec_create_role_statement(role@, password@, superuser, createdb, no_login),
{
    let mut s = "CREATE ROLE ".to_owned();
    push_quoted(&mut s, role);
    s.append(" WITH PASSWORD '");
    s.append(password);
    s.append("'");
    if superuser {
        s.append(" SUPERUSER");
    }
    if createdb {
        s.append(" CREATEDB");
    }
    if !no_login {
        s.append(" LOGIN");
    }
    s
}

/// The statement that `delete_role` runs: `DROP ROLE "role"`.
pub fn delete_role_statement(role: &str) -> (r: String)
    ensures
        r@ == "DROP ROLE "@ + quoted(role@),
{
    let mut s = "DROP ROLE ".to_owned();
    push_quoted(&mut s, role);
    s
}

/// `ALTER ROLE role`, then the password and each flag that is given.
pub open spec fn spec_alter_role_statement(
    role: Seq<char>,
    password: Option<Seq<char>>,
    superuser: Option<bool>,
    createdb: Option<bool>,
    no_login: Option<bool>,
) -> Seq<char> {
    "ALTER ROLE "@ + role + (match password {
        Some(p) => " WITH PASSWORD '"@ + p + "'"@,
        None => Seq::<char>::empty(),
    }) + (match superuser {
        Some(true) => " SUPERUSER"@,
        Some(false) => " NOSUPERUSER"@,
        None => Seq::<char>::empty(),
    }) + (match createdb {
        Some(true) => " CREATEDB"@,
        Some(false) => " NOCREATEDB"@,
        None => Seq::<char>::empty(),
    }) + (match no_login {
        Some(false) => " LOGIN"@,
        Some(true) => " NOLOGIN"@,
        None => Seq::<char>::empty(),
    })
}

pub open spec fn opt_view(o: Option<String>) -> Option<Seq<char>> {
    match o {
        Some(s) => Some(s@),
        None => None,
    }
}

/// The statement that `alter_role` runs for an existing role; a given password must be a
/// valid name.
pub fn alter_role_statement(
    role: &str,
    password: &Option<String>,
    superuser: &Option<bool>,
    createdb: &Option<bool>,
    no_login: &Option<bool>,
) -> (r: Result<String, PGCliError>)
    ensures
        bad_password(*password) ==> fails_with(r, "Invalid password"@),
        !bad_password(*password) ==> yields_text(
            r,
            spec_alter_role_statement(role@, opt_view(*password), *superuser, *createdb, *no_login),
        ),
{
    let mut s = "ALTER ROLE ".to_owned();
    s.append(role);
    let mut pw = String::new();
    if let Some(p) = password {
        if !validate_pg_names(p.as_str()) {
            return Err(PGCliError::Other("Invalid password".to_owned()));
        }
        pw.append(" WITH PASSWORD '");
        pw.append(p.as_str());
        pw.append("'");
    }
    s.append(pw.as_str());
    match superuser {
        Some(true) => s.append(" SUPERUSER"),
        Some(false) => s.append(" NOSUPERUSER"),
        None => {},
    }
    match createdb {
        Some(true) => s.append(" CREATEDB"),
        Some(false) => s.append(" NOCREATEDB"),
        None => {},
    }
    match no_login {
        Some(false) => s.append(" LOGIN"),
        Some(true) => s.append(" NOLOGIN"),
        None => {},
    }
    Ok(s)
}


/// `head "schema" middle "role"`.
pub open spec fn schema_role(head: Seq<char>, schema: Seq<char>, middle: Seq<char>, role: Seq<char>) -> Seq<char> {
    head + quoted(schema) + middle + quoted(role)
}

fn schema_role_statement(head: &str, schema: &str, middle: &str, role: &str) -> (r: String)
    ensures
        r@ == schema_role(head@, schema@, middle@, role@),
{
    let mut s = head.to_owned();
    push_quoted(&mut s, schema);
    s.append(middle);
    push_quoted(&mut s, role);
    s
}

/// The database-level statement of a grant: all privileges for `full`, else `CONNECT`.
pub open spec fn spec_grant_database_statement(privileges: UserPrivileges, database: Seq<char>, role: Seq<char>) -> Seq<char> {
    match privileges {
        UserPrivileges::Full => schema_role("GRANT ALL PRIVILEGES ON DATABASE "@, database, " TO "@, role),
        _ => schema_role("GRANT CONNECT ON DATABASE "@, database, " TO "@, role),
    }
}

/// The first statement that `grant_privileges` runs, on the database itself.
pub fn grant_database_statement(privileges: &UserPrivileges, database: &str, role: &str) -> (r: String)
    ensures
        r@ == spec_grant_database_statement(*privileges, database@, role@),
{
    match privileges {
        UserPrivileges::Full => schema_role_statement("GRANT ALL PRIVILEGES ON DATABASE ", database, " TO ", role),
        _ => schema_role_statement("GRANT CONNECT ON DATABASE ", database, " TO ", role),
    }
}

/// The database-level statement of a revoke: all privileges for `full`, else `CONNECT`.
pub open spec fn spec_revoke_database_statement(privileges: UserPrivileges, database: Seq<char>, role: Seq<char>) -> Seq<char> {
    match privileges {
        UserPrivileges::Full => schema_role("REVOKE ALL PRIVILEGES ON DATABASE "@, database, " FROM "@, role),
        _ => schema_role("REVOKE CONNECT ON DATABASE "@, database, " FROM "@, role),
    }
}

/// The first statement that `revoke_privileges` runs, on the database itself.
pub fn revoke_database_statement(privileges: &UserPrivileges, database: &str, role: &str) -> (r: String)
    ensures
        r@ == spec_revoke_database_statement(*privileges, database@, role@),
{
    match privileges {
        UserPrivileges::Full => schema_role_statement("REVOKE ALL PRIVILEGES ON DATABASE ", database, " FROM ", role),
        _ => schema_role_statement("REVOKE CONNECT ON DATABASE ", database, " FROM ", role),
    }
}

/// The statements that grant read access on a schema's tables and sequences.
pub open spec fn read_only_grants(schema: Seq<char>, role: Seq<char>) -> Seq<Seq<char>> {
    seq![
        schema_role("GRANT USAGE ON SCHEMA "@, schema, " TO "@, role),
        schema_role("GRANT SELECT ON ALL TABLES IN SCHEMA "@, schema, " TO "@, role),
        schema_role("GRANT USAGE, SELECT ON ALL SEQUENCES IN SCHEMA "@, schema, " TO "@, role),
        schema_role("ALTER DEFAULT PRIVILEGES IN SCHEMA "@, schema, " GRANT SELECT ON TABLES TO "@, role),
    ]
}

/// The schema-level statements of a grant at each access level; every level also sets the
/// default privileges, so that tables created later are covered too.
pub open spec fn spec_grant_tables(access: UserPrivileges, schema: Seq<char>, role: Seq<char>) -> Seq<Seq<char>> {
    match access {
        UserPrivileges::Full => seq![
            schema_role("GRANT ALL ON SCHEMA "@, schema, " TO "@, role),
            schema_role("GRANT ALL PRIVILEGES ON SCHEMA "@, schema, " TO "@, role),
            schema_role("GRANT ALL PRIVILEGES ON ALL TABLES IN SCHEMA "@, schema, " TO "@, role),
            schema_role("GRANT ALL PRIVILEGES ON ALL SEQUENCES IN SCHEMA "@, schema, " TO "@, role),
            schema_role("ALTER DEFAULT PRIVILEGES IN SCHEMA "@, schema, " GRANT ALL PRIVILEGES ON TABLES TO "@, role),
        ],
        UserPrivileges::ReadOnly => read_only_grants(schema, role),
        UserPrivileges::ReadUpdateOnly => read_only_grants(schema, role) + seq![
            schema_role("GRANT UPDATE ON ALL TABLES IN SCHEMA "@, schema, " TO "@, role),
            schema_role("ALTER DEFAULT PRIVILEGES IN SCHEMA "@, schema, " GRANT UPDATE ON TABLES TO "@, role),
        ],
    }
}

/// The statements that `grant_privileges` runs on the schema, in the database.
pub fn prepare_grant_privileges_tables(access_level: &UserPrivileges, schema: &str, role: &str) -> (r: Vec<String>)
    ensures
        crate::text::views(r@) == spec_grant_tables(*access_level, schema@, role@),
    decreases if *access_level == UserPrivileges::ReadUpdateOnly { 1int } else { 0int },
{
    let mut statements: Vec<String> = Vec::new();
    match access_level {
        UserPrivileges::Full => {
            statements.push(schema_role_statement("GRANT ALL ON SCHEMA ", schema, " TO ", role));
            statements.push(schema_role_statement("GRANT ALL PRIVILEGES ON SCHEMA ", schema, " TO ", role));
            statements.push(schema_role_statement("GRANT ALL PRIVILEGES ON ALL TABLES IN SCHEMA ", schema, " TO ", role));
            statements.push(schema_role_statement("GRANT ALL PRIVILEGES ON ALL SEQUENCES IN SCHEMA ", schema, " TO ", role));
            statements.push(schema_role_statement("ALTER DEFAULT PRIVILEGES IN SCHEMA ", schema, " GRANT ALL PRIVILEGES ON TABLES TO ", role));
        },
        UserPrivileges::ReadOnly => {
            statements.push(schema_role_statement("GRANT USAGE ON SCHEMA ", schema, " TO ", role));
            statements.push(schema_role_statement("GRANT SELECT ON ALL TABLES IN SCHEMA ", schema, " TO ", role));
            statements.push(schema_role_statement("GRANT USAGE, SELECT ON ALL SEQUENCES IN SCHEMA ", schema, " TO ", role));
            statements.push(schema_role_statement("ALTER DEFAULT PRIVILEGES IN SCHEMA ", schema, " GRANT SELECT ON TABLES TO ", role));
        },
        UserPrivileges::ReadUpdateOnly => {
            let mut read_only = prepare_grant_privileges_tables(&UserPrivileges::ReadOnly, schema, role);
            statements.append(&mut read_only);
            statements.push(schema_role_statement("GRANT UPDATE ON ALL TABLES IN SCHEMA ", schema, " TO ", role));
            statements.push(schema_role_statement("ALTER DEFAULT PRIVILEGES IN SCHEMA ", schema, " GRANT UPDATE ON TABLES TO ", role));
        },
    }
    assert(crate::text::views(statements@) =~= spec_grant_tables(*access_level, schema@, role@));
    statements
}

/// The statements that revoke read access on a schema's tables and sequences.
pub open spec fn read_only_revokes(schema: Seq<char>, role: Seq<char>) -> Seq<Seq<char>> {
    seq![
        schema_role("REVOKE USAGE ON SCHEMA "@, schema, " FROM "@, role),
        schema_role("REVOKE SELECT ON ALL TABLES IN SCHEMA "@, schema, " FROM "@, role),
        schema_role("REVOKE USAGE, SELECT ON ALL SEQUENCES IN SCHEMA "@, schema, " FROM "@, role),
        schema_role("ALTER DEFAULT PRIVILEGES IN SCHEMA "@, schema, " REVOKE SELECT ON TABLES FROM "@, role),
    ]
}

/// The schema-level statements of a revoke at each access level, default privileges
/// included.
pub open spec fn spec_revoke_tables(access: UserPrivileges, schema: Seq<char>, role: Seq<char>) -> Seq<Seq<char>> {
    match access {
        UserPrivileges::Full => seq![
            schema_role("REVOKE ALL PRIVILEGES ON SCHEMA "@, schema, " FROM "@, role),
            schema_role("REVOKE ALL PRIVILEGES ON ALL TABLES IN SCHEMA "@, schema, " FROM "@, role),
            schema_role("REVOKE ALL PRIVILEGES ON ALL SEQUENCES IN SCHEMA "@, schema, " FROM "@, role),
            schema_role("ALTER DEFAULT PRIVILEGES IN SCHEMA "@, schema, " REVOKE ALL PRIVILEGES ON TABLES FROM "@, role),
        ],
        UserPrivileges::ReadOnly => read_only_revokes(schema, role),
        UserPrivileges::ReadUpdateOnly => read_only_revokes(schema, role) + seq![
            schema_role("REVOKE UPDATE ON ALL TABLES IN SCHEMA "@, schema, " FROM "@, role),
            schema_role("ALTER DEFAULT PRIVILEGES IN SCHEMA "@, schema, " REVOKE UPDATE ON TABLES FROM "@, role),
        ],
    }
}

/// The statements that `revoke_privileges` runs on the schema, in the database.
pub fn prepare_revoke_privileges_tables(access_level: &UserPrivileges, schema: &str, role: &str) -> (r: Vec<String>)
    ensures
        crate::text::views(r@) == spec_revoke_tables(*access_level, schema@, role@),
    decreases if *access_level == UserPrivileges::ReadUpdateOnly { 1int } else { 0int },
{
    let mut statements: Vec<String> = Vec::new();
    match access_level {
        UserPrivileges::Full => {
            statements.push(schema_role_statement("REVOKE ALL PRIVILEGES ON SCHEMA ", schema, " FROM ", role));
            statements.push(schema_role_statement("REVOKE ALL PRIVILEGES ON ALL TABLES IN SCHEMA ", schema, " FROM ", role));
            statements.push(schema_role_statement("REVOKE ALL PRIVILEGES ON ALL SEQUENCES IN SCHEMA ", schema, " FROM ", role));
            statements.push(schema_role_statement("ALTER DEFAULT PRIVILEGES IN SCHEMA ", schema, " REVOKE ALL PRIVILEGES ON TABLES FROM ", role));
        },
        UserPrivileges::ReadOnly => {
            statements.push(schema_role_statement("REVOKE USAGE ON SCHEMA ", schema, " FROM ", role));
            statements.push(schema_role_statement("REVOKE SELECT ON ALL TABLES IN SCHEMA ", schema, " FROM ", role));
            statements.push(schema_role_statement("REVOKE USAGE, SELECT ON ALL SEQUENCES IN SCHEMA ", schema, " FROM ", role));
            statements.push(schema_role_statement("ALTER DEFAULT PRIVILEGES IN SCHEMA ", schema, " REVOKE SELECT ON TABLES FROM ", role));
        },
        UserPrivileges::ReadUpdateOnly => {
            let mut read_only = prepare_revoke_privileges_tables(&UserPrivileges::ReadOnly, schema, role);
            statements.append(&mut read_only);
            statements.push(schema_role_statement("REVOKE UPDATE ON ALL TABLES IN SCHEMA ", schema, " FROM ", role));
            statements.push(schema_role_statement("ALTER DEFAULT PRIVILEGES IN SCHEMA ", schema, " REVOKE UPDATE ON TABLES FROM ", role));
        },
    }
    assert(crate::text::views(statements@) =~= spec_revoke_tables(*access_level, schema@, role@));
    statements
}

/// The read-and-update level grants exactly what the read-only level grants, then
/// update rights; the same holds of revoking.
pub proof fn law_read_update_extends_read_only(schema: Seq<char>, role: Seq<char>)
    ensures
        spec_grant_tables(UserPrivileges::ReadUpdateOnly, schema, role).take(4) == spec_grant_tables(
            UserPrivileges::ReadOnly,
            schema,
            role,
        ),
        spec_revoke_tables(UserPrivileges::ReadUpdateOnly, schema, role).take(4)
            == spec_revoke_tables(UserPrivileges::ReadOnly, schema, role),
        spec_grant_tables(UserPrivileges::ReadUpdateOnly, schema, role).len() == 6,
        spec_revoke_tables(UserPrivileges::ReadUpdateOnly, schema, role).len() == 6,
{
    assert(spec_grant_tables(UserPrivileges::ReadUpdateOnly, schema, role).take(4) =~= spec_grant_tables(
        UserPrivileges::ReadOnly,
        schema,
        role,
    ));
    assert(spec_revoke_tables(UserPrivileges::ReadUpdateOnly, schema, role).take(4)
        =~= spec_revoke_tables(UserPrivileges::ReadOnly, schema, role));
}

/// At every access level, granting and revoking also change the default privileges of the
/// schema, so that objects created later follow.
pub proof fn law_every_level_sets_default_privileges(access: UserPrivileges, schema: Seq<char>, role: Seq<char>)
    ensures
        exists|i: int|
            0 <= i < spec_grant_tables(access, schema, role).len() && #[trigger] starts_with(
                spec_grant_tables(access, schema, role)[i],
                "ALTER DEFAULT PRIVILEGES IN SCHEMA "@,
            ),
        exists|i: int|
            0 <= i < spec_revoke_tables(access, schema, role).len() && #[trigger] starts_with(
                spec_revoke_tables(access, schema, role)[i],
                "ALTER DEFAULT PRIVILEGES IN SCHEMA "@,
            ),
{
    let head = "ALTER DEFAULT PRIVILEGES IN SCHEMA "@;
    let g = spec_grant_tables(access, schema, role);
    let r = spec_revoke_tables(access, schema, role);
    let gi: int = if access == UserPrivileges::Full { 4 } else { 3 };
    assert(g[gi].subrange(0, head.len() as int) =~= head);
    assert(starts_with(g[gi], head));
    assert(r[3].subrange(0, head.len() as int) =~= head);
    assert(starts_with(r[3], head));
}

/// The statement that grants a privilege clause on `on` to `role`. A clause tells whether
/// it sets the default privileges of a schema, and names the privileges with the kind of
/// object they are on.
pub open spec fn grant_form(clause: (bool, Seq<char>), on: Seq<char>, role: Seq<char>) -> Seq<char> {
    if clause.0 {
        "ALTER DEFAULT PRIVILEGES IN SCHEMA "@ + quoted(on) + " GRANT "@ + clause.1 + " TO "@ + quoted(role)
    } else {
        "GRANT "@ + clause.1 + quoted(on) + " TO "@ + quoted(role)
    }
}

/// The statement that takes back what `grant_form` gives.
pub open spec fn revoke_form(clause: (bool, Seq<char>), on: Seq<char>, role: Seq<char>) -> Seq<char> {
    if clause.0 {
        "ALTER DEFAULT PRIVILEGES IN SCHEMA "@ + quoted(on) + " REVOKE "@ + clause.1 + " FROM "@ + quoted(role)
    } else {
        "REVOKE "@ + clause.1 + quoted(on) + " FROM "@ + quoted(role)
    }
}

proof fn lemma_clause_all_privileges_on_schema(on: Seq<char>, role: Seq<char>)
    ensures
        grant_form((false, "ALL PRIVILEGES ON SCHEMA "@), on, role) == schema_role("GRANT ALL PRIVILEGES ON SCHEMA "@, on, " TO "@, role),
        revoke_form((false, "ALL PRIVILEGES ON SCHEMA "@), on, role) == schema_role("REVOKE ALL PRIVILEGES ON SCHEMA "@, on, " FROM "@, role),
{
    reveal_strlit("ALL PRIVILEGES ON SCHEMA ");
    reveal_strlit("GRANT ALL PRIVILEGES ON SCHEMA ");
    reveal_strlit("REVOKE ALL PRIVILEGES ON SCHEMA ");
    reveal_strlit("GRANT ");
    reveal_strlit("REVOKE ");
    assert("GRANT ALL PRIVILEGES ON SCHEMA "@ =~= "GRANT "@ + "ALL PRIVILEGES ON SCHEMA "@);
    assert("REVOKE ALL PRIVILEGES ON SCHEMA "@ =~= "REVOKE "@ + "ALL PRIVILEGES ON SCHEMA "@);
    assert(grant_form((false, "ALL PRIVILEGES ON SCHEMA "@), on, role) =~= schema_role("GRANT ALL PRIVILEGES ON SCHEMA "@, on, " TO "@, role));
    assert(revoke_form((false, "ALL PRIVILEGES ON SCHEMA "@), on, role) =~= schema_role("REVOKE ALL PRIVILEGES ON SCHEMA "@, on, " FROM "@, role));
}

proof fn lemma_clause_all_privileges_on_tables(on: Seq<char>, role: Seq<char>)
    ensures
        grant_form((false, "ALL PRIVILEGES ON ALL TABLES IN SCHEMA "@), on, role) == schema_role("GRANT ALL PRIVILEGES ON ALL TABLES IN SCHEMA "@, on, " TO "@, role),
        revoke_form((false, "ALL PRIVILEGES ON ALL TABLES IN SCHEMA "@), on, role) == schema_role("REVOKE ALL PRIVILEGES ON ALL TABLES IN SCHEMA "@, on, " FROM "@, role),
{
    reveal_strlit("ALL PRIVILEGES ON ALL TABLES IN SCHEMA ");
    reveal_strlit("GRANT ALL PRIVILEGES ON ALL TABLES IN SCHEMA ");
    reveal_strlit("REVOKE ALL PRIVILEGES ON ALL TABLES IN SCHEMA ");
    reveal_strlit("GRANT ");
    reveal_strlit("REVOKE ");
    assert("GRANT ALL PRIVILEGES ON ALL TABLES IN SCHEMA "@ =~= "GRANT "@ + "ALL PRIVILEGES ON ALL TABLES IN SCHEMA "@);
    assert("REVOKE ALL PRIVILEGES ON ALL TABLES IN SCHEMA "@ =~= "REVOKE "@ + "ALL PRIVILEGES ON ALL TABLES IN SCHEMA "@);
    assert(grant_form((false, "ALL PRIVILEGES ON ALL TABLES IN SCHEMA "@), on, role) =~= schema_role("GRANT ALL PRIVILEGES ON ALL TABLES IN SCHEMA "@, on, " TO "@, role));
    assert(revoke_form((false, "ALL PRIVILEGES ON ALL TABLES IN SCHEMA "@), on, role) =~= schema_role("REVOKE ALL PRIVILEGES ON ALL TABLES IN SCHEMA "@, on, " FROM "@, role));
}

proof fn lemma_clause_all_privileges_on_sequences(on: Seq<char>, role: Seq<char>)
    ensures
        grant_form((false, "ALL PRIVILEGES ON ALL SEQUENCES IN SCHEMA "@), on, role) == schema_role("GRANT ALL PRIVILEGES ON ALL SEQUENCES IN SCHEMA "@, on, " TO "@, role),
        revoke_form((false, "ALL PRIVILEGES ON ALL SEQUENCES IN SCHEMA "@), on, role) == schema_role("REVOKE ALL PRIVILEGES ON ALL SEQUENCES IN SCHEMA "@, on, " FROM "@, role),
{
    reveal_strlit("ALL PRIVILEGES ON ALL SEQUENCES IN SCHEMA ");
    reveal_strlit("GRANT ALL PRIVILEGES ON ALL SEQUENCES IN SCHEMA ");
    reveal_strlit("REVOKE ALL PRIVILEGES ON ALL SEQUENCES IN SCHEMA ");
    reveal_strlit("GRANT ");
    reveal_strlit("REVOKE ");
    assert("GRANT ALL PRIVILEGES ON ALL SEQUENCES IN SCHEMA "@ =~= "GRANT "@ + "ALL PRIVILEGES ON ALL SEQUENCES IN SCHEMA "@);
    assert("REVOKE ALL PRIVILEGES ON ALL SEQUENCES IN SCHEMA "@ =~= "REVOKE "@ + "ALL PRIVILEGES ON ALL SEQUENCES IN SCHEMA "@);
    assert(grant_form((false, "ALL PRIVILEGES ON ALL SEQUENCES IN SCHEMA "@), on, role) =~= schema_role("GRANT ALL PRIVILEGES ON ALL SEQUENCES IN SCHEMA "@, on, " TO "@, role));
    assert(revoke_form((false, "ALL PRIVILEGES ON ALL SEQUENCES IN SCHEMA "@), on, role) =~= schema_role("REVOKE ALL PRIVILEGES ON ALL SEQUENCES IN SCHEMA "@, on, " FROM "@, role));
}

proof fn lemma_clause_usage_on_schema(on: Seq<char>, role: Seq<char>)
    ensures
        grant_form((false, "USAGE ON SCHEMA "@), on, role) == schema_role("GRANT USAGE ON SCHEMA "@, on, " TO "@, role),
        revoke_form((false, "USAGE ON SCHEMA "@), on, role) == schema_role("REVOKE USAGE ON SCHEMA "@, on, " FROM "@, role),
{
    reveal_strlit("USAGE ON SCHEMA ");
    reveal_strlit("GRANT USAGE ON SCHEMA ");
    reveal_strlit("REVOKE USAGE ON SCHEMA ");
    reveal_strlit("GRANT ");
    reveal_strlit("REVOKE ");
    assert("GRANT USAGE ON SCHEMA "@ =~= "GRANT "@ + "USAGE ON SCHEMA "@);
    assert("REVOKE USAGE ON SCHEMA "@ =~= "REVOKE "@ + "USAGE ON SCHEMA "@);
    assert(grant_form((false, "USAGE ON SCHEMA "@), on, role) =~= schema_role("GRANT USAGE ON SCHEMA "@, on, " TO "@, role));
    assert(revoke_form((false, "USAGE ON SCHEMA "@), on, role) =~= schema_role("REVOKE USAGE ON SCHEMA "@, on, " FROM "@, role));
}

proof fn lemma_clause_select_on_tables(on: Seq<char>, role: Seq<char>)
    ensures
        grant_form((false, "SELECT ON ALL TABLES IN SCHEMA "@), on, role) == schema_role("GRANT SELECT ON ALL TABLES IN SCHEMA "@, on, " TO "@, role),
        revoke_form((false, "SELECT ON ALL TABLES IN SCHEMA "@), on, role) == schema_role("REVOKE SELECT ON ALL TABLES IN SCHEMA "@, on, " FROM "@, role),
{
    reveal_strlit("SELECT ON ALL TABLES IN SCHEMA ");
    reveal_strlit("GRANT SELECT ON ALL TABLES IN SCHEMA ");
    reveal_strlit("REVOKE SELECT ON ALL TABLES IN SCHEMA ");
    reveal_strlit("GRANT ");
    reveal_strlit("REVOKE ");
    assert("GRANT SELECT ON ALL TABLES IN SCHEMA "@ =~= "GRANT "@ + "SELECT ON ALL TABLES IN SCHEMA "@);
    assert("REVOKE SELECT ON ALL TABLES IN SCHEMA "@ =~= "REVOKE "@ + "SELECT ON ALL TABLES IN SCHEMA "@);
    assert(grant_form((false, "SELECT ON ALL TABLES IN SCHEMA "@), on, role) =~= schema_role("GRANT SELECT ON ALL TABLES IN SCHEMA "@, on, " TO "@, role));
    assert(revoke_form((false, "SELECT ON ALL TABLES IN SCHEMA "@), on, role) =~= schema_role("REVOKE SELECT ON ALL TABLES IN SCHEMA "@, on, " FROM "@, role));
}

proof fn lemma_clause_usage_select_on_sequences(on: Seq<char>, role: Seq<char>)
    ensures
        grant_form((false, "USAGE, SELECT ON ALL SEQUENCES IN SCHEMA "@), on, role) == schema_role("GRANT USAGE, SELECT ON ALL SEQUENCES IN SCHEMA "@, on, " TO "@, role),
        revoke_form((false, "USAGE, SELECT ON ALL SEQUENCES IN SCHEMA "@), on, role) == schema_role("REVOKE USAGE, SELECT ON ALL SEQUENCES IN SCHEMA "@, on, " FROM "@, role),
{
    reveal_strlit("USAGE, SELECT ON ALL SEQUENCES IN SCHEMA ");
    reveal_strlit("GRANT USAGE, SELECT ON ALL SEQUENCES IN SCHEMA ");
    reveal_strlit("REVOKE USAGE, SELECT ON ALL SEQUENCES IN SCHEMA ");
    reveal_strlit("GRANT ");
    reveal_strlit("REVOKE ");
    assert("GRANT USAGE, SELECT ON ALL SEQUENCES IN SCHEMA "@ =~= "GRANT "@ + "USAGE, SELECT ON ALL SEQUENCES IN SCHEMA "@);
    assert("REVOKE USAGE, SELECT ON ALL SEQUENCES IN SCHEMA "@ =~= "REVOKE "@ + "USAGE, SELECT ON ALL SEQUENCES IN SCHEMA "@);
    assert(grant_form((false, "USAGE, SELECT ON ALL SEQUENCES IN SCHEMA "@), on, role) =~= schema_role("GRANT USAGE, SELECT ON ALL SEQUENCES IN SCHEMA "@, on, " TO "@, role));
    assert(revoke_form((false, "USAGE, SELECT ON ALL SEQUENCES IN SCHEMA "@), on, role) =~= schema_role("REVOKE USAGE, SELECT ON ALL SEQUENCES IN SCHEMA "@, on, " FROM "@, role));
}

proof fn lemma_clause_update_on_tables(on: Seq<char>, role: Seq<char>)
    ensures
        grant_form((false, "UPDATE ON ALL TABLES IN SCHEMA "@), on, role) == schema_role("GRANT UPDATE ON ALL TABLES IN SCHEMA "@, on, " TO "@, role),
        revoke_form((false, "UPDATE ON ALL TABLES IN SCHEMA "@), on, role) == schema_role("REVOKE UPDATE ON ALL TABLES IN SCHEMA "@, on, " FROM "@, role),
{
    reveal_strlit("UPDATE ON ALL TABLES IN SCHEMA ");
    reveal_strlit("GRANT UPDATE ON ALL TABLES IN SCHEMA ");
    reveal_strlit("REVOKE UPDATE ON ALL TABLES IN SCHEMA ");
    reveal_strlit("GRANT ");
    reveal_strlit("REVOKE ");
    assert("GRANT UPDATE ON ALL TABLES IN SCHEMA "@ =~= "GRANT "@ + "UPDATE ON ALL TABLES IN SCHEMA "@);
    assert("REVOKE UPDATE ON ALL TABLES IN SCHEMA "@ =~= "REVOKE "@ + "UPDATE ON ALL TABLES IN SCHEMA "@);
    assert(grant_form((false, "UPDATE ON ALL TABLES IN SCHEMA "@), on, role) =~= schema_role("GRANT UPDATE ON ALL TABLES IN SCHEMA "@, on, " TO "@, role));
    assert(revoke_form((false, "UPDATE ON ALL TABLES IN SCHEMA "@), on, role) =~= schema_role("REVOKE UPDATE ON ALL TABLES IN SCHEMA "@, on, " FROM "@, role));
}

proof fn lemma_clause_all_privileges_on_database(on: Seq<char>, role: Seq<char>)
    ensures
        grant_form((false, "ALL PRIVILEGES ON DATABASE "@), on, role) == schema_role("GRANT ALL PRIVILEGES ON DATABASE "@, on, " TO "@, role),
        revoke_form((false, "ALL PRIVILEGES ON DATABASE "@), on, role) == schema_role("REVOKE ALL PRIVILEGES ON DATABASE "@, on, " FROM "@, role),
{
    reveal_strlit("ALL PRIVILEGES ON DATABASE ");
    reveal_strlit("GRANT ALL PRIVILEGES ON DATABASE ");
    reveal_strlit("REVOKE ALL PRIVILEGES ON DATABASE ");
    reveal_strlit("GRANT ");
    reveal_strlit("REVOKE ");
    assert("GRANT ALL PRIVILEGES ON DATABASE "@ =~= "GRANT "@ + "ALL PRIVILEGES ON DATABASE "@);
    assert("REVOKE ALL PRIVILEGES ON DATABASE "@ =~= "REVOKE "@ + "ALL PRIVILEGES ON DATABASE "@);
    assert(grant_form((false, "ALL PRIVILEGES ON DATABASE "@), on, role) =~= schema_role("GRANT ALL PRIVILEGES ON DATABASE "@, on, " TO "@, role));
    assert(revoke_form((false, "ALL PRIVILEGES ON DATABASE "@), on, role) =~= schema_role("REVOKE ALL PRIVILEGES ON DATABASE "@, on, " FROM "@, role));
}

proof fn lemma_clause_connect_on_database(on: Seq<char>, role: Seq<char>)
    ensures
        grant_form((false, "CONNECT ON DATABASE "@), on, role) == schema_role("GRANT CONNECT ON DATABASE "@, on, " TO "@, role),
        revoke_form((false, "CONNECT ON DATABASE "@), on, role) == schema_role("REVOKE CONNECT ON DATABASE "@, on, " FROM "@, role),
{
    reveal_strlit("CONNECT ON DATABASE ");
    reveal_strlit("GRANT CONNECT ON DATABASE ");
    reveal_strlit("REVOKE CONNECT ON DATABASE ");
    reveal_strlit("GRANT ");
    reveal_strlit("REVOKE ");
    assert("GRANT CONNECT ON DATABASE "@ =~= "GRANT "@ + "CONNECT ON DATABASE "@);
    assert("REVOKE CONNECT ON DATABASE "@ =~= "REVOKE "@ + "CONNECT ON DATABASE "@);
    assert(grant_form((false, "CONNECT ON DATABASE "@), on, role) =~= schema_role("GRANT CONNECT ON DATABASE "@, on, " TO "@, role));
    assert(revoke_form((false, "CONNECT ON DATABASE "@), on, role) =~= schema_role("REVOKE CONNECT ON DATABASE "@, on, " FROM "@, role));
}

proof fn lemma_clause_default_all_privileges(on: Seq<char>, role: Seq<char>)
    ensures
        grant_form((true, "ALL PRIVILEGES ON TABLES"@), on, role) == schema_role(
            "ALTER DEFAULT PRIVILEGES IN SCHEMA "@,
            on,
            " GRANT ALL PRIVILEGES ON TABLES TO "@,
            role,
        ),
        revoke_form((true, "ALL PRIVILEGES ON TABLES"@), on, role) == schema_role(
            "ALTER DEFAULT PRIVILEGES IN SCHEMA "@,
            on,
            " REVOKE ALL PRIVILEGES ON TABLES FROM "@,
            role,
        ),
{
    reveal_strlit("ALL PRIVILEGES ON TABLES");
    reveal_strlit(" GRANT ALL PRIVILEGES ON TABLES TO ");
    reveal_strlit(" REVOKE ALL PRIVILEGES ON TABLES FROM ");
    reveal_strlit(" GRANT ");
    reveal_strlit(" REVOKE ");
    reveal_strlit(" TO ");
    reveal_strlit(" FROM ");
    assert(" GRANT ALL PRIVILEGES ON TABLES TO "@ =~= " GRANT "@ + "ALL PRIVILEGES ON TABLES"@ + " TO "@);
    assert(" REVOKE ALL PRIVILEGES ON TABLES FROM "@ =~= " REVOKE "@ + "ALL PRIVILEGES ON TABLES"@ + " FROM "@);
    assert(grant_form((true, "ALL PRIVILEGES ON TABLES"@), on, role) =~= schema_role(
        "ALTER DEFAULT PRIVILEGES IN SCHEMA "@,
        on,
        " GRANT ALL PRIVILEGES ON TABLES TO "@,
        role,
    ));
    assert(revoke_form((true, "ALL PRIVILEGES ON TABLES"@), on, role) =~= schema_role(
        "ALTER DEFAULT PRIVILEGES IN SCHEMA "@,
        on,
        " REVOKE ALL PRIVILEGES ON TABLES FROM "@,
        role,
    ));
}

proof fn lemma_clause_default_select(on: Seq<char>, role: Seq<char>)
    ensures
        grant_form((true, "SELECT ON TABLES"@), on, role) == schema_role(
            "ALTER DEFAULT PRIVILEGES IN SCHEMA "@,
            on,
            " GRANT SELECT ON TABLES TO "@,
            role,
        ),
        revoke_form((true, "SELECT ON TABLES"@), on, role) == schema_role(
            "ALTER DEFAULT PRIVILEGES IN SCHEMA "@,
            on,
            " REVOKE SELECT ON TABLES FROM "@,
            role,
        ),
{
    reveal_strlit("SELECT ON TABLES");
    reveal_strlit(" GRANT SELECT ON TABLES TO ");
    reveal_strlit(" REVOKE SELECT ON TABLES FROM ");
    reveal_strlit(" GRANT ");
    reveal_strlit(" REVOKE ");
    reveal_strlit(" TO ");
    reveal_strlit(" FROM ");
    assert(" GRANT SELECT ON TABLES TO "@ =~= " GRANT "@ + "SELECT ON TABLES"@ + " TO "@);
    assert(" REVOKE SELECT ON TABLES FROM "@ =~= " REVOKE "@ + "SELECT ON TABLES"@ + " FROM "@);
    assert(grant_form((true, "SELECT ON TABLES"@), on, role) =~= schema_role(
        "ALTER DEFAULT PRIVILEGES IN SCHEMA "@,
        on,
        " GRANT SELECT ON TABLES TO "@,
        role,
    ));
    assert(revoke_form((true, "SELECT ON TABLES"@), on, role) =~= schema_role(
        "ALTER DEFAULT PRIVILEGES IN SCHEMA "@,
        on,
        " REVOKE SELECT ON TABLES FROM "@,
        role,
    ));
}

proof fn lemma_clause_default_update(on: Seq<char>, role: Seq<char>)
    ensures
        grant_form((true, "UPDATE ON TABLES"@), on, role) == schema_role(
            "ALTER DEFAULT PRIVILEGES IN SCHEMA "@,
            on,
            " GRANT UPDATE ON TABLES TO "@,
            role,
        ),
        revoke_form((true, "UPDATE ON TABLES"@), on, role) == schema_role(
            "ALTER DEFAULT PRIVILEGES IN SCHEMA "@,
            on,
            " REVOKE UPDATE ON TABLES FROM "@,
            role,
        ),
{
    reveal_strlit("UPDATE ON TABLES");
    reveal_strlit(" GRANT UPDATE ON TABLES TO ");
    reveal_strlit(" REVOKE UPDATE ON TABLES FROM ");
    reveal_strlit(" GRANT ");
    reveal_strlit(" REVOKE ");
    reveal_strlit(" TO ");
    reveal_strlit(" FROM ");
    assert(" GRANT UPDATE ON TABLES TO "@ =~= " GRANT "@ + "UPDATE ON TABLES"@ + " TO "@);
    assert(" REVOKE UPDATE ON TABLES FROM "@ =~= " REVOKE "@ + "UPDATE ON TABLES"@ + " FROM "@);
    assert(grant_form((true, "UPDATE ON TABLES"@), on, role) =~= schema_role(
        "ALTER DEFAULT PRIVILEGES IN SCHEMA "@,
        on,
        " GRANT UPDATE ON TABLES TO "@,
        role,
    ));
    assert(revoke_form((true, "UPDATE ON TABLES"@), on, role) =~= schema_role(
        "ALTER DEFAULT PRIVILEGES IN SCHEMA "@,
        on,
        " REVOKE UPDATE ON TABLES FROM "@,
        role,
    ));
}

/// The privilege clauses of the schema-level statements of each access level, in order.
pub open spec fn privilege_clauses(access: UserPrivileges) -> Seq<(bool, Seq<char>)> {
    let read_only = seq![
        (false, "USAGE ON SCHEMA "@),
        (false, "SELECT ON ALL TABLES IN SCHEMA "@),
        (false, "USAGE, SELECT ON ALL SEQUENCES IN SCHEMA "@),
        (true, "SELECT ON TABLES"@),
    ];
    match access {
        UserPrivileges::Full => seq![
            (false, "ALL PRIVILEGES ON SCHEMA "@),
            (false, "ALL PRIVILEGES ON ALL TABLES IN SCHEMA "@),
            (false, "ALL PRIVILEGES ON ALL SEQUENCES IN SCHEMA "@),
            (true, "ALL PRIVILEGES ON TABLES"@),
        ],
        UserPrivileges::ReadOnly => read_only,
        UserPrivileges::ReadUpdateOnly => read_only + seq![
            (false, "UPDATE ON ALL TABLES IN SCHEMA "@),
            (true, "UPDATE ON TABLES"@),
        ],
    }
}

/// The privilege clause of the database-level statement of each access level.
pub open spec fn database_clause(access: UserPrivileges) -> (bool, Seq<char>) {
    match access {
        UserPrivileges::Full => (false, "ALL PRIVILEGES ON DATABASE "@),
        _ => (false, "CONNECT ON DATABASE "@),
    }
}

/// How many statements a grant at a level runs on the schema before those that a revoke
/// mirrors: one at the full level (`GRANT ALL ON SCHEMA`, whose privileges are those of
/// the next statement, `GRANT ALL PRIVILEGES ON SCHEMA`), else none.
pub open spec fn grant_lead(access: UserPrivileges) -> int {
    if access == UserPrivileges::Full {
        1
    } else {
        0
    }
}

/// Revoking at an access level mirrors granting at that level, statement for statement:
/// the grant's schema-level statements after its lead and the revoke's are the grant and
/// revoke forms of the same clauses in the same order (`GRANT … TO` against
/// `REVOKE … FROM`, default privileges included), and so are the database-level
/// statements.
pub proof fn law_revoke_takes_back_grant(
    access: UserPrivileges,
    database: Seq<char>,
    schema: Seq<char>,
    role: Seq<char>,
)
    ensures
        spec_grant_tables(access, schema, role).skip(grant_lead(access)) == privilege_clauses(
            access,
        ).map_values(|c: (bool, Seq<char>)| grant_form(c, schema, role)),
        spec_revoke_tables(access, schema, role) == privilege_clauses(access).map_values(
            |c: (bool, Seq<char>)| revoke_form(c, schema, role),
        ),
        spec_grant_database_statement(access, database, role) == grant_form(
            database_clause(access),
            database,
            role,
        ),
        spec_revoke_database_statement(access, database, role) == revoke_form(
            database_clause(access),
            database,
            role,
        ),
{
    let g = spec_grant_tables(access, schema, role);
    let r = spec_revoke_tables(access, schema, role);
    let cs = privilege_clauses(access);
    match access {
        UserPrivileges::Full => {
            lemma_clause_all_privileges_on_schema(schema, role);
            lemma_clause_all_privileges_on_tables(schema, role);
            lemma_clause_all_privileges_on_sequences(schema, role);
            lemma_clause_default_all_privileges(schema, role);
            lemma_clause_all_privileges_on_database(database, role);
        },
        UserPrivileges::ReadOnly => {
            lemma_clause_usage_on_schema(schema, role);
            lemma_clause_select_on_tables(schema, role);
            lemma_clause_usage_select_on_sequences(schema, role);
            lemma_clause_default_select(schema, role);
            lemma_clause_connect_on_database(database, role);
        },
        UserPrivileges::ReadUpdateOnly => {
            lemma_clause_usage_on_schema(schema, role);
            lemma_clause_select_on_tables(schema, role);
            lemma_clause_usage_select_on_sequences(schema, role);
            lemma_clause_default_select(schema, role);
            lemma_clause_update_on_tables(schema, role);
            lemma_clause_default_update(schema, role);
            lemma_clause_connect_on_database(database, role);
        },
    }
    assert(g.skip(grant_lead(access)) =~= cs.map_values(|c: (bool, Seq<char>)| grant_form(c, schema, role)));
    assert(r =~= cs.map_values(|c: (bool, Seq<char>)| revoke_form(c, schema, role)));
}

/// What each option of a new role adds, whatever the others are: the statement starts
/// with `CREATE ROLE "role" WITH PASSWORD 'password'`; a role that may log in gets
/// ` LOGIN` at the end, one that may not gets nothing there; `createdb` puts ` CREATEDB`
/// before the login part, and `superuser` puts ` SUPERUSER` right after the password.
pub proof fn law_create_role_options_are_independent(
    role: Seq<char>,
    password: Seq<char>,
    superuser: bool,
    createdb: bool,
    no_login: bool,
)
    ensures
        spec_create_role_statement(role, password, false, false, true) == "CREATE ROLE "@ + quoted(
            role,
        ) + " WITH PASSWORD '"@ + password + "'"@,
        spec_create_role_statement(role, password, superuser, createdb, false)
            == spec_create_role_statement(role, password, superuser, createdb, true) + " LOGIN"@,
        spec_create_role_statement(role, password, superuser, true, no_login)
            == spec_create_role_statement(role, password, superuser, false, true) + " CREATEDB"@
            + spec_create_role_statement(role, password, superuser, false, no_login).skip(
            spec_create_role_statement(role, password, superuser, false, true).len() as int,
        ),
        spec_create_role_statement(role, password, true, createdb, no_login)
            == spec_create_role_statement(role, password, false, false, true) + " SUPERUSER"@
            + spec_create_role_statement(role, password, false, createdb, no_login).skip(
            spec_create_role_statement(role, password, false, false, true).len() as int,
        ),
        has_text(spec_create_role_statement(role, password, superuser, createdb, no_login), " LOGIN"@)
            <== !no_login,
{
    let e = Seq::<char>::empty();
    let base = "CREATE ROLE "@ + quoted(role) + " WITH PASSWORD '"@ + password + "'"@;
    let su = if superuser { " SUPERUSER"@ } else { e };
    let cd = if createdb { " CREATEDB"@ } else { e };
    let lg = if !no_login { " LOGIN"@ } else { e };
    assert(spec_create_role_statement(role, password, false, false, true) =~= base);
    assert(spec_create_role_statement(role, password, superuser, createdb, false) =~= base + su + cd
        + " LOGIN"@);
    assert(spec_create_role_statement(role, password, superuser, createdb, true) =~= base + su + cd);
    let no_cd = spec_create_role_statement(role, password, superuser, false, no_login);
    assert(no_cd =~= base + su + lg);
    assert(spec_create_role_statement(role, password, superuser, false, true) =~= base + su);
    assert(no_cd.skip((base + su).len() as int) =~= lg);
    assert(spec_create_role_statement(role, password, superuser, true, no_login) =~= base + su
        + " CREATEDB"@ + lg);
    let plain = spec_create_role_statement(role, password, false, createdb, no_login);
    assert(plain =~= base + cd + lg);
    assert(plain.skip(base.len() as int) =~= cd + lg);
    assert(spec_create_role_statement(role, password, true, createdb, no_login) =~= base
        + " SUPERUSER"@ + (cd + lg));
    if !no_login {
        lemma_has_text_between(base + su + cd, " LOGIN"@, e);
        assert(base + su + cd + " LOGIN"@ + e =~= spec_create_role_statement(
            role,
            password,
            superuser,
            createdb,
            no_login,
        ));
    }
}

/// The keyword a role flag puts in an `ALTER ROLE` statement: `yes` when set, `no` when
/// cleared, nothing when not given.
pub open spec fn flag_text(flag: Option<bool>, yes: Seq<char>, no: Seq<char>) -> Seq<char> {
    match flag {
        Some(true) => yes,
        Some(false) => no,
        None => Seq::<char>::empty(),
    }
}

/// What each given change of a role adds to its `ALTER ROLE` statement, whatever the
/// others are: the statement starts with `ALTER ROLE role`; a new password adds
/// ` WITH PASSWORD 'password'`, and every flag that is given adds its keyword
/// (` SUPERUSER`/` NOSUPERUSER`, ` CREATEDB`/` NOCREATEDB`, ` LOGIN`/` NOLOGIN` for
/// `no_login` false/true), so that a given flag never leaves the statement as it is
/// without it; nothing else is added.
#[verifier::spinoff_prover]
#[verifier::rlimit(50)]
pub proof fn law_alter_role_changes_are_independent(
    role: Seq<char>,
    password: Option<Seq<char>>,
    superuser: Option<bool>,
    createdb: Option<bool>,
    no_login: Option<bool>,
)
    ensures
        spec_alter_role_statement(role, None, None, None, None) == "ALTER ROLE "@ + role,
        ({
            let s = spec_alter_role_statement(role, password, superuser, createdb, no_login);
            let pw = match password {
                Some(p) => " WITH PASSWORD '"@ + p + "'"@,
                None => Seq::<char>::empty(),
            };
            let su = flag_text(superuser, " SUPERUSER"@, " NOSUPERUSER"@);
            let cd = flag_text(createdb, " CREATEDB"@, " NOCREATEDB"@);
            let lg = flag_text(no_login, " NOLOGIN"@, " LOGIN"@);
            &&& has_text(s, pw)
            &&& has_text(s, su)
            &&& has_text(s, cd)
            &&& has_text(s, lg)
            &&& s.len() == ("ALTER ROLE "@ + role).len() + pw.len() + su.len() + cd.len() + lg.len()
        }),
        createdb is Some ==> spec_alter_role_statement(role, password, superuser, createdb, no_login)
            != spec_alter_role_statement(role, password, superuser, None, no_login),
        superuser is Some ==> spec_alter_role_statement(role, password, superuser, createdb, no_login)
            != spec_alter_role_statement(role, password, None, createdb, no_login),
        no_login is Some ==> spec_alter_role_statement(role, password, superuser, createdb, no_login)
            != spec_alter_role_statement(role, password, superuser, createdb, None),
        password is Some ==> spec_alter_role_statement(role, password, superuser, createdb, no_login)
            != spec_alter_role_statement(role, None, superuser, createdb, no_login),
{
    reveal_strlit(" SUPERUSER");
    reveal_strlit(" NOSUPERUSER");
    reveal_strlit(" CREATEDB");
    reveal_strlit(" NOCREATEDB");
    reveal_strlit(" LOGIN");
    reveal_strlit(" NOLOGIN");
    reveal_strlit(" WITH PASSWORD '");
    reveal_strlit("'");
    let head = "ALTER ROLE "@ + role;
    let pw = match password {
        Some(p) => " WITH PASSWORD '"@ + p + "'"@,
        None => Seq::<char>::empty(),
    };
    let su = flag_text(superuser, " SUPERUSER"@, " NOSUPERUSER"@);
    let cd = flag_text(createdb, " CREATEDB"@, " NOCREATEDB"@);
    let lg = flag_text(no_login, " NOLOGIN"@, " LOGIN"@);
    let s = spec_alter_role_statement(role, password, superuser, createdb, no_login);
    assert(spec_alter_role_statement(role, None, None, None, None) =~= head);
    assert(s =~= head + pw + su + cd + lg);
    lemma_has_text_between(head, pw, su + cd + lg);
    assert(head + pw + (su + cd + lg) =~= s);
    lemma_has_text_between(head + pw, su, cd + lg);
    assert(head + pw + su + (cd + lg) =~= s);
    lemma_has_text_between(head + pw + su, cd, lg);
    assert(head + pw + su + cd + lg =~= s);
    lemma_has_text_between(head + pw + su + cd, lg, Seq::<char>::empty());
    assert(head + pw + su + cd + lg + Seq::<char>::empty() =~= s);
    let e = Seq::<char>::empty();
    assert(spec_alter_role_statement(role, password, superuser, None, no_login) =~= head + pw + su + e
        + lg);
    assert(spec_alter_role_statement(role, password, None, createdb, no_login) =~= head + pw + e + cd
        + lg);
    assert(spec_alter_role_statement(role, password, superuser, createdb, None) =~= head + pw + su + cd
        + e);
    assert(spec_alter_role_statement(role, None, superuser, createdb, no_login) =~= head + e + su + cd
        + lg);
    if createdb is Some {
        assert(cd.len() > 0);
        assert(spec_alter_role_statement(role, password, superuser, None, no_login).len() < s.len());
    }
    if superuser is Some {
        assert(su.len() > 0);
        assert(spec_alter_role_statement(role, password, None, createdb, no_login).len() < s.len());
    }
    if no_login is Some {
        assert(lg.len() > 0);
        assert(spec_alter_role_statement(role, password, superuser, createdb, None).len() < s.len());
    }
    if password is Some {
        assert(pw.len() > 0);
        assert(spec_alter_role_statement(role, None, superuser, createdb, no_login).len() < s.len());
    }
}

/// Statements each of the form `head "schema" middle "role"`, with the given heads and
/// middles.
pub open spec fn names_schema_and_role(
    statements: Seq<Seq<char>>,
    heads: Seq<Seq<char>>,
    middles: Seq<Seq<char>>,
    schema: Seq<char>,
    role: Seq<char>,
) -> bool {
    &&& statements.len() == heads.len()
    &&& heads.len() == middles.len()
    &&& forall|i: int|
        0 <= i < statements.len() ==> #[trigger] statements[i] == heads[i] + quoted(schema)
            + middles[i] + quoted(role)
}

/// At an access level, the grant statements on any schema for any role are made of the same
/// heads and middles around that schema and role.
pub open spec fn grant_shaped(access: UserPrivileges, heads: Seq<Seq<char>>, middles: Seq<Seq<char>>) -> bool {
    forall|schema: Seq<char>, role: Seq<char>|
        #[trigger] names_schema_and_role(spec_grant_tables(access, schema, role), heads, middles, schema, role)
}

/// The same of the revoke statements.
pub open spec fn revoke_shaped(access: UserPrivileges, heads: Seq<Seq<char>>, middles: Seq<Seq<char>>) -> bool {
    forall|schema: Seq<char>, role: Seq<char>|
        #[trigger] names_schema_and_role(spec_revoke_tables(access, schema, role), heads, middles, schema, role)
}

/// The same of the database-level statements: `head "database" TO/FROM "role"`.
pub open spec fn database_shaped(access: UserPrivileges, grant_head: Seq<char>, revoke_head: Seq<char>) -> bool {
    forall|database: Seq<char>, role: Seq<char>|
        #![trigger spec_grant_database_statement(access, database, role)]
        #![trigger spec_revoke_database_statement(access, database, role)]
        spec_grant_database_statement(access, database, role) == grant_head + quoted(database)
            + " TO "@ + quoted(role) && spec_revoke_database_statement(access, database, role)
            == revoke_head + quoted(database) + " FROM "@ + quoted(role)
}

/// Every statement of a grant or a revoke names the schema (or database) and the role asked
/// for, and nothing else varies with them: at each access level there are fixed texts
/// such that, for every schema and role, each statement is a fixed head, the quoted
/// schema, a fixed middle and the quoted role, the lead statement of a full grant
/// included.
pub proof fn law_privileges_name_the_schema_and_role(access: UserPrivileges)
    ensures
        exists|heads: Seq<Seq<char>>, middles: Seq<Seq<char>>| #[trigger] grant_shaped(access, heads, middles),
        exists|heads: Seq<Seq<char>>, middles: Seq<Seq<char>>| #[trigger] revoke_shaped(access, heads, middles),
        exists|grant_head: Seq<char>, revoke_head: Seq<char>| #[trigger] database_shaped(access, grant_head, revoke_head),
{
    let (gh, gm, rh, rm, dg, dr) = match access {
        UserPrivileges::Full => (seq!["GRANT ALL ON SCHEMA "@, "GRANT ALL PRIVILEGES ON SCHEMA "@, "GRANT ALL PRIVILEGES ON ALL TABLES IN SCHEMA "@, "GRANT ALL PRIVILEGES ON ALL SEQUENCES IN SCHEMA "@, "ALTER DEFAULT PRIVILEGES IN SCHEMA "@], seq![" TO "@, " TO "@, " TO "@, " TO "@, " GRANT ALL PRIVILEGES ON TABLES TO "@], seq!["REVOKE ALL PRIVILEGES ON SCHEMA "@, "REVOKE ALL PRIVILEGES ON ALL TABLES IN SCHEMA "@, "REVOKE ALL PRIVILEGES ON ALL SEQUENCES IN SCHEMA "@, "ALTER DEFAULT PRIVILEGES IN SCHEMA "@], seq![" FROM "@, " FROM "@, " FROM "@, " REVOKE ALL PRIVILEGES ON TABLES FROM "@], "GRANT ALL PRIVILEGES ON DATABASE "@, "REVOKE ALL PRIVILEGES ON DATABASE "@),
        UserPrivileges::ReadOnly => (seq!["GRANT USAGE ON SCHEMA "@, "GRANT SELECT ON ALL TABLES IN SCHEMA "@, "GRANT USAGE, SELECT ON ALL SEQUENCES IN SCHEMA "@, "ALTER DEFAULT PRIVILEGES IN SCHEMA "@], seq![" TO "@, " TO "@, " TO "@, " GRANT SELECT ON TABLES TO "@], seq!["REVOKE USAGE ON SCHEMA "@, "REVOKE SELECT ON ALL TABLES IN SCHEMA "@, "REVOKE USAGE, SELECT ON ALL SEQUENCES IN SCHEMA "@, "ALTER DEFAULT PRIVILEGES IN SCHEMA "@], seq![" FROM "@, " FROM "@, " FROM "@, " REVOKE SELECT ON TABLES FROM "@], "GRANT CONNECT ON DATABASE "@, "REVOKE CONNECT ON DATABASE "@),
        UserPrivileges::ReadUpdateOnly => (seq!["GRANT USAGE ON SCHEMA "@, "GRANT SELECT ON ALL TABLES IN SCHEMA "@, "GRANT USAGE, SELECT ON ALL SEQUENCES IN SCHEMA "@, "ALTER DEFAULT PRIVILEGES IN SCHEMA "@, "GRANT UPDATE ON ALL TABLES IN SCHEMA "@, "ALTER DEFAULT PRIVILEGES IN SCHEMA "@], seq![" TO "@, " TO "@, " TO "@, " GRANT SELECT ON TABLES TO "@, " TO "@, " GRANT UPDATE ON TABLES TO "@], seq!["REVOKE USAGE ON SCHEMA "@, "REVOKE SELECT ON ALL TABLES IN SCHEMA "@, "REVOKE USAGE, SELECT ON ALL SEQUENCES IN SCHEMA "@, "ALTER DEFAULT PRIVILEGES IN SCHEMA "@, "REVOKE UPDATE ON ALL TABLES IN SCHEMA "@, "ALTER DEFAULT PRIVILEGES IN SCHEMA "@], seq![" FROM "@, " FROM "@, " FROM "@, " REVOKE SELECT ON TABLES FROM "@, " FROM "@, " REVOKE UPDATE ON TABLES FROM "@], "GRANT CONNECT ON DATABASE "@, "REVOKE CONNECT ON DATABASE "@),
    };
    assert forall|schema: Seq<char>, role: Seq<char>| #[trigger] names_schema_and_role(
        spec_grant_tables(access, schema, role),
        gh,
        gm,
        schema,
        role,
    ) by {
        let g = spec_grant_tables(access, schema, role);
        assert forall|i: int| 0 <= i < g.len() implies #[trigger] g[i] == gh[i] + quoted(schema) + gm[i]
            + quoted(role) by {
        }
    }
    assert(grant_shaped(access, gh, gm));
    assert forall|schema: Seq<char>, role: Seq<char>| #[trigger] names_schema_and_role(
        spec_revoke_tables(access, schema, role),
        rh,
        rm,
        schema,
        role,
    ) by {
        let r = spec_revoke_tables(access, schema, role);
        assert forall|i: int| 0 <= i < r.len() implies #[trigger] r[i] == rh[i] + quoted(schema) + rm[i]
            + quoted(role) by {
        }
    }
    assert(revoke_shaped(access, rh, rm));
    assert(database_shaped(access, dg, dr));
}

} // verus!
