//! The library's data: credentials, tool paths, listing entries, option enums, errors.
use vstd::prelude::*;

use crate::text::str_eq;

verus! {

/// Connection credentials for one PostgreSQL server.
#[derive(Debug, Clone, PartialEq, Eq, Hash)]
pub struct PostgresCredentials {
    pub pg_hostname: String,
    pub pg_superuser: String,
    pub pg_password: String,
    pub pg_port: u16,
}

/// The abstract value of `PostgresCredentials`.
pub struct CredentialsView {
    pub hostname: Seq<char>,
    pub superuser: Seq<char>,
    pub password: Seq<char>,
    pub port: u16,
}

impl View for PostgresCredentials {
    type V = CredentialsView;

    open spec fn view(&self) -> CredentialsView {
        CredentialsView {
            hostname: self.pg_hostname@,
            superuser: self.pg_superuser@,
            password: self.pg_password@,
            port: self.pg_port,
        }
    }
}

impl PostgresCredentials {
    pub fn new(pg_hostname: String, pg_superuser: String, pg_password: String, pg_port: u16) -> (r:
        PostgresCredentials)
        ensures
            r.pg_hostname == pg_hostname,
            r.pg_superuser == pg_superuser,
            r.pg_password == pg_password,
            r.pg_port == pg_port,
    {
        PostgresCredentials { pg_hostname, pg_superuser, pg_password, pg_port }
    }

    /// A copy with the same four fields.
    pub fn duplicate(&self) -> (r: PostgresCredentials)
        ensures
            r@ == self@,
    {
        PostgresCredentials {
            pg_hostname: self.pg_hostname.clone(),
            pg_superuser: self.pg_superuser.clone(),
            pg_password: self.pg_password.clone(),
            pg_port: self.pg_port,
        }
    }

    /// Whether all four fields are equal.
    pub fn same_as(&self, other: &PostgresCredentials) -> (r: bool)
        ensures
            r == (self@ == other@),
    {
        str_eq(self.pg_hostname.as_str(), other.pg_hostname.as_str()) && str_eq(
            self.pg_superuser.as_str(),
            other.pg_superuser.as_str(),
        ) && str_eq(self.pg_password.as_str(), other.pg_password.as_str()) && self.pg_port
            == other.pg_port
    }
}

/// Paths of the PostgreSQL client programs.
#[derive(Debug, Clone, PartialEq, Eq, Hash)]
pub struct PGTools {
    pub pg_dump: String,
    pub pg_restore: String,
    pub psql: String,
}

impl PGTools {
    pub fn new(pg_dump: String, pg_restore: String, psql: String) -> (r: PGTools)
        ensures
            r.pg_dump == pg_dump,
            r.pg_restore == pg_restore,
            r.psql == psql,
    {
        PGTools { pg_dump, pg_restore, psql }
    }
}

impl Default for PGTools {
    fn default() -> (r: PGTools)
        ensures
            r.pg_dump@.len() == 0,
            r.pg_restore@.len() == 0,
            r.psql@.len() == 0,
    {
        PGTools { pg_dump: String::new(), pg_restore: String::new(), psql: String::new() }
    }
}

/// Settings of an S3-compatible object store; each may be missing.
#[derive(Debug, Clone, PartialEq, Eq)]
pub struct S3Credentials {
    pub s3_endpoint: Option<String>,
    pub s3_access_key: Option<String>,
    pub s3_secret_key: Option<String>,
    pub s3_bucket: Option<String>,
    pub s3_region: Option<String>,
    pub s3_prefix: Option<String>,
}

impl S3Credentials {
    pub fn new(
        s3_endpoint: Option<String>,
        s3_access_key: Option<String>,
        s3_secret_key: Option<String>,
        s3_bucket: Option<String>,
        s3_region: Option<String>,
        s3_prefix: Option<String>,
    ) -> (r: S3Credentials)
        ensures
            r.s3_endpoint == s3_endpoint,
            r.s3_access_key == s3_access_key,
            r.s3_secret_key == s3_secret_key,
            r.s3_bucket == s3_bucket,
            r.s3_region == s3_region,
            r.s3_prefix == s3_prefix,
    {
        S3Credentials { s3_endpoint, s3_access_key, s3_secret_key, s3_bucket, s3_region, s3_prefix }
    }
}

#[verifier::external_type_specification]
#[verifier::external_body]
pub struct ExCsvError(csv::Error);

/// Errors of the library.
#[derive(Debug)]
pub enum PGCliError {
    /// A CSV rendering error.
    SerdeCsv(csv::Error),
    /// The connection could not be set up.
    ConnectionError(String),
    /// The PostgreSQL client programs are missing or too old.
    PGToolsError(String),
    /// No connection could be taken from the pool.
    PoolErrorTokio(String),
    /// Any other failure, with its message.
    Other(String),
}

/// An error whose message is `m`.
pub open spec fn is_other_error(e: PGCliError, m: Seq<char>) -> bool {
    e matches PGCliError::Other(s) && s@ == m
}

/// A result that is the error with message `m`.
pub open spec fn fails_with<T>(r: Result<T, PGCliError>, m: Seq<char>) -> bool {
    match r {
        Err(e) => is_other_error(e, m),
        Ok(_) => false,
    }
}

/// A result that is the text `m`.
pub open spec fn yields_text(r: Result<String, PGCliError>, m: Seq<char>) -> bool {
    match r {
        Ok(s) => s@ == m,
        Err(_) => false,
    }
}

/// A user (role) as listed.
#[derive(Debug, Clone, PartialEq, Eq)]
pub enum UserDetails {
    Extra { username: String, createdb: bool, superuser: bool, login: bool, oid: u32 },
    Username(String),
}

impl UserDetails {
    pub open spec fn name_view(&self) -> Seq<char> {
        match self {
            UserDetails::Extra { username, .. } => username@,
            UserDetails::Username(username) => username@,
        }
    }

    /// The user name.
    pub fn as_ref(&self) -> (r: &str)
        ensures
            r@ == self.name_view(),
    {
        match self {
            UserDetails::Extra { username, .. } => username.as_str(),
            UserDetails::Username(username) => username.as_str(),
        }
    }
}

/// A database as listed.
#[derive(Debug, Clone, PartialEq, Eq)]
pub enum DatabaseDetails {
    Extra { name: String, owner: String, size_pretty: String, oid: u32 },
    Name(String),
}

impl DatabaseDetails {
    pub open spec fn name_view(&self) -> Seq<char> {
        match self {
            DatabaseDetails::Extra { name, .. } => name@,
            DatabaseDetails::Name(name) => name@,
        }
    }

    /// The database name.
    pub fn as_ref(&self) -> (r: &str)
        ensures
            r@ == self.name_view(),
    {
        match self {
            DatabaseDetails::Extra { name, .. } => name.as_str(),
            DatabaseDetails::Name(name) => name.as_str(),
        }
    }
}

/// An extension as listed.
#[derive(Debug, Clone, PartialEq, Eq)]
pub enum ExtensionDetails {
    Extra { name: String, owner: u32, version: String, oid: u32 },
    Name(String),
}

/// Access levels that can be granted or revoked.
#[derive(Debug, Clone, Copy, PartialEq, Eq, Structural)]
pub enum UserPrivileges {
    Full,
    ReadOnly,
    ReadUpdateOnly,
}

/// Listing order.
#[derive(Debug, Clone, Copy, PartialEq, Eq, Structural)]
pub enum SortingOrder {
    Ascending,
    Descending,
}

/// Listing output formats.
#[derive(Debug, Clone, Copy, PartialEq, Eq, Structural)]
pub enum OutputFormat {
    Json,
    JsonCompact,
    JsonLines,
    Csv,
    Table,
    Simple,
}

/// Dump file formats: plain SQL text or the custom binary format.
#[derive(Debug, Clone, Copy, PartialEq, Eq, Structural)]
pub enum SqlFileFormat {
    Sql,
    Bsql,
}


/// The message of a rejected option value: `"{what}: {value}"`.
fn invalid_value_error(what: &str, value: &str) -> (e: PGCliError)
    ensures
        is_other_error(e, what@ + ": "@ + value@),
{
    let mut m = what.to_owned();
    m.append(": ");
    m.append(value);
    PGCliError::Other(m)
}

impl UserPrivileges {
    /// The command-line name of the access level.
    pub open spec fn spec_name(self) -> Seq<char> {
        match self {
            UserPrivileges::Full => "full"@,
            UserPrivileges::ReadOnly => "read-only"@,
            UserPrivileges::ReadUpdateOnly => "read-update-only"@,
        }
    }

    /// The access level that a command-line name denotes.
    pub open spec fn spec_from_name(s: Seq<char>) -> Option<UserPrivileges> {
        if s == "full"@ {
            Some(UserPrivileges::Full)
        } else if s == "read-only"@ {
            Some(UserPrivileges::ReadOnly)
        } else if s == "read-update-only"@ {
            Some(UserPrivileges::ReadUpdateOnly)
        } else {
            None
        }
    }

    /// Parses a command-line name (`full`, `read-only`, `read-update-only`).
    pub fn from_name(s: &str) -> (r: Result<UserPrivileges, PGCliError>)
        ensures
            match Self::spec_from_name(s@) {
                Some(v) => r == Ok::<UserPrivileges, PGCliError>(v),
                None => r matches Err(e) && is_other_error(e, "Invalid privilege"@ + ": "@ + s@),
            },
    {
        if str_eq(s, "full") {
            Ok(UserPrivileges::Full)
        } else if str_eq(s, "read-only") {
            Ok(UserPrivileges::ReadOnly)
        } else if str_eq(s, "read-update-only") {
            Ok(UserPrivileges::ReadUpdateOnly)
        } else {
            Err(invalid_value_error("Invalid privilege", s))
        }
    }

    /// The command-line name, which is also the displayed text.
    pub fn name(&self) -> (r: &'static str)
        ensures
            r@ == self.spec_name(),
    {
        match self {
            UserPrivileges::Full => "full",
            UserPrivileges::ReadOnly => "read-only",
            UserPrivileges::ReadUpdateOnly => "read-update-only",
        }
    }

    /// Every access level, in declaration order.
    pub fn value_variants() -> (r: Vec<UserPrivileges>)
        ensures
            r@ == seq![
                UserPrivileges::Full,
                UserPrivileges::ReadOnly,
                UserPrivileges::ReadUpdateOnly,
            ],
    {
        vec![UserPrivileges::Full, UserPrivileges::ReadOnly, UserPrivileges::ReadUpdateOnly]
    }
}

impl SortingOrder {
    pub open spec fn spec_name(self) -> Seq<char> {
        match self {
            SortingOrder::Ascending => "asc"@,
            SortingOrder::Descending => "desc"@,
        }
    }

    pub open spec fn spec_from_name(s: Seq<char>) -> Option<SortingOrder> {
        if s == "asc"@ {
            Some(SortingOrder::Ascending)
        } else if s == "desc"@ {
            Some(SortingOrder::Descending)
        } else {
            None
        }
    }

    /// Parses a command-line name (`asc`, `desc`).
    pub fn from_name(s: &str) -> (r: Result<SortingOrder, PGCliError>)
        ensures
            match Self::spec_from_name(s@) {
                Some(v) => r == Ok::<SortingOrder, PGCliError>(v),
                None => r matches Err(e) && is_other_error(e, "Invalid sorting order"@ + ": "@ + s@),
            },
    {
        if str_eq(s, "asc") {
            Ok(SortingOrder::Ascending)
        } else if str_eq(s, "desc") {
            Ok(SortingOrder::Descending)
        } else {
            Err(invalid_value_error("Invalid sorting order", s))
        }
    }

    /// The command-line name, which is also the displayed text.
    pub fn name(&self) -> (r: &'static str)
        ensures
            r@ == self.spec_name(),
    {
        match self {
            SortingOrder::Ascending => "asc",
            SortingOrder::Descending => "desc",
        }
    }

    pub fn value_variants() -> (r: Vec<SortingOrder>)
        ensures
            r@ == seq![SortingOrder::Ascending, SortingOrder::Descending],
    {
        vec![SortingOrder::Ascending, SortingOrder::Descending]
    }
}

impl OutputFormat {
    pub open spec fn spec_name(self) -> Seq<char> {
        match self {
            OutputFormat::Json => "json"@,
            OutputFormat::JsonCompact => "json-compact"@,
            OutputFormat::JsonLines => "json-lines"@,
            OutputFormat::Csv => "csv"@,
            OutputFormat::Table => "table"@,
            OutputFormat::Simple => "simple"@,
        }
    }

    pub open spec fn spec_from_name(s: Seq<char>) -> Option<OutputFormat> {
        if s == "json"@ {
            Some(OutputFormat::Json)
        } else if s == "json-compact"@ {
            Some(OutputFormat::JsonCompact)
        } else if s == "json-lines"@ {
            Some(OutputFormat::JsonLines)
        } else if s == "csv"@ {
            Some(OutputFormat::Csv)
        } else if s == "table"@ {
            Some(OutputFormat::Table)
        } else if s == "simple"@ {
            Some(OutputFormat::Simple)
        } else {
            None
        }
    }

    /// Parses a command-line name (`json`, `json-compact`, `json-lines`, `csv`, `table`, `simple`).
    pub fn from_name(s: &str) -> (r: Result<OutputFormat, PGCliError>)
        ensures
            match Self::spec_from_name(s@) {
                Some(v) => r == Ok::<OutputFormat, PGCliError>(v),
                None => r matches Err(e) && is_other_error(e, "Invalid output format"@ + ": "@ + s@),
            },
    {
        if str_eq(s, "json") {
            Ok(OutputFormat::Json)
        } else if str_eq(s, "json-compact") {
            Ok(OutputFormat::JsonCompact)
        } else if str_eq(s, "json-lines") {
            Ok(OutputFormat::JsonLines)
        } else if str_eq(s, "csv") {
            Ok(OutputFormat::Csv)
        } else if str_eq(s, "table") {
            Ok(OutputFormat::Table)
        } else if str_eq(s, "simple") {
            Ok(OutputFormat::Simple)
        } else {
            Err(invalid_value_error("Invalid output format", s))
        }
    }

    /// The command-line name, which is also the displayed text.
    pub fn name(&self) -> (r: &'static str)
        ensures
            r@ == self.spec_name(),
    {
        match self {
            OutputFormat::Json => "json",
            OutputFormat::JsonCompact => "json-compact",
            OutputFormat::JsonLines => "json-lines",
            OutputFormat::Csv => "csv",
            OutputFormat::Table => "table",
            OutputFormat::Simple => "simple",
        }
    }

    pub fn value_variants() -> (r: Vec<OutputFormat>)
        ensures
            r@ == seq![
                OutputFormat::Json,
                OutputFormat::JsonCompact,
                OutputFormat::JsonLines,
                OutputFormat::Csv,
                OutputFormat::Table,
                OutputFormat::Simple,
            ],
    {
        vec![
            OutputFormat::Json,
            OutputFormat::JsonCompact,
            OutputFormat::JsonLines,
            OutputFormat::Csv,
            OutputFormat::Table,
            OutputFormat::Simple,
        ]
    }
}

impl SqlFileFormat {
    pub open spec fn spec_name(self) -> Seq<char> {
        match self {
            SqlFileFormat::Sql => "sql"@,
            SqlFileFormat::Bsql => "bsql"@,
        }
    }

    pub open spec fn spec_from_name(s: Seq<char>) -> Option<SqlFileFormat> {
        if s == "sql"@ {
            Some(SqlFileFormat::Sql)
        } else if s == "bsql"@ {
            Some(SqlFileFormat::Bsql)
        } else {
            None
        }
    }

    /// The name of the format for `pg_dump --format=`: `plain` or `custom`.
    pub open spec fn spec_display(self) -> Seq<char> {
        match self {
            SqlFileFormat::Sql => "plain"@,
            SqlFileFormat::Bsql => "custom"@,
        }
    }

    /// Parses a command-line name (`sql`, `bsql`).
    pub fn from_name(s: &str) -> (r: Result<SqlFileFormat, PGCliError>)
        ensures
            match Self::spec_from_name(s@) {
                Some(v) => r == Ok::<SqlFileFormat, PGCliError>(v),
                None => r matches Err(e) && is_other_error(e, "Invalid sql file format"@ + ": "@ + s@),
            },
    {
        if str_eq(s, "sql") {
            Ok(SqlFileFormat::Sql)
        } else if str_eq(s, "bsql") {
            Ok(SqlFileFormat::Bsql)
        } else {
            Err(invalid_value_error("Invalid sql file format", s))
        }
    }

    /// The command-line name, which is also the file extension of a dump.
    pub fn name(&self) -> (r: &'static str)
        ensures
            r@ == self.spec_name(),
    {
        match self {
            SqlFileFormat::Sql => "sql",
            SqlFileFormat::Bsql => "bsql",
        }
    }

    /// The file extension of a dump in this format (the same as the command-line name).
    pub fn file_extension(&self) -> (r: &'static str)
        ensures
            r@ == self.spec_name(),
    {
        self.name()
    }

    /// The displayed text: the `pg_dump` format name.
    pub fn display_name(&self) -> (r: &'static str)
        ensures
            r@ == self.spec_display(),
    {
        match self {
            SqlFileFormat::Sql => "plain",
            SqlFileFormat::Bsql => "custom",
        }
    }

    pub fn value_variants() -> (r: Vec<SqlFileFormat>)
        ensures
            r@ == seq![SqlFileFormat::Sql, SqlFileFormat::Bsql],
    {
        vec![SqlFileFormat::Sql, SqlFileFormat::Bsql]
    }
}

/// Every access level's command-line name parses back to it, and a name that parses
/// is the name of what it parses to.
pub proof fn law_user_privileges_names(v: UserPrivileges, s: Seq<char>)
    ensures
        UserPrivileges::spec_from_name(v.spec_name()) == Some(v),
        UserPrivileges::spec_from_name(s) matches Some(w) ==> w.spec_name() == s,
{
    reveal_strlit("full");
    assert("full"@.len() == 4);
    reveal_strlit("read-only");
    assert("read-only"@.len() == 9);
    reveal_strlit("read-update-only");
    assert("read-update-only"@.len() == 16);
}

/// Every sorting order's name parses back to it, and a name that parses is the name of
/// what it parses to.
pub proof fn law_sorting_order_names(v: SortingOrder, s: Seq<char>)
    ensures
        SortingOrder::spec_from_name(v.spec_name()) == Some(v),
        SortingOrder::spec_from_name(s) matches Some(w) ==> w.spec_name() == s,
{
    reveal_strlit("asc");
    assert("asc"@.len() == 3);
    reveal_strlit("desc");
    assert("desc"@.len() == 4);
}

/// Every output format's name parses back to it, and a name that parses is the name of
/// what it parses to.
pub proof fn law_output_format_names(v: OutputFormat, s: Seq<char>)
    ensures
        OutputFormat::spec_from_name(v.spec_name()) == Some(v),
        OutputFormat::spec_from_name(s) matches Some(w) ==> w.spec_name() == s,
{
    reveal_strlit("json");
    assert("json"@.len() == 4);
    reveal_strlit("json-compact");
    assert("json-compact"@.len() == 12);
    reveal_strlit("json-lines");
    assert("json-lines"@.len() == 10);
    reveal_strlit("csv");
    assert("csv"@.len() == 3);
    reveal_strlit("table");
    assert("table"@.len() == 5);
    reveal_strlit("simple");
    assert("simple"@.len() == 6);
}

/// Every dump format's name parses back to it, and a name that parses is the name of
/// what it parses to.
pub proof fn law_sql_file_format_names(v: SqlFileFormat, s: Seq<char>)
    ensures
        SqlFileFormat::spec_from_name(v.spec_name()) == Some(v),
        SqlFileFormat::spec_from_name(s) matches Some(w) ==> w.spec_name() == s,
{
    reveal_strlit("sql");
    assert("sql"@.len() == 3);
    reveal_strlit("bsql");
    assert("bsql"@.len() == 4);
}

} // verus!
