//! The settings a run of the tool works with: the credentials (those of the pgpass file
//! when it covers the main host, else the command-line ones for that host ahead of the
//! pgpass ones) and the log level.
use vstd::prelude::*;

use crate::clone::{credentials_for, find_credentials};
use crate::db::general::cred_views;
use crate::misc::{opt_is_empty, opt_text};
use crate::structs::{CredentialsView, PostgresCredentials};

verus! {

/// The password has to be asked for when the pgpass file does not cover the main host and
/// none (or an empty one) was given.
pub open spec fn spec_needs_password_prompt(
    pgpass: Seq<CredentialsView>,
    main_host: Seq<char>,
    password: Option<String>,
) -> bool {
    credentials_for(pgpass, main_host) is None && opt_text(password).len() == 0
}

/// Whether the password of the main host must be prompted for.
pub fn needs_password_prompt(
    pgpass: &Vec<PostgresCredentials>,
    main_host: &str,
    password: &Option<String>,
) -> (r: bool)
    ensures
        r == spec_needs_password_prompt(cred_views(pgpass@), main_host@, *password),
{
    if find_credentials(pgpass, main_host).is_some() {
        return false;
    }
    opt_is_empty(password)
}

/// The credentials of the main host made from the command line: the user defaults to
/// `postgres` and the port to 5432.
pub open spec fn command_line_credentials(
    main_host: Seq<char>,
    superuser: Option<String>,
    password: Seq<char>,
    port: Option<u16>,
) -> CredentialsView {
    CredentialsView {
        hostname: main_host,
        superuser: match superuser {
            Some(u) => u@,
            None => "postgres"@,
        },
        password,
        port: match port {
            Some(p) => p,
            None => 5432,
        },
    }
}

/// The credentials of the run: the pgpass ones when they cover the main host; else the
/// command-line ones for the main host, followed by the pgpass ones.
pub fn session_credentials(
    pgpass: Vec<PostgresCredentials>,
    main_host: &str,
    superuser: &Option<String>,
    password: String,
    port: Option<u16>,
) -> (r: Vec<PostgresCredentials>)
    ensures
        credentials_for(cred_views(pgpass@), main_host@) is Some ==> cred_views(r@) == cred_views(
            pgpass@,
        ),
        credentials_for(cred_views(pgpass@), main_host@) is None ==> cred_views(r@) == seq![
            command_line_credentials(main_host@, *superuser, password@, port),
        ] + cred_views(pgpass@),
        credentials_for(cred_views(r@), main_host@) is Some,
{
    if find_credentials(&pgpass, main_host).is_some() {
        return pgpass;
    }
    let user = match superuser {
        Some(u) => u.clone(),
        None => "postgres".to_owned(),
    };
    let p = match port {
        Some(p) => p,
        None => 5432,
    };
    let main = PostgresCredentials::new(main_host.to_owned(), user, password, p);
    let mut r: Vec<PostgresCredentials> = Vec::new();
    r.push(main);
    let mut i: usize = 0;
    while i < pgpass.len()
        invariant
            i <= pgpass.len(),
            r@.len() == i + 1,
            r@[0]@ == command_line_credentials(main_host@, *superuser, password@, port),
            cred_views(r@) =~= seq![command_line_credentials(main_host@, *superuser, password@, port)]
                + cred_views(pgpass@).subrange(0, i as int),
        decreases pgpass.len() - i,
    {
        let ghost before = r@;
        r.push(pgpass[i].duplicate());
        assert(cred_views(r@) =~= cred_views(before).push(pgpass@[i as int]@));
        assert(cred_views(pgpass@).subrange(0, i + 1) =~= cred_views(pgpass@).subrange(0, i as int).push(
            pgpass@[i as int]@,
        ));
        i = i + 1;
    }
    proof {
        reveal_strlit("postgres");
        assert(cred_views(pgpass@).subrange(0, i as int) =~= cred_views(pgpass@));
        assert(cred_views(r@)[0].hostname == main_host@);
    }
    r
}

/// How much the run logs.
#[derive(Debug, Clone, Copy, PartialEq, Eq, Structural)]
pub enum LogLevel {
    Info,
    Debug,
    Trace,
}

/// The log level for the number of `-v` flags: information by default, debugging with one,
/// tracing with two or more.
pub fn log_level(verbosity: u8) -> (r: LogLevel)
    ensures
        r == (if verbosity == 0 {
            LogLevel::Info
        } else if verbosity == 1 {
            LogLevel::Debug
        } else {
            LogLevel::Trace
        }),
{
    if verbosity == 0 {
        LogLevel::Info
    } else if verbosity == 1 {
        LogLevel::Debug
    } else {
        LogLevel::Trace
    }
}

} // verus!
