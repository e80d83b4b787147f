//! The `clone` command: which servers are involved, where the dump goes, and the order
//! of the steps, as a state machine whose actions the caller performs.
use vstd::prelude::*;

use crate::db::general::cred_views;
use crate::misc::generate_random_string;
use crate::structs::{fails_with, is_other_error, CredentialsView, PGCliError, PostgresCredentials};
use crate::text::{is_ascii_alphanumeric, str_eq};

verus! {

/// The options of the `clone` command.
#[derive(Debug, Clone, PartialEq, Eq)]
pub struct CloneArgs {
    /// The database to copy.
    pub database: String,
    /// The name of the copy.
    pub new_database: String,
    /// Replace the copy if it exists.
    pub overwrite: bool,
    /// The owner of the copy.
    pub new_owner: String,
    /// Create the owner when it does not exist.
    pub create_owner: bool,
    /// The password of a created owner.
    pub new_password: Option<String>,
    /// Keep the dump file afterwards.
    pub keep_dump: bool,
    /// Another server to copy to.
    pub pg_hostname2: Option<String>,
    /// The port of that server.
    pub pg_port2: Option<u16>,
    /// Its superuser.
    pub pg_superuser2: Option<String>,
    /// Its superuser's password.
    pub pg_password2: Option<String>,
}

/// The credentials of `host` in a list with distinct host names.
pub open spec fn credentials_for(v: Seq<CredentialsView>, host: Seq<char>) -> Option<CredentialsView>
    decreases v.len(),
{
    if v.len() == 0 {
        None
    } else if v[0].hostname == host {
        Some(v[0])
    } else {
        credentials_for(v.drop_first(), host)
    }
}

/// Finds the credentials of a host.
pub fn find_credentials(credentials: &Vec<PostgresCredentials>, host: &str) -> (r: Option<usize>)
    ensures
        match credentials_for(cred_views(credentials@), host@) {
            Some(c) => r matches Some(i) && i < credentials.len() && credentials@[i as int]@ == c,
            None => r is None,
        },
{
    let ghost v = cred_views(credentials@);
    let mut i: usize = 0;
    assert(v.subrange(0, v.len() as int) =~= v);
    while i < credentials.len()
        invariant
            i <= credentials.len(),
            v == cred_views(credentials@),
            credentials_for(v, host@) == credentials_for(v.subrange(i as int, v.len() as int), host@),
        decreases credentials.len() - i,
    {
        let ghost rest = v.subrange(i as int, v.len() as int);
        assert(rest[0] == credentials@[i as int]@);
        if str_eq(credentials[i].pg_hostname.as_str(), host) {
            return Some(i);
        }
        assert(rest.drop_first() =~= v.subrange(i + 1, v.len() as int));
        i = i + 1;
    }
    None
}

/// The servers of a clone.
#[derive(Debug)]
pub struct CloneServers {
    pub source: PostgresCredentials,
    pub destination: PostgresCredentials,
    /// Credentials of a new destination server, to be remembered with the others.
    pub added: Option<PostgresCredentials>,
}

/// The servers of a clone: the source is the main host; the destination is the second
/// host when one is given (known credentials, else ones made from the given port, user and
/// password, each of which must then be given), else the source.
pub fn clone_servers(
    credentials: &Vec<PostgresCredentials>,
    main_host: &str,
    hostname2: &Option<String>,
    port2: Option<u16>,
    superuser2: &Option<String>,
    password2: &Option<String>,
) -> (r: Result<CloneServers, PGCliError>)
    requires
        credentials_for(cred_views(credentials@), main_host@) is Some,
    ensures
        r matches Ok(s) ==> Some(s.source@) == credentials_for(cred_views(credentials@), main_host@),
        match hostname2 {
            None => r matches Ok(s) && s.destination@ == s.source@ && s.added is None,
            Some(h) => match credentials_for(cred_views(credentials@), h@) {
                Some(c) => r matches Ok(s) && s.destination@ == c && s.added is None,
                None => if port2 is None {
                    fails_with(r, "New port not provided"@)
                } else if superuser2 is None {
                    fails_with(r, "New superuser not provided"@)
                } else if password2 is None {
                    fails_with(r, "New password not provided"@)
                } else {
                    r matches Ok(s) && s.added matches Some(a) && a@ == s.destination@ && s.destination@
                        == (CredentialsView {
                        hostname: h@,
                        superuser: superuser2->0@,
                        password: password2->0@,
                        port: port2->0,
                    })
                },
            },
        },
{
    let main = find_credentials(credentials, main_host);
    let source = credentials[main.unwrap()].duplicate();
    match hostname2 {
        None => {
            let destination = source.duplicate();
            let r = CloneServers { source, destination, added: None };
            Ok(r)
        },
        Some(h) => match find_credentials(credentials, h.as_str()) {
            Some(i) => {
                let destination = credentials[i].duplicate();
                Ok(CloneServers { source, destination, added: None })
            },
            None => {
                if port2.is_none() {
                    return Err(PGCliError::Other("New port not provided".to_owned()));
                }
                if superuser2.is_none() {
                    return Err(PGCliError::Other("New superuser not provided".to_owned()));
                }
                if password2.is_none() {
                    return Err(PGCliError::Other("New password not provided".to_owned()));
                }
                let destination = PostgresCredentials::new(
                    h.clone(),
                    superuser2.clone().unwrap(),
                    password2.clone().unwrap(),
                    port2.unwrap(),
                );
                let added = destination.duplicate();
                Ok(CloneServers { source, destination, added: Some(added) })
            },
        },
    }
}

/// The dump file of a clone: `/tmp/psql_backup/<new database>-<6 random lower-case letters
/// or digits>.bsql`.
pub fn clone_dump_file(new_database: &str) -> (r: String)
    ensures
        exists|tag: Seq<char>|
            {
                &&& tag.len() == 6
                &&& forall|i: int|
                    0 <= i < 6 ==> is_ascii_alphanumeric(#[trigger] tag[i]) && !crate::misc::is_ascii_upper(
                        tag[i],
                    )
                &&& r@ == "/tmp/psql_backup/"@ + new_database@ + "-"@ + tag + ".bsql"@
            },
{
    let tag = generate_random_string(6, true);
    let mut s = "/tmp/psql_backup/".to_owned();
    s.append(new_database);
    s.append("-");
    s.append(tag.as_str());
    s.append(".bsql");
    s
}

/// A step of a clone, or its end.
#[derive(Debug)]
pub enum CloneStep {
    /// Check that the source database exists.
    CheckSource,
    /// Dump the source database to the dump file.
    Dump,
    /// Check that the new owner exists on the destination.
    CheckOwner,
    /// Create the new owner.
    CreateOwner,
    /// Check whether the new database exists.
    CheckTarget,
    /// End the sessions on the existing new database.
    KillConnections,
    /// Drop the existing new database.
    DropTarget,
    /// Create the new database, owned by the new owner.
    CreateTarget,
    /// Restore the dump into the new database.
    Restore,
    /// Give the tables of the new database to the new owner.
    ChangeTableOwners,
    /// Give the types of the new database to the new owner.
    ChangeObjectOwners,
    /// Delete the dump file.
    DeleteDump,
    /// The clone is complete.
    Finished,
    /// The clone stopped with this error.
    Failed(PGCliError),
}

/// What came of a step.
#[derive(Debug)]
pub enum CloneEvent {
    /// A check answered yes or no.
    Checked(bool),
    /// The step was carried out.
    Done,
    /// The step failed with this error.
    Error(PGCliError),
}

/// The choices of a clone that steer it.
#[derive(Debug, Clone)]
pub struct CloneOptions {
    pub database: String,
    pub overwrite: bool,
    pub create_owner: bool,
    pub keep_dump: bool,
}

impl CloneArgs {
    /// The choices that steer the steps of this clone.
    pub fn options(&self) -> (r: CloneOptions)
        ensures
            r.database@ == self.database@,
            r.overwrite == self.overwrite,
            r.create_owner == self.create_owner,
            r.keep_dump == self.keep_dump,
    {
        CloneOptions {
            database: self.database.clone(),
            overwrite: self.overwrite,
            create_owner: self.create_owner,
            keep_dump: self.keep_dump,
        }
    }
}

/// A check step, answered by `Checked`.
pub open spec fn is_check(s: CloneStep) -> bool {
    s is CheckSource || s is CheckOwner || s is CheckTarget
}

/// An event that can follow a step: an answer after a check, `Done` after another step,
/// an error after any.
pub open spec fn event_fits(s: CloneStep, e: CloneEvent) -> bool {
    &&& !(s is Finished) && !(s is Failed)
    &&& e is Checked ==> is_check(s)
    &&& e is Done ==> !is_check(s)
}

/// The first step of a clone.
pub fn clone_start() -> (r: CloneStep)
    ensures
        r is CheckSource,
{
    CloneStep::CheckSource
}

/// How a clone moves on: the step `r` that follows `step` when `event` came of it.
pub open spec fn clone_transition(step: CloneStep, event: CloneEvent, opts: CloneOptions, r: CloneStep) -> bool {
    &&& event matches CloneEvent::Error(e) ==> r == CloneStep::Failed(e)
    &&& match (step, event) {
            (CloneStep::CheckSource, CloneEvent::Checked(true)) => r is Dump,
            (CloneStep::CheckSource, CloneEvent::Checked(false)) => r matches CloneStep::Failed(e)
                && is_other_error(e, "Database "@ + opts.database@ + " does not exist"@),
            (CloneStep::Dump, CloneEvent::Done) => r is CheckOwner,
            (CloneStep::CheckOwner, CloneEvent::Checked(true)) => r is CheckTarget,
            (CloneStep::CheckOwner, CloneEvent::Checked(false)) => if opts.create_owner {
                r is CreateOwner
            } else {
                r matches CloneStep::Failed(e) && is_other_error(
                    e,
                    "New owner does not exist and create_owner is not set"@,
                )
            },
            (CloneStep::CreateOwner, CloneEvent::Done) => r is CheckTarget,
            (CloneStep::CheckTarget, CloneEvent::Checked(true)) => if opts.overwrite {
                r is KillConnections
            } else {
                r matches CloneStep::Failed(e) && is_other_error(
                    e,
                    "New database already exists and overwrite is not set"@,
                )
            },
            (CloneStep::CheckTarget, CloneEvent::Checked(false)) => r is CreateTarget,
            (CloneStep::KillConnections, CloneEvent::Done) => r is DropTarget,
            (CloneStep::DropTarget, CloneEvent::Done) => r is CreateTarget,
            (CloneStep::CreateTarget, CloneEvent::Done) => r is Restore,
            (CloneStep::Restore, CloneEvent::Done) => r is ChangeTableOwners,
            (CloneStep::ChangeTableOwners, CloneEvent::Done) => r is ChangeObjectOwners,
            (CloneStep::ChangeObjectOwners, CloneEvent::Done) => if opts.keep_dump {
                r is Finished
            } else {
                r is DeleteDump
            },
            (CloneStep::DeleteDump, CloneEvent::Done) => r is Finished,
            _ => true,
        }
}

/// The step that follows `step` given what came of it.
pub fn clone_next(step: &CloneStep, event: CloneEvent, opts: &CloneOptions) -> (r: CloneStep)
    requires
        event_fits(*step, event),
    ensures
        clone_transition(*step, event, *opts, r),
{
    match event {
        CloneEvent::Error(e) => CloneStep::Failed(e),
        CloneEvent::Checked(yes) => match step {
            CloneStep::CheckSource => {
                if yes {
                    CloneStep::Dump
                } else {
                    let mut m = "Database ".to_owned();
                    m.append(opts.database.as_str());
                    m.append(" does not exist");
                    CloneStep::Failed(PGCliError::Other(m))
                }
            },
            CloneStep::CheckOwner => {
                if yes {
                    CloneStep::CheckTarget
                } else if opts.create_owner {
                    CloneStep::CreateOwner
                } else {
                    CloneStep::Failed(
                        PGCliError::Other(
                            "New owner does not exist and create_owner is not set".to_owned(),
                        ),
                    )
                }
            },
            _ => {
                if !yes {
                    CloneStep::CreateTarget
                } else if opts.overwrite {
                    CloneStep::KillConnections
                } else {
                    CloneStep::Failed(
                        PGCliError::Other(
                            "New database already exists and overwrite is not set".to_owned(),
                        ),
                    )
                }
            },
        },
        CloneEvent::Done => match step {
            CloneStep::Dump => CloneStep::CheckOwner,
            CloneStep::CreateOwner => CloneStep::CheckTarget,
            CloneStep::KillConnections => CloneStep::DropTarget,
            CloneStep::DropTarget => CloneStep::CreateTarget,
            CloneStep::CreateTarget => CloneStep::Restore,
            CloneStep::Restore => CloneStep::ChangeTableOwners,
            CloneStep::ChangeTableOwners => CloneStep::ChangeObjectOwners,
            CloneStep::ChangeObjectOwners => {
                if opts.keep_dump {
                    CloneStep::Finished
                } else {
                    CloneStep::DeleteDump
                }
            },
            _ => CloneStep::Finished,
        },
    }
}

/// A clone drops the new database only after finding that it exists with overwriting
/// allowed, and only after ending its sessions; it creates an owner only when asked to
/// and the owner is missing; it deletes the dump only when it is not to be kept.
pub proof fn law_clone_destructive_steps_are_guarded(
    step: CloneStep,
    event: CloneEvent,
    opts: CloneOptions,
    r: CloneStep,
)
    requires
        event_fits(step, event),
        clone_transition(step, event, opts, r),
    ensures
        r is KillConnections ==> step is CheckTarget && event == CloneEvent::Checked(true)
            && opts.overwrite,
        r is DropTarget ==> step is KillConnections && event is Done,
        r is CreateOwner ==> step is CheckOwner && event == CloneEvent::Checked(false)
            && opts.create_owner,
        r is DeleteDump ==> !opts.keep_dump,
        r is Dump ==> step is CheckSource && event == CloneEvent::Checked(true),
{
}

} // verus!
