//! The `restore` command: where the dump comes from, which file is restored, the owner,
//! and the order of the steps.
use vstd::prelude::*;

use crate::misc::{s3_credentials_problem, spec_download_key, spec_upload_key};
use crate::structs::{fails_with, is_other_error, PGCliError, S3Credentials, SqlFileFormat};
use crate::text::{
    str_eq,
    ends_with, replace_all, replace_str, split_on, split_str, starts_with, str_ends_with,
    str_starts_with, string_of, to_chars,
};

verus! {

/// The options of the `restore` command.
#[derive(Debug, Clone, PartialEq, Eq)]
pub struct RestoreArgs {
    /// The database to restore into.
    pub database: String,
    /// A local file, or `s3://<bucket>/<key>`.
    pub input_location: String,
    /// How many restore jobs run at once.
    pub jobs: usize,
    /// The format of the dump.
    pub format: SqlFileFormat,
    /// The dump's name without extension inside an archive, when it is not the database's.
    pub file_name: Option<String>,
    /// The owner of the restored database.
    pub owner: Option<String>,
    /// Replace the database if it exists.
    pub overwrite: bool,
    /// Keep the temporary files afterwards.
    pub keep_temp: bool,
}

impl RestoreArgs {
    /// The choices that steer the steps of this restore, on a server whose superuser is
    /// `superuser`.
    pub fn options(&self, superuser: &str) -> (r: RestoreOptions)
        ensures
            r.owner == self.owner,
            r.overwrite == self.overwrite,
            r.superuser@ == superuser@,
    {
        RestoreOptions { owner: self.owner.clone(), overwrite: self.overwrite, superuser: superuser.to_owned() }
    }
}


/// How often a download from S3 is tried before the restore gives up.
pub const MAX_RETRIES: u8 = 3;

/// A location in S3: `s3://...`.
pub open spec fn is_s3_url(location: Seq<char>) -> bool {
    starts_with(location, "s3://"@)
}

/// Checks the input location: a local file that exists, or an S3 URL.
pub fn check_restore_input(input_location: &str, exists: bool) -> (r: Result<bool, PGCliError>)
    ensures
        !exists && !is_s3_url(input_location@) ==> fails_with(r, "Input location does not exist"@),
        exists || is_s3_url(input_location@) ==> r == Ok::<bool, PGCliError>(is_s3_url(input_location@)),
{
    let s3 = str_starts_with(input_location, "s3://");
    if !exists && !s3 {
        Err(PGCliError::Other("Input location does not exist".to_owned()))
    } else {
        Ok(s3)
    }
}

/// The object key in an S3 URL: without `s3://`, then without `<bucket>/`, then without
/// `<prefix>/`, each removed wherever it occurs.
pub open spec fn spec_s3_object_key(
    location: Seq<char>,
    bucket: Option<Seq<char>>,
    prefix: Option<Seq<char>>,
) -> Seq<char> {
    let a = replace_all(location, "s3://"@, Seq::<char>::empty());
    let b = match bucket {
        Some(bk) => replace_all(a, bk + "/"@, Seq::<char>::empty()),
        None => a,
    };
    match prefix {
        Some(p) => replace_all(b, p + "/"@, Seq::<char>::empty()),
        None => b,
    }
}

pub open spec fn opt_seq(o: Option<String>) -> Option<Seq<char>> {
    match o {
        Some(s) => Some(s@),
        None => None,
    }
}

proof fn lemma_slash_suffix_nonempty(s: Seq<char>)
    ensures
        (s + "/"@).len() > 0,
{
    reveal_strlit("/");
}

fn strip_all(s: &str, part: &str) -> (r: String)
    requires
        part@.len() > 0,
    ensures
        r@ == replace_all(s@, part@, Seq::<char>::empty()),
{
    proof {
        reveal_strlit("");
        assert(""@ =~= Seq::<char>::empty());
    }
    replace_str(s, part, "")
}

fn strip_dir(s: &str, dir: &String) -> (r: String)
    ensures
        r@ == replace_all(s@, dir@ + "/"@, Seq::<char>::empty()),
{
    let mut pattern = dir.clone();
    pattern.append("/");
    proof {
        lemma_slash_suffix_nonempty(dir@);
    }
    strip_all(s, pattern.as_str())
}

/// The key of the object that an `s3://` URL names, as `get_file_location` computes it.
pub fn s3_object_key(location: &str, bucket: &Option<String>, prefix: &Option<String>) -> (r: String)
    ensures
        r@ == spec_s3_object_key(location@, opt_seq(*bucket), opt_seq(*prefix)),
{
    proof {
        reveal_strlit("s3://");
    }
    let a = strip_all(location, "s3://");
    let b = match bucket {
        Some(bk) => strip_dir(a.as_str(), bk),
        None => a,
    };
    match prefix {
        Some(p) => strip_dir(b.as_str(), p),
        None => b,
    }
}

/// The last `/`-separated part of a key: the name of the downloaded file.
pub open spec fn last_part(key: Seq<char>) -> Seq<char> {
    split_on(key, '/').last()
}

/// Where a downloaded object is put: `/tmp/psql_backup/<last part of the key>`.
pub open spec fn spec_download_target(key: Seq<char>) -> Seq<char> {
    "/tmp/psql_backup/"@ + last_part(key)
}

pub fn download_target(key: &str) -> (r: String)
    ensures
        r@ == spec_download_target(key@),
{
    let parts = split_str(key, '/');
    proof {
        crate::text::lemma_split_on_nonempty(key@, '/');
    }
    let mut s = "/tmp/psql_backup/".to_owned();
    s.append(parts[parts.len() - 1].as_str());
    assert(crate::text::views(parts@)[parts.len() - 1] == parts@[parts.len() - 1]@);
    s
}

/// Whether a failed download is tried again: before the third attempt.
pub fn retry_download(attempt: u8) -> (r: bool)
    ensures
        r == (attempt < MAX_RETRIES),
{
    attempt < MAX_RETRIES
}

/// A restore file is a compressed archive when its name ends with `.tar.xz`.
pub open spec fn is_archive(location: Seq<char>) -> bool {
    ends_with(location, ".tar.xz"@)
}

/// The folder an archive is extracted to: `/tmp/psql_backup/` and the file name without
/// its final `.xz`, with every `.tar` removed from it.
pub open spec fn spec_extract_folder(location: Seq<char>) -> Seq<char> {
    let name = last_part(location);
    "/tmp/psql_backup/"@ + replace_all(name.take(name.len() - 3), ".tar"@, Seq::<char>::empty())
}

/// The folder that `get_restore_file_location` extracts an archive to.
pub fn extract_folder(location: &str) -> (r: String)
    requires
        is_archive(location@),
    ensures
        r@ == spec_extract_folder(location@),
{
    let parts = split_str(location, '/');
    proof {
        crate::text::lemma_split_on_nonempty(location@, '/');
        reveal_strlit(".tar.xz");
        reveal_strlit(".tar");
        lemma_last_part_ends(location@);
    }
    let name = to_chars(parts[parts.len() - 1].as_str());
    assert(crate::text::views(parts@)[parts.len() - 1] == parts@[parts.len() - 1]@);
    let stem = string_of(&name, 0, name.len() - 3);
    assert(name@.subrange(0, name@.len() - 3) =~= name@.take(name@.len() - 3));
    let cleaned = strip_all(stem.as_str(), ".tar");
    let mut s = "/tmp/psql_backup/".to_owned();
    s.append(cleaned.as_str());
    s
}

/// The last part of a path that ends with `.tar.xz` is at least three characters long.
proof fn lemma_last_part_ends(location: Seq<char>)
    requires
        is_archive(location),
    ensures
        last_part(location).len() >= 3,
    decreases location.len(),
{
    reveal_strlit(".tar.xz");
    let t = ".tar.xz"@;
    assert(t.len() == 7);
    let n = location.len();
    assert(location.subrange(n - 7, n as int) == t);
    assert forall|i: int| n - 3 <= i < n implies location[i] != '/' by {
        assert(location[i] == location.subrange(n - 7, n as int)[i - (n - 7)]);
        assert(t[i - (n - 7)] != '/');
    }
    lemma_last_part_suffix(location, 3);
}

/// The last `/`-part of `s` ends with the last `k` characters of `s` when none of them is `/`.
proof fn lemma_last_part_suffix(s: Seq<char>, k: int)
    requires
        0 <= k <= s.len(),
        forall|i: int| s.len() - k <= i < s.len() ==> s[i] != '/',
    ensures
        last_part(s).len() >= k,
    decreases k,
{
    crate::text::lemma_split_on_nonempty(s, '/');
    if k > 0 {
        let t = s.drop_last();
        assert forall|i: int| t.len() - (k - 1) <= i < t.len() implies t[i] != '/' by {
            assert(t[i] == s[i]);
        }
        lemma_last_part_suffix(t, k - 1);
        crate::text::lemma_split_on_nonempty(t, '/');
        assert(s.last() == s[s.len() - 1]);
        assert(s.drop_last() == t);
    }
}

/// The dump file looked for in an extracted archive: `<file name or database>.<sql|bsql>`.
pub open spec fn spec_dump_file_name(
    database: Seq<char>,
    format: SqlFileFormat,
    file_name: Option<Seq<char>>,
) -> Seq<char> {
    (match file_name {
        Some(f) => f,
        None => database,
    }) + "."@ + format.spec_name()
}

pub fn dump_file_name(database: &str, format: &SqlFileFormat, file_name: &Option<String>) -> (r: String)
    ensures
        r@ == spec_dump_file_name(database@, *format, opt_seq(*file_name)),
{
    let mut s = match file_name {
        Some(f) => f.clone(),
        None => database.to_owned(),
    };
    s.append(".");
    s.append(format.file_extension());
    s
}

/// The error when the extracted archive has no such dump file.
pub fn missing_dump_file_error(file_name: &str) -> (e: PGCliError)
    ensures
        crate::structs::is_other_error(
            e,
            "Database file `"@ + file_name@ + "` not found in the extracted folder"@,
        ),
{
    let mut m = "Database file `".to_owned();
    m.append(file_name);
    m.append("` not found in the extracted folder");
    PGCliError::Other(m)
}

/// Whether the restore file needs extracting first.
pub fn restore_file_is_archive(location: &str) -> (r: bool)
    ensures
        r == is_archive(location@),
{
    str_ends_with(location, ".tar.xz")
}

/// The owner of the restored database: the one asked for, else the owner of the database
/// being replaced, else the superuser.
pub fn restore_owner(owner: &Option<String>, existing_owner: &Option<String>, superuser: &str) -> (r:
    String)
    ensures
        r@ == (match owner {
            Some(o) => o@,
            None => match existing_owner {
                Some(e) => e@,
                None => superuser@,
            },
        }),
{
    match owner {
        Some(o) => o.clone(),
        None => match existing_owner {
            Some(e) => e.clone(),
            None => superuser.to_owned(),
        },
    }
}

/// What to do about a database that is already there: nothing if it is not; drop it when
/// overwriting is allowed; else refuse with `message`.
pub fn existing_database_action(exists: bool, overwrite: bool, message: &str) -> (r: Result<bool, PGCliError>)
    ensures
        !exists ==> r == Ok::<bool, PGCliError>(false),
        exists && overwrite ==> r == Ok::<bool, PGCliError>(true),
        exists && !overwrite ==> fails_with(r, message@),
{
    if exists && !overwrite {
        Err(PGCliError::Other(message.to_owned()))
    } else {
        Ok(exists)
    }
}


/// A temporary path, unless it is the input location, which is never deleted.
pub open spec fn other_than(path: Option<Seq<char>>, input: Seq<char>) -> Option<Seq<char>> {
    match path {
        Some(p) => if p == input {
            None
        } else {
            Some(p)
        },
        None => None,
    }
}

/// What the clean-up of a restore deletes.
#[derive(Debug, Clone, PartialEq, Eq)]
pub struct RestoreCleanup {
    /// The archive downloaded from S3.
    pub file: Option<String>,
    /// The folder an archive was extracted to.
    pub folder: Option<String>,
}

fn unless_input(path: &Option<String>, input_location: &str) -> (r: Option<String>)
    ensures
        opt_seq(r) == other_than(opt_seq(*path), input_location@),
{
    match path {
        Some(p) => {
            if str_eq(p.as_str(), input_location) {
                None
            } else {
                Some(p.clone())
            }
        },
        None => None,
    }
}

/// The clean-up of a restore: nothing when the temporary files are kept; else the
/// downloaded archive and the extracted folder, whichever there are, and never the input
/// location itself.
pub fn restore_cleanup(
    keep_temp: bool,
    input_location: &str,
    downloaded: &Option<String>,
    extracted: &Option<String>,
) -> (r: RestoreCleanup)
    ensures
        keep_temp ==> r.file is None && r.folder is None,
        !keep_temp ==> opt_seq(r.file) == other_than(opt_seq(*downloaded), input_location@)
            && opt_seq(r.folder) == other_than(opt_seq(*extracted), input_location@),
        r.file matches Some(f) ==> f@ != input_location@,
        r.folder matches Some(f) ==> f@ != input_location@,
{
    if keep_temp {
        RestoreCleanup { file: None, folder: None }
    } else {
        RestoreCleanup {
            file: unless_input(downloaded, input_location),
            folder: unless_input(extracted, input_location),
        }
    }
}

/// A step of a restore, or its end.
#[derive(Debug)]
pub enum RestoreStep {
    /// Check whether the database exists.
    CheckDatabase,
    /// Look up the owner of the existing database.
    LookUpOwner,
    /// End the sessions on the existing database.
    KillConnections,
    /// Drop the existing database.
    DropDatabase,
    /// Find the dump: download it from S3 (with retries) or take the local file.
    LocateFile,
    /// Extract the dump from an archive if it is one.
    PrepareFile,
    /// Create the database for the owner.
    CreateDatabase,
    /// Restore the dump into it.
    Restore,
    /// Give its tables to the owner.
    ChangeTableOwners,
    /// Give its types to the owner.
    ChangeObjectOwners,
    /// Delete the temporary files unless they are to be kept.
    Cleanup,
    /// Delete the temporary files, then stop with this error.
    CleanupThenFail(PGCliError),
    /// The restore is complete.
    Finished,
    /// The restore stopped with this error.
    Failed(PGCliError),
}

/// What came of a restore step.
#[derive(Debug)]
pub enum RestoreEvent {
    /// A check answered yes or no.
    Checked(bool),
    /// The owner that was looked up.
    Owner(String),
    /// The step was carried out.
    Done,
    /// The step failed with this error.
    Error(PGCliError),
}

/// A restore in progress: the next step, whether the database existed, and the owner
/// once it is known.
#[derive(Debug)]
pub struct RestoreState {
    pub step: RestoreStep,
    pub database_exists: bool,
    pub owner: Option<String>,
}

/// The choices of a restore that steer it.
#[derive(Debug, Clone)]
pub struct RestoreOptions {
    /// The owner asked for.
    pub owner: Option<String>,
    /// Replace an existing database.
    pub overwrite: bool,
    /// The superuser of the connection, the owner when nothing else gives one.
    pub superuser: String,
}

/// The first state of a restore.
pub fn restore_start() -> (r: RestoreState)
    ensures
        r.step is CheckDatabase,
        !r.database_exists,
        r.owner is None,
        forall|opts: RestoreOptions| restore_state_ok(r, opts),
{
    RestoreState { step: RestoreStep::CheckDatabase, database_exists: false, owner: None }
}

/// An event that can follow a step: an answer after the existence check, an owner after
/// the look-up, `Done` after the other steps, an error after any.
pub open spec fn restore_event_fits(s: RestoreStep, e: RestoreEvent) -> bool {
    &&& !(s is Finished) && !(s is Failed)
    &&& e is Checked ==> s is CheckDatabase
    &&& e is Owner ==> s is LookUpOwner
    &&& e is Done ==> !(s is CheckDatabase) && !(s is LookUpOwner)
}

/// Steps that come once the owner of the restored database is known.
pub open spec fn owner_known_step(s: RestoreStep) -> bool {
    !(s is CheckDatabase) && !(s is LookUpOwner) && !(s is Failed)
}

/// What holds of every state of a restore: the owner is looked up only for a database that
/// exists; past that the owner is known; the database is replaced only when it exists and
/// replacing it is allowed.
pub open spec fn restore_state_ok(s: RestoreState, opts: RestoreOptions) -> bool {
    &&& s.step is LookUpOwner ==> s.database_exists
    &&& owner_known_step(s.step) ==> s.owner is Some
    &&& (s.step is KillConnections || s.step is DropDatabase) ==> s.database_exists && opts.overwrite
}

/// The step after the owner is known: refuse to replace an existing database without
/// leave, replace it with leave, else go on to the dump.
pub open spec fn after_owner(exists: bool, overwrite: bool, r: RestoreStep) -> bool {
    if exists && !overwrite {
        r matches RestoreStep::Failed(e) && is_other_error(
            e,
            "Database already exists and overwrite is not set"@,
        )
    } else if exists {
        r is KillConnections
    } else {
        r is LocateFile
    }
}

/// How a restore moves on: the state `r` that follows `s` when `event` came of its step.
pub open spec fn restore_transition(s: RestoreState, event: RestoreEvent, opts: RestoreOptions, r: RestoreState) -> bool {
    match s.step {
        RestoreStep::CheckDatabase => match event {
            RestoreEvent::Checked(b) => {
                &&& r.database_exists == b
                &&& match opts.owner {
                    Some(o) => r.owner == Some(o) && after_owner(b, opts.overwrite, r.step),
                    None => if b {
                        r.step is LookUpOwner && r.owner is None
                    } else {
                        r.owner == Some(opts.superuser) && after_owner(false, opts.overwrite, r.step)
                    },
                }
            },
            RestoreEvent::Error(e) => r.step == RestoreStep::Failed(e),
            _ => true,
        },
        RestoreStep::LookUpOwner => match event {
            RestoreEvent::Owner(o) => r.owner == Some(o) && r.database_exists == s.database_exists
                && after_owner(s.database_exists, opts.overwrite, r.step),
            RestoreEvent::Error(e) => r.step == RestoreStep::Failed(e),
            _ => true,
        },
        RestoreStep::CleanupThenFail(e) => match event {
            RestoreEvent::Error(e2) => r.step == RestoreStep::Failed(e2),
            _ => r.step == RestoreStep::Failed(e),
        },
        _ => {
            &&& r.owner == s.owner
            &&& r.database_exists == s.database_exists
            &&& match event {
                RestoreEvent::Error(e) => if s.step is LocateFile || s.step is PrepareFile
                    || s.step is Restore {
                    r.step == RestoreStep::CleanupThenFail(e)
                } else {
                    r.step == RestoreStep::Failed(e)
                },
                _ => match s.step {
                    RestoreStep::KillConnections => r.step is DropDatabase,
                    RestoreStep::DropDatabase => r.step is LocateFile,
                    RestoreStep::LocateFile => r.step is PrepareFile,
                    RestoreStep::PrepareFile => r.step is CreateDatabase,
                    RestoreStep::CreateDatabase => r.step is Restore,
                    RestoreStep::Restore => r.step is ChangeTableOwners,
                    RestoreStep::ChangeTableOwners => r.step is ChangeObjectOwners,
                    RestoreStep::ChangeObjectOwners => r.step is Cleanup,
                    RestoreStep::Cleanup => r.step is Finished,
                    _ => true,
                },
            }
        },
    }
}

fn step_after_owner(exists: bool, overwrite: bool) -> (r: RestoreStep)
    ensures
        after_owner(exists, overwrite, r),
{
    if exists && !overwrite {
        RestoreStep::Failed(
            PGCliError::Other("Database already exists and overwrite is not set".to_owned()),
        )
    } else if exists {
        RestoreStep::KillConnections
    } else {
        RestoreStep::LocateFile
    }
}

/// The state that follows `state` given what came of its step.
pub fn restore_next(state: RestoreState, event: RestoreEvent, opts: &RestoreOptions) -> (r: RestoreState)
    requires
        restore_event_fits(state.step, event),
    ensures
        restore_transition(state, event, *opts, r),
{
    let RestoreState { step, database_exists, owner } = state;
    match step {
        RestoreStep::CheckDatabase => match event {
            RestoreEvent::Checked(b) => match &opts.owner {
                Some(o) => RestoreState {
                    step: step_after_owner(b, opts.overwrite),
                    database_exists: b,
                    owner: Some(o.clone()),
                },
                None => {
                    if b {
                        RestoreState { step: RestoreStep::LookUpOwner, database_exists: b, owner: None }
                    } else {
                        RestoreState {
                            step: step_after_owner(false, opts.overwrite),
                            database_exists: b,
                            owner: Some(opts.superuser.clone()),
                        }
                    }
                },
            },
            RestoreEvent::Error(e) => RestoreState {
                step: RestoreStep::Failed(e),
                database_exists,
                owner,
            },
            _ => RestoreState { step: RestoreStep::CheckDatabase, database_exists, owner },
        },
        RestoreStep::LookUpOwner => match event {
            RestoreEvent::Owner(o) => RestoreState {
                step: step_after_owner(database_exists, opts.overwrite),
                database_exists,
                owner: Some(o),
            },
            RestoreEvent::Error(e) => RestoreState {
                step: RestoreStep::Failed(e),
                database_exists,
                owner,
            },
            _ => RestoreState { step: RestoreStep::LookUpOwner, database_exists, owner },
        },
        RestoreStep::CleanupThenFail(e) => match event {
            RestoreEvent::Error(e2) => RestoreState {
                step: RestoreStep::Failed(e2),
                database_exists,
                owner,
            },
            _ => RestoreState { step: RestoreStep::Failed(e), database_exists, owner },
        },
        other => {
            let next = match event {
                RestoreEvent::Error(e) => match other {
                    RestoreStep::LocateFile => RestoreStep::CleanupThenFail(e),
                    RestoreStep::PrepareFile => RestoreStep::CleanupThenFail(e),
                    RestoreStep::Restore => RestoreStep::CleanupThenFail(e),
                    _ => RestoreStep::Failed(e),
                },
                _ => match other {
                    RestoreStep::KillConnections => RestoreStep::DropDatabase,
                    RestoreStep::DropDatabase => RestoreStep::LocateFile,
                    RestoreStep::LocateFile => RestoreStep::PrepareFile,
                    RestoreStep::PrepareFile => RestoreStep::CreateDatabase,
                    RestoreStep::CreateDatabase => RestoreStep::Restore,
                    RestoreStep::Restore => RestoreStep::ChangeTableOwners,
                    RestoreStep::ChangeTableOwners => RestoreStep::ChangeObjectOwners,
                    RestoreStep::ChangeObjectOwners => RestoreStep::Cleanup,
                    _ => RestoreStep::Finished,
                },
            };
            RestoreState { step: next, database_exists, owner }
        },
    }
}

/// Every step of a restore keeps `restore_state_ok`, which its first state has; and so a
/// restore drops a database only after ending its sessions, ends them only when the
/// database existed and replacing it is allowed, creates the database only once the owner
/// is known, and finishes only through the clean-up step.
pub proof fn law_restore_steps_are_guarded(
    s: RestoreState,
    event: RestoreEvent,
    opts: RestoreOptions,
    r: RestoreState,
)
    requires
        restore_state_ok(s, opts),
        restore_event_fits(s.step, event),
        restore_transition(s, event, opts, r),
    ensures
        restore_state_ok(r, opts),
        r.step is DropDatabase ==> s.step is KillConnections,
        r.step is KillConnections ==> r.database_exists && opts.overwrite,
        r.step is CreateDatabase ==> r.owner is Some,
        r.step is Finished ==> s.step is Cleanup,
        r.step is LocateFile ==> r.owner is Some && (r.database_exists ==> s.step is DropDatabase),
{
}

/// `p` occurs in `s` at `i`.
pub open spec fn occurs_at(s: Seq<char>, p: Seq<char>, i: int) -> bool {
    0 <= i && i + p.len() <= s.len() && s.subrange(i, i + p.len()) == p
}

/// Replacing a pattern that does not occur changes nothing.
proof fn lemma_replace_absent(s: Seq<char>, p: Seq<char>, t: Seq<char>)
    requires
        p.len() > 0,
        forall|i: int| !occurs_at(s, p, i),
    ensures
        replace_all(s, p, t) == s,
    decreases s.len(),
{
    if s.len() < p.len() || s.len() == 0 {
    } else {
        assert(!occurs_at(s, p, 0));
        let d = s.drop_first();
        assert forall|i: int| !occurs_at(d, p, i) by {
            if occurs_at(d, p, i) {
                assert(s.subrange(i + 1, i + 1 + p.len()) =~= d.subrange(i, i + p.len()));
                assert(occurs_at(s, p, i + 1));
            }
        }
        lemma_replace_absent(d, p, t);
        assert(seq![s[0]] + d =~= s);
    }
}

/// Replacing a pattern at the start of a text replaces it there and goes on after it.
proof fn lemma_replace_leading(p: Seq<char>, r: Seq<char>, t: Seq<char>)
    requires
        p.len() > 0,
    ensures
        replace_all(p + r, p, t) == t + replace_all(r, p, t),
{
    let s = p + r;
    assert(s.subrange(0, p.len() as int) =~= p);
    assert(s.subrange(p.len() as int, s.len() as int) =~= r);
}

/// The backup of `name` that was uploaded to S3 under validated settings is what a restore
/// from `s3://<bucket>/<prefix>/<name>` fetches, and it is saved as
/// `/tmp/psql_backup/<name>`: the key a restore derives from that location, with the prefix
/// put back by the download, is the key of the upload. This holds when the name holds no
/// `/`, `s3://` occurs in the location only at its start, and `<bucket>/` occurs in it only
/// right after `s3://`; elsewhere the derivation removes those occurrences as well.
pub proof fn law_restore_fetches_the_uploaded_backup(s3: S3Credentials, name: Seq<char>)
    requires
        s3_credentials_problem(s3) is None,
        !name.contains('/'),
        forall|i: int|
            !occurs_at(
                s3.s3_bucket->0@ + "/"@ + s3.s3_prefix->0@ + "/"@ + name,
                "s3://"@,
                i,
            ),
        forall|i: int| !occurs_at(s3.s3_prefix->0@ + "/"@ + name, s3.s3_bucket->0@ + "/"@, i),
    ensures
        ({
            let url = "s3://"@ + s3.s3_bucket->0@ + "/"@ + s3.s3_prefix->0@ + "/"@ + name;
            let key = spec_s3_object_key(url, opt_seq(s3.s3_bucket), opt_seq(s3.s3_prefix));
            &&& key == name
            &&& spec_download_key(s3.s3_prefix, key) == spec_upload_key(s3.s3_prefix, name)
            &&& spec_download_target(key) == "/tmp/psql_backup/"@ + name
        }),
{
    reveal_strlit("s3://");
    reveal_strlit("/");
    let b = s3.s3_bucket->0@;
    let p = s3.s3_prefix->0@;
    let e = Seq::<char>::empty();
    let scheme = "s3://"@;
    let q = p + "/"@ + name;
    let rest = b + "/"@ + q;
    let url = scheme + rest;
    assert("s3://"@ + b + "/"@ + p + "/"@ + name =~= url);
    assert(b + "/"@ + p + "/"@ + name =~= rest);
    // the scheme, at the start only
    lemma_replace_leading(scheme, rest, e);
    lemma_replace_absent(rest, scheme, e);
    assert(e + rest =~= rest);
    // the bucket, right after the scheme only
    let bs = b + "/"@;
    assert(rest =~= bs + q);
    lemma_replace_leading(bs, q, e);
    lemma_replace_absent(q, bs, e);
    assert(e + q =~= q);
    // the prefix: at the start, and not in the name, which holds no `/`
    let ps = p + "/"@;
    assert(q =~= ps + name);
    lemma_replace_leading(ps, name, e);
    assert forall|i: int| !occurs_at(name, ps, i) by {
        if occurs_at(name, ps, i) {
            assert(name.subrange(i, i + ps.len())[p.len() as int] == ps[p.len() as int]);
            assert(name[i + p.len()] == '/');
            assert(name.contains(name[i + p.len()]));
        }
    }
    lemma_replace_absent(name, ps, e);
    assert(e + name =~= name);
    assert(spec_s3_object_key(url, opt_seq(s3.s3_bucket), opt_seq(s3.s3_prefix)) == name);
    crate::text::lemma_split_on_no_sep(name, '/');
}

} // verus!
