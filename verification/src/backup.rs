//! The `backup` command: where dumps and archives go, and which steps run.
use vstd::prelude::*;

use crate::structs::{fails_with, DatabaseDetails, PGCliError, S3Credentials, SqlFileFormat};
use crate::misc::s3_credentials_problem;
use crate::text::{ends_with, str_eq};

verus! {

/// The options of the `backup` command.
#[derive(Debug, Clone, PartialEq, Eq)]
pub struct BackupArgs {
    /// The database to back up; `all` backs up every database.
    pub database: String,
    /// The file to write; without one the result goes to S3.
    pub output_location: Option<String>,
    /// How many dumps run at once.
    pub jobs: usize,
    /// The format of the dumps.
    pub format: SqlFileFormat,
    /// Keep the single dump as it is instead of archiving it (not for `all`).
    pub no_archive: bool,
}

/// The folder that backups are staged in.
pub open spec fn backup_root() -> Seq<char> {
    "/tmp/psql_backup"@
}

/// A backup of every database is asked for with the name `all`.
pub open spec fn backs_up_all(database: Seq<char>) -> bool {
    database == "all"@
}

/// Checks the destination of a backup before anything runs: a given output location must
/// be in an existing directory; without one the backup goes to S3, whose settings must be
/// complete.
pub fn check_backup_destination(
    output_location: &Option<String>,
    output_directory_exists: bool,
    s3: &S3Credentials,
) -> (r: Result<(), PGCliError>)
    ensures
        output_location is Some && !output_directory_exists ==> fails_with(
            r,
            "Output location does not exist"@,
        ),
        output_location is Some && output_directory_exists ==> r is Ok,
        output_location is None ==> match s3_credentials_problem(*s3) {
            None => r is Ok,
            Some(m) => fails_with(r, m),
        },
{
    match output_location {
        Some(_) => {
            if !output_directory_exists {
                Err(PGCliError::Other("Output location does not exist".to_owned()))
            } else {
                Ok(())
            }
        },
        None => match s3.validate_s3_credentials() {
            Ok(_) => Ok(()),
            Err(e) => Err(e),
        },
    }
}

/// The staging folder of a backup taken at `timestamp`.
pub open spec fn spec_backup_temp_folder(timestamp: Seq<char>) -> Seq<char> {
    backup_root() + "/postgresql-backup-"@ + timestamp
}

/// `/tmp/psql_backup/postgresql-backup-<timestamp>`.
pub fn backup_temp_folder(timestamp: &str) -> (r: String)
    ensures
        r@ == spec_backup_temp_folder(timestamp@),
{
    let mut s = "/tmp/psql_backup".to_owned();
    s.append("/postgresql-backup-");
    s.append(timestamp);
    s
}

/// The dump of one database in the staging folder: `<folder>/<database>.<sql|bsql>`.
pub open spec fn spec_backup_dump_file(folder: Seq<char>, database: Seq<char>, format: SqlFileFormat) -> Seq<char> {
    folder + "/"@ + database + "."@ + format.spec_name()
}

pub fn backup_dump_file(folder: &str, database: &str, format: SqlFileFormat) -> (r: String)
    ensures
        r@ == spec_backup_dump_file(folder@, database@, format),
{
    let mut s = folder.to_owned();
    s.append("/");
    s.append(database);
    s.append(".");
    s.append(format.file_extension());
    s
}

/// What a backup produces and how.
#[derive(Debug, Clone, PartialEq, Eq)]
pub struct BackupPlan {
    /// Pack the staging folder into a compressed archive at `output_file`.
    pub archive: bool,
    /// Copy the single dump to `output_file` instead.
    pub copy_dump: bool,
    /// Upload `output_file` to S3 under `output_file_name`, then delete it.
    pub upload: bool,
    /// The name of the result: `<database or postgresql-backup>-<timestamp>.<suffix>`.
    pub output_file_name: String,
    /// Where the result is written.
    pub output_file: String,
}

/// The name of the result: the database (or `postgresql-backup` for all of them), the
/// timestamp, and `tar.xz` for an archive or the dump's extension without one. A backup
/// of all databases is always an archive.
pub open spec fn spec_backup_file_name(
    database: Seq<char>,
    timestamp: Seq<char>,
    format: SqlFileFormat,
    no_archive: bool,
) -> Seq<char> {
    (if backs_up_all(database) {
        "postgresql-backup"@
    } else {
        database
    }) + "-"@ + timestamp + "."@ + (if no_archive && !backs_up_all(database) {
        format.spec_name()
    } else {
        "tar.xz"@
    })
}

/// The steps and names of a backup of `database` taken at `timestamp`.
pub fn backup_plan(
    database: &str,
    format: SqlFileFormat,
    no_archive: bool,
    output_location: &Option<String>,
    timestamp: &str,
) -> (r: BackupPlan)
    ensures
        r.archive == (!no_archive || backs_up_all(database@)),
        r.copy_dump == !r.archive,
        r.upload == (output_location is None),
        r.output_file_name@ == spec_backup_file_name(database@, timestamp@, format, no_archive),
        r.output_file@ == (match output_location {
            Some(o) => o@,
            None => backup_root() + "/"@ + r.output_file_name@,
        }),
{
    let all = str_eq(database, "all");
    let mut name = if all {
        "postgresql-backup".to_owned()
    } else {
        database.to_owned()
    };
    name.append("-");
    name.append(timestamp);
    name.append(".");
    if no_archive && !all {
        name.append(format.file_extension());
    } else {
        name.append("tar.xz");
    }
    let output_file = match output_location {
        Some(o) => o.clone(),
        None => {
            let mut f = "/tmp/psql_backup".to_owned();
            f.append("/");
            f.append(name.as_str());
            f
        },
    };
    let archive = !no_archive || all;
    BackupPlan {
        archive,
        copy_dump: !archive,
        upload: output_location.is_none(),
        output_file_name: name,
        output_file,
    }
}

/// The names of the databases to dump: every listed one for `all`, else the one asked for.
pub open spec fn spec_backup_databases(database: Seq<char>, listed: Seq<DatabaseDetails>) -> Seq<Seq<char>> {
    if backs_up_all(database) {
        listed.map_values(|d: DatabaseDetails| d.name_view())
    } else {
        seq![database]
    }
}

/// The databases a backup dumps, given the listing of the server (used for `all` only).
pub fn backup_databases(database: &str, listed: &Vec<DatabaseDetails>) -> (r: Vec<String>)
    ensures
        r@.map_values(|s: String| s@) == spec_backup_databases(database@, listed@),
{
    let mut r: Vec<String> = Vec::new();
    if !str_eq(database, "all") {
        r.push(database.to_owned());
        assert(r@.map_values(|s: String| s@) =~= seq![database@]);
        return r;
    }
    let mut i: usize = 0;
    while i < listed.len()
        invariant
            i <= listed.len(),
            r@.map_values(|s: String| s@) =~= listed@.subrange(0, i as int).map_values(
                |d: DatabaseDetails| d.name_view(),
            ),
        decreases listed.len() - i,
    {
        r.push(listed[i].as_ref().to_owned());
        assert(listed@.subrange(0, i + 1).map_values(|d: DatabaseDetails| d.name_view())
            =~= listed@.subrange(0, i as int).map_values(|d: DatabaseDetails| d.name_view()).push(listed@[i as int].name_view()));
        i = i + 1;
    }
    assert(listed@.subrange(0, i as int) =~= listed@);
    r
}

/// The name of a backup ends with the kind of file it is: without an archive, a backup of
/// one database is its dump, so its name ends with `.` and the extension of the dump's
/// format, the extension that the dump in the staging folder has, and backups in the two
/// formats never share a name; a backup in an archive ends with `.tar.xz`.
pub proof fn law_backup_name_tells_the_file_kind(
    database: Seq<char>,
    timestamp: Seq<char>,
    folder: Seq<char>,
    format: SqlFileFormat,
    no_archive: bool,
)
    ensures
        no_archive && !backs_up_all(database) ==> ends_with(
            spec_backup_file_name(database, timestamp, format, no_archive),
            "."@ + format.spec_name(),
        ) && ends_with(spec_backup_dump_file(folder, database, format), "."@ + format.spec_name()),
        no_archive && !backs_up_all(database) ==> spec_backup_file_name(
            database,
            timestamp,
            SqlFileFormat::Sql,
            true,
        ) != spec_backup_file_name(database, timestamp, SqlFileFormat::Bsql, true),
        !(no_archive && !backs_up_all(database)) ==> ends_with(
            spec_backup_file_name(database, timestamp, format, no_archive),
            ".tar.xz"@,
        ),
        ends_with("."@ + SqlFileFormat::Bsql.spec_name(), "bsql"@),
        ends_with("."@ + SqlFileFormat::Sql.spec_name(), "sql"@) && !ends_with(
            "."@ + SqlFileFormat::Sql.spec_name(),
            "bsql"@,
        ),
{
    reveal_strlit("sql");
    reveal_strlit("bsql");
    reveal_strlit(".");
    let stem = (if backs_up_all(database) {
        "postgresql-backup"@
    } else {
        database
    }) + "-"@ + timestamp;
    let ext = "."@ + format.spec_name();
    if no_archive && !backs_up_all(database) {
        let n = spec_backup_file_name(database, timestamp, format, no_archive);
        assert(n =~= stem + ext);
        assert(n.subrange(n.len() - ext.len(), n.len() as int) =~= ext);
        let d = spec_backup_dump_file(folder, database, format);
        assert(d =~= folder + "/"@ + database + ext);
        assert(d.subrange(d.len() - ext.len(), d.len() as int) =~= ext);
        let a = spec_backup_file_name(database, timestamp, SqlFileFormat::Sql, true);
        let b = spec_backup_file_name(database, timestamp, SqlFileFormat::Bsql, true);
        assert(a =~= stem + "."@ + "sql"@);
        assert(a.len() != b.len());
    } else {
        let n = spec_backup_file_name(database, timestamp, format, no_archive);
        let t = ".tar.xz"@;
        assert(n =~= stem + "."@ + "tar.xz"@);
        reveal_strlit(".tar.xz");
        reveal_strlit("tar.xz");
        assert(n.subrange(n.len() - t.len(), n.len() as int) =~= t);
    }
    let s = "."@ + SqlFileFormat::Sql.spec_name();
    assert(s.subrange(s.len() - 3, s.len() as int) =~= "sql"@);
    assert(s =~= seq!['.', 's', 'q', 'l']);
    assert(s.subrange(0, 4)[0] != "bsql"@[0]);
    let bs = "."@ + SqlFileFormat::Bsql.spec_name();
    assert(bs.subrange(bs.len() - 4, bs.len() as int) =~= "bsql"@);
}

} // verus!
