use pg_actions::backup::{
    backup_databases, backup_dump_file, backup_plan, backup_temp_folder, check_backup_destination,
    BackupArgs,
};
use pg_actions::clone::{
    clone_dump_file, clone_next, clone_servers, clone_start, find_credentials, CloneArgs,
    CloneEvent, CloneStep,
};
use pg_actions::restore::{
    check_restore_input, download_target, dump_file_name, existing_database_action,
    extract_folder, missing_dump_file_error, restore_file_is_archive, restore_next,
    restore_cleanup, restore_owner, restore_start, retry_download, s3_object_key, RestoreArgs,
    RestoreCleanup, RestoreEvent,
    RestoreStep, MAX_RETRIES,
};
use pg_actions::session::{log_level, needs_password_prompt, session_credentials, LogLevel};
use pg_actions::structs::{DatabaseDetails, PGCliError, PostgresCredentials, S3Credentials, SqlFileFormat};

fn cred(host: &str, user: &str, password: &str, port: u16) -> PostgresCredentials {
    PostgresCredentials::new(host.to_string(), user.to_string(), password.to_string(), port)
}

fn other(e: PGCliError) -> String {
    match e {
        PGCliError::Other(m) => m,
        e => panic!("unexpected error {:?}", e),
    }
}

fn full_s3() -> S3Credentials {
    S3Credentials::new(
        Some("http://minio:9000".to_string()),
        Some("a".to_string()),
        Some("s".to_string()),
        Some("bucket".to_string()),
        Some("us-east-1".to_string()),
        Some("daily".to_string()),
    )
}

#[test]
fn backup_destination_checks() {
    let empty = S3Credentials::new(None, None, None, None, None, None);
    assert!(check_backup_destination(&Some("/backups/x.tar.xz".to_string()), true, &empty).is_ok());
    assert_eq!(
        other(check_backup_destination(&Some("/nowhere/x".to_string()), false, &full_s3()).unwrap_err()),
        "Output location does not exist"
    );
    assert!(check_backup_destination(&None, false, &full_s3()).is_ok());
    assert_eq!(other(check_backup_destination(&None, true, &empty).unwrap_err()), "S3 endpoint is required");
}

#[test]
fn backup_paths() {
    assert_eq!(backup_temp_folder("2024-05-01-10-00-00"), "/tmp/psql_backup/postgresql-backup-2024-05-01-10-00-00");
    assert_eq!(backup_dump_file("/tmp/f", "shop", SqlFileFormat::Bsql), "/tmp/f/shop.bsql");
    assert_eq!(backup_dump_file("/tmp/f", "shop", SqlFileFormat::Sql), "/tmp/f/shop.sql");
}

#[test]
fn backup_of_one_database_to_s3() {
    let args = BackupArgs { database: "shop".to_string(), output_location: None, jobs: 5, format: SqlFileFormat::Bsql, no_archive: false };
    let p = backup_plan(&args.database, args.format, args.no_archive, &args.output_location, "T");
    assert!(p.archive && !p.copy_dump && p.upload);
    assert_eq!(p.output_file_name, "shop-T.tar.xz");
    assert_eq!(p.output_file, "/tmp/psql_backup/shop-T.tar.xz");
}

#[test]
fn backup_without_archive_copies_the_dump() {
    let p = backup_plan("shop", SqlFileFormat::Sql, true, &Some("/srv/shop.sql".to_string()), "T");
    assert!(!p.archive && p.copy_dump && !p.upload);
    assert_eq!(p.output_file_name, "shop-T.sql");
    assert_eq!(p.output_file, "/srv/shop.sql");
}

#[test]
fn backup_of_all_is_always_an_archive() {
    let p = backup_plan("all", SqlFileFormat::Bsql, true, &None, "T");
    assert!(p.archive && !p.copy_dump && p.upload);
    assert_eq!(p.output_file_name, "postgresql-backup-T.tar.xz");
}

#[test]
fn backup_database_selection() {
    let listed = vec![
        DatabaseDetails::Name("shop".to_string()),
        DatabaseDetails::Extra { name: "crm".to_string(), owner: "o".to_string(), size_pretty: "1 kB".to_string(), oid: 1 },
    ];
    assert_eq!(backup_databases("all", &listed), vec!["shop", "crm"]);
    assert_eq!(backup_databases("shop", &listed), vec!["shop"]);
    assert_eq!(backup_databases("all", &vec![]), Vec::<String>::new());
}

#[test]
fn restore_input_checks() {
    assert_eq!(check_restore_input("/srv/x.bsql", true).unwrap(), false);
    assert_eq!(check_restore_input("s3://bucket/daily/x.tar.xz", false).unwrap(), true);
    assert_eq!(other(check_restore_input("/missing", false).unwrap_err()), "Input location does not exist");
}

#[test]
fn restore_s3_locations() {
    let key = s3_object_key("s3://bucket/daily/shop-T.tar.xz", &Some("bucket".to_string()), &Some("daily".to_string()));
    assert_eq!(key, "shop-T.tar.xz");
    assert_eq!(s3_object_key("s3://b/p/x", &None, &None), "b/p/x");
    assert_eq!(download_target("daily/shop-T.tar.xz"), "/tmp/psql_backup/shop-T.tar.xz");
    assert_eq!(download_target("plain"), "/tmp/psql_backup/plain");
    assert_eq!(MAX_RETRIES, 3);
    assert!(retry_download(0) && retry_download(2));
    assert!(!retry_download(3));
}

#[test]
fn restore_files() {
    assert!(restore_file_is_archive("/srv/shop-T.tar.xz"));
    assert!(!restore_file_is_archive("/srv/shop-T.bsql"));
    assert_eq!(extract_folder("/srv/shop-T.tar.xz"), "/tmp/psql_backup/shop-T");
    assert_eq!(extract_folder("a.tar.b.tar.xz"), "/tmp/psql_backup/a.b");
    assert_eq!(dump_file_name("shop", &SqlFileFormat::Bsql, &None), "shop.bsql");
    assert_eq!(dump_file_name("shop", &SqlFileFormat::Sql, &Some("old_shop".to_string())), "old_shop.sql");
    assert_eq!(other(missing_dump_file_error("shop.bsql")), "Database file `shop.bsql` not found in the extracted folder");
}

#[test]
fn restore_owner_choice_and_overwrite() {
    assert_eq!(restore_owner(&Some("a".to_string()), &Some("b".to_string()), "postgres"), "a");
    assert_eq!(restore_owner(&None, &Some("b".to_string()), "postgres"), "b");
    assert_eq!(restore_owner(&None, &None, "postgres"), "postgres");
    assert_eq!(existing_database_action(false, false, "m").unwrap(), false);
    assert_eq!(existing_database_action(true, true, "m").unwrap(), true);
    assert_eq!(other(existing_database_action(true, false, "exists").unwrap_err()), "exists");
}

#[test]
fn restore_steps_replacing_an_existing_database() {
    let args = RestoreArgs {
        database: "shop".to_string(),
        input_location: "/srv/shop.bsql".to_string(),
        jobs: 5,
        format: SqlFileFormat::Bsql,
        file_name: None,
        owner: None,
        overwrite: true,
        keep_temp: false,
    };
    let opts = args.options("postgres");
    let mut s = restore_start();
    assert!(matches!(s.step, RestoreStep::CheckDatabase));
    s = restore_next(s, RestoreEvent::Checked(true), &opts);
    assert!(matches!(s.step, RestoreStep::LookUpOwner));
    s = restore_next(s, RestoreEvent::Owner("alice".to_string()), &opts);
    assert!(matches!(s.step, RestoreStep::KillConnections));
    assert_eq!(s.owner.as_deref(), Some("alice"));
    let mut seen = Vec::new();
    while !matches!(s.step, RestoreStep::Finished | RestoreStep::Failed(_)) {
        seen.push(format!("{:?}", s.step));
        s = restore_next(s, RestoreEvent::Done, &opts);
    }
    assert_eq!(
        seen,
        vec!["KillConnections", "DropDatabase", "LocateFile", "PrepareFile", "CreateDatabase", "Restore", "ChangeTableOwners", "ChangeObjectOwners", "Cleanup"]
    );
    assert!(matches!(s.step, RestoreStep::Finished));
}

#[test]
fn restore_refuses_existing_database_without_overwrite() {
    let args = RestoreArgs {
        database: "shop".to_string(),
        input_location: "/srv/shop.bsql".to_string(),
        jobs: 1,
        format: SqlFileFormat::Bsql,
        file_name: None,
        owner: Some("bob".to_string()),
        overwrite: false,
        keep_temp: false,
    };
    let opts = args.options("postgres");
    let s = restore_next(restore_start(), RestoreEvent::Checked(true), &opts);
    match s.step {
        RestoreStep::Failed(e) => assert_eq!(other(e), "Database already exists and overwrite is not set"),
        other => panic!("unexpected {:?}", other),
    }
}

#[test]
fn restore_failure_while_restoring_cleans_up_first() {
    let args = RestoreArgs {
        database: "new".to_string(),
        input_location: "/srv/new.sql".to_string(),
        jobs: 1,
        format: SqlFileFormat::Sql,
        file_name: None,
        owner: None,
        overwrite: false,
        keep_temp: false,
    };
    let opts = args.options("postgres");
    let mut s = restore_next(restore_start(), RestoreEvent::Checked(false), &opts);
    assert!(matches!(s.step, RestoreStep::LocateFile));
    assert_eq!(s.owner.as_deref(), Some("postgres"));
    s = restore_next(s, RestoreEvent::Done, &opts);
    s = restore_next(s, RestoreEvent::Done, &opts);
    assert!(matches!(s.step, RestoreStep::CreateDatabase));
    s = restore_next(s, RestoreEvent::Done, &opts);
    s = restore_next(s, RestoreEvent::Error(PGCliError::Other("psql failed".to_string())), &opts);
    assert!(matches!(s.step, RestoreStep::CleanupThenFail(_)));
    s = restore_next(s, RestoreEvent::Done, &opts);
    match s.step {
        RestoreStep::Failed(e) => assert_eq!(other(e), "psql failed"),
        other => panic!("unexpected {:?}", other),
    }
}

fn clone_args(overwrite: bool, create_owner: bool, keep_dump: bool) -> CloneArgs {
    CloneArgs {
        database: "shop".to_string(),
        new_database: "shop_copy".to_string(),
        overwrite,
        new_owner: "app".to_string(),
        create_owner,
        new_password: None,
        keep_dump,
        pg_hostname2: None,
        pg_port2: Some(5432),
        pg_superuser2: None,
        pg_password2: None,
    }
}

#[test]
fn clone_servers_same_known_and_new_hosts() {
    let creds = vec![cred("main", "postgres", "p", 5432), cred("other", "admin", "q", 6543)];
    assert_eq!(find_credentials(&creds, "other"), Some(1));
    assert_eq!(find_credentials(&creds, "nowhere"), None);
    let same = clone_servers(&creds, "main", &None, Some(5432), &None, &None).unwrap();
    assert_eq!(same.source, creds[0]);
    assert_eq!(same.destination, creds[0]);
    assert!(same.added.is_none());
    let known = clone_servers(&creds, "main", &Some("other".to_string()), None, &None, &None).unwrap();
    assert_eq!(known.destination, creds[1]);
    assert!(known.added.is_none());
    let new = clone_servers(&creds, "main", &Some("far".to_string()), Some(7000), &Some("root".to_string()), &Some("x".to_string())).unwrap();
    assert_eq!(new.destination, cred("far", "root", "x", 7000));
    assert_eq!(new.added, Some(cred("far", "root", "x", 7000)));
}

#[test]
fn clone_servers_report_missing_settings() {
    let creds = vec![cred("main", "postgres", "p", 5432)];
    let far = Some("far".to_string());
    assert_eq!(other(clone_servers(&creds, "main", &far, None, &Some("u".to_string()), &Some("p".to_string())).unwrap_err()), "New port not provided");
    assert_eq!(other(clone_servers(&creds, "main", &far, Some(1), &None, &Some("p".to_string())).unwrap_err()), "New superuser not provided");
    assert_eq!(other(clone_servers(&creds, "main", &far, Some(1), &Some("u".to_string()), &None).unwrap_err()), "New password not provided");
}

#[test]
fn clone_dump_file_names() {
    let f = clone_dump_file("shop_copy");
    assert!(f.starts_with("/tmp/psql_backup/shop_copy-"));
    assert!(f.ends_with(".bsql"));
    let tag = &f["/tmp/psql_backup/shop_copy-".len()..f.len() - ".bsql".len()];
    assert_eq!(tag.len(), 6);
    assert!(tag.chars().all(|c| c.is_ascii_lowercase() || c.is_ascii_digit()));
}

#[test]
fn clone_steps_with_owner_creation_and_overwrite() {
    let opts = clone_args(true, true, false).options();
    let mut s = clone_start();
    let events = vec![
        CloneEvent::Checked(true),
        CloneEvent::Done,
        CloneEvent::Checked(false),
        CloneEvent::Done,
        CloneEvent::Checked(true),
        CloneEvent::Done,
        CloneEvent::Done,
        CloneEvent::Done,
        CloneEvent::Done,
        CloneEvent::Done,
        CloneEvent::Done,
        CloneEvent::Done,
    ];
    let mut seen = vec![format!("{:?}", s)];
    for e in events {
        s = clone_next(&s, e, &opts);
        seen.push(format!("{:?}", s));
    }
    assert_eq!(
        seen,
        vec!["CheckSource", "Dump", "CheckOwner", "CreateOwner", "CheckTarget", "KillConnections", "DropTarget", "CreateTarget", "Restore", "ChangeTableOwners", "ChangeObjectOwners", "DeleteDump", "Finished"]
    );
}

#[test]
fn clone_refusals() {
    let opts = clone_args(false, false, true).options();
    match clone_next(&CloneStep::CheckSource, CloneEvent::Checked(false), &opts) {
        CloneStep::Failed(e) => assert_eq!(other(e), "Database shop does not exist"),
        s => panic!("unexpected {:?}", s),
    }
    match clone_next(&CloneStep::CheckOwner, CloneEvent::Checked(false), &opts) {
        CloneStep::Failed(e) => assert_eq!(other(e), "New owner does not exist and create_owner is not set"),
        s => panic!("unexpected {:?}", s),
    }
    match clone_next(&CloneStep::CheckTarget, CloneEvent::Checked(true), &opts) {
        CloneStep::Failed(e) => assert_eq!(other(e), "New database already exists and overwrite is not set"),
        s => panic!("unexpected {:?}", s),
    }
    assert!(matches!(clone_next(&CloneStep::ChangeObjectOwners, CloneEvent::Done, &opts), CloneStep::Finished));
    assert!(matches!(clone_next(&CloneStep::Restore, CloneEvent::Error(PGCliError::Other("x".to_string())), &opts), CloneStep::Failed(_)));
}

#[test]
fn session_credentials_prefer_pgpass_covering_the_host() {
    let pgpass = vec![cred("main", "postgres", "stored", 5432)];
    assert!(!needs_password_prompt(&pgpass, "main", &None));
    let r = session_credentials(pgpass.clone(), "main", &Some("other".to_string()), "given".to_string(), Some(1));
    assert_eq!(r, pgpass);
}

#[test]
fn session_credentials_from_the_command_line() {
    let pgpass = vec![cred("elsewhere", "u", "p", 6000)];
    assert!(needs_password_prompt(&pgpass, "main", &None));
    assert!(needs_password_prompt(&pgpass, "main", &Some(String::new())));
    assert!(!needs_password_prompt(&pgpass, "main", &Some("pw".to_string())));
    let r = session_credentials(pgpass.clone(), "main", &None, "pw".to_string(), None);
    assert_eq!(r, vec![cred("main", "postgres", "pw", 5432), cred("elsewhere", "u", "p", 6000)]);
    let r = session_credentials(vec![], "main", &Some("admin".to_string()), "pw".to_string(), Some(6543));
    assert_eq!(r, vec![cred("main", "admin", "pw", 6543)]);
}

#[test]
fn readme_backup_cases() {
    // backup all --format sql (to S3)
    let p = backup_plan("all", SqlFileFormat::Sql, false, &None, "2025-03-29-10-00-00");
    assert!(p.archive && p.upload);
    assert_eq!(p.output_file, "/tmp/psql_backup/postgresql-backup-2025-03-29-10-00-00.tar.xz");
    // backup all --format sql -o ./pgbk.tar.xz
    let p = backup_plan("all", SqlFileFormat::Sql, false, &Some("./pgbk.tar.xz".to_string()), "T");
    assert!(p.archive && !p.upload);
    assert_eq!(p.output_file, "./pgbk.tar.xz");
    // backup dvdrentals --format sql -o ./pgbk.sql --no-archive
    let p = backup_plan("dvdrentals", SqlFileFormat::Sql, true, &Some("./pgbk.sql".to_string()), "T");
    assert!(p.copy_dump && !p.archive && !p.upload);
    assert_eq!(p.output_file, "./pgbk.sql");
    // backup dvdrentals --format bsql -o ./pgbk.tar.xz
    let p = backup_plan("dvdrentals", SqlFileFormat::Bsql, false, &Some("./pgbk.tar.xz".to_string()), "T");
    assert!(p.archive && !p.copy_dump);
    assert_eq!(p.output_file_name, "dvdrentals-T.tar.xz");
}

#[test]
fn restore_from_s3_fetches_what_backup_uploaded() {
    let s3 = full_s3();
    let name = "shop-2025-03-29-10-00-00.tar.xz";
    let uploaded = pg_actions::misc::upload_key(&s3, name);
    let key = s3_object_key(&format!("s3://bucket/daily/{}", name), &s3.s3_bucket, &s3.s3_prefix);
    assert_eq!(key, name);
    assert_eq!(pg_actions::misc::download_key(&s3, &key), uploaded);
    assert_eq!(download_target(&key), format!("/tmp/psql_backup/{}", name));
}

#[test]
fn verbosity_to_log_level() {
    assert_eq!(log_level(0), LogLevel::Info);
    assert_eq!(log_level(1), LogLevel::Debug);
    assert_eq!(log_level(2), LogLevel::Trace);
    assert_eq!(log_level(255), LogLevel::Trace);
}

#[test]
fn restore_cleanup_deletes_only_temporary_files() {
    let archive = Some("/tmp/psql_backup/shop-T.tar.xz".to_string());
    let folder = Some("/tmp/psql_backup/shop-T".to_string());
    let kept = restore_cleanup(true, "s3://bucket/daily/shop-T.tar.xz", &archive, &folder);
    assert_eq!(kept, RestoreCleanup { file: None, folder: None });
    let all = restore_cleanup(false, "s3://bucket/daily/shop-T.tar.xz", &archive, &folder);
    assert_eq!(all, RestoreCleanup { file: archive.clone(), folder: folder.clone() });
    let local = restore_cleanup(false, "/tmp/psql_backup/shop-T.tar.xz", &archive, &None);
    assert_eq!(local, RestoreCleanup { file: None, folder: None });
}
