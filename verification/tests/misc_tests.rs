use pg_actions::misc::{
    archive_file_name, case_string, check_pg_tools_version, download_key, generate_random_string,
    opt_is_empty, parse_version, pg_tool_command, pg_tools_error_messages, s3_region,
    upload_buffer_size, upload_key, S3Region, UPLOAD_PART_SIZE,
};
use pg_actions::structs::{PGCliError, S3Credentials};

fn s3(prefix: Option<&str>) -> S3Credentials {
    S3Credentials::new(
        Some("http://minio:9000".to_string()),
        Some("access".to_string()),
        Some("secret".to_string()),
        Some("bucket".to_string()),
        Some("us-west-2".to_string()),
        prefix.map(|p| p.to_string()),
    )
}

fn s3_error(c: &S3Credentials) -> String {
    match c.validate_s3_credentials() {
        Err(PGCliError::Other(m)) => m,
        other => panic!("expected an error, got {:?}", other),
    }
}

#[test]
fn s3_credentials_accepted_when_complete() {
    let c = s3(Some("backups/daily-1_a"));
    assert!(c.validate_s3_credentials().is_ok());
}

#[test]
fn s3_credentials_first_problem_is_reported() {
    let mut c = s3(Some("p"));
    c.s3_endpoint = None;
    c.s3_bucket = None;
    assert_eq!(s3_error(&c), "S3 endpoint is required");
    let mut c = s3(Some("p"));
    c.s3_access_key = Some(String::new());
    assert_eq!(s3_error(&c), "S3 access key is required");
    let mut c = s3(Some("p"));
    c.s3_secret_key = None;
    assert_eq!(s3_error(&c), "S3 secret key is required");
    let mut c = s3(Some("p"));
    c.s3_bucket = None;
    assert_eq!(s3_error(&c), "S3 bucket is required");
    let mut c = s3(Some("p"));
    c.s3_region = None;
    assert_eq!(s3_error(&c), "S3 region is required");
    assert_eq!(s3_error(&s3(None)), "S3 prefix is required or invalid");
    assert_eq!(s3_error(&s3(Some("bad prefix"))), "S3 prefix is required or invalid");
    assert_eq!(s3_error(&s3(Some("a.b"))), "S3 prefix is required or invalid");
}

#[test]
fn optional_setting_emptiness() {
    assert!(opt_is_empty(&None));
    assert!(opt_is_empty(&Some(String::new())));
    assert!(!opt_is_empty(&Some("x".to_string())));
}

#[test]
fn random_strings_have_length_and_alphabet() {
    let s = generate_random_string(32, false);
    assert_eq!(s.chars().count(), 32);
    assert!(s.chars().all(|c| c.is_ascii_alphanumeric()));
    let l = generate_random_string(200, true);
    assert_eq!(l.chars().count(), 200);
    assert!(l.chars().all(|c| c.is_ascii_lowercase() || c.is_ascii_digit()));
    assert_eq!(generate_random_string(0, true), "");
}

#[test]
fn case_string_lowers_ascii_only() {
    assert_eq!(case_string(&"AbC9".chars().collect(), true), "abc9");
    assert_eq!(case_string(&"AbC9".chars().collect(), false), "AbC9");
}

#[test]
fn versions_are_read_from_tool_output() {
    assert_eq!(parse_version("pg_dump (PostgreSQL) 16.4"), Some(16));
    assert_eq!(parse_version("psql (PostgreSQL) 17.0 (Debian 17.0-1)"), Some(17));
    assert_eq!(parse_version("pg_restore (PostgreSQL) 9"), Some(9));
    assert_eq!(parse_version("no version here"), None);
    assert_eq!(parse_version("tool v16.1"), None);
    assert_eq!(parse_version(""), None);
}

#[test]
fn tools_message_lists_every_problem() {
    assert_eq!(pg_tools_error_messages(Some(16), Some(16), Some(17), 16), None);
    assert_eq!(
        pg_tools_error_messages(Some(14), None, Some(16), 16).unwrap(),
        "pg_dump version 14 is not supported. Minimum supported version is 16.pg_restore tool not found.\nPlease install PostgreSQL 16 or later.\nFor more information, visit: https://www.postgresql.org/download/"
    );
}

#[test]
fn tool_commands_prefer_configured_paths() {
    let commands = vec![
        ("psql".to_string(), "/opt/pg/bin/psql".to_string()),
        ("pg_dump".to_string(), "/opt/pg/bin/pg_dump".to_string()),
        ("psql".to_string(), "/other/psql".to_string()),
    ];
    assert_eq!(pg_tool_command(&commands, "psql"), "/opt/pg/bin/psql");
    assert_eq!(pg_tool_command(&commands, "pg_restore"), "pg_restore");
}

#[test]
fn pg_tools_checked_from_version_outputs() {
    let commands = vec![("pg_dump".to_string(), "/usr/lib/postgresql/16/bin/pg_dump".to_string())];
    let ok = check_pg_tools_version(
        &commands,
        &Some("pg_dump (PostgreSQL) 16.2".to_string()),
        &Some("pg_restore (PostgreSQL) 16.2".to_string()),
        &Some("psql (PostgreSQL) 16.2".to_string()),
        16,
    )
    .unwrap();
    assert_eq!(ok.pg_dump, "/usr/lib/postgresql/16/bin/pg_dump");
    assert_eq!(ok.pg_restore, "pg_restore");
    assert_eq!(ok.psql, "psql");
    match check_pg_tools_version(&commands, &None, &Some("pg_restore (PostgreSQL) 16.2".to_string()), &Some("psql (PostgreSQL) 15.1".to_string()), 16) {
        Err(PGCliError::PGToolsError(m)) => assert_eq!(
            m,
            "pg_dump tool not found.psql version 15 is not supported. Minimum supported version is 16.\nPlease install PostgreSQL 16 or later.\nFor more information, visit: https://www.postgresql.org/download/"
        ),
        other => panic!("unexpected {:?}", other),
    }
}

#[test]
fn archive_names_end_in_tar_xz_once() {
    assert_eq!(archive_file_name("/backups/db"), "/backups/db.tar.xz");
    assert_eq!(archive_file_name("/backups/db.tar.xz"), "/backups/db.tar.xz");
    assert_eq!(archive_file_name(&archive_file_name("x")), archive_file_name("x"));
}

#[test]
fn object_keys_for_upload_and_download() {
    assert_eq!(upload_key(&s3(Some("daily")), "db-1.tar.xz"), "daily/db-1.tar.xz");
    assert_eq!(upload_key(&s3(None), "db-1.tar.xz"), "/db-1.tar.xz");
    assert_eq!(download_key(&s3(Some("daily")), "db-1.tar.xz"), "daily/db-1.tar.xz");
    assert_eq!(download_key(&s3(None), "db-1.tar.xz"), "db-1.tar.xz");
}

#[test]
fn region_choice() {
    match s3_region(&s3(None)) {
        S3Region::Custom { name, endpoint } => {
            assert_eq!(name, "us-west-2");
            assert_eq!(endpoint, "http://minio:9000");
        }
        other => panic!("unexpected {:?}", other),
    }
    let mut c = s3(None);
    c.s3_region = None;
    assert_eq!(s3_region(&c), S3Region::Custom { name: "us-east-1".to_string(), endpoint: "http://minio:9000".to_string() });
    c.s3_endpoint = None;
    assert_eq!(s3_region(&c), S3Region::UsEast1);
    c.s3_region = Some("eu-central-1".to_string());
    assert_eq!(s3_region(&c), S3Region::Named("eu-central-1".to_string()));
}

#[test]
fn upload_buffer_sizes() {
    assert_eq!(UPLOAD_PART_SIZE, 10 * 1024 * 1024);
    assert_eq!(upload_buffer_size(0), 0);
    assert_eq!(upload_buffer_size(1001), 1501);
    assert_eq!(upload_buffer_size(UPLOAD_PART_SIZE), UPLOAD_PART_SIZE + UPLOAD_PART_SIZE / 2);
    assert_eq!(upload_buffer_size(UPLOAD_PART_SIZE + 1), UPLOAD_PART_SIZE);
    assert_eq!(upload_buffer_size(5_000_000_000), UPLOAD_PART_SIZE);
}
