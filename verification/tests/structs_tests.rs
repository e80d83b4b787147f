use pg_actions::structs::{
    DatabaseDetails, OutputFormat, PGCliError, PGTools, PostgresCredentials, S3Credentials,
    SortingOrder, SqlFileFormat, UserDetails, UserPrivileges,
};

fn other_message(e: PGCliError) -> String {
    match e {
        PGCliError::Other(m) => m,
        e => panic!("unexpected error {:?}", e),
    }
}

#[test]
fn credentials_new_keeps_fields() {
    let c = PostgresCredentials::new("db.local".to_string(), "admin".to_string(), "pw".to_string(), 6543);
    assert_eq!(c.pg_hostname, "db.local");
    assert_eq!(c.pg_superuser, "admin");
    assert_eq!(c.pg_password, "pw");
    assert_eq!(c.pg_port, 6543);
}

#[test]
fn credentials_duplicate_and_same_as() {
    let c = PostgresCredentials::new("h".to_string(), "u".to_string(), "p".to_string(), 5432);
    let d = c.duplicate();
    assert_eq!(c, d);
    assert!(c.same_as(&d));
    let e = PostgresCredentials::new("h".to_string(), "u".to_string(), "p".to_string(), 5433);
    assert!(!c.same_as(&e));
}

#[test]
fn pg_tools_new_and_default() {
    let t = PGTools::new("/usr/bin/pg_dump".to_string(), "/usr/bin/pg_restore".to_string(), "/usr/bin/psql".to_string());
    assert_eq!(t.pg_dump, "/usr/bin/pg_dump");
    assert_eq!(t.pg_restore, "/usr/bin/pg_restore");
    assert_eq!(t.psql, "/usr/bin/psql");
    let d = PGTools::default();
    assert_eq!(d.pg_dump, "");
    assert_eq!(d.pg_restore, "");
    assert_eq!(d.psql, "");
}

#[test]
fn s3_credentials_new_keeps_fields() {
    let s = S3Credentials::new(
        Some("http://minio:9000".to_string()),
        Some("key".to_string()),
        None,
        Some("bucket".to_string()),
        Some("eu-west-1".to_string()),
        Some("backups".to_string()),
    );
    assert_eq!(s.s3_endpoint.as_deref(), Some("http://minio:9000"));
    assert_eq!(s.s3_access_key.as_deref(), Some("key"));
    assert_eq!(s.s3_secret_key, None);
    assert_eq!(s.s3_bucket.as_deref(), Some("bucket"));
    assert_eq!(s.s3_region.as_deref(), Some("eu-west-1"));
    assert_eq!(s.s3_prefix.as_deref(), Some("backups"));
}

#[test]
fn details_as_ref_gives_the_name() {
    let u = UserDetails::Extra { username: "alice".to_string(), createdb: true, superuser: false, login: true, oid: 10 };
    assert_eq!(u.as_ref(), "alice");
    assert_eq!(UserDetails::Username("bob".to_string()).as_ref(), "bob");
    let d = DatabaseDetails::Extra { name: "shop".to_string(), owner: "alice".to_string(), size_pretty: "8 MB".to_string(), oid: 16384 };
    assert_eq!(d.as_ref(), "shop");
    assert_eq!(DatabaseDetails::Name("crm".to_string()).as_ref(), "crm");
}

#[test]
fn user_privileges_names_round_trip() {
    for v in UserPrivileges::value_variants() {
        assert_eq!(UserPrivileges::from_name(v.name()).unwrap(), v);
    }
    assert_eq!(UserPrivileges::from_name("read-only").unwrap(), UserPrivileges::ReadOnly);
    assert_eq!(UserPrivileges::ReadUpdateOnly.name(), "read-update-only");
    assert_eq!(other_message(UserPrivileges::from_name("write").unwrap_err()), "Invalid privilege: write");
}

#[test]
fn sorting_order_names_round_trip() {
    assert_eq!(SortingOrder::value_variants(), vec![SortingOrder::Ascending, SortingOrder::Descending]);
    for v in SortingOrder::value_variants() {
        assert_eq!(SortingOrder::from_name(v.name()).unwrap(), v);
    }
    assert_eq!(SortingOrder::Descending.name(), "desc");
    assert_eq!(other_message(SortingOrder::from_name("up").unwrap_err()), "Invalid sorting order: up");
}

#[test]
fn output_format_names_round_trip() {
    let all = OutputFormat::value_variants();
    assert_eq!(all.len(), 6);
    for v in all {
        assert_eq!(OutputFormat::from_name(v.name()).unwrap(), v);
    }
    assert_eq!(OutputFormat::JsonCompact.name(), "json-compact");
    assert_eq!(OutputFormat::from_name("json-lines").unwrap(), OutputFormat::JsonLines);
    assert_eq!(other_message(OutputFormat::from_name("xml").unwrap_err()), "Invalid output format: xml");
}

#[test]
fn sql_file_format_names_and_display() {
    for v in SqlFileFormat::value_variants() {
        assert_eq!(SqlFileFormat::from_name(v.name()).unwrap(), v);
        assert_eq!(v.file_extension(), v.name());
    }
    assert_eq!(SqlFileFormat::Sql.display_name(), "plain");
    assert_eq!(SqlFileFormat::Bsql.display_name(), "custom");
    assert_eq!(SqlFileFormat::Bsql.file_extension(), "bsql");
    assert_eq!(other_message(SqlFileFormat::from_name("dump").unwrap_err()), "Invalid sql file format: dump");
}
