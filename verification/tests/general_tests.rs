use pg_actions::db::general::{
    check_name, compare_pgpass_credentials, connection_database, filter_entities, parse_pgpass,
    pg_dump_args, pg_restore_args, pgpass_credentials_to_write, pgpass_file_content,
    pgpass_is_readable, pgpass_line, psql_restore_args, push_order_clause, push_quoted,
    restore_command, tally_statement_results, validate_pg_names,
};
use pg_actions::structs::{
    DatabaseDetails, PGCliError, PGTools, PostgresCredentials, SortingOrder, SqlFileFormat,
    UserDetails,
};

fn cred(host: &str, user: &str, password: &str, port: u16) -> PostgresCredentials {
    PostgresCredentials::new(host.to_string(), user.to_string(), password.to_string(), port)
}

fn sorted(mut v: Vec<PostgresCredentials>) -> Vec<(String, String, String, u16)> {
    let mut r: Vec<_> = v
        .drain(..)
        .map(|c| (c.pg_hostname, c.pg_superuser, c.pg_password, c.pg_port))
        .collect();
    r.sort();
    r
}

#[test]
fn pg_names_allow_alphanumerics_underscore_dash() {
    assert!(validate_pg_names("my_db-2"));
    assert!(validate_pg_names("café"));
    assert!(validate_pg_names(""));
    assert!(!validate_pg_names("db name"));
    assert!(!validate_pg_names("x\"; DROP TABLE t; --"));
    assert!(!validate_pg_names("o'neil"));
    assert!(!validate_pg_names("a.b"));
}

#[test]
fn check_name_reports_the_given_message() {
    assert!(check_name("ok_name", "Invalid database name").is_ok());
    match check_name("bad name", "Invalid database name") {
        Err(PGCliError::Other(m)) => assert_eq!(m, "Invalid database name"),
        other => panic!("unexpected {:?}", other),
    }
}

#[test]
fn pgpass_lines_are_written_in_order() {
    let a = cred("db1", "postgres", "secret", 5432);
    let b = cred("db2", "admin", "pw", 6543);
    assert_eq!(pgpass_line(&a), "db1:5432:*:postgres:secret\n");
    assert_eq!(
        pgpass_file_content(&vec![a, b]),
        "db1:5432:*:postgres:secret\ndb2:6543:*:admin:pw\n"
    );
    assert_eq!(pgpass_file_content(&vec![]), "");
}

#[test]
fn pgpass_is_read_by_host_last_line_winning() {
    let content = "  db1:5432:*:postgres:one  \nbroken line\ndb2:6543:shop:admin:pw\r\ndb1:5433:*:root:two\n";
    assert!(pgpass_is_readable(content));
    let got = sorted(parse_pgpass(content));
    assert_eq!(
        got,
        vec![
            ("db1".to_string(), "root".to_string(), "two".to_string(), 5433),
            ("db2".to_string(), "admin".to_string(), "pw".to_string(), 6543),
        ]
    );
    assert!(parse_pgpass("").is_empty());
}

#[test]
fn pgpass_with_a_bad_port_is_not_readable() {
    assert!(!pgpass_is_readable("db1:port:*:postgres:pw\n"));
    assert!(!pgpass_is_readable("db1:70000:*:postgres:pw\n"));
    assert!(pgpass_is_readable("only:four:fields:here\n"));
}

#[test]
fn pgpass_read_after_write_gives_the_credentials_back() {
    let written = vec![cred("a", "u1", "p1", 1), cred("b", "u2", "p2", 2), cred("a", "u3", "p3", 3)];
    let text = pgpass_file_content(&written);
    assert!(pgpass_is_readable(&text));
    assert_eq!(
        sorted(parse_pgpass(&text)),
        vec![
            ("a".to_string(), "u3".to_string(), "p3".to_string(), 3),
            ("b".to_string(), "u2".to_string(), "p2".to_string(), 2),
        ]
    );
}

#[test]
fn compare_finds_identical_credentials_only() {
    let stored = vec![cred("h", "u", "p", 5432)];
    assert!(compare_pgpass_credentials(&stored, &cred("h", "u", "p", 5432)));
    assert!(!compare_pgpass_credentials(&stored, &cred("h", "u", "other", 5432)));
    assert!(!compare_pgpass_credentials(&vec![], &cred("h", "u", "p", 5432)));
}

#[test]
fn pgpass_merge_decisions() {
    let a = cred("a", "u", "p", 1);
    let b = cred("b", "u", "p", 2);
    let c = cred("c", "u", "p", 3);
    // nothing stored yet: write what was given, as given
    let w = pgpass_credentials_to_write(&vec![a.clone(), b.clone()], &vec![]).unwrap();
    assert_eq!(w, vec![a.clone(), b.clone()]);
    // everything already stored: nothing to write
    assert!(pgpass_credentials_to_write(&vec![a.clone()], &vec![b.clone(), a.clone()]).is_none());
    // otherwise the union, each once
    let w = pgpass_credentials_to_write(&vec![a.clone(), c.clone(), a.clone()], &vec![b.clone(), a.clone()]).unwrap();
    assert_eq!(sorted(w), sorted(vec![a, b, c]));
}

#[test]
fn client_program_arguments() {
    let c = cred("db.local", "postgres", "pw", 5433);
    assert_eq!(
        pg_dump_args(&c, "shop", SqlFileFormat::Bsql),
        vec!["-v", "--host=db.local", "--username=postgres", "--port=5433", "--dbname=shop", "--format=custom", "--no-owner", "--no-privileges"]
    );
    assert_eq!(
        pg_dump_args(&c, "shop", SqlFileFormat::Sql)[5],
        "--format=plain"
    );
    assert_eq!(
        pg_restore_args(&c, "copy"),
        vec!["-v", "--host=db.local", "--username=postgres", "--port=5433", "--dbname=copy", "--no-owner", "--no-privileges"]
    );
    assert_eq!(
        psql_restore_args(&c, "copy", "/tmp/x.sql"),
        vec!["-e", "--host=db.local", "--username=postgres", "--port=5433", "--dbname=copy", "--file=/tmp/x.sql"]
    );
}

#[test]
fn restore_command_depends_on_format() {
    let c = cred("h", "u", "p", 5432);
    let tools = PGTools::new("/b/pg_dump".to_string(), "/b/pg_restore".to_string(), "/b/psql".to_string());
    let plain = restore_command(&c, "d", "/tmp/d.sql", &tools, SqlFileFormat::Sql);
    assert_eq!(plain.program, "/b/psql");
    assert!(!plain.dump_on_stdin);
    assert_eq!(plain.args.last().unwrap(), "--file=/tmp/d.sql");
    let custom = restore_command(&c, "d", "/tmp/d.bsql", &tools, SqlFileFormat::Bsql);
    assert_eq!(custom.program, "/b/pg_restore");
    assert!(custom.dump_on_stdin);
    assert_eq!(custom.args, pg_restore_args(&c, "d"));
}

#[test]
fn connection_database_defaults_to_postgres() {
    assert_eq!(connection_database(None), "postgres");
    assert_eq!(connection_database(Some("shop".to_string())), "shop");
}

#[test]
fn quoting_and_ordering_helpers() {
    let mut s = String::from("DROP DATABASE ");
    push_quoted(&mut s, "shop");
    assert_eq!(s, "DROP DATABASE \"shop\"");
    let mut q = String::from("SELECT 1");
    push_order_clause(&mut q, &Some(SortingOrder::Descending), "datname");
    assert_eq!(q, "SELECT 1 ORDER BY datname DESC");
    let mut q = String::from("SELECT 1");
    push_order_clause(&mut q, &None, "datname");
    assert_eq!(q, "SELECT 1");
}

#[test]
fn statement_results_are_tallied() {
    assert_eq!(tally_statement_results(1, &vec![Some(2), Some(0), Some(3)], "failed").unwrap(), 6);
    assert_eq!(tally_statement_results(0, &vec![], "failed").unwrap(), 0);
    match tally_statement_results(1, &vec![Some(2), None, Some(3)], "Error revoking privileges") {
        Err(PGCliError::Other(m)) => assert_eq!(m, "Error revoking privileges"),
        other => panic!("unexpected {:?}", other),
    }
}

#[test]
fn fuzzy_filter_keeps_matches_by_increasing_score() {
    let dbs = vec![
        DatabaseDetails::Name("postgres".to_string()),
        DatabaseDetails::Name("shop_prod".to_string()),
        DatabaseDetails::Name("analytics".to_string()),
        DatabaseDetails::Name("shop".to_string()),
    ];
    let got: Vec<String> = filter_entities(dbs, "shop").iter().map(|d| d.as_ref().to_string()).collect();
    assert_eq!(got.len(), 2);
    assert!(got.contains(&"shop".to_string()));
    assert!(got.contains(&"shop_prod".to_string()));
    let users = vec![UserDetails::Username("alice".to_string()), UserDetails::Username("bob".to_string())];
    let none = filter_entities(users, "zzz");
    assert!(none.is_empty());
}

#[test]
fn readme_pgpass_example_is_read() {
    let content = "my_host:5432:*my_db*:my_user:my_password\nmy_host2:5432:*my_db*:my_user:my_password\n";
    assert!(pgpass_is_readable(content));
    assert_eq!(
        sorted(parse_pgpass(content)),
        vec![
            ("my_host".to_string(), "my_user".to_string(), "my_password".to_string(), 5432),
            ("my_host2".to_string(), "my_user".to_string(), "my_password".to_string(), 5432),
        ]
    );
}

#[test]
fn pgpass_after_init_gives_back_the_needed_credentials() {
    let needed = vec![cred("main", "postgres", "pw", 5432), cred("copy", "admin", "x", 6543)];
    let existing = vec![cred("other", "u", "p", 5432)];
    let written = pgpass_credentials_to_write(&needed, &existing).unwrap();
    let text = pgpass_file_content(&written);
    assert!(pgpass_is_readable(&text));
    let read = parse_pgpass(&text);
    for c in &needed {
        assert!(read.contains(c));
    }
    assert!(read.contains(&existing[0]));
    assert_eq!(read.len(), 3);
}

#[test]
fn pgpass_lines_with_a_bad_port_are_skipped() {
    let content = "db1:notaport:*:u:p\ndb2:5432:*:admin:pw\ndb3:70000:*:x:y\n";
    assert!(!pgpass_is_readable(content));
    assert_eq!(
        sorted(parse_pgpass(content)),
        vec![("db2".to_string(), "admin".to_string(), "pw".to_string(), 5432)]
    );
    assert!(parse_pgpass("db1:notaport:*:u:p").is_empty());
}

#[test]
fn second_pgpass_init_writes_nothing() {
    let needed = vec![cred("main", "postgres", "pw", 5432), cred("copy", "admin", "x", 6543)];
    let existing = vec![cred("other", "u", "p", 5432)];
    let written = pgpass_credentials_to_write(&needed, &existing).unwrap();
    let read_back = parse_pgpass(&pgpass_file_content(&written));
    assert!(pgpass_credentials_to_write(&needed, &read_back).is_none());
    let first = pgpass_credentials_to_write(&needed, &vec![]).unwrap();
    let read_back = parse_pgpass(&pgpass_file_content(&first));
    assert!(pgpass_credentials_to_write(&needed, &read_back).is_none());
}
