use pg_actions::database::{database_lines, database_listing, database_records_of, owner_or_superuser};
use pg_actions::extension::{extension_lines, extension_listing, extension_records_of};
use pg_actions::output::{bool_string, csv_listing, make_listing, number_string, record, Listing};
use pg_actions::structs::{
    DatabaseDetails, ExtensionDetails, OutputFormat, PGCliError, PostgresCredentials, UserDetails,
};
use pg_actions::user::{user_lines, user_listing, user_records_of};

fn strings(v: &[&str]) -> Vec<String> {
    v.iter().map(|s| s.to_string()).collect()
}

fn dbs() -> Vec<DatabaseDetails> {
    vec![
        DatabaseDetails::Extra { name: "shop".to_string(), owner: "alice".to_string(), size_pretty: "8 MB".to_string(), oid: 16384 },
        DatabaseDetails::Extra { name: "crm".to_string(), owner: "bob".to_string(), size_pretty: "7 kB".to_string(), oid: 16385 },
    ]
}

#[test]
fn output_helpers() {
    assert_eq!(bool_string(true), "true");
    assert_eq!(bool_string(false), "false");
    assert_eq!(number_string(16384), "16384");
    assert_eq!(record(&["a", "b"]), strings(&["a", "b"]));
}

#[test]
fn csv_documents_quote_as_needed() {
    let records = vec![strings(&["IDX", "Name"]), strings(&["0", "a,b"]), strings(&["1", "say \"hi\""])];
    assert_eq!(csv_listing(&records).unwrap(), "IDX,Name\n0,\"a,b\"\n1,\"say \"\"hi\"\"\"\n");
    let uneven = vec![strings(&["IDX", "Name", "Owner"]), strings(&["0", "a"])];
    assert!(matches!(csv_listing(&uneven), Err(PGCliError::SerdeCsv(_))));
}

#[test]
fn listing_shapes_per_format() {
    let records = vec![strings(&["IDX", "Name"]), strings(&["0", "x"])];
    let lines = strings(&["x"]);
    assert_eq!(make_listing(OutputFormat::Simple, records.clone(), lines.clone()).unwrap(), Listing::Lines(lines.clone()));
    assert_eq!(make_listing(OutputFormat::Table, records.clone(), lines.clone()).unwrap(), Listing::Table(records.clone()));
    assert_eq!(make_listing(OutputFormat::Csv, records.clone(), lines.clone()).unwrap(), Listing::Csv("IDX,Name\n0,x\n".to_string()));
    assert_eq!(make_listing(OutputFormat::JsonLines, records, lines).unwrap(), Listing::Json(OutputFormat::JsonLines));
}

#[test]
fn database_listing_rows_and_lines() {
    let d = dbs();
    assert_eq!(
        database_records_of(&d, true),
        vec![
            strings(&["IDX", "DB name", "Owner", "Size", "OID"]),
            strings(&["0", "shop", "alice", "8 MB", "16384"]),
            strings(&["1", "crm", "bob", "7 kB", "16385"]),
        ]
    );
    assert_eq!(
        database_records_of(&d, false),
        vec![strings(&["IDX", "Name"]), strings(&["0", "shop"]), strings(&["1", "crm"])]
    );
    assert_eq!(database_lines(&d), strings(&["shop\talice\t8 MB\t16384", "crm\tbob\t7 kB\t16385"]));
    assert_eq!(database_lines(&vec![DatabaseDetails::Name("x".to_string())]), strings(&["x"]));
}

#[test]
fn database_listing_formats() {
    assert_eq!(database_listing(&vec![], OutputFormat::Table, true).unwrap(), Listing::Empty);
    assert_eq!(
        database_listing(&dbs(), OutputFormat::Csv, false).unwrap(),
        Listing::Csv("IDX,Name\n0,shop\n1,crm\n".to_string())
    );
    // names only while details are asked for: the CSV writer refuses the short rows
    let names = vec![DatabaseDetails::Name("x".to_string())];
    assert!(matches!(database_listing(&names, OutputFormat::Csv, true), Err(PGCliError::SerdeCsv(_))));
    assert_eq!(database_listing(&names, OutputFormat::Json, true).unwrap(), Listing::Json(OutputFormat::Json));
}

#[test]
fn owner_defaults_to_superuser() {
    let c = PostgresCredentials::new("h".to_string(), "postgres".to_string(), "p".to_string(), 5432);
    assert_eq!(owner_or_superuser(&None, &c), "postgres");
    assert_eq!(owner_or_superuser(&Some("alice".to_string()), &c), "alice");
}

#[test]
fn user_listing_rows_and_lines() {
    let users = vec![
        UserDetails::Extra { username: "alice".to_string(), createdb: true, superuser: false, login: true, oid: 10 },
        UserDetails::Username("bob".to_string()),
    ];
    let records = user_records_of(&users, true);
    assert_eq!(records[0], strings(&["IDX", "Username", "Createdb", "Superuser", "Login", "OID"]));
    assert_eq!(records[1], strings(&["0", "alice", "true", "false", "true", "10"]));
    assert_eq!(records[2], strings(&["1", "bob"]));
    assert_eq!(user_records_of(&users, false)[0], strings(&["IDX", "Username"]));
    assert_eq!(user_lines(&users), strings(&["alice\ttrue\tfalse\ttrue\t10", "bob"]));
    assert_eq!(user_listing(&vec![], OutputFormat::Simple, false).unwrap(), Listing::Lines(vec![]));
    assert_eq!(user_listing(&users, OutputFormat::Simple, true).unwrap(), Listing::Lines(user_lines(&users)));
}

#[test]
fn extension_listing_rows_and_lines() {
    let exts = vec![
        ExtensionDetails::Extra { name: "plpgsql".to_string(), owner: 10, version: "1.0".to_string(), oid: 13581 },
    ];
    assert_eq!(
        extension_records_of(&exts, true),
        vec![strings(&["IDX", "Name", "Owner", "Version", "Oid"]), strings(&["0", "plpgsql", "10", "1.0", "13581"])]
    );
    assert_eq!(extension_lines(&exts), strings(&["plpgsql\t10\t1.0\t13581"]));
    assert_eq!(
        extension_listing(&exts, OutputFormat::Csv, true).unwrap(),
        Listing::Csv("IDX,Name,Owner,Version,Oid\n0,plpgsql,10,1.0,13581\n".to_string())
    );
}

#[test]
fn csv_documents_follow_the_quoting_rules() {
    assert_eq!(csv_listing(&vec![strings(&[""])]).unwrap(), "\"\"\n");
    assert_eq!(csv_listing(&vec![strings(&["", ""])]).unwrap(), ",\n");
    assert_eq!(csv_listing(&vec![strings(&["a\nb", "c\rd", "plain"])]).unwrap(), "\"a\nb\",\"c\rd\",plain\n");
    assert_eq!(csv_listing(&vec![]).unwrap(), "");
}
