use pg_actions::db::database::{
    change_owner_of_db_statement, change_table_owner_statement, change_type_owner_statement,
    check_create_db, check_database_exists_query, check_owner_change, create_db_statement,
    database_owner_query, delete_db_statement, kill_connections_query, list_databases_query,
    public_tables_query, user_types_query,
};
use pg_actions::db::extension::{
    create_extension_statement, drop_extension_statement, list_extensions_query,
};
use pg_actions::db::user::{
    alter_role_statement, check_create_user, check_user_exists_query, create_role_statement,
    delete_role_statement, grant_database_statement, list_roles_query,
    prepare_grant_privileges_tables, prepare_revoke_privileges_tables, revoke_database_statement,
    role_password,
};
use pg_actions::structs::{PGCliError, SortingOrder, UserPrivileges};

fn message<T: std::fmt::Debug>(r: Result<T, PGCliError>) -> String {
    match r {
        Err(PGCliError::Other(m)) => m,
        other => panic!("expected an error, got {:?}", other),
    }
}

#[test]
fn database_queries() {
    assert_eq!(
        list_databases_query(&None, false),
        "SELECT d.datname FROM pg_database d LEFT JOIN pg_roles r ON d.datdba = r.oid WHERE d.datistemplate = false AND d.datname NOT IN ('template0','template1')"
    );
    assert_eq!(
        list_databases_query(&Some(SortingOrder::Ascending), true),
        "SELECT d.datname, d.oid, pg_size_pretty(pg_database_size(d.datname)), r.rolname FROM pg_database d LEFT JOIN pg_roles r ON d.datdba = r.oid WHERE d.datistemplate = false AND d.datname NOT IN ('template0','template1') ORDER BY d.datname ASC"
    );
    assert_eq!(check_database_exists_query(), "SELECT EXISTS(SELECT 1 FROM pg_database WHERE datname=$1)");
    assert!(kill_connections_query().contains("pg_terminate_backend(pid)"));
    assert!(database_owner_query().ends_with("WHERE d.datname = $1"));
    assert_eq!(public_tables_query(), "SELECT tablename FROM pg_tables WHERE schemaname = 'public'");
    assert!(user_types_query().starts_with("SELECT typname FROM pg_type"));
}

#[test]
fn database_statements() {
    assert_eq!(create_db_statement("shop", "alice"), "CREATE DATABASE \"shop\" WITH OWNER \"alice\"");
    assert_eq!(delete_db_statement("shop"), "DROP DATABASE \"shop\"");
    assert_eq!(change_owner_of_db_statement("shop", "bob"), "ALTER DATABASE \"shop\" OWNER TO \"bob\"");
    assert_eq!(change_table_owner_statement("orders", "bob"), "ALTER TABLE \"public\".\"orders\" OWNER TO bob");
    assert_eq!(change_type_owner_statement("mood", "bob"), "ALTER TYPE \"mood\" OWNER TO \"bob\"");
}

#[test]
fn database_name_checks() {
    assert!(check_create_db("shop", "alice").is_ok());
    assert_eq!(message(check_create_db("sh op", "al ice")), "Invalid database name");
    assert_eq!(message(check_create_db("shop", "al ice")), "Invalid owner name");
    assert!(check_owner_change("shop", "bob").is_ok());
    assert_eq!(message(check_owner_change("sh op", "b ob")), "Invalid new owner name");
    assert_eq!(message(check_owner_change("sh op", "bob")), "Invalid database name");
}

#[test]
fn extension_statements() {
    assert_eq!(list_extensions_query(&None, false), "SELECT extname FROM pg_extension");
    assert_eq!(
        list_extensions_query(&Some(SortingOrder::Descending), true),
        "SELECT extname, extowner, extversion, oid FROM pg_extension ORDER BY extname DESC"
    );
    assert_eq!(create_extension_statement("pg_trgm").unwrap(), "CREATE EXTENSION IF NOT EXISTS \"pg_trgm\"");
    assert_eq!(drop_extension_statement("uuid-ossp").unwrap(), "DROP EXTENSION IF EXISTS \"uuid-ossp\"");
    assert_eq!(message(create_extension_statement("a;b")), "Invalid extension name");
    assert_eq!(message(drop_extension_statement("a b")), "Invalid extension name");
}

#[test]
fn role_queries_and_statements() {
    let q = list_roles_query(&Some(SortingOrder::Ascending), false);
    assert!(q.starts_with("SELECT rolname FROM pg_roles WHERE rolname NOT IN ('pg_checkpoint',"));
    assert!(q.ends_with("'pg_signal_backend') ORDER BY rolname ASC"));
    assert!(list_roles_query(&None, true).starts_with("SELECT rolname, rolsuper, rolcreatedb, rolcanlogin, oid FROM pg_roles"));
    assert_eq!(check_user_exists_query(), "SELECT EXISTS(SELECT 1 FROM pg_roles WHERE rolname=$1)");
    assert_eq!(
        create_role_statement("app", "s3cret", false, true, false),
        "CREATE ROLE \"app\" WITH PASSWORD 's3cret' CREATEDB LOGIN"
    );
    assert_eq!(
        create_role_statement("ro", "pw", true, false, true),
        "CREATE ROLE \"ro\" WITH PASSWORD 'pw' SUPERUSER"
    );
    assert_eq!(delete_role_statement("app"), "DROP ROLE \"app\"");
    assert_eq!(
        alter_role_statement("app", &Some("new".to_string()), &Some(false), &None, &Some(true)).unwrap(),
        "ALTER ROLE app WITH PASSWORD 'new' NOSUPERUSER NOLOGIN"
    );
    assert_eq!(alter_role_statement("app", &None, &None, &Some(true), &Some(false)).unwrap(), "ALTER ROLE app CREATEDB LOGIN");
    assert_eq!(message(alter_role_statement("app", &Some("it's".to_string()), &None, &None, &None)), "Invalid password");
}

#[test]
fn role_creation_checks_and_passwords() {
    assert!(check_create_user("app", &None).is_ok());
    assert_eq!(message(check_create_user("a pp", &Some("x y".to_string()))), "Invalid user name");
    assert_eq!(message(check_create_user("app", &Some("x y".to_string()))), "Invalid password");
    assert_eq!(role_password(&Some("pw_1".to_string())).unwrap(), "pw_1");
    assert_eq!(message(role_password(&Some("p'w".to_string()))), "Invalid password");
    let generated = role_password(&None).unwrap();
    assert_eq!(generated.chars().count(), 32);
    assert!(generated.chars().all(|c| c.is_ascii_alphanumeric()));
}

#[test]
fn database_level_grants_and_revokes() {
    assert_eq!(grant_database_statement(&UserPrivileges::Full, "shop", "app"), "GRANT ALL PRIVILEGES ON DATABASE \"shop\" TO \"app\"");
    assert_eq!(grant_database_statement(&UserPrivileges::ReadOnly, "shop", "app"), "GRANT CONNECT ON DATABASE \"shop\" TO \"app\"");
    assert_eq!(revoke_database_statement(&UserPrivileges::Full, "shop", "app"), "REVOKE ALL PRIVILEGES ON DATABASE \"shop\" FROM \"app\"");
    assert_eq!(revoke_database_statement(&UserPrivileges::ReadUpdateOnly, "shop", "app"), "REVOKE CONNECT ON DATABASE \"shop\" FROM \"app\"");
}

#[test]
fn schema_grants_per_level() {
    assert_eq!(
        prepare_grant_privileges_tables(&UserPrivileges::Full, "public", "app"),
        vec![
            "GRANT ALL ON SCHEMA \"public\" TO \"app\"",
            "GRANT ALL PRIVILEGES ON SCHEMA \"public\" TO \"app\"",
            "GRANT ALL PRIVILEGES ON ALL TABLES IN SCHEMA \"public\" TO \"app\"",
            "GRANT ALL PRIVILEGES ON ALL SEQUENCES IN SCHEMA \"public\" TO \"app\"",
            "ALTER DEFAULT PRIVILEGES IN SCHEMA \"public\" GRANT ALL PRIVILEGES ON TABLES TO \"app\"",
        ]
    );
    let ro = prepare_grant_privileges_tables(&UserPrivileges::ReadOnly, "public", "app");
    assert_eq!(
        ro,
        vec![
            "GRANT USAGE ON SCHEMA \"public\" TO \"app\"",
            "GRANT SELECT ON ALL TABLES IN SCHEMA \"public\" TO \"app\"",
            "GRANT USAGE, SELECT ON ALL SEQUENCES IN SCHEMA \"public\" TO \"app\"",
            "ALTER DEFAULT PRIVILEGES IN SCHEMA \"public\" GRANT SELECT ON TABLES TO \"app\"",
        ]
    );
    let ru = prepare_grant_privileges_tables(&UserPrivileges::ReadUpdateOnly, "public", "app");
    assert_eq!(ru.len(), 6);
    assert_eq!(ru[..4].to_vec(), ro);
    assert_eq!(ru[4], "GRANT UPDATE ON ALL TABLES IN SCHEMA \"public\" TO \"app\"");
    assert_eq!(ru[5], "ALTER DEFAULT PRIVILEGES IN SCHEMA \"public\" GRANT UPDATE ON TABLES TO \"app\"");
}

#[test]
fn schema_revokes_per_level() {
    assert_eq!(
        prepare_revoke_privileges_tables(&UserPrivileges::Full, "s", "r"),
        vec![
            "REVOKE ALL PRIVILEGES ON SCHEMA \"s\" FROM \"r\"",
            "REVOKE ALL PRIVILEGES ON ALL TABLES IN SCHEMA \"s\" FROM \"r\"",
            "REVOKE ALL PRIVILEGES ON ALL SEQUENCES IN SCHEMA \"s\" FROM \"r\"",
            "ALTER DEFAULT PRIVILEGES IN SCHEMA \"s\" REVOKE ALL PRIVILEGES ON TABLES FROM \"r\"",
        ]
    );
    let ro = prepare_revoke_privileges_tables(&UserPrivileges::ReadOnly, "s", "r");
    assert_eq!(ro.len(), 4);
    assert_eq!(ro[3], "ALTER DEFAULT PRIVILEGES IN SCHEMA \"s\" REVOKE SELECT ON TABLES FROM \"r\"");
    let ru = prepare_revoke_privileges_tables(&UserPrivileges::ReadUpdateOnly, "s", "r");
    assert_eq!(ru[..4].to_vec(), ro);
    assert_eq!(ru[4], "REVOKE UPDATE ON ALL TABLES IN SCHEMA \"s\" FROM \"r\"");
    assert_eq!(ru[5], "ALTER DEFAULT PRIVILEGES IN SCHEMA \"s\" REVOKE UPDATE ON TABLES FROM \"r\"");
}

fn taken_back(grant: &str) -> String {
    grant.replacen("GRANT", "REVOKE", 1).replace(" TO \"", " FROM \"")
}

#[test]
fn revoke_takes_back_grant_at_every_level() {
    for level in UserPrivileges::value_variants() {
        let grants = prepare_grant_privileges_tables(&level, "public", "app");
        let revokes = prepare_revoke_privileges_tables(&level, "public", "app");
        let skip = if level == UserPrivileges::Full { 1 } else { 0 };
        let expected: Vec<String> = grants[skip..].iter().map(|g| taken_back(g)).collect();
        assert_eq!(revokes, expected);
        assert_eq!(
            revoke_database_statement(&level, "shop", "app"),
            taken_back(&grant_database_statement(&level, "shop", "app"))
        );
    }
}
