use migrate::migration::{distinct_versions, Action, Migration, Script};

fn statement_text(action: &Action<Script>) -> &str {
    match action {
        Action::Statement(s) => s.as_str(),
        Action::Procedure(_) => panic!("expected a statement action"),
    }
}

#[test]
fn add_table_builds_create_and_drop() {
    let m: Migration<Script> = Migration::add_table(
        20140924113530,
        "users",
        "id SERIAL PRIMARY KEY, email VARCHAR NOT NULL UNIQUE",
    );
    assert_eq!(m.version(), 20140924113530);
    assert_eq!(
        statement_text(&m.forward),
        "CREATE TABLE users (id SERIAL PRIMARY KEY, email VARCHAR NOT NULL UNIQUE)"
    );
    assert_eq!(statement_text(&m.reverse), "DROP TABLE users");
}

#[test]
fn add_column_builds_alter_statements() {
    let m: Migration<Script> = Migration::add_column(
        20140925132248,
        "packages",
        "updated_at",
        "TIMESTAMP NOT NULL DEFAULT now()",
    );
    assert_eq!(m.version(), 20140925132248);
    assert_eq!(
        statement_text(&m.forward),
        "ALTER TABLE packages ADD COLUMN updated_at TIMESTAMP NOT NULL DEFAULT now()"
    );
    assert_eq!(
        statement_text(&m.reverse),
        "ALTER TABLE packages DROP COLUMN updated_at"
    );
}

#[test]
fn run_keeps_statements_verbatim() {
    let m: Migration<Script> = Migration::run(
        20140924115329,
        String::from("ALTER TABLE versions ADD CONSTRAINT unique_num UNIQUE (package_id, num)"),
        String::from("ALTER TABLE versions DROP CONSTRAINT unique_num"),
    );
    assert_eq!(m.version(), 20140924115329);
    assert_eq!(
        statement_text(&m.forward),
        "ALTER TABLE versions ADD CONSTRAINT unique_num UNIQUE (package_id, num)"
    );
    assert_eq!(
        statement_text(&m.reverse),
        "ALTER TABLE versions DROP CONSTRAINT unique_num"
    );
}

#[test]
fn new_keeps_version_and_actions() {
    let script = Script::new(vec![String::from("A"), String::from("B")]);
    let m = Migration::new(
        42,
        Action::Procedure(script),
        Action::Statement(String::from("undo")),
    );
    assert_eq!(m.version(), 42);
    assert!(matches!(m.forward, Action::Procedure(_)));
    assert_eq!(statement_text(&m.reverse), "undo");
}

#[test]
fn distinct_versions_accepts_unique_list() {
    let migs: Vec<Migration<Script>> = vec![
        Migration::run(1, String::from("a"), String::from("b")),
        Migration::run(2, String::from("c"), String::from("d")),
        Migration::run(3, String::from("e"), String::from("f")),
    ];
    assert!(distinct_versions(&migs));
}

#[test]
fn distinct_versions_rejects_duplicate() {
    let migs: Vec<Migration<Script>> = vec![
        Migration::run(1, String::from("a"), String::from("b")),
        Migration::run(2, String::from("c"), String::from("d")),
        Migration::run(1, String::from("e"), String::from("f")),
    ];
    assert!(!distinct_versions(&migs));
}

#[test]
fn distinct_versions_accepts_empty_list() {
    let migs: Vec<Migration<Script>> = Vec::new();
    assert!(distinct_versions(&migs));
}
