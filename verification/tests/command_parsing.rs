use kvstore::db::DbInstance;
use kvstore::parser::parse_duration;
use kvstore::parser::parse_statement;

fn fresh(name: &str) -> Option<DbInstance> {
    Some(DbInstance::new(name.to_string(), false, None, None))
}

#[test]
fn duration_units() {
    assert_eq!(parse_duration("5s"), Ok(5));
    assert_eq!(parse_duration("10m"), Ok(600));
    assert_eq!(parse_duration("1d"), Ok(86400));
    assert_eq!(parse_duration("0s"), Ok(0));
}

#[test]
fn duration_errors() {
    assert_eq!(parse_duration(""), Err("Empty TTL provided".to_string()));
    assert_eq!(parse_duration("x"), Err("Invalid TTL number".to_string()));
    assert_eq!(parse_duration("s"), Err("Invalid TTL number".to_string()));
    assert_eq!(
        parse_duration("5"),
        Err("Invalid TTL unit (use s, m, or d)".to_string())
    );
    assert_eq!(
        parse_duration("5h"),
        Err("Invalid TTL unit (use s, m, or d)".to_string())
    );
    // far over 64 bits
    assert_eq!(
        parse_duration("99999999999999999999999999s"),
        Err("Invalid TTL number".to_string())
    );
    // fits as a number, overflows when turned into days
    assert_eq!(
        parse_duration("18446744073709551615d"),
        Err("Invalid TTL number".to_string())
    );
}

#[test]
fn set_then_get() {
    let mut db = fresh("t");
    assert_eq!(parse_statement("SET(\"a\",\"1\")", &mut db, 0), "OK");
    assert_eq!(parse_statement("GET(\"a\")", &mut db, 0), "1");
    assert_eq!(parse_statement("GET(\"a\")", &mut db, 1_000_000), "1");
}

#[test]
fn set_with_ttl_then_expire() {
    let mut db = fresh("t");
    assert_eq!(parse_statement("SET(\"a\",\"1\",\"5s\")", &mut db, 0), "OK");
    assert_eq!(parse_statement("GET(\"a\")", &mut db, 4), "1");
    assert_eq!(
        parse_statement("GET(\"a\")", &mut db, 5),
        "Error: Key \"a\" has expired and is deleted"
    );
    assert_eq!(
        parse_statement("GET(\"a\")", &mut db, 5),
        "Error: Key \"a\" not found"
    );
}

#[test]
fn del_is_idempotent() {
    let mut db = fresh("t");
    assert_eq!(
        parse_statement("DEL(\"a\")", &mut db, 0),
        "Error: Key \"a\" not found"
    );
    assert_eq!(parse_statement("SET(\"a\",\"1\")", &mut db, 0), "OK");
    assert_eq!(parse_statement("DEL(\"a\")", &mut db, 0), "OK");
    assert_eq!(
        parse_statement("DEL(\"a\")", &mut db, 0),
        "Error: Key \"a\" not found"
    );
}

#[test]
fn set_usage_and_ttl_error() {
    let mut db = fresh("t");
    assert_eq!(
        parse_statement("SET(\"a\")", &mut db, 0),
        "Usage: SET(\"key\",\"value\",[\"5s|5m|5d\"])"
    );
    assert_eq!(
        parse_statement("SET(\"a\",\"1\",\"5x\")", &mut db, 0),
        "Invalid TTL unit (use s, m, or d)"
    );
    // a malformed TTL does not write the key
    assert_eq!(
        parse_statement("GET(\"a\")", &mut db, 0),
        "Error: Key \"a\" not found"
    );
}

#[test]
fn unknown_command() {
    let mut db = fresh("t");
    assert_eq!(parse_statement("HELLO", &mut db, 0), "Unknown command");
    assert_eq!(parse_statement("SET[\"a\",\"1\"]", &mut db, 0), "Unknown command");
}

#[test]
fn no_database_selected() {
    let mut db: Option<DbInstance> = None;
    assert_eq!(
        parse_statement("SET(\"a\",\"1\")", &mut db, 0),
        "No database selected"
    );
    assert_eq!(parse_statement("GET(\"a\")", &mut db, 0), "No database selected");
    assert_eq!(parse_statement("DEL(\"a\")", &mut db, 0), "No database selected");
    assert_eq!(parse_statement("HELLO", &mut db, 0), "Unknown command");
}

#[test]
fn arguments_are_trimmed_and_unquoted() {
    let mut db = fresh("t");
    assert_eq!(parse_statement("  SET( \"a\" , \"1\" )  ", &mut db, 0), "OK");
    assert_eq!(parse_statement("GET(\"a\")", &mut db, 0), "1");
}
