use kvstore::catalog::Catalog;
use kvstore::session::session_step;
use kvstore::session::Effect;
use kvstore::session::Input;
use kvstore::session::SessionState;
use kvstore::session::StepOutput;

fn line(s: &str) -> Input {
    Input::Line(s.to_string())
}

fn step(
    state: SessionState,
    catalog: &mut Catalog,
    input: Input,
    now: u64,
) -> (SessionState, StepOutput) {
    session_step(state, catalog, input, now)
}

/// Creates a database without authentication through the whole dialogue.
fn create_plain(catalog: &mut Catalog, name: &str, now: u64) {
    let (st, out) = step(SessionState::Unselected, catalog, line(&format!("create {}", name)), now);
    assert!(out.replies.is_empty());
    assert!(matches!(out.effect, Effect::CheckFile(_)));
    let (st, out) = step(st, catalog, Input::FileExists(false), now);
    assert_eq!(out.replies, vec!["Do you want authentication (yes/no)?".to_string()]);
    let (st, out) = step(st, catalog, line("no"), now);
    assert_eq!(out.replies, vec!["Database created successfully".to_string()]);
    assert!(matches!(out.effect, Effect::Persist(_)));
    assert!(matches!(st, SessionState::Unselected));
}

/// Creates a database with authentication through the whole dialogue.
fn create_with_auth(catalog: &mut Catalog, name: &str, user: &str, pass: &str, now: u64) {
    let (st, out) = step(SessionState::Unselected, catalog, line(&format!("create {}", name)), now);
    assert!(out.replies.is_empty());
    let (st, out) = step(st, catalog, Input::FileExists(false), now);
    assert_eq!(out.replies, vec!["Do you want authentication (yes/no)?".to_string()]);
    let (st, out) = step(st, catalog, line("yes"), now);
    assert_eq!(out.replies, vec!["Enter username:".to_string()]);
    let (st, out) = step(st, catalog, line(user), now);
    assert_eq!(out.replies, vec!["Enter password:".to_string()]);
    let (st, out) = step(st, catalog, line(pass), now);
    assert_eq!(out.replies, vec!["Database created successfully".to_string()]);
    assert!(!out.disconnect);
    assert!(matches!(st, SessionState::Unselected));
}

#[test]
fn scenario_create_use_set_get_expire() {
    let mut catalog = Catalog::new();
    create_plain(&mut catalog, "db1", 0);

    let (st, out) = step(SessionState::Unselected, &mut catalog, line("use db1"), 0);
    assert_eq!(out.replies, vec!["Using database 'db1'".to_string()]);
    assert!(matches!(st, SessionState::Selected { .. }));

    let (st, out) = step(st, &mut catalog, line("SET(\"a\",\"1\",\"5s\")"), 0);
    assert_eq!(out.replies, vec!["OK".to_string()]);
    assert!(matches!(out.effect, Effect::Persist(_)));

    let (st, out) = step(st, &mut catalog, line("GET(\"a\")"), 0);
    assert_eq!(out.replies, vec!["1".to_string()]);
    assert!(matches!(out.effect, Effect::DoNothing));

    let (_st, out) = step(st, &mut catalog, line("GET(\"a\")"), 6);
    assert_eq!(
        out.replies,
        vec!["Error: Key \"a\" has expired and is deleted".to_string()]
    );
    assert!(matches!(out.effect, Effect::Persist(_)));
}

#[test]
fn scenario_auth_three_failures_disconnect() {
    let mut catalog = Catalog::new();
    create_with_auth(&mut catalog, "db2", "u", "p", 0);

    // a new connection tries to use it with the wrong password three times
    let (mut st, out) = step(SessionState::Unselected, &mut catalog, line("use db2"), 1);
    assert_eq!(out.replies, vec!["Username:".to_string()]);
    for round in 0..3 {
        let (st2, out) = step(st, &mut catalog, line("u"), 1);
        assert_eq!(out.replies, vec!["Password:".to_string()]);
        let (st3, out) = step(st2, &mut catalog, line("wrong"), 1);
        if round < 2 {
            assert_eq!(
                out.replies,
                vec![
                    "Authentication failed. Try again.".to_string(),
                    "Username:".to_string()
                ]
            );
            assert!(!out.disconnect);
        } else {
            assert_eq!(
                out.replies,
                vec![
                    "Authentication failed. Try again.".to_string(),
                    "Too many failed authentication attempts. Disconnecting.".to_string()
                ]
            );
            assert!(out.disconnect);
        }
        st = st3;
    }
}

#[test]
fn scenario_auth_success_selects() {
    let mut catalog = Catalog::new();
    create_with_auth(&mut catalog, "db2", "u", "p", 0);

    let (st, _out) = step(SessionState::Unselected, &mut catalog, line("use db2"), 1);
    let (st, _out) = step(st, &mut catalog, line("u"), 1);
    let (st, out) = step(st, &mut catalog, line("p"), 1);
    assert_eq!(
        out.replies,
        vec!["Authentication successful Using database 'db2'".to_string()]
    );
    assert!(matches!(st, SessionState::Selected { .. }));
}

#[test]
fn scenario_wrong_username_fails() {
    let mut catalog = Catalog::new();
    create_with_auth(&mut catalog, "db2", "u", "p", 0);

    let (st, _out) = step(SessionState::Unselected, &mut catalog, line("use db2"), 1);
    let (st, _out) = step(st, &mut catalog, line("someone"), 1);
    let (_st, out) = step(st, &mut catalog, line("p"), 1);
    assert_eq!(
        out.replies[0],
        "Authentication failed. Try again.".to_string()
    );
}

#[test]
fn scenario_use_missing_database() {
    let mut catalog = Catalog::new();
    let (st, out) = step(SessionState::Unselected, &mut catalog, line("use db3"), 0);
    assert!(out.replies.is_empty());
    assert!(matches!(out.effect, Effect::LoadDb(_)));
    let (st, out) = step(st, &mut catalog, Input::Loaded(None), 0);
    assert_eq!(out.replies, vec!["Database 'db3' not found".to_string()]);
    assert!(matches!(st, SessionState::Unselected));
}

#[test]
fn scenario_drop_selected_rejected() {
    let mut catalog = Catalog::new();
    create_plain(&mut catalog, "db1", 0);
    let (st, _out) = step(SessionState::Unselected, &mut catalog, line("use db1"), 0);
    let (st, out) = step(st, &mut catalog, line("drop db1"), 0);
    assert_eq!(
        out.replies,
        vec![
            "Cannot drop the currently selected database. Please 'use' another database first."
                .to_string()
        ]
    );
    assert!(matches!(st, SessionState::Selected { .. }));

    // the database remains usable
    let (st, out) = step(st, &mut catalog, line("SET(\"a\",\"1\")"), 0);
    assert_eq!(out.replies, vec!["OK".to_string()]);
    let (_st, out) = step(st, &mut catalog, line("GET(\"a\")"), 0);
    assert_eq!(out.replies, vec!["1".to_string()]);
}

#[test]
fn drop_without_auth_deletes() {
    let mut catalog = Catalog::new();
    create_plain(&mut catalog, "db1", 0);
    let (st, out) = step(SessionState::Unselected, &mut catalog, line("drop db1"), 0);
    assert!(out.replies.is_empty());
    assert!(matches!(out.effect, Effect::DeleteFile(_)));
    let (st, out) = step(st, &mut catalog, Input::Deleted(Ok(())), 0);
    assert_eq!(out.replies, vec!["Database 'db1' deleted successfully".to_string()]);
    assert!(matches!(st, SessionState::Unselected));

    // it is gone from the catalog: using it asks the disk
    let (_st, out) = step(SessionState::Unselected, &mut catalog, line("use db1"), 0);
    assert!(matches!(out.effect, Effect::LoadDb(_)));
}

#[test]
fn drop_failed_deletion_restores() {
    let mut catalog = Catalog::new();
    create_plain(&mut catalog, "db1", 0);
    let (st, _out) = step(SessionState::Unselected, &mut catalog, line("drop db1"), 0);
    let (st, out) = step(
        st,
        &mut catalog,
        Input::Deleted(Err("permission denied".to_string())),
        0,
    );
    assert_eq!(
        out.replies,
        vec!["Error deleting database file: permission denied".to_string()]
    );
    assert!(matches!(st, SessionState::Unselected));

    // the database is back in the catalog
    let (_st, out) = step(SessionState::Unselected, &mut catalog, line("use db1"), 0);
    assert_eq!(out.replies, vec!["Using database 'db1'".to_string()]);
}

#[test]
fn create_while_selected_rejected() {
    let mut catalog = Catalog::new();
    create_plain(&mut catalog, "db1", 0);
    let (st, _out) = step(SessionState::Unselected, &mut catalog, line("use db1"), 0);
    let (st, out) = step(st, &mut catalog, line("create db9"), 0);
    assert_eq!(
        out.replies,
        vec!["Cannot create a database. A database is already selected.".to_string()]
    );
    let (_st, out) = step(st, &mut catalog, line("use db9"), 0);
    assert_eq!(
        out.replies,
        vec!["Cannot use a different database. A database is already selected.".to_string()]
    );
}

#[test]
fn create_existing_rejected() {
    let mut catalog = Catalog::new();
    create_plain(&mut catalog, "db1", 0);
    let (st, out) = step(SessionState::Unselected, &mut catalog, line("create db1"), 0);
    assert_eq!(
        out.replies,
        vec!["Error: Database 'db1' already exists".to_string()]
    );
    assert!(matches!(st, SessionState::Unselected));

    // a database unknown to the catalog but present on disk is also rejected
    let (st, out) = step(st, &mut catalog, line("create db7"), 0);
    assert!(out.replies.is_empty());
    let (_st, out) = step(st, &mut catalog, Input::FileExists(true), 0);
    assert_eq!(
        out.replies,
        vec!["Error: Database 'db7' already exists".to_string()]
    );
}

#[test]
fn unknown_line_while_unselected() {
    let mut catalog = Catalog::new();
    let (_st, out) = step(SessionState::Unselected, &mut catalog, line("GET(\"a\")"), 0);
    assert_eq!(out.replies, vec!["Unknown command.".to_string()]);
    let (_st, out) = step(SessionState::Unselected, &mut catalog, line("   "), 0);
    assert!(out.replies.is_empty());
}

#[test]
fn control_words_need_exactly_two_tokens() {
    let mut catalog = Catalog::new();
    let (_st, out) = step(SessionState::Unselected, &mut catalog, line("create"), 0);
    assert_eq!(out.replies, vec!["Unknown command.".to_string()]);
    let (_st, out) = step(SessionState::Unselected, &mut catalog, line("create a b"), 0);
    assert_eq!(out.replies, vec!["Unknown command.".to_string()]);
    let (_st, out) = step(SessionState::Unselected, &mut catalog, line("drop"), 0);
    assert_eq!(out.replies, vec!["Unknown command.".to_string()]);
}

#[test]
fn drop_with_auth_success_deletes() {
    let mut catalog = Catalog::new();
    create_with_auth(&mut catalog, "db4", "u", "p", 0);
    let (st, out) = step(SessionState::Unselected, &mut catalog, line("drop db4"), 0);
    assert_eq!(out.replies, vec!["Username:".to_string()]);
    let (st, out) = step(st, &mut catalog, line("u"), 0);
    assert_eq!(out.replies, vec!["Password:".to_string()]);
    let (st, out) = step(st, &mut catalog, line("p"), 0);
    assert!(out.replies.is_empty());
    assert!(matches!(out.effect, Effect::DeleteFile(_)));
    let (st, out) = step(st, &mut catalog, Input::Deleted(Ok(())), 0);
    assert_eq!(out.replies, vec!["Database 'db4' deleted successfully".to_string()]);
    assert!(matches!(st, SessionState::Unselected));
}

#[test]
fn drop_with_auth_failure_aborts_and_restores() {
    let mut catalog = Catalog::new();
    create_with_auth(&mut catalog, "db5", "u", "p", 0);
    let (mut st, _out) = step(SessionState::Unselected, &mut catalog, line("drop db5"), 0);
    for round in 0..3 {
        let (st2, out) = step(st, &mut catalog, line("u"), 0);
        assert_eq!(out.replies, vec!["Password:".to_string()]);
        let (st3, out) = step(st2, &mut catalog, line("bad"), 0);
        if round < 2 {
            assert_eq!(
                out.replies,
                vec![
                    "Authentication failed. Try again.".to_string(),
                    "Username:".to_string()
                ]
            );
        } else {
            assert_eq!(
                out.replies,
                vec![
                    "Authentication failed. Try again.".to_string(),
                    "Too many failed authentication attempts. Operation aborted.".to_string()
                ]
            );
            assert!(!out.disconnect);
            assert!(matches!(st3, SessionState::Unselected));
        }
        st = st3;
    }
    // the drop was aborted: the database is back in the catalog
    let (_st, out) = step(SessionState::Unselected, &mut catalog, line("use db5"), 0);
    assert_eq!(out.replies, vec!["Username:".to_string()]);
}
