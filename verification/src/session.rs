use vstd::prelude::*;
use crate::auth::hash_password;
use crate::auth::verifies;
use crate::auth::verify_password;
use crate::catalog::Catalog;
use crate::db::DbInstance;
use crate::parser::statement_outcome;
use crate::snapshot::Snapshot;
use crate::snapshot::rehydrate;
use crate::text::str_eq;
use crate::text::tokenize;
use crate::text::tokens_of;
use crate::text::trim_by;
use crate::text::trim_ends;
use crate::text::trim_pred;

verus! {

/// A line with its surrounding whitespace removed.
pub open spec fn ws_trim(s: Seq<char>) -> Seq<char> {
    trim_by(s, trim_pred(false))
}

/// The protocol state of one connection.
pub enum SessionState {
    /// No database selected; control commands are read here.
    Unselected,
    /// A database is selected; data commands go to it.
    Selected { name: String },
    /// `create` was read; waiting to hear whether the database's file exists.
    CreateFileCheck { name: String },
    /// Waiting for the yes/no answer to the authentication question.
    CreateAuthChoice { name: String },
    /// Waiting for the new database's username.
    CreateUsername { name: String },
    /// Waiting for the new database's password.
    CreatePassword { name: String, username: String },
    /// `use` missed the catalog; waiting for the snapshot from disk.
    UseLoad { name: String },
    /// Waiting for a username to use the database.
    UseUsername { name: String, attempts: u8 },
    /// Waiting for the password that goes with `username`.
    UsePassword { name: String, username: String, attempts: u8 },
    /// `drop` missed the catalog; waiting for the snapshot from disk.
    DropLoad { name: String, selected: Option<String> },
    /// Waiting for a username to drop the held database.
    DropUsername {
        name: String,
        db: DbInstance,
        resident: bool,
        attempts: u8,
        selected: Option<String>,
    },
    /// Waiting for the password that goes with `username`.
    DropPassword {
        name: String,
        db: DbInstance,
        resident: bool,
        username: String,
        attempts: u8,
        selected: Option<String>,
    },
    /// Drop authorized; waiting to hear whether the file was deleted.
    DropDelete { name: String, db: DbInstance, resident: bool, selected: Option<String> },
}

/// One event handed to the state machine: a line from the client, or the
/// answer to an effect the machine asked for.
pub enum Input {
    /// One line read from the connection.
    Line(String),
    /// Whether the named database's file exists.
    FileExists(bool),
    /// The named database's snapshot read from disk, if its file exists.
    Loaded(Option<Snapshot>),
    /// Whether the named database's file was deleted, or the error text.
    Deleted(Result<(), String>),
}

/// What the state machine asks its caller to do before the next step.
pub enum Effect {
    /// Nothing.
    DoNothing,
    /// Check whether the named database's file exists; answer `FileExists`.
    CheckFile(String),
    /// Read the named database's snapshot from disk; answer `Loaded`.
    LoadDb(String),
    /// Delete the named database's file; answer `Deleted`.
    DeleteFile(String),
    /// Write the named database's current snapshot to disk; no answer.
    Persist(String),
}

/// What one step produced: lines to write back, an effect to perform, and
/// whether the connection is to be closed.
pub struct StepOutput {
    /// The reply lines, in order.
    pub replies: Vec<String>,
    /// The effect the caller must perform before the next step.
    pub effect: Effect,
    /// True when the session ends here.
    pub disconnect: bool,
}

/// `out` says exactly the one line `a`.
pub open spec fn says(out: StepOutput, a: Seq<char>) -> bool {
    out.replies@.len() == 1 && out.replies@[0]@ == a
}

/// `out` says exactly the two lines `a` then `b`.
pub open spec fn says2(out: StepOutput, a: Seq<char>, b: Seq<char>) -> bool {
    out.replies@.len() == 2 && out.replies@[0]@ == a && out.replies@[1]@ == b
}

/// `out` says nothing.
pub open spec fn silent(out: StepOutput) -> bool {
    out.replies@.len() == 0
}

/// The view of an optional name.
pub open spec fn opt_view(o: Option<String>) -> Option<Seq<char>> {
    match o {
        Some(s) => Some(s@),
        None => None,
    }
}

/// Well-formedness of a session state: a held database is well formed and
/// keeps the name it is being dropped under, and failed attempts stay
/// under the limit.
pub open spec fn state_wf(s: SessionState) -> bool {
    match s {
        SessionState::UseUsername { attempts, .. } => attempts < 3,
        SessionState::UsePassword { attempts, .. } => attempts < 3,
        SessionState::DropUsername { name, db, attempts, .. } => db.wf() && db.name@ == name@
            && attempts < 3,
        SessionState::DropPassword { name, db, attempts, .. } => db.wf() && db.name@ == name@
            && attempts < 3,
        SessionState::DropDelete { name, db, .. } => db.wf() && db.name@ == name@,
        _ => true,
    }
}

/// Which inputs a state consumes.
pub open spec fn expects(s: SessionState, i: Input) -> bool {
    match s {
        SessionState::CreateFileCheck { .. } => i is FileExists,
        SessionState::UseLoad { .. } => i is Loaded,
        SessionState::DropLoad { .. } => i is Loaded,
        SessionState::DropDelete { .. } => i is Deleted,
        _ => i is Line,
    }
}

/// Well-formedness of an input: a loaded snapshot is well formed.
pub open spec fn input_wf(i: Input) -> bool {
    match i {
        Input::Loaded(Some(s)) => s.wf(),
        _ => true,
    }
}

/// An affirmative answer to the authentication question: `yes` in any
/// letter case.
pub open spec fn is_yes(s: Seq<char>) -> bool {
    s.len() == 3 && (s[0] == 'y' || s[0] == 'Y') && (s[1] == 'e' || s[1] == 'E') && (s[2] == 's'
        || s[2] == 'S')
}

/// The stored password hash a database is verified against: the empty
/// string when none is stored.
pub open spec fn stored_hash(db: DbInstance) -> Seq<char> {
    match db.password {
        Some(h) => h@,
        None => ""@,
    }
}

/// Whether `username` equals the database's stored username.
pub open spec fn name_matches(db: DbInstance, username: Seq<char>) -> bool {
    match db.username {
        Some(u) => u@ == username,
        None => false,
    }
}

/// The session state a finished `drop` returns to.
pub open spec fn restored(post: SessionState, sel: Option<Seq<char>>) -> bool {
    match sel {
        None => post is Unselected,
        Some(n) => post matches SessionState::Selected { name } && name@ == n,
    }
}

pub open spec fn msg_already_exists(name: Seq<char>) -> Seq<char> {
    "Error: Database '"@ + name + "' already exists"@
}

pub open spec fn msg_not_found(name: Seq<char>) -> Seq<char> {
    "Database '"@ + name + "' not found"@
}

pub open spec fn msg_using(name: Seq<char>) -> Seq<char> {
    "Using database '"@ + name + "'"@
}

pub open spec fn msg_auth_ok(name: Seq<char>) -> Seq<char> {
    "Authentication successful Using database '"@ + name + "'"@
}

pub open spec fn msg_deleted(name: Seq<char>) -> Seq<char> {
    "Database '"@ + name + "' deleted successfully"@
}

pub open spec fn msg_delete_error(e: Seq<char>) -> Seq<char> {
    "Error deleting database file: "@ + e
}

/// A freshly created database as the catalog holds it after `create`.
pub open spec fn created_db(
    d: DbInstance,
    nm: Seq<char>,
    require_auth: bool,
    username: Option<Seq<char>>,
) -> bool {
    d.wf() && d.name@ == nm && d.require_auth == require_auth && opt_view(d.username) == username
        && d.store_model() == Map::<Seq<char>, crate::db::RecordModel>::empty()
}

/// A database rebuilt from a snapshot read back at time `now`.
pub open spec fn db_from_snap(d: DbInstance, nm: Seq<char>, snap: Snapshot, now: u64) -> bool {
    d.wf() && d.name@ == nm && d.require_auth == snap.require_auth && d.username == snap.username
        && d.password == snap.password && d.store_model() == rehydrate(snap.data_model(), now)
}

/// Reinsertion of a held database when a drop is aborted: only a database
/// that had been resident in the catalog goes back.
pub open spec fn reinsert_spec(
    cat0: Map<Seq<char>, DbInstance>,
    cat1: Map<Seq<char>, DbInstance>,
    nm: Seq<char>,
    db: DbInstance,
    resident: bool,
) -> bool {
    if resident {
        cat1 == cat0.insert(nm, db)
    } else {
        cat1 == cat0
    }
}

/// Entering `use <nm>`: a registered database prompts for authentication
/// or is selected at once; an unregistered one is looked for on disk.
pub open spec fn use_entry_spec(
    cat0: Map<Seq<char>, DbInstance>,
    cat1: Map<Seq<char>, DbInstance>,
    nm: Seq<char>,
    post: SessionState,
    out: StepOutput,
) -> bool {
    if cat0.contains_key(nm) {
        cat1 == cat0 && !out.disconnect && out.effect is DoNothing && if cat0[nm].require_auth {
            (post matches SessionState::UseUsername { name, attempts }
                && name@ == nm
                && attempts == 0) && says(out, "Username:"@)
        } else {
            (post matches SessionState::Selected { name } && name@ == nm) && says(
                out,
                msg_using(nm),
            )
        }
    } else {
        (post matches SessionState::UseLoad { name } && name@ == nm) && cat1 == cat0 && silent(out)
            && (out.effect matches Effect::LoadDb(n) && n@ == nm) && !out.disconnect
    }
}

/// Entering `drop <nm>`: a registered database is taken out of the catalog
/// and held; an unregistered one is looked for on disk.
pub open spec fn drop_entry_spec(
    cat0: Map<Seq<char>, DbInstance>,
    cat1: Map<Seq<char>, DbInstance>,
    nm: Seq<char>,
    sel: Option<Seq<char>>,
    post: SessionState,
    out: StepOutput,
) -> bool {
    if cat0.contains_key(nm) {
        let db = cat0[nm];
        cat1 == cat0.remove(nm) && !out.disconnect && if db.require_auth {
            (post matches SessionState::DropUsername { name, db: d2, resident, attempts, selected }
                && name@ == nm
                && d2 == db
                && resident == true
                && attempts == 0
                && opt_view(selected) == sel) && says(out, "Username:"@) && out.effect
                is DoNothing
        } else {
            (post matches SessionState::DropDelete { name, db: d2, resident, selected }
                && name@ == nm
                && d2 == db
                && resident == true
                && opt_view(selected) == sel) && silent(out) && (out.effect
                matches Effect::DeleteFile(n) && n@ == nm)
        }
    } else {
        (post matches SessionState::DropLoad { name, selected }
            && name@ == nm
            && opt_view(selected) == sel) && cat1 == cat0 && silent(out) && (out.effect
            matches Effect::LoadDb(n) && n@ == nm) && !out.disconnect
    }
}

/// One line read while nothing is selected: a two-word control command, an
/// empty line, or an unknown line.
pub open spec fn unselected_line_spec(
    cat0: Map<Seq<char>, DbInstance>,
    cat1: Map<Seq<char>, DbInstance>,
    l: Seq<char>,
    post: SessionState,
    out: StepOutput,
) -> bool {
    let tk = tokens_of(l);
    if tk.len() == 0 {
        post is Unselected && cat1 == cat0 && silent(out) && out.effect is DoNothing
            && !out.disconnect
    } else if tk[0] == "create"@ && tk.len() == 2 {
        if cat0.contains_key(tk[1]) {
            post is Unselected && cat1 == cat0 && says(out, msg_already_exists(tk[1]))
                && out.effect is DoNothing && !out.disconnect
        } else {
            (post matches SessionState::CreateFileCheck { name } && name@ == tk[1]) && cat1 == cat0
                && silent(out) && (out.effect matches Effect::CheckFile(n) && n@ == tk[1])
                && !out.disconnect
        }
    } else if tk[0] == "use"@ && tk.len() == 2 {
        use_entry_spec(cat0, cat1, tk[1], post, out)
    } else if tk[0] == "drop"@ && tk.len() == 2 {
        drop_entry_spec(cat0, cat1, tk[1], None, post, out)
    } else {
        post is Unselected && cat1 == cat0 && says(out, "Unknown command."@) && out.effect
            is DoNothing && !out.disconnect
    }
}

/// One line read while `sel` is selected: rejected control commands, a
/// `drop` of another database, or a data command run against the selection.
pub open spec fn selected_line_spec(
    cat0: Map<Seq<char>, DbInstance>,
    cat1: Map<Seq<char>, DbInstance>,
    sel: Seq<char>,
    l: Seq<char>,
    now: u64,
    post: SessionState,
    out: StepOutput,
) -> bool {
    let tk = tokens_of(l);
    let stay = (post matches SessionState::Selected { name } && name@ == sel);
    if tk.len() == 0 {
        stay && cat1 == cat0 && silent(out) && out.effect is DoNothing && !out.disconnect
    } else if tk[0] == "create"@ && tk.len() == 2 {
        stay && cat1 == cat0 && says(
            out,
            "Cannot create a database. A database is already selected."@,
        ) && out.effect is DoNothing && !out.disconnect
    } else if tk[0] == "use"@ && tk.len() == 2 {
        stay && cat1 == cat0 && says(
            out,
            "Cannot use a different database. A database is already selected."@,
        ) && out.effect is DoNothing && !out.disconnect
    } else if tk[0] == "drop"@ && tk.len() == 2 {
        if tk[1] == sel {
            stay && cat1 == cat0 && says(
                out,
                "Cannot drop the currently selected database. Please 'use' another database first."@,
            ) && out.effect is DoNothing && !out.disconnect
        } else {
            drop_entry_spec(cat0, cat1, tk[1], Some(sel), post, out)
        }
    } else {
        if cat0.contains_key(sel) {
            let outcome = statement_outcome(cat0[sel].store_model(), l, now);
            stay && cat1.contains_key(sel) && cat1 == cat0.insert(sel, cat1[sel])
                && cat1[sel].same_identity(cat0[sel]) && cat1[sel].store_model() == outcome.0
                && says(
                out,
                outcome.1,
            ) && (if outcome.2 {
                out.effect matches Effect::Persist(n) && n@ == sel
            } else {
                out.effect is DoNothing
            }) && !out.disconnect
        } else {
            stay && cat1 == cat0 && says(out, "No database selected"@) && out.effect is DoNothing
                && !out.disconnect
        }
    }
}

/// The transition relation of the session state machine: which next state,
/// catalog, replies, effect and disconnect flag may follow from handling
/// `input` in state `pre` with catalog `cat0` at time `now`.  Where a
/// password is involved, the allowed outcomes are fixed by `verifies`; a
/// hashing or verification failure of the primitive itself is also allowed,
/// with its own reply.
pub open spec fn step_spec(
    pre: SessionState,
    cat0: Map<Seq<char>, DbInstance>,
    input: Input,
    now: u64,
    post: SessionState,
    cat1: Map<Seq<char>, DbInstance>,
    out: StepOutput,
) -> bool {
    match pre {
        SessionState::Unselected => match input {
            Input::Line(l) => unselected_line_spec(cat0, cat1, l@, post, out),
            _ => true,
        },
        SessionState::Selected { name } => match input {
            Input::Line(l) => selected_line_spec(cat0, cat1, name@, l@, now, post, out),
            _ => true,
        },
        SessionState::CreateFileCheck { name } => match input {
            Input::FileExists(ex) => cat1 == cat0 && !out.disconnect && out.effect is DoNothing
                && if ex {
                post is Unselected && says(out, msg_already_exists(name@))
            } else {
                (post matches SessionState::CreateAuthChoice { name: n2 } && n2@ == name@) && says(
                    out,
                    "Do you want authentication (yes/no)?"@,
                )
            },
            _ => true,
        },
        SessionState::CreateAuthChoice { name } => match input {
            Input::Line(l) => if is_yes(ws_trim(l@)) {
                (post matches SessionState::CreateUsername { name: n2 } && n2@ == name@) && cat1
                    == cat0 && says(out, "Enter username:"@) && out.effect is DoNothing
                    && !out.disconnect
            } else {
                post is Unselected && !out.disconnect && says(out, "Database created successfully"@)
                    && (out.effect matches Effect::Persist(n) && n@ == name@) && cat1.contains_key(
                    name@,
                ) && cat1 == cat0.insert(name@, cat1[name@]) && created_db(
                    cat1[name@],
                    name@,
                    false,
                    None,
                ) && cat1[name@].password is None
            },
            _ => true,
        },
        SessionState::CreateUsername { name } => match input {
            Input::Line(l) => (post matches SessionState::CreatePassword { name: n2, username }
                && n2@ == name@
                && username@ == ws_trim(l@)) && cat1 == cat0 && says(out, "Enter password:"@)
                && out.effect is DoNothing && !out.disconnect,
            _ => true,
        },
        SessionState::CreatePassword { name, username } => match input {
            Input::Line(l) => (post is Unselected && out.disconnect && says(
                out,
                "Error creating database"@,
            ) && cat1 == cat0 && out.effect is DoNothing) || (post is Unselected
                && !out.disconnect && says(out, "Database created successfully"@) && (out.effect
                matches Effect::Persist(n) && n@ == name@) && cat1.contains_key(name@) && cat1
                == cat0.insert(name@, cat1[name@]) && created_db(
                cat1[name@],
                name@,
                true,
                Some(username@),
            ) && (cat1[name@].password matches Some(h) && verifies(ws_trim(l@), h@))),
            _ => true,
        },
        SessionState::UseLoad { name } => match input {
            Input::Loaded(ld) => match ld {
                None => post is Unselected && cat1 == cat0 && says(out, msg_not_found(name@))
                    && out.effect is DoNothing && !out.disconnect,
                Some(snap) => cat1.contains_key(name@) && cat1 == cat0.insert(name@, cat1[name@])
                    && db_from_snap(cat1[name@], name@, snap, now) && !out.disconnect && out.effect
                    is DoNothing && if snap.require_auth {
                    (post matches SessionState::UseUsername { name: n2, attempts }
                        && n2@ == name@
                        && attempts == 0) && says(out, "Username:"@)
                } else {
                    (post matches SessionState::Selected { name: n2 } && n2@ == name@) && says(
                        out,
                        msg_using(name@),
                    )
                },
            },
            _ => true,
        },
        SessionState::UseUsername { name, attempts } => match input {
            Input::Line(l) => (post matches SessionState::UsePassword {
                name: n2,
                username,
                attempts: a2,
            }
                && n2@ == name@
                && username@ == ws_trim(l@)
                && a2 == attempts) && cat1 == cat0 && says(out, "Password:"@) && out.effect
                is DoNothing && !out.disconnect,
            _ => true,
        },
        SessionState::UsePassword { name, username, attempts } => match input {
            Input::Line(l) => cat1 == cat0 && out.effect is DoNothing && if !cat0.contains_key(
                name@,
            ) {
                post is Unselected && says(out, msg_not_found(name@)) && !out.disconnect
            } else {
                let db = cat0[name@];
                let ok = verifies(ws_trim(l@), stored_hash(db)) && name_matches(db, username@);
                (post is Unselected && says(out, "Authentication error."@) && !out.disconnect) || (
                ok && (post matches SessionState::Selected { name: n2 } && n2@ == name@) && says(
                    out,
                    msg_auth_ok(name@),
                ) && !out.disconnect) || (!ok && attempts + 1 < 3 && (post
                    matches SessionState::UseUsername { name: n2, attempts: a2 }
                    && n2@ == name@
                    && a2 == attempts + 1) && says2(
                    out,
                    "Authentication failed. Try again."@,
                    "Username:"@,
                ) && !out.disconnect) || (!ok && attempts + 1 >= 3 && post is Unselected && says2(
                    out,
                    "Authentication failed. Try again."@,
                    "Too many failed authentication attempts. Disconnecting."@,
                ) && out.disconnect)
            },
            _ => true,
        },
        SessionState::DropLoad { name, selected } => match input {
            Input::Loaded(ld) => match ld {
                None => restored(post, opt_view(selected)) && cat1 == cat0 && says(
                    out,
                    msg_not_found(name@),
                ) && out.effect is DoNothing && !out.disconnect,
                Some(snap) => cat1 == cat0 && !out.disconnect && if snap.require_auth {
                    (post matches SessionState::DropUsername {
                        name: n2,
                        db,
                        resident,
                        attempts,
                        selected: s2,
                    }
                        && n2@ == name@
                        && db_from_snap(db, name@, snap, now)
                        && resident == false
                        && attempts == 0
                        && opt_view(s2) == opt_view(selected)) && says(out, "Username:"@)
                        && out.effect is DoNothing
                } else {
                    (post matches SessionState::DropDelete { name: n2, db, resident, selected: s2 }
                        && n2@ == name@
                        && db_from_snap(db, name@, snap, now)
                        && resident == false
                        && opt_view(s2) == opt_view(selected)) && silent(out) && (out.effect
                        matches Effect::DeleteFile(n) && n@ == name@)
                },
            },
            _ => true,
        },
        SessionState::DropUsername { name, db, resident, attempts, selected } => match input {
            Input::Line(l) => (post matches SessionState::DropPassword {
                name: n2,
                db: d2,
                resident: r2,
                username,
                attempts: a2,
                selected: s2,
            }
                && n2@ == name@
                && d2 == db
                && r2 == resident
                && username@ == ws_trim(l@)
                && a2 == attempts
                && opt_view(s2) == opt_view(selected)) && cat1 == cat0 && says(out, "Password:"@)
                && out.effect is DoNothing && !out.disconnect,
            _ => true,
        },
        SessionState::DropPassword { name, db, resident, username, attempts, selected } => match input {
            Input::Line(l) => {
                let ok = verifies(ws_trim(l@), stored_hash(db)) && name_matches(db, username@);
                !out.disconnect && ((restored(post, opt_view(selected)) && says2(
                    out,
                    "Authentication error."@,
                    "Too many failed authentication attempts. Operation aborted."@,
                ) && reinsert_spec(cat0, cat1, name@, db, resident) && out.effect is DoNothing) || (
                ok && (post matches SessionState::DropDelete {
                    name: n2,
                    db: d2,
                    resident: r2,
                    selected: s2,
                }
                    && n2@ == name@
                    && d2 == db
                    && r2 == resident
                    && opt_view(s2) == opt_view(selected)) && silent(out) && (out.effect
                    matches Effect::DeleteFile(n) && n@ == name@) && cat1 == cat0) || (!ok
                    && attempts + 1 < 3 && (post matches SessionState::DropUsername {
                    name: n2,
                    db: d2,
                    resident: r2,
                    attempts: a2,
                    selected: s2,
                }
                    && n2@ == name@
                    && d2 == db
                    && r2 == resident
                    && a2 == attempts + 1
                    && opt_view(s2) == opt_view(selected)) && says2(
                    out,
                    "Authentication failed. Try again."@,
                    "Username:"@,
                ) && cat1 == cat0 && out.effect is DoNothing) || (!ok && attempts + 1 >= 3
                    && restored(post, opt_view(selected)) && says2(
                    out,
                    "Authentication failed. Try again."@,
                    "Too many failed authentication attempts. Operation aborted."@,
                ) && reinsert_spec(cat0, cat1, name@, db, resident) && out.effect is DoNothing))
            },
            _ => true,
        },
        SessionState::DropDelete { name, db, resident, selected } => match input {
            Input::Deleted(res) => restored(post, opt_view(selected)) && out.effect is DoNothing
                && !out.disconnect && match res {
                Ok(u) => cat1 == cat0 && says(out, msg_deleted(name@)),
                Err(e) => reinsert_spec(cat0, cat1, name@, db, resident) && says(
                    out,
                    msg_delete_error(e@),
                ),
            },
            _ => true,
        },
    }
}


/// Builds a silent output.
fn out_silent(effect: Effect) -> (o: StepOutput)
    ensures
        silent(o),
        o.effect == effect,
        !o.disconnect,
{
    StepOutput { replies: Vec::new(), effect, disconnect: false }
}

/// Builds an output with one reply line.
fn out_say(m: String, effect: Effect, disconnect: bool) -> (o: StepOutput)
    ensures
        says(o, m@),
        o.effect == effect,
        o.disconnect == disconnect,
{
    StepOutput { replies: vec![m], effect, disconnect }
}

/// Builds an output with two reply lines.
fn out_say2(a: String, b: String, effect: Effect, disconnect: bool) -> (o: StepOutput)
    ensures
        says2(o, a@, b@),
        o.effect == effect,
        o.disconnect == disconnect,
{
    StepOutput { replies: vec![a, b], effect, disconnect }
}

fn msg_already_exists_exec(name: &str) -> (r: String)
    ensures
        r@ == msg_already_exists(name@),
{
    let mut m = "Error: Database '".to_owned();
    m.append(name);
    m.append("' already exists");
    m
}

fn msg_not_found_exec(name: &str) -> (r: String)
    ensures
        r@ == msg_not_found(name@),
{
    let mut m = "Database '".to_owned();
    m.append(name);
    m.append("' not found");
    m
}

fn msg_using_exec(name: &str) -> (r: String)
    ensures
        r@ == msg_using(name@),
{
    let mut m = "Using database '".to_owned();
    m.append(name);
    m.append("'");
    m
}

fn msg_auth_ok_exec(name: &str) -> (r: String)
    ensures
        r@ == msg_auth_ok(name@),
{
    let mut m = "Authentication successful Using database '".to_owned();
    m.append(name);
    m.append("'");
    m
}

fn msg_deleted_exec(name: &str) -> (r: String)
    ensures
        r@ == msg_deleted(name@),
{
    let mut m = "Database '".to_owned();
    m.append(name);
    m.append("' deleted successfully");
    m
}

fn msg_delete_error_exec(e: &str) -> (r: String)
    ensures
        r@ == msg_delete_error(e@),
{
    let mut m = "Error deleting database file: ".to_owned();
    m.append(e);
    m
}

/// Decides `is_yes` for a trimmed answer line.
fn is_yes_exec(s: &str) -> (r: bool)
    ensures
        r == is_yes(s@),
{
    if s.unicode_len() != 3 {
        return false;
    }
    let c0 = s.get_char(0);
    let c1 = s.get_char(1);
    let c2 = s.get_char(2);
    (c0 == 'y' || c0 == 'Y') && (c1 == 'e' || c1 == 'E') && (c2 == 's' || c2 == 'S')
}

/// The state a finished or aborted `drop` hands the session back to.
fn restore_session(selected: Option<String>) -> (s: SessionState)
    ensures
        restored(s, opt_view(selected)),
        state_wf(s),
{
    match selected {
        Some(n) => SessionState::Selected { name: n },
        None => SessionState::Unselected,
    }
}

/// Handles `use <name>` read while nothing is selected.
fn use_entry(catalog: &mut Catalog, name: String) -> (r: (SessionState, StepOutput))
    requires
        old(catalog).wf(),
    ensures
        final(catalog).wf(),
        state_wf(r.0),
        use_entry_spec(old(catalog)@, final(catalog)@, name@, r.0, r.1),
{
    let auth = match catalog.get(name.as_str()) {
        Some(d) => Some(d.require_auth),
        None => None,
    };
    match auth {
        Some(true) => (
            SessionState::UseUsername { name, attempts: 0 },
            out_say("Username:".to_owned(), Effect::DoNothing, false),
        ),
        Some(false) => {
            let m = msg_using_exec(name.as_str());
            (SessionState::Selected { name }, out_say(m, Effect::DoNothing, false))
        },
        None => {
            let n2 = name.clone();
            (SessionState::UseLoad { name }, out_silent(Effect::LoadDb(n2)))
        },
    }
}

/// Handles `drop <name>`, from either side of a selection.
fn drop_entry(catalog: &mut Catalog, name: String, selected: Option<String>) -> (r: (
    SessionState,
    StepOutput,
))
    requires
        old(catalog).wf(),
    ensures
        final(catalog).wf(),
        state_wf(r.0),
        drop_entry_spec(old(catalog)@, final(catalog)@, name@, opt_view(selected), r.0, r.1),
{
    match catalog.remove(name.as_str()) {
        Some(db) => {
            if db.require_auth {
                (
                    SessionState::DropUsername { name, db, resident: true, attempts: 0, selected },
                    out_say("Username:".to_owned(), Effect::DoNothing, false),
                )
            } else {
                let n2 = name.clone();
                (
                    SessionState::DropDelete { name, db, resident: true, selected },
                    out_silent(Effect::DeleteFile(n2)),
                )
            }
        },
        None => {
            let n2 = name.clone();
            (SessionState::DropLoad { name, selected }, out_silent(Effect::LoadDb(n2)))
        },
    }
}

/// Runs the session state machine for one input at time `now`: interprets
/// control commands against the catalog, drives the creation, selection,
/// authentication and drop flows, and forwards data commands to the
/// selected database.
pub fn session_step(state: SessionState, catalog: &mut Catalog, input: Input, now: u64) -> (r: (
    SessionState,
    StepOutput,
))
    requires
        old(catalog).wf(),
        state_wf(state),
        expects(state, input),
        input_wf(input),
    ensures
        final(catalog).wf(),
        state_wf(r.0),
        step_spec(state, old(catalog)@, input, now, r.0, final(catalog)@, r.1),
{
    match (state, input) {
        (SessionState::Unselected, Input::Line(l)) => {
            let toks = tokenize(l.as_str());
            if toks.len() == 0 {
                (SessionState::Unselected, out_silent(Effect::DoNothing))
            } else if toks.len() == 2 && str_eq(toks[0].as_str(), "create") {
                let nm = toks[1].clone();
                if catalog.contains(nm.as_str()) {
                    let m = msg_already_exists_exec(nm.as_str());
                    (SessionState::Unselected, out_say(m, Effect::DoNothing, false))
                } else {
                    let n2 = nm.clone();
                    (SessionState::CreateFileCheck { name: nm }, out_silent(Effect::CheckFile(n2)))
                }
            } else if toks.len() == 2 && str_eq(toks[0].as_str(), "use") {
                use_entry(catalog, toks[1].clone())
            } else if toks.len() == 2 && str_eq(toks[0].as_str(), "drop") {
                drop_entry(catalog, toks[1].clone(), None)
            } else {
                (
                    SessionState::Unselected,
                    out_say("Unknown command.".to_owned(), Effect::DoNothing, false),
                )
            }
        },
        (SessionState::Selected { name }, Input::Line(l)) => {
            let toks = tokenize(l.as_str());
            if toks.len() == 0 {
                (SessionState::Selected { name }, out_silent(Effect::DoNothing))
            } else if toks.len() == 2 && str_eq(toks[0].as_str(), "create") {
                (
                    SessionState::Selected { name },
                    out_say(
                        "Cannot create a database. A database is already selected.".to_owned(),
                        Effect::DoNothing,
                        false,
                    ),
                )
            } else if toks.len() == 2 && str_eq(toks[0].as_str(), "use") {
                (
                    SessionState::Selected { name },
                    out_say(
                        "Cannot use a different database. A database is already selected."
                            .to_owned(),
                        Effect::DoNothing,
                        false,
                    ),
                )
            } else if toks.len() == 2 && str_eq(toks[0].as_str(), "drop") {
                if str_eq(toks[1].as_str(), name.as_str()) {
                    (
                        SessionState::Selected { name },
                        out_say(
                            "Cannot drop the currently selected database. Please 'use' another database first."
                                .to_owned(),
                            Effect::DoNothing,
                            false,
                        ),
                    )
                } else {
                    drop_entry(catalog, toks[1].clone(), Some(name))
                }
            } else {
                match catalog.run_statement(name.as_str(), l.as_str(), now) {
                    Some((reply, mutated)) => {
                        let eff = if mutated {
                            Effect::Persist(name.clone())
                        } else {
                            Effect::DoNothing
                        };
                        (SessionState::Selected { name }, out_say(reply, eff, false))
                    },
                    None => (
                        SessionState::Selected { name },
                        out_say("No database selected".to_owned(), Effect::DoNothing, false),
                    ),
                }
            }
        },
        (SessionState::CreateFileCheck { name }, Input::FileExists(ex)) => {
            if ex {
                let m = msg_already_exists_exec(name.as_str());
                (SessionState::Unselected, out_say(m, Effect::DoNothing, false))
            } else {
                (
                    SessionState::CreateAuthChoice { name },
                    out_say(
                        "Do you want authentication (yes/no)?".to_owned(),
                        Effect::DoNothing,
                        false,
                    ),
                )
            }
        },
        (SessionState::CreateAuthChoice { name }, Input::Line(l)) => {
            if is_yes_exec(trim_ends(l.as_str(), false)) {
                (
                    SessionState::CreateUsername { name },
                    out_say("Enter username:".to_owned(), Effect::DoNothing, false),
                )
            } else {
                let n2 = name.clone();
                let db = DbInstance::new(name, false, None, None);
                catalog.insert(db);
                (
                    SessionState::Unselected,
                    out_say(
                        "Database created successfully".to_owned(),
                        Effect::Persist(n2),
                        false,
                    ),
                )
            }
        },
        (SessionState::CreateUsername { name }, Input::Line(l)) => {
            let username = trim_ends(l.as_str(), false).to_owned();
            (
                SessionState::CreatePassword { name, username },
                out_say("Enter password:".to_owned(), Effect::DoNothing, false),
            )
        },
        (SessionState::CreatePassword { name, username }, Input::Line(l)) => {
            match hash_password(trim_ends(l.as_str(), false)) {
                Some(h) => {
                    let n2 = name.clone();
                    let db = DbInstance::new(name, true, Some(username), Some(h));
                    catalog.insert(db);
                    (
                        SessionState::Unselected,
                        out_say(
                            "Database created successfully".to_owned(),
                            Effect::Persist(n2),
                            false,
                        ),
                    )
                },
                None => (
                    SessionState::Unselected,
                    out_say("Error creating database".to_owned(), Effect::DoNothing, true),
                ),
            }
        },
        (SessionState::UseLoad { name }, Input::Loaded(ld)) => {
            match ld {
                None => {
                    let m = msg_not_found_exec(name.as_str());
                    (SessionState::Unselected, out_say(m, Effect::DoNothing, false))
                },
                Some(snap) => {
                    let require_auth = snap.require_auth;
                    let db = DbInstance::from_snapshot(name.clone(), snap, now);
                    catalog.insert(db);
                    if require_auth {
                        (
                            SessionState::UseUsername { name, attempts: 0 },
                            out_say("Username:".to_owned(), Effect::DoNothing, false),
                        )
                    } else {
                        let m = msg_using_exec(name.as_str());
                        (SessionState::Selected { name }, out_say(m, Effect::DoNothing, false))
                    }
                },
            }
        },
        (SessionState::UseUsername { name, attempts }, Input::Line(l)) => {
            let username = trim_ends(l.as_str(), false).to_owned();
            (
                SessionState::UsePassword { name, username, attempts },
                out_say("Password:".to_owned(), Effect::DoNothing, false),
            )
        },
        (SessionState::UsePassword { name, username, attempts }, Input::Line(l)) => {
            let found = match catalog.get(name.as_str()) {
                Some(d) => Some(
                    (
                        match &d.username {
                            Some(u) => Some(u.clone()),
                            None => None,
                        },
                        match &d.password {
                            Some(h) => h.clone(),
                            None => "".to_owned(),
                        },
                    ),
                ),
                None => None,
            };
            match found {
                None => {
                    let m = msg_not_found_exec(name.as_str());
                    (SessionState::Unselected, out_say(m, Effect::DoNothing, false))
                },
                Some((db_user, db_hash)) => {
                    let pw = trim_ends(l.as_str(), false);
                    match verify_password(pw, db_hash.as_str()) {
                        None => (
                            SessionState::Unselected,
                            out_say("Authentication error.".to_owned(), Effect::DoNothing, false),
                        ),
                        Some(valid) => {
                            let user_ok = match &db_user {
                                Some(u) => str_eq(u.as_str(), username.as_str()),
                                None => false,
                            };
                            if valid && user_ok {
                                let m = msg_auth_ok_exec(name.as_str());
                                (
                                    SessionState::Selected { name },
                                    out_say(m, Effect::DoNothing, false),
                                )
                            } else if attempts + 1 < 3 {
                                (
                                    SessionState::UseUsername { name, attempts: attempts + 1 },
                                    out_say2(
                                        "Authentication failed. Try again.".to_owned(),
                                        "Username:".to_owned(),
                                        Effect::DoNothing,
                                        false,
                                    ),
                                )
                            } else {
                                (
                                    SessionState::Unselected,
                                    out_say2(
                                        "Authentication failed. Try again.".to_owned(),
                                        "Too many failed authentication attempts. Disconnecting."
                                            .to_owned(),
                                        Effect::DoNothing,
                                        true,
                                    ),
                                )
                            }
                        },
                    }
                },
            }
        },
        (SessionState::DropLoad { name, selected }, Input::Loaded(ld)) => {
            match ld {
                None => {
                    let m = msg_not_found_exec(name.as_str());
                    (restore_session(selected), out_say(m, Effect::DoNothing, false))
                },
                Some(snap) => {
                    let require_auth = snap.require_auth;
                    let db = DbInstance::from_snapshot(name.clone(), snap, now);
                    if require_auth {
                        (
                            SessionState::DropUsername {
                                name,
                                db,
                                resident: false,
                                attempts: 0,
                                selected,
                            },
                            out_say("Username:".to_owned(), Effect::DoNothing, false),
                        )
                    } else {
                        let n2 = name.clone();
                        (
                            SessionState::DropDelete { name, db, resident: false, selected },
                            out_silent(Effect::DeleteFile(n2)),
                        )
                    }
                },
            }
        },
        (SessionState::DropUsername { name, db, resident, attempts, selected }, Input::Line(l)) => {
            let username = trim_ends(l.as_str(), false).to_owned();
            (
                SessionState::DropPassword { name, db, resident, username, attempts, selected },
                out_say("Password:".to_owned(), Effect::DoNothing, false),
            )
        },
        (
            SessionState::DropPassword { name, db, resident, username, attempts, selected },
            Input::Line(l),
        ) => {
            let db_hash = match &db.password {
                Some(h) => h.clone(),
                None => "".to_owned(),
            };
            let pw = trim_ends(l.as_str(), false);
            match verify_password(pw, db_hash.as_str()) {
                None => {
                    if resident {
                        catalog.insert(db);
                    }
                    (
                        restore_session(selected),
                        out_say2(
                            "Authentication error.".to_owned(),
                            "Too many failed authentication attempts. Operation aborted."
                                .to_owned(),
                            Effect::DoNothing,
                            false,
                        ),
                    )
                },
                Some(valid) => {
                    let user_ok = match &db.username {
                        Some(u) => str_eq(u.as_str(), username.as_str()),
                        None => false,
                    };
                    if valid && user_ok {
                        let n2 = name.clone();
                        (
                            SessionState::DropDelete { name, db, resident, selected },
                            out_silent(Effect::DeleteFile(n2)),
                        )
                    } else if attempts + 1 < 3 {
                        (
                            SessionState::DropUsername {
                                name,
                                db,
                                resident,
                                attempts: attempts + 1,
                                selected,
                            },
                            out_say2(
                                "Authentication failed. Try again.".to_owned(),
                                "Username:".to_owned(),
                                Effect::DoNothing,
                                false,
                            ),
                        )
                    } else {
                        if resident {
                            catalog.insert(db);
                        }
                        (
                            restore_session(selected),
                            out_say2(
                                "Authentication failed. Try again.".to_owned(),
                                "Too many failed authentication attempts. Operation aborted."
                                    .to_owned(),
                                Effect::DoNothing,
                                false,
                            ),
                        )
                    }
                },
            }
        },
        (SessionState::DropDelete { name, db, resident, selected }, Input::Deleted(res)) => {
            match res {
                Ok(_) => {
                    let m = msg_deleted_exec(name.as_str());
                    (restore_session(selected), out_say(m, Effect::DoNothing, false))
                },
                Err(e) => {
                    if resident {
                        catalog.insert(db);
                    }
                    let m = msg_delete_error_exec(e.as_str());
                    (restore_session(selected), out_say(m, Effect::DoNothing, false))
                },
            }
        },
        _ => {
            proof {
                assert(false);
            }
            vstd::pervasive::unreached()
        },
    }
}

} // verus!
