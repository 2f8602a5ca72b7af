use vstd::prelude::*;
use crate::db::DbInstance;
use crate::db::ReadOutcome;
use crate::db::RecordModel;
use crate::db::sat_add;
use crate::text::count_leading;
use crate::text::lemma_count_leading_is;
use crate::text::split_commas;
use crate::text::split_commas_exec;
use crate::text::str_eq;
use crate::text::trim_by;
use crate::text::trim_ends;
use crate::text::trim_pred;
use crate::text::views_of;

verus! {

/// True for an ASCII decimal digit.
pub open spec fn is_digit(c: char) -> bool {
    0x30 <= c as u32 && c as u32 <= 0x39
}

/// Decides `is_digit` for one character.
pub fn is_digit_char(c: char) -> (r: bool)
    ensures
        r == is_digit(c),
{
    let u = c as u32;
    0x30 <= u && u <= 0x39
}

/// `is_digit`, as a function value.
pub open spec fn digit_pred() -> spec_fn(char) -> bool {
    |c: char| is_digit(c)
}

/// The number written by a string of decimal digits, most significant first.
pub open spec fn digits_val(s: Seq<char>) -> int
    decreases s.len(),
{
    if s.len() == 0 {
        0
    } else {
        digits_val(s.drop_last()) * 10 + (s.last() as u32 - 0x30)
    }
}

pub proof fn lemma_digits_val_nonneg(s: Seq<char>)
    requires
        forall|j: int| 0 <= j < s.len() ==> is_digit(s[j]),
    ensures
        digits_val(s) >= 0,
    decreases s.len(),
{
    if s.len() > 0 {
        assert(forall|j: int| 0 <= j < s.drop_last().len() ==> is_digit(s.drop_last()[j]));
        lemma_digits_val_nonneg(s.drop_last());
    }
}

pub proof fn lemma_digits_val_prefix(s: Seq<char>, j: int)
    requires
        forall|i: int| 0 <= i < s.len() ==> is_digit(s[i]),
        0 <= j <= s.len(),
    ensures
        digits_val(s) >= digits_val(s.subrange(0, j)),
    decreases s.len() - j,
{
    if j == s.len() {
        assert(s.subrange(0, j) =~= s);
    } else {
        lemma_digits_val_prefix(s, j + 1);
        assert(s.subrange(0, j + 1).drop_last() =~= s.subrange(0, j));
        assert(forall|i: int| 0 <= i < j ==> is_digit(s.subrange(0, j)[i]));
        lemma_digits_val_nonneg(s.subrange(0, j));
        assert(digits_val(s.subrange(0, j + 1)) == digits_val(s.subrange(0, j)) * 10 + (s[j] as u32
            - 0x30));
    }
}

/// The ways a time-to-live string can be rejected.
pub enum TtlErr {
    /// The string is empty.
    Empty,
    /// There is no digit, or the number does not fit.
    BadNumber,
    /// What follows the digits is not one of the three units.
    BadUnit,
}

/// The message reported for each rejected time-to-live string.
pub open spec fn ttl_err_text(e: TtlErr) -> Seq<char> {
    match e {
        TtlErr::Empty => "Empty TTL provided"@,
        TtlErr::BadNumber => "Invalid TTL number"@,
        TtlErr::BadUnit => "Invalid TTL unit (use s, m, or d)"@,
    }
}

/// The meaning of a time-to-live string: a run of decimal digits followed by
/// one unit letter (`s` seconds, `m` minutes, `d` days), as a number of
/// seconds.  A missing digit, a number that does not fit in 64 bits, or a
/// bad unit is rejected.
pub open spec fn spec_parse_duration(s: Seq<char>) -> Result<u64, TtlErr> {
    if s.len() == 0 {
        Result::Err(TtlErr::Empty)
    } else {
        let dl = count_leading(s, digit_pred());
        if dl == 0 || digits_val(s.subrange(0, dl as int)) > u64::MAX {
            Result::Err(TtlErr::BadNumber)
        } else {
            let v = digits_val(s.subrange(0, dl as int)) as u64;
            let unit = s.subrange(dl as int, s.len() as int);
            if unit.len() == 1 && unit[0] == 's' {
                Result::Ok(v)
            } else if unit.len() == 1 && unit[0] == 'm' {
                if v * 60 > u64::MAX {
                    Result::Err(TtlErr::BadNumber)
                } else {
                    Result::Ok((v * 60) as u64)
                }
            } else if unit.len() == 1 && unit[0] == 'd' {
                if v * 86400 > u64::MAX {
                    Result::Err(TtlErr::BadNumber)
                } else {
                    Result::Ok((v * 86400) as u64)
                }
            } else {
                Result::Err(TtlErr::BadUnit)
            }
        }
    }
}

/// Parses a time-to-live string such as `5s`, `10m` or `1d` into a number of
/// seconds, or reports why it is rejected.
pub fn parse_duration(s: &str) -> (r: Result<u64, String>)
    ensures
        match spec_parse_duration(s@) {
            Result::Ok(n) => r matches Ok(v) && v == n,
            Result::Err(e) => r matches Err(msg) && msg@ == ttl_err_text(e),
        },
{
    let n = s.unicode_len();
    if n == 0 {
        return Err("Empty TTL provided".to_owned());
    }
    let mut dl: usize = 0;
    while dl < n && is_digit_char(s.get_char(dl))
        invariant
            n == s@.len(),
            dl <= n,
            forall|j: int| 0 <= j < dl ==> is_digit(s@[j]),
        decreases n - dl,
    {
        dl = dl + 1;
    }
    proof {
        lemma_count_leading_is(s@, digit_pred(), dl as int);
    }
    if dl == 0 {
        return Err("Invalid TTL number".to_owned());
    }
    let ghost num_part = s@.subrange(0, dl as int);
    let mut acc: u64 = 0;
    let mut i: usize = 0;
    while i < dl
        invariant
            n == s@.len(),
            dl <= n,
            i <= dl,
            forall|j: int| 0 <= j < dl ==> is_digit(s@[j]),
            count_leading(s@, digit_pred()) == dl,
            num_part == s@.subrange(0, dl as int),
            acc == digits_val(s@.subrange(0, i as int)),
        decreases dl - i,
    {
        let c = s.get_char(i);
        let d = (c as u32) - 0x30;
        proof {
            assert(s@.subrange(0, i + 1).drop_last() =~= s@.subrange(0, i as int));
            assert(s@.subrange(0, i + 1).last() == s@[i as int]);
        }
        let step = match acc.checked_mul(10) {
            Some(x) => x.checked_add(d as u64),
            None => None,
        };
        match step {
            Some(y) => {
                acc = y;
            },
            None => {
                proof {
                    assert(digits_val(s@.subrange(0, i + 1)) > u64::MAX);
                    lemma_digits_val_prefix(num_part, i + 1);
                    assert(num_part.subrange(0, i + 1) =~= s@.subrange(0, i + 1));
                    assert(forall|j: int| 0 <= j < num_part.len() ==> is_digit(num_part[j]));
                }
                return Err("Invalid TTL number".to_owned());
            },
        }
        i = i + 1;
    }
    proof {
        assert(num_part =~= s@.subrange(0, dl as int));
    }
    if n - dl != 1 {
        return Err("Invalid TTL unit (use s, m, or d)".to_owned());
    }
    let u = s.get_char(dl);
    proof {
        assert(s@.subrange(dl as int, n as int).len() == 1);
        assert(s@.subrange(dl as int, n as int)[0] == s@[dl as int]);
    }
    if u == 's' {
        Ok(acc)
    } else if u == 'm' {
        match acc.checked_mul(60) {
            Some(v) => Ok(v),
            None => Err("Invalid TTL number".to_owned()),
        }
    } else if u == 'd' {
        match acc.checked_mul(86400) {
            Some(v) => Ok(v),
            None => Err("Invalid TTL number".to_owned()),
        }
    } else {
        Err("Invalid TTL unit (use s, m, or d)".to_owned())
    }
}

/// A data-command line, parsed but not yet executed.
pub enum Command {
    /// `SET("key","value")`, with an optional third raw time-to-live string.
    SetOp { key: String, value: String, ttl: Option<String> },
    /// A `SET` with fewer than two arguments.
    SetUsage,
    /// `GET("key")`.
    Get { key: String },
    /// `DEL("key")`.
    Del { key: String },
    /// Anything else.
    Unknown,
}

/// The mathematical content of a parsed command.
pub enum CmdModel {
    SetOp { key: Seq<char>, value: Seq<char>, ttl: Option<Seq<char>> },
    SetUsage,
    Get { key: Seq<char> },
    Del { key: Seq<char> },
    Unknown,
}

impl Command {
    /// The command's mathematical content.
    pub open spec fn model(self) -> CmdModel {
        match self {
            Command::SetOp { key, value, ttl } => CmdModel::SetOp {
                key: key@,
                value: value@,
                ttl: match ttl {
                    Some(t) => Some(t@),
                    None => None,
                },
            },
            Command::SetUsage => CmdModel::SetUsage,
            Command::Get { key } => CmdModel::Get { key: key@ },
            Command::Del { key } => CmdModel::Del { key: key@ },
            Command::Unknown => CmdModel::Unknown,
        }
    }
}

/// An argument as the grammar cleans it: surrounding whitespace removed,
/// then surrounding double quotes removed.
pub open spec fn clean_arg(s: Seq<char>) -> Seq<char> {
    trim_by(trim_by(s, trim_pred(false)), trim_pred(true))
}

/// Whether `s` begins with `p`.
pub open spec fn starts_with(s: Seq<char>, p: Seq<char>) -> bool {
    s.len() >= p.len() && s.subrange(0, p.len() as int) == p
}

/// The command written on `line`: a keyword `SET`, `GET` or `DEL` followed
/// by a parenthesized, comma-separated, double-quoted argument list.
pub open spec fn spec_command(line: Seq<char>) -> CmdModel {
    let s = trim_by(line, trim_pred(false));
    if s.len() >= 5 && starts_with(s, "SET("@) && s.last() == ')' {
        let args = split_commas(s.subrange(4, s.len() - 1)).map_values(
            |a: Seq<char>| clean_arg(a),
        );
        if args.len() < 2 {
            CmdModel::SetUsage
        } else {
            CmdModel::SetOp {
                key: args[0],
                value: args[1],
                ttl: if args.len() == 3 {
                    Some(args[2])
                } else {
                    None
                },
            }
        }
    } else if s.len() >= 5 && starts_with(s, "GET("@) && s.last() == ')' {
        CmdModel::Get { key: clean_arg(s.subrange(4, s.len() - 1)) }
    } else if s.len() >= 5 && starts_with(s, "DEL("@) && s.last() == ')' {
        CmdModel::Del { key: clean_arg(s.subrange(4, s.len() - 1)) }
    } else {
        CmdModel::Unknown
    }
}

/// Cleans one argument: surrounding whitespace, then surrounding quotes.
fn clean_arg_exec(s: &str) -> (r: String)
    ensures
        r@ == clean_arg(s@),
{
    trim_ends(trim_ends(s, false), true).to_owned()
}

/// Parses one line into a command, without executing it.
pub fn parse_command(input: &str) -> (c: Command)
    ensures
        c.model() == spec_command(input@),
{
    let t = trim_ends(input, false);
    let n = t.unicode_len();
    if n < 5 || t.get_char(n - 1) != ')' {
        return Command::Unknown;
    }
    let head = t.substring_char(0, 4);
    proof {
        reveal_strlit("SET(");
        reveal_strlit("GET(");
        reveal_strlit("DEL(");
        assert(head@ =~= t@.subrange(0, 4));
    }
    if str_eq(head, "SET(") {
        let parts = split_commas_exec(t.substring_char(4, n - 1));
        let mut args: Vec<String> = Vec::new();
        let mut i: usize = 0;
        let np = parts.len();
        while i < np
            invariant
                np == parts@.len(),
                i <= np,
                args@.len() == i,
                forall|j: int| 0 <= j < i ==> args@[j]@ == clean_arg(#[trigger] parts@[j]@),
            decreases np - i,
        {
            args.push(clean_arg_exec(parts[i].as_str()));
            i = i + 1;
        }
        proof {
            assert(views_of(parts@) == split_commas(t@.subrange(4, n - 1)));
            assert(forall|j: int|
                0 <= j < np ==> views_of(parts@)[j] == #[trigger] parts@[j]@);
        }
        if args.len() < 2 {
            Command::SetUsage
        } else {
            let key = args.remove(0);
            let value = args.remove(0);
            let ttl = if args.len() == 1 {
                Some(args.remove(0))
            } else {
                None
            };
            Command::SetOp { key, value, ttl }
        }
    } else if str_eq(head, "GET(") {
        Command::Get { key: clean_arg_exec(t.substring_char(4, n - 1)) }
    } else if str_eq(head, "DEL(") {
        Command::Del { key: clean_arg_exec(t.substring_char(4, n - 1)) }
    } else {
        Command::Unknown
    }
}

/// The reply to a `SET` with too few arguments.
pub open spec fn usage_text() -> Seq<char> {
    "Usage: SET(\"key\",\"value\",[\"5s|5m|5d\"])"@
}

/// The reply when `key` holds nothing.
pub open spec fn not_found_text(key: Seq<char>) -> Seq<char> {
    "Error: Key \""@ + key + "\" not found"@
}

/// The reply when `key` held a value whose expiry had passed.
pub open spec fn expired_text(key: Seq<char>) -> Seq<char> {
    "Error: Key \""@ + key + "\" has expired and is deleted"@
}

/// What one data-command line does to a store at time `now`: the store
/// afterwards, the reply line, and whether the store may have changed (so
/// that it must be persisted).
pub open spec fn statement_outcome(
    m: Map<Seq<char>, RecordModel>,
    line: Seq<char>,
    now: u64,
) -> (Map<Seq<char>, RecordModel>, Seq<char>, bool) {
    match spec_command(line) {
        CmdModel::SetUsage => (m, usage_text(), false),
        CmdModel::SetOp { key, value, ttl } => match ttl {
            None => (m.insert(key, RecordModel { value, expires_at: None }), "OK"@, true),
            Some(raw) => match spec_parse_duration(raw) {
                Result::Ok(d) => (
                    m.insert(key, RecordModel { value, expires_at: Some(sat_add(now, d)) }),
                    "OK"@,
                    true,
                ),
                Result::Err(e) => (m, ttl_err_text(e), false),
            },
        },
        CmdModel::Get { key } => if m.contains_key(key) {
            if m[key].expired(now) {
                (m.remove(key), expired_text(key), true)
            } else {
                (m, m[key].value, false)
            }
        } else {
            (m, not_found_text(key), false)
        },
        CmdModel::Del { key } => if m.contains_key(key) {
            (m.remove(key), "OK"@, true)
        } else {
            (m, not_found_text(key), false)
        },
        CmdModel::Unknown => (m, "Unknown command"@, false),
    }
}

/// Executes one data-command line against a selected database at time `now`.
/// Returns the reply line and whether the database changed and so must be
/// persisted.
pub fn run_statement(db: &mut DbInstance, input: &str, now: u64) -> (r: (String, bool))
    requires
        old(db).wf(),
    ensures
        final(db).wf(),
        final(db).same_identity(*old(db)),
        final(db).store_model() == statement_outcome(old(db).store_model(), input@, now).0,
        r.0@ == statement_outcome(old(db).store_model(), input@, now).1,
        r.1 == statement_outcome(old(db).store_model(), input@, now).2,
{
    match parse_command(input) {
        Command::SetUsage => ("Usage: SET(\"key\",\"value\",[\"5s|5m|5d\"])".to_owned(), false),
        Command::SetOp { key, value, ttl } => match ttl {
            None => {
                db.write(key, value, None, now);
                ("OK".to_owned(), true)
            },
            Some(raw) => match parse_duration(raw.as_str()) {
                Ok(d) => {
                    db.write(key, value, Some(d), now);
                    ("OK".to_owned(), true)
                },
                Err(msg) => (msg, false),
            },
        },
        Command::Get { key } => match db.read(key.as_str(), now) {
            ReadOutcome::Value(v) => (v, false),
            ReadOutcome::Expired => {
                let mut msg = "Error: Key \"".to_owned();
                msg.append(key.as_str());
                msg.append("\" has expired and is deleted");
                (msg, true)
            },
            ReadOutcome::NotFound => {
                let mut msg = "Error: Key \"".to_owned();
                msg.append(key.as_str());
                msg.append("\" not found");
                (msg, false)
            },
        },
        Command::Del { key } => {
            if db.delete(key.as_str()) {
                ("OK".to_owned(), true)
            } else {
                let mut msg = "Error: Key \"".to_owned();
                msg.append(key.as_str());
                msg.append("\" not found");
                (msg, false)
            }
        },
        Command::Unknown => ("Unknown command".to_owned(), false),
    }
}

/// The reply to a data-command line when no database is selected.
pub open spec fn unselected_reply(line: Seq<char>) -> Seq<char> {
    match spec_command(line) {
        CmdModel::Unknown => "Unknown command"@,
        CmdModel::SetUsage => usage_text(),
        CmdModel::SetOp { key, value, ttl } => match ttl {
            Some(raw) => match spec_parse_duration(raw) {
                Result::Err(e) => ttl_err_text(e),
                Result::Ok(d) => "No database selected"@,
            },
            None => "No database selected"@,
        },
        _ => "No database selected"@,
    }
}

/// Executes one data-command line against the selected database, if one is
/// selected, at time `now`, and returns the reply line.
pub fn parse_statement(input: &str, db: &mut Option<DbInstance>, now: u64) -> (r: String)
    requires
        (*old(db)) matches Some(d) ==> d.wf(),
    ensures
        match *old(db) {
            Some(d) => (*final(db)) matches Some(d2) && d2.wf() && d2.same_identity(d)
                && d2.store_model() == statement_outcome(d.store_model(), input@, now).0 && r@
                == statement_outcome(d.store_model(), input@, now).1,
            None => *final(db) is None && r@ == unselected_reply(input@),
        },
{
    match db {
        Some(d) => run_statement(d, input, now).0,
        None => {
            match parse_command(input) {
                Command::Unknown => "Unknown command".to_owned(),
                Command::SetUsage => "Usage: SET(\"key\",\"value\",[\"5s|5m|5d\"])".to_owned(),
                Command::SetOp { key: _, value: _, ttl } => match ttl {
                    Some(raw) => match parse_duration(raw.as_str()) {
                        Err(msg) => msg,
                        Ok(_) => "No database selected".to_owned(),
                    },
                    None => "No database selected".to_owned(),
                },
                _ => "No database selected".to_owned(),
            }
        },
    }
}


/// Deleting is idempotent and deleting an absent key is only reported, never
/// an error: a `DEL` of a key the store does not hold leaves the store
/// unchanged and replies that the key was not found, on the first try and
/// on every repetition.
pub proof fn lemma_delete_idempotent(
    m: Map<Seq<char>, RecordModel>,
    line: Seq<char>,
    key: Seq<char>,
    now: u64,
)
    requires
        spec_command(line) == (CmdModel::Del { key: key }),
    ensures
        !m.contains_key(key) ==> statement_outcome(m, line, now).0 == m && statement_outcome(
            m,
            line,
            now,
        ).1 == not_found_text(key),
        ({
            let once = statement_outcome(m, line, now).0;
            let again = statement_outcome(once, line, now);
            &&& !once.contains_key(key)
            &&& again.0 == once
            &&& again.1 == not_found_text(key)
        }),
{
    if !m.contains_key(key) {
        assert(m.remove(key) =~= m);
    }
    let once = statement_outcome(m, line, now).0;
    if m.contains_key(key) {
        assert(once == m.remove(key));
    }
    assert(once.remove(key) =~= once);
}

} // verus!
