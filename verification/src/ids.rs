//! Identifiers: random record ids, timestamps, and the human-readable codes
//! (`R0001`, `B001`, `HK0001`) that appear in every generated file name.

use vstd::prelude::*;

use crate::db::{col_int, execute, query_one, text};
use crate::text::{dec_int_padded, push_int_padded};
use crate::Result;

verus! {

/// The hyphenated form of a UUID: 36 characters, dashes at 8, 13, 18 and
/// 23, lowercase hexadecimal digits elsewhere.
pub open spec fn uuid_shaped(s: Seq<char>) -> bool {
    &&& s.len() == 36
    &&& forall|i: int|
        0 <= i < 36 ==> if i == 8 || i == 13 || i == 18 || i == 23 {
            #[trigger] s[i] == '-'
        } else {
            ('0' <= s[i] <= '9') || ('a' <= s[i] <= 'f')
        }
}

/// A fresh random record id: a version-4 UUID in its hyphenated form
/// (uuid `Uuid::new_v4`, rendered with `to_string`, which writes the
/// hyphenated lowercase form, with the version digit 4 at position 14).
/// Which random digits it holds is not stated.
#[verifier::external_body]
pub fn new_id() -> (id: String)
    ensures
        id@.len() == 36,
        uuid_shaped(id@),
        id@[14] == '4',
{
    uuid::Uuid::new_v4().to_string()
}

/// The current local time in RFC 3339 with whole seconds and a numeric offset
/// (chrono `Local::now().to_rfc3339_opts(SecondsFormat::Secs, false)`).
/// It depends on the clock, so nothing is stated of it.
#[verifier::external_body]
pub fn now_iso() -> String {
    chrono::Local::now().to_rfc3339_opts(chrono::SecondsFormat::Secs, false)
}

/// The code for counter value `value`: the prefix followed by the value
/// zero-padded to `width` (`format!("{prefix}{value:0width$}")`).
pub open spec fn code_text(prefix: Seq<char>, value: int, width: nat) -> Seq<char> {
    prefix + dec_int_padded(value, width)
}

/// Codes are never reused: distinct (non-negative) counter values give
/// distinct codes under the same prefix and width.
pub proof fn lemma_codes_distinct(prefix: Seq<char>, a: int, b: int, width: nat)
    requires
        0 <= a,
        0 <= b,
        a != b,
    ensures
        code_text(prefix, a, width) != code_text(prefix, b, width),
{
    crate::text::lemma_padded_value(a as nat, width);
    crate::text::lemma_padded_value(b as nat, width);
    let ca = code_text(prefix, a, width);
    let cb = code_text(prefix, b, width);
    if ca == cb {
        assert(ca.subrange(prefix.len() as int, ca.len() as int) =~= dec_int_padded(a, width));
        assert(cb.subrange(prefix.len() as int, cb.len() as int) =~= dec_int_padded(b, width));
    }
}

/// The code for counter value `value` under `prefix`, zero-padded to `width`.
pub fn format_code(prefix: &str, value: i64, width: usize) -> (code: String)
    ensures
        code@ == code_text(prefix@, value as int, width as nat),
{
    let mut code = String::from_str(prefix);
    push_int_padded(&mut code, value as i128, width);
    code
}

/// Next human-readable code for a prefix, e.g. `next_code(conn, "R", 4)` → "R0001".
/// Backed by the `counters` table so codes are immutable and never reused.
pub fn next_code(conn: &rusqlite::Connection, prefix: &str, width: usize) -> (r: Result<String>)
    ensures
        r matches Ok(code) ==> exists|v: i64| code@ == code_text(prefix@, v as int, width as nat),
        r matches Err(e) ==> e is Sqlite,
{
    let params = vec![text(prefix)];
    execute(
        conn,
        "INSERT INTO counters (name, value) VALUES (?1, 1)
         ON CONFLICT(name) DO UPDATE SET value = value + 1",
        &params,
    )?;
    let row = query_one(conn, "SELECT value FROM counters WHERE name = ?1", &params)?;
    let value = col_int(&row, 0)?;
    Ok(format_code(prefix, value, width))
}

} // verus!
