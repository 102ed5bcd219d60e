//! JSON text of request bodies.

use vstd::prelude::*;

verus! {

/// The JSON text of a string value: quoted, with escapes.
pub uninterp spec fn json_string_of(s: Seq<char>) -> Seq<char>;

/// Relies on serde_json's `Display` for `Value::String`: the compact JSON
/// text of the string, which depends on the characters alone.
#[verifier::external_body]
pub(crate) fn json_string(s: &str) -> (r: String)
    ensures
        r@ == json_string_of(s@),
{
    serde_json::Value::String(s.to_string()).to_string()
}

/// Decimal digits of a natural number.
pub open spec fn digits(n: nat) -> Seq<char>
    decreases n,
{
    let d = seq![(('0' as u8) + (n % 10) as u8) as char];
    if n < 10 {
        d
    } else {
        digits(n / 10) + d
    }
}

/// Decimal text of an integer, with a leading `-` when it is negative.
pub open spec fn decimal(n: int) -> Seq<char> {
    if n < 0 {
        seq!['-'] + digits((-n) as nat)
    } else {
        digits(n as nat)
    }
}

/// The one-character text of a decimal digit.
fn digit_text(d: u64) -> (r: &'static str)
    requires
        d < 10,
    ensures
        r@ == seq![(('0' as u8) + d as u8) as char],
{
    proof {
        reveal_strlit("0");
        reveal_strlit("1");
        reveal_strlit("2");
        reveal_strlit("3");
        reveal_strlit("4");
        reveal_strlit("5");
        reveal_strlit("6");
        reveal_strlit("7");
        reveal_strlit("8");
        reveal_strlit("9");
    }
    let r = match d {
        0 => "0",
        1 => "1",
        2 => "2",
        3 => "3",
        4 => "4",
        5 => "5",
        6 => "6",
        7 => "7",
        8 => "8",
        _ => "9",
    };
    assert(r@ =~= seq![(('0' as u8) + d as u8) as char]);
    r
}

/// Decimal digits of `m`.
fn digits_text(m: u64) -> (r: String)
    ensures
        r@ == digits(m as nat),
    decreases m,
{
    if m < 10 {
        String::from_str(digit_text(m))
    } else {
        let r = digits_text(m / 10).concat(digit_text(m % 10));
        assert(r@ =~= digits(m as nat));
        r
    }
}

/// Decimal text of `n`, with a leading `-` when it is negative.
pub fn decimal_text(n: i32) -> (r: String)
    ensures
        r@ == decimal(n as int),
{
    if n < 0 {
        let m = (-(n as i64)) as u64;
        proof {
            reveal_strlit("-");
        }
        let r = String::from_str("-").concat(digits_text(m).as_str());
        assert(r@ =~= decimal(n as int));
        r
    } else {
        digits_text(n as u64)
    }
}

/// JSON text of a boolean.
pub open spec fn bool_text(b: bool) -> Seq<char> {
    if b {
        seq!['t', 'r', 'u', 'e']
    } else {
        seq!['f', 'a', 'l', 's', 'e']
    }
}

/// Writes `true` or `false`.
pub fn bool_json(b: bool) -> (r: String)
    ensures
        r@ == bool_text(b),
{
    let s = if b { "true" } else { "false" };
    proof {
        reveal_strlit("true");
        reveal_strlit("false");
    }
    let r = String::from_str(s);
    proof {
        assert(r@ =~= bool_text(b));
    }
    r
}

/// The body of a sign-up or a log-in: `{"email":..,"password":..}`.
pub open spec fn credentials_text(email: Seq<char>, password: Seq<char>) -> Seq<char> {
    "{\"email\":"@ + json_string_of(email) + ",\"password\":"@ + json_string_of(password) + "}"@
}

pub fn credentials_body(email: &str, password: &str) -> (r: String)
    ensures
        r@ == credentials_text(email@, password@),
{
    let r = String::from_str("{\"email\":");
    let r = r.concat(json_string(email).as_str());
    let r = r.concat(",\"password\":");
    let r = r.concat(json_string(password).as_str());
    r.concat("}")
}

/// The body that creates a project: its payload, private, and its name.
pub open spec fn new_project_text(name: Seq<char>, data: Seq<char>) -> Seq<char> {
    "{\"data\":"@ + data + ",\"is_public\":false,\"name\":"@ + json_string_of(name) + "}"@
}

/// `data` is the payload's JSON text, put in as it is.
pub fn new_project_body(name: &str, data: &str) -> (r: String)
    ensures
        r@ == new_project_text(name@, data@),
{
    let r = String::from_str("{\"data\":");
    let r = r.concat(data);
    let r = r.concat(",\"is_public\":false,\"name\":");
    let r = r.concat(json_string(name).as_str());
    r.concat("}")
}

} // verus!
