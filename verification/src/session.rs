//! Session identifiers and the session information handed over at login.
use crate::json::JsonValue;
use vstd::prelude::*;

verus! {

/// The decimal text of a natural number, most significant digit first.
pub open spec fn decimal_text(n: nat) -> Seq<char>
    decreases n,
{
    if n < 10 {
        seq![digit_char(n)]
    } else {
        decimal_text(n / 10).push(digit_char(n % 10))
    }
}

/// The ASCII digit for a value below ten.
pub open spec fn digit_char(d: nat) -> char {
    (48 + d) as char
}

/// What Rust's `Debug` formatting prints for a string: the quoted, escaped text.
pub uninterp spec fn debug_quoted(s: Seq<char>) -> Seq<char>;

/// The one-character text of a decimal digit.
fn digit_str(d: u128) -> (s: &'static str)
    requires
        d < 10,
    ensures
        s@ == seq![digit_char(d as nat)],
{
    proof {
        reveal_strlit("0");
        reveal_strlit("1");
        reveal_strlit("2");
        reveal_strlit("3");
        reveal_strlit("4");
        reveal_strlit("5");
        reveal_strlit("6");
        reveal_strlit("7");
        reveal_strlit("8");
        reveal_strlit("9");
    }
    if d == 0 {
        "0"
    } else if d == 1 {
        "1"
    } else if d == 2 {
        "2"
    } else if d == 3 {
        "3"
    } else if d == 4 {
        "4"
    } else if d == 5 {
        "5"
    } else if d == 6 {
        "6"
    } else if d == 7 {
        "7"
    } else if d == 8 {
        "8"
    } else {
        "9"
    }
}

/// The decimal text of a number, without sign or padding.
pub fn decimal(n: u128) -> (s: String)
    ensures
        s@ == decimal_text(n as nat),
    decreases n,
{
    if n < 10 {
        digit_str(n).to_owned()
    } else {
        let head = decimal(n / 10);
        head.concat(digit_str(n % 10))
    }
}

/// Calls `format!("{:?}", s)`; the result is named by `debug_quoted` and the
/// contract states only that it starts and ends with a double quote, which the
/// `Debug` impl of `str` always writes.
#[verifier::external_body]
fn debug_string(s: &str) -> (r: String)
    ensures
        r@ == debug_quoted(s@),
        r@.len() >= 2,
        r@[0] == '"',
        r@[r@.len() - 1] == '"',
{
    format!("{:?}", s)
}

/// The identifier of a client session.
#[derive(Debug, Clone, PartialEq, Eq)]
pub struct Session(pub String);

impl Session {
    /// The identifier as text.
    pub open spec fn id(&self) -> Seq<char> {
        self.0@
    }

    /// The empty session, used as the sender of greetings.
    pub fn empty() -> (s: Session)
        ensures
            s.id() == Seq::<char>::empty(),
    {
        Session(String::new())
    }

    /// The session named by `value`.
    pub fn from_str_id(value: &str) -> (s: Session)
        ensures
            s.id() == value@,
    {
        Session(value.to_owned())
    }

    /// The session named by the decimal text of a connection counter.
    pub fn from_count(value: u128) -> (s: Session)
        ensures
            s.id() == decimal_text(value as nat),
    {
        Session(decimal(value))
    }

    /// The identifier, giving up the session.
    pub fn into_string(self) -> (s: String)
        ensures
            s@ == self.id(),
    {
        self.0
    }

    /// The identifier, borrowed.
    pub fn as_str(&self) -> (s: &str)
        ensures
            s@ == self.id(),
    {
        self.0.as_str()
    }

    /// The identifier as a JSON string.
    pub fn to_json(self) -> (v: JsonValue)
        ensures
            v matches JsonValue::Str(s) && s@ == self.id(),
    {
        JsonValue::Str(self.0)
    }

    /// The text that displaying a session prints: its identifier, quoted as by `Debug`.
    pub fn to_display_string(&self) -> (s: String)
        ensures
            s@ == debug_quoted(self.id()),
    {
        debug_string(self.0.as_str())
    }

    /// A copy of the session.
    pub fn duplicate(&self) -> (s: Session)
        ensures
            s.id() == self.id(),
    {
        Session(self.0.clone())
    }

    /// Whether two sessions have the same identifier.
    pub fn same_id(&self, other: &Session) -> (b: bool)
        ensures
            b == (self.id() == other.id()),
    {
        self.0 == other.0
    }
}

} // verus!

verus! {

/// A session together with the information the login hook returned for it.
#[derive(Debug, PartialEq, Eq)]
pub struct SessionInfo {
    pub id: Session,
    pub info: Vec<(String, JsonValue)>,
}

impl SessionInfo {
    /// The JSON object `{ "session_id": id, "info": info }` that templates and
    /// hooks receive as their context.
    pub fn into_map(self) -> (m: Vec<(String, JsonValue)>)
        ensures
            m@.len() == 2,
            m@[0].0@ == "session_id"@,
            m@[0].1 matches JsonValue::Str(s) && s@ == self.id.id(),
            m@[1].0@ == "info"@,
            m@[1].1 == JsonValue::Object(self.info),
    {
        let SessionInfo { id, info } = self;
        let mut m: Vec<(String, JsonValue)> = Vec::new();
        m.push(("session_id".to_owned(), id.to_json()));
        m.push(("info".to_owned(), JsonValue::Object(info)));
        m
    }
}

} // verus!

verus! {

/// The decimal text of a number has one digit below ten and more above.
pub proof fn lemma_decimal_len(n: nat)
    ensures
        n < 10 ==> decimal_text(n).len() == 1,
        n >= 10 ==> decimal_text(n).len() >= 2,
    decreases n,
{
    if n >= 10 {
        lemma_decimal_len(n / 10);
    }
}

/// Sessions named after different connection counts have different identifiers.
pub proof fn law_count_sessions_distinct(a: nat, b: nat)
    ensures
        a != b ==> decimal_text(a) != decimal_text(b),
    decreases a,
{
    lemma_decimal_len(a);
    lemma_decimal_len(b);
    if a != b {
        if a < 10 && b < 10 {
            assert(decimal_text(a)[0] == digit_char(a));
            assert(decimal_text(b)[0] == digit_char(b));
            assert(digit_char(a) != digit_char(b));
        } else if a >= 10 && b >= 10 {
            if a % 10 != b % 10 {
                assert(decimal_text(a).last() == digit_char(a % 10));
                assert(decimal_text(b).last() == digit_char(b % 10));
                assert(digit_char(a % 10) != digit_char(b % 10));
            } else {
                assert(a / 10 != b / 10);
                law_count_sessions_distinct(a / 10, b / 10);
                assert(decimal_text(a).drop_last() == decimal_text(a / 10));
                assert(decimal_text(b).drop_last() == decimal_text(b / 10));
            }
        }
    }
}

} // verus!
