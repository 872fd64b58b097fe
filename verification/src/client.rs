//! What the library knows of the herdr socket API: the errors a request can
//! end in, the JSON that goes over the wire, and the `Api` a session talks
//! through.
//!
//! The wire protocol is one JSON object per line: requests are
//! `{"id","method","params"}` and responses come back carrying the same `id`.
//! The server closes the connection as soon as it has answered, so every
//! request dials a fresh socket; that part lives with the binary.
use crate::search::{first_index, lemma_first_index_is, lemma_first_index_none};
use crate::text::{contains_text, decimal, decimal_text, joined, owned, same_text, text_contains};
use vstd::prelude::*;

verus! {

#[derive(Debug)]
pub enum Error {
    /// The socket could not be dialled, written or read; the text is the
    /// system's own message.
    Io(String),
    /// The server understood the request and refused it.
    Api { code: String, message: String },
    Protocol(String),
}

impl Error {
    /// The error as one line of text.
    pub open spec fn text(&self) -> Seq<char> {
        match self {
            Error::Io(e) => "io: "@ + e@,
            Error::Api { code, message } => code@ + ": "@ + message@,
            Error::Protocol(m) => "protocol: "@ + m@,
        }
    }

    /// The error as one line of text, as the feedback row shows it.
    pub fn message(&self) -> (r: String)
        ensures
            r@ == self.text(),
    {
        match self {
            Error::Io(e) => joined("io: ", e.as_str()),
            Error::Api { code, message } => {
                let mut r = joined(code.as_str(), ": ");
                r.append(message.as_str());
                r
            },
            Error::Protocol(m) => joined("protocol: ", m.as_str()),
        }
    }

    /// Whether the server refused to open a popup because one is up already.
    pub open spec fn spec_popup_already_open(&self) -> bool {
        match self {
            Error::Api { code, message } => code@ == "ui_busy"@ || contains_text(
                message@,
                "already open"@,
            ),
            _ => false,
        }
    }

    /// Opening a popup while one is already up is an expected race, not a
    /// fault: the mode the user asked for is already on screen. herdr says so
    /// with the `ui_busy` code, and older servers in the message.
    pub fn is_popup_already_open(&self) -> (r: bool)
        ensures
            r == self.spec_popup_already_open(),
    {
        match self {
            Error::Api { code, message } => same_text(code.as_str(), "ui_busy") || text_contains(
                message.as_str(),
                "already open",
            ),
            _ => false,
        }
    }
}

/// A JSON value as it goes over the socket.
#[derive(Debug)]
pub enum Json {
    Null,
    Bool(bool),
    /// A number, as the text JSON writes it.
    Num(String),
    Str(String),
    Arr(Vec<Json>),
    /// An object's members, in order, each key once.
    Obj(Vec<(String, Json)>),
}

/// The member called `key`.
pub open spec fn member(key: Seq<char>) -> spec_fn((String, Json)) -> bool {
    |e: (String, Json)| e.0@ == key
}

impl Json {
    /// The member `key` of an object; `None` for a missing key or a value
    /// that is not an object.
    pub open spec fn field(self, key: Seq<char>) -> Option<Json> {
        match self {
            Json::Obj(es) => match first_index(es@, member(key)) {
                Some(i) => Some(es@[i].1),
                None => None,
            },
            _ => None,
        }
    }

    /// The characters of a string value.
    pub open spec fn text_value(self) -> Option<Seq<char>> {
        match self {
            Json::Str(s) => Some(s@),
            _ => None,
        }
    }

    /// The elements of an array value.
    pub open spec fn array_value(self) -> Option<Seq<Json>> {
        match self {
            Json::Arr(a) => Some(a@),
            _ => None,
        }
    }

    /// A boolean value.
    pub open spec fn bool_value(self) -> Option<bool> {
        match self {
            Json::Bool(b) => Some(b),
            _ => None,
        }
    }

    /// The string member `key`, as `v[key].as_str()` reads it.
    pub open spec fn text_field(self, key: Seq<char>) -> Option<Seq<char>> {
        match self.field(key) {
            Some(v) => v.text_value(),
            None => None,
        }
    }

    /// The boolean member `key`, as `v[key].as_bool()` reads it.
    pub open spec fn bool_field(self, key: Seq<char>) -> Option<bool> {
        match self.field(key) {
            Some(v) => v.bool_value(),
            None => None,
        }
    }

    /// The array member `key`, as `v[key].as_array()` reads it.
    pub open spec fn array_field(self, key: Seq<char>) -> Option<Seq<Json>> {
        match self.field(key) {
            Some(v) => v.array_value(),
            None => None,
        }
    }

    /// The member `key`, if this is an object that has it.
    pub fn get(&self, key: &str) -> (r: Option<&Json>)
        ensures
            r matches Some(v) ==> self.field(key@) == Some(*v),
            r is None ==> self.field(key@) is None,
    {
        match self {
            Json::Obj(es) => {
                let mut i: usize = 0;
                while i < es.len()
                    invariant
                        *self == Json::Obj(*es),
                        i <= es@.len(),
                        forall|j: int| 0 <= j < i ==> !(member(key@))(#[trigger] es@[j]),
                    decreases es.len() - i,
                {
                    if same_text(es[i].0.as_str(), key) {
                        proof {
                            lemma_first_index_is(es@, member(key@), i as int);
                        }
                        return Some(&es[i].1);
                    }
                    i = i + 1;
                }
                proof {
                    lemma_first_index_none(es@, member(key@));
                }
                None
            },
            _ => None,
        }
    }

    /// The member `key`, moved out of the value.
    pub fn into_field(self, key: &str) -> (r: Option<Json>)
        ensures
            r == self.field(key@),
    {
        match self {
            Json::Obj(es) => {
                let ghost orig = es;
                let mut es = es;
                let mut i: usize = 0;
                while i < es.len()
                    invariant
                        self == Json::Obj(orig),
                        es@ == orig@,
                        i <= es@.len(),
                        forall|j: int| 0 <= j < i ==> !(member(key@))(#[trigger] es@[j]),
                    decreases es.len() - i,
                {
                    if same_text(es[i].0.as_str(), key) {
                        proof {
                            lemma_first_index_is(es@, member(key@), i as int);
                        }
                        let (_, v) = es.remove(i);
                        return Some(v);
                    }
                    i = i + 1;
                }
                proof {
                    lemma_first_index_none(es@, member(key@));
                }
                None
            },
            _ => None,
        }
    }

    /// The string member `key`, copied out.
    pub fn text_at(&self, key: &str) -> (r: Option<String>)
        ensures
            match r {
                Some(s) => self.text_field(key@) == Some(s@),
                None => self.text_field(key@) is None,
            },
    {
        match self.get(key) {
            Some(Json::Str(s)) => Some(owned(s.as_str())),
            _ => None,
        }
    }

    /// The boolean member `key`.
    pub fn bool_at(&self, key: &str) -> (r: Option<bool>)
        ensures
            r == self.bool_field(key@),
    {
        match self.get(key) {
            Some(Json::Bool(b)) => Some(*b),
            _ => None,
        }
    }

    /// The array member `key`.
    pub fn array_at(&self, key: &str) -> (r: Option<&Vec<Json>>)
        ensures
            match r {
                Some(a) => self.array_field(key@) == Some(a@),
                None => self.array_field(key@) is None,
            },
    {
        match self.get(key) {
            Some(Json::Arr(a)) => Some(a),
            _ => None,
        }
    }

    /// A string value.
    pub fn text(s: &str) -> (r: Json)
        ensures
            r.text_value() == Some(s@),
    {
        Json::Str(owned(s))
    }

    /// A non-negative number.
    pub fn count(n: usize) -> (r: Json)
        ensures
            r matches Json::Num(t) && t@ == decimal(n as nat),
    {
        Json::Num(decimal_text(n as u64))
    }
}

/// One member of an object.
pub fn member_of(key: &str, value: Json) -> (r: (String, Json))
    ensures
        r.0@ == key@,
        r.1 == value,
{
    (owned(key), value)
}

/// The server, as a session talks to it: one request, one reply.
pub trait Api {
    /// Send `method` with `params`; the reply's `result`, or the error the
    /// server answered with.
    fn call(&mut self, method: &str, params: Json) -> Result<Json, Error>;
}

/// The `id` of request number `n`.
pub open spec fn spec_request_id(n: u64) -> Seq<char> {
    "modes-"@ + decimal(n as nat)
}

/// The `id` of request number `n`, so its reply can be told apart.
pub fn request_id(n: u64) -> (r: String)
    ensures
        r@ == spec_request_id(n),
{
    let digits = decimal_text(n);
    joined("modes-", digits.as_str())
}

/// What one line read from the socket means for the request `id`: `None` for
/// anything that is not its reply; the error the server gave, with `error`
/// and `request failed` standing in for a missing code or message; or the
/// `result`, `null` when there is none.
pub open spec fn spec_reply(line: Json, id: Seq<char>) -> Option<Result<Json, (Seq<char>, Seq<char>)>> {
    if line.text_field("id"@) != Some(id) {
        None
    } else {
        match line.field("error"@) {
            Some(err) => Some(
                Err(
                    (
                        match err.text_field("code"@) {
                            Some(c) => c,
                            None => "error"@,
                        },
                        match err.text_field("message"@) {
                            Some(m) => m,
                            None => "request failed"@,
                        },
                    ),
                ),
            ),
            None => Some(
                Ok(
                    match line.field("result"@) {
                        Some(v) => v,
                        None => Json::Null,
                    },
                ),
            ),
        }
    }
}

/// A reply read as characters: the API error's code and message.
pub open spec fn reply_view(r: Option<Result<Json, Error>>) -> Option<
    Result<Json, (Seq<char>, Seq<char>)>,
> {
    match r {
        None => None,
        Some(Ok(v)) => Some(Ok(v)),
        Some(Err(Error::Api { code, message })) => Some(Err((code@, message@))),
        Some(Err(_)) => None,
    }
}

/// Read one line for the request `id`. The line is taken apart, so the
/// `result` moves out of it.
pub fn reply_for(line: Json, id: &str) -> (r: Option<Result<Json, Error>>)
    ensures
        reply_view(r) == spec_reply(line, id@),
        r matches Some(Err(e)) ==> e is Api,
{
    let matches_id = match line.text_at("id") {
        Some(got) => same_text(got.as_str(), id),
        None => false,
    };
    if !matches_id {
        return None;
    }
    if let Some(err) = line.get("error") {
        let code = match err.text_at("code") {
            Some(c) => c,
            None => owned("error"),
        };
        let message = match err.text_at("message") {
            Some(m) => m,
            None => owned("request failed"),
        };
        return Some(Err(Error::Api { code, message }));
    }
    Some(Ok(
        match line.into_field("result") {
            Some(v) => v,
            None => Json::Null,
        },
    ))
}

/// A request line: `{"id", "method", "params"}`.
pub fn request(id: &str, method: &str, params: Json) -> (r: Json)
    ensures
        r matches Json::Obj(es) && es@.len() == 3,
        r.text_field("id"@) == Some(id@),
        r.text_field("method"@) == Some(method@),
        r.field("params"@) == Some(params),
{
    let es = vec![
        member_of("id", Json::text(id)),
        member_of("method", Json::text(method)),
        member_of("params", params),
    ];
    let r = Json::Obj(es);
    proof {
        reveal_strlit("id");
        reveal_strlit("method");
        reveal_strlit("params");
        assert("id"@.len() == 2 && "method"@.len() == 6 && "params"@.len() == 6);
        assert("method"@ != "params"@) by {
            assert("method"@[0] != "params"@[0]);
        }
        lemma_first_index_is(es@, member("id"@), 0);
        lemma_first_index_is(es@, member("method"@), 1);
        lemma_first_index_is(es@, member("params"@), 2);
    }
    r
}

} // verus!
