//! The replies of the worker's endpoints, computed from what the request,
//! the database and the configuration handed over.
use vstd::prelude::*;

verus! {

/// How a reply body is to be read.
#[derive(Clone, Copy, Debug, PartialEq, Eq, Structural)]
pub enum BodyKind {
    Text,
    Json,
}

/// A reply: status code, body, and the kind of the body.
#[derive(Debug)]
pub struct Response {
    pub status: u16,
    pub body: String,
    pub kind: BodyKind,
}

/// One entry of submitted form data, as the form handler reads it.
#[derive(Debug)]
pub enum FormEntry {
    /// A plain text field and its value.
    Field(String),
    /// An uploaded file.
    File,
}

pub open spec fn digit_char(d: nat) -> char {
    seq!['0', '1', '2', '3', '4', '5', '6', '7', '8', '9'][d as int]
}

/// The decimal digits of `n`, most significant first, without leading zeros.
pub open spec fn digits(n: nat) -> Seq<char>
    decreases n,
{
    if n < 10 {
        seq![digit_char(n)]
    } else {
        digits(n / 10).push(digit_char(n % 10))
    }
}

/// `n` written in decimal, with a leading `-` when negative.
pub open spec fn decimal(n: int) -> Seq<char> {
    if n < 0 {
        seq!['-'] + digits((-n) as nat)
    } else {
        digits(n as nat)
    }
}

/// The JSON text of the object with the one entry `key: value`, both strings,
/// in compact form.
pub uninterp spec fn json_object_text(key: Seq<char>, value: Seq<char>) -> Seq<char>;

/// Text that a JSON string holds as it is: no quote, no backslash, no control character.
pub open spec fn json_plain(s: Seq<char>) -> bool {
    forall|i: int| 0 <= i < s.len() ==> #[trigger] s[i] != '"' && s[i] != '\\' && s[i] >= ' '
}

/// The compact JSON object `{"key":"value"}` for text that needs no escaping.
pub open spec fn plain_json_object(key: Seq<char>, value: Seq<char>) -> Seq<char> {
    seq!['{', '"'] + key + seq!['"', ':', '"'] + value + seq!['"', '}']
}

/// Relies on serde_json's `Display` for `Value`, which writes compact JSON:
/// `{`, the key as a JSON string, `:`, the value as a JSON string, `}`; a
/// string is quoted and escapes only quotes, backslashes and control characters.
#[verifier::external_body]
fn json_object(key: &str, value: &str) -> (r: String)
    ensures
        r@ == json_object_text(key@, value@),
        json_plain(key@) && json_plain(value@) ==> r@ == plain_json_object(key@, value@),
{
    let mut entries = serde_json::Map::new();
    entries.insert(key.to_string(), serde_json::Value::String(value.to_string()));
    serde_json::Value::Object(entries).to_string()
}

fn digit_text(d: u64) -> (r: String)
    requires
        d < 10,
    ensures
        r@ == seq![digit_char(d as nat)],
{
    let all = "0123456789";
    proof {
        reveal_strlit("0123456789");
    }
    assert(all@ =~= seq!['0', '1', '2', '3', '4', '5', '6', '7', '8', '9']);
    let r = String::from_str(all.substring_char(d as usize, d as usize + 1));
    assert(r@ =~= seq![digit_char(d as nat)]);
    r
}

fn unsigned_decimal(n: u64) -> (r: String)
    ensures
        r@ == digits(n as nat),
    decreases n,
{
    if n < 10 {
        digit_text(n)
    } else {
        let mut s = unsigned_decimal(n / 10);
        let d = digit_text(n % 10);
        s.append(d.as_str());
        assert(s@ =~= digits(n as nat));
        s
    }
}

/// `n` in decimal.
pub fn decimal_text(n: i64) -> (r: String)
    ensures
        r@ == decimal(n as int),
{
    if n < 0 {
        let m: u64 = ((-(n + 1)) as u64) + 1;
        let mut s = String::from_str("-");
        proof {
            reveal_strlit("-");
        }
        s.append(unsigned_decimal(m).as_str());
        assert(s@ =~= decimal(n as int));
        s
    } else {
        unsigned_decimal(n as u64)
    }
}

/// A plain text reply.
pub fn text_reply(status: u16, body: String) -> (r: Response)
    ensures
        r.status == status,
        r.body == body,
        r.kind == BodyKind::Text,
{
    Response { status, body, kind: BodyKind::Text }
}

/// The reply when no binding matches a request.
pub fn not_found() -> (r: Response)
    ensures
        r.status == 404,
        r.body@ == "Not Found"@,
        r.kind == BodyKind::Text,
{
    text_reply(404, String::from_str("Not Found"))
}

/// The reply for an error that a handler passed on before it made a reply of its own.
pub fn failure_reply(message: String) -> (r: Response)
    ensures
        r.status == 500,
        r.body == message,
        r.kind == BodyKind::Text,
{
    text_reply(500, message)
}

/// The text of the lucky-number reply.
pub open spec fn lucky_text(n: int) -> Seq<char> {
    "Your lucky number is: "@ + decimal(n)
}

/// The reply of the lucky-number endpoint: a database error becomes a 400
/// reply with its description; a number, or 0 for a cell that holds no
/// integer, becomes the greeting.
pub fn lucky_number_reply(outcome: Result<Option<i64>, String>) -> (r: Response)
    ensures
        r.kind == BodyKind::Text,
        match outcome {
            Err(message) => r.status == 400 && r.body == message,
            Ok(cell) => r.status == 200 && r.body@ == lucky_text(
                match cell {
                    Some(n) => n as int,
                    None => 0,
                },
            ),
        },
{
    match outcome {
        Err(message) => text_reply(400, message),
        Ok(cell) => {
            let n: i64 = match cell {
                Some(n) => n,
                None => 0,
            };
            let mut body = String::from_str("Your lucky number is: ");
            body.append(decimal_text(n).as_str());
            text_reply(200, body)
        },
    }
}

/// The reply of the form endpoint for field `name`: the field's value as a
/// one-entry JSON object, 422 for a file, 400 where the form has no such field.
pub fn form_field_reply(name: &str, entry: &Option<FormEntry>) -> (r: Response)
    ensures
        match entry {
            Some(FormEntry::Field(value)) => r.status == 200 && r.kind == BodyKind::Json && r.body@
                == json_object_text(name@, value@) && (json_plain(name@) && json_plain(value@)
                ==> r.body@ == plain_json_object(name@, value@)),
            Some(FormEntry::File) => r.status == 422 && r.kind == BodyKind::Text && r.body@
                == "`field` param in form shouldn't be a File"@,
            None => r.status == 400 && r.kind == BodyKind::Text && r.body@ == "Bad Request"@,
        },
{
    match entry {
        Some(FormEntry::Field(value)) => Response {
            status: 200,
            body: json_object(name, value.as_str()),
            kind: BodyKind::Json,
        },
        Some(FormEntry::File) => text_reply(
            422,
            String::from_str("`field` param in form shouldn't be a File"),
        ),
        None => text_reply(400, String::from_str("Bad Request")),
    }
}

/// The text of the error for a configuration value that is not set.
pub open spec fn missing_binding_text(name: Seq<char>) -> Seq<char> {
    "no binding found for `"@ + name + "`"@
}

/// The reply of the configuration echo endpoint for the value named `name`:
/// the value as it is, or a 400 reply where it is not set.
pub fn config_echo_reply(name: &str, value: Option<String>) -> (r: Response)
    ensures
        r.kind == BodyKind::Text,
        match value {
            Some(v) => r.status == 200 && r.body == v,
            None => r.status == 400 && r.body@ == missing_binding_text(name@),
        },
{
    match value {
        Some(v) => text_reply(200, v),
        None => {
            let mut body = String::from_str("no binding found for `");
            body.append(name);
            body.append("`");
            text_reply(400, body)
        },
    }
}

} // verus!
