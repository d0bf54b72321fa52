use vstd::prelude::*;
use vstd::utf8::encode_utf8;
use vstd::string::StringExecFns;

verus! {

/// The header fields that the proxy writes itself.
#[derive(Debug, Clone, Copy, PartialEq, Eq, Structural)]
pub enum HeaderField {
    ContentLength,
    Location,
    RedirectFrom,
    XForwardedFor,
    XForwardedProto,
    XForwardedHost,
    Host,
}

impl HeaderField {
    /// The field's name as it is written on the wire.
    pub open spec fn field_name(self) -> Seq<char> {
        match self {
            HeaderField::ContentLength => "Content-Length"@,
            HeaderField::Location => "Location"@,
            HeaderField::RedirectFrom => "Redirect-From"@,
            HeaderField::XForwardedFor => "X-Forwarded-For"@,
            HeaderField::XForwardedProto => "X-Forwarded-Proto"@,
            HeaderField::XForwardedHost => "X-Forwarded-Host"@,
            HeaderField::Host => "Host"@,
        }
    }

    pub fn name(&self) -> (r: &'static str)
        ensures
            r@ == self.field_name(),
    {
        match self {
            HeaderField::ContentLength => "Content-Length",
            HeaderField::Location => "Location",
            HeaderField::RedirectFrom => "Redirect-From",
            HeaderField::XForwardedFor => "X-Forwarded-For",
            HeaderField::XForwardedProto => "X-Forwarded-Proto",
            HeaderField::XForwardedHost => "X-Forwarded-Host",
            HeaderField::Host => "Host",
        }
    }
}

/// The ASCII decimal digits of `n`, most significant first.
pub open spec fn decimal_text(n: nat) -> Seq<u8>
    decreases n,
{
    if n < 10 {
        seq![(48 + n) as u8]
    } else {
        decimal_text(n / 10).push((48 + n % 10) as u8)
    }
}

/// Writes `n` in decimal, as a header value.
pub fn decimal_bytes(n: usize) -> (r: Vec<u8>)
    ensures
        r@ == decimal_text(n as nat),
    decreases n,
{
    if n < 10 {
        let d: u8 = n as u8;
        let mut v: Vec<u8> = Vec::new();
        v.push(48 + d);
        v
    } else {
        let mut v = decimal_bytes(n / 10);
        let d: u8 = (n % 10) as u8;
        v.push(48 + d);
        v
    }
}


/// A lower-case hexadecimal digit, for `0 <= n < 16`.
pub open spec fn hex_digit(n: u32) -> char {
    if n < 10 {
        (48 + n) as char
    } else {
        (87 + n) as char
    }
}

/// How `serde_json` writes the character `c` inside a JSON string: quote
/// and backslash behind a backslash, five control characters by their
/// short escapes, the other characters below U+0020 as `\u00xx`, and every
/// other character as itself.
pub open spec fn json_escape_char(c: char) -> Seq<char> {
    if c == '"' {
        seq!['\\', '"']
    } else if c == '\\' {
        seq!['\\', '\\']
    } else if c == '\u{8}' {
        seq!['\\', 'b']
    } else if c == '\t' {
        seq!['\\', 't']
    } else if c == '\n' {
        seq!['\\', 'n']
    } else if c == '\u{c}' {
        seq!['\\', 'f']
    } else if c == '\r' {
        seq!['\\', 'r']
    } else if ' ' > c {
        seq!['\\', 'u', '0', '0', hex_digit((c as u32) / 16), hex_digit((c as u32) % 16)]
    } else {
        seq![c]
    }
}

/// The characters of `s`, each escaped for a JSON string.
pub open spec fn json_escaped(s: Seq<char>) -> Seq<char>
    decreases s.len(),
{
    if s.len() == 0 {
        Seq::empty()
    } else {
        json_escape_char(s[0]) + json_escaped(s.drop_first())
    }
}

/// The JSON string holding `s`, as `serde_json` writes it.
pub open spec fn json_string_text(s: Seq<char>) -> Seq<char> {
    seq!['"'] + json_escaped(s) + seq!['"']
}

/// The JSON object with the single entry `key: value`, as `serde_json`
/// prints it compactly.
pub open spec fn json_object_text(key: Seq<char>, value: Seq<char>) -> Seq<char> {
    "{"@ + json_string_text(key) + ":"@ + json_string_text(value) + "}"@
}

/// Prints the JSON object `{key: value}` with `serde_json`: a
/// `serde_json::Value::Object` holding the one entry, printed by its
/// `Display` impl.
///
/// Trusted: the result is `json_object_text(key, value)`. `Display` writes
/// the object compactly (`{`, the key as a JSON string, `:`, the value as a
/// JSON string, `}`), escaping strings as `json_escape_char` says; writing
/// into memory does not fail.
#[verifier::external_body]
fn print_json_object(key: &str, value: &str) -> (r: String)
    ensures
        r@ == json_object_text(key@, value@),
{
    let mut object = serde_json::Map::new();
    object.insert(key.to_string(), serde_json::Value::String(value.to_string()));
    serde_json::Value::Object(object).to_string()
}

/// No character of `s` needs escaping in JSON: no quote, no backslash and
/// no control character below U+0020.
pub open spec fn json_plain(s: Seq<char>) -> bool {
    forall|i: int| 0 <= i < s.len() ==> #[trigger] s[i] != '"' && s[i] != '\\' && s[i] >= ' '
}

/// A text with nothing to escape is written as itself.
pub proof fn lemma_json_plain_unescaped(s: Seq<char>)
    requires
        json_plain(s),
    ensures
        json_escaped(s) == s,
    decreases s.len(),
{
    if s.len() > 0 {
        assert(s[0] != '"' && s[0] != '\\' && s[0] >= ' ');
        assert(json_plain(s.drop_first())) by {
            assert forall|i: int| 0 <= i < s.drop_first().len() implies #[trigger] s.drop_first()[i]
                != '"' && s.drop_first()[i] != '\\' && s.drop_first()[i] >= ' ' by {
                assert(s.drop_first()[i] == s[i + 1]);
            }
        }
        assert(json_escape_char(s[0]) == seq![s[0]]);
        lemma_json_plain_unescaped(s.drop_first());
        assert(seq![s[0]] + s.drop_first() =~= s);
    } else {
        assert(s =~= Seq::<char>::empty());
    }
}

/// The JSON object `{"message":<msg>}`, as `serde_json` prints it compactly.
pub open spec fn json_message_text(msg: Seq<char>) -> Seq<char> {
    json_object_text("message"@, msg)
}

/// The same object written out, for a message with nothing to escape.
pub open spec fn plain_message_text(msg: Seq<char>) -> Seq<char> {
    "{\"message\":\""@ + msg + "\"}"@
}

/// The bytes of the JSON body that carries `msg`.
pub open spec fn message_body(msg: Seq<char>) -> Seq<u8> {
    encode_utf8(json_message_text(msg))
}

/// A message with nothing to escape is carried as `{"message":"<msg>"}`.
pub proof fn lemma_plain_message_body(msg: Seq<char>)
    requires
        json_plain(msg),
    ensures
        json_message_text(msg) == plain_message_text(msg),
        message_body(msg) == encode_utf8(plain_message_text(msg)),
{
    reveal_strlit("message");
    reveal_strlit("{");
    reveal_strlit(":");
    reveal_strlit("}");
    reveal_strlit("{\"message\":\"");
    reveal_strlit("\"}");
    let key = "message"@;
    assert(json_plain(key));
    lemma_json_plain_unescaped(key);
    lemma_json_plain_unescaped(msg);
    assert(json_message_text(msg) =~= plain_message_text(msg));
}

/// Builds the JSON body `{"message":<msg>}` that the proxy answers with.
pub fn json_message_body(msg: &str) -> (r: Vec<u8>)
    ensures
        r@ == message_body(msg@),
        json_plain(msg@) ==> r@ == encode_utf8(plain_message_text(msg@)),
{
    let text = print_json_object("message", msg);
    proof {
        if json_plain(msg@) {
            lemma_plain_message_body(msg@);
        }
    }
    vstd::slice::slice_to_vec(text.as_str().as_bytes())
}

/// A response that the proxy sends itself instead of forwarding the request.
#[derive(Debug, Clone)]
pub struct ResponsePlan {
    pub status: u16,
    /// Header fields, in the order in which they are inserted.
    pub headers: Vec<(HeaderField, Vec<u8>)>,
    /// The body, when one is written after the header.
    pub body: Option<Vec<u8>>,
}

/// The mathematical content of a [`ResponsePlan`].
pub struct ResponseView {
    pub status: u16,
    pub headers: Seq<(HeaderField, Seq<u8>)>,
    pub body: Option<Seq<u8>>,
}

impl View for ResponsePlan {
    type V = ResponseView;

    open spec fn view(&self) -> ResponseView {
        ResponseView {
            status: self.status,
            headers: self.headers@.map_values(|h: (HeaderField, Vec<u8>)| (h.0, h.1@)),
            body: match self.body {
                Some(b) => Some(b@),
                None => None,
            },
        }
    }
}

pub const STATUS_FOUND: u16 = 302;
pub const STATUS_FORBIDDEN: u16 = 403;
pub const STATUS_PAYLOAD_TOO_LARGE: u16 = 413;
pub const STATUS_BAD_GATEWAY: u16 = 502;

/// A response whose `Content-Length` is that of the JSON body carrying
/// `msg`; the body itself is written only when `with_body` holds.
pub open spec fn json_response(status: u16, msg: Seq<char>, with_body: bool) -> ResponseView {
    ResponseView {
        status,
        headers: seq![(HeaderField::ContentLength, decimal_text(message_body(msg).len()))],
        body: if with_body {
            Some(message_body(msg))
        } else {
            None
        },
    }
}

/// A `302 Found` to `location`, with an empty body and the scheme that the
/// request came in on.
pub open spec fn redirect_response(location: Seq<char>, scheme: Seq<char>) -> ResponseView {
    ResponseView {
        status: STATUS_FOUND,
        headers: seq![
            (HeaderField::Location, encode_utf8(location)),
            (HeaderField::ContentLength, decimal_text(0)),
            (HeaderField::RedirectFrom, encode_utf8(scheme)),
        ],
        body: None,
    }
}

/// Builds [`json_response`].
pub fn json_response_plan(status: u16, msg: &str, with_body: bool) -> (r: ResponsePlan)
    ensures
        r@ == json_response(status, msg@, with_body),
        json_plain(msg@) ==> r@.headers == seq![
            (
                HeaderField::ContentLength,
                decimal_text(encode_utf8(plain_message_text(msg@)).len()),
            ),
        ],
        json_plain(msg@) && with_body ==> r@.body == Some(encode_utf8(plain_message_text(msg@))),
{
    let body = json_message_body(msg);
    let length = decimal_bytes(body.len());
    let mut headers: Vec<(HeaderField, Vec<u8>)> = Vec::new();
    headers.push((HeaderField::ContentLength, length));
    let r = ResponsePlan { status, headers, body: if with_body { Some(body) } else { None } };
    assert(r@.headers =~= json_response(status, msg@, with_body).headers);
    r
}

/// Builds [`redirect_response`].
pub fn redirect_plan(location: &str, scheme: &str) -> (r: ResponsePlan)
    ensures
        r@ == redirect_response(location@, scheme@),
{
    let mut headers: Vec<(HeaderField, Vec<u8>)> = Vec::new();
    headers.push((HeaderField::Location, vstd::slice::slice_to_vec(location.as_bytes())));
    headers.push((HeaderField::ContentLength, decimal_bytes(0)));
    headers.push((HeaderField::RedirectFrom, vstd::slice::slice_to_vec(scheme.as_bytes())));
    let r = ResponsePlan { status: STATUS_FOUND, headers, body: None };
    assert(r@.headers =~= redirect_response(location@, scheme@).headers);
    r
}

} // verus!
