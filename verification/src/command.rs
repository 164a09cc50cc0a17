//! The decisions of the commands: what a command shows, accepts or refuses, apart from
//! the requests that it sends and the output that it prints.

use vstd::prelude::*;
use rand::Rng;
use vstd::string::StringSliceAdditionalSpecFns;
use crate::json::{
    json_error_message, json_parse_error, json_pretty, json_pretty_text, json_string_field, json_string_member, json_valid,
};
use crate::number::{decimal_text, push_decimal, push_signed, signed_text};
use crate::response::{missing_field_message, opt_text, PrincipalRecord, PrincipalView};
use crate::ttl::{parse_ttl, parse_ttl_spec};
use crate::style::{paint_spec, push_painted};
use crate::text::{chars_eq_str, chars_of, concat3, push_chars, trim_both, trim_chars, trim_end, trim_end_chars, Strip};

verus! {

/// The shortest passphrase that `genkey` makes.
pub const MIN_KEY_LENGTH: usize = 32;

pub open spec fn is_ascii_alphanumeric(c: char) -> bool {
    ('a' <= c && c <= 'z') || ('A' <= c && c <= 'Z') || ('0' <= c && c <= '9')
}

/// Draws `length` characters from `rand`'s `Alphanumeric` distribution with the thread-local
/// generator: each is an ASCII letter or digit. Which ones come out is left open.
#[verifier::external_body]
fn random_alphanumeric(length: usize) -> (r: String)
    ensures
        r@.len() == length,
        forall|i: int| 0 <= i < length ==> is_ascii_alphanumeric(#[trigger] r@[i]),
{
    rand::thread_rng().sample_iter(&rand::distributions::Alphanumeric).take(length).map(char::from).collect()
}

/// A random master-key passphrase of `length` ASCII letters and digits; lengths under
/// `MIN_KEY_LENGTH` are refused.
pub fn genkey(length: usize) -> (res: Result<String, String>)
    ensures
        match res {
            Ok(k) => length >= MIN_KEY_LENGTH && k@.len() == length && forall|i: int|
                0 <= i < length ==> is_ascii_alphanumeric(#[trigger] k@[i]),
            Err(e) => length < MIN_KEY_LENGTH && e@ == "length must be at least 32"@,
        },
{
    if length < MIN_KEY_LENGTH {
        return Err("length must be at least 32".to_owned());
    }
    Ok(random_alphanumeric(length))
}

/// Whether the last four bytes of a key's UTF-8 text start a character (so that the key
/// can be cut there); true of keys shorter than four bytes.
pub open spec fn tail_ok(k: Seq<char>) -> bool {
    let b = vstd::utf8::encode_utf8(k);
    b.len() >= 4 ==> vstd::utf8::is_char_boundary(b, b.len() - 4)
}

/// The text of a key's last four bytes, or the whole key when it is shorter.
pub open spec fn tail_text(k: Seq<char>) -> Seq<char> {
    let b = vstd::utf8::encode_utf8(k);
    if b.len() >= 4 {
        vstd::utf8::decode_utf8(b.subrange(b.len() - 4, b.len() as int))
    } else {
        k
    }
}

/// The last four bytes of an API key, or the whole key when it is shorter. The cut must
/// fall on a character boundary.
pub fn key_tail(key: &str) -> (r: &str)
    requires
        key.spec_bytes().len() <= usize::MAX,
        tail_ok(key@),
    ensures
        r.spec_bytes() == if key.spec_bytes().len() >= 4 {
            key.spec_bytes().subrange(key.spec_bytes().len() - 4, key.spec_bytes().len() as int)
        } else {
            key.spec_bytes()
        },
        r@ == tail_text(key@),
{
    proof {
        vstd::utf8::encode_utf8_valid_utf8(key@);
    }
    if key.len() >= 4 {
        let (_, tail) = key.split_at(key.len() - 4);
        proof {
            vstd::utf8::encode_utf8_decode_utf8(tail@);
        }
        tail
    } else {
        key
    }
}

/// The identity line of `status`: name (`?` if none), id (0 if none) and role (`?` if none).
pub open spec fn identity_line_spec(color: bool, p: PrincipalView) -> Seq<char> {
    paint_spec(color, "2"@, "identity:"@) + seq![' '] + paint_spec(
        color,
        "1"@,
        match p.name {
            Some(n) => n,
            None => "?"@,
        },
    ) + seq![' '] + paint_spec(
        color,
        "2"@,
        "(id="@ + signed_text(
            match p.id {
                Some(i) => i as int,
                None => 0,
            },
        ) + ", role="@ + match p.role {
            Some(r) => r,
            None => "?"@,
        } + ")"@,
    )
}

/// The lines of `status`: the status, the server, the identity and the key's tail.
pub open spec fn status_lines_spec(color: bool, server: Seq<char>, p: PrincipalView, tail: Seq<char>) -> Seq<Seq<char>> {
    seq![
        paint_spec(color, "2"@, "status:"@) + seq![' '] + paint_spec(color, "1"@, "ok"@),
        paint_spec(color, "2"@, "server:"@) + seq![' '] + server,
        identity_line_spec(color, p),
        paint_spec(color, "2"@, "key tail:"@) + " ..."@ + tail,
    ]
}

/// Builds the lines of `status` (see `status_lines_spec`).
pub fn status_lines(color: bool, server: &str, p: &PrincipalRecord, tail: &str) -> (r: Vec<String>)
    ensures
        r@.map_values(|s: String| s@) == status_lines_spec(color, server@, p@, tail@),
{
    let mut l1 = String::new();
    push_painted(&mut l1, color, "2", "status:");
    l1.push(' ');
    push_painted(&mut l1, color, "1", "ok");
    let mut l2 = String::new();
    push_painted(&mut l2, color, "2", "server:");
    l2.push(' ');
    l2.append(server);
    let mut l3 = String::new();
    push_painted(&mut l3, color, "2", "identity:");
    l3.push(' ');
    match &p.name {
        Some(n) => push_painted(&mut l3, color, "1", n.as_str()),
        None => push_painted(&mut l3, color, "1", "?"),
    }
    l3.push(' ');
    let mut inner = "(id=".to_owned();
    push_signed(
        &mut inner,
        match p.id {
            Some(i) => i,
            None => 0,
        },
    );
    inner.append(", role=");
    match &p.role {
        Some(r) => inner.append(r.as_str()),
        None => inner.append("?"),
    }
    inner.append(")");
    push_painted(&mut l3, color, "2", inner.as_str());
    let mut l4 = String::new();
    push_painted(&mut l4, color, "2", "key tail:");
    l4.append(" ...");
    l4.append(tail);
    let ghost spec = status_lines_spec(color, server@, p@, tail@);
    assert(l1@ =~= spec[0]);
    assert(l2@ =~= spec[1]);
    assert(inner@ =~= "(id="@ + signed_text(
        match p.id {
            Some(i) => i as int,
            None => 0,
        },
    ) + ", role="@ + match p@.role {
        Some(r) => r,
        None => "?"@,
    } + ")"@);
    assert(l3@ =~= spec[2]);
    assert(l4@ =~= spec[3]);
    let mut r: Vec<String> = Vec::new();
    r.push(l1);
    r.push(l2);
    r.push(l3);
    r.push(l4);
    assert(r@.map_values(|s: String| s@) =~= status_lines_spec(color, server@, p@, tail@));
    r
}

/// What `get` shows of a value: a JSON value that parses, indented by `serde_json`; any
/// other value as it is.
pub open spec fn get_body_spec(vtype: Seq<char>, value: Seq<char>) -> Seq<char> {
    if vtype == "json"@ && json_valid(value) {
        json_pretty_text(value)
    } else {
        value
    }
}

/// What `get` shows of a value (see `get_body_spec`).
pub fn get_body(vtype: &str, value: &str) -> (r: String)
    ensures
        r@ == get_body_spec(vtype@, value@),
{
    if chars_eq_str(&chars_of(vtype), "json") {
        match json_pretty(value) {
            Some(p) => p,
            None => value.to_owned(),
        }
    } else {
        value.to_owned()
    }
}

/// The lines of `get` without `--raw`: path, type, a blank line, then the value's text.
pub open spec fn get_lines_spec(color: bool, path: Seq<char>, vtype: Seq<char>, body: Seq<char>) -> Seq<Seq<char>> {
    seq![
        paint_spec(color, "2"@, "path:"@) + seq![' '] + paint_spec(color, "1"@, path),
        paint_spec(color, "2"@, "type:"@) + seq![' '] + vtype,
        Seq::<char>::empty(),
        body,
    ]
}

/// Builds the lines of `get` (see `get_lines_spec`).
pub fn get_lines(color: bool, path: &str, vtype: &str, body: &str) -> (r: Vec<String>)
    ensures
        r@.map_values(|s: String| s@) == get_lines_spec(color, path@, vtype@, body@),
{
    let mut l1 = String::new();
    push_painted(&mut l1, color, "2", "path:");
    l1.push(' ');
    push_painted(&mut l1, color, "1", path);
    let mut l2 = String::new();
    push_painted(&mut l2, color, "2", "type:");
    l2.push(' ');
    l2.append(vtype);
    let ghost spec = get_lines_spec(color, path@, vtype@, body@);
    assert(l1@ =~= spec[0]);
    assert(l2@ =~= spec[1]);
    let mut r: Vec<String> = Vec::new();
    r.push(l1);
    r.push(l2);
    r.push(String::new());
    r.push(body.to_owned());
    assert(r@.map_values(|s: String| s@) =~= get_lines_spec(color, path@, vtype@, body@));
    r
}

/// What `get` prints: with `--raw`, the value alone (with no line break after it);
/// otherwise its lines.
pub enum GetOutput {
    Raw(String),
    Lines(Vec<String>),
}

/// What `get` prints from the reply's `value`, `path` and `type` strings: the value must be
/// there; `--raw` prints it alone; otherwise the path and then the type must be there too,
/// and the lines of `get_lines` show the value as `get_body` does.
pub fn get_output(
    color: bool,
    raw: bool,
    value: Option<String>,
    path: Option<String>,
    vtype: Option<String>,
) -> (r: Result<GetOutput, String>)
    ensures
        match value {
            None => r matches Err(e) && e@ == missing_field_message("value"@),
            Some(v) => if raw {
                r matches Ok(GetOutput::Raw(t)) && t@ == v@
            } else {
                match path {
                    None => r matches Err(e) && e@ == missing_field_message("path"@),
                    Some(p) => match vtype {
                        None => r matches Err(e) && e@ == missing_field_message("type"@),
                        Some(t) => r matches Ok(GetOutput::Lines(ls)) && ls@.map_values(|l: String| l@)
                            == get_lines_spec(color, p@, t@, get_body_spec(t@, v@)),
                    },
                }
            },
        },
{
    let v = match value {
        Some(v) => v,
        None => {
            return Err(concat3("response missing string field '", "value", "'"));
        },
    };
    if raw {
        return Ok(GetOutput::Raw(v));
    }
    let p = match path {
        Some(p) => p,
        None => {
            return Err(concat3("response missing string field '", "path", "'"));
        },
    };
    let t = match vtype {
        Some(t) => t,
        None => {
            return Err(concat3("response missing string field '", "type", "'"));
        },
    };
    let shown = get_body(t.as_str(), v.as_str());
    Ok(GetOutput::Lines(get_lines(color, p.as_str(), t.as_str(), shown.as_str())))
}

/// Where the value of `set` comes from, as the flags give it.
pub enum ValueSource {
    /// `--string`: the value itself.
    Text(String),
    /// `--string-path`: a file whose contents are the value.
    TextFile(String),
    /// `--json`: a JSON text.
    Json(String),
    /// `--json-path`: a file holding a JSON text.
    JsonFile(String),
}

pub open spec fn opt_count(a: Option<String>, b: Option<String>, c: Option<String>, d: Option<String>) -> int {
    (if a is Some {
        1int
    } else {
        0
    }) + (if b is Some {
        1int
    } else {
        0
    }) + (if c is Some {
        1int
    } else {
        0
    }) + (if d is Some {
        1int
    } else {
        0
    })
}

/// Picks the value source of `set`: exactly one of the four flags must be given.
pub fn select_value_source(
    string: Option<String>,
    string_path: Option<String>,
    json: Option<String>,
    json_path: Option<String>,
) -> (res: Result<ValueSource, String>)
    ensures
        match res {
            Ok(ValueSource::Text(s)) => opt_count(string, string_path, json, json_path) == 1
                && string == Some(s),
            Ok(ValueSource::TextFile(p)) => opt_count(string, string_path, json, json_path) == 1
                && string_path == Some(p),
            Ok(ValueSource::Json(j)) => opt_count(string, string_path, json, json_path) == 1
                && json == Some(j),
            Ok(ValueSource::JsonFile(p)) => opt_count(string, string_path, json, json_path) == 1
                && json_path == Some(p),
            Err(e) => if opt_count(string, string_path, json, json_path) == 0 {
                e@ == "exactly one of --string, --string-path, --json, --json-path is required"@
            } else {
                opt_count(string, string_path, json, json_path) > 1
                    && e@ == "--string/--string-path/--json/--json-path are mutually exclusive"@
            },
        },
{
    match (string, string_path, json, json_path) {
        (Some(s), None, None, None) => Ok(ValueSource::Text(s)),
        (None, Some(p), None, None) => Ok(ValueSource::TextFile(p)),
        (None, None, Some(j), None) => Ok(ValueSource::Json(j)),
        (None, None, None, Some(p)) => Ok(ValueSource::JsonFile(p)),
        (None, None, None, None) => Err(
            "exactly one of --string, --string-path, --json, --json-path is required".to_owned(),
        ),
        _ => Err("--string/--string-path/--json/--json-path are mutually exclusive".to_owned()),
    }
}

/// The value of `set` once any file is read: for a file, its contents.
pub enum SetInput {
    Text(String),
    TextFile(String),
    Json(String),
    JsonFile { path: String, contents: String },
}

/// The value and type that `set` sends: file contents lose their trailing line breaks
/// (so that `get --raw` gives back what an editor shows); JSON must parse, else the
/// message names the flag (and the file) and then gives `serde_json`'s own message.
pub fn set_value(input: SetInput) -> (res: Result<(String, &'static str), String>)
    ensures
        match input {
            SetInput::Text(s) => res matches Ok(r) && r.0@ == s@ && r.1@ == "string"@,
            SetInput::TextFile(c) => res matches Ok(r) && r.0@ == trim_end(c@, Strip::LineBreak)
                && r.1@ == "string"@,
            SetInput::Json(j) => if json_valid(j@) {
                res matches Ok(r) && r.0@ == j@ && r.1@ == "json"@
            } else {
                res matches Err(e) && e@ == "--json: invalid JSON: "@ + json_error_message(j@)
            },
            SetInput::JsonFile { path, contents } => {
                let body = trim_end(contents@, Strip::LineBreak);
                if json_valid(body) {
                    res matches Ok(r) && r.0@ == body && r.1@ == "json"@
                } else {
                    res matches Err(e) && e@ == "--json-path: file "@ + path@ + " contains invalid JSON: "@
                        + json_error_message(body)
                }
            },
        },
{
    match input {
        SetInput::Text(s) => Ok((s, "string")),
        SetInput::TextFile(c) => {
            let v = chars_of(c.as_str());
            let t = trim_end_chars(&v, &Strip::LineBreak);
            let mut out = String::new();
            push_chars(&mut out, &t);
            Ok((out, "string"))
        },
        SetInput::Json(j) => match json_parse_error(j.as_str()) {
            None => Ok((j, "json")),
            Some(m) => {
                let r = concat3("--json: invalid JSON: ", m.as_str(), "");
                proof {
                    assert(""@ =~= Seq::<char>::empty()) by {
                        reveal_strlit("");
                    }
                    assert(r@ =~= "--json: invalid JSON: "@ + m@);
                }
                Err(r)
            },
        },
        SetInput::JsonFile { path, contents } => {
            let v = chars_of(contents.as_str());
            let t = trim_end_chars(&v, &Strip::LineBreak);
            let mut body = String::new();
            push_chars(&mut body, &t);
            match json_parse_error(body.as_str()) {
                None => Ok((body, "json")),
                Some(m) => {
                    let mut r = concat3("--json-path: file ", path.as_str(), " contains invalid JSON: ");
                    r.append(m.as_str());
                    Err(r)
                },
            }
        },
    }
}

/// The message for a refused request, from the reply: the JSON `error` string if the body
/// is JSON with one; the whole body if it is other JSON; else the trimmed body, or
/// `server returned <status>` when that is empty or looks like HTML.
pub open spec fn resp_error_text_spec(status: u16, body: Seq<char>, error_field: Option<Option<Seq<char>>>) -> Seq<char> {
    match error_field {
        Some(Some(e)) => e,
        Some(None) => body,
        None => {
            let t = trim_both(body, Strip::Whitespace);
            if t.len() == 0 || t[0] == '<' {
                "server returned "@ + decimal_text(status as nat)
            } else {
                t
            }
        },
    }
}

pub open spec fn field_view(f: Option<Option<String>>) -> Option<Option<Seq<char>>> {
    match f {
        Some(x) => Some(opt_text(x)),
        None => None,
    }
}

/// The message for a refused request (see `resp_error_text_spec`); `error_field` is
/// none when the body is not JSON, else the body's `error` string if it has one.
pub fn resp_error_text(status: u16, body: &str, error_field: Option<Option<String>>) -> (r: String)
    ensures
        r@ == resp_error_text_spec(status, body@, field_view(error_field)),
{
    match error_field {
        Some(Some(e)) => e,
        Some(None) => body.to_owned(),
        None => {
            let v = chars_of(body);
            let t = trim_chars(&v, &Strip::Whitespace);
            if t.len() == 0 || t[0] == '<' {
                let mut r = "server returned ".to_owned();
                push_decimal(&mut r, status as u64);
                r
            } else {
                let mut r = String::new();
                push_chars(&mut r, &t);
                r
            }
        },
    }
}

/// The message for a refused request given its status and its body as read (or the
/// reason it could not be read): `serde_json` decides whether the body is JSON and finds
/// its `error` string.
pub fn render_resp_error(status: u16, body: Result<String, String>) -> (r: String)
    ensures
        match body {
            Err(e) => r@ == "failed to read response body: "@ + e@,
            Ok(b) => r@ == resp_error_text_spec(
                status,
                b@,
                if json_valid(b@) {
                    Some(json_string_member(b@, "error"@))
                } else {
                    None
                },
            ),
        },
{
    match body {
        Err(e) => {
            let r = concat3("failed to read response body: ", e.as_str(), "");
            proof {
                assert(""@ =~= Seq::<char>::empty()) by {
                    reveal_strlit("");
                }
                assert(r@ =~= "failed to read response body: "@ + e@);
            }
            r
        },
        Ok(b) => {
            let field = json_string_field(b.as_str(), "error");
            let r = resp_error_text(status, b.as_str(), field);
            r
        },
    }
}

/// How a reply's status reads.
#[derive(PartialEq, Eq, Structural, Clone, Copy, Debug)]
pub enum StatusClass {
    /// 2xx.
    Success,
    /// 401.
    Unauthorized,
    /// Anything else.
    Failure,
}

/// Classifies an HTTP status code: 200 to 299 succeed, 401 is unauthorized.
pub fn classify_status(status: u16) -> (c: StatusClass)
    ensures
        c == if 200 <= status <= 299 {
            StatusClass::Success
        } else if status == 401 {
            StatusClass::Unauthorized
        } else {
            StatusClass::Failure
        },
{
    if 200 <= status && status <= 299 {
        StatusClass::Success
    } else if status == 401 {
        StatusClass::Unauthorized
    } else {
        StatusClass::Failure
    }
}

/// What `status` says when the server refuses the key.
pub fn unauthorized_message(server: &str) -> (r: String)
    ensures
        r@ == "API key invalid or revoked (server: "@ + server@
            + "). Mint a new key (admin) or run `opaq login` again."@,
{
    concat3(
        "API key invalid or revoked (server: ",
        server,
        "). Mint a new key (admin) or run `opaq login` again.",
    )
}

/// Which principal `rotate` or `revoke` acts on.
pub enum Target {
    ById(i64),
    ByName(String),
}

/// The principal named by `--id` or `--name`; the id wins when both are given.
pub fn select_target(id: Option<i64>, name: Option<String>) -> (r: Option<Target>)
    ensures
        match r {
            Some(Target::ById(i)) => id == Some(i),
            Some(Target::ByName(n)) => id is None && name == Some(n),
            None => id is None && name is None,
        },
{
    match (id, name) {
        (Some(i), _) => Some(Target::ById(i)),
        (None, Some(n)) => Some(Target::ByName(n)),
        (None, None) => None,
    }
}

/// The fields of a `principal set` request; absent ones are left out of it.
pub struct PrincipalSetRequest {
    pub name: String,
    pub role: Option<String>,
    pub ttl_seconds: Option<u64>,
    pub clear_ttl: bool,
    pub rename: Option<String>,
}

/// The request of `principal set`: the name, the role and rename when given, the ttl in
/// seconds when given (a ttl that `parse_ttl` refuses refuses the request, with its message),
/// and whether to clear the ttl.
pub fn principal_set_request(
    name: String,
    role: Option<String>,
    ttl: Option<&str>,
    no_ttl: bool,
    rename: Option<String>,
) -> (res: Result<PrincipalSetRequest, String>)
    ensures
        match ttl {
            None => res matches Ok(r) && r.ttl_seconds is None,
            Some(t) => match parse_ttl_spec(t@) {
                Ok(secs) => res matches Ok(r) && r.ttl_seconds == Some(secs),
                Err(m) => res matches Err(e) && e@ == m,
            },
        },
        res matches Ok(r) ==> r.name == name && r.role == role && r.clear_ttl == no_ttl && r.rename
            == rename,
{
    let ttl_seconds = match ttl {
        None => None,
        Some(t) => match parse_ttl(t) {
            Ok(secs) => Some(secs),
            Err(e) => {
                return Err(e);
            },
        },
    };
    Ok(PrincipalSetRequest { name, role, ttl_seconds, clear_ttl: no_ttl, rename })
}

/// One field of the `principal set` request body: a JSON string, a JSON number or `true`.
pub enum FieldValue {
    Text(String),
    Number(u64),
    True,
}

/// The plain view of a request body field.
pub enum FieldView {
    Text(Seq<char>),
    Number(u64),
    True,
}

pub open spec fn body_field_view(f: (String, FieldValue)) -> (Seq<char>, FieldView) {
    (
        f.0@,
        match f.1 {
            FieldValue::Text(t) => FieldView::Text(t@),
            FieldValue::Number(n) => FieldView::Number(n),
            FieldValue::True => FieldView::True,
        },
    )
}

/// The fields of a `principal set` request body, in order: `name`; `role` when given;
/// `ttl_seconds` when given; `clear_ttl` (as `true`) when the ttl is to be cleared; `rename`
/// when given.
pub open spec fn request_fields_spec(r: PrincipalSetRequest) -> Seq<(Seq<char>, FieldView)> {
    seq![("name"@, FieldView::Text(r.name@))] + match r.role {
        Some(x) => seq![("role"@, FieldView::Text(x@))],
        None => Seq::empty(),
    } + match r.ttl_seconds {
        Some(n) => seq![("ttl_seconds"@, FieldView::Number(n))],
        None => Seq::empty(),
    } + if r.clear_ttl {
        seq![("clear_ttl"@, FieldView::True)]
    } else {
        Seq::empty()
    } + match r.rename {
        Some(x) => seq![("rename"@, FieldView::Text(x@))],
        None => Seq::empty(),
    }
}

/// The fields of the `principal set` request body (see `request_fields_spec`).
pub fn request_fields(r: PrincipalSetRequest) -> (fs: Vec<(String, FieldValue)>)
    ensures
        fs@.map_values(|f: (String, FieldValue)| body_field_view(f)) == request_fields_spec(r),
{
    let ghost rv = r;
    let mut fs: Vec<(String, FieldValue)> = Vec::new();
    fs.push(("name".to_owned(), FieldValue::Text(r.name)));
    let ghost a = seq![("name"@, FieldView::Text(rv.name@))];
    assert(fs@.map_values(|f: (String, FieldValue)| body_field_view(f)) =~= a);
    if let Some(x) = r.role {
        fs.push(("role".to_owned(), FieldValue::Text(x)));
    }
    let ghost b = a + match rv.role {
        Some(x) => seq![("role"@, FieldView::Text(x@))],
        None => Seq::empty(),
    };
    assert(fs@.map_values(|f: (String, FieldValue)| body_field_view(f)) =~= b);
    if let Some(n) = r.ttl_seconds {
        fs.push(("ttl_seconds".to_owned(), FieldValue::Number(n)));
    }
    let ghost c = b + match rv.ttl_seconds {
        Some(n) => seq![("ttl_seconds"@, FieldView::Number(n))],
        None => Seq::empty(),
    };
    assert(fs@.map_values(|f: (String, FieldValue)| body_field_view(f)) =~= c);
    if r.clear_ttl {
        fs.push(("clear_ttl".to_owned(), FieldValue::True));
    }
    let ghost d = c + if rv.clear_ttl {
        seq![("clear_ttl"@, FieldView::True)]
    } else {
        Seq::empty()
    };
    assert(fs@.map_values(|f: (String, FieldValue)| body_field_view(f)) =~= d);
    if let Some(x) = r.rename {
        fs.push(("rename".to_owned(), FieldValue::Text(x)));
    }
    assert(fs@.map_values(|f: (String, FieldValue)| body_field_view(f)) =~= request_fields_spec(rv));
    fs
}


/// `get` shows a value unchanged, whatever its length or content, unless it is JSON of
/// type `json` that parses; that is shown as `serde_json`'s indented text of it.
pub proof fn lemma_get_body_keeps_plain_values(vtype: Seq<char>, value: Seq<char>)
    ensures
        !(vtype == "json"@ && json_valid(value)) ==> get_body_spec(vtype, value) == value,
        (vtype == "json"@ && json_valid(value)) ==> get_body_spec(vtype, value) == json_pretty_text(value),
        vtype != "json"@ ==> get_body_spec(vtype, value) == value,
{
}

} // verus!
