//! The web interface: what a request asks for, whether it may, and how the
//! answer is written.

use crate::model::{
    err_reply, IpcRequest, IpcResponse, LogSource, RequestView, ResponseView, WebConfig, WebView,
};
use crate::text::{
    ascii_lower, cat2, cat5, cut, decimal, has_prefix, is_blank, line_seq, parse_number, parse_u64,
    same, split_lines, split_on, split_once, split_seq, split_words, starts_with, texts,
    to_ascii_lower, trim, trimmed, u64_text, words,
};
use vstd::prelude::*;
use vstd::utf8::{decode_utf8, encode_utf8, is_continuation_byte, valid_utf8};

verus! {

// ---- Decoding ----

/// The value of a hexadecimal digit.
pub open spec fn hex_digit(b: u8) -> Option<int> {
    if 48 <= b <= 57 {
        Some(b - 48)
    } else if 97 <= b <= 102 {
        Some(b - 87)
    } else if 65 <= b <= 70 {
        Some(b - 55)
    } else {
        None
    }
}

/// The value of two bytes read as a hexadecimal number, which may have a plus
/// sign.
pub open spec fn hex_pair(a: u8, b: u8) -> Option<int> {
    match (hex_digit(a), hex_digit(b)) {
        (Some(x), Some(y)) => Some(16 * x + y),
        (None, Some(y)) if a == 43 => Some(y),
        _ => None,
    }
}

/// The text that the bytes of an encoded text stand for: a plus sign for a
/// space, a percent sign and two hexadecimal digits for the character with that
/// number, and every other byte for the character with its number. There is
/// none where the two bytes after a percent sign end inside a character.
pub open spec fn url_decoded(bytes: Seq<u8>) -> Option<Seq<char>>
    decreases bytes.len(),
{
    if bytes.len() == 0 {
        Some(Seq::empty())
    } else if bytes[0] == 37 && bytes.len() > 2 {
        if bytes.len() > 3 && is_continuation_byte(bytes[3]) {
            None
        } else {
            match hex_pair(bytes[1], bytes[2]) {
                Some(v) => prefixed(v as char, url_decoded(bytes.skip(3))),
                None => prefixed('%', url_decoded(bytes.skip(1))),
            }
        }
    } else if bytes[0] == 43 {
        prefixed(' ', url_decoded(bytes.skip(1)))
    } else {
        prefixed(bytes[0] as char, url_decoded(bytes.skip(1)))
    }
}

/// `c` before the text, where there is one.
pub open spec fn prefixed(c: char, rest: Option<Seq<char>>) -> Option<Seq<char>> {
    match rest {
        Some(s) => Some(seq![c] + s),
        None => None,
    }
}

fn hex_value(b: u8) -> (r: Option<u8>)
    ensures
        match r {
            Some(v) => hex_digit(b) == Some(v as int) && v < 16,
            None => hex_digit(b) is None,
        },
{
    if b >= 48 && b <= 57 {
        Some(b - 48)
    } else if b >= 97 && b <= 102 {
        Some(b - 87)
    } else if b >= 65 && b <= 70 {
        Some(b - 55)
    } else {
        None
    }
}

fn hex_byte(a: u8, b: u8) -> (r: Option<u8>)
    ensures
        match r {
            Some(v) => hex_pair(a, b) == Some(v as int),
            None => hex_pair(a, b) is None,
        },
{
    match (hex_value(a), hex_value(b)) {
        (Some(x), Some(y)) => Some(16 * x + y),
        (None, Some(y)) => if a == 43 {
            Some(y)
        } else {
            None
        },
        _ => None,
    }
}

fn is_continuation(b: u8) -> (r: bool)
    ensures
        r == is_continuation_byte(b),
{
    b >= 0x80 && b <= 0xbf
}

/// The text that `input` stands for, where there is one.
fn decode(input: &str) -> (r: Option<String>)
    ensures
        crate::text::opt_text(r) == url_decoded(encode_utf8(input@)),
{
    let bytes = input.as_bytes();
    let n: usize = bytes.len();
    let mut out = String::new();
    let mut i: usize = 0;
    let ghost whole = url_decoded(bytes@);
    assert(bytes@.skip(0) =~= bytes@);
    proof {
        lemma_extended(Seq::empty(), whole);
    }
    while i < n
        invariant
            n == bytes@.len(),
            i <= n,
            bytes@ == encode_utf8(input@),
            whole == url_decoded(bytes@),
            extended(out@, url_decoded(bytes@.skip(i as int))) == whole,
        decreases n - i,
    {
        let ghost rest = bytes@.skip(i as int);
        let ghost before = out@;
        let b: u8 = bytes[i];
        assert(rest[0] == b);
        assert(rest.skip(1) =~= bytes@.skip(i + 1));
        if b == 37 && n - i > 2 {
            assert(rest[1] == bytes@[i + 1] && rest[2] == bytes@[i + 2]);
            if n - i > 3 {
                assert(rest[3] == bytes@[i + 3]);
                if is_continuation(bytes[i + 3]) {
                    return None;
                }
            }
            match hex_byte(bytes[i + 1], bytes[i + 2]) {
                Some(v) => {
                    assert(rest.skip(3) =~= bytes@.skip(i + 3));
                    let c = v as char;
                    out.push(c);
                    proof {
                        lemma_pushed(before, c, url_decoded(bytes@.skip(i + 3)));
                    }
                    i += 3;
                },
                None => {
                    out.push('%');
                    proof {
                        lemma_pushed(before, '%', url_decoded(bytes@.skip(i + 1)));
                    }
                    i += 1;
                },
            }
        } else if b == 43 {
            out.push(' ');
            proof {
                lemma_pushed(before, ' ', url_decoded(bytes@.skip(i + 1)));
            }
            i += 1;
        } else {
            let c = b as char;
            out.push(c);
            proof {
                lemma_pushed(before, c, url_decoded(bytes@.skip(i + 1)));
            }
            i += 1;
        }
    }
    assert(bytes@.skip(i as int).len() == 0);
    assert(out@ + Seq::<char>::empty() =~= out@);
    Some(out)
}

spec fn extended(a: Seq<char>, rest: Option<Seq<char>>) -> Option<Seq<char>> {
    match rest {
        Some(s) => Some(a + s),
        None => None,
    }
}

proof fn lemma_extended(a: Seq<char>, rest: Option<Seq<char>>)
    requires
        a.len() == 0,
    ensures
        extended(a, rest) == rest,
{
    if rest is Some {
        assert(a + rest->0 =~= rest->0);
    }
}

proof fn lemma_pushed(a: Seq<char>, c: char, rest: Option<Seq<char>>)
    ensures
        extended(a.push(c), rest) == extended(a, prefixed(c, rest)),
{
    if rest is Some {
        assert(a.push(c) + rest->0 =~= a + (seq![c] + rest->0));
    }
}

/// Whether an encoded text stands for a text.
pub fn can_decode(input: &str) -> (r: bool)
    ensures
        r == (url_decoded(encode_utf8(input@)) is Some),
{
    decode(input).is_some()
}

/// The text that an encoded text stands for.
pub fn url_decode(input: &str) -> (r: String)
    requires
        url_decoded(encode_utf8(input@)) is Some,
    ensures
        r@ == url_decoded(encode_utf8(input@))->0,
{
    match decode(input) {
        Some(text) => text,
        None => String::new(),
    }
}

// ---- Targets ----

/// The path and the query of a target.
pub open spec fn parts_of(target: Seq<char>) -> (Seq<char>, Seq<char>) {
    match cut(target, '?') {
        Some(p) => p,
        None => (target, ""@),
    }
}

/// The path and the query of a target.
pub fn split_target(target: &str) -> (r: (String, String))
    ensures
        (r.0@, r.1@) == parts_of(target@),
{
    match split_once(target, '?') {
        Some(parts) => parts,
        None => (target.to_owned(), "".to_string()),
    }
}

/// What a query says of a parameter.
pub enum Param {
    Missing,
    Value(String),
    /// It has a value that stands for no text.
    Undecodable,
}

pub enum ParamView {
    Missing,
    Value(Seq<char>),
    Undecodable,
}

impl View for Param {
    type V = ParamView;

    open spec fn view(&self) -> ParamView {
        match self {
            Param::Missing => ParamView::Missing,
            Param::Value(v) => ParamView::Value(v@),
            Param::Undecodable => ParamView::Undecodable,
        }
    }
}

/// What the parts of a query say of the parameter `key`: the first part for it
/// counts, and no part behind one without an equals sign does.
pub open spec fn param_in(parts: Seq<Seq<char>>, key: Seq<char>) -> ParamView
    decreases parts.len(),
{
    if parts.len() == 0 {
        ParamView::Missing
    } else {
        match cut(parts[0], '=') {
            None => ParamView::Missing,
            Some((k, v)) => if k == key {
                match url_decoded(encode_utf8(v)) {
                    Some(text) => ParamView::Value(text),
                    None => ParamView::Undecodable,
                }
            } else {
                param_in(parts.skip(1), key)
            },
        }
    }
}

/// What a query says of the parameter `key`.
pub open spec fn param(query: Seq<char>, key: Seq<char>) -> ParamView {
    param_in(split_seq(query, '&'), key)
}

/// What a query says of the parameter `key`.
pub fn find_param(query: &str, key: &str) -> (r: Param)
    ensures
        r@ == param(query@, key@),
{
    let parts = split_on(query, '&');
    let ghost all = texts(parts@);
    let mut i: usize = 0;
    assert(all.skip(0) =~= all);
    while i < parts.len()
        invariant
            all == texts(parts@),
            all == split_seq(query@, '&'),
            i <= parts@.len(),
            param_in(all.skip(i as int), key@) == param_in(all, key@),
        decreases parts@.len() - i,
    {
        assert(all.skip(i as int)[0] == parts@[i as int]@);
        assert(all.skip(i as int).skip(1) =~= all.skip(i + 1));
        match split_once(parts[i].as_str(), '=') {
            None => return Param::Missing,
            Some((k, v)) => {
                if same(k.as_str(), key) {
                    return match decode(v.as_str()) {
                        Some(text) => Param::Value(text),
                        None => Param::Undecodable,
                    };
                }
            },
        }
        i += 1;
    }
    Param::Missing
}

/// The value of the parameter `key` in a query.
pub fn query_param(query: &str, key: &str) -> (r: Option<String>)
    requires
        !(param(query@, key@) is Undecodable),
    ensures
        crate::text::opt_text(r) == match param(query@, key@) {
            ParamView::Value(v) => Some(v),
            _ => None,
        },
{
    match find_param(query, key) {
        Param::Value(v) => Some(v),
        _ => None,
    }
}

// ---- Credentials ----

/// Whether a header carries the password: as a bearer token, or by itself.
pub open spec fn carries(header: Seq<char>, password: Seq<char>) -> bool {
    match cut(header, ':') {
        None => false,
        Some((_, value)) => {
            ||| starts_with(ascii_lower(header), "authorization:"@) && trim(value) == "Bearer "@
                + password
            ||| starts_with(ascii_lower(header), "x-pym2-password:"@) && trim(value) == password
        },
    }
}

/// Whether some header carries the password.
pub open spec fn some_carries(headers: Seq<Seq<char>>, password: Seq<char>) -> bool {
    exists|i: int| 0 <= i < headers.len() && carries(#[trigger] headers[i], password)
}

/// Whether a request may use the interface: where a password is set, a header or
/// the target has to carry it. It cannot be told where the target's password
/// stands for no text.
pub open spec fn admitted(web: WebView, headers: Seq<Seq<char>>, target: Seq<char>) -> Option<
    bool,
> {
    match web.password {
        None => Some(true),
        Some(password) => if password.len() == 0 || some_carries(headers, password) {
            Some(true)
        } else {
            match param(parts_of(target).1, "password"@) {
                ParamView::Value(v) => Some(v == password),
                ParamView::Missing => Some(false),
                ParamView::Undecodable => None,
            }
        },
    }
}

fn header_carries(header: &str, password: &str, bearer: &str) -> (r: bool)
    requires
        bearer@ == "Bearer "@ + password@,
    ensures
        r == carries(header@, password@),
{
    let lower = to_ascii_lower(header);
    match split_once(header, ':') {
        None => false,
        Some((_, value)) => {
            let value = trimmed(value.as_str());
            (has_prefix(lower.as_str(), "authorization:") && same(value.as_str(), bearer)) || (
            has_prefix(lower.as_str(), "x-pym2-password:") && same(value.as_str(), password))
        },
    }
}

/// Whether a request may use the interface.
pub fn authorized(config: &WebConfig, headers: &Vec<String>, target: &str) -> (r: Option<bool>)
    ensures
        r == admitted(config@, texts(headers@), target@),
{
    let password = match &config.password {
        None => return Some(true),
        Some(password) => password,
    };
    if password.as_str().is_empty() {
        return Some(true);
    }
    let ghost all = texts(headers@);
    let bearer = cat2("Bearer ", password.as_str());
    let mut i: usize = 0;
    while i < headers.len()
        invariant
            all == texts(headers@),
            i <= headers@.len(),
            bearer@ == "Bearer "@ + password@,
            config@.password == Some(password@),
            password@.len() > 0,
            forall|j: int| 0 <= j < i ==> !carries(#[trigger] all[j], password@),
        decreases headers@.len() - i,
    {
        assert(all[i as int] == headers@[i as int]@);
        if header_carries(headers[i].as_str(), password.as_str(), bearer.as_str()) {
            return Some(true);
        }
        i += 1;
    }
    let (_, query) = split_target(target);
    match find_param(query.as_str(), "password") {
        Param::Value(v) => Some(same(v.as_str(), password.as_str())),
        Param::Missing => Some(false),
        Param::Undecodable => None,
    }
}

// ---- Requests ----

/// A request, as far as it is read.
pub struct HttpRequest {
    pub method: String,
    pub target: String,
    pub headers: Vec<String>,
}

pub struct HttpView {
    pub method: Seq<char>,
    pub target: Seq<char>,
    pub headers: Seq<Seq<char>>,
}

impl View for HttpRequest {
    type V = HttpView;

    open spec fn view(&self) -> HttpView {
        HttpView {
            method: self.method@,
            target: self.target@,
            headers: texts(self.headers@),
        }
    }
}

/// The lines before the first blank one.
pub open spec fn until_blank(lines: Seq<Seq<char>>) -> Seq<Seq<char>>
    decreases lines.len(),
{
    if lines.len() == 0 || trim(lines[0]).len() == 0 {
        Seq::empty()
    } else {
        seq![lines[0]] + until_blank(lines.skip(1))
    }
}

/// The request in a text: the method and the target are the first two words of
/// the first line, and the headers the lines behind it up to a blank one.
pub open spec fn request_in(text: Seq<char>) -> HttpView {
    let lines = line_seq(text);
    let first = if lines.len() > 0 {
        words(lines[0])
    } else {
        Seq::empty()
    };
    HttpView {
        method: if first.len() > 0 {
            first[0]
        } else {
            ""@
        },
        target: if first.len() > 1 {
            first[1]
        } else {
            "/"@
        },
        headers: if lines.len() > 0 {
            until_blank(lines.skip(1))
        } else {
            Seq::empty()
        },
    }
}

/// The request in a text.
pub fn parse_request(text: &str) -> (r: HttpRequest)
    ensures
        r@ == request_in(text@),
{
    let lines = split_lines(text);
    let ghost all = texts(lines@);
    let first: Vec<String> = if lines.len() > 0 {
        split_words(lines[0].as_str())
    } else {
        Vec::new()
    };
    assert(lines@.len() == 0 ==> texts(first@) =~= Seq::empty());
    let method = if first.len() > 0 {
        first[0].clone()
    } else {
        "".to_string()
    };
    let target = if first.len() > 1 {
        first[1].clone()
    } else {
        "/".to_string()
    };
    let mut headers: Vec<String> = Vec::new();
    if lines.len() > 0 {
        let ghost wanted = until_blank(all.skip(1));
        let mut i: usize = 1;
        assert(texts(headers@) + wanted =~= wanted);
        while i < lines.len() && !is_blank(lines[i].as_str())
            invariant
                all == texts(lines@),
                1 <= i <= lines@.len(),
                wanted == until_blank(all.skip(1)),
                texts(headers@) + until_blank(all.skip(i as int)) == wanted,
            decreases lines@.len() - i,
        {
            let ghost rest = all.skip(i as int);
            let ghost before = texts(headers@);
            assert(rest[0] == lines@[i as int]@);
            assert(rest.skip(1) =~= all.skip(i + 1));
            proof {
                crate::text::lemma_blank_is_trimmed_empty(rest[0]);
            }
            headers.push(lines[i].clone());
            assert(texts(headers@) =~= before.push(rest[0]));
            assert(texts(headers@) + until_blank(all.skip(i + 1)) =~= before + (seq![rest[0]]
                + until_blank(all.skip(i + 1))));
            i += 1;
        }
        proof {
            let rest = all.skip(i as int);
            if i < lines@.len() {
                assert(rest[0] == lines@[i as int]@);
                crate::text::lemma_blank_is_trimmed_empty(rest[0]);
            }
            assert(until_blank(rest) =~= Seq::empty());
            assert(texts(headers@) + Seq::<Seq<char>>::empty() =~= texts(headers@));
        }
    } else {
        assert(texts(headers@) =~= Seq::empty());
    }
    HttpRequest { method, target, headers }
}

/// What is to be done for a request.
pub enum WebPlan {
    /// Nothing: none came.
    Close,
    /// Nothing: a parameter stands for no text.
    Abort,
    /// Send the page.
    Page,
    /// Send a fixed answer in JSON.
    Fixed { code: u16, body: String },
    /// Send a reply.
    Reply(IpcResponse),
    /// Carry out the request, and send the reply.
    Ask(IpcRequest),
}

pub enum WebPlanView {
    Close,
    Abort,
    Page,
    Fixed { code: u16, body: Seq<char> },
    Reply(ResponseView),
    Ask(RequestView),
}

impl View for WebPlan {
    type V = WebPlanView;

    open spec fn view(&self) -> WebPlanView {
        match self {
            WebPlan::Close => WebPlanView::Close,
            WebPlan::Abort => WebPlanView::Abort,
            WebPlan::Page => WebPlanView::Page,
            WebPlan::Fixed { code, body } => WebPlanView::Fixed { code: *code, body: body@ },
            WebPlan::Reply(resp) => WebPlanView::Reply(resp@),
            WebPlan::Ask(req) => WebPlanView::Ask(req@),
        }
    }
}

/// What a method and a path ask for.
pub enum Endpoint {
    Page,
    Apps,
    App,
    Start,
    Stop,
    Restart,
    Logs,
    Unknown,
}

/// What a method and a path ask for.
pub open spec fn endpoint(method: Seq<char>, path: Seq<char>) -> Endpoint {
    if method == "GET"@ && path == "/"@ {
        Endpoint::Page
    } else if method == "GET"@ && path == "/api/apps"@ {
        Endpoint::Apps
    } else if method == "GET"@ && path == "/api/app"@ {
        Endpoint::App
    } else if method == "POST"@ && path == "/api/start"@ {
        Endpoint::Start
    } else if method == "POST"@ && path == "/api/stop"@ {
        Endpoint::Stop
    } else if method == "POST"@ && path == "/api/restart"@ {
        Endpoint::Restart
    } else if method == "GET"@ && path == "/api/logs"@ {
        Endpoint::Logs
    } else {
        Endpoint::Unknown
    }
}

fn endpoint_of(method: &str, path: &str) -> (r: Endpoint)
    ensures
        r == endpoint(method@, path@),
{
    if same(method, "GET") && same(path, "/") {
        Endpoint::Page
    } else if same(method, "GET") && same(path, "/api/apps") {
        Endpoint::Apps
    } else if same(method, "GET") && same(path, "/api/app") {
        Endpoint::App
    } else if same(method, "POST") && same(path, "/api/start") {
        Endpoint::Start
    } else if same(method, "POST") && same(path, "/api/stop") {
        Endpoint::Stop
    } else if same(method, "POST") && same(path, "/api/restart") {
        Endpoint::Restart
    } else if same(method, "GET") && same(path, "/api/logs") {
        Endpoint::Logs
    } else {
        Endpoint::Unknown
    }
}

/// How many lines of a log a query asks for; `None` where it cannot be told.
pub open spec fn tail_asked(query: Seq<char>) -> Option<usize> {
    match param(query, "tail"@) {
        ParamView::Undecodable => None,
        ParamView::Missing => Some(200),
        ParamView::Value(v) => match parse_number(v, usize::MAX as int) {
            Some(n) => Some(n as usize),
            None => Some(200),
        },
    }
}

/// What is to be done for a request about the app that the query names.
pub open spec fn named_plan(e: Endpoint, query: Seq<char>) -> WebPlanView {
    match param(query, "name"@) {
        ParamView::Missing => WebPlanView::Reply(err_reply("missing query parameter 'name'"@)),
        ParamView::Undecodable => WebPlanView::Abort,
        ParamView::Value(name) => match e {
            Endpoint::Start => WebPlanView::Ask(RequestView::Start(name)),
            Endpoint::Stop => WebPlanView::Ask(RequestView::Stop(name)),
            Endpoint::Restart => WebPlanView::Ask(RequestView::Restart(name)),
            Endpoint::Logs => match tail_asked(query) {
                Some(n) => WebPlanView::Ask(RequestView::TailLogs(name, n, LogSource::Both)),
                None => WebPlanView::Abort,
            },
            _ => WebPlanView::Ask(RequestView::GetApp(name)),
        },
    }
}

/// What is to be done for a request that may use the interface.
pub open spec fn served(method: Seq<char>, path: Seq<char>, query: Seq<char>) -> WebPlanView {
    match endpoint(method, path) {
        Endpoint::Page => WebPlanView::Page,
        Endpoint::Apps => WebPlanView::Ask(RequestView::ListApps),
        Endpoint::Unknown => WebPlanView::Fixed { code: 404, body: "{\"error\":\"not found\"}"@ },
        e => named_plan(e, query),
    }
}

/// What is to be done for a request.
pub open spec fn web_plan(web: WebView, req: HttpView) -> WebPlanView {
    let (path, query) = parts_of(req.target);
    if starts_with(path, "/api/"@) {
        match admitted(web, req.headers, req.target) {
            Some(true) => served(req.method, path, query),
            Some(false) => WebPlanView::Fixed {
                code: 401,
                body: "{\"error\":\"unauthorized\"}"@,
            },
            None => WebPlanView::Abort,
        }
    } else {
        served(req.method, path, query)
    }
}

fn serve_named(e: Endpoint, query: &str) -> (r: WebPlan)
    ensures
        r@ == named_plan(e, query@),
{
    let name = match find_param(query, "name") {
        Param::Missing => return WebPlan::Reply(
            IpcResponse::err("missing query parameter 'name'".to_string()),
        ),
        Param::Undecodable => return WebPlan::Abort,
        Param::Value(name) => name,
    };
    match e {
        Endpoint::Start => WebPlan::Ask(IpcRequest::Start { name }),
        Endpoint::Stop => WebPlan::Ask(IpcRequest::Stop { name }),
        Endpoint::Restart => WebPlan::Ask(IpcRequest::Restart { name }),
        Endpoint::Logs => {
            let tail: usize = match find_param(query, "tail") {
                Param::Undecodable => return WebPlan::Abort,
                Param::Missing => 200,
                Param::Value(v) => match parse_u64(v.as_str(), usize::MAX as u64) {
                    Some(n) => n as usize,
                    None => 200,
                },
            };
            WebPlan::Ask(IpcRequest::TailLogs { name, tail, source: LogSource::Both })
        },
        _ => WebPlan::Ask(IpcRequest::GetApp { name }),
    }
}

fn serve(method: &str, path: &str, query: &str) -> (r: WebPlan)
    ensures
        r@ == served(method@, path@, query@),
{
    match endpoint_of(method, path) {
        Endpoint::Page => WebPlan::Page,
        Endpoint::Apps => WebPlan::Ask(IpcRequest::ListApps),
        Endpoint::Unknown => WebPlan::Fixed {
            code: 404,
            body: "{\"error\":\"not found\"}".to_string(),
        },
        e => serve_named(e, query),
    }
}

/// What is to be done for a request.
pub fn plan_request(config: &WebConfig, req: &HttpRequest) -> (r: WebPlan)
    ensures
        r@ == web_plan(config@, req@),
{
    let (path, query) = split_target(req.target.as_str());
    if has_prefix(path.as_str(), "/api/") {
        match authorized(config, &req.headers, req.target.as_str()) {
            Some(true) => {},
            Some(false) => return WebPlan::Fixed {
                code: 401,
                body: "{\"error\":\"unauthorized\"}".to_string(),
            },
            None => return WebPlan::Abort,
        }
    }
    serve(req.method.as_str(), path.as_str(), query.as_str())
}

/// The text of bytes that need not be well formed: what
/// `String::from_utf8_lossy` makes of them.
pub uninterp spec fn lossy_text(bytes: Seq<u8>) -> Seq<char>;

/// `String::from_utf8_lossy`: the text of the bytes, with a replacement
/// character for what is not UTF-8. Of bytes that are UTF-8 it is the text they
/// encode; what it is of others is left to the name.
#[verifier::external_body]
fn from_utf8_lossy(bytes: &[u8]) -> (r: String)
    ensures
        r@ == lossy_text(bytes@),
        valid_utf8(bytes@) ==> r@ == decode_utf8(bytes@),
{
    String::from_utf8_lossy(bytes).into_owned()
}

/// What is to be done for the bytes that a client sent.
pub fn handle_connection(config: &WebConfig, received: &[u8]) -> (r: WebPlan)
    ensures
        r@ == if received@.len() == 0 {
            WebPlanView::Close
        } else {
            web_plan(config@, request_in(lossy_text(received@)))
        },
        received@.len() > 0 && valid_utf8(received@) ==> r@ == web_plan(
            config@,
            request_in(decode_utf8(received@)),
        ),
{
    if received.len() == 0 {
        return WebPlan::Close;
    }
    let text = from_utf8_lossy(received);
    let req = parse_request(text.as_str());
    plan_request(config, &req)
}

// ---- Answers ----

/// How a status code is worded.
pub open spec fn status_line(code: u16) -> Seq<char> {
    if code == 200 {
        "200 OK"@
    } else if code == 400 {
        "400 Bad Request"@
    } else if code == 401 {
        "401 Unauthorized"@
    } else if code == 404 {
        "404 Not Found"@
    } else {
        "500 Internal Server Error"@
    }
}

/// An answer as it is sent; its length is counted in bytes.
pub open spec fn answer(code: u16, content_type: Seq<char>, body: Seq<char>) -> Seq<char> {
    "HTTP/1.1 "@ + status_line(code) + "\r\nContent-Type: "@ + content_type + (
    "\r\nContent-Length: "@ + decimal(encode_utf8(body).len())
        + "\r\nConnection: close\r\n\r\n"@ + body)
}

/// An answer as it is sent.
pub fn write_response(code: u16, content_type: &str, body: &str) -> (r: String)
    ensures
        r@ == answer(code, content_type@, body@),
{
    let status = if code == 200 {
        "200 OK"
    } else if code == 400 {
        "400 Bad Request"
    } else if code == 401 {
        "401 Unauthorized"
    } else if code == 404 {
        "404 Not Found"
    } else {
        "500 Internal Server Error"
    };
    let length = u64_text(body.as_bytes().len() as u64);
    let tail = crate::text::cat4(
        "\r\nContent-Length: ",
        length.as_str(),
        "\r\nConnection: close\r\n\r\n",
        body,
    );
    cat5("HTTP/1.1 ", status, "\r\nContent-Type: ", content_type, tail.as_str())
}

/// The answer that carries a reply, given how the reply is written in JSON.
pub fn write_json_response(ok: bool, body: &str) -> (r: String)
    ensures
        r@ == answer(
            if ok {
                200
            } else {
                400
            },
            "application/json"@,
            body@,
        ),
{
    write_response(
        if ok {
            200
        } else {
            400
        },
        "application/json",
        body,
    )
}

// ---- Laws ----

/// Nothing is carried out for a request that may not use the interface: where a
/// password is set, a request that does not carry it is answered with 401 on
/// every path of the interface.
pub proof fn law_password_guards_every_request(web: WebView, req: HttpView)
    ensures
        web_plan(web, req) is Ask ==> admitted(web, req.headers, req.target) == Some(true),
        starts_with(parts_of(req.target).0, "/api/"@) && admitted(web, req.headers, req.target)
            == Some(false) ==> web_plan(web, req) == (WebPlanView::Fixed {
            code: 401,
            body: "{\"error\":\"unauthorized\"}"@,
        }),
{
    reveal_strlit("/api/");
    reveal_strlit("/api/apps");
    reveal_strlit("/api/app");
    reveal_strlit("/api/start");
    reveal_strlit("/api/stop");
    reveal_strlit("/api/restart");
    reveal_strlit("/api/logs");
    let path = parts_of(req.target).0;
    let e = endpoint(req.method, path);
    if !(e is Page || e is Unknown) {
        assert(path.take(5) =~= "/api/"@);
        assert(starts_with(path, "/api/"@));
    }
}

/// Whether a byte stands for itself in a percent-encoded text: letters, digits
/// and a few marks.
pub open spec fn unreserved(b: u8) -> bool {
    ||| 48 <= b <= 57
    ||| 65 <= b <= 90
    ||| 97 <= b <= 122
    ||| b == 45 || b == 95 || b == 46 || b == 33 || b == 126
    ||| b == 42 || b == 39 || b == 40 || b == 41
}

/// The hexadecimal digit of a value, in capitals.
pub open spec fn hex_char(v: int) -> u8 {
    if v < 10 {
        (48 + v) as u8
    } else {
        (55 + v) as u8
    }
}

/// The percent-encoded form of ASCII text, as a browser makes it.
pub open spec fn percent_encoded(bytes: Seq<u8>) -> Seq<u8>
    decreases bytes.len(),
{
    if bytes.len() == 0 {
        Seq::empty()
    } else if unreserved(bytes[0]) {
        seq![bytes[0]] + percent_encoded(bytes.skip(1))
    } else {
        seq![37u8, hex_char(bytes[0] as int / 16), hex_char(bytes[0] as int % 16)]
            + percent_encoded(bytes.skip(1))
    }
}

/// A percent-encoded ASCII text is decoded to what it was.
pub proof fn law_encoded_text_is_decoded(bytes: Seq<u8>)
    requires
        forall|i: int| 0 <= i < bytes.len() ==> bytes[i] < 128,
    ensures
        url_decoded(percent_encoded(bytes)) == Some(
            Seq::new(bytes.len(), |i: int| bytes[i] as char),
        ),
        percent_encoded(bytes).len() > 0 ==> percent_encoded(bytes)[0] < 128,
    decreases bytes.len(),
{
    let e = percent_encoded(bytes);
    let want = Seq::new(bytes.len(), |i: int| bytes[i] as char);
    if bytes.len() == 0 {
        assert(want =~= Seq::empty());
    } else {
        let rest = bytes.skip(1);
        law_encoded_text_is_decoded(rest);
        let tail = percent_encoded(rest);
        let want_rest = Seq::new(rest.len(), |i: int| rest[i] as char);
        assert(want =~= seq![bytes[0] as char] + want_rest);
        if unreserved(bytes[0]) {
            assert(e.skip(1) =~= tail);
        } else {
            assert(e.skip(3) =~= tail);
            let v = bytes[0] as int;
            assert(hex_pair(e[1], e[2]) == Some(v));
            if e.len() > 3 {
                assert(e[3] == tail[0]);
            }
        }
    }
}

/// Whether a header, in capital or small letters, has that name and that value, but
/// for the whitespace around the value.
pub open spec fn header_is(header: Seq<char>, name: Seq<char>, value: Seq<char>) -> bool {
    exists|n: Seq<char>, v: Seq<char>|
        #![trigger n + seq![':'] + v]
        header == n + seq![':'] + v && ascii_lower(n) == name && trim(v) == value
}

/// Whether some header has that name and that value.
pub open spec fn sends(headers: Seq<Seq<char>>, name: Seq<char>, value: Seq<char>) -> bool {
    exists|i: int| 0 <= i < headers.len() && header_is(#[trigger] headers[i], name, value)
}

/// Where a password is set, a request may use the interface if and only if it
/// carries that very password: as a bearer token, in a header of its own, or in
/// the target. Where none is set, every request may.
pub proof fn law_only_the_password_admits(
    web: WebView,
    headers: Seq<Seq<char>>,
    target: Seq<char>,
    password: Seq<char>,
)
    requires
        web.password == Some(password),
        password.len() > 0,
    ensures
        admitted(web, headers, target) == Some(true) <==> {
            ||| sends(headers, "authorization"@, "Bearer "@ + password)
            ||| sends(headers, "x-pym2-password"@, password)
            ||| param(parts_of(target).1, "password"@) == ParamView::Value(password)
        },
        forall|open: WebView|
            open.password is None ==> #[trigger] admitted(open, headers, target) == Some(true),
{
    assert forall|i: int| 0 <= i < headers.len() implies (carries(#[trigger] headers[i], password)
        <==> header_is(headers[i], "authorization"@, "Bearer "@ + password) || header_is(
        headers[i],
        "x-pym2-password"@,
        password,
    )) by {
        lemma_carries(headers[i], password);
    }
    if some_carries(headers, password) {
        let i = choose|i: int| 0 <= i < headers.len() && carries(#[trigger] headers[i], password);
        assert(carries(headers[i], password));
    }
    if sends(headers, "authorization"@, "Bearer "@ + password) {
        let i = choose|i: int|
            0 <= i < headers.len() && header_is(
                #[trigger] headers[i],
                "authorization"@,
                "Bearer "@ + password,
            );
        assert(carries(headers[i], password));
    }
    if sends(headers, "x-pym2-password"@, password) {
        let i = choose|i: int|
            0 <= i < headers.len() && header_is(
                #[trigger] headers[i],
                "x-pym2-password"@,
                password,
            );
        assert(carries(headers[i], password));
    }
}

proof fn lemma_carries(header: Seq<char>, password: Seq<char>)
    ensures
        carries(header, password) <==> header_is(
            header,
            "authorization"@,
            "Bearer "@ + password,
        ) || header_is(header, "x-pym2-password"@, password),
{
    reveal_strlit("authorization");
    reveal_strlit("authorization:");
    reveal_strlit("x-pym2-password");
    reveal_strlit("x-pym2-password:");
    assert("authorization:"@ =~= "authorization"@ + seq![':']);
    assert("x-pym2-password:"@ =~= "x-pym2-password"@ + seq![':']);
    lemma_named(header, "authorization"@, "Bearer "@ + password);
    lemma_named(header, "x-pym2-password"@, password);
}

proof fn lemma_named(header: Seq<char>, name: Seq<char>, value: Seq<char>)
    requires
        forall|i: int| 0 <= i < name.len() ==> name[i] != ':',
    ensures
        header_is(header, name, value) <==> (cut(header, ':') matches Some((_, v)) && starts_with(
            ascii_lower(header),
            name + seq![':'],
        ) && trim(v) == value),
{
    let low = ascii_lower(header);
    let n = name.len() as int;
    if header_is(header, name, value) {
        let (a, v) = choose|a: Seq<char>, v: Seq<char>|
            #![trigger a + seq![':'] + v]
            header == a + seq![':'] + v && ascii_lower(a) == name && trim(v) == value;
        assert forall|i: int| 0 <= i < a.len() implies a[i] != ':' by {
            assert(ascii_lower(a)[i] == name[i]);
        }
        crate::text::law_cut_at_the_first(a, ':', v);
        assert(low.take(n + 1) =~= name + seq![':']);
    }
    if cut(header, ':') is Some && starts_with(low, name + seq![':']) {
        assert(low.take(n + 1) == name + seq![':']);
        assert forall|i: int| 0 <= i < n implies #[trigger] header[i] != ':' by {
            assert(low.take(n + 1)[i] == (name + seq![':'])[i]);
        }
        assert(low.take(n + 1)[n] == (name + seq![':'])[n]);
        assert(low[n] == ':');
        assert(header[n] == ':');
        crate::text::lemma_find_is(header, ':', n);
        let v = header.skip(n + 1);
        let a = header.take(n);
        assert(header =~= a + seq![':'] + v);
        assert(ascii_lower(a) =~= name) by {
            assert forall|i: int| 0 <= i < n implies #[trigger] ascii_lower(a)[i] == name[i] by {
                assert(low.take(n + 1)[i] == (name + seq![':'])[i]);
            }
        }
        if trim(v) == value {
            assert(header_is(header, name, value));
        }
    }
}

/// What the interface offers: a page, the list of apps, an app, its logs, and to
/// start, stop and restart it, the last three by `POST` alone. Anything else is
/// not found, and an app has to be named.
pub proof fn law_what_is_offered(
    method: Seq<char>,
    path: Seq<char>,
    query: Seq<char>,
    name: Seq<char>,
)
    ensures
        served("GET"@, "/"@, query) == WebPlanView::Page,
        served("GET"@, "/api/apps"@, query) == WebPlanView::Ask(RequestView::ListApps),
        param(query, "name"@) == ParamView::Value(name) ==> {
            &&& served("GET"@, "/api/app"@, query) == WebPlanView::Ask(RequestView::GetApp(name))
            &&& served("POST"@, "/api/start"@, query) == WebPlanView::Ask(
                RequestView::Start(name),
            )
            &&& served("POST"@, "/api/stop"@, query) == WebPlanView::Ask(RequestView::Stop(name))
            &&& served("POST"@, "/api/restart"@, query) == WebPlanView::Ask(
                RequestView::Restart(name),
            )
            &&& param(query, "tail"@) is Missing ==> served("GET"@, "/api/logs"@, query)
                == WebPlanView::Ask(RequestView::TailLogs(name, 200, LogSource::Both))
            &&& forall|n: nat|
                n <= usize::MAX && param(query, "tail"@) == ParamView::Value(#[trigger] decimal(n))
                    ==> served("GET"@, "/api/logs"@, query) == WebPlanView::Ask(
                    RequestView::TailLogs(name, n as usize, LogSource::Both),
                )
        },
        param(query, "name"@) is Missing ==> served("POST"@, "/api/stop"@, query)
            == WebPlanView::Reply(err_reply("missing query parameter 'name'"@)),
        method != "GET"@ && method != "POST"@ ==> (served(method, path, query) matches
            WebPlanView::Fixed { code, .. } && code == 404),
        method == "GET"@ ==> (served(method, path, query) matches WebPlanView::Ask(req) ==> !(
        req is Start || req is Stop || req is Restart)),
        method == "POST"@ ==> (served(method, path, query) matches WebPlanView::Ask(req)
            ==> req is Start || req is Stop || req is Restart),
{
    reveal_strlit("/");
    reveal_strlit("/api/apps");
    reveal_strlit("/api/app");
    reveal_strlit("/api/start");
    reveal_strlit("/api/stop");
    reveal_strlit("/api/restart");
    reveal_strlit("/api/logs");
    reveal_strlit("GET");
    reveal_strlit("POST");
    assert("/api/start"@.len() == 10);
    assert("/api/restart"@.len() == 12);
    assert("/api/app"@.len() == 8);
    assert("/api/stop"@.len() == 9 && "/api/logs"@.len() == 9 && "/api/apps"@.len() == 9);
    assert("/"@.len() == 1 && "GET"@.len() == 3 && "POST"@.len() == 4);
    assert("/api/stop"@[5] != "/api/apps"@[5]);
    assert("/api/logs"@[5] != "/api/apps"@[5]);
    assert("/api/logs"@[5] != "/api/stop"@[5]);
    assert forall|n: nat| n <= usize::MAX implies parse_number(
        #[trigger] decimal(n),
        usize::MAX as int,
    ) == Some(n as int) by {
        crate::text::law_written_numbers_are_read(n, usize::MAX as int);
    }
}

/// The first line of a request names the method and the target; the lines behind
/// it, up to a blank one, are its headers.
pub proof fn law_requests_are_read(
    method: Seq<char>,
    target: Seq<char>,
    version: Seq<char>,
    rest: Seq<char>,
)
    requires
        method.len() > 0 && target.len() > 0 && version.len() > 0,
        forall|i: int| 0 <= i < method.len() ==> !crate::text::is_whitespace(#[trigger] method[i]),
        forall|i: int| 0 <= i < target.len() ==> !crate::text::is_whitespace(#[trigger] target[i]),
        forall|i: int|
            0 <= i < version.len() ==> !crate::text::is_whitespace(#[trigger] version[i]),
    ensures
        ({
            let line = method + seq![' '] + (target + seq![' '] + version);
            let req = request_in(line + seq!['\r', '\n'] + rest);
            &&& req.method == method
            &&& req.target == target
            &&& req.headers == until_blank(line_seq(rest))
        }),
{
    let tail = target + seq![' '] + version;
    let line = method + seq![' '] + tail;
    crate::text::law_words_stand_between_whitespace(method, ' ', tail);
    crate::text::law_words_stand_between_whitespace(target, ' ', version);
    crate::text::law_words_stand_between_whitespace(version, ' ', version);
    assert forall|i: int| 0 <= i < line.len() implies line[i] != '\n' by {
        if i < method.len() {
            assert(line[i] == method[i]);
        } else if i > method.len() {
            let k = i - method.len() - 1;
            assert(line[i] == tail[k]);
            if k < target.len() {
                assert(tail[k] == target[k]);
            } else if k > target.len() {
                assert(tail[k] == version[k - target.len() - 1]);
            }
        }
    }
    assert(line.last() == version.last());
    assert(!crate::text::is_whitespace(version[version.len() - 1]));
    crate::text::law_lines_end_at_line_feeds(line, rest);
    let lines = line_seq(line + seq!['\r', '\n'] + rest);
    assert(lines[0] == line);
    assert(lines.skip(1) =~= line_seq(rest));
}

/// The headers end at the first blank line.
pub proof fn law_headers_end_at_a_blank_line(header: Seq<char>, rest: Seq<Seq<char>>)
    ensures
        trim(header).len() > 0 ==> until_blank(seq![header] + rest) == seq![header]
            + until_blank(rest),
        trim(header).len() == 0 ==> until_blank(seq![header] + rest).len() == 0,
        until_blank(Seq::empty()).len() == 0,
{
    assert((seq![header] + rest).skip(1) =~= rest);
}

/// A target is a path and, behind a question mark, a query; a query is made of
/// parts with an ampersand between them, each a name and a value.
pub proof fn law_targets_are_taken_apart(
    path: Seq<char>,
    query: Seq<char>,
    key: Seq<char>,
    value: Seq<char>,
    other: Seq<char>,
)
    requires
        forall|i: int| 0 <= i < path.len() ==> path[i] != '?',
        forall|i: int| 0 <= i < key.len() ==> key[i] != '=' && key[i] != '&',
        forall|i: int| 0 <= i < value.len() ==> value[i] != '&',
    ensures
        parts_of(path + seq!['?'] + query) == (path, query),
        parts_of(path).0 == path && parts_of(path).1.len() == 0,
        url_decoded(encode_utf8(value)) matches Some(text) ==> param(
            key + seq!['='] + value,
            key,
        ) == ParamView::Value(text) && param(key + seq!['='] + value + seq!['&'] + query, key)
            == ParamView::Value(text),
        other != key ==> param(key + seq!['='] + value + seq!['&'] + query, other) == param(
            query,
            other,
        ),
        other != key ==> param(key + seq!['='] + value, other) is Missing,
{
    reveal_strlit("");
    crate::text::law_cut_at_the_first(path, '?', query);
    let p = key + seq!['='] + value;
    assert forall|i: int| 0 <= i < p.len() implies p[i] != '&' by {
        if i < key.len() {
            assert(p[i] == key[i]);
        } else if i > key.len() {
            assert(p[i] == value[i - key.len() - 1]);
        }
    }
    crate::text::law_cut_at_the_first(p, '&', query);
    crate::text::law_cut_at_the_first(key, '=', value);
    let one = split_seq(p, '&');
    let two = split_seq(p + seq!['&'] + query, '&');
    assert(one[0] == p && one.skip(1).len() == 0);
    assert(two[0] == p);
    assert(two.skip(1) =~= split_seq(query, '&'));
    assert(param_in(one.skip(1), other) is Missing);
}

/// An answer begins with its status, says what it is and how many bytes follow the
/// head, and ends with the body.
pub proof fn law_answers_are_framed(code: u16, content_type: Seq<char>, body: Seq<char>)
    ensures
        ({
            let a = answer(code, content_type, body);
            &&& a.take(9 + status_line(code).len() as int) == "HTTP/1.1 "@ + status_line(code)
            &&& a.skip(a.len() - body.len()) == body
            &&& crate::text::has_infix(
                a,
                "\r\nContent-Length: "@ + decimal(encode_utf8(body).len())
                    + "\r\nConnection: close\r\n\r\n"@,
            )
            &&& crate::text::has_infix(
                a,
                "\r\nContent-Type: "@ + content_type + "\r\nContent-Length: "@,
            )
        }),
        status_line(200) == "200 OK"@,
        status_line(400) == "400 Bad Request"@,
        status_line(401) == "401 Unauthorized"@,
        status_line(404) == "404 Not Found"@,
        code != 200 && code != 400 && code != 401 && code != 404 ==> status_line(code)
            == "500 Internal Server Error"@,
{
    reveal_strlit("HTTP/1.1 ");
    lemma_answer_parts(
        "HTTP/1.1 "@,
        status_line(code),
        "\r\nContent-Type: "@,
        content_type,
        "\r\nContent-Length: "@,
        decimal(encode_utf8(body).len()),
        "\r\nConnection: close\r\n\r\n"@,
        body,
    );
}

proof fn lemma_answer_parts(
    h: Seq<char>,
    status: Seq<char>,
    t: Seq<char>,
    content_type: Seq<char>,
    l: Seq<char>,
    length: Seq<char>,
    c: Seq<char>,
    body: Seq<char>,
)
    requires
        h.len() == 9,
    ensures
        ({
            let a = h + status + t + content_type + (l + length + c + body);
            &&& a.take(9 + status.len() as int) == h + status
            &&& a.skip(a.len() - body.len()) == body
            &&& crate::text::has_infix(a, l + length + c)
            &&& crate::text::has_infix(a, t + content_type + l)
        }),
{
    let a = h + status + t + content_type + (l + length + c + body);
    assert(a.take(9 + status.len() as int) =~= h + status);
    assert(a.skip(a.len() - body.len()) =~= body);
    assert(a =~= (h + status + t + content_type) + (l + length + c) + body);
    crate::text::lemma_infix(h + status + t + content_type, l + length + c, body);
    let rest = length + c + body;
    assert(a =~= (h + status) + (t + content_type + l) + rest);
    crate::text::lemma_infix(h + status, t + content_type + l, rest);
}

/// Every request that may use the interface gets what it asks for, and the page is
/// for everyone.
pub proof fn law_who_may_is_served(web: WebView, req: HttpView)
    ensures
        admitted(web, req.headers, req.target) == Some(true) ==> web_plan(web, req) == served(
            req.method,
            parts_of(req.target).0,
            parts_of(req.target).1,
        ),
        req.method == "GET"@ && req.target == "/"@ ==> web_plan(web, req) == WebPlanView::Page,
{
    reveal_strlit("/");
    reveal_strlit("/api/");
    if req.target == "/"@ {
        crate::text::lemma_find_is("/"@, '?', 1);
        assert("/"@.len() < "/api/"@.len());
    }
}

/// The digits of hexadecimal numbers, in capital or small letters, and what stands
/// for what in an encoded text: a plus sign for a space, a percent sign with two
/// digits for that character, and a percent sign without for itself.
pub proof fn law_encoded_characters(b: u8, x: u8, y: u8, rest: Seq<u8>)
    requires
        rest.len() > 0 ==> rest[0] < 128,
        b < 128,
    ensures
        '0' as u8 <= b <= '9' as u8 ==> hex_digit(b) == Some(b - '0' as u8),
        'a' as u8 <= b <= 'f' as u8 ==> hex_digit(b) == Some(b - 'a' as u8 + 10),
        'A' as u8 <= b <= 'F' as u8 ==> hex_digit(b) == Some(b - 'A' as u8 + 10),
        !('0' as u8 <= b <= '9' as u8 || 'a' as u8 <= b <= 'f' as u8 || 'A' as u8 <= b
            <= 'F' as u8) ==> hex_digit(b) is None,
        url_decoded(seq!['+' as u8] + rest) == prefixed(' ', url_decoded(rest)),
        hex_digit(x) is Some && hex_digit(y) is Some ==> url_decoded(
            seq!['%' as u8, x, y] + rest,
        ) == prefixed((16 * hex_digit(x)->0 + hex_digit(y)->0) as char, url_decoded(rest)),
        hex_digit(y) is None ==> url_decoded(seq!['%' as u8, x, y] + rest) == prefixed(
            '%',
            url_decoded(seq![x, y] + rest),
        ),
        b != '+' as u8 && b != '%' as u8 ==> url_decoded(seq![b] + rest) == prefixed(
            b as char,
            url_decoded(rest),
        ),
{
    assert((seq!['+' as u8] + rest).skip(1) =~= rest);
    assert((seq![b] + rest).skip(1) =~= rest);
    let e = seq!['%' as u8, x, y] + rest;
    assert(e.skip(3) =~= rest);
    assert(e.skip(1) =~= seq![x, y] + rest);
    if rest.len() > 0 {
        assert(e[3] == rest[0]);
    }
}

/// Without a password, or with an empty one, everyone may use the interface.
pub proof fn law_no_password_admits_everyone(
    web: WebView,
    headers: Seq<Seq<char>>,
    target: Seq<char>,
)
    requires
        web.password is None || web.password->0.len() == 0,
    ensures
        admitted(web, headers, target) == Some(true),
{
}

/// A part of the query that assigns nothing ends the search for a parameter.
pub proof fn law_parameters_are_assigned(part: Seq<char>, query: Seq<char>, key: Seq<char>)
    requires
        forall|i: int| 0 <= i < part.len() ==> part[i] != '=' && part[i] != '&',
    ensures
        param(part, key) is Missing,
        param(part + seq!['&'] + query, key) is Missing,
{
    crate::text::law_cut_at_the_first(part, '&', query);
    crate::text::law_cut_at_the_first(part, '=', query);
    assert(split_seq(part, '&')[0] == part);
    assert(split_seq(part + seq!['&'] + query, '&')[0] == part);
}

/// Where a request names no target, it is for the page.
pub proof fn law_short_requests(method: Seq<char>)
    requires
        method.len() > 0,
        forall|i: int| 0 <= i < method.len() ==> !crate::text::is_whitespace(#[trigger] method[i]),
    ensures
        request_in(method).method == method,
        request_in(method).target == "/"@,
        request_in(method).headers.len() == 0,
        request_in(Seq::empty()).method.len() == 0,
        request_in(Seq::empty()).target == "/"@,
        request_in(Seq::empty()).headers.len() == 0,
{
    reveal_strlit("");
    crate::text::law_words_stand_between_whitespace(method, ' ', method);
    assert forall|i: int| 0 <= i < method.len() implies method[i] != '\n' by {}
    crate::text::lemma_find_is(method, '\n', method.len() as int);
    assert(line_seq(method) =~= seq![method]);
    assert(line_seq(method).skip(1).len() == 0);
}

/// What cannot be made out: a number of lines that is none counts as not given, and
/// a request with a parameter that cannot be decoded is dropped.
pub proof fn law_unreadable_parameters(query: Seq<char>, name: Seq<char>, tail: Seq<char>)
    requires
        tail.len() > 0,
        tail[0] != '+' && !('0' <= tail[0] <= '9'),
    ensures
        param(query, "name"@) == ParamView::Value(name) && param(query, "tail"@)
            == ParamView::Value(tail) ==> served("GET"@, "/api/logs"@, query) == WebPlanView::Ask(
            RequestView::TailLogs(name, 200, LogSource::Both),
        ),
        param(query, "name"@) is Undecodable ==> {
            &&& served("GET"@, "/api/app"@, query) == WebPlanView::Abort
            &&& served("GET"@, "/api/logs"@, query) == WebPlanView::Abort
            &&& served("POST"@, "/api/start"@, query) == WebPlanView::Abort
            &&& served("POST"@, "/api/stop"@, query) == WebPlanView::Abort
            &&& served("POST"@, "/api/restart"@, query) == WebPlanView::Abort
        },
        param(query, "name"@) is Value && param(query, "tail"@) is Undecodable ==> served(
            "GET"@,
            "/api/logs"@,
            query,
        ) == WebPlanView::Abort,
{
    law_what_is_offered("GET"@, "/api/logs"@, query, name);
    reveal_strlit("/");
    reveal_strlit("/api/apps");
    reveal_strlit("/api/app");
    reveal_strlit("/api/start");
    reveal_strlit("/api/stop");
    reveal_strlit("/api/restart");
    reveal_strlit("/api/logs");
    reveal_strlit("GET");
    reveal_strlit("POST");
    assert("/api/start"@.len() == 10);
    assert("/api/restart"@.len() == 12);
    assert("/api/app"@.len() == 8);
    assert("/api/stop"@.len() == 9 && "/api/logs"@.len() == 9 && "/api/apps"@.len() == 9);
    assert("/"@.len() == 1 && "GET"@.len() == 3 && "POST"@.len() == 4);
    assert("/api/stop"@[5] != "/api/apps"@[5]);
    assert("/api/logs"@[5] != "/api/apps"@[5]);
    assert("/api/logs"@[5] != "/api/stop"@[5]);
    assert(!crate::text::is_digit(tail[0]));
}

/// A request whose password cannot be decoded is dropped, unless a header has it.
pub proof fn law_undecodable_passwords(web: WebView, req: HttpView, password: Seq<char>)
    requires
        web.password == Some(password),
        password.len() > 0,
        param(parts_of(req.target).1, "password"@) is Undecodable,
        starts_with(parts_of(req.target).0, "/api/"@),
        !sends(req.headers, "authorization"@, "Bearer "@ + password),
        !sends(req.headers, "x-pym2-password"@, password),
    ensures
        web_plan(web, req) == WebPlanView::Abort,
{
    law_only_the_password_admits(web, req.headers, req.target, password);
}

/// Where the characters behind a percent sign do not end where its digits do, the
/// text cannot be decoded; a plus sign may stand for the first digit.
pub proof fn law_unusual_encodings(x: u8, y: u8, c: u8, rest: Seq<u8>)
    requires
        hex_digit(y) is Some,
    ensures
        0x80 <= c < 0xc0 ==> url_decoded(seq!['%' as u8, x, y, c] + rest) is None,
        c < 0x80 ==> url_decoded(seq!['%' as u8, '+' as u8, y, c] + rest) == prefixed(
            hex_digit(y)->0 as char,
            url_decoded(seq![c] + rest),
        ),
{
    let e = seq!['%' as u8, x, y, c] + rest;
    assert(e[3] == c);
    assert(0x80 <= c < 0xc0 ==> is_continuation_byte(c));
    assert(c < 0x80 ==> !is_continuation_byte(c));
    let p = seq!['%' as u8, '+' as u8, y, c] + rest;
    assert(p[3] == c);
    assert(p.skip(3) =~= seq![c] + rest);
}

} // verus!
