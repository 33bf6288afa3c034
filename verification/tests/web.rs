use pym2::model::{IpcRequest, LogSource, WebConfig};
use pym2::web::{
    authorized, can_decode, find_param, handle_connection, parse_request, plan_request,
    query_param, split_target, url_decode, write_json_response, write_response, HttpRequest,
    Param, WebPlan,
};

fn open() -> WebConfig {
    WebConfig::default()
}

fn guarded() -> WebConfig {
    WebConfig {
        password: Some("secret".to_string()),
        ..WebConfig::default()
    }
}

fn req(method: &str, target: &str, headers: &[&str]) -> HttpRequest {
    HttpRequest {
        method: method.to_string(),
        target: target.to_string(),
        headers: headers.iter().map(|h| h.to_string()).collect(),
    }
}

#[test]
fn decoding() {
    assert_eq!(url_decode("a+b%20c%2Bd"), "a b c+d");
    assert_eq!(url_decode("plain-name_1.x"), "plain-name_1.x");
    assert_eq!(url_decode("100%"), "100%");
    assert_eq!(url_decode("%zz%4"), "%zz%4");
    assert_eq!(url_decode("%+f"), "\u{f}");
    assert_eq!(url_decode("%e9"), "\u{e9}");
    assert_eq!(url_decode("\u{e9}"), "\u{c3}\u{a9}");
    assert_eq!(url_decode(""), "");
}

#[test]
fn what_cannot_be_decoded() {
    assert!(!can_decode("%a\u{e9}"));
    assert!(can_decode("%\u{e9}"));
    assert!(can_decode("%ab\u{e9}"));
    assert!(matches!(find_param("name=%a\u{e9}", "name"), Param::Undecodable));
}

#[test]
fn targets_and_parameters() {
    assert_eq!(
        split_target("/api/app?name=x?y"),
        ("/api/app".to_string(), "name=x?y".to_string())
    );
    assert_eq!(split_target("/"), ("/".to_string(), String::new()));
    assert_eq!(query_param("a=1&name=x%20y&name=z", "name").as_deref(), Some("x y"));
    assert_eq!(query_param("a=1", "name"), None);
    // Nothing behind a part without an equals sign is looked at.
    assert_eq!(query_param("flag&name=x", "name"), None);
    assert_eq!(query_param("", "name"), None);
}

#[test]
fn requests_are_read() {
    let r = parse_request("GET /api/apps?x=1 HTTP/1.1\r\nHost: a\r\nX: b\r\n\r\nbody: c\r\n");
    assert_eq!(r.method, "GET");
    assert_eq!(r.target, "/api/apps?x=1");
    assert_eq!(r.headers, vec!["Host: a", "X: b"]);
    let r = parse_request("");
    assert_eq!((r.method.as_str(), r.target.as_str()), ("", "/"));
    let r = parse_request("POST");
    assert_eq!((r.method.as_str(), r.target.as_str()), ("POST", "/"));
}

#[test]
fn passwords() {
    let ok = |headers: &[&str], target: &str| {
        let list: Vec<String> = headers.iter().map(|h| h.to_string()).collect();
        authorized(&guarded(), &list, target)
    };
    assert_eq!(authorized(&open(), &Vec::new(), "/api/apps"), Some(true));
    assert_eq!(ok(&[], "/api/apps"), Some(false));
    assert_eq!(ok(&["AUTHORIZATION:  Bearer secret "], "/api/apps"), Some(true));
    assert_eq!(ok(&["Authorization: secret"], "/api/apps"), Some(false));
    assert_eq!(ok(&["x-pym2-Password: secret"], "/api/apps"), Some(true));
    assert_eq!(ok(&["X-Other: secret"], "/api/apps"), Some(false));
    assert_eq!(ok(&[], "/api/apps?password=secret"), Some(true));
    assert_eq!(ok(&[], "/api/apps?password=wrong"), Some(false));
    assert_eq!(ok(&[], "/api/apps?password=%a\u{e9}"), None);
    let mut empty = guarded();
    empty.password = Some(String::new());
    assert_eq!(authorized(&empty, &Vec::new(), "/api/apps"), Some(true));
}

#[test]
fn nothing_is_done_without_the_password() {
    for target in ["/api/apps", "/api/start?name=api", "/api/none"] {
        match plan_request(&guarded(), &req("POST", target, &[])) {
            WebPlan::Fixed { code, body } => {
                assert_eq!((code, body.as_str()), (401, "{\"error\":\"unauthorized\"}"));
            }
            _ => panic!("guarded"),
        }
    }
    assert!(matches!(plan_request(&guarded(), &req("GET", "/", &[])), WebPlan::Page));
}

#[test]
fn endpoints() {
    let plan = |method: &str, target: &str| plan_request(&open(), &req(method, target, &[]));
    assert!(matches!(plan("GET", "/api/apps"), WebPlan::Ask(IpcRequest::ListApps)));
    assert!(matches!(
        plan("GET", "/api/app?name=a%26b"),
        WebPlan::Ask(IpcRequest::GetApp { name }) if name == "a&b"
    ));
    assert!(matches!(
        plan("POST", "/api/start?name=x"),
        WebPlan::Ask(IpcRequest::Start { name }) if name == "x"
    ));
    assert!(matches!(
        plan("POST", "/api/stop?name=x"),
        WebPlan::Ask(IpcRequest::Stop { .. })
    ));
    assert!(matches!(
        plan("POST", "/api/restart?name=x"),
        WebPlan::Ask(IpcRequest::Restart { .. })
    ));
    assert!(matches!(
        plan("GET", "/api/logs?name=x&tail=5"),
        WebPlan::Ask(IpcRequest::TailLogs { tail: 5, source: LogSource::Both, .. })
    ));
    assert!(matches!(
        plan("GET", "/api/logs?name=x&tail=many"),
        WebPlan::Ask(IpcRequest::TailLogs { tail: 200, .. })
    ));
    match plan("POST", "/api/start") {
        WebPlan::Reply(resp) => {
            assert_eq!(resp.error.as_deref(), Some("missing query parameter 'name'"));
        }
        _ => panic!("name"),
    }
    assert!(matches!(plan("GET", "/api/app?name=%a\u{e9}"), WebPlan::Abort));
    match plan("GET", "/api/start?name=x") {
        WebPlan::Fixed { code, body } => {
            assert_eq!((code, body.as_str()), (404, "{\"error\":\"not found\"}"));
        }
        _ => panic!("method"),
    }
}

#[test]
fn connections() {
    assert!(matches!(handle_connection(&open(), b""), WebPlan::Close));
    assert!(matches!(handle_connection(&open(), b"GET / HTTP/1.1\r\n\r\n"), WebPlan::Page));
    let plan = handle_connection(&guarded(), b"GET /api/apps HTTP/1.1\r\nX: \xff\r\n\r\n");
    assert!(matches!(plan, WebPlan::Fixed { code: 401, .. }));
    let plan = handle_connection(
        &guarded(),
        b"GET /api/apps HTTP/1.1\r\nX: \xff\r\nAuthorization: Bearer secret\r\n\r\n",
    );
    assert!(matches!(plan, WebPlan::Ask(IpcRequest::ListApps)));
    // A byte that is no text is replaced, by a character of three bytes.
    let plan = handle_connection(&open(), b"GET /api/app?name=\xff HTTP/1.1\r\n\r\n");
    assert!(matches!(
        plan,
        WebPlan::Ask(IpcRequest::GetApp { name }) if name == "\u{ef}\u{bf}\u{bd}"
    ));
}

#[test]
fn answers() {
    assert_eq!(
        write_response(404, "text/plain", "h\u{e9}"),
        "HTTP/1.1 404 Not Found\r\nContent-Type: text/plain\r\nContent-Length: 3\r\nConnection: close\r\n\r\nh\u{e9}"
    );
    assert!(write_response(418, "t", "").starts_with("HTTP/1.1 500 Internal Server Error\r\n"));
    assert!(write_response(401, "t", "").starts_with("HTTP/1.1 401 Unauthorized\r\n"));
    assert!(write_json_response(true, "{}").starts_with("HTTP/1.1 200 OK\r\nContent-Type: application/json\r\n"));
    assert!(write_json_response(false, "{}").starts_with("HTTP/1.1 400 Bad Request\r\n"));
}
