use tide_tracing_middleware::{
    compile, header_value, render, BodyLog, ConfigError, FormatText, HeaderEntry, RequestInfo,
    ResponseInfo, TextKind, Timestamp, TracingMiddleware,
};

type Middleware = TracingMiddleware<fn(&RequestInfo) -> String, fn(&ResponseInfo) -> String, fn()>;

fn header(name: &str, values: &[&str]) -> HeaderEntry {
    HeaderEntry {
        name: name.to_string(),
        values: values.iter().map(|v| v.to_string()).collect(),
    }
}

fn started() -> Timestamp {
    Timestamp { year: 2021, month: 3, day: 7, hour: 9, minute: 5, second: 42 }
}

fn request(method: &str, path: &str, query: Option<&str>, headers: Vec<HeaderEntry>) -> RequestInfo {
    RequestInfo {
        method: method.to_string(),
        path: path.to_string(),
        query: query.map(|q| q.to_string()),
        version: None,
        headers,
        peer_addr: None,
        remote: None,
        started: started(),
    }
}

fn response(status: u16, headers: Vec<HeaderEntry>) -> ResponseInfo {
    ResponseInfo { status, headers }
}

/// Runs both phases and finishes the body after the given reads.
fn line_for(
    mw: &Middleware,
    req: &RequestInfo,
    resp: &ResponseInfo,
    reads: &[Option<usize>],
    elapsed_nanos: i64,
) -> String {
    let req_outs: Vec<String> = mw.request_fns().iter().map(|f| f(req)).collect();
    let after_req = mw.resolve_request(req, &req_outs);
    let resp_outs: Vec<String> = mw.response_fns().iter().map(|f| f(resp)).collect();
    let after_resp = mw.resolve_response(&after_req, resp, &resp_outs);
    let mut body = BodyLog::new(after_resp, 1_000);
    for r in reads {
        body.record_read(*r);
    }
    let env: Vec<Option<String>> = body.env_names().iter().map(|_| None).collect();
    body.finish(1_000 + elapsed_nanos, &env).unwrap()
}

fn kinds(ts: &[FormatText]) -> Vec<TextKind> {
    ts.iter().map(|t| t.kind).collect()
}

#[test]
fn default_format_line() {
    let mw = Middleware::default();
    let req = request("GET", "/index", None, vec![header("user-agent", &["test"])]);
    let resp = response(200, vec![]);
    let line = line_for(&mw, &req, &resp, &[Some(12)], 0);
    assert_eq!(line, "- \"GET /index ?\" 200 12 \"-\" \"test\" 0.000000");
}

#[test]
fn elapsed_seconds_and_millis() {
    let mw = Middleware::new("%T|%D");
    let req = request("GET", "/", None, vec![]);
    let resp = response(200, vec![]);
    assert_eq!(line_for(&mw, &req, &resp, &[], 1_234_567_890), "1.234568|1234.567890");
    assert_eq!(line_for(&mw, &req, &resp, &[], 0), "0.000000|0.000000");
    assert_eq!(line_for(&mw, &req, &resp, &[], -5), "0.000000|0.000000");
}

fn all_headers(req: &RequestInfo) -> String {
    req.headers
        .iter()
        .map(|h| format!("{}={}", h.name, h.values.join(",")))
        .collect::<Vec<_>>()
        .join(";")
}

#[test]
fn custom_request_field() {
    let mw = Middleware::new("[%{ALL_REQ_HEADERS}xi]")
        .custom_request_replace("ALL_REQ_HEADERS", all_headers as fn(&RequestInfo) -> String);
    let req = request("GET", "/", None, vec![header("a", &["1", "2"]), header("b", &[])]);
    let resp = response(200, vec![]);
    assert_eq!(line_for(&mw, &req, &resp, &[], 0), "[a=1,2;b=]");
}

fn yes(_: &RequestInfo) -> String {
    "yes".to_string()
}

fn no(_: &RequestInfo) -> String {
    "no".to_string()
}

fn status_class(resp: &ResponseInfo) -> String {
    format!("{}xx", resp.status / 100)
}

#[test]
fn custom_fields_rebinding_and_unbound() {
    let mw = Middleware::new("%{A}xi %{B}xi %{C}xo %{A}xi")
        .custom_request_replace("A", no as fn(&RequestInfo) -> String)
        .custom_request_replace("A", yes as fn(&RequestInfo) -> String)
        .custom_request_replace("MISSING", no as fn(&RequestInfo) -> String)
        .custom_response_replace("C", status_class as fn(&ResponseInfo) -> String);
    assert_eq!(mw.request_fns().len(), 1);
    let req = request("GET", "/", None, vec![]);
    let resp = response(404, vec![]);
    assert_eq!(line_for(&mw, &req, &resp, &[], 0), "yes - 4xx -");
}

#[test]
fn unknown_directive_is_literal() {
    let mw = Middleware::new("a %Z b %");
    let req = request("GET", "/", None, vec![]);
    let resp = response(200, vec![]);
    assert_eq!(line_for(&mw, &req, &resp, &[], 0), "a %Z b %");
    let ts = compile("a %Z b %");
    assert_eq!(ts.len(), 1);
    assert_eq!(ts[0].kind, TextKind::Literal);
}

#[test]
fn malformed_braced_directives_are_literal() {
    let mw = Middleware::new("%{foo}a %{}i %{x y}i %{abc");
    let req = request("GET", "/", None, vec![]);
    let resp = response(200, vec![]);
    assert_eq!(line_for(&mw, &req, &resp, &[], 0), "%{foo}a %{}i %{x y}i %{abc");
}

#[test]
fn compile_keeps_order_and_literal_runs() {
    let ts = compile("x%a-%{r}a%%%{Host}i%{E}e%{L}xo!");
    assert_eq!(
        kinds(&ts),
        vec![
            TextKind::Literal,
            TextKind::RemoteAddr,
            TextKind::Literal,
            TextKind::RealRemoteAddr,
            TextKind::Percent,
            TextKind::RequestHeader,
            TextKind::EnvVar,
            TextKind::CustomResponse,
            TextKind::Literal,
        ]
    );
    assert_eq!(ts[0].arg, "x");
    assert_eq!(ts[2].arg, "-");
    assert_eq!(ts[5].arg, "host");
    assert_eq!(ts[6].arg, "E");
    assert_eq!(ts[7].arg, "L");
    assert_eq!(ts[8].arg, "!");
    assert!(compile("").is_empty());
}

#[test]
fn request_fields() {
    let mw = Middleware::new("%r|%M|%U|%Q|%V|%a|%{r}a|%t|%%");
    let mut req = request("POST", "/p", Some("x=1"), vec![]);
    req.version = Some("HTTP/1.1".to_string());
    req.peer_addr = Some("10.0.0.1:4000".to_string());
    req.remote = Some("192.0.2.7".to_string());
    let resp = response(201, vec![]);
    assert_eq!(
        line_for(&mw, &req, &resp, &[], 0),
        "POST /p?x=1 HTTP/1.1|POST|/p|x=1|HTTP/1.1|10.0.0.1:4000|192.0.2.7|2021-03-07T09:05:42|%"
    );
    let bare = request("GET", "/", None, vec![]);
    assert_eq!(line_for(&mw, &bare, &resp, &[], 0), "GET / ?|GET|/|-|?|-|-|2021-03-07T09:05:42|%");
}

#[test]
fn header_lookups() {
    let hs = vec![header("x-a", &[]), header("x-b", &["first", "second"])];
    assert_eq!(header_value(&hs, &"x-missing".to_string()), "-");
    assert_eq!(header_value(&hs, &"x-a".to_string()), "_");
    assert_eq!(header_value(&hs, &"x-b".to_string()), "first");
    assert_eq!(header_value(&vec![], &"x-b".to_string()), "-");
}

#[test]
fn request_and_response_headers_in_line() {
    let mw = Middleware::new("%{X-A}i %{x-b}i %{X-C}i %{Content-Type}o %{Empty}o %{Gone}o");
    let req = request("GET", "/", None, vec![header("x-a", &[]), header("x-b", &["v"])]);
    let resp = response(200, vec![header("content-type", &["text/plain"]), header("empty", &[])]);
    assert_eq!(line_for(&mw, &req, &resp, &[], 0), "_ v - text/plain _ -");
}

#[test]
fn request_phase_twice_equals_once() {
    let mw = Middleware::new("%r %s %{A}i %b %T");
    let req = request("GET", "/i", Some("q"), vec![header("a", &["1"])]);
    let once = mw.resolve_request(&req, &vec![]);
    let twice = tide_tracing_middleware::resolve_request(&once, &req, &vec![]);
    let env = vec![None; once.len()];
    assert_eq!(render(&once, 3, 0, &env), render(&twice, 3, 0, &env));
    assert_eq!(kinds(&once), kinds(&twice));
}

#[test]
fn byte_count_is_sum_of_successful_reads() {
    let mw = Middleware::new("%b");
    let req = request("GET", "/", None, vec![]);
    let resp = response(200, vec![]);
    let reads = [Some(5), None, Some(0), Some(7), None, None, Some(100)];
    assert_eq!(line_for(&mw, &req, &resp, &reads, 0), "112");
}

#[test]
fn byte_count_saturates() {
    let mut body = BodyLog::new(compile("%b"), 0);
    body.record_read(Some(usize::MAX));
    body.record_read(Some(usize::MAX));
    assert_eq!(body.bytes(), u64::MAX);
}

#[test]
fn partial_read_then_abandon_logs_once() {
    let mut body = BodyLog::new(compile("%b"), 0);
    body.record_read(Some(4));
    body.record_read(None);
    assert!(!body.is_finished());
    assert_eq!(body.finish(10, &vec![None]), Some("4".to_string()));
    assert!(body.is_finished());
    assert_eq!(body.finish(20, &vec![None]), None);
}

#[test]
fn double_dispose_emits_once() {
    let mut body = BodyLog::new(compile("%s %b"), 0);
    assert_eq!(body.finish(0, &vec![None, None, None]), Some(" 0".to_string()));
    assert_eq!(body.finish(0, &vec![None, None, None]), None);
    assert_eq!(body.finish(5, &vec![]), None);
}

#[test]
fn environment_values_at_the_end() {
    let mut body = BodyLog::new(compile("%{HOME}e|%{NOPE}e"), 0);
    let names = body.env_names();
    assert_eq!(names, vec![Some("HOME".to_string()), None, Some("NOPE".to_string())]);
    let env = vec![Some("/root".to_string()), None, None];
    assert_eq!(body.finish(0, &env), Some("/root|-".to_string()));
}

#[test]
fn exclusion_exact_and_pattern() {
    let mw = Middleware::new("%r")
        .exclude("/health")
        .exclude("/health")
        .exclude_regex("^/static/")
        .unwrap()
        .exclude_regex(r"\.png$")
        .unwrap();
    assert!(mw.is_excluded("/health"));
    assert!(!mw.is_excluded("/health/x"));
    assert!(mw.is_excluded("/static/app.js"));
    assert!(mw.is_excluded("/img/a.png"));
    assert!(!mw.is_excluded("/index"));
    assert!(!Middleware::new("%r").is_excluded("/"));
}

#[test]
fn invalid_exclusion_pattern_is_an_error() {
    let r = Middleware::new("%r").exclude_regex("(");
    assert!(matches!(r, Err(ConfigError::InvalidPattern)));
}

#[test]
fn timestamp_is_zero_padded() {
    let t = Timestamp { year: 987, month: 1, day: 2, hour: 0, minute: 0, second: 9 };
    assert_eq!(tide_tracing_middleware::timestamp_string(t), "0987-01-02T00:00:09");
}
