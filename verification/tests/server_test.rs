use katana::config::{Config, ConfigSource, DefaultConfig};
use katana::logger::LogLevel;
use katana::request::Request;
use katana::response::{FileMeta, Resolved, Response, SendAction};
use katana::server::Server;
use katana::templates::Templates;

fn config(host: &str, port: u16) -> Config {
    Config {
        display_help: false,
        source: ConfigSource::Default,
        host: host.to_string(),
        port,
        document_root: "public".to_string(),
        worker: 4,
        log_level: LogLevel::INFO,
    }
}

fn server() -> Server {
    Server::new(config("127.0.0.1", 8080), Templates::load())
}

fn response_for(line: &str, header_lines: Vec<String>) -> Response {
    let req = Request::from_lines(line, &header_lines).expect("valid request line");
    Response::new(req, Templates::load()).expect("fresh response")
}

fn served(line: &str, resolved: Resolved) -> Response {
    let mut resp = response_for(line, Vec::new());
    resp.serve("public", resolved);
    resp
}

fn css_file() -> Resolved {
    Resolved::File {
        path: "public/file.css".to_string(),
        meta: FileMeta { openable: true, size: 10, readable: true },
    }
}

/// `OPTIONS` on any path that resolved keeps its 200, has an empty body,
/// and its `Allow` header lists exactly the served methods.
#[test]
fn test_options_policy() {
    let mut resp = served("OPTIONS /file.css HTTP/1.1", css_file());
    server().method_handle(&mut resp);
    assert_eq!(resp.status_code.to_code(), 200);
    assert!(resp.body.is_empty());
    assert_eq!(
        resp.headers.get("Allow").unwrap(),
        "GET, HEAD, OPTIONS, TRACE"
    );
    assert_eq!(
        resp.headers.get("Access-Control-Allow-Origin").unwrap(),
        "*"
    );
    assert_eq!(
        resp.headers.get("Access-Control-Allow-Methods").unwrap(),
        "GET, HEAD, OPTIONS, TRACE"
    );
    assert!(resp.headers.contains("Date"));
}

/// `TRACE` on any path answers 200 with `message/http`, and the body
/// carries the echoed request's first line.
#[test]
fn test_trace_policy() {
    let mut resp = served("TRACE /whatever HTTP/1.1", Resolved::Missing);
    server().method_handle(&mut resp);
    assert_eq!(resp.status_code.to_code(), 200);
    assert_eq!(resp.headers.get("Content-Type").unwrap(), "message/http");
    let body = String::from_utf8(resp.body.clone()).unwrap();
    assert!(body.contains("TRACE /whatever HTTP/1.1"));
    assert_eq!(
        resp.headers.get("Content-Length").unwrap(),
        &resp.body.len().to_string()
    );
}

/// `POST` on an existing resource is refused: 405, `Allow` present, no
/// body — resource existence is irrelevant.
#[test]
fn test_post_policy() {
    let mut resp = served("POST /file.css HTTP/1.1", css_file());
    server().method_handle(&mut resp);
    assert_eq!(resp.status_code.to_code(), 405);
    assert!(resp.body.is_empty());
    assert_eq!(
        resp.headers.get("Allow").unwrap(),
        "GET, HEAD, OPTIONS, TRACE"
    );

    let mut resp = served("DELETE /missing HTTP/1.1", Resolved::Missing);
    server().method_handle(&mut resp);
    assert_eq!(resp.status_code.to_code(), 405);
    assert!(resp.body.is_empty());
}

/// `HEAD` drops the body and keeps the head.
#[test]
fn test_head_policy() {
    let mut resp = served("HEAD /file.css HTTP/1.1", css_file());
    resp.set_body(b"body".to_vec());
    server().method_handle(&mut resp);
    assert_eq!(resp.status_code.to_code(), 200);
    assert!(resp.body.is_empty());
    assert_eq!(resp.headers.get("Content-Type").unwrap(), "text/css");
}

/// `GET` changes nothing.
#[test]
fn test_get_policy() {
    let mut resp = served("GET /file.css HTTP/1.1", css_file());
    let headers_before = resp.headers.len();
    server().method_handle(&mut resp);
    assert_eq!(resp.status_code.to_code(), 200);
    assert_eq!(resp.headers.len(), headers_before);
}

/// The identification header is appended to every response.
#[test]
fn test_server_transformation() {
    let mut resp = served("GET /file.css HTTP/1.1", css_file());
    server().server_transformation(&mut resp);
    assert_eq!(resp.headers.get("Server").unwrap(), "Katana 0.1.0");
    let desc = resp.http_description();
    assert!(desc.ends_with("Server: Katana 0.1.0\r\n"));
}

/// Address formatting and the version string.
#[test]
fn test_addr_and_version() {
    let s = server();
    assert_eq!(s.addr(), "127.0.0.1:8080");
    assert_eq!(s.addr_with_protocol(), "http://127.0.0.1:8080");
    assert_eq!(Server::version(), "Katana 0.1.0");
}

/// The log line holds the quoted request line, the status and the size.
#[test]
fn test_log_response() {
    let mut resp = served("GET /file.css HTTP/1.1", css_file());
    server().method_handle(&mut resp);
    assert_eq!(Server::log_response(&resp), "\"GET /file.css HTTP/1.1\" 200 10");
}

/// A whole cycle for a buffered file, down to the exact wire bytes.
#[test]
fn test_full_cycle_wire_bytes() {
    let mut resp = response_for(
        "GET /file.css HTTP/1.1",
        vec!["Host: localhost".to_string()],
    );
    resp.serve("public", css_file());
    let s = server();
    s.method_handle(&mut resp);
    s.server_transformation(&mut resp);
    assert_eq!(resp.prepare_send(), SendAction::ReadFileThenWrite);
    resp.set_body(b"0123456789".to_vec());
    let text = String::from_utf8(resp.to_bytes()).unwrap();
    assert_eq!(
        text,
        "HTTP/1.1 200 OK\r\nContent-Type: text/css\r\nContent-Disposition: inline\r\nServer: Katana 0.1.0\r\nContent-Length: 10\r\n\r\n0123456789"
    );
}

/// The configuration precedence chain: later sources override where they
/// speak, defaults fill the rest.
#[test]
fn test_config_load_precedence() {
    let mut file = config("", 0);
    file.source = ConfigSource::File;
    file.port = 9000;
    let mut env = config("", 0);
    env.source = ConfigSource::Env;
    env.host = "10.0.0.1".to_string();
    env.document_root = "".to_string();
    let mut args = config("", 0);
    args.source = ConfigSource::Args;
    args.document_root = "site".to_string();
    args.worker = 0;

    let merged = Config::load(file, env, args);
    assert_eq!(merged.host, "10.0.0.1");
    assert_eq!(merged.port, 9000);
    assert_eq!(merged.document_root, "site");
    assert_eq!(merged.worker, 4);
    assert_eq!(merged.log_level, LogLevel::INFO);

    let defaults = DefaultConfig::as_config();
    assert_eq!(defaults.host, "0.0.0.0");
    assert_eq!(defaults.port, 8080);
    assert_eq!(defaults.document_root, "public");
}
