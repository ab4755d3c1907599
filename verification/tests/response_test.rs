use katana::request::Request;
use katana::response::{ChunkAction, FileMeta, Resolved, Response, SendAction};
use katana::templates::Templates;

fn request(line: &str, header_lines: Vec<String>) -> Request {
    Request::from_lines(line, &header_lines).expect("valid request line")
}

fn response_for(line: &str, header_lines: Vec<String>) -> Response {
    Response::new(request(line, header_lines), Templates::load()).expect("fresh response")
}

fn ok_meta(size: usize) -> FileMeta {
    FileMeta { openable: true, size, readable: true }
}

/// The expected error page body for a status.
fn error_page(code: &str, text: &str) -> String {
    Templates::load()
        .error
        .replace("{{status_code}}", code)
        .replace("{{status_text}}", text)
        .replace("{{error_message}}", "Something went wrong !")
}

/// Serving an existing `.css` file gives 200 with `text/css`, rendered
/// inline; an unknown extension gives the generic byte stream as an
/// attachment.
#[test]
fn test_serve_css_and_unknown_extension() {
    let mut resp = response_for("GET /file.css HTTP/1.1", Vec::new());
    resp.serve_file("public", "public/file.css".to_string(), ok_meta(10));
    assert_eq!(resp.status_code.to_code(), 200);
    assert_eq!(resp.headers.get("Content-Type").unwrap(), "text/css");
    assert_eq!(resp.headers.get("Content-Disposition").unwrap(), "inline");
    assert_eq!(resp.size, 10);
    assert!(!resp.need_stream);

    let mut resp = response_for("GET /file.unknownext HTTP/1.1", Vec::new());
    resp.serve_file("public", "public/file.unknownext".to_string(), ok_meta(10));
    assert_eq!(resp.status_code.to_code(), 200);
    assert_eq!(
        resp.headers.get("Content-Type").unwrap(),
        "application/octet-stream"
    );
    assert_eq!(resp.headers.get("Content-Disposition").unwrap(), "attachment");
}

/// A dotfile is denied with 403; a `.well-known` path is not.
#[test]
fn test_dotfile_policy() {
    let mut resp = response_for("GET /.env HTTP/1.1", Vec::new());
    resp.serve_file("public", "public/.env".to_string(), ok_meta(4));
    assert_eq!(resp.status_code.to_code(), 403);
    assert_eq!(
        String::from_utf8(resp.body.clone()).unwrap(),
        error_page("403", "Forbidden")
    );

    let mut resp = response_for("GET /.well-known/token HTTP/1.1", Vec::new());
    resp.serve_file("public", "public/.well-known/token".to_string(), ok_meta(4));
    assert_eq!(resp.status_code.to_code(), 200);
    // An extension-less file carries no Content-Type at all.
    assert!(resp.headers.get("Content-Type").is_none());
}

/// An unopenable file answers 404; an unreadable one answers 500.
#[test]
fn test_unopenable_and_unreadable_file() {
    let mut resp = response_for("GET /gone.txt HTTP/1.1", Vec::new());
    resp.serve_file(
        "public",
        "public/gone.txt".to_string(),
        FileMeta { openable: false, size: 0, readable: true },
    );
    assert_eq!(resp.status_code.to_code(), 404);

    let mut resp = response_for("GET /locked.txt HTTP/1.1", Vec::new());
    resp.serve_file(
        "public",
        "public/locked.txt".to_string(),
        FileMeta { openable: true, size: 9, readable: false },
    );
    assert_eq!(resp.status_code.to_code(), 500);
}

/// A file above the one-MiB bound is marked for streaming.
#[test]
fn test_large_file_needs_stream() {
    let mut resp = response_for("GET /big.bin HTTP/1.1", Vec::new());
    resp.serve_file("public", "public/big.bin".to_string(), ok_meta(1048577));
    assert!(resp.need_stream);
    let mut resp = response_for("GET /small.bin HTTP/1.1", Vec::new());
    resp.serve_file("public", "public/small.bin".to_string(), ok_meta(1048576));
    assert!(!resp.need_stream);
}

/// A missing resource answers with the 404 error page.
#[test]
fn test_serve_missing() {
    let mut resp = response_for("GET /nope HTTP/1.1", Vec::new());
    resp.serve("public", Resolved::Missing);
    assert_eq!(resp.status_code.to_code(), 404);
    assert!(resp.is_compiled);
    assert_eq!(
        String::from_utf8(resp.body.clone()).unwrap(),
        error_page("404", "Not Found")
    );
    assert_eq!(resp.size, resp.body.len());
}

/// A directory listing sorts by name, lists directories before files,
/// links the parent, and renders the listing page.
#[test]
fn test_serve_directory_listing() {
    let entries = vec![
        ("file".to_string(), "zeta.txt".to_string(), "public/sub/zeta.txt".to_string()),
        ("directory".to_string(), "beta".to_string(), "public/sub/beta/".to_string()),
        ("file".to_string(), "alpha.txt".to_string(), "public/sub/alpha.txt".to_string()),
    ];
    let mut resp = response_for("GET /sub HTTP/1.1", Vec::new());
    resp.serve(
        "public",
        Resolved::Directory { path: "public/sub".to_string(), entries },
    );
    assert_eq!(resp.status_code.to_code(), 200);
    assert!(resp.is_compiled);
    assert_eq!(resp.headers.get("Content-Type").unwrap(), "text/html");
    let body = String::from_utf8(resp.body.clone()).unwrap();
    assert!(body.contains("Index of /sub"));
    let parent = body.find("<li><a href='../'>..</a></li>").expect("parent link");
    let beta = body.find("<li><a href='/sub/beta/'>beta</a></li>").expect("beta dir");
    let alpha = body.find("<li><a href='/sub/alpha.txt'>alpha.txt</a></li>").expect("alpha");
    let zeta = body.find("<li><a href='/sub/zeta.txt'>zeta.txt</a></li>").expect("zeta");
    assert!(parent < beta, "parent link comes first");
    assert!(beta < alpha, "directories are listed before files");
    assert!(alpha < zeta, "files are sorted by name");
}

/// An empty directory shows the placeholder; a dot directory is denied.
#[test]
fn test_serve_directory_empty_and_denied() {
    let mut resp = response_for("GET /sub HTTP/1.1", Vec::new());
    resp.serve(
        "public",
        Resolved::Directory { path: "public/sub".to_string(), entries: Vec::new() },
    );
    let body = String::from_utf8(resp.body.clone()).unwrap();
    assert!(body.contains("<li><b>Empty Folder</b></li>"));

    let mut resp = response_for("GET /.git HTTP/1.1", Vec::new());
    resp.serve(
        "public",
        Resolved::Directory { path: "public/.git".to_string(), entries: Vec::new() },
    );
    assert_eq!(resp.status_code.to_code(), 403);
}

/// On a 10-byte resource, `bytes=0-4` is granted: 206, the range's
/// `Content-Range`, and `Content-Length: 5`.
#[test]
fn test_range_granted() {
    let mut resp = response_for(
        "GET /data.bin HTTP/1.1",
        vec!["Range: bytes=0-4".to_string()],
    );
    resp.size = 10;
    let action = resp.plan_chunk_stream();
    assert_eq!(action, ChunkAction::Range { start: 0, end: 4 });
    assert_eq!(resp.status_code.to_code(), 206);
    assert_eq!(resp.headers.get("Content-Range").unwrap(), "bytes 0-4/10");
    assert_eq!(resp.headers.get("Content-Length").unwrap(), "5");
    assert_eq!(resp.headers.get("Accept-Ranges").unwrap(), "bytes");
}

/// On the same resource, `bytes=20-30` is refused: 416, a starred
/// `Content-Range`, and no body.
#[test]
fn test_range_unsatisfiable() {
    let mut resp = response_for(
        "GET /data.bin HTTP/1.1",
        vec!["Range: bytes=20-30".to_string()],
    );
    resp.size = 10;
    let action = resp.plan_chunk_stream();
    assert_eq!(action, ChunkAction::Unsatisfiable);
    assert_eq!(resp.status_code.to_code(), 416);
    assert_eq!(resp.headers.get("Content-Range").unwrap(), "bytes */10");
    assert!(resp.body.is_empty());
}

/// A malformed range is rejected with 400; a missing field count too; a
/// non-numeric start falls back to zero.
#[test]
fn test_range_malformed_and_lax_start() {
    let mut resp = response_for(
        "GET /data.bin HTTP/1.1",
        vec!["Range: pages=1-2".to_string()],
    );
    resp.size = 10;
    assert_eq!(resp.plan_chunk_stream(), ChunkAction::BadRequest);
    assert_eq!(resp.status_code.to_code(), 400);

    let mut resp = response_for(
        "GET /data.bin HTTP/1.1",
        vec!["Range: bytes=1-2-3".to_string()],
    );
    resp.size = 10;
    assert_eq!(resp.plan_chunk_stream(), ChunkAction::BadRequest);

    let mut resp = response_for(
        "GET /data.bin HTTP/1.1",
        vec!["Range: bytes=x-4".to_string()],
    );
    resp.size = 10;
    assert_eq!(resp.plan_chunk_stream(), ChunkAction::Range { start: 0, end: 4 });

    let mut resp = response_for(
        "GET /data.bin HTTP/1.1",
        vec!["Range: bytes=2-".to_string()],
    );
    resp.size = 10;
    assert_eq!(resp.plan_chunk_stream(), ChunkAction::Range { start: 2, end: 9 });
}

/// Without a `Range` header the whole file is streamed.
#[test]
fn test_stream_whole_without_range() {
    let mut resp = response_for("GET /data.bin HTTP/1.1", Vec::new());
    resp.size = 10;
    assert_eq!(resp.plan_chunk_stream(), ChunkAction::Whole);
    assert_eq!(resp.headers.get("Content-Length").unwrap(), "10");
    assert_eq!(resp.headers.get("Accept-Ranges").unwrap(), "bytes");
}

/// For a buffered response, the serialized `Content-Length` equals the
/// byte length of the body that is read for it.
#[test]
fn test_buffered_content_length_matches_body() {
    let mut resp = response_for("GET /file.txt HTTP/1.1", Vec::new());
    resp.serve_file("public", "public/file.txt".to_string(), ok_meta(5));
    let action = resp.prepare_send();
    assert_eq!(action, SendAction::ReadFileThenWrite);
    resp.set_body(b"hello".to_vec());
    assert_eq!(
        resp.headers.get("Content-Length").unwrap(),
        &resp.body.len().to_string()
    );
    let text = resp.to_string();
    assert!(text.contains("Content-Length: 5\r\n"));
    assert!(text.ends_with("\r\nhello"));
}

/// A compiled response is written whole; an empty compiled body escalates
/// to a 500 error page first.
#[test]
fn test_prepare_send_compiled() {
    let mut resp = response_for("GET /nope HTTP/1.1", Vec::new());
    resp.serve("public", Resolved::Missing);
    assert_eq!(resp.prepare_send(), SendAction::WriteAll);
    assert_eq!(resp.status_code.to_code(), 404);

    let mut resp = response_for("GET /odd HTTP/1.1", Vec::new());
    resp.is_compiled = true;
    assert_eq!(resp.prepare_send(), SendAction::WriteAll);
    assert_eq!(resp.status_code.to_code(), 500);
    assert!(!resp.body.is_empty());

    let mut resp = response_for("GET /big.bin HTTP/1.1", Vec::new());
    resp.serve_file("public", "public/big.bin".to_string(), ok_meta(2000000));
    assert_eq!(resp.prepare_send(), SendAction::Chunked);
}

/// The response head serializes as status line, headers, cookies.
#[test]
fn test_http_description_and_to_bytes() {
    let mut resp = response_for("GET /file.css HTTP/1.1", Vec::new());
    resp.serve_file("public", "public/file.css".to_string(), ok_meta(3));
    resp.cookies.add("session".to_string(), "abc".to_string());
    let desc = resp.http_description();
    assert_eq!(
        desc,
        "HTTP/1.1 200 OK\r\nContent-Type: text/css\r\nContent-Disposition: inline\r\nSet-Cookie: session=abc\r\n"
    );
    resp.set_body(b"a:b".to_vec());
    let bytes = resp.to_bytes();
    let expected: Vec<u8> = [desc.as_bytes(), b"\r\n", b"a:b"].concat();
    assert_eq!(bytes, expected);
}
