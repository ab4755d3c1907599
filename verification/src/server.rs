//! The connection server's decision core: its address, its identification
//! header, per-method post-processing of a resolved response, and the log
//! line for a completed cycle.
//!
//! Accepting sockets and moving bytes happen outside; given a parsed
//! request and a resolved response, everything decided here is verified.

use vstd::prelude::*;
use crate::config::Config;
use crate::http::{
    HttpMethod, HttpStatus, spec_comma_separated, spec_is_supported_method, spec_method_str,
    spec_status_code, spec_version_str,
};
use crate::keyval::spec_kv_add;
use crate::request::spec_request_description;
use crate::response::Response;
use crate::strutil;
use crate::strutil::spec_dec;
use crate::templates::Templates;
use crate::utils::{Utils, now_unix_parts, spec_rfc_1123};
use vstd::utf8::encode_utf8;

verus! {

/// The methods this server serves, in the order the `Allow` header lists
/// them.
pub open spec fn spec_supported_list() -> Seq<HttpMethod> {
    seq![HttpMethod::GET, HttpMethod::HEAD, HttpMethod::OPTIONS, HttpMethod::TRACE]
}

/// The `Allow` line: the supported methods, comma-joined.
pub open spec fn spec_allow_line() -> Seq<char> {
    spec_comma_separated(spec_supported_list())
}

/// The `Allow` line reads exactly `GET, HEAD, OPTIONS, TRACE`.
pub proof fn lemma_allow_line()
    ensures
        spec_allow_line() == "GET, HEAD, OPTIONS, TRACE"@,
{
    reveal_strlit("GET");
    reveal_strlit("HEAD");
    reveal_strlit("OPTIONS");
    reveal_strlit("TRACE");
    reveal_strlit(", ");
    reveal_strlit("GET, HEAD, OPTIONS, TRACE");
    reveal_with_fuel(spec_comma_separated, 5);
    assert(spec_supported_list().drop_last() =~= seq![
        HttpMethod::GET,
        HttpMethod::HEAD,
        HttpMethod::OPTIONS,
    ]);
    assert(seq![HttpMethod::GET, HttpMethod::HEAD, HttpMethod::OPTIONS].drop_last() =~= seq![
        HttpMethod::GET,
        HttpMethod::HEAD,
    ]);
    assert(seq![HttpMethod::GET, HttpMethod::HEAD].drop_last() =~= seq![HttpMethod::GET]);
    assert(spec_allow_line() =~= "GET, HEAD, OPTIONS, TRACE"@);
}

/// What the per-method policy leaves of a resolved response.
///
/// GET changes nothing. HEAD drops the body and keeps the head. OPTIONS
/// drops the body and adds the date, allow and CORS headers (the date is a
/// clock reading). TRACE answers 200 with `message/http` and echoes the
/// request's own description as the body, with its length. Every other
/// method is refused: 405, an `Allow` header alone, no body.
pub open spec fn spec_method_handled(new: Response, old: Response, m: HttpMethod) -> bool {
    if m == HttpMethod::GET {
        new == old
    } else if m == HttpMethod::HEAD {
        &&& new.body@ == Seq::<u8>::empty()
        &&& new == Response { body: new.body, ..old }
    } else if m == HttpMethod::OPTIONS {
        &&& new.body@ == Seq::<u8>::empty()
        &&& exists|t: u64|
            new.headers.view_pairs() == spec_kv_add(
                spec_kv_add(
                    spec_kv_add(
                        spec_kv_add(old.headers.view_pairs(), "Date"@, spec_rfc_1123(t)),
                        "Allow"@,
                        spec_allow_line(),
                    ),
                    "Access-Control-Allow-Origin"@,
                    "*"@,
                ),
                "Access-Control-Allow-Methods"@,
                spec_allow_line(),
            )
        &&& new == Response { body: new.body, headers: new.headers, ..old }
    } else if m == HttpMethod::TRACE {
        &&& new.status_code == HttpStatus::OK
        &&& new.body@ == encode_utf8(spec_request_description(old.request) + "\r\n"@)
        &&& new.headers.view_pairs() == seq![
            ("Content-Type"@, "message/http"@),
            ("Content-Length"@, spec_dec(new.body@.len())),
        ]
        &&& new == Response {
            body: new.body,
            headers: new.headers,
            status_code: new.status_code,
            ..old
        }
    } else {
        &&& new.status_code == HttpStatus::MethodNotAllowed
        &&& new.body@ == Seq::<u8>::empty()
        &&& new.headers.view_pairs() == seq![("Allow"@, spec_allow_line())]
        &&& new == Response {
            body: new.body,
            headers: new.headers,
            status_code: new.status_code,
            ..old
        }
    }
}

/// An `OPTIONS` request keeps whatever status path resolution produced,
/// carries no body, and its `Allow` header lists exactly
/// `GET, HEAD, OPTIONS, TRACE`.
pub proof fn lemma_options_policy(new: Response, old: Response)
    requires
        spec_method_handled(new, old, HttpMethod::OPTIONS),
    ensures
        new.status_code == old.status_code,
        new.body@ == Seq::<u8>::empty(),
        crate::keyval::has_key(new.headers.view_pairs(), "Allow"@),
        crate::keyval::value_of(new.headers.view_pairs(), "Allow"@)
            == "GET, HEAD, OPTIONS, TRACE"@,
{
    lemma_allow_line();
    let t = choose|t: u64|
        new.headers.view_pairs() == spec_kv_add(
            spec_kv_add(
                spec_kv_add(
                    spec_kv_add(old.headers.view_pairs(), "Date"@, spec_rfc_1123(t)),
                    "Allow"@,
                    spec_allow_line(),
                ),
                "Access-Control-Allow-Origin"@,
                "*"@,
            ),
            "Access-Control-Allow-Methods"@,
            spec_allow_line(),
        );
    let h1 = spec_kv_add(old.headers.view_pairs(), "Date"@, spec_rfc_1123(t));
    let h2 = spec_kv_add(h1, "Allow"@, spec_allow_line());
    let h3 = spec_kv_add(h2, "Access-Control-Allow-Origin"@, "*"@);
    let h4 = spec_kv_add(h3, "Access-Control-Allow-Methods"@, spec_allow_line());
    reveal_strlit("Allow");
    reveal_strlit("Access-Control-Allow-Origin");
    reveal_strlit("Access-Control-Allow-Methods");
    assert("Allow"@.len() == 5);
    assert("Access-Control-Allow-Origin"@.len() == 27);
    assert("Access-Control-Allow-Methods"@.len() == 28);
    crate::keyval::lemma_kv_add(h1, "Allow"@, spec_allow_line());
    crate::keyval::lemma_kv_add(h2, "Access-Control-Allow-Origin"@, "*"@);
    crate::keyval::lemma_kv_add(h3, "Access-Control-Allow-Methods"@, spec_allow_line());
}

/// A `TRACE` request is answered 200 whether or not the path exists, its
/// content type is `message/http`, and its body starts with the echoed
/// request's own first line.
pub proof fn lemma_trace_policy(new: Response, old: Response)
    requires
        spec_method_handled(new, old, HttpMethod::TRACE),
    ensures
        new.status_code == HttpStatus::OK,
        crate::keyval::has_key(new.headers.view_pairs(), "Content-Type"@),
        crate::keyval::value_of(new.headers.view_pairs(), "Content-Type"@) == "message/http"@,
        ({
            let first_line = spec_method_str(old.request.method) + " "@ + old.request.path@ + " "@
                + spec_version_str(old.request.version) + "\r\n"@;
            exists|tail: Seq<char>| new.body@ == encode_utf8(#[trigger] (first_line + tail))
        }),
{
    let hs = new.headers.view_pairs();
    assert(hs[0].0 == "Content-Type"@);
    assert(crate::keyval::has_key(hs, "Content-Type"@));
    crate::keyval::lemma_key_index(hs, "Content-Type"@);
    assert(crate::keyval::key_index(hs, "Content-Type"@) == 0) by {
        let ki = crate::keyval::key_index(hs, "Content-Type"@);
        if ki > 0 {
            assert((#[trigger] hs[0]).0 != "Content-Type"@);
        }
    }
    let first_line = spec_method_str(old.request.method) + " "@ + old.request.path@ + " "@
        + spec_version_str(old.request.version) + "\r\n"@;
    let desc = spec_request_description(old.request);
    let query_line = if crate::request::pairs_view(old.request.queries@).len() == 0 {
        Seq::<char>::empty()
    } else {
        old.request.path@ + "?"@ + crate::request::spec_query_string(
            crate::request::pairs_view(old.request.queries@),
        ) + "\r\n"@
    };
    let tail = query_line + crate::request::spec_headers_block(
        crate::request::pairs_view(old.request.headers@),
    ) + "\r\n"@;
    assert(desc + "\r\n"@ =~= first_line + tail);
    assert(new.body@ == encode_utf8(first_line + tail));
}

/// A request whose method the server does not serve is answered 405 with
/// an empty body and a lone `Allow` header listing exactly
/// `GET, HEAD, OPTIONS, TRACE` — whether or not the resource exists.
pub proof fn lemma_unsupported_policy(new: Response, old: Response, m: HttpMethod)
    requires
        spec_method_handled(new, old, m),
        !spec_is_supported_method(m),
    ensures
        new.status_code == HttpStatus::MethodNotAllowed,
        new.body@ == Seq::<u8>::empty(),
        crate::keyval::has_key(new.headers.view_pairs(), "Allow"@),
        crate::keyval::value_of(new.headers.view_pairs(), "Allow"@)
            == "GET, HEAD, OPTIONS, TRACE"@,
{
    lemma_allow_line();
    let hs = new.headers.view_pairs();
    assert(hs[0].0 == "Allow"@);
    assert(crate::keyval::has_key(hs, "Allow"@));
    crate::keyval::lemma_key_index(hs, "Allow"@);
    assert(crate::keyval::key_index(hs, "Allow"@) == 0) by {
        let ki = crate::keyval::key_index(hs, "Allow"@);
        if ki > 0 {
            assert((#[trigger] hs[0]).0 != "Allow"@);
        }
    }
}

/// The line logged for a completed cycle: the quoted request line, the
/// final status code, and the measured size.
pub open spec fn spec_log_response_line(r: Response) -> Seq<char> {
    seq!['"'] + spec_method_str(r.request.method) + " "@ + r.request.path@ + " "@
        + spec_version_str(r.request.version) + "\""@ + " "@ + spec_dec(
        spec_status_code(r.status_code) as nat,
    ) + " "@ + spec_dec(r.size as nat)
}

/// The protocol server: the resolved configuration and the shared page
/// templates.
pub struct Server {
    config: Config,
    templates: Templates,
}

impl Server {
    /// The configuration this server runs with.
    pub closed spec fn spec_config(&self) -> Config {
        self.config
    }

    /// The templates this server renders with.
    pub closed spec fn spec_templates(&self) -> Templates {
        self.templates
    }

    /// A server over a configuration and templates.
    pub fn new(config: Config, templates: Templates) -> (r: Self)
        ensures
            r.spec_config() == config,
            r.spec_templates() == templates,
    {
        Server { config, templates }
    }

    /// The templates, for building responses.
    pub fn templates(&self) -> (r: &Templates)
        ensures
            r == self.spec_templates(),
    {
        &self.templates
    }

    /// The configured document root.
    pub fn document_root(&self) -> (r: &String)
        ensures
            r == self.spec_config().document_root,
    {
        &self.config.document_root
    }

    /// The bind address, `host:port`.
    pub fn addr(&self) -> (r: String)
        ensures
            r@ == self.spec_config().host@ + ":"@ + spec_dec(self.spec_config().port as nat),
    {
        let mut out: String = String::new();
        out.append(self.config.host.as_str());
        out.append(":");
        let port = strutil::u64_to_string(self.config.port as u64);
        out.append(port.as_str());
        out
    }

    /// The bind address with its protocol, `http://host:port`.
    pub fn addr_with_protocol(&self) -> (r: String)
        ensures
            r@ == "http://"@ + self.spec_config().host@ + ":"@ + spec_dec(
                self.spec_config().port as nat,
            ),
    {
        let mut out: String = String::from_str("http://");
        let addr = self.addr();
        out.append(addr.as_str());
        out
    }

    /// The server's name and version.
    pub fn version() -> (r: String)
        ensures
            r@ == "Katana 0.1.0"@,
    {
        let mut out: String = String::from_str("Katana");
        out.append(" ");
        out.append("0.1.0");
        proof {
            reveal_strlit("Katana");
            reveal_strlit(" ");
            reveal_strlit("0.1.0");
            reveal_strlit("Katana 0.1.0");
            assert(out@ =~= "Katana 0.1.0"@);
        }
        out
    }

    /// Append the identification header: `Server: Katana 0.1.0`, always
    /// the last header added.
    pub fn server_transformation(&self, response: &mut Response)
        requires
            old(response).wf(),
        ensures
            final(response).wf(),
            final(response).headers.view_pairs() == spec_kv_add(
                old(response).headers.view_pairs(),
                "Server"@,
                "Katana 0.1.0"@,
            ),
            (*final(response) == Response { headers: final(response).headers, ..*old(response) }),
    {
        response.headers.add("Server".to_owned(), Self::version());
    }

    /// Apply the per-method policy to a resolved response; see
    /// [`spec_method_handled`].
    pub fn method_handle(&self, response: &mut Response)
        requires
            old(response).wf(),
        ensures
            final(response).wf(),
            spec_method_handled(*final(response), *old(response), old(response).request.method),
    {
        let m = response.request.method;
        match m {
            HttpMethod::GET => {},
            HttpMethod::HEAD => {
                response.body = Vec::new();
                proof {
                    assert(response.body@ =~= Seq::<u8>::empty());
                }
            },
            HttpMethod::OPTIONS => {
                response.body = Vec::new();
                let (secs, _millis) = now_unix_parts();
                let date = Utils::datetime_rfc_1123_of(secs);
                response.headers.add("Date".to_owned(), date);
                let allow = HttpMethod::comma_separated(&HttpMethod::immutable());
                response.headers.add("Allow".to_owned(), allow);
                response.headers.add("Access-Control-Allow-Origin".to_owned(), "*".to_owned());
                let methods = HttpMethod::comma_separated(&HttpMethod::immutable());
                response.headers.add("Access-Control-Allow-Methods".to_owned(), methods);
                proof {
                    assert(response.body@ =~= Seq::<u8>::empty());
                }
            },
            HttpMethod::TRACE => {
                response.status_code = HttpStatus::OK;
                response.headers.clear();
                response.headers.add("Content-Type".to_owned(), "message/http".to_owned());
                let mut echoed = response.request.http_description();
                echoed.append("\r\n");
                response.body = echoed.as_str().as_bytes_vec();
                let body_len: usize = response.body.len();
                let cl = strutil::u64_to_string(body_len as u64);
                response.headers.add("Content-Length".to_owned(), cl);
                proof {
                    reveal_strlit("Content-Type");
                    reveal_strlit("Content-Length");
                    assert("Content-Type"@.len() == 12);
                    assert("Content-Length"@.len() == 14);
                    assert(response.body@.len() == body_len as nat);
                    assert(cl@ == spec_dec(response.body@.len()));
                    assert(!crate::keyval::has_key(
                        seq![("Content-Type"@, "message/http"@)],
                        "Content-Length"@,
                    ));
                    assert(response.headers.view_pairs() =~= seq![
                        ("Content-Type"@, "message/http"@),
                        ("Content-Length"@, spec_dec(response.body@.len())),
                    ]);
                }
            },
            _ => {
                response.body = Vec::new();
                response.headers.clear();
                let allow = HttpMethod::comma_separated(&HttpMethod::immutable());
                response.headers.add("Allow".to_owned(), allow);
                response.status_code = HttpStatus::MethodNotAllowed;
                proof {
                    assert(response.body@ =~= Seq::<u8>::empty());
                    assert(response.headers.view_pairs() =~= seq![("Allow"@, spec_allow_line())]);
                }
            },
        }
    }

    /// The log line for a completed cycle: the quoted request line, the
    /// final status, and the size served.
    pub fn log_response(response: &Response) -> (r: String)
        ensures
            r@ == spec_log_response_line(*response),
    {
        let mut out: String = String::from_str("\"");
        out.append(response.request.method.as_str());
        out.append(" ");
        out.append(response.request.path.as_str());
        out.append(" ");
        out.append(response.request.version.as_str());
        out.append("\"");
        out.append(" ");
        let code = strutil::u64_to_string(response.status_code.to_code() as u64);
        out.append(code.as_str());
        out.append(" ");
        let size = strutil::u64_to_string(response.size as u64);
        out.append(size.as_str());
        proof {
            reveal_strlit("\"");
            assert("\""@ =~= seq!['"']);
            assert(out@ =~= spec_log_response_line(*response));
        }
        out
    }
}

} // verus!
