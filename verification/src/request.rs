//! The request parser: request line, percent-decoding, query string,
//! headers, cookies and body sizing.
//!
//! The socket is read elsewhere; this module receives the request line and
//! the header lines as plain strings and builds the structured request, or
//! refuses it. No partial request is ever handed out.

use vstd::prelude::*;
use crate::http::{
    HttpMethod, HttpVersion, spec_method_from, spec_method_str, spec_version_from,
    spec_version_str, spec_is_supported_method,
};
use crate::strutil;
use crate::strutil::{
    first_index_of, first_sub_index, spec_lower, spec_replace, spec_trim, split_on, split_on_seq,
    split_ws, trim_end,
};

verus! {

/// A hexadecimal digit, either case.
pub open spec fn is_hex_digit(c: char) -> bool {
    ('0' <= c && c <= '9') || ('a' <= c && c <= 'f') || ('A' <= c && c <= 'F')
}

/// The value of a hexadecimal digit.
pub open spec fn hex_val(c: char) -> nat {
    if '0' <= c && c <= '9' {
        ((c as int) - 48) as nat
    } else if 'a' <= c && c <= 'f' {
        ((c as int) - 87) as nat
    } else {
        ((c as int) - 55) as nat
    }
}

/// Percent-decoding as the parser applies it: `%` followed by two hex
/// digits becomes that byte; a `%` whose next two characters are not two
/// hex digits passes through with those characters verbatim; `+` becomes a
/// space; everything else is unchanged.
pub open spec fn spec_decode_url(s: Seq<char>) -> Seq<char>
    decreases s.len(),
{
    if s.len() == 0 {
        Seq::empty()
    } else if s[0] == '%' {
        if s.len() == 1 {
            seq!['%']
        } else if s.len() == 2 {
            seq!['%', s[1]]
        } else if is_hex_digit(s[1]) && is_hex_digit(s[2]) {
            seq![(((hex_val(s[1]) * 16 + hex_val(s[2])) as u8) as char)] + spec_decode_url(
                s.skip(3),
            )
        } else {
            seq!['%', s[1], s[2]] + spec_decode_url(s.skip(3))
        }
    } else if s[0] == '+' {
        seq![' '] + spec_decode_url(s.skip(1))
    } else {
        seq![s[0]] + spec_decode_url(s.skip(1))
    }
}

/// Whether `c` is a hex digit, and its value if so.
fn hex_digit_val(c: char) -> (r: Option<u8>)
    ensures
        r is Some <==> is_hex_digit(c),
        r is Some ==> r->Some_0 == hex_val(c),
{
    if c >= '0' && c <= '9' {
        Some(c as u8 - 48)
    } else if c >= 'a' && c <= 'f' {
        Some(c as u8 - 87)
    } else if c >= 'A' && c <= 'F' {
        Some(c as u8 - 55)
    } else {
        None
    }
}

/// Percent-decode a character vector.
pub fn decode_chars(v: &Vec<char>) -> (r: Vec<char>)
    ensures
        r@ == spec_decode_url(v@),
{
    let n: usize = v.len();
    let mut out: Vec<char> = Vec::new();
    let mut i: usize = 0;
    proof {
        assert(v@.skip(0) =~= v@);
    }
    while i < n
        invariant
            n == v@.len(),
            i <= n,
            spec_decode_url(v@) == out@ + spec_decode_url(v@.skip(i as int)),
        decreases n - i,
    {
        let ghost rest = v@.skip(i as int);
        proof {
            assert(rest[0] == v@[i as int]);
            assert(rest.len() == n - i);
        }
        let c = v[i];
        if c == '%' {
            if i + 1 >= n {
                proof {
                    assert(spec_decode_url(rest) =~= seq!['%']);
                    assert(out@ + spec_decode_url(rest) =~= out@.push('%') + spec_decode_url(
                        v@.skip(n as int),
                    ));
                }
                out.push('%');
                i = i + 1;
            } else if i + 2 >= n {
                proof {
                    assert(rest[1] == v@[i as int + 1]);
                    assert(spec_decode_url(rest) =~= seq!['%', v@[i as int + 1]]);
                    assert(out@ + spec_decode_url(rest) =~= (out@.push('%').push(
                        v@[i as int + 1],
                    )) + spec_decode_url(v@.skip(n as int)));
                }
                out.push('%');
                out.push(v[i + 1]);
                i = i + 2;
            } else {
                let h1 = v[i + 1];
                let h2 = v[i + 2];
                proof {
                    assert(rest[1] == v@[i as int + 1]);
                    assert(rest[2] == v@[i as int + 2]);
                    assert(rest.skip(3) =~= v@.skip(i as int + 3));
                }
                match (hex_digit_val(h1), hex_digit_val(h2)) {
                    (Some(a), Some(b)) => {
                        let byte: u8 = a * 16 + b;
                        proof {
                            assert(spec_decode_url(rest) == seq![((byte as u8) as char)]
                                + spec_decode_url(v@.skip(i as int + 3)));
                            assert(out@ + spec_decode_url(rest) =~= out@.push((byte as char))
                                + spec_decode_url(v@.skip(i as int + 3)));
                        }
                        out.push(byte as char);
                    },
                    _ => {
                        proof {
                            assert(spec_decode_url(rest) == seq!['%', rest[1], rest[2]]
                                + spec_decode_url(v@.skip(i as int + 3)));
                            assert(out@ + spec_decode_url(rest) =~= out@.push('%').push(
                                rest[1],
                            ).push(rest[2]) + spec_decode_url(v@.skip(i as int + 3)));
                        }
                        out.push('%');
                        out.push(h1);
                        out.push(h2);
                    },
                }
                i = i + 3;
            }
        } else if c == '+' {
            proof {
                assert(rest.skip(1) =~= v@.skip(i as int + 1));
                assert(spec_decode_url(rest) == seq![' '] + spec_decode_url(v@.skip(i as int + 1)));
                assert(out@ + spec_decode_url(rest) =~= out@.push(' ') + spec_decode_url(
                    v@.skip(i as int + 1),
                ));
            }
            out.push(' ');
            i = i + 1;
        } else {
            proof {
                assert(rest.skip(1) =~= v@.skip(i as int + 1));
                assert(spec_decode_url(rest) == seq![rest[0]] + spec_decode_url(
                    v@.skip(i as int + 1),
                ));
                assert(out@ + spec_decode_url(rest) =~= out@.push(rest[0]) + spec_decode_url(
                    v@.skip(i as int + 1),
                ));
            }
            out.push(c);
            i = i + 1;
        }
    }
    proof {
        assert(spec_decode_url(v@.skip(n as int)) =~= Seq::<char>::empty());
        assert(out@ + spec_decode_url(v@.skip(n as int)) =~= out@);
    }
    out
}

/// The view of a list of string pairs as character sequences.
pub open spec fn pairs_view(ps: Seq<(String, String)>) -> Seq<(Seq<char>, Seq<char>)> {
    ps.map_values(|p: (String, String)| (p.0@, p.1@))
}

/// The view of a list of strings as character sequences.
pub open spec fn strings_view(ls: Seq<String>) -> Seq<Seq<char>> {
    ls.map_values(|s: String| s@)
}

/// Header pairs with their names ASCII-lowered.
pub open spec fn spec_lowered_headers(hs: Seq<(Seq<char>, Seq<char>)>) -> Seq<
    (Seq<char>, Seq<char>),
> {
    hs.map_values(|p: (Seq<char>, Seq<char>)| (spec_lower(p.0), p.1))
}

/// The key/value pairs of a list of `key=value` pieces, split on the first
/// `=`; a piece without `=` is dropped.
pub open spec fn spec_pairs_of(pieces: Seq<Seq<char>>) -> Seq<(Seq<char>, Seq<char>)>
    decreases pieces.len(),
{
    if pieces.len() == 0 {
        Seq::empty()
    } else {
        let rest = spec_pairs_of(pieces.drop_last());
        let p = pieces.last();
        let ei = first_index_of(p, '=');
        if ei == -1 {
            rest
        } else {
            rest.push((p.take(ei), p.skip(ei + 1)))
        }
    }
}

/// The path part of a decoded request target: everything before the first
/// `?`, or all of it.
pub open spec fn spec_path_of(decoded: Seq<char>) -> Seq<char> {
    let qi = first_index_of(decoded, '?');
    if qi == -1 {
        decoded
    } else {
        decoded.take(qi)
    }
}

/// The query pairs of a decoded request target: the part after the first
/// `?`, split on `&`, each piece split on its first `=`.
pub open spec fn spec_queries_of(decoded: Seq<char>) -> Seq<(Seq<char>, Seq<char>)> {
    let qi = first_index_of(decoded, '?');
    if qi == -1 {
        Seq::empty()
    } else {
        spec_pairs_of(split_on(decoded.skip(qi + 1), '&'))
    }
}

/// The header pairs of the raw header lines: each line is trimmed at the
/// end and split on its first `": "`; a line without that separator is
/// skipped.
pub open spec fn spec_header_pairs(lines: Seq<Seq<char>>) -> Seq<(Seq<char>, Seq<char>)>
    decreases lines.len(),
{
    if lines.len() == 0 {
        Seq::empty()
    } else {
        let rest = spec_header_pairs(lines.drop_last());
        let t = trim_end(lines.last());
        let i = first_sub_index(t, ": "@);
        if i == -1 {
            rest
        } else {
            rest.push((t.take(i), t.skip(i + 2)))
        }
    }
}

/// The domain: the value of the last header whose lowered name is `host`,
/// or empty.
pub open spec fn spec_domain_of(headers: Seq<(Seq<char>, Seq<char>)>) -> Seq<char>
    decreases headers.len(),
{
    if headers.len() == 0 {
        Seq::empty()
    } else if spec_lower(headers.last().0) == "host"@ {
        headers.last().1
    } else {
        spec_domain_of(headers.drop_last())
    }
}

/// The cookies: the value of the last header whose lowered name is
/// `cookie`, split on `"; "` and then on the first `=` of each piece.
pub open spec fn spec_cookies_of(headers: Seq<(Seq<char>, Seq<char>)>) -> Seq<
    (Seq<char>, Seq<char>),
>
    decreases headers.len(),
{
    if headers.len() == 0 {
        Seq::empty()
    } else if spec_lower(headers.last().0) == "cookie"@ {
        spec_pairs_of(split_on_seq(headers.last().1, "; "@))
    } else {
        spec_cookies_of(headers.drop_last())
    }
}

/// The declared body length: the first header whose lowered name is
/// `content-length`, its value trimmed and read as a decimal number.
/// Nothing, when no such header exists or the value is not a number that
/// fits.
pub open spec fn spec_content_length_of(headers: Seq<(Seq<char>, Seq<char>)>) -> Option<nat> {
    let lowered = spec_lowered_headers(headers);
    let ki = crate::keyval::key_index(lowered, "content-length"@);
    if ki == -1 {
        None
    } else {
        let t = spec_trim(lowered[ki].1);
        if t.len() > 0 && strutil::all_dec_digits(t) && strutil::dec_val(t) <= usize::MAX {
            Some(strutil::dec_val(t))
        } else {
            None
        }
    }
}

/// A request line is well formed when it has at least three
/// whitespace-separated tokens, the first names a method of the
/// vocabulary, and the third (after dropping `HTTP/`) names a version.
pub open spec fn spec_request_line_ok(line: Seq<char>) -> bool {
    let parts = split_ws(line);
    &&& parts.len() >= 3
    &&& spec_method_from(parts[0]) is Some
    &&& spec_version_from(spec_replace(parts[2], "HTTP/"@, Seq::empty())) is Some
}

/// A structured HTTP request: the parsed request line, the decoded path
/// with its query pairs, the headers in arrival order, the cookies of the
/// last `Cookie` header, and the raw body.
#[derive(Debug, Clone)]
pub struct Request {
    pub version: HttpVersion,
    pub domain: String,
    pub path: String,
    pub method: HttpMethod,
    pub queries: Vec<(String, String)>,
    pub headers: Vec<(String, String)>,
    pub cookies: Vec<(String, String)>,
    pub body: String,
}

/// Split each piece on its first `=` into a pair; pieces without `=` are
/// dropped.
fn split_pairs(pieces: &Vec<Vec<char>>) -> (r: Vec<(String, String)>)
    ensures
        pairs_view(r@) == spec_pairs_of(pieces@.map_values(|v: Vec<char>| v@)),
{
    let ghost pv = pieces@.map_values(|v: Vec<char>| v@);
    let n: usize = pieces.len();
    let mut r: Vec<(String, String)> = Vec::new();
    let mut i: usize = 0;
    proof {
        assert(pairs_view(r@) =~= spec_pairs_of(pv.take(0)));
    }
    while i < n
        invariant
            n == pieces@.len(),
            n == pv.len(),
            forall|j: int| 0 <= j < n ==> #[trigger] pieces@[j]@ == pv[j],
            i <= n,
            pairs_view(r@) == spec_pairs_of(pv.take(i as int)),
        decreases n - i,
    {
        let p = &pieces[i];
        proof {
            assert(pv.take(i as int + 1).drop_last() =~= pv.take(i as int));
            assert(pv.take(i as int + 1).last() == pv[i as int]);
            strutil::lemma_first_index_of(p@, '=');
        }
        match strutil::find_char(p, '=') {
            Some(ei) => {
                let plen: usize = p.len();
                let key = strutil::subvec(p, 0, ei);
                let val = strutil::subvec(p, ei + 1, plen);
                let pair = (strutil::string_from_chars(&key), strutil::string_from_chars(&val));
                let ghost old_view = pairs_view(r@);
                r.push(pair);
                proof {
                    assert(pairs_view(r@) =~= old_view.push((pv[i as int].take(ei as int), pv[
                        i as int
                    ].skip(ei as int + 1))));
                }
            },
            None => {},
        }
        i = i + 1;
    }
    proof {
        assert(pv.take(n as int) =~= pv);
    }
    r
}

impl Request {
    /// Percent-decode a URL, with `+` becoming a space.
    pub fn decode_url(url: &str) -> (r: String)
        ensures
            r@ == spec_decode_url(url@),
    {
        let cs = strutil::chars_of(url);
        let decoded = decode_chars(&cs);
        strutil::string_from_chars(&decoded)
    }

    /// Build a request from its request line and raw header lines. The
    /// result is the parsed request with an empty body; a line with fewer
    /// than three tokens, an unknown method or an unknown version is
    /// refused whole.
    pub fn from_lines(request_line: &str, header_lines: &Vec<String>) -> (r: Option<Request>)
        ensures
            ({
                let parts = split_ws(request_line@);
                let hlines = strings_view(header_lines@);
                &&& (r is Some <==> spec_request_line_ok(request_line@))
                &&& r is Some ==> {
                    let req = r->Some_0;
                    let decoded = spec_decode_url(parts[1]);
                    &&& req.method == spec_method_from(parts[0])->Some_0
                    &&& req.version == spec_version_from(
                        spec_replace(parts[2], "HTTP/"@, Seq::empty()),
                    )->Some_0
                    &&& req.path@ == spec_path_of(decoded)
                    &&& pairs_view(req.queries@) == spec_queries_of(decoded)
                    &&& pairs_view(req.headers@) == spec_header_pairs(hlines)
                    &&& req.domain@ == spec_domain_of(spec_header_pairs(hlines))
                    &&& pairs_view(req.cookies@) == spec_cookies_of(spec_header_pairs(hlines))
                    &&& req.body@ == Seq::<char>::empty()
                }
            }),
    {
        let cs = strutil::chars_of(request_line);
        let parts = strutil::split_whitespace(&cs);
        let ghost pseq = split_ws(request_line@);
        if parts.len() < 3 {
            return None;
        }
        let method_str = strutil::string_from_chars(&parts[0]);
        let method = match HttpMethod::from_str(method_str.as_str()) {
            Some(m) => m,
            None => {
                return None;
            },
        };
        let http_prefix = strutil::chars_of("HTTP/");
        proof {
            reveal_strlit("HTTP/");
            assert("HTTP/"@.len() == 5);
        }
        let empty_to: Vec<char> = Vec::new();
        let vtoken = strutil::replace_chars(&parts[2], &http_prefix, &empty_to);
        let vstr = strutil::string_from_chars(&vtoken);
        let version = match HttpVersion::from_str(vstr.as_str()) {
            Some(v) => v,
            None => {
                return None;
            },
        };
        let decoded = decode_chars(&parts[1]);
        proof {
            strutil::lemma_first_index_of(decoded@, '?');
        }
        let dlen: usize = decoded.len();
        let mut queries: Vec<(String, String)> = Vec::new();
        let path_chars: Vec<char> = match strutil::find_char(&decoded, '?') {
            Some(qi) => {
                let p = strutil::subvec(&decoded, 0, qi);
                let q = strutil::subvec(&decoded, qi + 1, dlen);
                let qpieces = strutil::split_char(&q, '&');
                proof {
                    assert(qpieces@.map_values(|v: Vec<char>| v@) =~= split_on(q@, '&'));
                }
                queries = split_pairs(&qpieces);
                p
            },
            None => strutil::subvec(&decoded, 0, dlen),
        };
        proof {
            assert(decoded@.subrange(0, dlen as int) =~= decoded@);
        }
        let mut headers: Vec<(String, String)> = Vec::new();
        let mut domain: String = String::new();
        let mut cookies: Vec<(String, String)> = Vec::new();
        let ghost hlines = strings_view(header_lines@);
        let sep = strutil::chars_of(": ");
        let cookie_sep = strutil::chars_of("; ");
        proof {
            reveal_strlit("; ");
            assert("; "@.len() == 2);
            reveal_strlit(": ");
            assert(": "@.len() == 2);
            assert(pairs_view(headers@) =~= spec_header_pairs(hlines.take(0)));
        }
        let hn: usize = header_lines.len();
        let mut i: usize = 0;
        while i < hn
            invariant
                hn == header_lines@.len(),
                hn == hlines.len(),
                forall|j: int| 0 <= j < hn ==> #[trigger] header_lines@[j]@ == hlines[j],
                i <= hn,
                sep@ == ": "@,
                sep@.len() == 2,
                cookie_sep@ == "; "@,
                cookie_sep@.len() == 2,
                pairs_view(headers@) == spec_header_pairs(hlines.take(i as int)),
                domain@ == spec_domain_of(spec_header_pairs(hlines.take(i as int))),
                pairs_view(cookies@) == spec_cookies_of(spec_header_pairs(hlines.take(i as int))),
            decreases hn - i,
        {
            let lc = strutil::chars_of(header_lines[i].as_str());
            let t = strutil::trim_end_chars(&lc);
            proof {
                assert(hlines.take(i as int + 1).drop_last() =~= hlines.take(i as int));
                assert(hlines.take(i as int + 1).last() == hlines[i as int]);
                strutil::lemma_first_sub_index(t@, sep@);
            }
            match strutil::find_sub(&t, &sep) {
                Some(si) => {
                    proof {
                        assert(first_sub_index(t@, sep@) == si as int);
                        assert(strutil::matches_at(t@, sep@, si as int));
                    }
                    let tlen: usize = t.len();
                    let key = strutil::subvec(&t, 0, si);
                    let value = strutil::subvec(&t, si + 2, tlen);
                    let key_str = strutil::string_from_chars(&key);
                    let value_str = strutil::string_from_chars(&value);
                    let lowered = strutil::to_lower(&key);
                    let lowkey = strutil::string_from_chars(&lowered);
                    let ghost hp_old = spec_header_pairs(hlines.take(i as int));
                    let ghost hp_new = spec_header_pairs(hlines.take(i as int + 1));
                    let ghost old_hview = pairs_view(headers@);
                    proof {
                        assert(key@ =~= t@.take(si as int));
                        assert(value@ =~= t@.skip(si as int + 2));
                        assert(hp_new == hp_old.push((key@, value@)));
                        assert(hp_new.len() == hp_old.len() + 1);
                        assert(hp_new.last() == (key@, value@));
                        assert(hp_new.drop_last() =~= hp_old);
                    }
                    headers.push((key_str, value_str));
                    proof {
                        assert(pairs_view(headers@) =~= old_hview.push((key@, value@)));
                    }
                    if strutil::str_eq(lowkey.as_str(), "host") {
                        domain = strutil::string_from_chars(&value);
                        proof {
                            assert(spec_lower(key@) == "host"@);
                            assert(spec_domain_of(hp_new) == value@);
                        }
                    } else {
                        proof {
                            assert(spec_lower(key@) != "host"@);
                            assert(spec_domain_of(hp_new) == spec_domain_of(hp_old));
                        }
                    }
                    if strutil::str_eq(lowkey.as_str(), "cookie") {
                        let cpieces = strutil::split_seq(&value, &cookie_sep);
                        proof {
                            assert(cpieces@.map_values(|v: Vec<char>| v@) =~= split_on_seq(
                                value@,
                                "; "@,
                            ));
                            assert(spec_lower(key@) == "cookie"@);
                            assert(spec_cookies_of(hp_new) == spec_pairs_of(
                                split_on_seq(value@, "; "@),
                            ));
                        }
                        cookies = split_pairs(&cpieces);
                    } else {
                        proof {
                            assert(spec_lower(key@) != "cookie"@);
                            assert(spec_cookies_of(hp_new) == spec_cookies_of(hp_old));
                        }
                    }
                },
                None => {},
            }
            i = i + 1;
        }
        proof {
            assert(hlines.take(hn as int) =~= hlines);
        }
        let req = Request {
            version,
            domain,
            path: strutil::string_from_chars(&path_chars),
            method,
            queries,
            headers,
            cookies,
            body: String::new(),
        };
        Some(req)
    }

    /// How many body bytes the request declares, when the method is one
    /// the server serves: the first `Content-Length` header, trimmed and
    /// read as a decimal number. Nothing for unserved methods, a missing
    /// header, or an unreadable value.
    pub fn body_length(&self) -> (r: Option<usize>)
        ensures
            r is Some <==> (spec_is_supported_method(self.method) && spec_content_length_of(
                pairs_view(self.headers@),
            ) is Some),
            r is Some ==> Some(r->Some_0 as nat) == spec_content_length_of(
                pairs_view(self.headers@),
            ),
    {
        if !self.method.is_supported() {
            return None;
        }
        let ghost hp = pairs_view(self.headers@);
        let ghost lowered = spec_lowered_headers(hp);
        proof {
            crate::keyval::lemma_key_index(lowered, "content-length"@);
        }
        let n: usize = self.headers.len();
        let mut i: usize = 0;
        while i < n
            invariant
                n == self.headers@.len(),
                n == lowered.len(),
                spec_is_supported_method(self.method),
                hp == pairs_view(self.headers@),
                lowered == spec_lowered_headers(hp),
                i <= n,
                forall|j: int| 0 <= j < i ==> (#[trigger] lowered[j]).0 != "content-length"@,
            decreases n - i,
        {
            let key_chars = strutil::chars_of(self.headers[i].0.as_str());
            let lowkey_chars = strutil::to_lower(&key_chars);
            let lowkey = strutil::string_from_chars(&lowkey_chars);
            if strutil::str_eq(lowkey.as_str(), "content-length") {
                proof {
                    crate::keyval::lemma_key_index(lowered, "content-length"@);
                    let ki = crate::keyval::key_index(lowered, "content-length"@);
                    assert(ki != -1) by {
                        assert((#[trigger] lowered[i as int]).0 == "content-length"@);
                        assert(crate::keyval::has_key(lowered, "content-length"@));
                    }
                    assert(ki == i as int) by {
                        if ki > i as int {
                            assert((#[trigger] lowered[i as int]).0 != "content-length"@);
                        }
                    }
                }
                let val_chars = strutil::chars_of(self.headers[i].1.as_str());
                let t = strutil::trim_chars(&val_chars);
                proof {
                    assert(lowered[i as int].1 == self.headers@[i as int].1@);
                }
                return strutil::parse_usize(&t);
            }
            proof {
                assert((#[trigger] lowered[i as int]).0 != "content-length"@);
            }
            i = i + 1;
        }
        proof {
            crate::keyval::lemma_key_index(lowered, "content-length"@);
            if crate::keyval::has_key(lowered, "content-length"@) {
                let w = choose|j: int|
                    0 <= j < lowered.len() && (#[trigger] lowered[j]).0 == "content-length"@;
                assert(false);
            }
        }
        None
    }

    /// Store the body that was read for this request.
    pub fn set_body(&mut self, body: String)
        ensures
            final(self).body@ == body@,
            final(self).version == old(self).version,
            final(self).domain == old(self).domain,
            final(self).path == old(self).path,
            final(self).method == old(self).method,
            final(self).queries == old(self).queries,
            final(self).headers == old(self).headers,
            final(self).cookies == old(self).cookies,
    {
        self.body = body;
    }

    /// The textual form of the request: its request line, a repeated
    /// path-and-query line when query pairs exist, and each header as
    /// `Key: Value`, all CRLF-terminated.
    pub fn http_description(&self) -> (r: String)
        ensures
            r@ == spec_request_description(*self),
    {
        let mut out: String = String::new();
        out.append(self.method.as_str());
        out.append(" ");
        out.append(self.path.as_str());
        out.append(" ");
        out.append(self.version.as_str());
        out.append("\r\n");
        let ghost first_line = spec_method_str(self.method) + " "@ + self.path@ + " "@
            + spec_version_str(self.version) + "\r\n"@;
        proof {
            assert(out@ =~= first_line);
        }
        let qn: usize = self.queries.len();
        if qn > 0 {
            let ghost qv = pairs_view(self.queries@);
            let mut qs: String = String::new();
            let mut i: usize = 0;
            proof {
                assert(qv.take(0).len() == 0);
            }
            while i < qn
                invariant
                    qn == self.queries@.len(),
                    qn == qv.len(),
                    qv == pairs_view(self.queries@),
                    i <= qn,
                    i == 0 ==> qs@ == Seq::<char>::empty(),
                    i > 0 ==> qs@ == spec_query_string(qv.take(i as int)),
                decreases qn - i,
            {
                if i > 0 {
                    qs.append("&");
                }
                let k = strutil::trim_string(self.queries[i].0.as_str());
                let v = strutil::trim_string(self.queries[i].1.as_str());
                qs.append(k.as_str());
                qs.append("=");
                qs.append(v.as_str());
                proof {
                    assert(qv.take(i as int + 1).drop_last() =~= qv.take(i as int));
                    assert(qv.take(i as int + 1).last() == qv[i as int]);
                    if i == 0 {
                        assert(qs@ =~= spec_query_string(qv.take(1)));
                    } else {
                        assert(qs@ =~= spec_query_string(qv.take(i as int + 1)));
                    }
                }
                i = i + 1;
            }
            proof {
                assert(qv.take(qn as int) =~= qv);
            }
            out.append(self.path.as_str());
            out.append("?");
            out.append(qs.as_str());
            out.append("\r\n");
            proof {
                assert(out@ =~= first_line + (self.path@ + "?"@ + spec_query_string(qv) + "\r\n"@));
            }
        }
        let ghost before_headers = out@;
        let hn: usize = self.headers.len();
        let ghost hv = pairs_view(self.headers@);
        let mut i: usize = 0;
        proof {
            assert(spec_headers_block(hv.take(0)).len() == 0);
            assert(out@ =~= before_headers + spec_headers_block(hv.take(0)));
        }
        while i < hn
            invariant
                hn == self.headers@.len(),
                hn == hv.len(),
                hv == pairs_view(self.headers@),
                i <= hn,
                out@ == before_headers + spec_headers_block(hv.take(i as int)),
            decreases hn - i,
        {
            let k = strutil::trim_string(self.headers[i].0.as_str());
            let v = strutil::trim_string(self.headers[i].1.as_str());
            out.append(k.as_str());
            out.append(": ");
            out.append(v.as_str());
            out.append("\r\n");
            proof {
                assert(hv.take(i as int + 1).drop_last() =~= hv.take(i as int));
                assert(hv.take(i as int + 1).last() == hv[i as int]);
                assert(out@ =~= before_headers + spec_headers_block(hv.take(i as int + 1)));
            }
            i = i + 1;
        }
        proof {
            assert(hv.take(hn as int) =~= hv);
            if pairs_view(self.queries@).len() == 0 {
                assert(before_headers =~= first_line + Seq::<char>::empty());
                assert(out@ =~= spec_request_description(*self));
            } else {
                assert(out@ =~= spec_request_description(*self));
            }
        }
        out
    }

    /// The textual form of the request; see [`Request::http_description`].
    pub fn to_string(&self) -> (r: String)
        ensures
            r@ == spec_request_description(*self),
    {
        self.http_description()
    }
}

/// The query pairs as a query string: trimmed keys and values, `key=value`
/// joined with `&`.
pub open spec fn spec_query_string(qs: Seq<(Seq<char>, Seq<char>)>) -> Seq<char>
    decreases qs.len(),
{
    if qs.len() == 0 {
        Seq::empty()
    } else if qs.len() == 1 {
        spec_trim(qs[0].0) + "="@ + spec_trim(qs[0].1)
    } else {
        spec_query_string(qs.drop_last()) + "&"@ + spec_trim(qs.last().0) + "="@ + spec_trim(
            qs.last().1,
        )
    }
}

/// Headers serialized as `Key: Value` lines, trimmed, CRLF-terminated.
pub open spec fn spec_headers_block(hs: Seq<(Seq<char>, Seq<char>)>) -> Seq<char>
    decreases hs.len(),
{
    if hs.len() == 0 {
        Seq::empty()
    } else {
        spec_headers_block(hs.drop_last()) + spec_trim(hs.last().0) + ": "@ + spec_trim(
            hs.last().1,
        ) + "\r\n"@
    }
}

/// Parsing recovers a request line exactly: for any method of the
/// vocabulary, any nonempty whitespace-free target, and any version, the
/// line `METHOD SP target SP HTTP/version` tokenizes into those three
/// parts, the method and version tokens are recognized as what was
/// supplied, and the target is handed on for decoding.
pub proof fn lemma_request_line_round_trip(m: HttpMethod, p: Seq<char>, v: HttpVersion)
    requires
        p.len() > 0,
        forall|i: int| 0 <= i < p.len() ==> !strutil::is_ws_char(#[trigger] p[i]),
    ensures
        ({
            let line = spec_method_str(m) + " "@ + p + " "@ + spec_version_str(v);
            &&& spec_request_line_ok(line)
            &&& split_ws(line).len() == 3
            &&& split_ws(line)[0] == spec_method_str(m)
            &&& split_ws(line)[1] == p
            &&& split_ws(line)[2] == spec_version_str(v)
            &&& spec_method_from(split_ws(line)[0]) == Some(m)
            &&& spec_version_from(spec_replace(split_ws(line)[2], "HTTP/"@, Seq::empty()))
                == Some(v)
        }),
{
    reveal_strlit(" ");
    assert(" "@ =~= seq![' ']);
    reveal_strlit("GET");
    reveal_strlit("HEAD");
    reveal_strlit("POST");
    reveal_strlit("PUT");
    reveal_strlit("DELETE");
    reveal_strlit("CONNECT");
    reveal_strlit("OPTIONS");
    reveal_strlit("TRACE");
    reveal_strlit("PATCH");
    reveal_strlit("HTTP/1.0");
    reveal_strlit("HTTP/1.1");
    reveal_strlit("HTTP/2.0");
    reveal_strlit("HTTP/3.0");
    reveal_strlit("HTTP/");
    reveal_strlit("1.0");
    reveal_strlit("1.1");
    reveal_strlit("2.0");
    reveal_strlit("3.0");
    let ms = spec_method_str(m);
    let vs = spec_version_str(v);
    assert(forall|i: int| 0 <= i < ms.len() ==> !strutil::is_ws_char(#[trigger] ms[i]));
    assert(forall|i: int| 0 <= i < vs.len() ==> !strutil::is_ws_char(#[trigger] vs[i]));
    let line = ms + " "@ + p + " "@ + vs;
    let k1 = ms.len() as int;
    assert(line[k1] == ' ');
    assert(forall|j: int| 0 <= j < k1 ==> line[j] == ms[j]);
    strutil::lemma_split_ws_token(line, k1);
    assert(line.take(k1) =~= ms);
    let rest1 = line.skip(k1);
    assert(rest1[0] == ' ');
    let rest2 = rest1.drop_first();
    assert(rest2 =~= p + " "@ + vs);
    assert(split_ws(rest1) == split_ws(rest2));
    let k2 = p.len() as int;
    assert(rest2[k2] == ' ');
    assert(forall|j: int| 0 <= j < k2 ==> rest2[j] == p[j]);
    strutil::lemma_split_ws_token(rest2, k2);
    assert(rest2.take(k2) =~= p);
    let rest3 = rest2.skip(k2);
    assert(rest3[0] == ' ');
    let rest4 = rest3.drop_first();
    assert(rest4 =~= vs);
    assert(split_ws(rest3) == split_ws(rest4));
    let k3 = vs.len() as int;
    assert(forall|j: int| 0 <= j < k3 ==> rest4[j] == vs[j]);
    strutil::lemma_split_ws_token(rest4, k3);
    assert(rest4.take(k3) =~= vs);
    assert(rest4.skip(k3) =~= Seq::<char>::empty());
    assert(split_ws(rest4.skip(k3)) =~= Seq::<Seq<char>>::empty());
    assert(split_ws(line) =~= seq![ms, p, vs]);
    crate::http::lemma_method_round_trip(m);
    assert(vs.take(5) =~= "HTTP/"@);
    assert(first_sub_index(vs, "HTTP/"@) == 0);
    let tail = vs.skip(5);
    assert(spec_replace(vs, "HTTP/"@, Seq::empty()) == vs.take(0) + Seq::<char>::empty()
        + spec_replace(tail, "HTTP/"@, Seq::empty()));
    assert(tail.len() == 3);
    assert(spec_replace(tail, "HTTP/"@, Seq::empty()) == tail);
    assert(vs.take(0) + Seq::<char>::empty() + tail =~= tail);
    assert("1.0"@[0] == '1' && "1.0"@[2] == '0');
    assert("1.1"@[0] == '1' && "1.1"@[2] == '1');
    assert("2.0"@[0] == '2' && "2.0"@[2] == '0');
    assert("3.0"@[0] == '3' && "3.0"@[2] == '0');
    match v {
        HttpVersion::Http10 => {
            assert(tail =~= "1.0"@);
            assert(spec_version_from(tail) == Some(HttpVersion::Http10));
        },
        HttpVersion::Http11 => {
            assert(tail =~= "1.1"@);
            assert(tail != "1.0"@) by {
                assert(tail[2] == '1');
            }
            assert(spec_version_from(tail) == Some(HttpVersion::Http11));
        },
        HttpVersion::Http20 => {
            assert(tail =~= "2.0"@);
            assert(tail != "1.0"@ && tail != "1.1"@) by {
                assert(tail[0] == '2');
            }
            assert(spec_version_from(tail) == Some(HttpVersion::Http20));
        },
        HttpVersion::Http30 => {
            assert(tail =~= "3.0"@);
            assert(tail != "1.0"@ && tail != "1.1"@ && tail != "2.0"@) by {
                assert(tail[0] == '3');
            }
            assert(spec_version_from(tail) == Some(HttpVersion::Http30));
        },
    }
    assert(spec_version_from(spec_replace(vs, "HTTP/"@, Seq::empty())) == Some(v));
}

/// The textual form of a request: request line, a path-and-query line when
/// query pairs exist, then the headers.
pub open spec fn spec_request_description(req: Request) -> Seq<char> {
    let first_line = spec_method_str(req.method) + " "@ + req.path@ + " "@ + spec_version_str(
        req.version,
    ) + "\r\n"@;
    let query_line = if pairs_view(req.queries@).len() == 0 {
        Seq::<char>::empty()
    } else {
        req.path@ + "?"@ + spec_query_string(pairs_view(req.queries@)) + "\r\n"@
    };
    first_line + query_line + spec_headers_block(pairs_view(req.headers@))
}

} // verus!

