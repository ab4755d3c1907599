//! The response engine: path policy, file and directory serving, error
//! pages, byte-range plans and wire serialization.
//!
//! The filesystem itself is probed elsewhere; this module receives the
//! probe's findings as plain values (a file's size and permissions, a
//! directory's entries) and decides everything else: policy, status,
//! headers, body, and how the bytes are to be sent.

use vstd::prelude::*;
use vstd::utf8::{encode_utf8, valid_utf8, decode_utf8};
use crate::http::{HttpStatus, HttpVersion, spec_status_code, spec_status_message, spec_version_str};
use crate::keyval::{KeyVal, spec_kv_add};
use crate::request::{Request, spec_headers_block};
use crate::strutil;
use crate::strutil::{
    first_sub_index, last_index_of, spec_dec, spec_lower, spec_replace, spec_trim, split_on,
    strip_leading,
};
use crate::templates::{Templates, TemplatesPage, spec_render};

verus! {

/// Size of one chunk of a streamed file body.
pub const CHUNK_SIZE: usize = 1024;

/// Upper bound on a body that is buffered whole; larger files are streamed.
pub const MAX_SIZE_ALL_AT_ONCE: usize = 1048576;

/// What the characters of lossy UTF-8 decoding are, for a given byte
/// sequence; the decoding depends on the bytes alone.
pub uninterp spec fn lossy_utf8(bytes: Seq<u8>) -> Seq<char>;

/// Decode bytes as UTF-8, replacing invalid sequences.
///
/// Relies on `String::from_utf8_lossy`: the result depends on the bytes
/// alone, and valid UTF-8 decodes unchanged.
#[verifier::external_body]
fn lossy_string_of(bytes: &Vec<u8>) -> (r: String)
    ensures
        r@ == lossy_utf8(bytes@),
        valid_utf8(bytes@) ==> r@ == decode_utf8(bytes@),
{
    String::from_utf8_lossy(bytes.as_slice()).to_string()
}

/// `path` relative to `root`: the part after the root prefix, leading
/// slashes stripped; or `/` when `path` does not start with `root`.
pub open spec fn spec_relative(root: Seq<char>, path: Seq<char>) -> Seq<char> {
    if path.len() >= root.len() && path.take(root.len() as int) == root {
        strip_leading(path.skip(root.len() as int), '/')
    } else {
        "/"@
    }
}

/// `s` with the literal prefix `p` removed, or `s` itself when `p` is not
/// its prefix.
pub open spec fn spec_strip_prefix(s: Seq<char>, p: Seq<char>) -> Seq<char> {
    if s.len() >= p.len() && s.take(p.len() as int) == p {
        s.skip(p.len() as int)
    } else {
        s
    }
}

/// The last segment of a slash-separated path.
pub open spec fn spec_file_name(path: Seq<char>) -> Seq<char> {
    let i = last_index_of(path, '/');
    if i == -1 {
        path
    } else {
        path.skip(i + 1)
    }
}

/// The extension of a file name: what follows the last dot, unless the
/// name has no dot or only a leading one.
pub open spec fn spec_extension(name: Seq<char>) -> Seq<char> {
    let di = last_index_of(name, '.');
    if di <= 0 {
        Seq::empty()
    } else {
        name.skip(di + 1)
    }
}

/// The dotfile policy: a path whose part relative to the root starts with
/// `.` or `/.` is denied, unless the relative path contains the literal
/// text `.well-known` anywhere. A substring test, not a segment test.
pub open spec fn spec_dotfile_denied(root: Seq<char>, path: Seq<char>) -> bool {
    let rel = spec_relative(root, path);
    &&& ((rel.len() >= 2 && rel.take(2) == "/."@) || (rel.len() >= 1 && rel[0] == '.'))
    &&& first_sub_index(rel, ".well-known"@) == -1
}

/// The body of an error page for `status`: the error template with the
/// numeric code, the reason phrase and a fixed generic message.
pub open spec fn spec_error_body(t: Templates, status: HttpStatus) -> Seq<char> {
    spec_render(
        t.spec_page(TemplatesPage::ERROR),
        seq![
            ("status_code"@, spec_dec(spec_status_code(status) as nat)),
            ("status_text"@, spec_status_message(status)),
            ("error_message"@, "Something went wrong !"@),
        ],
    )
}

/// A response filled in as an error page: the status, the rendered page
/// as body, a lone `Content-Type: text/html` header, the measured size,
/// and the compiled mark.
pub open spec fn spec_error_filled(new: Response, t: Templates, status: HttpStatus) -> bool {
    &&& new.status_code == status
    &&& new.body@ == encode_utf8(spec_error_body(t, status))
    &&& new.headers.view_pairs() == seq![("Content-Type"@, "text/html"@)]
    &&& new.size == new.body@.len()
    &&& new.is_compiled
    &&& new.headers.wf()
}

/// The content type served for an extension: its table entry, or the
/// generic byte stream for an unknown or empty extension.
pub open spec fn spec_content_type_of(ext: Seq<char>) -> Seq<char> {
    let key = spec_lower(ext);
    let i = crate::keyval::key_index(crate::filetype::spec_file_types(), key);
    if i == -1 {
        "application/octet-stream"@
    } else {
        crate::filetype::spec_file_types()[i].1
    }
}

/// The status line of a response.
pub open spec fn spec_status_line(v: HttpVersion, s: HttpStatus) -> Seq<char> {
    spec_version_str(v) + " "@ + spec_dec(spec_status_code(s) as nat) + " "@ + spec_status_message(
        s,
    ) + "\r\n"@
}

/// Cookies serialized as `Set-Cookie: Key=Value` lines, trimmed,
/// CRLF-terminated.
pub open spec fn spec_cookies_block(cs: Seq<(Seq<char>, Seq<char>)>) -> Seq<char>
    decreases cs.len(),
{
    if cs.len() == 0 {
        Seq::empty()
    } else {
        spec_cookies_block(cs.drop_last()) + "Set-Cookie: "@ + spec_trim(cs.last().0) + "="@
            + spec_trim(cs.last().1) + "\r\n"@
    }
}

/// The head of a response on the wire: status line, headers, cookies.
pub open spec fn spec_response_description(r: Response) -> Seq<char> {
    spec_status_line(r.http_version, r.status_code) + spec_headers_block(r.headers.view_pairs())
        + spec_cookies_block(r.cookies.view_pairs())
}

/// The view of a directory entry list: each entry is its kind (the word
/// `directory` or `file`), its name, and its full path.
pub open spec fn entries_view(es: Seq<(String, String, String)>) -> Seq<
    (Seq<char>, Seq<char>, Seq<char>),
> {
    es.map_values(|e: (String, String, String)| (e.0@, e.1@, e.2@))
}

/// Insert an entry into a name-sorted entry list, before the first entry
/// whose name does not come first.
pub open spec fn spec_insert_entry(
    e: (Seq<char>, Seq<char>, Seq<char>),
    s: Seq<(Seq<char>, Seq<char>, Seq<char>)>,
) -> Seq<(Seq<char>, Seq<char>, Seq<char>)>
    decreases s.len(),
{
    if s.len() == 0 {
        seq![e]
    } else if strutil::lex_le(e.1, s[0].1) {
        seq![e] + s
    } else {
        seq![s[0]] + spec_insert_entry(e, s.drop_first())
    }
}

/// Entries sorted by name, by insertion.
pub open spec fn spec_sort_entries(s: Seq<(Seq<char>, Seq<char>, Seq<char>)>) -> Seq<
    (Seq<char>, Seq<char>, Seq<char>),
>
    decreases s.len(),
{
    if s.len() == 0 {
        s
    } else {
        spec_insert_entry(s.last(), spec_sort_entries(s.drop_last()))
    }
}

/// The entries that are directories (`want_dir`) or are not, in order.
pub open spec fn spec_partition_entries(
    s: Seq<(Seq<char>, Seq<char>, Seq<char>)>,
    want_dir: bool,
) -> Seq<(Seq<char>, Seq<char>, Seq<char>)>
    decreases s.len(),
{
    if s.len() == 0 {
        Seq::empty()
    } else {
        spec_partition_entries(s.drop_last(), want_dir) + if (s.last().0 == "directory"@)
            == want_dir {
            seq![s.last()]
        } else {
            Seq::empty()
        }
    }
}

/// One listing line: an anchor for `href` labelled `name`.
pub open spec fn spec_li(href: Seq<char>, name: Seq<char>) -> Seq<char> {
    "<li><a href='"@ + href + "'>"@ + name + "</a></li>"@
}

/// The listing lines for `es`, each href the entry path relative to the
/// normalized root.
pub open spec fn spec_listing_items(
    es: Seq<(Seq<char>, Seq<char>, Seq<char>)>,
    rootn: Seq<char>,
) -> Seq<char>
    decreases es.len(),
{
    if es.len() == 0 {
        Seq::empty()
    } else {
        spec_listing_items(es.drop_last(), rootn) + spec_li(
            spec_strip_prefix(es.last().2, rootn),
            es.last().1,
        )
    }
}

/// The generated content of a directory listing: a parent link unless the
/// folder is the root itself, a placeholder when there is nothing to list,
/// then the directories and then the files, each block sorted by name.
pub open spec fn spec_directory_content(
    entries: Seq<(Seq<char>, Seq<char>, Seq<char>)>,
    rel0: Seq<char>,
    rootn: Seq<char>,
) -> Seq<char> {
    let sorted = spec_sort_entries(entries);
    let parent = if rel0.len() == 0 {
        Seq::<char>::empty()
    } else {
        "<li><a href='../'>..</a></li>"@
    };
    let note = if entries.len() == 0 {
        "<li><b>Empty Folder</b></li>"@
    } else {
        Seq::<char>::empty()
    };
    parent + note + spec_listing_items(spec_partition_entries(sorted, true), rootn)
        + spec_listing_items(spec_partition_entries(sorted, false), rootn)
}

/// Where [`spec_insert_entry`] puts the new entry: at the first position
/// whose entry's name does not come before the new name.
pub proof fn lemma_insert_entry_at(
    e: (Seq<char>, Seq<char>, Seq<char>),
    s: Seq<(Seq<char>, Seq<char>, Seq<char>)>,
    i: int,
)
    requires
        0 <= i <= s.len(),
        forall|j: int| 0 <= j < i ==> !strutil::lex_le(e.1, (#[trigger] s[j]).1),
        i < s.len() ==> strutil::lex_le(e.1, s[i].1),
    ensures
        spec_insert_entry(e, s) == s.take(i) + seq![e] + s.skip(i),
    decreases i,
{
    if s.len() == 0 {
        assert(s.take(0) + seq![e] + s.skip(0) =~= seq![e]);
    } else if i == 0 {
        assert(s.take(0) + seq![e] + s.skip(0) =~= seq![e] + s);
    } else {
        let t = s.drop_first();
        lemma_insert_entry_at(e, t, i - 1);
        assert(forall|j: int| 0 <= j < i - 1 ==> t[j] == s[j + 1]);
        assert(spec_insert_entry(e, s) == seq![s[0]] + spec_insert_entry(e, t));
        assert(t.take(i - 1) =~= s.take(i).drop_first());
        assert(t.skip(i - 1) =~= s.skip(i));
        assert(seq![s[0]] + (t.take(i - 1) + seq![e] + t.skip(i - 1)) =~= s.take(i) + seq![e]
            + s.skip(i));
    }
}

/// Insert `e` into the name-sorted `out`.
fn insert_entry(out: &mut Vec<(String, String, String)>, e: (String, String, String))
    ensures
        entries_view(final(out)@) == spec_insert_entry(
            (e.0@, e.1@, e.2@),
            entries_view(old(out)@),
        ),
{
    let ghost ev = (e.0@, e.1@, e.2@);
    let ghost sv = entries_view(out@);
    let n: usize = out.len();
    let e_name = strutil::chars_of(e.1.as_str());
    let mut i: usize = 0;
    while i < n
        invariant
            n == out@.len(),
            n == sv.len(),
            out@ == old(out)@,
            sv == entries_view(out@),
            ev == (e.0@, e.1@, e.2@),
            e_name@ == ev.1,
            i <= n,
            forall|j: int| 0 <= j < i ==> !strutil::lex_le(ev.1, (#[trigger] sv[j]).1),
        decreases n - i,
    {
        let cur_name = strutil::chars_of(out[i].1.as_str());
        if strutil::chars_le(&e_name, &cur_name) {
            proof {
                lemma_insert_entry_at(ev, sv, i as int);
            }
            let ghost before = out@;
            out.insert(i, e);
            proof {
                assert(out@ =~= before.take(i as int) + seq![(e.0, e.1, e.2)] + before.skip(
                    i as int,
                ));
                assert(entries_view(out@) =~= sv.take(i as int) + seq![ev] + sv.skip(i as int));
            }
            return ;
        }
        i = i + 1;
    }
    proof {
        lemma_insert_entry_at(ev, sv, n as int);
    }
    out.push(e);
    proof {
        assert(sv.take(n as int) =~= sv);
        assert(sv.skip(n as int) =~= Seq::<(Seq<char>, Seq<char>, Seq<char>)>::empty());
        assert(entries_view(out@) =~= sv.take(n as int) + seq![ev] + sv.skip(n as int));
    }
}

/// Sort directory entries by name.
pub fn sort_entries(entries: &Vec<(String, String, String)>) -> (r: Vec<(String, String, String)>)
    ensures
        entries_view(r@) == spec_sort_entries(entries_view(entries@)),
{
    let ghost ev = entries_view(entries@);
    let n: usize = entries.len();
    let mut out: Vec<(String, String, String)> = Vec::new();
    let mut i: usize = 0;
    proof {
        assert(entries_view(out@) =~= spec_sort_entries(ev.take(0)));
    }
    while i < n
        invariant
            n == entries@.len(),
            n == ev.len(),
            ev == entries_view(entries@),
            i <= n,
            entries_view(out@) == spec_sort_entries(ev.take(i as int)),
        decreases n - i,
    {
        let e = (entries[i].0.clone(), entries[i].1.clone(), entries[i].2.clone());
        proof {
            assert((e.0@, e.1@, e.2@) == ev[i as int]);
            assert(ev.take(i as int + 1).drop_last() =~= ev.take(i as int));
            assert(ev.take(i as int + 1).last() == ev[i as int]);
        }
        insert_entry(&mut out, e);
        i = i + 1;
    }
    proof {
        assert(ev.take(n as int) =~= ev);
    }
    out
}

/// What serving a probed file leaves in place: 403 for a denied dotfile,
/// 404 when it cannot be opened, 500 when it cannot be read, and otherwise
/// a 200 head whose headers carry the content type and disposition of the
/// extension (or nothing, for an extension-less name), with the size
/// measured and large bodies marked for streaming.
pub open spec fn spec_served_file(
    new: Response,
    old: Response,
    root: Seq<char>,
    path: Seq<char>,
    meta: FileMeta,
) -> bool {
    let name = spec_file_name(path);
    let denied = spec_dotfile_denied(root, path) || (name.len() > 0 && name[0] == '.' && name
        != ".well-known"@);
    let ext = spec_extension(name);
    let ct = spec_content_type_of(ext);
    &&& new.request == old.request
    &&& new.templates == old.templates
    &&& new.http_version == old.http_version
    &&& new.cookies == old.cookies
    &&& if denied {
        &&& spec_error_filled(new, old.templates, HttpStatus::Forbidden)
        &&& new.path == old.path
        &&& new.need_stream == old.need_stream
    } else if !meta.openable {
        &&& spec_error_filled(new, old.templates, HttpStatus::NotFound)
        &&& new.path@ == path
        &&& new.need_stream == old.need_stream
    } else if !meta.readable {
        &&& spec_error_filled(new, old.templates, HttpStatus::InternalServerError)
        &&& new.path@ == path
        &&& new.need_stream == old.need_stream
    } else {
        &&& new.status_code == HttpStatus::OK
        &&& new.path@ == path
        &&& new.size == meta.size
        &&& new.need_stream == (meta.size > 1048576)
        &&& new.body == old.body
        &&& new.is_compiled == old.is_compiled
        &&& new.headers.view_pairs() == if ext.len() == 0 {
            Seq::<(Seq<char>, Seq<char>)>::empty()
        } else {
            seq![
                ("Content-Type"@, ct),
                (
                    "Content-Disposition"@,
                    if crate::filetype::spec_is_inline(ct) {
                        "inline"@
                    } else {
                        "attachment"@
                    },
                ),
            ]
        }
    }
}

/// What serving a probed directory leaves in place: 403 when the relative
/// path names a dotfile, and otherwise a compiled 200 response whose body
/// is the rendered listing page.
pub open spec fn spec_served_directory(
    new: Response,
    old: Response,
    root: Seq<char>,
    path: Seq<char>,
    entries: Seq<(Seq<char>, Seq<char>, Seq<char>)>,
) -> bool {
    let rel0 = spec_relative(root, path);
    let rootn = spec_trim(spec_replace(root, "\\"@, "/"@));
    &&& new.request == old.request
    &&& new.templates == old.templates
    &&& new.http_version == old.http_version
    &&& new.cookies == old.cookies
    &&& if rel0.len() >= 1 && rel0[0] == '.' {
        &&& spec_error_filled(new, old.templates, HttpStatus::Forbidden)
        &&& new.path == old.path
        &&& new.need_stream == old.need_stream
    } else {
        &&& new.status_code == HttpStatus::OK
        &&& new.path@ == path
        &&& new.is_compiled
        &&& new.need_stream == old.need_stream
        &&& new.body@ == encode_utf8(
            spec_render(
                old.templates.spec_page(TemplatesPage::DIRECTORY),
                seq![
                    ("folder"@, seq!['/'] + rel0),
                    ("directory_content"@, spec_directory_content(entries, rel0, rootn)),
                ],
            ),
        )
        &&& new.size == new.body@.len()
        &&& new.headers.view_pairs() == seq![("Content-Type"@, "text/html"@)]
    }
}

/// What a filesystem probe said of a regular file: whether it could be
/// opened, its size in bytes, and whether it is readable.
#[derive(Debug, Clone, Copy)]
pub struct FileMeta {
    pub openable: bool,
    pub size: usize,
    pub readable: bool,
}

/// How a response's bytes are to leave: written whole from memory, read
/// from the file whole and then written, or streamed in chunks.
#[derive(Debug, Clone, Copy, PartialEq, Eq, Structural)]
pub enum SendAction {
    WriteAll,
    ReadFileThenWrite,
    Chunked,
}

/// How a chunked send proceeds: a malformed range was rejected (400), an
/// unsatisfiable one refused (416, head only), a byte range granted, or
/// the whole file streamed.
#[derive(Debug, Clone, Copy, PartialEq, Eq, Structural)]
pub enum ChunkAction {
    BadRequest,
    Unsatisfiable,
    Range { start: usize, end: usize },
    Whole,
}

/// The value of the request's first `Range` header, by lowered name.
pub open spec fn spec_range_header(req: Request) -> Option<Seq<char>> {
    let lowered = crate::request::spec_lowered_headers(
        crate::request::pairs_view(req.headers@),
    );
    let ki = crate::keyval::key_index(lowered, "range"@);
    if ki == -1 {
        None
    } else {
        Some(lowered[ki].1)
    }
}

/// A range field read as a decimal number, or the default when it is not
/// one that fits.
pub open spec fn spec_range_field(s: Seq<char>, default: nat) -> nat {
    if s.len() > 0 && strutil::all_dec_digits(s) && strutil::dec_val(s) <= usize::MAX {
        strutil::dec_val(s)
    } else {
        default
    }
}

/// For a buffered response — one that is neither streamed nor compiled —
/// the `Content-Length` recorded at send time equals the byte length of
/// the body that is then read for it: [`Response::prepare_send`] stores
/// the measured size, and the body read for a `ReadFileThenWrite` action
/// has exactly that many bytes.
pub proof fn lemma_buffered_content_length(
    headers: Seq<(Seq<char>, Seq<char>)>,
    size: usize,
    body: Seq<u8>,
)
    requires
        body.len() == size,
    ensures
        ({
            let sent = spec_kv_add(headers, "Content-Length"@, spec_dec(size as nat));
            &&& crate::keyval::has_key(sent, "Content-Length"@)
            &&& crate::keyval::value_of(sent, "Content-Length"@) == spec_dec(body.len())
        }),
{
    crate::keyval::lemma_kv_add(headers, "Content-Length"@, spec_dec(size as nat));
}

/// What the filesystem said a request path names: a probed regular file
/// (or a directory's `index.html`), a directory with its visible entries,
/// or nothing.
#[derive(Debug)]
pub enum Resolved {
    File { path: String, meta: FileMeta },
    Directory { path: String, entries: Vec<(String, String, String)> },
    Missing,
}

/// An HTTP response under construction: the request it answers, the shared
/// templates, its status, headers, cookies and body, and the facts the
/// send step needs — the resolved file path, the measured size, whether
/// the body must be streamed, and whether it was generated in memory.
#[derive(Debug)]
pub struct Response {
    pub request: Request,
    pub templates: Templates,
    pub http_version: HttpVersion,
    pub status_code: HttpStatus,
    pub headers: KeyVal,
    pub cookies: KeyVal,
    pub body: Vec<u8>,
    pub size: usize,
    pub path: String,
    pub need_stream: bool,
    pub is_compiled: bool,
}

impl Response {
    /// The header and cookie stores are well formed.
    pub open spec fn wf(&self) -> bool {
        &&& self.headers.wf()
        &&& self.cookies.wf()
    }

    /// A fresh response for `request`: HTTP/1.1, status 200, no headers,
    /// no cookies, no body.
    pub fn new(request: Request, templates: Templates) -> (r: Option<Self>)
        ensures
            r is Some,
            ({
                let resp = r->Some_0;
                &&& resp.request == request
                &&& resp.templates == templates
                &&& resp.http_version == HttpVersion::Http11
                &&& resp.status_code == HttpStatus::OK
                &&& resp.headers.view_pairs() == Seq::<(Seq<char>, Seq<char>)>::empty()
                &&& resp.cookies.view_pairs() == Seq::<(Seq<char>, Seq<char>)>::empty()
                &&& resp.body@ == Seq::<u8>::empty()
                &&& resp.size == 0
                &&& resp.path@ == Seq::<char>::empty()
                &&& !resp.need_stream
                &&& !resp.is_compiled
                &&& resp.wf()
            }),
    {
        let resp = Response {
            request,
            templates,
            http_version: HttpVersion::Http11,
            status_code: HttpStatus::OK,
            headers: KeyVal::new(),
            cookies: KeyVal::new(),
            body: Vec::new(),
            size: 0,
            path: String::new(),
            need_stream: false,
            is_compiled: false,
        };
        proof {
            assert(resp.body@ =~= Seq::<u8>::empty());
        }
        Some(resp)
    }

    /// What serving an error leaves in place: the status, the rendered
    /// error page as body, a lone `Content-Type: text/html` header, the
    /// measured size, and the compiled mark; everything else stays.
    pub open spec fn spec_is_error_of(new: Response, old: Response, status: HttpStatus) -> bool {
        &&& new.status_code == status
        &&& new.body@ == encode_utf8(spec_error_body(old.templates, status))
        &&& new.headers.view_pairs() == seq![("Content-Type"@, "text/html"@)]
        &&& new.size == new.body@.len()
        &&& new.is_compiled
        &&& new.request == old.request
        &&& new.templates == old.templates
        &&& new.http_version == old.http_version
        &&& new.cookies == old.cookies
        &&& new.path == old.path
        &&& new.need_stream == old.need_stream
        &&& new.cookies.wf() == old.cookies.wf()
        &&& new.headers.wf()
    }

    /// Turn the response into an error page for `status`.
    pub fn serve_error_response(&mut self, status: HttpStatus)
        ensures
            Self::spec_is_error_of(*final(self), *old(self), status),
    {
        let mut params: Vec<(String, String)> = Vec::new();
        params.push(("status_code".to_owned(), strutil::u64_to_string(status.to_code() as u64)));
        params.push(("status_text".to_owned(), status.to_message().to_owned()));
        params.push(("error_message".to_owned(), "Something went wrong !".to_owned()));
        let rendered = self.templates.render(TemplatesPage::ERROR, &params);
        proof {
            assert(params@.map_values(|p: (String, String)| (p.0@, p.1@)) =~= seq![
                ("status_code"@, spec_dec(spec_status_code(status) as nat)),
                ("status_text"@, spec_status_message(status)),
                ("error_message"@, "Something went wrong !"@),
            ]);
        }
        self.status_code = status;
        self.body = rendered.as_str().as_bytes_vec();
        self.headers.clear();
        self.headers.add("Content-Type".to_owned(), "text/html".to_owned());
        self.size = self.body.len();
        self.is_compiled = true;
        proof {
            assert(self.headers.view_pairs() =~= seq![("Content-Type"@, "text/html"@)]);
        }
    }

    /// The head of the response: `<version> <code> <message>`, then each
    /// header as `Key: Value`, then each cookie as `Set-Cookie: Key=Value`,
    /// every line CRLF-terminated.
    pub fn http_description(&self) -> (r: String)
        ensures
            r@ == spec_response_description(*self),
    {
        let mut out: String = String::new();
        out.append(self.http_version.as_str());
        out.append(" ");
        let code = strutil::u64_to_string(self.status_code.to_code() as u64);
        out.append(code.as_str());
        out.append(" ");
        out.append(self.status_code.to_message());
        out.append("\r\n");
        let ghost status_line = spec_status_line(self.http_version, self.status_code);
        proof {
            assert(out@ =~= status_line);
        }
        let hs = self.headers.iter();
        let hn: usize = hs.len();
        let ghost hv = self.headers.view_pairs();
        let mut i: usize = 0;
        proof {
            assert(spec_headers_block(hv.take(0)).len() == 0);
            assert(out@ =~= status_line + spec_headers_block(hv.take(0)));
        }
        while i < hn
            invariant
                hn == hs@.len(),
                hn == hv.len(),
                forall|j: int|
                    0 <= j < hn ==> ((#[trigger] hs@[j]).0@, hs@[j].1@) == hv[j],
                i <= hn,
                out@ == status_line + spec_headers_block(hv.take(i as int)),
        decreases hn - i,
        {
            let k = strutil::trim_string(hs[i].0.as_str());
            let v = strutil::trim_string(hs[i].1.as_str());
            out.append(k.as_str());
            out.append(": ");
            out.append(v.as_str());
            out.append("\r\n");
            proof {
                assert(hv.take(i as int + 1).drop_last() =~= hv.take(i as int));
                assert(hv.take(i as int + 1).last() == hv[i as int]);
                assert(out@ =~= status_line + spec_headers_block(hv.take(i as int + 1)));
            }
            i = i + 1;
        }
        proof {
            assert(hv.take(hn as int) =~= hv);
        }
        let ghost with_headers = out@;
        let cs = self.cookies.iter();
        let cn: usize = cs.len();
        let ghost cv = self.cookies.view_pairs();
        let mut i: usize = 0;
        proof {
            assert(spec_cookies_block(cv.take(0)).len() == 0);
            assert(out@ =~= with_headers + spec_cookies_block(cv.take(0)));
        }
        while i < cn
            invariant
                cn == cs@.len(),
                cn == cv.len(),
                forall|j: int|
                    0 <= j < cn ==> ((#[trigger] cs@[j]).0@, cs@[j].1@) == cv[j],
                i <= cn,
                out@ == with_headers + spec_cookies_block(cv.take(i as int)),
        decreases cn - i,
        {
            let k = strutil::trim_string(cs[i].0.as_str());
            let v = strutil::trim_string(cs[i].1.as_str());
            out.append("Set-Cookie: ");
            out.append(k.as_str());
            out.append("=");
            out.append(v.as_str());
            out.append("\r\n");
            proof {
                assert(cv.take(i as int + 1).drop_last() =~= cv.take(i as int));
                assert(cv.take(i as int + 1).last() == cv[i as int]);
                assert(out@ =~= with_headers + spec_cookies_block(cv.take(i as int + 1)));
            }
            i = i + 1;
        }
        proof {
            assert(cv.take(cn as int) =~= cv);
            assert(out@ =~= spec_response_description(*self));
        }
        out
    }

    /// The response as text: head, blank line, and the body decoded
    /// leniently as UTF-8.
    pub fn to_string(&self) -> (r: String)
        ensures
            r@ == spec_response_description(*self) + "\r\n"@ + lossy_utf8(self.body@),
    {
        let mut out = self.http_description();
        out.append("\r\n");
        let body = lossy_string_of(&self.body);
        out.append(body.as_str());
        out
    }

    /// The response as wire bytes: head, blank line, raw body.
    pub fn to_bytes(&self) -> (r: Vec<u8>)
        ensures
            r@ == encode_utf8(spec_response_description(*self)) + encode_utf8("\r\n"@)
                + self.body@,
    {
        let desc = self.http_description();
        let mut bytes: Vec<u8> = Vec::new();
        bytes.extend_from_slice(desc.as_str().as_bytes());
        bytes.extend_from_slice("\r\n".as_bytes());
        bytes.extend_from_slice(self.body.as_slice());
        proof {
            assert(bytes@ =~= encode_utf8(spec_response_description(*self)) + encode_utf8("\r\n"@)
                + self.body@);
        }
        bytes
    }

    /// Serve a regular file, already probed: apply the dotfile policy,
    /// look the extension up, refuse what cannot be opened (404) or read
    /// (500), measure the size, and decide whether the body must be
    /// streamed. The file's bytes are not touched here.
    pub fn serve_file(&mut self, root_path: &str, path: String, meta: FileMeta)
        requires
            old(self).wf(),
        ensures
            final(self).wf(),
            spec_served_file(*final(self), *old(self), root_path@, path@, meta),
    {
        let path_chars = strutil::chars_of(path.as_str());
        let root_chars = strutil::chars_of(root_path);
        let plen: usize = path_chars.len();
        proof {
            strutil::lemma_last_index_of(path_chars@, '/');
        }
        let name: Vec<char> = match strutil::rfind_char(&path_chars, '/') {
            Some(i) => {
                let v = strutil::subvec(&path_chars, i + 1, plen);
                proof {
                    assert(v@ =~= path_chars@.skip(i as int + 1));
                }
                v
            },
            None => {
                let v = strutil::subvec(&path_chars, 0, plen);
                proof {
                    assert(v@ =~= path_chars@);
                }
                v
            },
        };
        let ghost name_spec = spec_file_name(path@);
        proof {
            assert(name@ == name_spec);
        }
        let rel: Vec<char> = if strutil::starts_with(&path_chars, &root_chars) {
            let after = strutil::subvec(&path_chars, root_chars.len(), plen);
            proof {
                assert(after@ =~= path_chars@.skip(root_chars@.len() as int));
            }
            strutil::strip_leading_chars(&after, '/')
        } else {
            strutil::chars_of("/")
        };
        let ghost rel_spec = spec_relative(root_path@, path@);
        proof {
            assert(rel@ == rel_spec);
        }
        let wk = strutil::chars_of(".well-known");
        proof {
            reveal_strlit(".well-known");
            reveal_strlit("/.");
            assert("/."@.len() == 2 && "/."@[0] == '/' && "/."@[1] == '.');
        }
        let dotted: bool = (rel.len() >= 2 && rel[0] == '/' && rel[1] == '.') || (rel.len() >= 1
            && rel[0] == '.');
        proof {
            if rel@.len() >= 2 {
                assert(rel@.take(2) =~= seq![rel@[0], rel@[1]]);
                assert((rel@.take(2) == "/."@) == (rel@[0] == '/' && rel@[1] == '.')) by {
                    if rel@.take(2) == "/."@ {
                        assert(rel@.take(2)[0] == '/' && rel@.take(2)[1] == '.');
                    } else {
                        if rel@[0] == '/' && rel@[1] == '.' {
                            assert(rel@.take(2) =~= "/."@);
                        }
                    }
                }
            }
        }
        if dotted && !strutil::contains_sub(&rel, &wk) {
            self.serve_error_response(HttpStatus::Forbidden);
            return;
        }
        let name_str = strutil::string_from_chars(&name);
        let name_dot: bool = name.len() > 0 && name[0] == '.';
        if name_dot && !strutil::str_eq(name_str.as_str(), ".well-known") {
            self.serve_error_response(HttpStatus::Forbidden);
            return;
        }
        proof {
            assert(!(spec_dotfile_denied(root_path@, path@) || (name_spec.len() > 0 && name_spec[0]
                == '.' && name_spec != ".well-known"@)));
        }
        self.path = path;
        if !meta.openable {
            self.serve_error_response(HttpStatus::NotFound);
            return;
        }
        let nlen: usize = name.len();
        proof {
            strutil::lemma_last_index_of(name@, '.');
        }
        let ext: Vec<char> = match strutil::rfind_char(&name, '.') {
            Some(di) => {
                if di == 0 {
                    Vec::new()
                } else {
                    let v = strutil::subvec(&name, di + 1, nlen);
                    proof {
                        assert(v@ =~= name@.skip(di as int + 1));
                    }
                    v
                }
            },
            None => Vec::new(),
        };
        proof {
            assert(ext@ == spec_extension(name_spec)) by {
                if ext@.len() == 0 && last_index_of(name_spec, '.') > 0 {
                } else {
                    assert(Seq::<char>::empty() =~= ext@ || ext@ == spec_extension(name_spec));
                }
                if last_index_of(name_spec, '.') <= 0 {
                    assert(ext@ =~= Seq::<char>::empty());
                }
            }
        }
        let ext_str = strutil::string_from_chars(&ext);
        let file_type = match crate::filetype::FileType::from_extension(ext_str.as_str()) {
            Some(ft) => ft,
            None => crate::filetype::FileType::new("bin", "application/octet-stream"),
        };
        proof {
            assert(file_type.content_type@ == spec_content_type_of(ext@));
        }
        if !meta.readable {
            self.serve_error_response(HttpStatus::InternalServerError);
            return;
        }
        self.size = meta.size;
        self.need_stream = meta.size > MAX_SIZE_ALL_AT_ONCE;
        self.status_code = HttpStatus::OK;
        self.headers.clear();
        if ext.len() == 0 {
            proof {
                assert(self.headers.view_pairs() =~= Seq::<(Seq<char>, Seq<char>)>::empty());
            }
            return;
        }
        let disposition = file_type.content_disposition();
        self.headers.add("Content-Type".to_owned(), file_type.content_type.clone());
        proof {
            reveal_strlit("Content-Type");
            reveal_strlit("Content-Disposition");
            assert("Content-Type"@.len() == 12);
            assert("Content-Disposition"@.len() == 19);
            assert(self.headers.view_pairs() =~= seq![("Content-Type"@, spec_content_type_of(ext@))]);
            assert(!crate::keyval::has_key(self.headers.view_pairs(), "Content-Disposition"@));
        }
        self.headers.add("Content-Disposition".to_owned(), disposition.to_owned());
        proof {
            assert(self.headers.view_pairs() =~= seq![
                ("Content-Type"@, spec_content_type_of(ext@)),
                (
                    "Content-Disposition"@,
                    if crate::filetype::spec_is_inline(spec_content_type_of(ext@)) {
                        "inline"@
                    } else {
                        "attachment"@
                    },
                ),
            ]);
        }
    }

    /// Serve a directory listing from its probed entries: apply the
    /// dotfile policy to the relative path, sort the entries by name, list
    /// directories before files, and render the listing page as the body.
    pub fn serve_directory(
        &mut self,
        root_path: &str,
        path: String,
        entries: &Vec<(String, String, String)>,
    )
        requires
            old(self).wf(),
        ensures
            final(self).wf(),
            spec_served_directory(
                *final(self),
                *old(self),
                root_path@,
                path@,
                entries_view(entries@),
            ),
    {
        self.is_compiled = true;
        let path_chars = strutil::chars_of(path.as_str());
        let root_chars = strutil::chars_of(root_path);
        let plen: usize = path_chars.len();
        let rel0: Vec<char> = if strutil::starts_with(&path_chars, &root_chars) {
            let after = strutil::subvec(&path_chars, root_chars.len(), plen);
            proof {
                assert(after@ =~= path_chars@.skip(root_chars@.len() as int));
            }
            strutil::strip_leading_chars(&after, '/')
        } else {
            strutil::chars_of("/")
        };
        proof {
            assert(rel0@ == spec_relative(root_path@, path@));
        }
        if rel0.len() > 0 && rel0[0] == '.' {
            self.serve_error_response(HttpStatus::Forbidden);
            return ;
        }
        self.path = path;
        let sorted = sort_entries(entries);
        let backslash = strutil::chars_of("\\");
        let slash = strutil::chars_of("/");
        proof {
            reveal_strlit("\\");
            assert("\\"@.len() == 1);
        }
        let root_repl = strutil::replace_chars(&root_chars, &backslash, &slash);
        let rootn = strutil::trim_chars(&root_repl);
        let ghost rootn_spec = spec_trim(spec_replace(root_path@, "\\"@, "/"@));
        proof {
            assert(rootn@ == rootn_spec);
        }
        let mut listing: String = String::new();
        if rel0.len() > 0 {
            listing.append("<li><a href='../'>..</a></li>");
        }
        if entries.len() == 0 {
            listing.append("<li><b>Empty Folder</b></li>");
        }
        let ghost prefix0 = listing@;
        proof {
            if rel0@.len() == 0 && entries@.len() == 0 {
                assert(prefix0 =~= Seq::<char>::empty() + "<li><b>Empty Folder</b></li>"@);
            }
        }
        let ghost sv = entries_view(sorted@);
        let sn: usize = sorted.len();
        let mut i: usize = 0;
        proof {
            assert(spec_partition_entries(sv.take(0), true) =~= Seq::<
                (Seq<char>, Seq<char>, Seq<char>),
            >::empty());
            assert(listing@ =~= prefix0 + spec_listing_items(
                spec_partition_entries(sv.take(0), true),
                rootn_spec,
            ));
        }
        while i < sn
            invariant
                sn == sorted@.len(),
                sn == sv.len(),
                sv == entries_view(sorted@),
                rootn@ == rootn_spec,
                i <= sn,
                listing@ == prefix0 + spec_listing_items(
                    spec_partition_entries(sv.take(i as int), true),
                    rootn_spec,
                ),
            decreases sn - i,
        {
            proof {
                assert(sv.take(i as int + 1).drop_last() =~= sv.take(i as int));
                assert(sv.take(i as int + 1).last() == sv[i as int]);
            }
            if strutil::str_eq(sorted[i].0.as_str(), "directory") {
                let p2 = strutil::chars_of(sorted[i].2.as_str());
                let p2len: usize = p2.len();
                let href: Vec<char> = if strutil::starts_with(&p2, &rootn) {
                    let h = strutil::subvec(&p2, rootn.len(), p2len);
                    proof {
                        assert(h@ =~= p2@.skip(rootn@.len() as int));
                    }
                    h
                } else {
                    let h = strutil::subvec(&p2, 0, p2len);
                    proof {
                        assert(h@ =~= p2@);
                    }
                    h
                };
                proof {
                    assert(href@ == spec_strip_prefix(sv[i as int].2, rootn_spec));
                }
                let href_str = strutil::string_from_chars(&href);
                listing.append("<li><a href='");
                listing.append(href_str.as_str());
                listing.append("'>");
                listing.append(sorted[i].1.as_str());
                listing.append("</a></li>");
                proof {
                    let part_new = spec_partition_entries(sv.take(i as int + 1), true);
                    let part_old = spec_partition_entries(sv.take(i as int), true);
                    assert(part_new =~= part_old + seq![sv[i as int]]);
                    assert(part_new.drop_last() =~= part_old);
                    assert(part_new.last() == sv[i as int]);
                    assert(spec_listing_items(part_new, rootn_spec) == spec_listing_items(
                        part_old,
                        rootn_spec,
                    ) + spec_li(spec_strip_prefix(sv[i as int].2, rootn_spec), sv[i as int].1));
                    assert(listing@ =~= prefix0 + spec_listing_items(part_new, rootn_spec));
                }
            } else {
                proof {
                    assert(spec_partition_entries(sv.take(i as int + 1), true)
                        =~= spec_partition_entries(sv.take(i as int), true));
                }
            }
            i = i + 1;
        }
        proof {
            assert(sv.take(sn as int) =~= sv);
        }
        let ghost prefix1 = listing@;
        let mut i: usize = 0;
        proof {
            assert(spec_partition_entries(sv.take(0), false) =~= Seq::<
                (Seq<char>, Seq<char>, Seq<char>),
            >::empty());
            assert(listing@ =~= prefix1 + spec_listing_items(
                spec_partition_entries(sv.take(0), false),
                rootn_spec,
            ));
        }
        while i < sn
            invariant
                sn == sorted@.len(),
                sn == sv.len(),
                sv == entries_view(sorted@),
                rootn@ == rootn_spec,
                i <= sn,
                listing@ == prefix1 + spec_listing_items(
                    spec_partition_entries(sv.take(i as int), false),
                    rootn_spec,
                ),
            decreases sn - i,
        {
            proof {
                assert(sv.take(i as int + 1).drop_last() =~= sv.take(i as int));
                assert(sv.take(i as int + 1).last() == sv[i as int]);
            }
            if !strutil::str_eq(sorted[i].0.as_str(), "directory") {
                let p2 = strutil::chars_of(sorted[i].2.as_str());
                let p2len: usize = p2.len();
                let href: Vec<char> = if strutil::starts_with(&p2, &rootn) {
                    let h = strutil::subvec(&p2, rootn.len(), p2len);
                    proof {
                        assert(h@ =~= p2@.skip(rootn@.len() as int));
                    }
                    h
                } else {
                    let h = strutil::subvec(&p2, 0, p2len);
                    proof {
                        assert(h@ =~= p2@);
                    }
                    h
                };
                proof {
                    assert(href@ == spec_strip_prefix(sv[i as int].2, rootn_spec));
                }
                let href_str = strutil::string_from_chars(&href);
                listing.append("<li><a href='");
                listing.append(href_str.as_str());
                listing.append("'>");
                listing.append(sorted[i].1.as_str());
                listing.append("</a></li>");
                proof {
                    let part_new = spec_partition_entries(sv.take(i as int + 1), false);
                    let part_old = spec_partition_entries(sv.take(i as int), false);
                    assert(part_new =~= part_old + seq![sv[i as int]]);
                    assert(part_new.drop_last() =~= part_old);
                    assert(part_new.last() == sv[i as int]);
                    assert(spec_listing_items(part_new, rootn_spec) == spec_listing_items(
                        part_old,
                        rootn_spec,
                    ) + spec_li(spec_strip_prefix(sv[i as int].2, rootn_spec), sv[i as int].1));
                    assert(listing@ =~= prefix1 + spec_listing_items(part_new, rootn_spec));
                }
            } else {
                proof {
                    assert(spec_partition_entries(sv.take(i as int + 1), false)
                        =~= spec_partition_entries(sv.take(i as int), false));
                }
            }
            i = i + 1;
        }
        proof {
            assert(sv.take(sn as int) =~= sv);
            assert(listing@ =~= spec_directory_content(
                entries_view(entries@),
                rel0@,
                rootn_spec,
            ));
        }
        let mut folder_str: String = String::from_str("/");
        folder_str.append(strutil::string_from_chars(&rel0).as_str());
        proof {
            reveal_strlit("/");
            assert("/"@ =~= seq!['/']);
            assert(folder_str@ =~= seq!['/'] + rel0@);
        }
        let mut params: Vec<(String, String)> = Vec::new();
        params.push(("folder".to_owned(), folder_str));
        params.push(("directory_content".to_owned(), listing));
        let rendered = self.templates.render(TemplatesPage::DIRECTORY, &params);
        proof {
            assert(params@.map_values(|p: (String, String)| (p.0@, p.1@)) =~= seq![
                ("folder"@, seq!['/'] + rel0@),
                (
                    "directory_content"@,
                    spec_directory_content(entries_view(entries@), rel0@, rootn_spec),
                ),
            ]);
        }
        self.body = rendered.as_str().as_bytes_vec();
        self.status_code = HttpStatus::OK;
        self.headers.clear();
        self.headers.add("Content-Type".to_owned(), "text/html".to_owned());
        self.size = self.body.len();
        proof {
            assert(self.headers.view_pairs() =~= seq![("Content-Type"@, "text/html"@)]);
        }
    }

    /// Resolve a probed path: a file is served as a file, a directory as a
    /// listing, and anything else as a 404 error page. A directory with an
    /// `index.html` is probed as that file by the caller.
    pub fn serve(&mut self, root_dir: &str, resolved: Resolved)
        requires
            old(self).wf(),
        ensures
            final(self).wf(),
            match resolved {
                Resolved::File { path, meta } => spec_served_file(
                    *final(self),
                    *old(self),
                    root_dir@,
                    path@,
                    meta,
                ),
                Resolved::Directory { path, entries } => spec_served_directory(
                    *final(self),
                    *old(self),
                    root_dir@,
                    path@,
                    entries_view(entries@),
                ),
                Resolved::Missing => Response::spec_is_error_of(
                    *final(self),
                    *old(self),
                    HttpStatus::NotFound,
                ),
            },
    {
        match resolved {
            Resolved::File { path, meta } => self.serve_file(root_dir, path, meta),
            Resolved::Directory { path, entries } => self.serve_directory(
                root_dir,
                path,
                &entries,
            ),
            Resolved::Missing => self.serve_error_response(HttpStatus::NotFound),
        }
    }

    /// Fix the response for sending: record its measured size as
    /// `Content-Length` and say how the bytes are to leave. A compiled
    /// response with nothing in its body first escalates to a 500 error
    /// page. The caller writes [`Response::to_bytes`] for `WriteAll`, reads
    /// the file whole for `ReadFileThenWrite`, and goes on to
    /// [`Response::plan_chunk_stream`] for `Chunked`.
    pub fn prepare_send(&mut self) -> (r: SendAction)
        requires
            old(self).wf(),
        ensures
            final(self).wf(),
            ({
                let with_cl = spec_kv_add(
                    old(self).headers.view_pairs(),
                    "Content-Length"@,
                    spec_dec(old(self).size as nat),
                );
                if old(self).is_compiled && old(self).body@.len() == 0 {
                    &&& r == SendAction::WriteAll
                    &&& spec_error_filled(
                        *final(self),
                        old(self).templates,
                        HttpStatus::InternalServerError,
                    )
                    &&& final(self).request == old(self).request
                    &&& final(self).templates == old(self).templates
                    &&& final(self).http_version == old(self).http_version
                    &&& final(self).cookies == old(self).cookies
                    &&& final(self).path == old(self).path
                    &&& final(self).need_stream == old(self).need_stream
                } else {
                    &&& final(self).headers.view_pairs() == with_cl
                    &&& final(self).status_code == old(self).status_code
                    &&& final(self).body == old(self).body
                    &&& final(self).size == old(self).size
                    &&& final(self).path == old(self).path
                    &&& final(self).need_stream == old(self).need_stream
                    &&& final(self).is_compiled == old(self).is_compiled
                    &&& final(self).request == old(self).request
                    &&& final(self).templates == old(self).templates
                    &&& final(self).http_version == old(self).http_version
                    &&& final(self).cookies == old(self).cookies
                    &&& r == if old(self).is_compiled {
                        SendAction::WriteAll
                    } else if !old(self).need_stream {
                        SendAction::ReadFileThenWrite
                    } else {
                        SendAction::Chunked
                    }
                }
            }),
    {
        self.headers.add("Content-Length".to_owned(), strutil::u64_to_string(self.size as u64));
        if self.is_compiled {
            if self.body.len() == 0 {
                self.serve_error_response(HttpStatus::InternalServerError);
                return SendAction::WriteAll;
            }
            return SendAction::WriteAll;
        }
        if !self.need_stream {
            return SendAction::ReadFileThenWrite;
        }
        SendAction::Chunked
    }

    /// Plan the chunked send of a large file: advertise ranges, read the
    /// request's `Range` header if any, and either reject it (400), refuse
    /// it (416 with `Content-Range: bytes */size`), grant it (206 with the
    /// range's `Content-Range` and `Content-Length`), or stream the whole
    /// file. The caller writes the response head and moves the file bytes.
    pub fn plan_chunk_stream(&mut self) -> (r: ChunkAction)
        requires
            old(self).wf(),
            old(self).size > 0,
        ensures
            final(self).wf(),
            ({
                let size = old(self).size;
                let h2 = spec_kv_add(
                    spec_kv_add(
                        old(self).headers.view_pairs(),
                        "Content-Length"@,
                        spec_dec(size as nat),
                    ),
                    "Accept-Ranges"@,
                    "bytes"@,
                );
                let base_unchanged = {
                    &&& final(self).body == old(self).body
                    &&& final(self).size == old(self).size
                    &&& final(self).path == old(self).path
                    &&& final(self).need_stream == old(self).need_stream
                    &&& final(self).is_compiled == old(self).is_compiled
                    &&& final(self).request == old(self).request
                    &&& final(self).templates == old(self).templates
                    &&& final(self).http_version == old(self).http_version
                    &&& final(self).cookies == old(self).cookies
                };
                match spec_range_header(old(self).request) {
                    Option::None => {
                        &&& r == ChunkAction::Whole
                        &&& final(self).headers.view_pairs() == h2
                        &&& final(self).status_code == old(self).status_code
                        &&& base_unchanged
                    },
                    Option::Some(v) => {
                        let shaped = v.len() >= 6 && v.take(6) == "bytes="@ && split_on(
                            v.skip(6),
                            '-',
                        ).len() == 2;
                        if !shaped {
                            &&& r == ChunkAction::BadRequest
                            &&& spec_error_filled(
                                *final(self),
                                old(self).templates,
                                HttpStatus::BadRequest,
                            )
                            &&& final(self).request == old(self).request
                            &&& final(self).templates == old(self).templates
                            &&& final(self).http_version == old(self).http_version
                            &&& final(self).cookies == old(self).cookies
                            &&& final(self).path == old(self).path
                            &&& final(self).need_stream == old(self).need_stream
                        } else {
                            let fields = split_on(v.skip(6), '-');
                            let start = spec_range_field(fields[0], 0);
                            let end = spec_range_field(fields[1], (size - 1) as nat);
                            if start >= size || end >= size || start > end {
                                &&& r == ChunkAction::Unsatisfiable
                                &&& final(self).status_code == HttpStatus::RangeNotSatisfiable
                                &&& final(self).headers.view_pairs() == spec_kv_add(
                                    h2,
                                    "Content-Range"@,
                                    "bytes */"@ + spec_dec(size as nat),
                                )
                                &&& base_unchanged
                            } else {
                                &&& r == ChunkAction::Range {
                                    start: start as usize,
                                    end: end as usize,
                                }
                                &&& final(self).status_code == HttpStatus::PartialContent
                                &&& final(self).headers.view_pairs() == spec_kv_add(
                                    spec_kv_add(
                                        h2,
                                        "Content-Range"@,
                                        "bytes "@ + spec_dec(start) + "-"@ + spec_dec(end) + "/"@
                                            + spec_dec(size as nat),
                                    ),
                                    "Content-Length"@,
                                    spec_dec((end - start + 1) as nat),
                                )
                                &&& base_unchanged
                            }
                        }
                    },
                }
            }),
    {
        let size: usize = self.size;
        self.headers.add("Content-Length".to_owned(), strutil::u64_to_string(size as u64));
        self.headers.add("Accept-Ranges".to_owned(), "bytes".to_owned());
        let range_val: Option<String> = self.find_range_header();
        match range_val {
            Option::None => ChunkAction::Whole,
            Option::Some(v) => {
                let vchars = strutil::chars_of(v.as_str());
                let bytes_prefix = strutil::chars_of("bytes=");
                proof {
                    reveal_strlit("bytes=");
                    assert("bytes="@.len() == 6);
                }
                if !strutil::starts_with(&vchars, &bytes_prefix) {
                    self.serve_error_response(HttpStatus::BadRequest);
                    return ChunkAction::BadRequest;
                }
                let vlen: usize = vchars.len();
                let restv = strutil::subvec(&vchars, 6, vlen);
                proof {
                    assert(restv@ =~= vchars@.skip(6));
                }
                let fields = strutil::split_char(&restv, '-');
                if fields.len() != 2 {
                    self.serve_error_response(HttpStatus::BadRequest);
                    return ChunkAction::BadRequest;
                }
                let start: usize = match strutil::parse_usize(&fields[0]) {
                    Option::Some(s) => s,
                    Option::None => 0,
                };
                let end: usize = match strutil::parse_usize(&fields[1]) {
                    Option::Some(e) => e,
                    Option::None => size - 1,
                };
                proof {
                    assert(start as nat == spec_range_field(split_on(v@.skip(6), '-')[0], 0));
                    assert(end as nat == spec_range_field(
                        split_on(v@.skip(6), '-')[1],
                        (size - 1) as nat,
                    ));
                }
                if start >= size || end >= size || start > end {
                    self.status_code = HttpStatus::RangeNotSatisfiable;
                    let mut cr: String = String::from_str("bytes */");
                    cr.append(strutil::u64_to_string(size as u64).as_str());
                    self.headers.add("Content-Range".to_owned(), cr);
                    return ChunkAction::Unsatisfiable;
                }
                self.status_code = HttpStatus::PartialContent;
                let mut cr: String = String::from_str("bytes ");
                cr.append(strutil::u64_to_string(start as u64).as_str());
                cr.append("-");
                cr.append(strutil::u64_to_string(end as u64).as_str());
                cr.append("/");
                cr.append(strutil::u64_to_string(size as u64).as_str());
                self.headers.add("Content-Range".to_owned(), cr);
                let span: usize = end - start + 1;
                self.headers.add("Content-Length".to_owned(), strutil::u64_to_string(
                    span as u64,
                ));
                ChunkAction::Range { start, end }
            },
        }
    }

    /// The value of the request's first header whose lowered name is
    /// `range`, if any.
    fn find_range_header(&self) -> (r: Option<String>)
        ensures
            r is Some <==> spec_range_header(self.request) is Some,
            r is Some ==> Some(r->Some_0@) == spec_range_header(self.request),
    {
        let ghost hp = crate::request::pairs_view(self.request.headers@);
        let ghost lowered = crate::request::spec_lowered_headers(hp);
        proof {
            crate::keyval::lemma_key_index(lowered, "range"@);
        }
        let n: usize = self.request.headers.len();
        let mut i: usize = 0;
        while i < n
            invariant
                n == self.request.headers@.len(),
                n == lowered.len(),
                hp == crate::request::pairs_view(self.request.headers@),
                lowered == crate::request::spec_lowered_headers(hp),
                i <= n,
                forall|j: int| 0 <= j < i ==> (#[trigger] lowered[j]).0 != "range"@,
            decreases n - i,
        {
            let key_chars = strutil::chars_of(self.request.headers[i].0.as_str());
            let lowkey_chars = strutil::to_lower(&key_chars);
            let lowkey = strutil::string_from_chars(&lowkey_chars);
            if strutil::str_eq(lowkey.as_str(), "range") {
                proof {
                    crate::keyval::lemma_key_index(lowered, "range"@);
                    let ki = crate::keyval::key_index(lowered, "range"@);
                    assert(ki != -1) by {
                        assert((#[trigger] lowered[i as int]).0 == "range"@);
                        assert(crate::keyval::has_key(lowered, "range"@));
                    }
                    assert(ki == i as int) by {
                        if ki > i as int {
                            assert((#[trigger] lowered[i as int]).0 != "range"@);
                        }
                    }
                    assert(lowered[i as int].1 == self.request.headers@[i as int].1@);
                }
                return Some(self.request.headers[i].1.clone());
            }
            proof {
                assert((#[trigger] lowered[i as int]).0 != "range"@);
            }
            i = i + 1;
        }
        proof {
            crate::keyval::lemma_key_index(lowered, "range"@);
            if crate::keyval::has_key(lowered, "range"@) {
                let w = choose|j: int|
                    0 <= j < lowered.len() && (#[trigger] lowered[j]).0 == "range"@;
                assert(false);
            }
        }
        None
    }

    /// Store the body bytes that were read for this response.
    pub fn set_body(&mut self, body: Vec<u8>)
        ensures
            final(self).body == body,
            final(self).request == old(self).request,
            final(self).templates == old(self).templates,
            final(self).http_version == old(self).http_version,
            final(self).status_code == old(self).status_code,
            final(self).headers == old(self).headers,
            final(self).cookies == old(self).cookies,
            final(self).size == old(self).size,
            final(self).path == old(self).path,
            final(self).need_stream == old(self).need_stream,
            final(self).is_compiled == old(self).is_compiled,
    {
        self.body = body;
    }
}

} // verus!
