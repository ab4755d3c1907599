//! File types: the static table from a lower-cased file extension to a MIME
//! content type, and the inline/attachment disposition rule.

use vstd::prelude::*;
use crate::keyval::{key_index, lemma_key_index, has_key};
use crate::strutil;

verus! {

/// The static extension table: each lower-case extension with its MIME
/// content type, in lookup order.
pub open spec fn spec_file_types() -> Seq<(Seq<char>, Seq<char>)> {
    seq![
        ("html"@, "text/html"@),
        ("css"@, "text/css"@),
        ("js"@, "application/javascript"@),
        ("map"@, "application/json"@),
        ("json"@, "application/json"@),
        ("xml"@, "application/xml"@),
        ("txt"@, "text/plain"@),
        ("md"@, "text/markdown"@),
        ("jpg"@, "image/jpeg"@),
        ("jpeg"@, "image/jpeg"@),
        ("png"@, "image/png"@),
        ("gif"@, "image/gif"@),
        ("svg"@, "image/svg+xml"@),
        ("weba"@, "audio/webm"@),
        ("webp"@, "image/webm"@),
        ("webm"@, "video/webm"@),
        ("ico"@, "image/x-icon"@),
        ("woff"@, "font/woff"@),
        ("woff2"@, "font/woff2"@),
        ("ttf"@, "font/ttf"@),
        ("otf"@, "font/otf"@),
        ("mp4"@, "video/mp4"@),
        ("avi"@, "video/x-msvideo"@),
        ("mp3"@, "audio/mpeg"@),
        ("ogg"@, "audio/ogg"@),
        ("wav"@, "audio/wav"@),
        ("flac"@, "audio/flac"@),
        ("zip"@, "application/zip"@),
        ("tar"@, "application/x-tar"@),
        ("pdf"@, "application/pdf"@),
        ("exe"@, "application/octet-stream"@),
        ("dll"@, "application/octet-stream"@),
        ("iso"@, "application/x-iso9660-image"@),
    ]
}

/// A content type whose resources a browser is asked to render in place:
/// text, images, and the web and document formats of the application family.
pub open spec fn spec_is_inline(ct: Seq<char>) -> bool {
    ||| ct.len() >= 5 && ct.take(5) == "text/"@
    ||| ct.len() >= 6 && ct.take(6) == "image/"@
    ||| ct == "application/javascript"@
    ||| ct == "application/json"@
    ||| ct == "application/xml"@
    ||| ct == "application/pdf"@
}

/// A file extension paired with its MIME content type.
#[derive(Debug, Clone)]
pub struct FileType {
    pub extension: String,
    pub content_type: String,
}

impl FileType {
    /// Pair an extension with a content type.
    pub fn new(extension: &str, content_type: &str) -> (r: Self)
        ensures
            r.extension@ == extension@,
            r.content_type@ == content_type@,
    {
        FileType { extension: extension.to_owned(), content_type: content_type.to_owned() }
    }

    /// The full static table, in its fixed order.
    pub fn all_file_types() -> (r: Vec<Self>)
        ensures
            r@.len() == spec_file_types().len(),
            forall|i: int|
                0 <= i < r@.len() ==> ((#[trigger] r@[i]).extension@, r@[i].content_type@)
                    == spec_file_types()[i],
    {
        let mut r: Vec<FileType> = Vec::new();
        r.push(FileType::new("html", "text/html"));
        r.push(FileType::new("css", "text/css"));
        r.push(FileType::new("js", "application/javascript"));
        r.push(FileType::new("map", "application/json"));
        r.push(FileType::new("json", "application/json"));
        r.push(FileType::new("xml", "application/xml"));
        r.push(FileType::new("txt", "text/plain"));
        r.push(FileType::new("md", "text/markdown"));
        r.push(FileType::new("jpg", "image/jpeg"));
        r.push(FileType::new("jpeg", "image/jpeg"));
        r.push(FileType::new("png", "image/png"));
        r.push(FileType::new("gif", "image/gif"));
        r.push(FileType::new("svg", "image/svg+xml"));
        r.push(FileType::new("weba", "audio/webm"));
        r.push(FileType::new("webp", "image/webm"));
        r.push(FileType::new("webm", "video/webm"));
        r.push(FileType::new("ico", "image/x-icon"));
        r.push(FileType::new("woff", "font/woff"));
        r.push(FileType::new("woff2", "font/woff2"));
        r.push(FileType::new("ttf", "font/ttf"));
        r.push(FileType::new("otf", "font/otf"));
        r.push(FileType::new("mp4", "video/mp4"));
        r.push(FileType::new("avi", "video/x-msvideo"));
        r.push(FileType::new("mp3", "audio/mpeg"));
        r.push(FileType::new("ogg", "audio/ogg"));
        r.push(FileType::new("wav", "audio/wav"));
        r.push(FileType::new("flac", "audio/flac"));
        r.push(FileType::new("zip", "application/zip"));
        r.push(FileType::new("tar", "application/x-tar"));
        r.push(FileType::new("pdf", "application/pdf"));
        r.push(FileType::new("exe", "application/octet-stream"));
        r.push(FileType::new("dll", "application/octet-stream"));
            r.push(FileType::new("iso", "application/x-iso9660-image"));
        r
    }

    /// Look the extension up in the table, case-insensitively: the match is
    /// against the ASCII-lowered form, exact otherwise. Unknown extensions
    /// find nothing.
    pub fn from_extension(extension: &str) -> (r: Option<Self>)
        ensures
            ({
                let key = strutil::spec_lower(extension@);
                let i = key_index(spec_file_types(), key);
                &&& (r is Some <==> i != -1)
                &&& r is Some ==> r->Some_0.extension@ == key
                &&& r is Some ==> r->Some_0.content_type@ == spec_file_types()[i].1
            }),
    {
        let cs = strutil::chars_of(extension);
        let lowered = strutil::to_lower(&cs);
        let lower_str = strutil::string_from_chars(&lowered);
        let table = Self::all_file_types();
        let n: usize = table.len();
        let ghost key = strutil::spec_lower(extension@);
        proof {
            lemma_key_index(spec_file_types(), key);
        }
        let mut i: usize = 0;
        while i < n
            invariant
                n == spec_file_types().len(),
                table@.len() == n,
                forall|j: int|
                    0 <= j < n ==> ((#[trigger] table@[j]).extension@, table@[j].content_type@)
                        == spec_file_types()[j],
                key == strutil::spec_lower(extension@),
                lower_str@ == key,
                lowered@ == key,
                forall|j: int| 0 <= j < i ==> (#[trigger] spec_file_types()[j]).0 != key,
            decreases n - i,
        {
            if strutil::str_eq(table[i].extension.as_str(), lower_str.as_str()) {
                proof {
                    lemma_key_index(spec_file_types(), key);
                    let ki = key_index(spec_file_types(), key);
                    assert(ki != -1) by {
                        assert((#[trigger] spec_file_types()[i as int]).0 == key);
                        assert(has_key(spec_file_types(), key));
                    }
                    assert(ki == i as int) by {
                        if ki > i as int {
                            assert((#[trigger] spec_file_types()[i as int]).0 != key);
                        }
                    }
                }
                let ft = FileType {
                    extension: strutil::string_from_chars(&lowered),
                    content_type: table[i].content_type.clone(),
                };
                return Some(ft);
            }
            i = i + 1;
        }
        proof {
            lemma_key_index(spec_file_types(), key);
            if has_key(spec_file_types(), key) {
                let w = choose|j: int|
                    0 <= j < spec_file_types().len() && (#[trigger] spec_file_types()[j]).0 == key;
                assert(false);
            }
        }
        None
    }

    /// The content type of this file type.
    pub fn content_type(&self) -> (r: &str)
        ensures
            r@ == self.content_type@,
    {
        self.content_type.as_str()
    }

    /// The extension (after lowering) is in the table.
    pub fn is_supported(extension: &str) -> (r: bool)
        ensures
            r == (key_index(spec_file_types(), strutil::spec_lower(extension@)) != -1),
    {
        match Self::from_extension(extension) {
            Some(_) => true,
            None => false,
        }
    }

    /// `inline` for the text/web/image/pdf family, `attachment` for
    /// everything else, unknown types included.
    pub fn content_disposition(&self) -> (r: &'static str)
        ensures
            spec_is_inline(self.content_type@) ==> r@ == "inline"@,
            !spec_is_inline(self.content_type@) ==> r@ == "attachment"@,
    {
        let cs = strutil::chars_of(self.content_type.as_str());
        let text_prefix = strutil::chars_of("text/");
        let image_prefix = strutil::chars_of("image/");
        let inline = strutil::starts_with(&cs, &text_prefix) || strutil::starts_with(
            &cs,
            &image_prefix,
        ) || strutil::str_eq(self.content_type.as_str(), "application/javascript") || strutil::str_eq(
            self.content_type.as_str(),
            "application/json",
        ) || strutil::str_eq(self.content_type.as_str(), "application/xml") || strutil::str_eq(
            self.content_type.as_str(),
            "application/pdf",
        );
        proof {
            reveal_strlit("text/");
            reveal_strlit("image/");
            assert("text/"@.len() == 5);
            assert("image/"@.len() == 6);
        }
        if inline {
            "inline"
        } else {
            "attachment"
        }
    }
}

} // verus!
