//! The page templates and the `{{placeholder}}` renderer.
//!
//! Three pages are built in: a startup banner, an error page and a
//! directory listing. Rendering substitutes each parameter in turn into
//! the page text; a parameter with an empty value is skipped, so its
//! placeholder survives.

use vstd::prelude::*;
use crate::strutil;

verus! {

/// The pages the server renders.
#[derive(Debug, Clone, Copy, PartialEq, Eq, Structural)]
pub enum TemplatesPage {
    BANNER,
    ERROR,
    DIRECTORY,
}

/// The built-in banner text.
pub open spec fn spec_banner_text() -> Seq<char> {
    "Katana static file server\n{{version}}\n"@
}

/// The built-in error page.
pub open spec fn spec_error_text() -> Seq<char> {
    "<html><head><title>{{status_code}} {{status_text}}</title></head><body><h1>{{status_code}} {{status_text}}</h1><p>{{error_message}}</p></body></html>"@
}

/// The built-in directory listing page.
pub open spec fn spec_directory_text() -> Seq<char> {
    "<html><head><title>Index of {{folder}}</title></head><body><h1>Index of {{folder}}</h1><ul>{{directory_content}}</ul></body></html>"@
}

/// The built-in text of a page.
pub open spec fn spec_builtin_page(page: TemplatesPage) -> Seq<char> {
    match page {
        TemplatesPage::BANNER => spec_banner_text(),
        TemplatesPage::ERROR => spec_error_text(),
        TemplatesPage::DIRECTORY => spec_directory_text(),
    }
}

/// Substituting one parameter: every occurrence of `{{key}}` becomes the
/// value, unless the value is empty, which leaves the text alone.
pub open spec fn spec_apply_param(content: Seq<char>, key: Seq<char>, value: Seq<char>) -> Seq<
    char,
> {
    if value.len() == 0 {
        content
    } else {
        strutil::spec_replace(content, "{{"@ + key + "}}"@, value)
    }
}

/// Substituting a list of parameters, first to last.
pub open spec fn spec_render(content: Seq<char>, params: Seq<(Seq<char>, Seq<char>)>) -> Seq<char>
    decreases params.len(),
{
    if params.len() == 0 {
        content
    } else {
        spec_render(spec_apply_param(content, params[0].0, params[0].1), params.drop_first())
    }
}

/// The text of the three pages.
#[derive(Debug, Clone)]
pub struct Templates {
    pub banner: String,
    pub error: String,
    pub directory: String,
}

impl Templates {
    /// The built-in pages.
    pub fn load() -> (r: Self)
        ensures
            r.banner@ == spec_banner_text(),
            r.error@ == spec_error_text(),
            r.directory@ == spec_directory_text(),
    {
        Templates {
            banner: "Katana static file server\n{{version}}\n".to_owned(),
            error:
                "<html><head><title>{{status_code}} {{status_text}}</title></head><body><h1>{{status_code}} {{status_text}}</h1><p>{{error_message}}</p></body></html>".to_owned(),
            directory:
                "<html><head><title>Index of {{folder}}</title></head><body><h1>Index of {{folder}}</h1><ul>{{directory_content}}</ul></body></html>".to_owned(),
        }
    }

    /// The built-in text of `template_page`.
    pub fn from_enum(template_page: TemplatesPage) -> (r: Option<String>)
        ensures
            r is Some,
            r->Some_0@ == spec_builtin_page(template_page),
    {
        let templates = Self::load();
        match template_page {
            TemplatesPage::BANNER => Some(templates.banner),
            TemplatesPage::ERROR => Some(templates.error),
            TemplatesPage::DIRECTORY => Some(templates.directory),
        }
    }

    /// The text of `template` held by this instance.
    pub open spec fn spec_page(&self, template: TemplatesPage) -> Seq<char> {
        match template {
            TemplatesPage::BANNER => self.banner@,
            TemplatesPage::ERROR => self.error@,
            TemplatesPage::DIRECTORY => self.directory@,
        }
    }

    /// Render `template` with `params` substituted in order. An empty
    /// value leaves its placeholder in place.
    pub fn render(&self, template: TemplatesPage, params: &Vec<(String, String)>) -> (r: String)
        ensures
            r@ == spec_render(
                self.spec_page(template),
                params@.map_values(|p: (String, String)| (p.0@, p.1@)),
            ),
    {
        let mut content: Vec<char> = match template {
            TemplatesPage::BANNER => strutil::chars_of(self.banner.as_str()),
            TemplatesPage::ERROR => strutil::chars_of(self.error.as_str()),
            TemplatesPage::DIRECTORY => strutil::chars_of(self.directory.as_str()),
        };
        let ghost pview = params@.map_values(|p: (String, String)| (p.0@, p.1@));
        let n: usize = params.len();
        let mut i: usize = 0;
        proof {
            assert(pview.skip(0) =~= pview);
        }
        while i < n
            invariant
                n == params@.len(),
                n == pview.len(),
                forall|j: int|
                    0 <= j < n ==> ((#[trigger] params@[j]).0@, params@[j].1@) == pview[j],
                i <= n,
                spec_render(self.spec_page(template), pview) == spec_render(
                    content@,
                    pview.skip(i as int),
                ),
            decreases n - i,
        {
            let key = &params[i].0;
            let value = &params[i].1;
            proof {
                assert(pview.skip(i as int)[0] == pview[i as int]);
                assert(pview.skip(i as int).drop_first() =~= pview.skip(i as int + 1));
            }
            if value.as_str().is_empty() {
                proof {
                    assert(spec_apply_param(content@, pview[i as int].0, pview[i as int].1)
                        == content@);
                }
            } else {
                let mut pat: Vec<char> = Vec::new();
                pat.push('{');
                pat.push('{');
                let key_chars = strutil::chars_of(key.as_str());
                pat.extend_from_slice(key_chars.as_slice());
                pat.push('}');
                pat.push('}');
                let val_chars = strutil::chars_of(value.as_str());
                proof {
                    reveal_strlit("{{");
                    reveal_strlit("}}");
                    assert("{{"@ =~= seq!['{', '{']);
                    assert("}}"@ =~= seq!['}', '}']);
                    assert(pat@ =~= "{{"@ + key@ + "}}"@);
                }
                let replaced = strutil::replace_chars(&content, &pat, &val_chars);
                proof {
                    assert(replaced@ == spec_apply_param(
                        content@,
                        pview[i as int].0,
                        pview[i as int].1,
                    )) by {
                        assert(val_chars@.len() > 0);
                    }
                }
                content = replaced;
            }
            i = i + 1;
        }
        proof {
            assert(pview.skip(n as int).len() == 0);
            assert(spec_render(content@, pview.skip(n as int)) == content@);
        }
        strutil::string_from_chars(&content)
    }
}

} // verus!
