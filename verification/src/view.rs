//! Serving a wiki page, as a state machine: the caller performs each action
//! (a cache lookup, a file read, a Pandoc run, a cache write) and reports
//! what came of it; the machine decides what to do next and what to answer.
//!
//! The cached HTML fragment is served when there is one; otherwise the page
//! source is rendered with Pandoc and the cache is filled.  A page without
//! source is answered with a "not found" page that links to its editor.
use vstd::prelude::*;
use crate::api::{not_found_body, not_found_html};
use crate::page::{page_meta_of, page_title};
use crate::paths::{
    normalize_page_path, normalized_page_path, page_file_stem, page_file_stem_is_the_page_name,
};
use crate::text::free_of;

verus! {

/// Where serving a page stands.
#[derive(Debug)]
pub enum PageView {
    /// Waiting for the cache lookup of the page `key`, requested as `path`.
    LookingUp { key: String, path: String },
    /// Waiting for the page source, to render it.
    ReadingSource { key: String, path: String },
    /// Waiting for Pandoc's HTML of the page source.
    Rendering { key: String, path: String },
    /// Waiting for the page source to take the title from; `fragment` is
    /// the page's HTML.
    Titling { key: String, fragment: String },
    /// The answer has been given.
    Done,
}

/// What came of the last action.
#[derive(Debug)]
pub enum PageEvent {
    /// The cache lookup gave this fragment (`None`: a miss or a failed read).
    CacheLookedUp(Option<String>),
    /// Reading the page source gave this text (`None`: it could not be read).
    SourceRead(Option<String>),
    /// Pandoc gave this HTML (`None`: the export failed).
    Rendered(Option<String>),
    /// Reading the page source for its title gave this text.
    TitleSourceRead(Option<String>),
}

/// The answer to a page request.
#[derive(Debug)]
pub enum PageReply {
    /// The page, to be shown with the page template.
    Page { title: String, key: String, content: String },
    /// No such page: this HTML body, with status 404.
    NotFound(String),
    /// Something failed: status 500.
    ServerError,
}

/// What the caller does next.
#[derive(Debug)]
pub enum PageAction {
    /// Look up the cached fragment of this page.
    LookUpCache(String),
    /// Read the source of this page.
    ReadSource(String),
    /// Render this org source with Pandoc.
    Render(String),
    /// Store `html` in the cache for `key`, then read the page source for its title.
    StoreAndReadTitle { key: String, html: String },
    /// Read the source of this page for its title.
    ReadTitleSource(String),
    /// Answer the request.
    Respond(PageReply),
}

/// The title of the page `key` whose source (if it could be read) is `source`.
pub open spec fn title_of(source: Option<String>, key: Seq<char>) -> Seq<char> {
    match source {
        Some(s) => match page_meta_of(s@).title {
            Some(t) => t,
            None => page_file_stem(key),
        },
        None => page_file_stem(key),
    }
}

impl PageView {
    /// Starts serving the page requested as `page_path`: its key is the
    /// normalised path, and the first thing to do is to look up its cache.
    pub fn start(page_path: &str) -> (r: (PageView, PageAction))
        ensures
            r.0 matches PageView::LookingUp { key, path } && key@ == normalized_page_path(
                page_path@,
            ) && path@ == page_path@,
            r.1 matches PageAction::LookUpCache(k) && k@ == normalized_page_path(page_path@),
    {
        let key = normalize_page_path(page_path);
        let k = key.clone();
        (PageView::LookingUp { key, path: page_path.to_owned() }, PageAction::LookUpCache(k))
    }

    /// The next state and action after `event`.
    pub fn step(self, event: PageEvent) -> (r: (PageView, PageAction))
        ensures
            match (self, event) {
                (PageView::LookingUp { key, path }, PageEvent::CacheLookedUp(Some(html))) => {
                    &&& r.0 matches PageView::Titling { key: k, fragment: f } && k@ == key@ && f@
                        == html@
                    &&& r.1 matches PageAction::ReadTitleSource(k) && k@ == key@
                },
                (PageView::LookingUp { key, path }, PageEvent::CacheLookedUp(None)) => {
                    &&& r.0 matches PageView::ReadingSource { key: k, path: p } && k@ == key@
                        && p@ == path@
                    &&& r.1 matches PageAction::ReadSource(k) && k@ == key@
                },
                (PageView::ReadingSource { key, path }, PageEvent::SourceRead(Some(src))) => {
                    &&& r.0 matches PageView::Rendering { key: k, path: p } && k@ == key@ && p@
                        == path@
                    &&& r.1 matches PageAction::Render(s) && s@ == src@
                },
                (PageView::ReadingSource { key, path }, PageEvent::SourceRead(None)) => {
                    &&& r.0 is Done
                    &&& r.1 matches PageAction::Respond(PageReply::NotFound(body)) && body@
                        == not_found_html(path@)
                },
                (PageView::Rendering { key, path }, PageEvent::Rendered(Some(html))) => {
                    &&& r.0 matches PageView::Titling { key: k, fragment: f } && k@ == key@ && f@
                        == html@
                    &&& r.1 matches PageAction::StoreAndReadTitle { key: k, html: h } && k@
                        == key@ && h@ == html@
                },
                (PageView::Rendering { key, path }, PageEvent::Rendered(None)) => {
                    &&& r.0 is Done
                    &&& r.1 matches PageAction::Respond(PageReply::ServerError)
                },
                (PageView::Titling { key, fragment }, PageEvent::TitleSourceRead(src)) => {
                    &&& r.0 is Done
                    &&& r.1 matches PageAction::Respond(PageReply::Page { title, key: k, content })
                        && title@ == title_of(src, key@) && k@ == key@ && content@ == fragment@
                },
                _ => r.0 is Done && r.1 matches PageAction::Respond(PageReply::ServerError),
            },
    {
        match (self, event) {
            (PageView::LookingUp { key, path }, PageEvent::CacheLookedUp(cached)) => match cached {
                Some(html) => {
                    let k = key.clone();
                    (PageView::Titling { key, fragment: html }, PageAction::ReadTitleSource(k))
                },
                None => {
                    let k = key.clone();
                    (PageView::ReadingSource { key, path }, PageAction::ReadSource(k))
                },
            },
            (PageView::ReadingSource { key, path }, PageEvent::SourceRead(source)) => match source {
                Some(src) => (PageView::Rendering { key, path }, PageAction::Render(src)),
                None => (
                    PageView::Done,
                    PageAction::Respond(PageReply::NotFound(not_found_body(path.as_str()))),
                ),
            },
            (PageView::Rendering { key, path }, PageEvent::Rendered(rendered)) => match rendered {
                Some(html) => {
                    let k = key.clone();
                    let h = html.clone();
                    (
                        PageView::Titling { key, fragment: html },
                        PageAction::StoreAndReadTitle { key: k, html: h },
                    )
                },
                None => (PageView::Done, PageAction::Respond(PageReply::ServerError)),
            },
            (PageView::Titling { key, fragment }, PageEvent::TitleSourceRead(source)) => {
                let title = match &source {
                    Some(s) => page_title(Some(s.as_str()), key.as_str()),
                    None => page_title(None, key.as_str()),
                };
                (
                    PageView::Done,
                    PageAction::Respond(PageReply::Page { title, key, content: fragment }),
                )
            },
            _ => (PageView::Done, PageAction::Respond(PageReply::ServerError)),
        }
    }
}

/// A page whose source has no title (or could not be read) is titled by its
/// file stem: the title never holds a `/`, and for a page `name.org` in a
/// directory (`dir` empty or ending in `/`) it is `name`.
pub proof fn untitled_page_is_titled_by_file_stem(
    source: Option<String>,
    key: Seq<char>,
    dir: Seq<char>,
    name: Seq<char>,
)
    requires
        source is None || page_meta_of(source->0@).title is None,
    ensures
        free_of(title_of(source, key), '/'),
        key == dir + name + ".org"@ && (dir.len() == 0 || dir.last() == '/') && free_of(name, '/')
            && name.len() > 0 ==> title_of(source, key) == name,
{
    page_file_stem_is_the_page_name(key, dir, name);
}

/// A page whose source has a title is shown under that title.
pub proof fn titled_page_keeps_its_title(source: Option<String>, key: Seq<char>)
    requires
        source is Some,
        page_meta_of(source->0@).title is Some,
    ensures
        title_of(source, key) == page_meta_of(source->0@).title->0,
{
}

} // verus!
