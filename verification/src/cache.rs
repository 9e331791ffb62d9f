//! The HTML fragment cache: which file under the cache directory holds the
//! rendered HTML of a page, and what a read of that file means.
//!
//! Each wiki page maps to a `.html` file under the cache directory,
//! mirroring the page's directory structure: `guides/setup.org` caches to
//! `<dir>/guides/setup.html`.  A disabled cache has no files at all, so every
//! read misses and every write is dropped.  Reading and writing the files is
//! left to the caller.
use vstd::prelude::*;
use crate::paths::{join_path, org_ext, org_ext_chars, path_join};
use crate::text::{chars_of, chars_range, ends_with, extend_chars, has_suffix, string_from_chars};

verus! {

/// The cache file extension `.html`.
pub open spec fn html_ext() -> Seq<char> {
    seq!['.', 'h', 't', 'm', 'l']
}

/// The cache file of a page, relative to the cache directory: `.org`
/// replaced by `.html`, or `.html` appended when the key has no `.org`.
pub open spec fn html_key(page_key: Seq<char>) -> Seq<char> {
    if has_suffix(page_key, org_ext()) {
        page_key.subrange(0, page_key.len() - 4) + html_ext()
    } else {
        page_key + html_ext()
    }
}

/// Filesystem-backed HTML fragment cache, or a disabled one.
#[derive(Debug, Clone)]
pub struct Cache {
    dir: Option<String>,
}

impl View for Cache {
    /// The cache directory, `None` when the cache is disabled.
    type V = Option<Seq<char>>;

    closed spec fn view(&self) -> Option<Seq<char>> {
        match self.dir {
            Some(d) => Some(d@),
            None => None,
        }
    }
}

/// Why a cache file could not be used.
#[derive(Debug, Clone)]
pub enum CacheError {
    /// The cache file exists but could not be read.
    Read { path: String, message: String },
    /// The cache file could not be written.
    Write { path: String, message: String },
    /// The directory that holds the cache file could not be created.
    CreateDir { path: String, message: String },
}

/// What reading a cache file gave.
#[derive(Debug, Clone)]
pub enum FileRead {
    /// The file's text.
    Contents(String),
    /// There is no such file.
    NotFound,
    /// The file could not be read, for the reason given.
    Failed(String),
}

impl Cache {
    /// A cache backed by `dir`.  The directory is created on first write.
    pub fn new(dir: String) -> (c: Cache)
        ensures
            c@ == Some(dir@),
    {
        Cache { dir: Some(dir) }
    }

    /// A no-op cache: all reads miss and writes are dropped.
    pub fn disabled() -> (c: Cache)
        ensures
            c@ == None::<Seq<char>>,
    {
        Cache { dir: None }
    }

    /// A cache backed by `dir` when one is given, a disabled one otherwise.
    pub fn from_dir(dir: Option<String>) -> (c: Cache)
        ensures
            c@ == (match dir {
                Some(d) => Some(d@),
                None => None,
            }),
    {
        match dir {
            Some(d) => Cache::new(d),
            None => Cache::disabled(),
        }
    }

    /// The file that caches the HTML of the page `page_key` (the page's
    /// path relative to the content root, such as `guides/setup.org`), or
    /// `None` when the cache is disabled.
    pub fn entry_path(&self, page_key: &str) -> (r: Option<String>)
        ensures
            match self@ {
                None => r is None,
                Some(d) => r is Some && r->0@ == path_join(d, html_key(page_key@)),
            },
    {
        match &self.dir {
            None => None,
            Some(d) => {
                let key = html_key_of(page_key);
                Some(join_path(d.as_str(), key.as_str()))
            },
        }
    }
}

/// The cache file of a page relative to the cache directory (see [`html_key`]).
pub fn html_key_of(page_key: &str) -> (r: String)
    ensures
        r@ == html_key(page_key@),
{
    let k = chars_of(page_key);
    let ext = org_ext_chars();
    let mut out = if ends_with(&k, &ext) {
        chars_range(&k, 0, k.len() - 4)
    } else {
        k
    };
    let html = vec!['.', 'h', 't', 'm', 'l'];
    assert(html@ =~= html_ext());
    extend_chars(&mut out, &html);
    string_from_chars(&out)
}

/// What a read of the cache file at `path` means for a lookup: the cached
/// HTML, a miss when there is no file, and an error otherwise.
pub fn lookup_result(path: String, read: FileRead) -> (r: Result<Option<String>, CacheError>)
    ensures
        match read {
            FileRead::Contents(html) => r matches Ok(Some(h)) && h@ == html@,
            FileRead::NotFound => r matches Ok(None),
            FileRead::Failed(m) => r matches Err(CacheError::Read { path: p, message: msg })
                && p@ == path@ && msg@ == m@,
        },
{
    match read {
        FileRead::Contents(html) => Ok(Some(html)),
        FileRead::NotFound => Ok(None),
        FileRead::Failed(message) => Err(CacheError::Read { path, message }),
    }
}

proof fn lemma_html_key_page(k: Seq<char>)
    requires
        has_suffix(k, org_ext()),
    ensures
        html_key(k).len() == k.len() + 1,
        html_key(k).subrange(0, k.len() - 4) == k.subrange(0, k.len() - 4),
{
    assert(html_key(k).subrange(0, k.len() - 4) =~= k.subrange(0, k.len() - 4));
}

/// Distinct pages are cached in distinct files: for two page keys that end
/// in `.org` and are relative, their cache files under the same directory
/// differ whenever the keys do.
pub proof fn distinct_pages_have_distinct_entries(dir: Seq<char>, a: Seq<char>, b: Seq<char>)
    requires
        has_suffix(a, org_ext()),
        has_suffix(b, org_ext()),
        a.len() > 0 && a[0] != '/',
        b.len() > 0 && b[0] != '/',
        a != b,
    ensures
        path_join(dir, html_key(a)) != path_join(dir, html_key(b)),
{
    let ha = html_key(a);
    let hb = html_key(b);
    lemma_html_key_page(a);
    lemma_html_key_page(b);
    assert(ha.len() > 0 && ha[0] == a[0]) by {
        assert(ha[0] == ha.subrange(0, a.len() - 4)[0] || a.len() == 4);
        if a.len() == 4 {
            assert(a.subrange(0, 4) =~= a);
            assert(a[0] == '.');
            assert(ha[0] == '.');
        } else {
            assert(ha.subrange(0, a.len() - 4)[0] == a.subrange(0, a.len() - 4)[0]);
        }
    }
    assert(hb.len() > 0 && hb[0] == b[0]) by {
        if b.len() == 4 {
            assert(b.subrange(0, 4) =~= b);
            assert(b[0] == '.');
            assert(hb[0] == '.');
        } else {
            assert(hb.subrange(0, b.len() - 4)[0] == b.subrange(0, b.len() - 4)[0]);
        }
    }
    if path_join(dir, ha) == path_join(dir, hb) {
        let pre = if dir.len() > 0 && dir.last() != '/' {
            dir.push('/')
        } else {
            dir
        };
        assert(path_join(dir, ha) == pre + ha);
        assert(path_join(dir, hb) == pre + hb);
        assert(ha =~= (pre + ha).subrange(pre.len() as int, (pre + ha).len() as int));
        assert(hb =~= (pre + hb).subrange(pre.len() as int, (pre + hb).len() as int));
        assert(ha == hb);
        assert(a.len() == b.len());
        let sa = a.subrange(0, a.len() - 4);
        let sb = b.subrange(0, b.len() - 4);
        assert(sa == ha.subrange(0, a.len() - 4));
        assert(sb == hb.subrange(0, b.len() - 4));
        assert(sa == sb);
        assert(a =~= sa + org_ext());
        assert(b =~= sb + org_ext());
    }
}

} // verus!
