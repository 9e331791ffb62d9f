//! Page paths: how a request path becomes a page path relative to the
//! repository root, how paths are joined, and how page paths are ordered.
use vstd::prelude::*;
use vstd::multiset::Multiset;
use crate::text::{
    chars_from, chars_of, chars_range, ends_with, extend_chars, free_of, has_prefix, has_suffix, join_with,
    lemma_join_last, lemma_split_append_free, lemma_split_join, lemma_split_len,
    lemma_split_pieces_free, split_on, string_from_chars,
};

verus! {

/// The page file extension `.org`.
pub open spec fn org_ext() -> Seq<char> {
    seq!['.', 'o', 'r', 'g']
}

/// `s` without any leading occurrences of `c` (`str::trim_start_matches`).
pub open spec fn trim_leading(s: Seq<char>, c: char) -> Seq<char>
    decreases s.len(),
{
    if s.len() > 0 && s[0] == c {
        trim_leading(s.drop_first(), c)
    } else {
        s
    }
}

/// `s` with `.org` appended unless it already ends with it.
pub open spec fn with_org_ext(s: Seq<char>) -> Seq<char> {
    if has_suffix(s, org_ext()) {
        s
    } else {
        s + org_ext()
    }
}

/// A path component that survives normalisation: not empty, `.` or `..`.
pub open spec fn is_plain_component(p: Seq<char>) -> bool {
    p.len() > 0 && p != seq!['.'] && p != seq!['.', '.']
}

/// The plain components of `ps`, in order.
pub open spec fn plain_components(ps: Seq<Seq<char>>) -> Seq<Seq<char>>
    decreases ps.len(),
{
    if ps.len() == 0 {
        Seq::empty()
    } else {
        let k = plain_components(ps.drop_last());
        if is_plain_component(ps.last()) {
            k.push(ps.last())
        } else {
            k
        }
    }
}

/// The page path that a request path names: leading `/` removed, `.org`
/// appended when missing, and empty, `.` and `..` components dropped.
pub open spec fn normalized_page_path(raw: Seq<char>) -> Seq<char> {
    join_with(plain_components(split_on(with_org_ext(trim_leading(raw, '/')), '/')), '/')
}

proof fn lemma_trim_leading_skip(s: Seq<char>, c: char, i: int)
    requires
        0 <= i <= s.len(),
        forall|k: int| 0 <= k < i ==> #[trigger] s[k] == c,
        i == s.len() || s[i] != c,
    ensures
        trim_leading(s, c) == s.subrange(i, s.len() as int),
    decreases i,
{
    if i > 0 {
        assert(s.drop_first().subrange(i - 1, s.drop_first().len() as int) =~= s.subrange(
            i,
            s.len() as int,
        ));
        lemma_trim_leading_skip(s.drop_first(), c, i - 1);
    } else {
        assert(s.subrange(0, s.len() as int) =~= s);
    }
}

proof fn lemma_join_push(qs: Seq<Seq<char>>, p: Seq<char>, sep: char)
    ensures
        join_with(qs.push(p), sep) == (if qs.len() == 0 {
            p
        } else {
            join_with(qs, sep).push(sep) + p
        }),
{
    assert(qs.push(p).drop_last() =~= qs);
}

/// The characters `.org`.
pub fn org_ext_chars() -> (v: Vec<char>)
    ensures
        v@ == org_ext(),
{
    let v = vec!['.', 'o', 'r', 'g'];
    assert(v@ =~= org_ext());
    v
}

/// Whether the component `p` is a plain name (not empty, `.` or `..`).
pub fn is_plain(p: &[char]) -> (r: bool)
    ensures
        r == is_plain_component(p@),
{
    if p.len() == 0 {
        return false;
    }
    if p.len() == 1 && p[0] == '.' {
        assert(p@ =~= seq!['.']);
        return false;
    }
    if p.len() == 2 && p[0] == '.' && p[1] == '.' {
        assert(p@ =~= seq!['.', '.']);
        return false;
    }
    proof {
        if p@ == seq!['.'] {
            assert(p@[0] == '.');
        }
        if p@ == seq!['.', '.'] {
            assert(p@[0] == '.' && p@[1] == '.');
        }
    }
    true
}

/// Normalises a URL path segment into a page path relative to the
/// repository root: leading slashes are dropped, `.org` is appended when it
/// is missing, and empty, `.` and `..` components are removed, so that the
/// path cannot leave the repository.
pub fn normalize_page_path(raw: &str) -> (r: String)
    ensures
        r@ == normalized_page_path(raw@),
{
    let v = chars_of(raw);
    let mut i: usize = 0;
    while i < v.len() && v[i] == '/'
        invariant
            0 <= i <= v@.len(),
            forall|k: int| 0 <= k < i ==> #[trigger] v@[k] == '/',
        decreases v.len() - i,
    {
        i = i + 1;
    }
    proof {
        lemma_trim_leading_skip(v@, '/', i as int);
    }
    let mut w = chars_from(&v, i);
    let ext = org_ext_chars();
    if !ends_with(&w, &ext) {
        extend_chars(&mut w, &ext);
    }
    let ghost ws = with_org_ext(trim_leading(raw@, '/'));
    assert(w@ == ws);
    let mut out: Vec<char> = Vec::new();
    let mut any = false;
    let mut cur: Vec<char> = Vec::new();
    let n = w.len();
    proof {
        assert(w@.take(0) =~= Seq::<char>::empty());
    }
    for k in 0..n
        invariant
            n == w@.len(),
            cur@ == split_on(w@.take(k as int), '/').last(),
            out@ == join_with(plain_components(split_on(w@.take(k as int), '/').drop_last()), '/'),
            any == (plain_components(split_on(w@.take(k as int), '/').drop_last()).len() > 0),
    {
        let c = w[k];
        let ghost pre = w@.take(k as int);
        let ghost ps = split_on(pre, '/');
        proof {
            assert(w@.take(k + 1).drop_last() =~= pre);
            assert(w@.take(k + 1).last() == c);
            lemma_split_len(pre, '/');
        }
        if c == '/' {
            let keep = is_plain(&cur);
            proof {
                let qs = plain_components(ps.drop_last());
                assert(ps.drop_last().push(ps.last()) =~= ps);
                lemma_join_push(qs, cur@, '/');
                assert(split_on(w@.take(k + 1), '/') == ps.push(Seq::empty()));
                assert(ps.push(Seq::<char>::empty()).drop_last() =~= ps);
            }
            if keep {
                if any {
                    out.push('/');
                }
                extend_chars(&mut out, &cur);
                any = true;
            }
            cur = Vec::new();
            proof {
                assert(cur@ =~= Seq::<char>::empty());
            }
        } else {
            cur.push(c);
            proof {
                let ps2 = split_on(w@.take(k + 1), '/');
                assert(ps2 == ps.update(ps.len() - 1, ps.last().push(c)));
                assert(ps2.drop_last() =~= ps.drop_last());
            }
        }
    }
    proof {
        assert(w@.take(n as int) =~= w@);
        lemma_split_len(w@, '/');
        let ps = split_on(w@, '/');
        assert(ps.drop_last().push(ps.last()) =~= ps);
        lemma_join_push(plain_components(ps.drop_last()), cur@, '/');
    }
    if is_plain(&cur) {
        if any {
            out.push('/');
        }
        extend_chars(&mut out, &cur);
    }
    string_from_chars(&out)
}


// ── joining paths and taking them apart ─────────────────────────────────────

/// `rel` appended to `base` as `Path::join` does on Unix: an absolute `rel`
/// replaces `base`; otherwise a `/` is put between them when `base` is not
/// empty and does not already end with one.
pub open spec fn path_join(base: Seq<char>, rel: Seq<char>) -> Seq<char> {
    if rel.len() > 0 && rel[0] == '/' {
        rel
    } else if base.len() > 0 && base.last() != '/' {
        base.push('/') + rel
    } else {
        base + rel
    }
}

/// Joins `rel` onto `base` (see [`path_join`]).
pub fn join_path(base: &str, rel: &str) -> (r: String)
    ensures
        r@ == path_join(base@, rel@),
{
    let b = chars_of(base);
    let q = chars_of(rel);
    if q.len() > 0 && q[0] == '/' {
        return string_from_chars(&q);
    }
    let mut out = b;
    if out.len() > 0 && out[out.len() - 1] != '/' {
        out.push('/');
    }
    extend_chars(&mut out, &q);
    string_from_chars(&out)
}

/// The index of the last `c` in `s`, or -1 when there is none.
pub open spec fn last_index_of(s: Seq<char>, c: char) -> int
    decreases s.len(),
{
    if s.len() == 0 {
        -1
    } else if s.last() == c {
        s.len() - 1
    } else {
        last_index_of(s.drop_last(), c)
    }
}

proof fn lemma_last_index_bounds(s: Seq<char>, c: char)
    ensures
        -1 <= last_index_of(s, c) < s.len(),
        last_index_of(s, c) >= 0 ==> s[last_index_of(s, c)] == c,
        forall|k: int| last_index_of(s, c) < k < s.len() ==> #[trigger] s[k] != c,
    decreases s.len(),
{
    if s.len() > 0 && s.last() != c {
        lemma_last_index_bounds(s.drop_last(), c);
        assert forall|k: int| last_index_of(s, c) < k < s.len() implies #[trigger] s[k] != c by {
            if k < s.len() - 1 {
                assert(s[k] == s.drop_last()[k]);
            }
        }
    }
}

proof fn lemma_last_index_char(s: Seq<char>, c: char, i: int)
    requires
        -1 <= i < s.len(),
        i >= 0 ==> s[i] == c,
        forall|k: int| i < k < s.len() ==> #[trigger] s[k] != c,
    ensures
        last_index_of(s, c) == i,
    decreases s.len(),
{
    if s.len() > 0 && i < s.len() - 1 {
        assert(s[s.len() - 1] != c);
        assert forall|k: int| i < k < s.drop_last().len() implies #[trigger] s.drop_last()[k] != c by {
            assert(s.drop_last()[k] == s[k]);
        }
        lemma_last_index_char(s.drop_last(), c, i);
    }
}

/// The index of the last `c` in `s`, if any.
pub fn find_last(s: &[char], c: char) -> (r: Option<usize>)
    ensures
        match r {
            Some(i) => i < s@.len() && i as int == last_index_of(s@, c),
            None => last_index_of(s@, c) == -1,
        },
{
    let mut j: usize = s.len();
    while j > 0 && s[j - 1] != c
        invariant
            0 <= j <= s@.len(),
            forall|k: int| j <= k < s@.len() ==> #[trigger] s@[k] != c,
        decreases j,
    {
        j = j - 1;
    }
    proof {
        lemma_last_index_char(s@, c, j - 1);
    }
    if j == 0 {
        None
    } else {
        Some(j - 1)
    }
}

/// The component `..`.
pub open spec fn dot_dot() -> Seq<char> {
    seq!['.', '.']
}

/// The file stem of a file name, as `Path::file_stem` takes it: the name
/// without its last `.extension`, where a name whose only dot is its first
/// character (or `..`) has no extension.
pub open spec fn file_stem_of(name: Seq<char>) -> Seq<char> {
    if name == dot_dot() {
        name
    } else {
        let i = last_index_of(name, '.');
        if i <= 0 {
            name
        } else {
            name.subrange(0, i)
        }
    }
}

/// The extension of a file name, as `Path::extension` takes it.
pub open spec fn extension_of(name: Seq<char>) -> Option<Seq<char>> {
    if name == dot_dot() {
        None
    } else {
        let i = last_index_of(name, '.');
        if i <= 0 {
            None
        } else {
            Some(name.subrange(i + 1, name.len() as int))
        }
    }
}

/// The file stem of the last component of a page path.
pub open spec fn page_file_stem(path: Seq<char>) -> Seq<char> {
    file_stem_of(split_on(path, '/').last())
}

/// The last `/`-separated component of `s`.
fn last_component(s: &[char]) -> (r: Vec<char>)
    ensures
        r@ == split_on(s@, '/').last(),
{
    let n = s.len();
    let start = match find_last(s, '/') {
        Some(i) => {
            assert(i < n);
            i + 1
        },
        None => 0,
    };
    proof {
        lemma_last_index_bounds(s@, '/');
        let i = last_index_of(s@, '/');
        let t = s@.subrange(0, i + 1);
        let u = s@.subrange(i + 1, s@.len() as int);
        assert(t + u =~= s@);
        assert(free_of(u, '/')) by {
            assert forall|k: int| 0 <= k < u.len() implies u[k] != '/' by {
                assert(u[k] == s@[k + i + 1]);
            }
        }
        lemma_split_append_free(t, u, '/');
        lemma_split_len(t, '/');
        if i >= 0 {
            assert(t.drop_last() =~= s@.subrange(0, i));
            assert(t.last() == '/');
            assert(split_on(t, '/').last() == Seq::<char>::empty());
        } else {
            assert(t =~= Seq::<char>::empty());
        }
        assert(Seq::<char>::empty() + u =~= u);
    }
    chars_from(s, start)
}

/// Whether `s` is the component `..`.
fn is_dot_dot(s: &[char]) -> (r: bool)
    ensures
        r == (s@ == dot_dot()),
{
    if s.len() == 2 && s[0] == '.' && s[1] == '.' {
        assert(s@ =~= dot_dot());
        true
    } else {
        proof {
            if s@ == dot_dot() {
                assert(s@[0] == '.' && s@[1] == '.');
            }
        }
        false
    }
}

/// The file stem of a file name (see [`file_stem_of`]).
pub fn file_stem(name: &[char]) -> (r: Vec<char>)
    ensures
        r@ == file_stem_of(name@),
{
    if is_dot_dot(name) {
        return chars_from(name, 0);
    }
    match find_last(name, '.') {
        Some(i) if i > 0 => chars_range(name, 0, i),
        _ => chars_from(name, 0),
    }
}

/// The file stem of the last component of a page path; for a normalised
/// page path this is what `Path::file_stem` gives.
pub fn page_stem(path: &str) -> (r: String)
    ensures
        r@ == page_file_stem(path@),
{
    let p = chars_of(path);
    let last = last_component(&p);
    string_from_chars(&file_stem(&last))
}

/// The file stem of a page path never holds a `/`; for a page `name.org`
/// in a directory (`dir` empty or ending in `/`) it is `name`.
pub proof fn page_file_stem_is_the_page_name(path: Seq<char>, dir: Seq<char>, name: Seq<char>)
    ensures
        free_of(page_file_stem(path), '/'),
        (dir.len() == 0 || dir.last() == '/') && free_of(name, '/') && name.len() > 0 ==> page_file_stem(
            dir + name + ".org"@,
        ) == name,
{
    lemma_split_len(path, '/');
    lemma_split_pieces_free(path, '/');
    let last = split_on(path, '/').last();
    assert(free_of(last, '/'));
    let i = last_index_of(last, '.');
    if last != dot_dot() && i > 0 {
        lemma_last_index_bounds(last, '.');
        let st = last.subrange(0, i);
        assert forall|k: int| 0 <= k < st.len() implies st[k] != '/' by {
            assert(st[k] == last[k]);
        }
    }
    if (dir.len() == 0 || dir.last() == '/') && free_of(name, '/') && name.len() > 0 {
        reveal_strlit(".org");
        let f = name + ".org"@;
        assert(".org"@ =~= seq!['.', 'o', 'r', 'g']);
        assert forall|k: int| 0 <= k < f.len() implies f[k] != '/' by {
            if k < name.len() {
                assert(f[k] == name[k]);
            }
        }
        lemma_split_append_free(dir, f, '/');
        lemma_split_len(dir, '/');
        if dir.len() > 0 {
            assert(split_on(dir, '/') == split_on(dir.drop_last(), '/').push(Seq::empty()));
        }
        assert(split_on(dir, '/').last() =~= Seq::<char>::empty());
        assert(split_on(dir, '/').last() + f =~= f);
        assert(dir + name + ".org"@ =~= dir + f);
        assert(split_on(dir + f, '/').last() == f);
        let f1 = name + seq!['.'];
        let f2 = name + seq!['.', 'o'];
        let f3 = name + seq!['.', 'o', 'r'];
        assert(f.drop_last() =~= f3);
        assert(f3.drop_last() =~= f2);
        assert(f2.drop_last() =~= f1);
        assert(last_index_of(f1, '.') == name.len());
        assert(last_index_of(f2, '.') == name.len());
        assert(last_index_of(f3, '.') == name.len());
        assert(last_index_of(f, '.') == name.len());
        assert(f != dot_dot()) by {
            assert(f.len() != dot_dot().len());
        }
        assert(f.subrange(0, name.len() as int) =~= name);
    }
}

// ── walking the working tree ────────────────────────────────────────────────

/// What the page listing does with one directory entry.
#[derive(Clone, Copy, Debug, PartialEq, Eq, Structural)]
pub enum EntryKind {
    /// A hidden entry (name starting with `.`, such as `.git`), or a file
    /// that is not an org page.
    Skip,
    /// A directory to walk into.
    Descend,
    /// An org page to list.
    Page,
}

/// The extension `org`.
pub open spec fn org_word() -> Seq<char> {
    seq!['o', 'r', 'g']
}

/// How the page listing treats an entry named `name`: hidden entries are
/// skipped, directories are walked, and files with extension `org` are pages.
pub open spec fn entry_kind(name: Seq<char>, is_dir: bool) -> EntryKind {
    if name.len() > 0 && name[0] == '.' {
        EntryKind::Skip
    } else if is_dir {
        EntryKind::Descend
    } else if extension_of(name) == Some(org_word()) {
        EntryKind::Page
    } else {
        EntryKind::Skip
    }
}

/// Classifies a directory entry for the page listing (see [`entry_kind`]).
pub fn classify_entry(name: &str, is_dir: bool) -> (r: EntryKind)
    ensures
        r == entry_kind(name@, is_dir),
{
    let n = chars_of(name);
    if n.len() > 0 && n[0] == '.' {
        return EntryKind::Skip;
    }
    if is_dir {
        return EntryKind::Descend;
    }
    if is_dot_dot(&n) {
        return EntryKind::Skip;
    }
    match find_last(&n, '.') {
        Some(i) if i > 0 => {
            let ext = chars_from(&n, i + 1);
            if ext.len() == 3 && ext[0] == 'o' && ext[1] == 'r' && ext[2] == 'g' {
                assert(ext@ =~= org_word());
                EntryKind::Page
            } else {
                proof {
                    if ext@ == org_word() {
                        assert(ext@[0] == 'o' && ext@[1] == 'r' && ext@[2] == 'g');
                    }
                }
                EntryKind::Skip
            }
        },
        _ => EntryKind::Skip,
    }
}


// ── ordering page paths ─────────────────────────────────────────────────────

/// Lexicographic order of character sequences by code point (the order of
/// `str`, which is the byte order of their UTF-8 encodings).
pub open spec fn chars_le(a: Seq<char>, b: Seq<char>) -> bool
    decreases a.len(),
{
    if a.len() == 0 {
        true
    } else if b.len() == 0 {
        false
    } else if a[0] != b[0] {
        a[0] < b[0]
    } else {
        chars_le(a.drop_first(), b.drop_first())
    }
}

/// Lexicographic order of component lists, components ordered by [`chars_le`].
pub open spec fn comps_le(a: Seq<Seq<char>>, b: Seq<Seq<char>>) -> bool
    decreases a.len(),
{
    if a.len() == 0 {
        true
    } else if b.len() == 0 {
        false
    } else if a[0] != b[0] {
        chars_le(a[0], b[0])
    } else {
        comps_le(a.drop_first(), b.drop_first())
    }
}

/// The order of `Path`: component by component.
pub open spec fn path_le(a: Seq<char>, b: Seq<char>) -> bool {
    comps_le(split_on(a, '/'), split_on(b, '/'))
}

/// Whether `s` is ordered by [`path_le`].
pub open spec fn sorted_paths(s: Seq<Seq<char>>) -> bool {
    forall|i: int, j: int| 0 <= i < j < s.len() ==> path_le(#[trigger] s[i], #[trigger] s[j])
}

/// The character views of a list of strings.
pub open spec fn string_views(v: Seq<String>) -> Seq<Seq<char>> {
    v.map_values(|s: String| s@)
}

pub proof fn lemma_chars_le_total(a: Seq<char>, b: Seq<char>)
    ensures
        chars_le(a, b) || chars_le(b, a),
    decreases a.len(),
{
    if a.len() > 0 && b.len() > 0 && a[0] == b[0] {
        lemma_chars_le_total(a.drop_first(), b.drop_first());
    }
}

pub proof fn lemma_chars_le_antisym(a: Seq<char>, b: Seq<char>)
    requires
        chars_le(a, b),
        chars_le(b, a),
    ensures
        a == b,
    decreases a.len(),
{
    if a.len() > 0 && b.len() > 0 {
        lemma_chars_le_antisym(a.drop_first(), b.drop_first());
        assert(a =~= seq![a[0]] + a.drop_first());
        assert(b =~= seq![b[0]] + b.drop_first());
    } else {
        assert(a =~= b);
    }
}

pub proof fn lemma_chars_le_trans(a: Seq<char>, b: Seq<char>, c: Seq<char>)
    requires
        chars_le(a, b),
        chars_le(b, c),
    ensures
        chars_le(a, c),
    decreases a.len(),
{
    if a.len() > 0 && b.len() > 0 && c.len() > 0 && a[0] == b[0] && b[0] == c[0] {
        lemma_chars_le_trans(a.drop_first(), b.drop_first(), c.drop_first());
    }
}

pub proof fn lemma_comps_le_total(a: Seq<Seq<char>>, b: Seq<Seq<char>>)
    ensures
        comps_le(a, b) || comps_le(b, a),
    decreases a.len(),
{
    if a.len() > 0 && b.len() > 0 {
        if a[0] == b[0] {
            lemma_comps_le_total(a.drop_first(), b.drop_first());
        } else {
            lemma_chars_le_total(a[0], b[0]);
        }
    }
}

pub proof fn lemma_comps_le_trans(a: Seq<Seq<char>>, b: Seq<Seq<char>>, c: Seq<Seq<char>>)
    requires
        comps_le(a, b),
        comps_le(b, c),
    ensures
        comps_le(a, c),
    decreases a.len(),
{
    if a.len() > 0 && b.len() > 0 && c.len() > 0 {
        if a[0] == b[0] && b[0] == c[0] {
            lemma_comps_le_trans(a.drop_first(), b.drop_first(), c.drop_first());
        } else if a[0] == b[0] {
        } else if b[0] == c[0] {
        } else {
            lemma_chars_le_trans(a[0], b[0], c[0]);
            if a[0] == c[0] {
                lemma_chars_le_antisym(a[0], b[0]);
            }
        }
    }
}

/// Splits `s` at every `/` (see [`split_on`]).
pub fn split_components(s: &[char]) -> (r: Vec<Vec<char>>)
    ensures
        r.deep_view() == split_on(s@, '/'),
{
    let mut r: Vec<Vec<char>> = Vec::new();
    let mut cur: Vec<char> = Vec::new();
    let n = s.len();
    proof {
        assert(s@.take(0) =~= Seq::<char>::empty());
        assert(r.deep_view().push(cur@) =~= split_on(s@.take(0), '/'));
    }
    for k in 0..n
        invariant
            n == s@.len(),
            r.deep_view().push(cur@) == split_on(s@.take(k as int), '/'),
    {
        let c = s[k];
        let ghost pre = s@.take(k as int);
        proof {
            assert(s@.take(k + 1).drop_last() =~= pre);
            assert(s@.take(k + 1).last() == c);
            lemma_split_len(pre, '/');
        }
        if c == '/' {
            let ghost old_r = r.deep_view();
            let ghost cv = cur@;
            assert(cur.deep_view() =~= cv);
            r.push(cur);
            cur = Vec::new();
            proof {
                assert(r.deep_view() =~= old_r.push(cv));
                assert(r.deep_view().push(cur@) =~= split_on(s@.take(k + 1), '/'));
            }
        } else {
            cur.push(c);
            proof {
                assert(r.deep_view().push(cur@) =~= split_on(s@.take(k + 1), '/'));
            }
        }
    }
    proof {
        assert(s@.take(n as int) =~= s@);
    }
    let ghost before = r.deep_view();
    let ghost cv = cur@;
    assert(cur.deep_view() =~= cv);
    r.push(cur);
    assert(r.deep_view() =~= before.push(cv));
    r
}

/// Compares two character sequences by [`chars_le`].
pub fn chars_le_exec(a: &[char], b: &[char]) -> (r: bool)
    ensures
        r == chars_le(a@, b@),
{
    let mut i: usize = 0;
    proof {
        assert(a@.subrange(0, a@.len() as int) =~= a@);
        assert(b@.subrange(0, b@.len() as int) =~= b@);
    }
    while i < a.len() && i < b.len() && a[i] == b[i]
        invariant
            0 <= i <= a@.len(),
            i <= b@.len(),
            forall|k: int| 0 <= k < i ==> a@[k] == b@[k],
            chars_le(a@, b@) == chars_le(a@.subrange(i as int, a@.len() as int), b@.subrange(
                i as int,
                b@.len() as int,
            )),
        decreases a.len() - i,
    {
        proof {
            let sa = a@.subrange(i as int, a@.len() as int);
            let sb = b@.subrange(i as int, b@.len() as int);
            assert(sa.drop_first() =~= a@.subrange(i + 1, a@.len() as int));
            assert(sb.drop_first() =~= b@.subrange(i + 1, b@.len() as int));
        }
        i = i + 1;
    }
    proof {
        assert(a@.subrange(0, a@.len() as int) =~= a@);
        assert(b@.subrange(0, b@.len() as int) =~= b@);
    }
    if i == a.len() {
        true
    } else if i == b.len() {
        false
    } else {
        a[i] < b[i]
    }
}

/// Compares two component lists by [`comps_le`].
fn comps_le_exec(a: &Vec<Vec<char>>, b: &Vec<Vec<char>>) -> (r: bool)
    ensures
        r == comps_le(a.deep_view(), b.deep_view()),
{
    let ghost da = a.deep_view();
    let ghost db = b.deep_view();
    let mut i: usize = 0;
    proof {
        assert(da.subrange(0, da.len() as int) =~= da);
        assert(db.subrange(0, db.len() as int) =~= db);
    }
    loop
        invariant
            0 <= i <= a@.len(),
            i <= b@.len(),
            da == a.deep_view(),
            db == b.deep_view(),
            comps_le(da, db) == comps_le(da.subrange(i as int, da.len() as int), db.subrange(
                i as int,
                db.len() as int,
            )),
        decreases a.len() - i,
    {
        let ghost sa = da.subrange(i as int, da.len() as int);
        let ghost sb = db.subrange(i as int, db.len() as int);
        if i == a.len() {
            return true;
        }
        if i == b.len() {
            return false;
        }
        assert(sa[0] == a@[i as int]@);
        assert(sb[0] == b@[i as int]@);
        let ai = &a[i];
        let bi = &b[i];
        let same = ai.len() == bi.len() && chars_le_exec(ai, bi) && chars_le_exec(bi, ai);
        proof {
            if ai@.len() == bi@.len() && chars_le(ai@, bi@) && chars_le(bi@, ai@) {
                lemma_chars_le_antisym(ai@, bi@);
            }
            if ai@ == bi@ {
                lemma_chars_le_total(ai@, bi@);
            }
        }
        if !same {
            return chars_le_exec(ai, bi);
        }
        proof {
            assert(sa.drop_first() =~= da.subrange(i + 1, da.len() as int));
            assert(sb.drop_first() =~= db.subrange(i + 1, db.len() as int));
        }
        i = i + 1;
    }
}

/// Compares two paths component by component, as `Path`'s order does.
pub fn path_le_exec(a: &str, b: &str) -> (r: bool)
    ensures
        r == path_le(a@, b@),
{
    let ca = split_components(&chars_of(a));
    let cb = split_components(&chars_of(b));
    comps_le_exec(&ca, &cb)
}

/// The index of a least element of `v` under [`path_le`].
fn index_of_least(v: &Vec<String>) -> (m: usize)
    requires
        v@.len() > 0,
    ensures
        m < v@.len(),
        forall|k: int| 0 <= k < v@.len() ==> path_le(v@[m as int]@, #[trigger] v@[k]@),
{
    let mut m: usize = 0;
    let mut j: usize = 1;
    proof {
        lemma_comps_le_total(split_on(v@[0]@, '/'), split_on(v@[0]@, '/'));
    }
    while j < v.len()
        invariant
            0 <= m < j <= v@.len(),
            forall|k: int| 0 <= k < j ==> path_le(v@[m as int]@, #[trigger] v@[k]@),
        decreases v.len() - j,
    {
        if !path_le_exec(v[m].as_str(), v[j].as_str()) {
            proof {
                lemma_comps_le_total(split_on(v@[m as int]@, '/'), split_on(v@[j as int]@, '/'));
                assert forall|k: int| 0 <= k < j + 1 implies path_le(
                    v@[j as int]@,
                    #[trigger] v@[k]@,
                ) by {
                    if k < j {
                        lemma_comps_le_trans(
                            split_on(v@[j as int]@, '/'),
                            split_on(v@[m as int]@, '/'),
                            split_on(v@[k]@, '/'),
                        );
                    } else {
                        lemma_comps_le_total(split_on(v@[k]@, '/'), split_on(v@[k]@, '/'));
                    }
                }
            }
            m = j;
        }
        j = j + 1;
    }
    m
}

/// Sorts page paths in the order of `Path` (component by component), as
/// the page listing returns them.
pub fn sort_page_paths(pages: Vec<String>) -> (r: Vec<String>)
    ensures
        sorted_paths(string_views(r@)),
        string_views(r@).to_multiset() == string_views(pages@).to_multiset(),
{
    broadcast use vstd::seq_lib::group_to_multiset_ensures;

    let mut rest = pages;
    let mut out: Vec<String> = Vec::new();
    let ghost all = string_views(rest@).to_multiset();
    proof {
        assert(string_views(out@) =~= Seq::<Seq<char>>::empty());
        assert(string_views(out@).to_multiset() =~= Multiset::empty());
    }
    while rest.len() > 0
        invariant
            sorted_paths(string_views(out@)),
            forall|i: int, k: int|
                0 <= i < out@.len() && 0 <= k < rest@.len() ==> path_le(
                    #[trigger] out@[i]@,
                    #[trigger] rest@[k]@,
                ),
            string_views(out@).to_multiset().add(string_views(rest@).to_multiset()) == all,
        decreases rest.len(),
    {
        let m = index_of_least(&rest);
        let ghost old_rest = rest@;
        let ghost old_out = out@;
        let s = rest.remove(m);
        out.push(s);
        proof {
            assert(string_views(rest@) =~= string_views(old_rest).remove(m as int));
            assert(string_views(out@) =~= string_views(old_out).push(s@));
            assert(string_views(old_rest)[m as int] == s@);
            assert forall|i: int, j: int|
                0 <= i < j < string_views(out@).len() implies path_le(
                #[trigger] string_views(out@)[i],
                #[trigger] string_views(out@)[j],
            ) by {
                if j < old_out.len() {
                    assert(string_views(old_out)[i] == string_views(out@)[i]);
                    assert(string_views(old_out)[j] == string_views(out@)[j]);
                } else {
                    assert(out@[i] == old_out[i]);
                    assert(path_le(old_out[i]@, old_rest[m as int]@));
                }
            }
            assert forall|i: int, k: int|
                0 <= i < out@.len() && 0 <= k < rest@.len() implies path_le(
                #[trigger] out@[i]@,
                #[trigger] rest@[k]@,
            ) by {
                let k0 = if k < m { k } else { k + 1 };
                assert(rest@[k] == old_rest[k0]);
                if i < old_out.len() {
                    assert(out@[i] == old_out[i]);
                } else {
                    assert(out@[i] == s);
                }
            }
            let vr = string_views(old_rest);
            let vo = string_views(old_out);
            vr.to_multiset_ensures();
            vo.to_multiset_ensures();
            assert(vr.remove(m as int).to_multiset() =~= vr.to_multiset().remove(s@));
            assert(vo.push(s@).to_multiset() =~= vo.to_multiset().insert(s@));
            assert(vr.contains(s@));
            assert(vr.to_multiset().count(s@) > 0);
            assert(vo.to_multiset().insert(s@).add(vr.to_multiset().remove(s@)) =~= vo.to_multiset().add(vr.to_multiset()));
            assert(string_views(out@).to_multiset().add(string_views(rest@).to_multiset()) =~= all);
        }
    }
    proof {
        assert(string_views(rest@).to_multiset() =~= Multiset::empty());
        assert(string_views(out@).to_multiset().add(Multiset::empty()) =~= string_views(out@).to_multiset());
    }
    out
}

// ── laws of normalisation ───────────────────────────────────────────────────

proof fn lemma_plain_components_props(ps: Seq<Seq<char>>, sep: char)
    requires
        forall|i: int| 0 <= i < ps.len() ==> free_of(#[trigger] ps[i], sep),
    ensures
        forall|i: int|
            0 <= i < plain_components(ps).len() ==> is_plain_component(
                #[trigger] plain_components(ps)[i],
            ) && free_of(plain_components(ps)[i], sep),
    decreases ps.len(),
{
    if ps.len() > 0 {
        let init = ps.drop_last();
        assert forall|i: int| 0 <= i < init.len() implies free_of(#[trigger] init[i], sep) by {
            assert(init[i] == ps[i]);
        }
        lemma_plain_components_props(init, sep);
        assert(free_of(ps[ps.len() - 1], sep));
        let k = plain_components(init);
        let r = plain_components(ps);
        assert forall|i: int| 0 <= i < r.len() implies is_plain_component(#[trigger] r[i])
            && free_of(r[i], sep) by {
            if i < k.len() {
                assert(r[i] == k[i]);
            } else {
                assert(r[i] == ps.last());
            }
        }
    }
}

proof fn lemma_plain_components_of_plain(ps: Seq<Seq<char>>)
    requires
        forall|i: int| 0 <= i < ps.len() ==> is_plain_component(#[trigger] ps[i]),
    ensures
        plain_components(ps) == ps,
    decreases ps.len(),
{
    if ps.len() > 0 {
        let init = ps.drop_last();
        assert forall|i: int| 0 <= i < init.len() implies is_plain_component(#[trigger] init[i]) by {
            assert(init[i] == ps[i]);
        }
        lemma_plain_components_of_plain(init);
        assert(is_plain_component(ps[ps.len() - 1]));
        assert(init.push(ps.last()) =~= ps);
    }
}

pub proof fn lemma_join_prefix(parts: Seq<Seq<char>>, sep: char)
    requires
        parts.len() >= 1,
    ensures
        has_prefix(join_with(parts, sep), parts[0]),
    decreases parts.len(),
{
    let j = join_with(parts, sep);
    if parts.len() == 1 {
        assert(j.subrange(0, parts[0].len() as int) =~= parts[0]);
    } else {
        let init = parts.drop_last();
        lemma_join_prefix(init, sep);
        let ji = join_with(init, sep);
        assert(j == ji.push(sep) + parts.last());
        assert(init[0] == parts[0]);
        assert(j.subrange(0, parts[0].len() as int) =~= ji.subrange(0, parts[0].len() as int));
    }
}

proof fn lemma_suffix_trans(a: Seq<char>, b: Seq<char>, c: Seq<char>)
    requires
        has_suffix(a, b),
        has_suffix(b, c),
    ensures
        has_suffix(a, c),
{
    assert forall|i: int| 0 <= i < c.len() implies a.subrange(
        a.len() - c.len(),
        a.len() as int,
    )[i] == c[i] by {
        assert(a.subrange(a.len() - b.len(), a.len() as int)[b.len() - c.len() + i] == b[b.len()
            - c.len() + i]);
        assert(b.subrange(b.len() - c.len(), b.len() as int)[i] == c[i]);
    }
    assert(a.subrange(a.len() - c.len(), a.len() as int) =~= c);
}

/// The components of `with_org_ext(t)`: its last one is plain and ends in `.org`.
proof fn lemma_last_component_is_page(w: Seq<char>)
    requires
        has_suffix(w, org_ext()),
    ensures
        split_on(w, '/').len() >= 1,
        is_plain_component(split_on(w, '/').last()),
        has_suffix(split_on(w, '/').last(), org_ext()),
{
    let a = w.subrange(0, w.len() - 4);
    assert(a + org_ext() =~= w);
    assert(free_of(org_ext(), '/'));
    lemma_split_append_free(a, org_ext(), '/');
    lemma_split_len(a, '/');
    let l = split_on(a, '/').last() + org_ext();
    assert(split_on(w, '/').last() == l);
    assert(l.subrange(l.len() - 4, l.len() as int) =~= org_ext());
    assert(l.len() >= 4);
    assert(l != seq!['.']);
    assert(l != seq!['.', '.']);
}

proof fn lemma_normalized_parts(raw: Seq<char>)
    ensures
        ({
            let parts = plain_components(
                split_on(with_org_ext(trim_leading(raw, '/')), '/'),
            );
            &&& parts.len() >= 1
            &&& forall|i: int|
                0 <= i < parts.len() ==> is_plain_component(#[trigger] parts[i]) && free_of(
                    parts[i],
                    '/',
                )
            &&& parts.last() == split_on(with_org_ext(trim_leading(raw, '/')), '/').last()
            &&& normalized_page_path(raw) == join_with(parts, '/')
        }),
{
    let w = with_org_ext(trim_leading(raw, '/'));
    let t = trim_leading(raw, '/');
    if !has_suffix(t, org_ext()) {
        assert((t + org_ext()).subrange(t.len() as int, t.len() + 4int) =~= org_ext());
    }
    assert(has_suffix(w, org_ext()));
    lemma_last_component_is_page(w);
    let ps = split_on(w, '/');
    lemma_split_pieces_free(w, '/');
    lemma_plain_components_props(ps, '/');
}

/// A normalised page path ends in `.org`.
pub proof fn normalized_path_ends_in_org(raw: Seq<char>)
    ensures
        has_suffix(normalized_page_path(raw), org_ext()),
{
    lemma_normalized_parts(raw);
    let w = with_org_ext(trim_leading(raw, '/'));
    let t = trim_leading(raw, '/');
    if !has_suffix(t, org_ext()) {
        assert((t + org_ext()).subrange(t.len() as int, t.len() + 4int) =~= org_ext());
    }
    lemma_last_component_is_page(w);
    let parts = plain_components(split_on(w, '/'));
    lemma_join_last(parts, '/');
    lemma_suffix_trans(join_with(parts, '/'), parts.last(), org_ext());
}

/// A normalised page path stays inside the repository: it does not start
/// with `/`, and every one of its components is a plain name, never empty,
/// `.` or `..`.
pub proof fn normalized_path_stays_inside(raw: Seq<char>)
    ensures
        normalized_page_path(raw).len() > 0,
        normalized_page_path(raw)[0] != '/',
        forall|i: int|
            0 <= i < split_on(normalized_page_path(raw), '/').len() ==> is_plain_component(
                #[trigger] split_on(normalized_page_path(raw), '/')[i],
            ),
{
    lemma_normalized_parts(raw);
    let parts = plain_components(split_on(with_org_ext(trim_leading(raw, '/')), '/'));
    lemma_split_join(parts, '/');
    lemma_join_prefix(parts, '/');
    let n = join_with(parts, '/');
    assert(is_plain_component(parts[0]) && free_of(parts[0], '/'));
    assert(n.subrange(0, parts[0].len() as int)[0] == parts[0][0]);
}

/// Normalising a page path that is already normalised leaves it unchanged.
pub proof fn normalize_is_idempotent(raw: Seq<char>)
    ensures
        normalized_page_path(normalized_page_path(raw)) == normalized_page_path(raw),
{
    let n = normalized_page_path(raw);
    normalized_path_stays_inside(raw);
    normalized_path_ends_in_org(raw);
    assert(trim_leading(n, '/') == n);
    assert(with_org_ext(n) == n);
    lemma_normalized_parts(raw);
    let parts = plain_components(split_on(with_org_ext(trim_leading(raw, '/')), '/'));
    lemma_split_join(parts, '/');
    assert(split_on(n, '/') == parts);
    lemma_plain_components_of_plain(parts);
}

} // verus!
