//! Page metadata read from an org-mode document's keyword preamble.
//!
//! The org document is parsed by `orgize`; which keywords the zeroth
//! section holds is what `orgize` reports.  What the metadata is, given
//! those keywords, is stated and proved here.
use vstd::prelude::*;
use crate::git::opt_view;
use crate::paths::{lemma_join_prefix, page_stem};
use crate::text::{
    chars_eq_ignore_ascii_case, chars_of, eq_ignore_ascii_case, is_white_space, is_whitespace,
    join_with, string_from_chars, trim, trim_ws,
};

verus! {

/// The keywords (key and raw value) of the zeroth section of an org
/// document, in order, as `orgize`'s `Document::keywords` reports them.
pub uninterp spec fn org_keywords(content: Seq<char>) -> Seq<(Seq<char>, Seq<char>)>;

/// The views of keyword pairs.
pub open spec fn keyword_views(v: Seq<(String, String)>) -> Seq<(Seq<char>, Seq<char>)> {
    v.map_values(|p: (String, String)| (p.0@, p.1@))
}

/// The keywords of the document's zeroth section (`orgize`'s
/// `Org::parse(..).document().keywords()`, each key and value taken as text).
/// Trusted: the result is what `org_keywords` names for `content`.
#[verifier::external_body]
fn document_keywords(content: &str) -> (r: Vec<(String, String)>)
    ensures
        keyword_views(r@) == org_keywords(content@),
{
    orgize::Org::parse(content).document().keywords().map(
        |kw| (kw.key().to_string(), kw.value().to_string()),
    ).collect()
}

/// The document title (`orgize`'s `Document::title`).  Trusted: as its
/// source shows, the values of the `TITLE` keywords (key compared ignoring
/// ASCII case), trimmed and joined with spaces, or `None` without any.
#[verifier::external_body]
fn document_title(content: &str) -> (r: Option<String>)
    ensures
        opt_view(r) == joined_keyword(org_keywords(content@), title_word()),
{
    orgize::Org::parse(content).document().title()
}

/// The key `TITLE`.
pub open spec fn title_word() -> Seq<char> {
    seq!['T', 'I', 'T', 'L', 'E']
}

/// The key `AUTHOR`.
pub open spec fn author_word() -> Seq<char> {
    seq!['A', 'U', 'T', 'H', 'O', 'R']
}

/// The key `DATE`.
pub open spec fn date_word() -> Seq<char> {
    seq!['D', 'A', 'T', 'E']
}

/// The key `FILETAGS`.
pub open spec fn filetags_word() -> Seq<char> {
    seq!['F', 'I', 'L', 'E', 'T', 'A', 'G', 'S']
}

/// The values of the keywords named `name` (ignoring ASCII case), each
/// trimmed, folded into one text: a space goes between the text so far and
/// the next value unless the text so far is empty.  `None` when no keyword
/// has that name.
pub open spec fn joined_keyword(kws: Seq<(Seq<char>, Seq<char>)>, name: Seq<char>) -> Option<
    Seq<char>,
>
    decreases kws.len(),
{
    if kws.len() == 0 {
        None
    } else {
        let prev = joined_keyword(kws.drop_last(), name);
        if eq_ignore_ascii_case(kws.last().0, name) {
            let s = match prev {
                Some(p) => p,
                None => Seq::empty(),
            };
            let t = trim_ws(kws.last().1);
            Some(
                if s.len() == 0 {
                    t
                } else {
                    s.push(' ') + t
                },
            )
        } else {
            prev
        }
    }
}

/// The trimmed values of the keywords named `name` (ignoring ASCII case).
pub open spec fn matching_values(kws: Seq<(Seq<char>, Seq<char>)>, name: Seq<char>) -> Seq<
    Seq<char>,
>
    decreases kws.len(),
{
    if kws.len() == 0 {
        Seq::empty()
    } else if eq_ignore_ascii_case(kws.last().0, name) {
        matching_values(kws.drop_last(), name).push(trim_ws(kws.last().1))
    } else {
        matching_values(kws.drop_last(), name)
    }
}

/// A repeated keyword is joined with spaces: when every value of the
/// keywords named `name` is non-blank, the result is those trimmed values
/// joined with single spaces, and `None` when there are none.
pub proof fn repeated_keyword_joins_with_spaces(kws: Seq<(Seq<char>, Seq<char>)>, name: Seq<char>)
    requires
        forall|i: int|
            0 <= i < matching_values(kws, name).len() ==> (#[trigger] matching_values(
                kws,
                name,
            )[i]).len() > 0,
    ensures
        joined_keyword(kws, name) == (if matching_values(kws, name).len() == 0 {
            None
        } else {
            Some(join_with(matching_values(kws, name), ' '))
        }),
    decreases kws.len(),
{
    if kws.len() > 0 {
        let init = kws.drop_last();
        let mi = matching_values(init, name);
        let m = matching_values(kws, name);
        if eq_ignore_ascii_case(kws.last().0, name) {
            assert forall|i: int| 0 <= i < mi.len() implies (#[trigger] mi[i]).len() > 0 by {
                assert(m[i] == mi[i]);
            }
        }
        repeated_keyword_joins_with_spaces(init, name);
        if eq_ignore_ascii_case(kws.last().0, name) {
            let t = trim_ws(kws.last().1);
            assert(m == mi.push(t));
            assert(m[m.len() - 1] == t);
            assert(t.len() > 0);
            assert(m.drop_last() =~= mi);
            if mi.len() > 0 {
                lemma_join_prefix(mi, ' ');
                assert(mi[0].len() > 0);
                assert(join_with(mi, ' ').len() > 0);
            } else {
                assert(m.len() == 1);
            }
        }
    }
}

/// A separator between file tags: `:` or white space.
pub open spec fn is_tag_separator(c: char) -> bool {
    c == ':' || is_white_space(c)
}

/// The pieces of `s` between tag separators, empty pieces included.
pub open spec fn tag_pieces(s: Seq<char>) -> Seq<Seq<char>>
    decreases s.len(),
{
    if s.len() == 0 {
        seq![Seq::empty()]
    } else {
        let prev = tag_pieces(s.drop_last());
        if is_tag_separator(s.last()) {
            prev.push(Seq::empty())
        } else {
            prev.update(prev.len() - 1, prev.last().push(s.last()))
        }
    }
}

/// The non-empty pieces of `ps`, in order.
pub open spec fn non_empty(ps: Seq<Seq<char>>) -> Seq<Seq<char>>
    decreases ps.len(),
{
    if ps.len() == 0 {
        Seq::empty()
    } else if ps.last().len() > 0 {
        non_empty(ps.drop_last()).push(ps.last())
    } else {
        non_empty(ps.drop_last())
    }
}

/// The tags of one `#+filetags:` value, in either the colon form
/// (`:tag1:tag2:`) or separated by white space.
pub open spec fn tags_of(value: Seq<char>) -> Seq<Seq<char>> {
    non_empty(tag_pieces(value))
}

/// The tags of all `FILETAGS` keywords, merged in order.
pub open spec fn file_tags(kws: Seq<(Seq<char>, Seq<char>)>) -> Seq<Seq<char>>
    decreases kws.len(),
{
    if kws.len() == 0 {
        Seq::empty()
    } else if eq_ignore_ascii_case(kws.last().0, filetags_word()) {
        file_tags(kws.drop_last()) + tags_of(kws.last().1)
    } else {
        file_tags(kws.drop_last())
    }
}

proof fn lemma_tag_pieces_split(a: Seq<char>, c: char, b: Seq<char>)
    requires
        is_tag_separator(c),
    ensures
        tag_pieces(a.push(c) + b) == tag_pieces(a) + tag_pieces(b),
    decreases b.len(),
{
    lemma_tag_pieces_len(a);
    lemma_tag_pieces_len(b);
    if b.len() == 0 {
        assert(a.push(c) + b =~= a.push(c));
        assert(a.push(c).drop_last() =~= a);
        assert(tag_pieces(b) =~= seq![Seq::<char>::empty()]);
        assert(tag_pieces(a).push(Seq::empty()) =~= tag_pieces(a) + tag_pieces(b));
    } else {
        let b0 = b.drop_last();
        lemma_tag_pieces_split(a, c, b0);
        lemma_tag_pieces_len(b0);
        assert((a.push(c) + b).drop_last() =~= a.push(c) + b0);
        assert((a.push(c) + b).last() == b.last());
        let ta = tag_pieces(a);
        let tb0 = tag_pieces(b0);
        if is_tag_separator(b.last()) {
            assert((ta + tb0).push(Seq::empty()) =~= ta + tb0.push(Seq::empty()));
        } else {
            let p = ta + tb0;
            assert(p.last() == tb0.last());
            assert(p.update(p.len() - 1, p.last().push(b.last())) =~= ta + tb0.update(
                tb0.len() - 1,
                tb0.last().push(b.last()),
            ));
        }
    }
}

proof fn lemma_non_empty_append(x: Seq<Seq<char>>, y: Seq<Seq<char>>)
    ensures
        non_empty(x + y) == non_empty(x) + non_empty(y),
    decreases y.len(),
{
    if y.len() == 0 {
        assert(x + y =~= x);
        assert(non_empty(x) + non_empty(y) =~= non_empty(x));
    } else {
        lemma_non_empty_append(x, y.drop_last());
        assert((x + y).drop_last() =~= x + y.drop_last());
        assert((x + y).last() == y.last());
        if y.last().len() > 0 {
            assert((non_empty(x) + non_empty(y.drop_last())).push(y.last()) =~= non_empty(x)
                + non_empty(y.drop_last()).push(y.last()));
        }
    }
}

proof fn lemma_tag_pieces_plain(w: Seq<char>)
    requires
        forall|i: int| 0 <= i < w.len() ==> !is_tag_separator(#[trigger] w[i]),
    ensures
        tag_pieces(w) == seq![w],
    decreases w.len(),
{
    if w.len() == 0 {
        assert(w =~= Seq::<char>::empty());
        assert(tag_pieces(w) =~= seq![w]);
    } else {
        let w0 = w.drop_last();
        assert forall|i: int| 0 <= i < w0.len() implies !is_tag_separator(#[trigger] w0[i]) by {
            assert(w0[i] == w[i]);
        }
        lemma_tag_pieces_plain(w0);
        assert(!is_tag_separator(w[w.len() - 1]));
        assert(w0.push(w.last()) =~= w);
        assert(seq![w0].update(0, w0.push(w.last())) =~= seq![w]);
    }
}

proof fn lemma_tag_pieces_free(s: Seq<char>)
    ensures
        forall|k: int, i: int|
            0 <= k < tag_pieces(s).len() && 0 <= i < tag_pieces(s)[k].len() ==> !is_tag_separator(
                #[trigger] tag_pieces(s)[k][i],
            ),
    decreases s.len(),
{
    if s.len() > 0 {
        lemma_tag_pieces_free(s.drop_last());
        lemma_tag_pieces_len(s.drop_last());
        let prev = tag_pieces(s.drop_last());
        if !is_tag_separator(s.last()) {
            let t = tag_pieces(s);
            assert forall|k: int, i: int| 0 <= k < t.len() && 0 <= i < t[k].len() implies !is_tag_separator(
                #[trigger] t[k][i],
            ) by {
                if k == t.len() - 1 && i == prev.last().len() {
                } else if k == t.len() - 1 {
                    assert(t[k][i] == prev[k][i]);
                } else {
                    assert(t[k] == prev[k]);
                }
            }
        } else {
            let t = tag_pieces(s);
            assert forall|k: int, i: int| 0 <= k < t.len() && 0 <= i < t[k].len() implies !is_tag_separator(
                #[trigger] t[k][i],
            ) by {
                if k < t.len() - 1 {
                    assert(t[k] == prev[k]);
                }
            }
        }
    }
}

proof fn lemma_non_empty_members(ps: Seq<Seq<char>>)
    ensures
        forall|k: int| 0 <= k < non_empty(ps).len() ==> (#[trigger] non_empty(ps)[k]).len() > 0
            && ps.contains(non_empty(ps)[k]),
    decreases ps.len(),
{
    if ps.len() > 0 {
        lemma_non_empty_members(ps.drop_last());
        let prev = non_empty(ps.drop_last());
        assert forall|k: int| 0 <= k < non_empty(ps).len() implies (#[trigger] non_empty(ps)[k]).len()
            > 0 && ps.contains(non_empty(ps)[k]) by {
            if k < prev.len() {
                assert(non_empty(ps)[k] == prev[k]);
                let j = choose|j: int| 0 <= j < ps.drop_last().len() && ps.drop_last()[j] == prev[k];
                assert(ps[j] == prev[k]);
            } else {
                assert(non_empty(ps)[k] == ps.last());
                assert(ps[ps.len() - 1] == ps.last());
            }
        }
    }
}

/// The tags of a `#+filetags:` value: each tag is non-empty and holds no
/// `:` or white space; a separator splits the value into the tags before
/// it followed by the tags after it; a word without separators is one tag;
/// an empty value has none.
pub proof fn tags_are_split_on_separators(a: Seq<char>, c: char, b: Seq<char>, w: Seq<char>)
    ensures
        tags_of(Seq::empty()) == Seq::<Seq<char>>::empty(),
        forall|k: int, i: int|
            0 <= k < tags_of(a).len() && 0 <= i < tags_of(a)[k].len() ==> tags_of(a)[k].len() > 0
                && #[trigger] tags_of(a)[k][i] != ':' && !is_white_space(tags_of(a)[k][i]),
        c == ':' || is_white_space(c) ==> tags_of(a.push(c) + b) == tags_of(a) + tags_of(b),
        w.len() > 0 && (forall|i: int| 0 <= i < w.len() ==> #[trigger] w[i] != ':'
            && !is_white_space(w[i])) ==> tags_of(w) == seq![w],
{
    let e = Seq::<Seq<char>>::empty();
    assert(tag_pieces(Seq::<char>::empty()) == seq![Seq::<char>::empty()]);
    assert(seq![Seq::<char>::empty()].drop_last() =~= e);
    assert(non_empty(e) =~= e);
    assert(tags_of(Seq::empty()) =~= e);
    lemma_tag_pieces_free(a);
    lemma_non_empty_members(tag_pieces(a));
    assert forall|k: int, i: int|
        0 <= k < tags_of(a).len() && 0 <= i < tags_of(a)[k].len() implies tags_of(a)[k].len() > 0
            && #[trigger] tags_of(a)[k][i] != ':' && !is_white_space(tags_of(a)[k][i]) by {
        let t = tags_of(a)[k];
        assert(tag_pieces(a).contains(t));
        let j = choose|j: int| 0 <= j < tag_pieces(a).len() && tag_pieces(a)[j] == t;
        assert(!is_tag_separator(tag_pieces(a)[j][i]));
    }
    if c == ':' || is_white_space(c) {
        lemma_tag_pieces_split(a, c, b);
        lemma_non_empty_append(tag_pieces(a), tag_pieces(b));
    }
    if w.len() > 0 && (forall|i: int| 0 <= i < w.len() ==> #[trigger] w[i] != ':' && !is_white_space(
        w[i],
    )) {
        lemma_tag_pieces_plain(w);
        assert(seq![w].drop_last() =~= e);
        assert(non_empty(e) =~= e);
        assert(e.push(w) =~= seq![w]);
    }
}

/// Only keywords named `FILETAGS` (ignoring ASCII case) contribute file
/// tags: with no keywords there are none; a further `FILETAGS` keyword
/// appends the tags of its value; any other keyword (`TAGS` among them)
/// leaves the file tags as they were.
pub proof fn only_filetags_keywords_give_tags(
    kws: Seq<(Seq<char>, Seq<char>)>,
    key: Seq<char>,
    value: Seq<char>,
)
    ensures
        file_tags(Seq::empty()) == Seq::<Seq<char>>::empty(),
        eq_ignore_ascii_case(key, "FILETAGS"@) ==> file_tags(kws.push((key, value))) == file_tags(
            kws,
        ) + tags_of(value),
        !eq_ignore_ascii_case(key, "FILETAGS"@) ==> file_tags(kws.push((key, value)))
            == file_tags(kws),
{
    reveal_strlit("FILETAGS");
    assert("FILETAGS"@ =~= filetags_word());
    assert(kws.push((key, value)).drop_last() =~= kws);
}

/// Metadata extracted from an org-mode document's keyword preamble.
#[derive(Debug, Clone, Default)]
pub struct PageMeta {
    /// Value of `#+title:`, joined with spaces when the keyword repeats.
    pub title: Option<String>,
    /// Value of `#+author:`, joined with spaces when the keyword repeats.
    pub author: Option<String>,
    /// Value of `#+date:`, joined with spaces when the keyword repeats.
    pub date: Option<String>,
    /// Tags from `#+filetags:`, merged across repeated keywords.
    pub filetags: Vec<String>,
}

/// The view of page metadata.
pub struct PageMetaView {
    pub title: Option<Seq<char>>,
    pub author: Option<Seq<char>>,
    pub date: Option<Seq<char>>,
    pub filetags: Seq<Seq<char>>,
}

impl View for PageMeta {
    type V = PageMetaView;

    open spec fn view(&self) -> PageMetaView {
        PageMetaView {
            title: opt_view(self.title),
            author: opt_view(self.author),
            date: opt_view(self.date),
            filetags: self.filetags@.map_values(|t: String| t@),
        }
    }
}

/// The metadata of a document whose title is `title` and whose zeroth
/// section holds the keywords `kws`.
pub open spec fn meta_from(title: Option<Seq<char>>, kws: Seq<(Seq<char>, Seq<char>)>) -> PageMetaView {
    PageMetaView {
        title: title,
        author: joined_keyword(kws, author_word()),
        date: joined_keyword(kws, date_word()),
        filetags: file_tags(kws),
    }
}

/// The metadata of the org document `content`.
pub open spec fn page_meta_of(content: Seq<char>) -> PageMetaView {
    meta_from(joined_keyword(org_keywords(content), title_word()), org_keywords(content))
}

/// The characters of a keyword name.
fn word(w: &str) -> (r: Vec<char>)
    ensures
        r@ == w@,
{
    chars_of(w)
}

/// Folds the keywords named `name` (see [`joined_keyword`]).
pub fn join_keyword(kws: &Vec<(String, String)>, name: &[char]) -> (r: Option<String>)
    ensures
        opt_view(r) == joined_keyword(keyword_views(kws@), name@),
{
    let ghost kv = keyword_views(kws@);
    let mut acc: Option<Vec<char>> = None;
    let n = kws.len();
    for i in 0..n
        invariant
            n == kws@.len(),
            kv == keyword_views(kws@),
            (match acc {
                Some(a) => Some(a@),
                None => None,
            }) == joined_keyword(kv.take(i as int), name@),
    {
        proof {
            assert(kv.take(i + 1).drop_last() =~= kv.take(i as int));
            assert(kv.take(i + 1).last() == kv[i as int]);
            assert(kv[i as int] == (kws@[i as int].0@, kws@[i as int].1@));
        }
        let key = chars_of(kws[i].0.as_str());
        if chars_eq_ignore_ascii_case(&key, name) {
            let mut s = match acc {
                Some(a) => a,
                None => Vec::new(),
            };
            let t = trim(&chars_of(kws[i].1.as_str()));
            if s.len() > 0 {
                s.push(' ');
            }
            let mut k: usize = 0;
            let ghost s0 = s@;
            while k < t.len()
                invariant
                    0 <= k <= t@.len(),
                    s@ == s0 + t@.subrange(0, k as int),
                decreases t.len() - k,
            {
                s.push(t[k]);
                k = k + 1;
                assert(s@ =~= s0 + t@.subrange(0, k as int));
            }
            assert(t@.subrange(0, t@.len() as int) =~= t@);
            acc = Some(s);
        }
    }
    proof {
        assert(kv.take(n as int) =~= kv);
    }
    match acc {
        Some(a) => Some(string_from_chars(&a)),
        None => None,
    }
}

/// Whether `c` separates file tags.
fn is_tag_sep(c: char) -> (r: bool)
    ensures
        r == is_tag_separator(c),
{
    c == ':' || is_whitespace(c)
}

/// The tags of one `#+filetags:` value (see [`tags_of`]).
pub fn split_tags(value: &str) -> (r: Vec<String>)
    ensures
        r@.map_values(|t: String| t@) == tags_of(value@),
{
    let v = chars_of(value);
    let n = v.len();
    let mut out: Vec<String> = Vec::new();
    let mut cur: Vec<char> = Vec::new();
    proof {
        assert(v@.take(0) =~= Seq::<char>::empty());
        assert(out@.map_values(|t: String| t@) =~= Seq::<Seq<char>>::empty());
    }
    for k in 0..n
        invariant
            n == v@.len(),
            cur@ == tag_pieces(v@.take(k as int)).last(),
            out@.map_values(|t: String| t@) == non_empty(tag_pieces(v@.take(k as int)).drop_last()),
    {
        let c = v[k];
        let ghost pre = v@.take(k as int);
        let ghost ps = tag_pieces(pre);
        proof {
            assert(v@.take(k + 1).drop_last() =~= pre);
            assert(v@.take(k + 1).last() == c);
            lemma_tag_pieces_len(pre);
        }
        if is_tag_sep(c) {
            if cur.len() > 0 {
                out.push(string_from_chars(&cur));
            }
            cur = Vec::new();
            proof {
                let ps2 = ps.push(Seq::empty());
                assert(tag_pieces(v@.take(k + 1)) == ps2);
                assert(ps2.drop_last() =~= ps);
                assert(ps.drop_last().push(ps.last()) =~= ps);
                assert(out@.map_values(|t: String| t@) =~= non_empty(ps));
                assert(cur@ =~= Seq::<char>::empty());
            }
        } else {
            cur.push(c);
            proof {
                let ps2 = tag_pieces(v@.take(k + 1));
                assert(ps2 == ps.update(ps.len() - 1, ps.last().push(c)));
                assert(ps2.drop_last() =~= ps.drop_last());
            }
        }
    }
    proof {
        assert(v@.take(n as int) =~= v@);
        lemma_tag_pieces_len(v@);
        let ps = tag_pieces(v@);
        assert(ps.drop_last().push(ps.last()) =~= ps);
    }
    if cur.len() > 0 {
        out.push(string_from_chars(&cur));
    }
    proof {
        assert(out@.map_values(|t: String| t@) =~= non_empty(tag_pieces(v@)));
    }
    out
}

proof fn lemma_tag_pieces_len(s: Seq<char>)
    ensures
        tag_pieces(s).len() >= 1,
    decreases s.len(),
{
    if s.len() > 0 {
        lemma_tag_pieces_len(s.drop_last());
    }
}

/// The tags of all `FILETAGS` keywords (see [`file_tags`]).
pub fn collect_file_tags(kws: &Vec<(String, String)>) -> (r: Vec<String>)
    ensures
        r@.map_values(|t: String| t@) == file_tags(keyword_views(kws@)),
{
    let ghost kv = keyword_views(kws@);
    let name = word("FILETAGS");
    proof {
        reveal_strlit("FILETAGS");
        assert(name@ =~= filetags_word());
    }
    let mut out: Vec<String> = Vec::new();
    let n = kws.len();
    proof {
        assert(kv.take(0) =~= Seq::<(Seq<char>, Seq<char>)>::empty());
        assert(out@.map_values(|t: String| t@) =~= Seq::<Seq<char>>::empty());
    }
    for i in 0..n
        invariant
            n == kws@.len(),
            kv == keyword_views(kws@),
            name@ == filetags_word(),
            out@.map_values(|t: String| t@) == file_tags(kv.take(i as int)),
    {
        proof {
            assert(kv.take(i + 1).drop_last() =~= kv.take(i as int));
            assert(kv.take(i + 1).last() == kv[i as int]);
            assert(kv[i as int] == (kws@[i as int].0@, kws@[i as int].1@));
        }
        let key = chars_of(kws[i].0.as_str());
        if chars_eq_ignore_ascii_case(&key, &name) {
            let tags = split_tags(kws[i].1.as_str());
            let ghost before = out@;
            let mut j: usize = 0;
            while j < tags.len()
                invariant
                    0 <= j <= tags@.len(),
                    out@.map_values(|t: String| t@) == before.map_values(|t: String| t@)
                        + tags@.map_values(|t: String| t@).take(j as int),
                decreases tags.len() - j,
            {
                let t = tags[j].clone();
                let ghost o = out@;
                out.push(t);
                proof {
                    assert(out@.map_values(|t: String| t@) =~= o.map_values(|t: String| t@).push(
                        tags@[j as int]@,
                    ));
                    assert(tags@.map_values(|t: String| t@).take(j + 1) =~= tags@.map_values(
                        |t: String| t@,
                    ).take(j as int).push(tags@[j as int]@));
                }
                j = j + 1;
            }
            proof {
                assert(tags@.map_values(|t: String| t@).take(tags@.len() as int) =~= tags@.map_values(
                    |t: String| t@,
                ));
            }
        }
    }
    proof {
        assert(kv.take(n as int) =~= kv);
    }
    out
}

impl PageMeta {
    /// The metadata of a document whose title `orgize` reported as `title`
    /// and whose zeroth section holds the keywords `keywords`.
    pub fn from_keywords(title: Option<String>, keywords: &Vec<(String, String)>) -> (m: PageMeta)
        ensures
            m@ == meta_from(opt_view(title), keyword_views(keywords@)),
    {
        let author_name = word("AUTHOR");
        let date_name = word("DATE");
        proof {
            reveal_strlit("AUTHOR");
            reveal_strlit("DATE");
            assert(author_name@ =~= author_word());
            assert(date_name@ =~= date_word());
        }
        let author = join_keyword(keywords, &author_name);
        let date = join_keyword(keywords, &date_name);
        let filetags = collect_file_tags(keywords);
        PageMeta { title, author, date, filetags }
    }

    /// Parses the keyword preamble of the org document `content`.
    pub fn parse(content: &str) -> (m: PageMeta)
        ensures
            m@ == page_meta_of(content@),
    {
        let title = document_title(content);
        let keywords = document_keywords(content);
        PageMeta::from_keywords(title, &keywords)
    }

    /// The title if present, otherwise the given fallback (a file stem).
    pub fn display_title<'a>(&'a self, file_stem: &'a str) -> (r: &'a str)
        ensures
            r@ == (match self.title {
                Some(t) => t@,
                None => file_stem@,
            }),
    {
        match &self.title {
            Some(t) => t.as_str(),
            None => file_stem,
        }
    }
}

/// The title shown for the page at the normalised path `rel_path` whose org
/// source is `source` (`None` when it could not be read): the document
/// title, or else the file stem of the page path.
pub fn page_title(source: Option<&str>, rel_path: &str) -> (r: String)
    ensures
        r@ == (match source {
            Some(s) => match page_meta_of(s@).title {
                Some(t) => t,
                None => crate::paths::page_file_stem(rel_path@),
            },
            None => crate::paths::page_file_stem(rel_path@),
        }),
{
    let meta = match source {
        Some(s) => PageMeta::parse(s),
        None => PageMeta { title: None, author: None, date: None, filetags: Vec::new() },
    };
    let stem = page_stem(rel_path);
    meta.display_title(stem.as_str()).to_owned()
}

} // verus!
