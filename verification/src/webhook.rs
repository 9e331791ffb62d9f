//! Incoming push webhooks from the git forge: checking the HMAC-SHA256
//! signature, finding the pages that a push touched, and the order of the
//! steps (verify, parse, pull, invalidate) as a state machine.
use vstd::prelude::*;
use hmac::Mac;
use crate::paths::{org_ext, org_ext_chars, string_views};
use crate::text::{chars_from, chars_of, ends_with, has_prefix, has_suffix, starts_with, string_from_chars};
use crate::git::opt_view;

verus! {

// ── the push payload ────────────────────────────────────────────────────────

/// One commit of a push event (Gitea / GitHub compatible).
#[derive(Debug, Clone, Default)]
pub struct Commit {
    pub added: Vec<String>,
    pub modified: Vec<String>,
    pub removed: Vec<String>,
}

/// A push event: the commits it carries.
#[derive(Debug, Clone, Default)]
pub struct PushPayload {
    pub commits: Vec<Commit>,
}

/// The paths a commit touches: added, then modified, then removed.
pub open spec fn commit_paths(c: Commit) -> Seq<Seq<char>> {
    string_views(c.added@) + string_views(c.modified@) + string_views(c.removed@)
}

/// The paths of `ps` that end in `.org`, in order.
pub open spec fn org_paths(ps: Seq<Seq<char>>) -> Seq<Seq<char>>
    decreases ps.len(),
{
    if ps.len() == 0 {
        Seq::empty()
    } else if has_suffix(ps.last(), org_ext()) {
        org_paths(ps.drop_last()).push(ps.last())
    } else {
        org_paths(ps.drop_last())
    }
}

/// The `.org` paths touched by the commits, commit by commit.
pub open spec fn affected_pages(cs: Seq<Commit>) -> Seq<Seq<char>>
    decreases cs.len(),
{
    if cs.len() == 0 {
        Seq::empty()
    } else {
        affected_pages(cs.drop_last()) + org_paths(commit_paths(cs.last()))
    }
}

proof fn lemma_org_paths_append(a: Seq<Seq<char>>, b: Seq<Seq<char>>)
    ensures
        org_paths(a + b) == org_paths(a) + org_paths(b),
    decreases b.len(),
{
    if b.len() == 0 {
        assert(a + b =~= a);
        assert(org_paths(a) + Seq::empty() =~= org_paths(a));
    } else {
        lemma_org_paths_append(a, b.drop_last());
        assert((a + b).drop_last() =~= a + b.drop_last());
        assert((a + b).last() == b.last());
        if has_suffix(b.last(), org_ext()) {
            assert(org_paths(a) + org_paths(b.drop_last()).push(b.last()) =~= (org_paths(a)
                + org_paths(b.drop_last())).push(b.last()));
        }
    }
}

/// Appends to `out` the paths of `paths` that end in `.org`.
fn push_org_paths(out: &mut Vec<String>, paths: &Vec<String>)
    ensures
        string_views(final(out)@) == string_views(old(out)@) + org_paths(string_views(paths@)),
{
    let ext = org_ext_chars();
    let ghost start = string_views(out@);
    let n = paths.len();
    proof {
        assert(string_views(paths@).take(0) =~= Seq::<Seq<char>>::empty());
        assert(start + Seq::<Seq<char>>::empty() =~= start);
    }
    for i in 0..n
        invariant
            n == paths@.len(),
            ext@ == org_ext(),
            string_views(out@) == start + org_paths(string_views(paths@).take(i as int)),
    {
        let ghost pv = string_views(paths@);
        proof {
            assert(pv.take(i + 1).drop_last() =~= pv.take(i as int));
            assert(pv.take(i + 1).last() == paths@[i as int]@);
        }
        let p = chars_of(paths[i].as_str());
        let ghost o = out@;
        if ends_with(&p, &ext) {
            out.push(paths[i].clone());
            proof {
                assert(string_views(out@) =~= string_views(o).push(paths@[i as int]@));
            }
        }
    }
    proof {
        assert(string_views(paths@).take(n as int) =~= string_views(paths@));
    }
}

/// All `.org` paths that the push's commits added, modified or removed, in
/// the order the payload lists them.
pub fn affected_org_files(payload: &PushPayload) -> (r: Vec<String>)
    ensures
        string_views(r@) == affected_pages(payload.commits@),
{
    let mut out: Vec<String> = Vec::new();
    let n = payload.commits.len();
    proof {
        assert(payload.commits@.take(0) =~= Seq::<Commit>::empty());
        assert(string_views(out@) =~= Seq::<Seq<char>>::empty());
    }
    for i in 0..n
        invariant
            n == payload.commits@.len(),
            string_views(out@) == affected_pages(payload.commits@.take(i as int)),
    {
        let c = &payload.commits[i];
        proof {
            let cs = payload.commits@;
            assert(cs.take(i + 1).drop_last() =~= cs.take(i as int));
            assert(cs.take(i + 1).last() == cs[i as int]);
        }
        let ghost before = string_views(out@);
        push_org_paths(&mut out, &c.added);
        push_org_paths(&mut out, &c.modified);
        push_org_paths(&mut out, &c.removed);
        proof {
            let a = string_views(c.added@);
            let m = string_views(c.modified@);
            let r = string_views(c.removed@);
            lemma_org_paths_append(a, m);
            lemma_org_paths_append(a + m, r);
            assert(string_views(out@) =~= before + org_paths(commit_paths(*c)));
        }
    }
    proof {
        assert(payload.commits@.take(n as int) =~= payload.commits@);
    }
    out
}

// ── signatures ──────────────────────────────────────────────────────────────

/// The HMAC-SHA256 tag of `msg` under `key`.
pub uninterp spec fn hmac_sha256(key: Seq<u8>, msg: Seq<u8>) -> Seq<u8>;

/// Whether `tag` is the HMAC-SHA256 tag of `msg` under `key` (`hmac`'s
/// `Hmac<Sha256>::new_from_slice`, `update`, `verify_slice`, which compares
/// the whole tag in constant time).  Trusted: true exactly when `tag` equals
/// the tag `hmac_sha256` names.  HMAC accepts keys of any length.
#[verifier::external_body]
fn hmac_sha256_verify(key: &[u8], msg: &[u8], tag: &[u8]) -> (r: bool)
    ensures
        r == (tag@ == hmac_sha256(key@, msg@)),
{
    let mut mac = hmac::Hmac::<sha2::Sha256>::new_from_slice(key).expect(
        "HMAC accepts any key size",
    );
    mac.update(msg);
    mac.verify_slice(tag).is_ok()
}

/// The value of a hexadecimal digit (either case).
pub open spec fn hex_value(c: char) -> Option<u8> {
    if '0' <= c <= '9' {
        Some(((c as u32) - 0x30) as u8)
    } else if 'a' <= c <= 'f' {
        Some(((c as u32) - 0x61 + 10) as u8)
    } else if 'A' <= c <= 'F' {
        Some(((c as u32) - 0x41 + 10) as u8)
    } else {
        None
    }
}

/// The bytes that a hexadecimal text encodes: `None` unless it has an even
/// number of characters, all of them hexadecimal digits.
pub open spec fn hex_decoded(s: Seq<char>) -> Option<Seq<u8>> {
    if s.len() % 2 == 0 && forall|i: int| 0 <= i < s.len() ==> (#[trigger] hex_value(s[i])) is Some {
        Some(
            Seq::new(
                s.len() / 2,
                |i: int| (hex_value(s[2 * i])->0 * 16 + hex_value(s[2 * i + 1])->0) as u8,
            ),
        )
    } else {
        None
    }
}

/// Decodes hexadecimal text (`hex::decode`).  Trusted: as its source shows,
/// it succeeds exactly on an even number of hexadecimal digits of either
/// case, and gives the bytes they encode, two digits per byte.
#[verifier::external_body]
fn hex_decode(s: &str) -> (r: Option<Vec<u8>>)
    ensures
        match r {
            Some(v) => hex_decoded(s@) == Some(v@),
            None => hex_decoded(s@) is None,
        },
{
    hex::decode(s).ok()
}

/// The prefix `sha256=` of a signature header.
pub open spec fn sha256_prefix() -> Seq<char> {
    seq!['s', 'h', 'a', '2', '5', '6', '=']
}

/// Whether `header` signs `body` under `secret`: it is `sha256=` followed by
/// the hexadecimal HMAC-SHA256 tag of the body, keyed with the secret's
/// UTF-8 bytes.
pub open spec fn signature_valid(body: Seq<u8>, header: Seq<char>, secret: Seq<char>) -> bool {
    has_prefix(header, sha256_prefix()) && match hex_decoded(
        header.subrange(7, header.len() as int),
    ) {
        Some(tag) => tag == hmac_sha256(vstd::utf8::encode_utf8(secret), body),
        None => false,
    }
}

/// Checks the `sha256=<hex>` signature of a webhook body.
pub fn verify_signature(body: &[u8], signature_header: &str, secret: &str) -> (r: bool)
    ensures
        r == signature_valid(body@, signature_header@, secret@),
{
    let h = chars_of(signature_header);
    let prefix = vec!['s', 'h', 'a', '2', '5', '6', '='];
    assert(prefix@ =~= sha256_prefix());
    if !starts_with(&h, &prefix) {
        return false;
    }
    let digest = string_from_chars(&chars_from(&h, 7));
    let expected = match hex_decode(digest.as_str()) {
        Some(b) => b,
        None => return false,
    };
    hmac_sha256_verify(secret.as_bytes(), body, expected.as_slice())
}

/// The signature header of a webhook request: `X-Hub-Signature-256`, or
/// else `X-Gitea-Signature`, each given as `Some(None)` when present but not
/// readable as text; empty when the chosen header is missing or unreadable.
pub fn signature_header(hub: Option<Option<String>>, gitea: Option<Option<String>>) -> (r: String)
    ensures
        r@ == (match hub {
            Some(v) => match v {
                Some(s) => s@,
                None => Seq::empty(),
            },
            None => match gitea {
                Some(Some(s)) => s@,
                _ => Seq::empty(),
            },
        }),
{
    let chosen = match hub {
        Some(v) => v,
        None => match gitea {
            Some(v) => v,
            None => None,
        },
    };
    match chosen {
        Some(s) => s,
        None => String::new(),
    }
}

/// Whether a webhook request is accepted: always when no secret is
/// configured, otherwise exactly when its signature is valid.
pub fn webhook_authorized(secret: Option<&str>, signature_header: &str, body: &[u8]) -> (r: bool)
    ensures
        r == match secret {
            None => true,
            Some(s) => signature_valid(body@, signature_header@, s@),
        },
{
    match secret {
        None => true,
        Some(s) => verify_signature(body, signature_header, s),
    }
}

/// How a webhook request ended.
#[derive(Clone, Copy, Debug, PartialEq, Eq, Structural)]
pub enum WebhookOutcome {
    /// The signature was missing or wrong (checked before anything else).
    Unauthorized,
    /// The body is not a push payload.
    BadPayload,
    /// Pulling from the remote failed.
    SyncFailed,
    /// The repository was pulled and the touched pages invalidated.
    Synced,
}

impl WebhookOutcome {
    /// The HTTP status of the answer: 401, 400, 500 or 200.
    pub fn status(self) -> (r: u16)
        ensures
            r == match self {
                WebhookOutcome::Unauthorized => 401u16,
                WebhookOutcome::BadPayload => 400u16,
                WebhookOutcome::SyncFailed => 500u16,
                WebhookOutcome::Synced => 200u16,
            },
    {
        match self {
            WebhookOutcome::Unauthorized => 401,
            WebhookOutcome::BadPayload => 400,
            WebhookOutcome::SyncFailed => 500,
            WebhookOutcome::Synced => 200,
        }
    }
}

/// Where handling a webhook request stands.
#[derive(Debug)]
pub enum WebhookFlow {
    /// Authorised; waiting for the push payload to be parsed.
    Parsing,
    /// Waiting for the pull; `pages` are the pages the push touched.
    Pulling { pages: Vec<String> },
    /// Waiting for the touched pages' cache entries to be invalidated.
    Invalidating,
    /// The answer has been given.
    Done,
}

/// What came of the last action.
#[derive(Debug)]
pub enum WebhookEvent {
    /// Parsing the body gave this payload (`None`: it is not a push payload).
    PayloadParsed(Option<PushPayload>),
    /// The pull succeeded or failed.
    Pulled(bool),
    /// The cache entries have been invalidated.
    Invalidated,
}

/// What the caller does next.
#[derive(Debug)]
pub enum WebhookAction {
    /// Parse the request body as a push payload.
    ParsePayload,
    /// Pull from the remote.
    Pull,
    /// Invalidate the cache entries of these pages.
    Invalidate(Vec<String>),
    /// Answer the request.
    Respond(WebhookOutcome),
}

impl WebhookFlow {
    /// Starts handling a webhook request: the signature is checked before
    /// anything else, and a request that fails it is answered at once.
    pub fn start(secret: Option<&str>, signature_header: &str, body: &[u8]) -> (r: (
        WebhookFlow,
        WebhookAction,
    ))
        ensures
            (match secret {
                None => true,
                Some(s) => signature_valid(body@, signature_header@, s@),
            }) ==> (r.0 is Parsing && r.1 is ParsePayload),
            !(match secret {
                None => true,
                Some(s) => signature_valid(body@, signature_header@, s@),
            }) ==> (r.0 is Done && r.1 == WebhookAction::Respond(WebhookOutcome::Unauthorized)),
    {
        if webhook_authorized(secret, signature_header, body) {
            (WebhookFlow::Parsing, WebhookAction::ParsePayload)
        } else {
            (WebhookFlow::Done, WebhookAction::Respond(WebhookOutcome::Unauthorized))
        }
    }

    /// The next state and action after `event`: the pull comes only after a
    /// payload was parsed, and exactly the pages the push touched are
    /// invalidated, only after a successful pull.
    pub fn step(self, event: WebhookEvent) -> (r: (WebhookFlow, WebhookAction))
        ensures
            match (self, event) {
                (WebhookFlow::Parsing, WebhookEvent::PayloadParsed(None)) => {
                    &&& r.0 is Done
                    &&& r.1 == WebhookAction::Respond(WebhookOutcome::BadPayload)
                },
                (WebhookFlow::Parsing, WebhookEvent::PayloadParsed(Some(p))) => {
                    &&& r.0 matches WebhookFlow::Pulling { pages }
                    &&& string_views(r.0->pages@) == affected_pages(p.commits@)
                    &&& r.1 is Pull
                },
                (WebhookFlow::Pulling { pages }, WebhookEvent::Pulled(false)) => {
                    &&& r.0 is Done
                    &&& r.1 == WebhookAction::Respond(WebhookOutcome::SyncFailed)
                },
                (WebhookFlow::Pulling { pages }, WebhookEvent::Pulled(true)) => {
                    &&& r.0 is Invalidating
                    &&& r.1 == WebhookAction::Invalidate(pages)
                },
                (WebhookFlow::Invalidating, WebhookEvent::Invalidated) => {
                    &&& r.0 is Done
                    &&& r.1 == WebhookAction::Respond(WebhookOutcome::Synced)
                },
                _ => {
                    &&& r.0 is Done
                    &&& r.1 == WebhookAction::Respond(WebhookOutcome::SyncFailed)
                },
            },
    {
        match (self, event) {
            (WebhookFlow::Parsing, WebhookEvent::PayloadParsed(parsed)) => match parsed {
                None => (WebhookFlow::Done, WebhookAction::Respond(WebhookOutcome::BadPayload)),
                Some(p) => (WebhookFlow::Pulling { pages: affected_org_files(&p) }, WebhookAction::Pull),
            },
            (WebhookFlow::Pulling { pages }, WebhookEvent::Pulled(ok)) => {
                if ok {
                    (WebhookFlow::Invalidating, WebhookAction::Invalidate(pages))
                } else {
                    (WebhookFlow::Done, WebhookAction::Respond(WebhookOutcome::SyncFailed))
                }
            },
            (WebhookFlow::Invalidating, WebhookEvent::Invalidated) => (
                WebhookFlow::Done,
                WebhookAction::Respond(WebhookOutcome::Synced),
            ),
            _ => (WebhookFlow::Done, WebhookAction::Respond(WebhookOutcome::SyncFailed)),
        }
    }
}

// ── laws ────────────────────────────────────────────────────────────────────

/// The lower-case hexadecimal digit of a value below 16.
pub open spec fn hex_digit(v: int) -> char {
    if v < 10 {
        (0x30 + v) as char
    } else {
        (0x61 + v - 10) as char
    }
}

/// The lower-case hexadecimal text of `bytes` (as `hex::encode` writes it).
pub open spec fn hex_lower(bytes: Seq<u8>) -> Seq<char>
    decreases bytes.len(),
{
    if bytes.len() == 0 {
        Seq::empty()
    } else {
        hex_lower(bytes.drop_last()) + seq![
            hex_digit(bytes.last() as int / 16),
            hex_digit(bytes.last() as int % 16),
        ]
    }
}

proof fn lemma_hex_digit_value(v: int)
    requires
        0 <= v < 16,
    ensures
        hex_value(hex_digit(v)) == Some(v as u8),
{
}

proof fn lemma_hex_lower_shape(bytes: Seq<u8>)
    ensures
        hex_lower(bytes).len() == 2 * bytes.len(),
        forall|i: int|
            0 <= i < bytes.len() ==> hex_lower(bytes)[2 * i] == hex_digit(bytes[i] as int / 16)
                && hex_lower(bytes)[2 * i + 1] == hex_digit(bytes[i] as int % 16),
    decreases bytes.len(),
{
    if bytes.len() > 0 {
        let init = bytes.drop_last();
        lemma_hex_lower_shape(init);
        let h = hex_lower(bytes);
        assert forall|i: int| 0 <= i < bytes.len() implies h[2 * i] == hex_digit(
            bytes[i] as int / 16,
        ) && h[2 * i + 1] == hex_digit(bytes[i] as int % 16) by {
            if i < init.len() {
                assert(bytes[i] == init[i]);
                assert(h[2 * i] == hex_lower(init)[2 * i]);
                assert(h[2 * i + 1] == hex_lower(init)[2 * i + 1]);
            }
        }
    }
}

/// Hexadecimal decoding inverts lower-case hexadecimal encoding.
pub proof fn hex_decode_inverts_encode(bytes: Seq<u8>)
    ensures
        hex_decoded(hex_lower(bytes)) == Some(bytes),
{
    lemma_hex_lower_shape(bytes);
    let h = hex_lower(bytes);
    assert forall|i: int| 0 <= i < h.len() implies (#[trigger] hex_value(h[i])) is Some by {
        let j = i / 2;
        assert(0 <= j < bytes.len());
        if i % 2 == 0 {
            assert(i == 2 * j);
            lemma_hex_digit_value(bytes[j] as int / 16);
        } else {
            assert(i == 2 * j + 1);
            lemma_hex_digit_value(bytes[j] as int % 16);
        }
    }
    let d = hex_decoded(h)->0;
    assert forall|i: int| 0 <= i < bytes.len() implies d[i] == bytes[i] by {
        lemma_hex_digit_value(bytes[i] as int / 16);
        lemma_hex_digit_value(bytes[i] as int % 16);
    }
    assert(d =~= bytes);
}

/// A body signed as the forge signs it, `sha256=` followed by the lower-case
/// hexadecimal HMAC-SHA256 of the body under the shared secret, is accepted.
pub proof fn correctly_signed_body_is_accepted(body: Seq<u8>, secret: Seq<char>)
    ensures
        signature_valid(
            body,
            sha256_prefix() + hex_lower(hmac_sha256(vstd::utf8::encode_utf8(secret), body)),
            secret,
        ),
{
    let tag = hmac_sha256(vstd::utf8::encode_utf8(secret), body);
    let header = sha256_prefix() + hex_lower(tag);
    assert(header.subrange(0, 7) =~= sha256_prefix());
    assert(header.subrange(7, header.len() as int) =~= hex_lower(tag));
    hex_decode_inverts_encode(tag);
}

proof fn lemma_org_paths_are_org(ps: Seq<Seq<char>>)
    ensures
        forall|i: int| 0 <= i < org_paths(ps).len() ==> has_suffix(#[trigger] org_paths(ps)[i], org_ext()),
    decreases ps.len(),
{
    if ps.len() > 0 {
        lemma_org_paths_are_org(ps.drop_last());
        let k = org_paths(ps.drop_last());
        assert forall|i: int| 0 <= i < org_paths(ps).len() implies has_suffix(
            #[trigger] org_paths(ps)[i],
            org_ext(),
        ) by {
            if i < k.len() {
                assert(org_paths(ps)[i] == k[i]);
            }
        }
    }
}

/// Only pages are invalidated after a push: every affected path ends in `.org`.
pub proof fn affected_paths_are_pages(cs: Seq<Commit>)
    ensures
        forall|i: int|
            0 <= i < affected_pages(cs).len() ==> has_suffix(#[trigger] affected_pages(cs)[i], org_ext()),
    decreases cs.len(),
{
    if cs.len() > 0 {
        affected_paths_are_pages(cs.drop_last());
        let a = affected_pages(cs.drop_last());
        let b = org_paths(commit_paths(cs.last()));
        lemma_org_paths_are_org(commit_paths(cs.last()));
        assert forall|i: int| 0 <= i < affected_pages(cs).len() implies has_suffix(
            #[trigger] affected_pages(cs)[i],
            org_ext(),
        ) by {
            if i < a.len() {
                assert(affected_pages(cs)[i] == a[i]);
            } else {
                assert(affected_pages(cs)[i] == b[i - a.len()]);
            }
        }
    }
}

/// A header without the `sha256=` prefix is rejected, whatever the body and secret.
pub proof fn unprefixed_signature_is_rejected(body: Seq<u8>, header: Seq<char>, secret: Seq<char>)
    requires
        !has_prefix(header, sha256_prefix()),
    ensures
        !signature_valid(body, header, secret),
{
}

} // verus!
