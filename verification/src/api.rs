//! What the web endpoints decide: the bodies of their requests and
//! responses, how a save request becomes a commit and in what order its
//! steps run (commit, invalidate, push), the page shown for a
//! missing page, and the OIDC URLs derived from the configuration.
use vstd::prelude::*;
use crate::git::{opt_view, CommitAuthor, CommitMessage, GitError};
use crate::paths::{normalize_page_path, normalized_page_path};
use crate::text::{chars_of, string_from_chars};

verus! {

#[verifier::external_type_specification]
#[verifier::external_body]
pub struct ExIssuerUrl(openidconnect::IssuerUrl);

#[verifier::external_type_specification]
#[verifier::external_body]
pub struct ExRedirectUrl(openidconnect::RedirectUrl);

/// Body of `POST /api/preview`: org-mode source to render.
#[derive(Debug, Clone)]
pub struct PreviewRequest {
    pub content: String,
}

/// Body of `POST /api/save/*path`: the new page source and the commit message.
#[derive(Debug, Clone)]
pub struct SaveRequest {
    pub content: String,
    pub subject: String,
    pub body: Option<String>,
}

/// Answer to a successful save: the id of the new commit.
#[derive(Debug, Clone)]
pub struct SaveResponse {
    pub commit: String,
}

/// Answer of the health check.
#[derive(Debug, Clone)]
pub struct HealthResponse {
    pub status: String,
}

/// The health check's answer: the service is healthy.
pub fn healthz_response() -> (r: HealthResponse)
    ensures
        r.status@ == "healthy"@,
{
    HealthResponse { status: "healthy".to_owned() }
}

/// What saving a page does: the page path, the cache key, the commit
/// message and the co-author to credit.
#[derive(Debug, Clone)]
pub struct SavePlan {
    /// The page's path relative to the repository root.
    pub rel_path: String,
    /// The page's key in the HTML cache (the same path).
    pub page_key: String,
    /// The commit message as the user gave it.
    pub message: CommitMessage,
    /// The signed-in user, credited as co-author.
    pub co_author: Option<CommitAuthor>,
}

/// Plans the save of the page named by the request path `page_path`: the
/// path is normalised, the cache entry of that page is the one to
/// invalidate, and the commit carries the user's subject and body.
pub fn save_plan(page_path: &str, request: &SaveRequest, user: Option<CommitAuthor>) -> (r: SavePlan)
    ensures
        r.rel_path@ == normalized_page_path(page_path@),
        r.page_key@ == normalized_page_path(page_path@),
        r.message.subject@ == request.subject@,
        opt_view(r.message.body) == opt_view(request.body),
        match (r.co_author, user) {
            (Some(a), Some(u)) => a.name@ == u.name@ && a.email@ == u.email@,
            (None, None) => true,
            _ => false,
        },
{
    let rel_path = normalize_page_path(page_path);
    let page_key = rel_path.clone();
    let body = match &request.body {
        Some(b) => Some(b.clone()),
        None => None,
    };
    let co_author = match user {
        Some(u) => Some(CommitAuthor { name: u.name, email: u.email }),
        None => None,
    };
    SavePlan {
        rel_path,
        page_key,
        message: CommitMessage { subject: request.subject.clone(), body },
        co_author,
    }
}

/// Where saving a page stands.
#[derive(Debug)]
pub enum SaveFlow {
    /// Waiting for the page to be written and committed; `page_key` is the
    /// cache entry to invalidate afterwards.
    Committing { page_key: String },
    /// Committed as `commit`; waiting for the cache entry to be invalidated.
    Invalidating { commit: String },
    /// Committed as `commit` and invalidated; waiting for the push.
    Pushing { commit: String },
    /// The answer has been given.
    Done,
}

/// What came of the last action of a save.
#[derive(Debug)]
pub enum SaveEvent {
    /// Writing and committing the page gave this commit id, or failed.
    Committed(Result<String, GitError>),
    /// The page's cache entry has been invalidated.
    Invalidated,
    /// The push succeeded or failed.
    Pushed(Result<(), GitError>),
}

/// What the caller of a save does next.
#[derive(Debug)]
pub enum SaveAction {
    /// Write the page and commit it, as the plan says.
    Commit,
    /// Invalidate the cache entry with this key.
    Invalidate(String),
    /// Push to the remote.
    Push,
    /// Answer the request: the new commit, or the error that stopped the save.
    Respond(Result<SaveResponse, GitError>),
}

impl SaveFlow {
    /// Starts a save planned by `plan`: the page is committed first.
    pub fn start(plan: &SavePlan) -> (r: (SaveFlow, SaveAction))
        ensures
            r.0 matches SaveFlow::Committing { page_key },
            r.0->page_key@ == plan.page_key@,
            r.1 is Commit,
    {
        (SaveFlow::Committing { page_key: plan.page_key.clone() }, SaveAction::Commit)
    }

    /// The next state and action after `event`: commit, then invalidate the
    /// page's cache entry, then push, stopping at the first error, which is
    /// the answer; after a successful push the answer is the new commit.
    pub fn step(self, event: SaveEvent) -> (r: (SaveFlow, SaveAction))
        ensures
            match (self, event) {
                (SaveFlow::Committing { page_key }, SaveEvent::Committed(Ok(c))) => {
                    &&& r.0 == SaveFlow::Invalidating { commit: c }
                    &&& r.1 == SaveAction::Invalidate(page_key)
                },
                (SaveFlow::Committing { page_key }, SaveEvent::Committed(Err(e))) => {
                    &&& r.0 is Done
                    &&& r.1 == SaveAction::Respond(Err(e))
                },
                (SaveFlow::Invalidating { commit }, SaveEvent::Invalidated) => {
                    &&& r.0 == SaveFlow::Pushing { commit }
                    &&& r.1 is Push
                },
                (SaveFlow::Pushing { commit }, SaveEvent::Pushed(Ok(_))) => {
                    &&& r.0 is Done
                    &&& r.1 == SaveAction::Respond(Ok(SaveResponse { commit }))
                },
                (SaveFlow::Pushing { commit }, SaveEvent::Pushed(Err(e))) => {
                    &&& r.0 is Done
                    &&& r.1 == SaveAction::Respond(Err(e))
                },
                _ => {
                    &&& r.0 is Done
                    &&& r.1 matches SaveAction::Respond(Err(GitError::Git(m)))
                    &&& m@ == "save steps came out of order"@
                },
            },
    {
        match (self, event) {
            (SaveFlow::Committing { page_key }, SaveEvent::Committed(outcome)) => match outcome {
                Ok(c) => (SaveFlow::Invalidating { commit: c }, SaveAction::Invalidate(page_key)),
                Err(e) => (SaveFlow::Done, SaveAction::Respond(Err(e))),
            },
            (SaveFlow::Invalidating { commit }, SaveEvent::Invalidated) => (
                SaveFlow::Pushing { commit },
                SaveAction::Push,
            ),
            (SaveFlow::Pushing { commit }, SaveEvent::Pushed(outcome)) => match outcome {
                Ok(()) => (SaveFlow::Done, SaveAction::Respond(Ok(SaveResponse { commit }))),
                Err(e) => (SaveFlow::Done, SaveAction::Respond(Err(e))),
            },
            _ => {
                let message = "save steps came out of order".to_string();
                proof {
                    reveal_strlit("save steps came out of order");
                }
                (SaveFlow::Done, SaveAction::Respond(Err(GitError::Git(message))))
            },
        }
    }
}

/// The HTML body shown for a page that does not exist, with a link to
/// create it.
pub open spec fn not_found_html(path: Seq<char>) -> Seq<char> {
    "<h1>404 Not Found</h1><p>No page at <code>"@ + path + "</code>.</p><p><a href=\"/edit/"@
        + path + "\">Create it</a></p>"@
}

/// The HTML body shown for a page that does not exist.
pub fn not_found_body(path: &str) -> (r: String)
    ensures
        r@ == not_found_html(path@),
{
    let mut s = "<h1>404 Not Found</h1><p>No page at <code>".to_owned();
    s.append(path);
    s.append("</code>.</p><p><a href=\"/edit/");
    s.append(path);
    s.append("\">Create it</a></p>");
    s
}

/// `s` without trailing `c` (`str::trim_end_matches`).
pub open spec fn trim_trailing(s: Seq<char>, c: char) -> Seq<char>
    decreases s.len(),
{
    if s.len() > 0 && s.last() == c {
        trim_trailing(s.drop_last(), c)
    } else {
        s
    }
}

/// The OIDC redirect URI of the instance at `base_url`.
pub open spec fn redirect_uri_of(base_url: Seq<char>) -> Seq<char> {
    trim_trailing(base_url, '/') + "/auth/callback"@
}

/// The OIDC redirect URI: the base URL without trailing slashes, followed by
/// `/auth/callback`.
pub fn oidc_redirect_uri(base_url: &str) -> (r: String)
    ensures
        r@ == redirect_uri_of(base_url@),
{
    let v = chars_of(base_url);
    let mut j = v.len();
    proof {
        assert(v@.subrange(0, v@.len() as int) =~= v@);
    }
    while j > 0 && v[j - 1] == '/'
        invariant
            0 <= j <= v@.len(),
            trim_trailing(v@, '/') == trim_trailing(v@.subrange(0, j as int), '/'),
        decreases j,
    {
        proof {
            assert(v@.subrange(0, j as int).drop_last() =~= v@.subrange(0, j - 1));
        }
        j = j - 1;
    }
    proof {
        if j > 0 {
            assert(v@.subrange(0, j as int).last() == v@[j - 1]);
        }
    }
    let mut out = Vec::new();
    let mut k: usize = 0;
    while k < j
        invariant
            0 <= k <= j <= v@.len(),
            out@ == v@.subrange(0, k as int),
        decreases j - k,
    {
        out.push(v[k]);
        k = k + 1;
    }
    let mut s = string_from_chars(&out);
    s.append("/auth/callback");
    proof {
        assert(v@.subrange(0, v@.len() as int) =~= v@);
    }
    s
}

/// Why the application state could not be set up.
#[derive(Debug, Clone)]
pub enum AppStateError {
    /// The wiki repository could not be opened.
    WikiRepo(GitError),
    /// The page templates could not be loaded.
    Templates { path: String, message: String },
    /// The OIDC issuer is not a valid URL.
    InvalidIssuer(String),
    /// OIDC provider discovery failed.
    OidcDiscovery(String),
    /// The OIDC redirect URI is not a valid URL.
    InvalidRedirectUri(String),
}

/// Why `openidconnect::IssuerUrl::new` rejects `s`, or `None` when it accepts it.
pub uninterp spec fn issuer_url_error(s: Seq<char>) -> Option<Seq<char>>;

/// Why `openidconnect::RedirectUrl::new` rejects `s`, or `None` when it accepts it.
pub uninterp spec fn redirect_url_error(s: Seq<char>) -> Option<Seq<char>>;

/// The text an `openidconnect::IssuerUrl` was made from (it keeps it).
pub uninterp spec fn issuer_url_text(u: openidconnect::IssuerUrl) -> Seq<char>;

/// The text an `openidconnect::RedirectUrl` was made from (it keeps it).
pub uninterp spec fn redirect_url_text(u: openidconnect::RedirectUrl) -> Seq<char>;

/// Parses the OIDC issuer URL (`openidconnect::IssuerUrl::new`).  Trusted:
/// it fails exactly when `issuer_url_error` names a reason, with that reason;
/// a URL it makes keeps the given text.
#[verifier::external_body]
fn parse_issuer_url(s: String) -> (r: Result<openidconnect::IssuerUrl, String>)
    ensures
        match r {
            Ok(u) => issuer_url_error(s@) is None && issuer_url_text(u) == s@,
            Err(e) => issuer_url_error(s@) == Some(e@),
        },
{
    openidconnect::IssuerUrl::new(s).map_err(|e| e.to_string())
}

/// Parses the OIDC redirect URL (`openidconnect::RedirectUrl::new`).
/// Trusted: it fails exactly when `redirect_url_error` names a reason, with
/// that reason; a URL it makes keeps the given text.
#[verifier::external_body]
fn parse_redirect_url(s: String) -> (r: Result<openidconnect::RedirectUrl, String>)
    ensures
        match r {
            Ok(u) => redirect_url_error(s@) is None && redirect_url_text(u) == s@,
            Err(e) => redirect_url_error(s@) == Some(e@),
        },
{
    openidconnect::RedirectUrl::new(s).map_err(|e| e.to_string())
}

/// The OIDC issuer URL of the configuration.
pub fn oidc_issuer_url(issuer: &str) -> (r: Result<openidconnect::IssuerUrl, AppStateError>)
    ensures
        match r {
            Ok(u) => issuer_url_error(issuer@) is None && issuer_url_text(u) == issuer@,
            Err(e) => e matches AppStateError::InvalidIssuer(m) && issuer_url_error(issuer@)
                == Some(m@),
        },
{
    match parse_issuer_url(issuer.to_owned()) {
        Ok(u) => Ok(u),
        Err(m) => Err(AppStateError::InvalidIssuer(m)),
    }
}

/// The OIDC redirect URL of the instance at `base_url` (see [`oidc_redirect_uri`]).
pub fn oidc_redirect_url(base_url: &str) -> (r: Result<openidconnect::RedirectUrl, AppStateError>)
    ensures
        match r {
            Ok(u) => redirect_url_error(redirect_uri_of(base_url@)) is None && redirect_url_text(u)
                == redirect_uri_of(base_url@),
            Err(e) => e matches AppStateError::InvalidRedirectUri(m) && redirect_url_error(
                redirect_uri_of(base_url@),
            ) == Some(m@),
        },
{
    match parse_redirect_url(oidc_redirect_uri(base_url)) {
        Ok(u) => Ok(u),
        Err(m) => Err(AppStateError::InvalidRedirectUri(m)),
    }
}

} // verus!
