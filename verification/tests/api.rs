use org_wiki::api::{
    healthz_response, not_found_body, oidc_issuer_url, oidc_redirect_uri, oidc_redirect_url,
    save_plan, AppStateError, SaveAction, SaveEvent, SaveFlow, SaveRequest,
};
use org_wiki::git::{CommitAuthor, GitError};

#[test]
fn save_plan_normalises_and_credits() {
    let req = SaveRequest { content: "#+title: X\n".into(), subject: "Edit".into(), body: Some("why".into()) };
    let user = CommitAuthor { name: "Alice".into(), email: "alice@example.com".into() };
    let plan = save_plan("/guides/../setup", &req, Some(user));
    assert_eq!(plan.rel_path, "guides/setup.org");
    assert_eq!(plan.page_key, "guides/setup.org");
    assert_eq!(plan.message.subject, "Edit");
    assert_eq!(plan.message.body.as_deref(), Some("why"));
    assert_eq!(plan.co_author.unwrap().email, "alice@example.com");
    let anon = save_plan("index", &req, None);
    assert!(anon.co_author.is_none());
}

#[test]
fn not_found_page_links_to_editor() {
    assert_eq!(
        not_found_body("a/b"),
        "<h1>404 Not Found</h1><p>No page at <code>a/b</code>.</p><p><a href=\"/edit/a/b\">Create it</a></p>"
    );
}

#[test]
fn redirect_uri_drops_trailing_slashes() {
    assert_eq!(oidc_redirect_uri("https://wiki.example.com//"), "https://wiki.example.com/auth/callback");
    assert_eq!(oidc_redirect_uri("https://wiki.example.com"), "https://wiki.example.com/auth/callback");
}

#[test]
fn oidc_urls_are_validated() {
    assert_eq!(oidc_issuer_url("https://id.example.com").unwrap().as_str(), "https://id.example.com");
    assert!(matches!(oidc_issuer_url("not a url"), Err(AppStateError::InvalidIssuer(_))));
    assert_eq!(oidc_redirect_url("https://wiki.example.com/").unwrap().as_str(), "https://wiki.example.com/auth/callback");
    assert!(matches!(oidc_redirect_url("no scheme"), Err(AppStateError::InvalidRedirectUri(_))));
}

#[test]
fn health_is_healthy() {
    assert_eq!(healthz_response().status, "healthy");
}

fn plan_for(path: &str) -> org_wiki::api::SavePlan {
    let req = SaveRequest { content: "x".into(), subject: "s".into(), body: None };
    save_plan(path, &req, None)
}

#[test]
fn save_commits_then_invalidates_then_pushes() {
    let (flow, action) = SaveFlow::start(&plan_for("notes/today"));
    assert!(matches!(action, SaveAction::Commit));
    let (flow, action) = flow.step(SaveEvent::Committed(Ok("abc123".into())));
    match &action {
        SaveAction::Invalidate(key) => assert_eq!(key, "notes/today.org"),
        other => panic!("unexpected action {other:?}"),
    }
    let (flow, action) = flow.step(SaveEvent::Invalidated);
    assert!(matches!(action, SaveAction::Push));
    let (flow, action) = flow.step(SaveEvent::Pushed(Ok(())));
    assert!(matches!(flow, SaveFlow::Done));
    match action {
        SaveAction::Respond(Ok(r)) => assert_eq!(r.commit, "abc123"),
        other => panic!("unexpected action {other:?}"),
    }
}

#[test]
fn save_stops_at_first_error() {
    let (flow, _) = SaveFlow::start(&plan_for("a"));
    let (flow, action) = flow.step(SaveEvent::Committed(Err(GitError::Git("locked".into()))));
    assert!(matches!(flow, SaveFlow::Done));
    assert!(matches!(action, SaveAction::Respond(Err(GitError::Git(ref m))) if m == "locked"));

    let (flow, _) = SaveFlow::start(&plan_for("a"));
    let (flow, _) = flow.step(SaveEvent::Committed(Ok("c1".into())));
    let (flow, _) = flow.step(SaveEvent::Invalidated);
    let (flow, action) = flow.step(SaveEvent::Pushed(Err(GitError::PushFailed { remote: "origin".into() })));
    assert!(matches!(flow, SaveFlow::Done));
    assert!(matches!(action, SaveAction::Respond(Err(GitError::PushFailed { .. }))));

    let (flow, action) = SaveFlow::Done.step(SaveEvent::Invalidated);
    assert!(matches!(flow, SaveFlow::Done));
    assert!(matches!(action, SaveAction::Respond(Err(GitError::Git(ref m))) if m == "save steps came out of order"));
}
