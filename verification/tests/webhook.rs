use hmac::Mac;
use org_wiki::webhook::{
    affected_org_files, signature_header, verify_signature, webhook_authorized, Commit, PushPayload,
    WebhookAction, WebhookEvent, WebhookFlow, WebhookOutcome,
};

fn sign(secret: &str, body: &[u8]) -> String {
    let mut mac = hmac::Hmac::<sha2::Sha256>::new_from_slice(secret.as_bytes()).unwrap();
    mac.update(body);
    format!("sha256={}", hex::encode(mac.finalize().into_bytes()))
}

#[test]
fn correct_signature_is_accepted() {
    let body = br#"{"commits":[]}"#;
    let header = sign("s3cret", body);
    assert!(verify_signature(body, &header, "s3cret"));
    assert!(verify_signature(body, &header.to_uppercase().replacen("SHA256=", "sha256=", 1), "s3cret"));
}

#[test]
fn wrong_signatures_are_rejected() {
    let body = b"payload";
    let header = sign("s3cret", body);
    assert!(!verify_signature(body, &header, "other"));
    assert!(!verify_signature(b"tampered", &header, "s3cret"));
    assert!(!verify_signature(body, header.trim_start_matches("sha256="), "s3cret"));
    assert!(!verify_signature(body, "sha256=zz", "s3cret"));
    assert!(!verify_signature(body, "sha256=abc", "s3cret"));
    assert!(!verify_signature(body, "", "s3cret"));
}

#[test]
fn no_secret_accepts_everything() {
    assert!(webhook_authorized(None, "", b"x"));
    assert!(!webhook_authorized(Some("k"), "", b"x"));
    let header = sign("k", b"x");
    assert!(webhook_authorized(Some("k"), &header, b"x"));
}

#[test]
fn signature_header_choice() {
    assert_eq!(signature_header(Some(Some("a".into())), Some(Some("b".into()))), "a");
    assert_eq!(signature_header(None, Some(Some("b".into()))), "b");
    assert_eq!(signature_header(Some(None), Some(Some("b".into()))), "");
    assert_eq!(signature_header(None, None), "");
}

#[test]
fn affected_files_are_org_paths_in_order() {
    let payload = PushPayload {
        commits: vec![
            Commit {
                added: vec!["new.org".into(), "img.png".into()],
                modified: vec!["guides/setup.org".into()],
                removed: vec!["old.org".into()],
            },
            Commit { added: vec![], modified: vec!["README.md".into(), "index.org".into()], removed: vec![] },
        ],
    };
    assert_eq!(
        affected_org_files(&payload),
        vec!["new.org", "guides/setup.org", "old.org", "index.org"]
    );
    assert!(affected_org_files(&PushPayload::default()).is_empty());
}

fn push_of(paths: &[&str]) -> PushPayload {
    PushPayload {
        commits: vec![Commit {
            added: vec![],
            modified: paths.iter().map(|p| p.to_string()).collect(),
            removed: vec![],
        }],
    }
}

fn is_respond(action: &WebhookAction, outcome: WebhookOutcome) -> bool {
    matches!(action, WebhookAction::Respond(o) if *o == outcome)
}

#[test]
fn webhook_unauthorised_request_is_answered_at_once() {
    let (flow, action) = WebhookFlow::start(Some("k"), "sha256=00", b"{}");
    assert!(matches!(flow, WebhookFlow::Done));
    assert!(is_respond(&action, WebhookOutcome::Unauthorized));
    let header = sign("k", b"{}");
    let (flow, action) = WebhookFlow::start(Some("k"), &header, b"{}");
    assert!(matches!(flow, WebhookFlow::Parsing));
    assert!(matches!(action, WebhookAction::ParsePayload));
    let (flow, action) = WebhookFlow::start(None, "", b"{}");
    assert!(matches!(flow, WebhookFlow::Parsing));
    assert!(matches!(action, WebhookAction::ParsePayload));
}

#[test]
fn webhook_full_run_pulls_then_invalidates_touched_pages() {
    let (flow, _) = WebhookFlow::start(None, "", b"{}");
    let (flow, action) = flow.step(WebhookEvent::PayloadParsed(Some(push_of(&["a.org", "b.txt", "c/d.org"]))));
    assert!(matches!(action, WebhookAction::Pull));
    let (flow, action) = flow.step(WebhookEvent::Pulled(true));
    match action {
        WebhookAction::Invalidate(pages) => assert_eq!(pages, vec!["a.org", "c/d.org"]),
        other => panic!("unexpected action {other:?}"),
    }
    let (flow, action) = flow.step(WebhookEvent::Invalidated);
    assert!(matches!(flow, WebhookFlow::Done));
    assert!(is_respond(&action, WebhookOutcome::Synced));
}

#[test]
fn webhook_bad_payload_and_failed_pull() {
    let (flow, _) = WebhookFlow::start(None, "", b"x");
    let (flow, action) = flow.step(WebhookEvent::PayloadParsed(None));
    assert!(matches!(flow, WebhookFlow::Done));
    assert!(is_respond(&action, WebhookOutcome::BadPayload));

    let (flow, _) = WebhookFlow::start(None, "", b"{}");
    let (flow, _) = flow.step(WebhookEvent::PayloadParsed(Some(push_of(&["a.org"]))));
    let (flow, action) = flow.step(WebhookEvent::Pulled(false));
    assert!(matches!(flow, WebhookFlow::Done));
    assert!(is_respond(&action, WebhookOutcome::SyncFailed));

    // An event the state does not wait for ends the request as failed.
    let (flow, action) = WebhookFlow::Parsing.step(WebhookEvent::Invalidated);
    assert!(matches!(flow, WebhookFlow::Done));
    assert!(is_respond(&action, WebhookOutcome::SyncFailed));
}

#[test]
fn webhook_outcome_statuses() {
    assert_eq!(WebhookOutcome::Unauthorized.status(), 401);
    assert_eq!(WebhookOutcome::BadPayload.status(), 400);
    assert_eq!(WebhookOutcome::SyncFailed.status(), 500);
    assert_eq!(WebhookOutcome::Synced.status(), 200);
}
