use org_wiki::view::{PageAction, PageEvent, PageReply, PageView};

#[test]
fn cached_page_is_served_without_rendering() {
    let (view, action) = PageView::start("/guides/setup");
    match &action {
        PageAction::LookUpCache(k) => assert_eq!(k, "guides/setup.org"),
        other => panic!("unexpected: {other:?}"),
    }
    let (view, action) = view.step(PageEvent::CacheLookedUp(Some("<p>cached</p>".into())));
    match &action {
        PageAction::ReadTitleSource(k) => assert_eq!(k, "guides/setup.org"),
        other => panic!("unexpected: {other:?}"),
    }
    let (view, action) = view.step(PageEvent::TitleSourceRead(Some("#+title: Setup Guide\n".into())));
    assert!(matches!(view, PageView::Done));
    match action {
        PageAction::Respond(PageReply::Page { title, key, content }) => {
            assert_eq!(title, "Setup Guide");
            assert_eq!(key, "guides/setup.org");
            assert_eq!(content, "<p>cached</p>");
        }
        other => panic!("unexpected: {other:?}"),
    }
}

#[test]
fn uncached_page_is_rendered_and_stored() {
    let (view, _) = PageView::start("index");
    let (view, action) = view.step(PageEvent::CacheLookedUp(None));
    assert!(matches!(action, PageAction::ReadSource(ref k) if k == "index.org"));
    let (view, action) = view.step(PageEvent::SourceRead(Some("Hello\n".into())));
    assert!(matches!(action, PageAction::Render(ref s) if s == "Hello\n"));
    let (view, action) = view.step(PageEvent::Rendered(Some("<p>Hello</p>".into())));
    match &action {
        PageAction::StoreAndReadTitle { key, html } => {
            assert_eq!(key, "index.org");
            assert_eq!(html, "<p>Hello</p>");
        }
        other => panic!("unexpected: {other:?}"),
    }
    let (_, action) = view.step(PageEvent::TitleSourceRead(Some("Hello\n".into())));
    match action {
        PageAction::Respond(PageReply::Page { title, content, .. }) => {
            assert_eq!(title, "index");
            assert_eq!(content, "<p>Hello</p>");
        }
        other => panic!("unexpected: {other:?}"),
    }
}

#[test]
fn missing_page_links_to_editor() {
    let (view, _) = PageView::start("new-page");
    let (view, _) = view.step(PageEvent::CacheLookedUp(None));
    let (view, action) = view.step(PageEvent::SourceRead(None));
    assert!(matches!(view, PageView::Done));
    match action {
        PageAction::Respond(PageReply::NotFound(body)) => {
            assert!(body.contains("<a href=\"/edit/new-page\">Create it</a>"))
        }
        other => panic!("unexpected: {other:?}"),
    }
}

#[test]
fn failed_render_is_a_server_error() {
    let (view, _) = PageView::start("x");
    let (view, _) = view.step(PageEvent::CacheLookedUp(None));
    let (view, _) = view.step(PageEvent::SourceRead(Some("x".into())));
    let (_, action) = view.step(PageEvent::Rendered(None));
    assert!(matches!(action, PageAction::Respond(PageReply::ServerError)));
}

#[test]
fn unexpected_event_ends_with_server_error() {
    let (view, _) = PageView::start("x");
    let (view, action) = view.step(PageEvent::Rendered(Some("?".into())));
    assert!(matches!(view, PageView::Done));
    assert!(matches!(action, PageAction::Respond(PageReply::ServerError)));
}
