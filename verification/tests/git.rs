use org_wiki::git::{
    build_message, commit_has_parent, CommandRun, CommitAuthor, CommitMessage, GitError, HeadState,
    RepoOpen, WikiRepo,
};

#[test]
fn commit_message_includes_co_author_trailer() {
    let co = CommitAuthor { name: "Bob".to_owned(), email: "bob@example.com".to_owned() };
    let msg = CommitMessage { subject: "Fix typo".to_owned(), body: Some("Details here.".to_owned()) };
    let result = build_message(&msg, Some(&co));
    assert!(result.contains("Co-authored-by: Bob <bob@example.com>"));
    assert!(result.starts_with("Fix typo"));
}

#[test]
fn commit_message_exact_text() {
    let co = CommitAuthor { name: "Bob".to_owned(), email: "bob@example.com".to_owned() };
    let msg = CommitMessage { subject: "Fix typo".to_owned(), body: Some("  Details here.\n".to_owned()) };
    assert_eq!(
        build_message(&msg, Some(&co)),
        "Fix typo\n\nDetails here.\n\nCo-authored-by: Bob <bob@example.com>"
    );
}

#[test]
fn commit_message_blank_body_is_dropped() {
    let msg = CommitMessage { subject: "Add index".to_owned(), body: Some(" \n\t".to_owned()) };
    assert_eq!(build_message(&msg, None), "Add index");
    let none = CommitMessage { subject: "Add index".to_owned(), body: None };
    assert_eq!(build_message(&none, None), "Add index");
}

fn repo(remote: Option<&str>) -> WikiRepo {
    WikiRepo::open("/srv/wiki", remote.map(|r| r.to_owned()), RepoOpen::Opened { bare: false })
        .unwrap()
}

#[test]
fn open_outcomes() {
    let r = repo(Some("origin"));
    assert_eq!(r.root(), "/srv/wiki");
    assert_eq!(r.push_args().unwrap()[1], "origin");
    match WikiRepo::open("/srv/wiki", None, RepoOpen::Opened { bare: true }) {
        Err(GitError::BareRepo { path }) => assert_eq!(path, "/srv/wiki"),
        other => panic!("unexpected: {other:?}"),
    }
    match WikiRepo::open("/nope", None, RepoOpen::Failed("not found".to_owned())) {
        Err(GitError::Open { path, message }) => {
            assert_eq!(path, "/nope");
            assert_eq!(message, "not found");
        }
        other => panic!("unexpected: {other:?}"),
    }
}

#[test]
fn page_path_is_under_root() {
    let r = repo(None);
    assert_eq!(r.page_path("guides/setup.org"), "/srv/wiki/guides/setup.org");
}

#[test]
fn push_and_pull_arguments() {
    let r = repo(Some("origin"));
    assert_eq!(r.push_args().unwrap(), vec!["push", "origin", "HEAD"]);
    assert_eq!(r.pull_args().unwrap(), vec!["pull", "--ff-only", "origin"]);
    let local = repo(None);
    assert!(local.push_args().is_none());
    assert!(local.pull_args().is_none());
}

#[test]
fn push_and_pull_outcomes() {
    let r = repo(Some("origin"));
    assert!(r.push_outcome(CommandRun::Exited { success: true }).is_ok());
    match r.push_outcome(CommandRun::Exited { success: false }) {
        Err(GitError::PushFailed { remote }) => assert_eq!(remote, "origin"),
        other => panic!("unexpected: {other:?}"),
    }
    match r.pull_outcome(CommandRun::Exited { success: false }) {
        Err(GitError::PullFailed { remote }) => assert_eq!(remote, "origin"),
        other => panic!("unexpected: {other:?}"),
    }
    match r.pull_outcome(CommandRun::SpawnFailed("no git".to_owned())) {
        Err(GitError::ProcessSpawn(m)) => assert_eq!(m, "no git"),
        other => panic!("unexpected: {other:?}"),
    }
    let local = repo(None);
    assert!(local.push_outcome(CommandRun::Exited { success: false }).is_ok());
    assert!(local.pull_outcome(CommandRun::SpawnFailed("x".to_owned())).is_ok());
}

#[test]
fn unborn_branch_commits_without_parent() {
    assert_eq!(commit_has_parent(HeadState::Commit).unwrap(), true);
    assert_eq!(commit_has_parent(HeadState::Unborn).unwrap(), false);
    match commit_has_parent(HeadState::Failed("corrupt".to_owned())) {
        Err(GitError::Git(m)) => assert_eq!(m, "corrupt"),
        other => panic!("unexpected: {other:?}"),
    }
}
