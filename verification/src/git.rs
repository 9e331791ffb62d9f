//! The wiki's content repository: commit messages, the repository handle's
//! paths and remote, and what the outcomes of git operations mean.
//!
//! Opening the repository, staging, committing and running `git push` /
//! `git pull` touch the disk and the network; the caller performs them and
//! hands their outcomes to the functions here, which decide what they mean.
use vstd::prelude::*;
use crate::paths::{join_path, path_join};
use crate::text::{chars_of, has_prefix, string_from_chars, trim, trim_ws};

verus! {

/// Why a repository operation failed.
#[derive(Debug, Clone)]
pub enum GitError {
    /// The repository could not be opened.
    Open { path: String, message: String },
    /// The repository is a bare clone; a working directory is required.
    BareRepo { path: String },
    /// A page could not be read.
    ReadFile { path: String, message: String },
    /// A page could not be written.
    WriteFile { path: String, message: String },
    /// A directory for a page could not be created.
    CreateDir { path: String, message: String },
    /// A directory of the working tree could not be listed.
    ReadDir { path: String, message: String },
    /// The git library reported an error.
    Git(String),
    /// The `git` program could not be started.
    ProcessSpawn(String),
    /// `git push` to the remote failed.
    PushFailed { remote: String },
    /// `git pull` from the remote failed.
    PullFailed { remote: String },
    /// The lock around the repository was poisoned.
    MutexPoisoned,
}

/// User whose edit is attributed via a `Co-authored-by:` commit trailer.
#[derive(Debug, Clone)]
pub struct CommitAuthor {
    pub name: String,
    pub email: String,
}

/// Commit message as supplied by the user in the web editor.
#[derive(Debug, Clone)]
pub struct CommitMessage {
    /// Subject line (required).
    pub subject: String,
    /// Extended description (optional; may be empty).
    pub body: Option<String>,
}

/// The view of an optional string.
pub open spec fn opt_view(o: Option<String>) -> Option<Seq<char>> {
    match o {
        Some(s) => Some(s@),
        None => None,
    }
}

/// The subject followed by the trimmed body, separated by a blank line,
/// unless the body is missing or blank.
pub open spec fn message_with_body(subject: Seq<char>, body: Option<Seq<char>>) -> Seq<char> {
    match body {
        Some(b) => if trim_ws(b).len() > 0 {
            subject + "\n\n"@ + trim_ws(b)
        } else {
            subject
        },
        None => subject,
    }
}

/// The `Co-authored-by:` trailer of a co-author, preceded by a blank line.
pub open spec fn co_author_trailer(name: Seq<char>, email: Seq<char>) -> Seq<char> {
    "\n\nCo-authored-by: "@ + name + " <"@ + email + ">"@
}

/// The full commit message: subject, optional body and optional
/// `Co-authored-by:` trailer.
pub open spec fn commit_message_text(
    subject: Seq<char>,
    body: Option<Seq<char>>,
    co_author: Option<(Seq<char>, Seq<char>)>,
) -> Seq<char> {
    match co_author {
        Some((n, e)) => message_with_body(subject, body) + co_author_trailer(n, e),
        None => message_with_body(subject, body),
    }
}

/// The co-author's name and email, if any.
pub open spec fn author_view(co_author: Option<&CommitAuthor>) -> Option<(Seq<char>, Seq<char>)> {
    match co_author {
        Some(a) => Some((a.name@, a.email@)),
        None => None,
    }
}

/// Builds the commit message for a page edit.  The body is trimmed and left
/// out when blank; a co-author is credited with a `Co-authored-by:` trailer
/// that git requires to be separated from the body by a blank line.
pub fn build_message(message: &CommitMessage, co_author: Option<&CommitAuthor>) -> (s: String)
    ensures
        s@ == commit_message_text(message.subject@, opt_view(message.body), author_view(co_author)),
{
    let mut s = message.subject.clone();
    assert(s@ == message.subject@);
    if let Some(body) = &message.body {
        let b = trim(&chars_of(body.as_str()));
        if b.len() > 0 {
            s.append("\n\n");
            let bs = string_from_chars(&b);
            s.append(bs.as_str());
        }
    }
    assert(s@ == message_with_body(message.subject@, opt_view(message.body)));
    if let Some(author) = co_author {
        let ghost before = s@;
        s.append("\n\nCo-authored-by: ");
        s.append(author.name.as_str());
        s.append(" <");
        s.append(author.email.as_str());
        s.append(">");
        assert(s@ =~= before + co_author_trailer(author.name@, author.email@));
    }
    s
}

/// Every commit message starts with the subject, and when a co-author is
/// given it ends with that co-author's `Co-authored-by: name <email>` line.
pub proof fn commit_message_shape(
    subject: Seq<char>,
    body: Option<Seq<char>>,
    co_author: Option<(Seq<char>, Seq<char>)>,
)
    ensures
        commit_message_text(subject, body, co_author).subrange(0, subject.len() as int) == subject,
        co_author matches Some((n, e)) ==> ({
            let m = commit_message_text(subject, body, co_author);
            let t = co_author_trailer(n, e);
            m.subrange(m.len() - t.len(), m.len() as int) == t
        }),
{
    let m = commit_message_text(subject, body, co_author);
    let mb = message_with_body(subject, body);
    assert(mb.subrange(0, subject.len() as int) =~= subject);
    assert(m.subrange(0, subject.len() as int) =~= mb.subrange(0, subject.len() as int));
    if let Some((n, e)) = co_author {
        let t = co_author_trailer(n, e);
        assert(m.subrange(m.len() - t.len(), m.len() as int) =~= t);
    }
}

/// The message keeps a non-blank body, trimmed, after the subject and a
/// blank line, whether or not a co-author is given; a missing or blank
/// body leaves the subject alone; and a co-author only appends the
/// `Co-authored-by: name <email>` trailer to the message without one.
pub proof fn commit_message_keeps_body(
    subject: Seq<char>,
    body: Option<Seq<char>>,
    co_author: Option<(Seq<char>, Seq<char>)>,
)
    ensures
        body matches Some(b) ==> (trim_ws(b).len() > 0 ==> has_prefix(
            commit_message_text(subject, body, co_author),
            subject + "\n\n"@ + trim_ws(b),
        )),
        body matches Some(b) ==> (trim_ws(b).len() > 0 ==> commit_message_text(subject, body, None)
            == subject + "\n\n"@ + trim_ws(b)),
        (body is None || trim_ws(body->0).len() == 0) ==> commit_message_text(subject, body, None)
            == subject,
        co_author matches Some((n, e)) ==> commit_message_text(subject, body, co_author)
            == commit_message_text(subject, body, None) + "\n\nCo-authored-by: "@ + n + " <"@ + e
            + ">"@,
{
    let m = commit_message_text(subject, body, co_author);
    if let Some(b) = body {
        if trim_ws(b).len() > 0 {
            let p = subject + "\n\n"@ + trim_ws(b);
            assert(m.subrange(0, p.len() as int) =~= p);
        }
    }
    if let Some((n, e)) = co_author {
        assert(m =~= commit_message_text(subject, body, None) + "\n\nCo-authored-by: "@ + n + " <"@
            + e + ">"@);
    }
}

// ── the repository handle ───────────────────────────────────────────────────

/// The wiki's content repository: the working tree's root and the remote
/// that edits are pushed to (`None` disables push and pull).
#[derive(Debug, Clone)]
pub struct WikiRepo {
    root: String,
    remote: Option<String>,
}

/// The view of a repository handle: its root and its remote.
pub struct WikiRepoView {
    pub root: Seq<char>,
    pub remote: Option<Seq<char>>,
}

impl View for WikiRepo {
    type V = WikiRepoView;

    closed spec fn view(&self) -> WikiRepoView {
        WikiRepoView { root: self.root@, remote: opt_view(self.remote) }
    }
}

/// What opening the repository at a root gave.
#[derive(Debug, Clone)]
pub enum RepoOpen {
    /// A repository was found; `bare` tells whether it has no working tree.
    Opened { bare: bool },
    /// No repository could be opened, for the reason given.
    Failed(String),
}

/// What running a `git` subprocess gave.
#[derive(Debug, Clone)]
pub enum CommandRun {
    /// The process ran; `success` tells whether it exited successfully.
    Exited { success: bool },
    /// The process could not be started, for the reason given.
    SpawnFailed(String),
}

/// What looking up `HEAD` gave before a commit.
#[derive(Debug, Clone)]
pub enum HeadState {
    /// `HEAD` points to a commit.
    Commit,
    /// The branch is unborn (a freshly initialised repository).
    Unborn,
    /// The lookup failed, for the reason given.
    Failed(String),
}

impl WikiRepo {
    /// Decides the outcome of opening the repository at `root`: it must
    /// exist and must have a working directory.
    pub fn open(root: &str, remote: Option<String>, opened: RepoOpen) -> (r: Result<
        WikiRepo,
        GitError,
    >)
        ensures
            match opened {
                RepoOpen::Failed(m) => r matches Err(GitError::Open { path, message })
                    && path@ == root@ && message@ == m@,
                RepoOpen::Opened { bare: true } => r matches Err(GitError::BareRepo { path })
                    && path@ == root@,
                RepoOpen::Opened { bare: false } => r matches Ok(repo) && repo@.root == root@
                    && repo@.remote == opt_view(remote),
            },
    {
        match opened {
            RepoOpen::Failed(message) => Err(GitError::Open { path: root.to_owned(), message }),
            RepoOpen::Opened { bare } => {
                if bare {
                    Err(GitError::BareRepo { path: root.to_owned() })
                } else {
                    Ok(WikiRepo { root: root.to_owned(), remote })
                }
            },
        }
    }

    /// The working tree's root.
    pub fn root(&self) -> (r: &str)
        ensures
            r@ == self@.root,
    {
        self.root.as_str()
    }

    /// The path of the page `rel_path` in the working tree.
    pub fn page_path(&self, rel_path: &str) -> (r: String)
        ensures
            r@ == path_join(self@.root, rel_path@),
    {
        join_path(self.root.as_str(), rel_path)
    }

    /// The arguments of the `git` command that pushes `HEAD` to the remote,
    /// or `None` when no remote is configured.  `HEAD` is pushed explicitly so
    /// that the current branch is pushed by name even without an upstream.
    pub fn push_args(&self) -> (r: Option<Vec<String>>)
        ensures
            match self@.remote {
                None => r is None,
                Some(rm) => r matches Some(v) && v@.len() == 3 && v@[0]@ == "push"@ && v@[1]@
                    == rm && v@[2]@ == "HEAD"@,
            },
    {
        match &self.remote {
            None => None,
            Some(rm) => {
                let mut v: Vec<String> = Vec::new();
                v.push("push".to_owned());
                v.push(rm.clone());
                v.push("HEAD".to_owned());
                Some(v)
            },
        }
    }

    /// The arguments of the `git` command that fast-forwards from the
    /// remote, or `None` when no remote is configured.
    pub fn pull_args(&self) -> (r: Option<Vec<String>>)
        ensures
            match self@.remote {
                None => r is None,
                Some(rm) => r matches Some(v) && v@.len() == 3 && v@[0]@ == "pull"@ && v@[1]@
                    == "--ff-only"@ && v@[2]@ == rm,
            },
    {
        match &self.remote {
            None => None,
            Some(rm) => {
                let mut v: Vec<String> = Vec::new();
                v.push("pull".to_owned());
                v.push("--ff-only".to_owned());
                v.push(rm.clone());
                Some(v)
            },
        }
    }

    /// The outcome of a push: nothing to do without a remote; otherwise the
    /// `git push` run must have started and exited successfully.
    pub fn push_outcome(&self, run: CommandRun) -> (r: Result<(), GitError>)
        ensures
            match self@.remote {
                None => r is Ok,
                Some(rm) => match run {
                    CommandRun::SpawnFailed(m) => r matches Err(GitError::ProcessSpawn(e))
                        && e@ == m@,
                    CommandRun::Exited { success: true } => r is Ok,
                    CommandRun::Exited { success: false } => r matches Err(
                        GitError::PushFailed { remote },
                    ) && remote@ == rm,
                },
            },
    {
        match &self.remote {
            None => Ok(()),
            Some(rm) => match run {
                CommandRun::SpawnFailed(m) => Err(GitError::ProcessSpawn(m)),
                CommandRun::Exited { success } => {
                    if success {
                        Ok(())
                    } else {
                        Err(GitError::PushFailed { remote: rm.clone() })
                    }
                },
            },
        }
    }

    /// The outcome of a pull: nothing to do without a remote; otherwise the
    /// `git pull --ff-only` run must have started and exited successfully.
    pub fn pull_outcome(&self, run: CommandRun) -> (r: Result<(), GitError>)
        ensures
            match self@.remote {
                None => r is Ok,
                Some(rm) => match run {
                    CommandRun::SpawnFailed(m) => r matches Err(GitError::ProcessSpawn(e))
                        && e@ == m@,
                    CommandRun::Exited { success: true } => r is Ok,
                    CommandRun::Exited { success: false } => r matches Err(
                        GitError::PullFailed { remote },
                    ) && remote@ == rm,
                },
            },
    {
        match &self.remote {
            None => Ok(()),
            Some(rm) => match run {
                CommandRun::SpawnFailed(m) => Err(GitError::ProcessSpawn(m)),
                CommandRun::Exited { success } => {
                    if success {
                        Ok(())
                    } else {
                        Err(GitError::PullFailed { remote: rm.clone() })
                    }
                },
            },
        }
    }
}

/// Whether a new commit has a parent: it does when `HEAD` points to a
/// commit, it does not on an unborn branch, and a failed lookup is an error.
pub fn commit_has_parent(head: HeadState) -> (r: Result<bool, GitError>)
    ensures
        match head {
            HeadState::Commit => r == Ok::<bool, GitError>(true),
            HeadState::Unborn => r == Ok::<bool, GitError>(false),
            HeadState::Failed(m) => r matches Err(GitError::Git(e)) && e@ == m@,
        },
{
    match head {
        HeadState::Commit => Ok(true),
        HeadState::Unborn => Ok(false),
        HeadState::Failed(m) => Err(GitError::Git(m)),
    }
}

} // verus!
