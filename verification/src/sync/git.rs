use vstd::prelude::*;

use crate::sync::config::{ConfigView, SyncConfig};
use crate::text::{owned, push_str};

verus! {

/// Commit message of every sync commit.
pub const SYNC_COMMIT_MESSAGE: &'static str = "sync: update sillok archive";

/// Result of committing and pushing an artifact.
#[derive(Debug, Clone)]
pub struct PushOutcome {
    pub commit: Option<String>,
    pub pushed: bool,
}

/// Git worktree used for one sync operation: where it is and what it syncs.
#[derive(Debug)]
pub struct GitWorktree {
    root: String,
    config: SyncConfig,
}

impl GitWorktree {
    /// The worktree's directory.
    pub closed spec fn root_view(&self) -> Seq<char> {
        self.root@
    }

    /// The worktree's configuration.
    pub closed spec fn config_view(&self) -> ConfigView {
        self.config@
    }

    /// A worktree at `root` for `config`.
    pub fn new(root: String, config: SyncConfig) -> (w: Self)
        ensures
            w.root_view() == root@,
            w.config_view() == config@,
    {
        GitWorktree { root, config }
    }

    /// Returns the worktree's directory.
    pub fn root(&self) -> (s: &str)
        ensures
            s@ == self.root_view(),
    {
        self.root.as_str()
    }

    /// Returns the worktree's configuration.
    pub fn config(&self) -> (c: &SyncConfig)
        ensures
            c@ == self.config_view(),
    {
        &self.config
    }

    /// Where the artifact lives: the configured path inside the worktree.
    pub fn artifact_path(&self) -> (s: String)
        ensures
            s@ == self.root_view() + "/"@ + self.config_view().path,
    {
        let mut s = owned(self.root.as_str());
        push_str(&mut s, "/");
        push_str(&mut s, self.config.path.as_str());
        proof {
            reveal_strlit("/");
        }
        s
    }

    /// The refspec that fetches the configured branch.
    pub fn fetch_refspec(&self) -> (s: String)
        ensures
            s@ == "refs/heads/"@ + self.config_view().branch + ":refs/remotes/origin/"@
                + self.config_view().branch,
    {
        let mut s = owned("refs/heads/");
        push_str(&mut s, self.config.branch.as_str());
        push_str(&mut s, ":refs/remotes/origin/");
        push_str(&mut s, self.config.branch.as_str());
        proof {
            reveal_strlit("refs/heads/");
            reveal_strlit(":refs/remotes/origin/");
        }
        s
    }

    /// The remote-tracking ref of the configured branch.
    pub fn remote_ref(&self) -> (s: String)
        ensures
            s@ == "refs/remotes/origin/"@ + self.config_view().branch,
    {
        let mut s = owned("refs/remotes/origin/");
        push_str(&mut s, self.config.branch.as_str());
        proof {
            reveal_strlit("refs/remotes/origin/");
        }
        s
    }

    /// The refspec that pushes `HEAD` to the configured branch.
    pub fn push_refspec(&self) -> (s: String)
        ensures
            s@ == "HEAD:refs/heads/"@ + self.config_view().branch,
    {
        let mut s = owned("HEAD:refs/heads/");
        push_str(&mut s, self.config.branch.as_str());
        proof {
            reveal_strlit("HEAD:refs/heads/");
        }
        s
    }
}

/// The message for a failed git command.
pub fn git_failure_message(command: &str, stdout: &str, stderr: &str) -> (s: String)
    ensures
        s@ == command@ + " failed: stdout="@ + stdout@ + " stderr="@ + stderr@,
{
    let mut s = owned(command);
    push_str(&mut s, " failed: stdout=");
    push_str(&mut s, stdout);
    push_str(&mut s, " stderr=");
    push_str(&mut s, stderr);
    proof {
        reveal_strlit(" failed: stdout=");
        reveal_strlit(" stderr=");
    }
    s
}

} // verus!
