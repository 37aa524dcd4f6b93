use vstd::prelude::*;

use crate::error::SillokError;
use crate::text::{decimal, owned, push_decimal, push_str, trim, trimmed};

verus! {

/// The only sync configuration schema this library reads and writes.
pub const SYNC_CONFIG_SCHEMA_VERSION: u32 = 1;

/// Branch used when none is given.
pub const DEFAULT_SYNC_BRANCH: &'static str = "main";

/// Artifact path used when none is given.
pub const DEFAULT_SYNC_PATH: &'static str = "sillok.slk.zst";

/// Per-store sync configuration stored beside the live database.
#[derive(Debug, Clone, PartialEq, Eq)]
pub struct SyncConfig {
    pub schema_version: u32,
    pub url: String,
    pub branch: String,
    pub path: String,
}

/// `..` stands as a whole path segment at position `i` of `p`.
pub open spec fn dotdot_at(p: Seq<char>, i: int) -> bool {
    &&& 0 <= i && i + 2 <= p.len()
    &&& p[i] == '.' && p[i + 1] == '.'
    &&& (i == 0 || p[i - 1] == '/')
    &&& (i + 2 == p.len() || p[i + 2] == '/')
}

/// The path begins with a `.` segment (`.` or `./...`).
pub open spec fn starts_at_cur_dir(p: Seq<char>) -> bool {
    p.len() >= 1 && p[0] == '.' && (p.len() == 1 || p[1] == '/')
}

/// Whether a relative artifact path stays inside the worktree: it has no
/// leading `.` segment and no `..` segment (inner `.` segments and repeated
/// slashes are harmless, as `Path::components` drops them).
pub open spec fn stays_inside(p: Seq<char>) -> bool {
    !starts_at_cur_dir(p) && !(exists|i: int| #[trigger] dotdot_at(p, i))
}

/// The error for an empty or absolute artifact path.
pub open spec fn not_relative_message() -> Seq<char> {
    "artifact path must be a non-empty relative path"@
}

/// The error for an artifact path that leaves the worktree.
pub open spec fn outside_message(p: Seq<char>) -> Seq<char> {
    "artifact path `"@ + p + "` must stay inside the Git worktree"@
}

/// Checks that an artifact path is a non-empty relative path inside the worktree.
pub fn validate_artifact_path(path: &str) -> (r: Result<(), SillokError>)
    ensures
        trimmed(path@).len() == 0 || (path@.len() > 0 && path@[0] == '/') ==> (r matches Err(e)
            && e.code == "sync_config_error" && e.message@ == not_relative_message()),
        !(trimmed(path@).len() == 0 || (path@.len() > 0 && path@[0] == '/')) ==> {
            &&& r is Ok <==> stays_inside(path@)
            &&& r matches Err(e) ==> e.code == "sync_config_error" && e.message@ == outside_message(
                path@,
            )
        },
{
    let n = path.unicode_len();
    let t = trim(path);
    if t.unicode_len() == 0 || (n > 0 && path.get_char(0) == '/') {
        proof {
            reveal_strlit("artifact path must be a non-empty relative path");
        }
        return Err(
            SillokError::new(
                "sync_config_error",
                String::from_str("artifact path must be a non-empty relative path"),
            ),
        );
    }
    let mut inside = !(path.get_char(0) == '.' && (n == 1 || path.get_char(1) == '/'));
    let mut i: usize = 0;
    while i < n && n - i >= 2 && inside
        invariant
            i <= n,
            n == path@.len(),
            n > 0,
            inside == (!starts_at_cur_dir(path@) && forall|j: int| 0 <= j < i ==> !#[trigger] dotdot_at(path@, j)),
        decreases n - i,
    {
        if path.get_char(i) == '.' && path.get_char(i + 1) == '.' && (i == 0 || path.get_char(i - 1)
            == '/') && (i + 2 == n || path.get_char(i + 2) == '/') {
            assert(dotdot_at(path@, i as int));
            inside = false;
        }
        i = i + 1;
    }
    if inside {
        assert forall|j: int| !#[trigger] dotdot_at(path@, j) by {
            if 0 <= j && j + 2 <= path@.len() {
                assert(j < i);
            }
        }
        Ok(())
    } else {
        let mut message = String::from_str("artifact path `");
        push_str(&mut message, path);
        push_str(&mut message, "` must stay inside the Git worktree");
        proof {
            reveal_strlit("artifact path `");
            reveal_strlit("` must stay inside the Git worktree");
        }
        Err(SillokError::new("sync_config_error", message))
    }
}

/// View of a sync configuration.
pub struct ConfigView {
    pub schema_version: u32,
    pub url: Seq<char>,
    pub branch: Seq<char>,
    pub path: Seq<char>,
}

impl View for SyncConfig {
    type V = ConfigView;

    open spec fn view(&self) -> ConfigView {
        ConfigView {
            schema_version: self.schema_version,
            url: self.url@,
            branch: self.branch@,
            path: self.path@,
        }
    }
}

/// The artifact path is a non-empty relative path.
pub open spec fn relative_path(p: Seq<char>) -> bool {
    trimmed(p).len() > 0 && !(p.len() > 0 && p[0] == '/')
}

/// A configuration that `validate` accepts.
pub open spec fn config_ok(c: ConfigView) -> bool {
    &&& c.schema_version == SYNC_CONFIG_SCHEMA_VERSION
    &&& trimmed(c.url).len() > 0
    &&& trimmed(c.branch).len() > 0
    &&& relative_path(c.path)
    &&& stays_inside(c.path)
}

/// The error `validate` gives for a configuration it refuses, checking the
/// schema, then the URL, then the branch, then the path.
pub open spec fn config_error(c: ConfigView, e: SillokError) -> bool {
    &&& e.code == "sync_config_error"
    &&& if c.schema_version != SYNC_CONFIG_SCHEMA_VERSION {
        e.message@ == "sync config schema "@ + decimal(c.schema_version as nat) + " is not supported"@
    } else if trimmed(c.url).len() == 0 {
        e.message@ == "remote URL is empty"@
    } else if trimmed(c.branch).len() == 0 {
        e.message@ == "remote branch is empty"@
    } else if !relative_path(c.path) {
        e.message@ == not_relative_message()
    } else {
        e.message@ == outside_message(c.path)
    }
}

impl SyncConfig {
    /// Builds and validates a sync configuration.
    pub fn new(url: String, branch: String, path: String) -> (r: Result<Self, SillokError>)
        ensures
            ({
                let c = ConfigView {
                    schema_version: SYNC_CONFIG_SCHEMA_VERSION,
                    url: url@,
                    branch: branch@,
                    path: path@,
                };
                &&& r is Ok <==> config_ok(c)
                &&& r matches Ok(v) ==> v@ == c
                &&& r matches Err(e) ==> config_error(c, e)
            }),
    {
        let config = SyncConfig { schema_version: SYNC_CONFIG_SCHEMA_VERSION, url, branch, path };
        config.validate()?;
        Ok(config)
    }

    /// Validates the config shape before any Git or filesystem access.
    pub fn validate(&self) -> (r: Result<(), SillokError>)
        ensures
            r is Ok <==> config_ok(self@),
            r matches Err(e) ==> config_error(self@, e),
    {
        if self.schema_version != SYNC_CONFIG_SCHEMA_VERSION {
            let mut message = String::from_str("sync config schema ");
            push_decimal(&mut message, self.schema_version as u64);
            push_str(&mut message, " is not supported");
            proof {
                reveal_strlit("sync config schema ");
                reveal_strlit(" is not supported");
            }
            return Err(SillokError::new("sync_config_error", message));
        }
        if trim(self.url.as_str()).unicode_len() == 0 {
            proof {
                reveal_strlit("remote URL is empty");
            }
            return Err(SillokError::new("sync_config_error", String::from_str("remote URL is empty")));
        }
        if trim(self.branch.as_str()).unicode_len() == 0 {
            proof {
                reveal_strlit("remote branch is empty");
            }
            return Err(
                SillokError::new("sync_config_error", String::from_str("remote branch is empty")),
            );
        }
        validate_artifact_path(self.path.as_str())
    }
}

/// Returns the sidecar path for a store path: the store path with `.sync.json` appended.
pub fn sidecar_path(store_path: &str) -> (p: String)
    ensures
        p@ == store_path@ + ".sync.json"@,
{
    let mut sidecar = owned(store_path);
    push_str(&mut sidecar, ".sync.json");
    sidecar
}

} // verus!
