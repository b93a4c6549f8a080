//! Application settings and the directory layout of a workspace root.

use vstd::prelude::*;
use crate::paths::{join, path_join};

verus! {

/// Settings kept in `<root>/.exmind/config.json`.
#[derive(Debug)]
pub struct AppConfig {
    pub api_key: Option<String>,
    pub root_path: Option<String>,
    pub theme: Option<String>,
}

impl Default for AppConfig {
    /// Settings with nothing set.
    fn default() -> (c: Self)
        ensures
            c.api_key is None,
            c.root_path is None,
            c.theme is None,
    {
        AppConfig { api_key: None, root_path: None, theme: None }
    }
}

/// `<root>/.exmind/config.json`.
pub open spec fn config_file(root: Seq<char>) -> Seq<char> {
    join(join(root, ".exmind"@), "config.json"@)
}

impl AppConfig {
    /// The settings file of the workspace root `root_path`.
    pub fn config_path(root_path: &str) -> (r: String)
        ensures
            r@ == config_file(root_path@),
    {
        let dir = path_join(root_path, ".exmind");
        path_join(dir.as_str(), "config.json")
    }
}

/// The directories a workspace root holds: `workspace`, the snapshot
/// directories of `my-wiki` and `agent-wiki`, and `.exmind`, in that order.
pub open spec fn workspace_layout(root: Seq<char>) -> Seq<Seq<char>> {
    seq![
        join(root, "workspace"@),
        join(join(join(root, "my-wiki"@), ".exmind-mywiki"@), "versions"@),
        join(join(join(root, "agent-wiki"@), ".exmind-agentwiki"@), "versions"@),
        join(root, ".exmind"@),
    ]
}

/// The settings file of a workspace lies in the `.exmind` directory that
/// initializing the workspace creates.
pub proof fn lemma_settings_in_workspace_layout(root: Seq<char>)
    ensures
        config_file(root) == join(workspace_layout(root)[3], "config.json"@),
{
}

/// The directories to create when initializing the workspace at `root_path`.
pub fn workspace_dirs(root_path: &str) -> (r: Vec<String>)
    ensures
        crate::text::views(r@) == workspace_layout(root_path@),
{
    let mut r: Vec<String> = Vec::new();
    r.push(path_join(root_path, "workspace"));
    let a = path_join(root_path, "my-wiki");
    let b = path_join(a.as_str(), ".exmind-mywiki");
    r.push(path_join(b.as_str(), "versions"));
    let c = path_join(root_path, "agent-wiki");
    let d = path_join(c.as_str(), ".exmind-agentwiki");
    r.push(path_join(d.as_str(), "versions"));
    r.push(path_join(root_path, ".exmind"));
    assert(crate::text::views(r@) =~= workspace_layout(root_path@));
    r
}

} // verus!
