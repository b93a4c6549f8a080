//! Per-workspace session storage locations.

use vstd::prelude::*;
use crate::paths::{join, path_join};
use crate::text::{lower_hex, lower_hex_string};

verus! {

#[verifier::external_type_specification]
#[verifier::external_body]
pub struct ExIoError(std::io::Error);

/// What `std`'s `DefaultHasher`, as `DefaultHasher::new()` makes it, gives
/// for a string.
pub uninterp spec fn default_hash(text: Seq<char>) -> u64;

/// Hashes a string with `std`'s default hasher (`BuildHasher::hash_one` on a
/// `BuildHasherDefault<DefaultHasher>`, which hashes with a hasher made by
/// `DefaultHasher::new()`).  The contract claims only that the hash is a
/// function of the text: `std` documents every hasher made by
/// `DefaultHasher::new()` as the same, and does not say which algorithm it is.
#[verifier::external_body]
fn md5_hash(path: &str) -> (h: u64)
    ensures
        h == default_hash(path@),
{
    std::hash::BuildHasher::hash_one(
        &std::hash::BuildHasherDefault::<std::collections::hash_map::DefaultHasher>::default(),
        path,
    )
}

/// The directory of a workspace's sessions:
/// `/tmp/wikimind-sessions/<hash of the workspace path, in hex>`.
pub open spec fn session_dir_for(cwd: Seq<char>) -> Seq<char> {
    join("/tmp/wikimind-sessions"@, lower_hex(default_hash(cwd) as nat))
}

/// Where the sessions of a workspace are kept.
pub struct SessionStore {
    sessions_dir: String,
}

impl View for SessionStore {
    type V = Seq<char>;

    closed spec fn view(&self) -> Seq<char> {
        self.sessions_dir@
    }
}

impl SessionStore {
    /// The store of the workspace at `cwd`; it never fails.  Two stores made
    /// for the same workspace path use the same directory.
    pub fn from_cwd(cwd: &str) -> (r: Result<Self, std::io::Error>)
        ensures
            r is Ok,
            r matches Ok(s) ==> s@ == session_dir_for(cwd@),
    {
        let fingerprint = lower_hex_string(md5_hash(cwd));
        let sessions_dir = path_join("/tmp/wikimind-sessions", fingerprint.as_str());
        Ok(SessionStore { sessions_dir })
    }

    /// The store's directory.
    pub fn sessions_dir(&self) -> (r: &str)
        ensures
            r@ == self@,
    {
        self.sessions_dir.as_str()
    }

    /// Loads a session: nothing is stored yet, so there is none.
    pub fn load(&self, _session_id: &str) -> (r: Option<Vec<u8>>)
        ensures
            r is None,
    {
        None
    }

    /// Saves a session: it always succeeds.
    pub fn save(&self, _session_id: &str, _data: &[u8]) -> (r: Result<(), std::io::Error>)
        ensures
            r is Ok,
    {
        Ok(())
    }
}

} // verus!
