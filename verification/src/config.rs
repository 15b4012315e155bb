//! Configuration paths: the directory under the user's home that holds
//! the topology, recency and bookmark files, and the full path of each.
//! Resolving the home directory itself is the caller's concern.

use vstd::prelude::*;
use vstd::string::*;

verus! {

/// The configuration directory, relative to the home directory.
pub open spec fn spec_config_location(home: Seq<char>) -> Seq<char> {
    home + "/.config/stmux"@
}

/// The full path of a file inside the configuration directory.
pub open spec fn spec_filename_at_config(home: Seq<char>, filename: Seq<char>) -> Seq<char> {
    spec_config_location(home) + "/"@ + filename
}

/// Path resolution rooted at the user's home directory.
pub struct ConfigImpl {
    pub home: String,
}

impl ConfigImpl {
    /// Build the resolver over the home directory path.
    pub fn new(home: &str) -> (r: ConfigImpl)
        ensures
            r.home@ == home@,
    {
        ConfigImpl { home: home.to_owned() }
    }

    /// The configuration directory.
    pub fn config_location(&self) -> (r: String)
        ensures
            r@ == spec_config_location(self.home@),
    {
        let mut r = self.home.clone();
        r.append("/.config/stmux");
        r
    }

    /// The full path of a file inside the configuration directory.
    pub fn filename_at_config(&self, filename: &str) -> (r: String)
        ensures
            r@ == spec_filename_at_config(self.home@, filename@),
    {
        let mut r = self.config_location();
        r.append("/");
        r.append(filename);
        r
    }

    /// The topology file's path.
    pub fn sessions_filename(&self) -> (r: String)
        ensures
            r@ == spec_filename_at_config(self.home@, "sessions.stmux"@),
    {
        self.filename_at_config("sessions.stmux")
    }

    /// The recency file's path.
    pub fn recent_sessions_filename(&self) -> (r: String)
        ensures
            r@ == spec_filename_at_config(self.home@, "recent_sessions"@),
    {
        self.filename_at_config("recent_sessions")
    }

    /// The bookmarks file's path.
    pub fn bookmarks_filename(&self) -> (r: String)
        ensures
            r@ == spec_filename_at_config(self.home@, "bookmarks"@),
    {
        self.filename_at_config("bookmarks")
    }
}

} // verus!
