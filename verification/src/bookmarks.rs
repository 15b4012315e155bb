//! Bookmarks: a persisted ordered list of session names selected by
//! 1-based position. Setting a bookmark appends the current session's
//! name only when it is not already bookmarked.

use vstd::prelude::*;
use vstd::string::*;

verus! {

/// The bookmark list, as read from the bookmarks file.
pub struct BookmarksImpl {
    pub bookmarks: Vec<String>,
}

impl BookmarksImpl {
    /// Build the component over the bookmark names on file.
    pub fn new(bookmarks: Vec<String>) -> (r: BookmarksImpl)
        ensures
            r.bookmarks == bookmarks,
    {
        BookmarksImpl { bookmarks }
    }

    /// Whether bookmarking the current session appends it: true exactly
    /// when the name is not yet on the list. The caller appends the name
    /// to the file and shows the confirmation only then.
    pub fn set(&self, current_session_name: &str) -> (r: bool)
        ensures
            r == !self.bookmarks.deep_view().contains(current_session_name@),
    {
        !crate::utils::vec_contains_name(&self.bookmarks, current_session_name)
    }

    /// The bookmark at a 1-based position, or nothing past the end.
    pub fn select(&self, index: usize) -> (r: Option<String>)
        requires
            index >= 1,
        ensures
            match r {
                Some(name) => index <= self.bookmarks.deep_view().len() && name@
                    == self.bookmarks.deep_view()[index - 1],
                None => index > self.bookmarks.deep_view().len(),
            },
    {
        if index <= self.bookmarks.len() {
            Some(self.bookmarks[index - 1].clone())
        } else {
            None
        }
    }
}

} // verus!
