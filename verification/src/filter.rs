//! Which movies the front end lists.
use vstd::prelude::*;

use crate::id::MovieId;

verus! {

#[derive(Clone, Copy, Debug, PartialEq, Eq, Structural)]
pub enum Filter {
    Bookmarks,
    Search,
    Completed,
    Details(MovieId),
}

impl Default for Filter {
    fn default() -> (r: Self)
        ensures
            r == Filter::Bookmarks,
    {
        Filter::Bookmarks
    }
}

impl Filter {
    /// The text shown when the list is empty.
    pub fn empty_message(&self) -> (r: &'static str)
        ensures
            r@ == match *self {
                Filter::Bookmarks => "You have no bookmarks yet"@,
                Filter::Search => "Type in a search  term"@,
                Filter::Completed => "You have no completed movies yet"@,
                Filter::Details(_) => "Selected movie has not details"@,
            },
    {
        match self {
            Filter::Bookmarks => "You have no bookmarks yet",
            Filter::Search => "Type in a search  term",
            Filter::Completed => "You have no completed movies yet",
            Filter::Details(_) => "Selected movie has not details",
        }
    }
}

} // verus!
