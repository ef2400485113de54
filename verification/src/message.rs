//! Messages the front end hands to the bookmarks.
use vstd::prelude::*;

use crate::filter::Filter;
use crate::id::MovieId;
use crate::movie_details::{EpisodeDetails, MovieDetails};
use crate::save::{LoadError, SaveError, SavedState};
use crate::state::InputKind;
use crate::tmdb::{RequestType, TmdbResponse};
use crate::update::WindowMode;

verus! {

pub enum BookmarkMessage {
    IncrE(Option<MovieDetails>),
    DecrE(Option<MovieDetails>),
    SetE(String, Option<MovieDetails>),
    SetS(String, Option<MovieDetails>),
    ToggleSync,
}

#[derive(Clone, Copy, Debug, PartialEq, Eq, Structural)]
pub enum ShiftPressed {
    True,
    False,
    Unknown,
}

impl Default for ShiftPressed {
    fn default() -> (r: Self)
        ensures
            r == ShiftPressed::False,
    {
        ShiftPressed::False
    }
}

pub enum LinkMessage {
    LinkToClipboard(Option<MovieDetails>, ShiftPressed),
}

/// A reply of the movie database, read as what was asked for.
pub enum Response {
    TvSearch(TmdbResponse),
    TvDetails(MovieDetails),
    EpisodeDetails(EpisodeDetails),
    /// The reply could not be read as what was asked for.
    Unreadable,
}

/// What happens in the front end.
pub enum Message {
    // Still loading
    Loaded(Result<SavedState, LoadError>),
    // Finished loading
    Saved(Result<(), SaveError>),
    InputChanged(InputKind, String),
    InputSubmit(InputKind),
    ExecuteRequest(RequestType),
    RequestResponse(Option<Response>, RequestType),
    /// The bytes of the poster image, if it could be loaded.
    RequestPoster(MovieId, Option<Vec<u8>>),
    FilterChanged(Filter),
    AddBookmark(MovieId),
    RemoveBookmark(MovieId),
    BookmarkMessage(MovieId, BookmarkMessage),
    LinkMessage(MovieId, LinkMessage),
    TabPressed,
    ShiftPressed(ShiftPressed),
    ToggleFullscreen(WindowMode),
    /// Start afresh after the saved state could not be read.
    CreateNew,
}

} // verus!
