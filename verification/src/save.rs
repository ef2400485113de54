//! What is kept between two runs, and how keeping it can fail.
use vstd::prelude::*;

use crate::bookmark::Bookmark;
use crate::id::MovieId;
use crate::keyed_map::KeyedMap;
use crate::link::Link;

verus! {

/// The bookmarks and the links that are written to disk.
pub struct SavedState {
    pub bookmarks: Vec<Bookmark>,
    pub links: KeyedMap<MovieId, Link>,
}

#[derive(Debug, Clone, PartialEq, Eq)]
pub enum LoadError {
    /// Happen if the state file exists but `File::open` results in a error
    OpenFile,
    /// Happen if the creation of the state file results in a error
    CreateFile,
    /// Happens if reading the file to a string results in an error
    ReadFile,
    /// Hapens if deserializing the state to the struct failed
    DeserializationError(String),
}

#[derive(Debug, Clone, Copy, PartialEq, Eq, Structural)]
pub enum SaveError {
    File,
    Write,
    Format,
}

/// Hands an error of saving or loading on unchanged, once it has been
/// reported.
pub fn trace_io_error<T>(t: T) -> (r: T)
    ensures
        r == t,
{
    t
}

} // verus!
