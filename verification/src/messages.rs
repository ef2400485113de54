//! Messages of the bookmark list editor.
use vstd::prelude::*;

verus! {

pub enum Message {
    IncrementEntry(usize),
    UrlChanged(String),
    NameChanged(String),
    AddEntryBuilder,
    RemoveEntry(usize),
    Fetch(usize),
    CopyLink(usize),
}

impl Message {
    /// Whether the message changes the stored bookmarks: incrementing, adding
    /// and removing an entry do; edits in progress, fetching and copying do
    /// not.
    pub fn needs_saving(&self) -> (r: bool)
        ensures
            r == (self is IncrementEntry || self is AddEntryBuilder || self is RemoveEntry),
    {
        match self {
            Message::IncrementEntry(_) => true,
            Message::UrlChanged(_) => false,
            Message::NameChanged(_) => false,
            Message::AddEntryBuilder => true,
            Message::RemoveEntry(_) => true,
            Message::Fetch(_) => false,
            Message::CopyLink(_) => false,
        }
    }
}

} // verus!
