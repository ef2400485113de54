use vstd::prelude::*;

pub mod base;
pub mod args;
pub mod bookmark;
pub mod filter;
pub mod gui;
pub mod icons;
pub mod bookmark_link;
pub mod cli;
pub mod id;
pub mod js_bookmark;
pub mod identifier;
pub mod keyed_map;
pub mod link;
pub mod message;
pub mod messages;
pub mod movie;
pub mod movie_details;
pub mod pattern;
pub mod save;
pub mod task;
pub mod text;
pub mod tmdb;
pub mod state;
pub mod update;
pub mod view;

verus! {

/// Adds two numbers.
pub fn add(left: usize, right: usize) -> (sum: usize)
    requires
        left + right <= usize::MAX,
    ensures
        sum == left + right,
{
    left + right
}

} // verus!
