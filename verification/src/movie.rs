//! Shows found in the movie database.
use vstd::prelude::*;

use crate::id::MovieId;
use crate::text::{
    chars_of, contains, contains_spec, extend_chars, first_words, join, joined, lowercase, string_of,
    to_lowercase, words,
};

verus! {

pub struct TmdbMovie {
    pub id: MovieId,
    pub genre_ids: Vec<usize>,
    pub overview: String,
    /// The bit pattern of the `f32` average vote.
    pub vote_average_bits: u32,
    pub original_name: String,
    pub name: String,
    /// The bit pattern of the `f32` popularity.
    pub popularity_bits: u32,
    pub poster_path: Option<String>,
}

/// A movie by its content.
pub struct TmdbMovieView {
    pub id: MovieId,
    pub genre_ids: Seq<usize>,
    pub overview: Seq<char>,
    pub vote_average_bits: u32,
    pub original_name: Seq<char>,
    pub name: Seq<char>,
    pub popularity_bits: u32,
    pub poster_path: Option<Seq<char>>,
}

impl View for TmdbMovie {
    type V = TmdbMovieView;

    open spec fn view(&self) -> TmdbMovieView {
        TmdbMovieView {
            id: self.id,
            genre_ids: self.genre_ids@,
            overview: self.overview@,
            vote_average_bits: self.vote_average_bits,
            original_name: self.original_name@,
            name: self.name@,
            popularity_bits: self.popularity_bits,
            poster_path: match self.poster_path {
                Some(p) => Some(p@),
                None => None,
            },
        }
    }
}

/// The lower-cased name or original name holds `filter`.
pub open spec fn movie_matches(m: TmdbMovie, filter: Seq<char>) -> bool {
    contains_spec(lowercase(m.name@), filter) || contains_spec(lowercase(m.original_name@), filter)
}

/// Whether `filter` stands in the lower-cased `s`.
fn lowercase_contains(s: &String, filter: &Vec<char>) -> (r: bool)
    ensures
        r == contains_spec(lowercase(s@), filter@),
{
    let lower = to_lowercase(s.as_str());
    let chars = chars_of(lower.as_str());
    contains(chars.as_slice(), filter.as_slice())
}

impl TmdbMovie {
    /// Whether the lower-cased name or original name holds `filter`.
    pub fn matches_filter(&self, filter: &str) -> (r: bool)
        ensures
            r == movie_matches(*self, filter@),
    {
        let filter_chars = chars_of(filter);
        lowercase_contains(&self.name, &filter_chars) || lowercase_contains(
            &self.original_name,
            &filter_chars,
        )
    }
}

/// How many words of the overview a search result shows.
pub open spec fn shown_words(overview: Seq<char>) -> nat {
    if words(overview).len() < 30 {
        words(overview).len()
    } else {
        30
    }
}

impl TmdbMovie {
    /// The beginning of the overview that a search result shows: its first
    /// 30 words with single spaces between them, then `...`.
    pub fn description(&self) -> (r: String)
        ensures
            r@ == joined(words(self.overview@).take(shown_words(self.overview@) as int), " "@)
                + "..."@,
    {
        let parts = first_words(self.overview.as_str(), 30);
        let text = join(parts.as_slice(), " ");
        assert(parts@.map_values(|p: String| p@) =~= words(self.overview@).take(
            shown_words(self.overview@) as int,
        ));
        let mut out = chars_of(text.as_str());
        extend_chars(&mut out, chars_of("...").as_slice());
        string_of(out.as_slice())
    }
}

impl Clone for TmdbMovie {
    fn clone(&self) -> (r: Self)
        ensures
            r@ == self@,
    {
        let mut genre_ids: Vec<usize> = Vec::new();
        let mut i: usize = 0;
        while i < self.genre_ids.len()
            invariant
                i <= self.genre_ids@.len(),
                genre_ids@ == self.genre_ids@.take(i as int),
            decreases self.genre_ids@.len() - i,
        {
            genre_ids.push(self.genre_ids[i]);
            assert(self.genre_ids@.take(i + 1) =~= self.genre_ids@.take(i as int).push(
                self.genre_ids@[i as int],
            ));
            i = i + 1;
        }
        assert(self.genre_ids@.take(i as int) =~= self.genre_ids@);
        assert(genre_ids@ =~= self.genre_ids@);
        TmdbMovie {
            id: self.id,
            genre_ids,
            overview: self.overview.clone(),
            vote_average_bits: self.vote_average_bits,
            original_name: self.original_name.clone(),
            name: self.name.clone(),
            popularity_bits: self.popularity_bits,
            poster_path: match &self.poster_path {
                Some(p) => Some(p.clone()),
                None => None,
            },
        }
    }
}

} // verus!
