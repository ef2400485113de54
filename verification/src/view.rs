//! What the front end shows: which bookmarks are listed, and the texts of
//! the cards and of the details view.
use vstd::prelude::*;

use crate::bookmark::Bookmark;
use crate::filter::Filter;
use crate::id::{bookmark_ids, first_id, EpisodeId, MovieId, MovieIndex};
use crate::movie::{movie_matches, TmdbMovie};
use crate::movie_details::{
    seasonal_info, seasonal_of, total_info, Episode, EpisodeDetails, MovieDetails,
};
use crate::state::{InputKind, State};
use crate::text::{
    chars_of, contains_spec, decimal_chars, decimal_string, extend_chars, lowercase, string_of,
};

verus! {

/// The text shown of an episode.
pub open spec fn episode_info(e: Episode) -> Seq<char> {
    match e {
        Episode::Seasonal(s) => seasonal_info(s),
        Episode::Total(t) => total_info(t),
    }
}

/// A bookmark is listed under the filter: the bookmarks list shows the
/// unfinished ones, the completed list the finished ones, each only when its
/// movie matches the search text.
pub open spec fn is_listed(b: Bookmark, filter: Filter, search: Seq<char>) -> bool {
    match filter {
        Filter::Bookmarks => !b.finished && movie_matches(b.movie, search),
        Filter::Completed => b.finished && movie_matches(b.movie, search),
        _ => false,
    }
}

/// The positions of the listed bookmarks among the first `n`, in order.
pub open spec fn listed(bs: Seq<Bookmark>, filter: Filter, search: Seq<char>, n: nat) -> Seq<usize>
    decreases n,
{
    if n == 0 {
        Seq::<usize>::empty()
    } else {
        let k = (n - 1) as nat;
        if is_listed(bs[k as int], filter, search) {
            listed(bs, filter, search, k).push(k as usize)
        } else {
            listed(bs, filter, search, k)
        }
    }
}

/// The line above the list: how many movies the search found, or how many
/// bookmarks are listed; nothing for an empty list or the details view.
pub open spec fn control_info_of(s: State) -> Option<Seq<char>> {
    match s.gui.filter {
        Filter::Search => if s.movies@.len() == 0 {
            None
        } else {
            Some(decimal_string(s.movies@.len()) + " results found for search"@)
        },
        Filter::Details(_) => None,
        _ => if s.bookmarks@.len() == 0 {
            None
        } else {
            Some(
                decimal_string(
                    listed(
                        s.bookmarks@,
                        s.gui.filter,
                        s.gui.input_caches.cache(InputKind::SearchField),
                        s.bookmarks@.len(),
                    ).len(),
                ) + " movies left"@,
            )
        },
    }
}

impl State {
    /// The positions of the bookmarks the list shows.
    pub fn listed_bookmarks(&self) -> (r: Vec<usize>)
        ensures
            r@ == listed(
                self.bookmarks@,
                self.gui.filter,
                self.gui.input_caches.cache(InputKind::SearchField),
                self.bookmarks@.len(),
            ),
    {
        let search = self.gui.input_caches.get(InputKind::SearchField).as_str();
        let mut out: Vec<usize> = Vec::new();
        let mut i: usize = 0;
        while i < self.bookmarks.len()
            invariant
                i <= self.bookmarks@.len(),
                search@ == self.gui.input_caches.cache(InputKind::SearchField),
                out@ == listed(self.bookmarks@, self.gui.filter, search@, i as nat),
            decreases self.bookmarks@.len() - i,
        {
            let b = &self.bookmarks[i];
            let shown = match self.gui.filter {
                Filter::Bookmarks => !b.finished && b.movie.matches_filter(search),
                Filter::Completed => b.finished && b.movie.matches_filter(search),
                _ => false,
            };
            if shown {
                out.push(i);
            }
            i = i + 1;
        }
        out
    }

    /// The line above the list.
    pub fn control_info(&self) -> (r: Option<String>)
        ensures
            match control_info_of(*self) {
                None => r is None,
                Some(t) => r matches Some(s) && s@ == t,
            },
    {
        match self.gui.filter {
            Filter::Search => {
                if self.movies.len() == 0 {
                    return None;
                }
                let mut out = decimal_chars(self.movies.len());
                extend_chars(&mut out, chars_of(" results found for search").as_slice());
                Some(string_of(out.as_slice()))
            },
            Filter::Details(_) => None,
            _ => {
                if self.bookmarks.len() == 0 {
                    return None;
                }
                let listed = self.listed_bookmarks();
                let mut out = decimal_chars(listed.len());
                extend_chars(&mut out, chars_of(" movies left").as_slice());
                Some(string_of(out.as_slice()))
            },
        }
    }

    /// The current episode of the details view of the movie: its loaded
    /// details, else its place in its season with nothing else known when the
    /// show's details are loaded.
    pub fn current_episode_details(&self, id: MovieId) -> (r: Option<EpisodeDetails>)
        requires
            first_id(bookmark_ids(self.bookmarks@), id) is Some,
        ensures
            ({
                let b = self.bookmarks@[first_id(bookmark_ids(self.bookmarks@), id)->0];
                let key = EpisodeId(id, b.current_episode);
                if self.episode_details@.contains_key(key) {
                    r == Some(self.episode_details@[key])
                } else if self.movie_details@.contains_key(id) {
                    r matches Some(d) && d.episode == seasonal_of(
                        self.movie_details@[id].seasons@,
                        b.current_episode,
                    ) && d.name@.len() == 0 && d.air_date is None && d.overview@.len() == 0
                } else {
                    r is None
                }
            }),
    {
        let bookmark = self.bookmarks.with_id(id).unwrap();
        let key = EpisodeId(id, bookmark.current_episode);
        match self.episode_details.get(&key) {
            Some(d) => Some(d.clone()),
            None => match self.movie_details.get(&id) {
                Some(details) => Some(
                    EpisodeDetails {
                        episode: details.as_seasonal_episode(&bookmark.current_episode),
                        name: String::new(),
                        air_date: None,
                        overview: String::new(),
                    },
                ),
                None => None,
            },
        }
    }
}

impl Bookmark {
    /// The progress line of the bookmark's card.
    pub fn progress_text(&self) -> (r: String)
        ensures
            r@ == "PROGRESS: "@ + episode_info(self.current_episode),
    {
        let mut out = chars_of("PROGRESS: ");
        extend_chars(&mut out, chars_of(self.current_episode.as_info_str().as_str()).as_slice());
        string_of(out.as_slice())
    }
}

/// The line of a card about the last published episode.
pub fn latest_text(details: Option<&MovieDetails>) -> (r: String)
    ensures
        r@ == match details {
            Some(d) => match d.last_episode_to_air {
                Some(l) => "LATEST: "@ + seasonal_info(l.episode),
                None => "no latest episode"@,
            },
            None => "details not loaded"@,
        },
{
    match details {
        Some(d) => match d.last_aired() {
            Some(last) => {
                let mut out = chars_of("LATEST: ");
                extend_chars(&mut out, chars_of(last.episode.as_info_str().as_str()).as_slice());
                string_of(out.as_slice())
            },
            None => "no latest episode".to_string(),
        },
        None => "details not loaded".to_string(),
    }
}

/// When an announced episode comes out.
pub fn release_text(upcoming: &EpisodeDetails) -> (r: String)
    ensures
        r@ == "Releases at "@ + match upcoming.air_date {
            Some(d) => d@,
            None => "---"@,
        },
{
    let mut out = chars_of("Releases at ");
    match &upcoming.air_date {
        Some(d) => extend_chars(&mut out, chars_of(d.as_str()).as_slice()),
        None => extend_chars(&mut out, chars_of("---").as_slice()),
    }
    string_of(out.as_slice())
}

/// The rows of cards: the listed positions three by three, then a last row
/// with what is left, filled up with empty places (a whole row of them when
/// nothing is left).
pub open spec fn card_rows_of(listed: Seq<usize>) -> (Seq<Seq<Option<usize>>>) {
    Seq::new(
        listed.len() / 3 + 1,
        |r: int|
            Seq::new(
                3,
                |c: int|
                    if 3 * r + c < listed.len() {
                        Some(listed[3 * r + c])
                    } else {
                        None
                    },
            ),
    )
}

/// The rows of cards of the listed positions (see `card_rows_of`).
pub fn card_rows(listed: &[usize]) -> (r: Vec<Vec<Option<usize>>>)
    ensures
        r@.len() == card_rows_of(listed@).len(),
        forall|k: int| 0 <= k < r@.len() ==> #[trigger] r@[k]@ == card_rows_of(listed@)[k],
{
    let mut rows: Vec<Vec<Option<usize>>> = Vec::new();
    let n = listed.len() / 3 + 1;
    let mut k: usize = 0;
    let mut base: usize = 0;
    while k < n
        invariant
            n == listed@.len() / 3 + 1,
            k <= n,
            k < n ==> base == 3 * k,
            k < n ==> base <= listed@.len(),
            rows@.len() == k,
            forall|j: int| 0 <= j < k ==> #[trigger] rows@[j]@ == card_rows_of(listed@)[j],
        decreases n - k,
    {
        let mut row: Vec<Option<usize>> = Vec::new();
        let mut c: usize = 0;
        while c < 3
            invariant
                n == listed@.len() / 3 + 1,
                k < n,
                base == 3 * k,
                base <= listed@.len(),
                c <= 3,
                row@.len() == c,
                forall|j: int|
                    0 <= j < c ==> #[trigger] row@[j] == (if 3 * k + j < listed@.len() {
                        Some(listed@[3 * k + j])
                    } else {
                        None
                    }),
            decreases 3 - c,
        {
            if c < listed.len() - base {
                row.push(Some(listed[base + c]));
            } else {
                row.push(None);
            }
            c = c + 1;
        }
        assert(row@ =~= card_rows_of(listed@)[k as int]);
        rows.push(row);
        if k + 1 < n {
            assert(3 * (k + 1) <= listed@.len()) by (nonlinear_arith)
                requires
                    k + 1 < listed@.len() / 3 + 1,
            ;
            assert(base + 3 == 3 * (k + 1));
            let len = listed.len();
            assert(base + 3 <= len);
            base = base + 3;
        }
        k = k + 1;
    }
    rows
}

/// The two lines of the current episode in the details view: its name and
/// its episode, or placeholders when nothing is known of it.
pub fn current_episode_lines(current: Option<&EpisodeDetails>) -> (r: (String, String))
    ensures
        match current {
            Some(d) => r.0@ == d.name@ && r.1@ == seasonal_info(d.episode),
            None => r.0@ == "TITLE"@ && r.1@ == "---"@,
        },
{
    match current {
        Some(d) => (d.name.clone(), d.episode.as_info_str()),
        None => ("TITLE".to_string(), "---".to_string()),
    }
}

/// Every position listed among the first `n` bookmarks lies below `n`.
proof fn lemma_listed_below(bs: Seq<Bookmark>, filter: Filter, search: Seq<char>, n: nat)
    requires
        n <= usize::MAX + 1,
    ensures
        forall|j: int| 0 <= j < listed(bs, filter, search, n).len() ==> #[trigger] listed(
            bs,
            filter,
            search,
            n,
        )[j] < n,
    decreases n,
{
    if n > 0 {
        let k = (n - 1) as nat;
        lemma_listed_below(bs, filter, search, k);
        let prev = listed(bs, filter, search, k);
        let l = listed(bs, filter, search, n);
        assert forall|j: int| 0 <= j < l.len() implies #[trigger] l[j] < n by {
            if j < prev.len() {
                assert(l[j] == prev[j]);
            } else {
                assert(l[j] == k as usize);
            }
        }
    }
}

/// A movie is found by the search text when its lower-cased name or its
/// lower-cased original name holds the text, and only then.
pub proof fn law_movie_found_by_either_name(m: TmdbMovie, search: Seq<char>)
    ensures
        contains_spec(lowercase(m.name@), search) ==> movie_matches(m, search),
        contains_spec(lowercase(m.original_name@), search) ==> movie_matches(m, search),
        !contains_spec(lowercase(m.name@), search) && !contains_spec(
            lowercase(m.original_name@),
            search,
        ) ==> !movie_matches(m, search),
{
}

/// The bookmarks list shows a bookmark exactly when it is unfinished and its
/// movie's lower-cased name or lower-cased original name holds the search
/// text.
pub proof fn law_bookmarks_listed_by_either_name(bs: Seq<Bookmark>, search: Seq<char>, n: nat, k: int)
    requires
        n <= bs.len(),
        bs.len() <= usize::MAX,
        0 <= k < n,
    ensures
        listed(bs, Filter::Bookmarks, search, n).contains(k as usize) <==> (!bs[k].finished && (
        contains_spec(lowercase(bs[k].movie.name@), search) || contains_spec(
            lowercase(bs[k].movie.original_name@),
            search,
        ))),
    decreases n,
{
    let f = Filter::Bookmarks;
    let m = (n - 1) as nat;
    let prev = listed(bs, f, search, m);
    lemma_listed_below(bs, f, search, m);
    if k == m {
        if listed(bs, f, search, n).contains(k as usize) && !is_listed(bs[k], f, search) {
            let j = choose|j: int| 0 <= j < prev.len() && prev[j] == k as usize;
            assert(prev[j] < m);
        }
        if is_listed(bs[k], f, search) {
            assert(listed(bs, f, search, n)[prev.len() as int] == k as usize);
        }
    } else {
        law_bookmarks_listed_by_either_name(bs, search, m, k);
        if is_listed(bs[m as int], f, search) {
            let l = listed(bs, f, search, n);
            assert(l == prev.push(m as usize));
            if prev.contains(k as usize) {
                let j = choose|j: int| 0 <= j < prev.len() && prev[j] == k as usize;
                assert(l[j] == k as usize);
            }
            if l.contains(k as usize) {
                let j = choose|j: int| 0 <= j < l.len() && l[j] == k as usize;
                if j < prev.len() {
                    assert(prev[j] == k as usize);
                }
            }
        }
    }
}

} // verus!
