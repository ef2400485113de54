//! A bookmark of a show from the movie database and how it follows the
//! episodes.
use vstd::prelude::*;

use crate::id::EpisodeId;
use crate::message::BookmarkMessage;
use crate::movie::TmdbMovie;
use crate::movie_details::{
    can_go_back, can_go_next, next_of, previous_of, season_numbered, seasonal_of, Episode,
    MovieDetails, same_details, Season, TotalEpisode,
};
use crate::text::{chars_of, parse_usize, parse_usize_spec};

verus! {

pub struct Bookmark {
    pub movie: TmdbMovie,
    pub current_episode: Episode,
    /// True if the current episode is already watched
    pub finished: bool,
    pub sync_mode: SyncMode,
}

/// Defines how the bookmark progress should be handled
#[derive(Clone, Copy, Debug, PartialEq, Eq, Structural)]
pub enum SyncMode {
    /// The progress is not synced with the Tmdb database, allowing the bookmark to have a episode that is not registered in the database.
    /// Also the season will never change unless explicitly incremented
    NoSync,
    /// The progress is synced with the Tmdb database.
    /// Therefore the bookmark can only have a `current_episode`, that is also found on tmdb
    /// The season will automatically changed as the last episode of a season is watched
    Tmdb,
}

/// The smaller of two numbers.
pub open spec fn min_usize(a: usize, b: usize) -> usize {
    if a < b {
        a
    } else {
        b
    }
}

/// `n` held inside a season of `count` episodes, whose first episode is 1.
pub open spec fn within_season(n: usize, count: usize) -> usize {
    min_usize(count, if n < 1 {
        1
    } else {
        n
    })
}

/// The episode a synced bookmark is set to when asked for episode `n` of
/// its season, `season` being that season: the last published one when `n`
/// lies beyond it in the same season, else `n` held between 1 and the
/// season's size, so that the bookmark only holds episodes that exist.
pub open spec fn capped_episode(cur: Episode, n: usize, season: Season, details: MovieDetails, season_number: usize) -> Episode {
    match details.last_episode_to_air {
        Some(l) => if l.episode.season_number == season_number && l.episode.episode_number < n {
            Episode::Seasonal(l.episode)
        } else {
            cur.with_episode_spec(within_season(n, season.episode_count))
        },
        None => cur.with_episode_spec(within_season(n, season.episode_count)),
    }
}

/// The current episode, the finished flag and the sync mode after `action`.
pub open spec fn applied(b: Bookmark, action: BookmarkMessage) -> (Episode, bool, SyncMode) {
    let cur = b.current_episode;
    match action {
        BookmarkMessage::IncrE(details) => match b.sync_mode {
            SyncMode::NoSync => (
                cur.with_episode_spec((cur.episode_spec() + 1) as usize),
                b.finished,
                b.sync_mode,
            ),
            SyncMode::Tmdb => match details {
                Some(d) => {
                    let next = next_of(d.seasons@, d.last_episode_to_air, cur);
                    (next, next == cur, b.sync_mode)
                },
                None => (cur, b.finished, b.sync_mode),
            },
        },
        BookmarkMessage::DecrE(details) => match b.sync_mode {
            SyncMode::NoSync => (
                cur.with_episode_spec(
                    if cur.episode_spec() > 0 {
                        (cur.episode_spec() - 1) as usize
                    } else {
                        0
                    },
                ),
                b.finished,
                b.sync_mode,
            ),
            SyncMode::Tmdb => match details {
                Some(d) => if b.finished {
                    (cur, false, b.sync_mode)
                } else {
                    (previous_of(d.seasons@, cur), false, b.sync_mode)
                },
                None => (cur, b.finished, b.sync_mode),
            },
        },
        BookmarkMessage::SetE(text, details) => match parse_usize_spec(text@) {
            None => (cur, b.finished, b.sync_mode),
            Some(n) => match b.sync_mode {
                SyncMode::NoSync => (cur.with_episode_spec(n), false, b.sync_mode),
                SyncMode::Tmdb => match details {
                    None => (cur, false, b.sync_mode),
                    Some(d) => {
                        let c = seasonal_of(d.seasons@, cur);
                        match season_numbered(d.seasons@, c.season_number as int) {
                            None => (cur, false, b.sync_mode),
                            Some(season) => (
                                capped_episode(cur, n, season, d, c.season_number),
                                false,
                                b.sync_mode,
                            ),
                        }
                    },
                },
            },
        },
        BookmarkMessage::SetS(text, details) => match parse_usize_spec(text@) {
            None => (cur, b.finished, b.sync_mode),
            Some(n) => match b.sync_mode {
                SyncMode::NoSync => (cur.with_season_spec(n), false, b.sync_mode),
                SyncMode::Tmdb => match details {
                    None => (cur, false, b.sync_mode),
                    Some(d) => match season_numbered(d.seasons@, n as int) {
                        None => (cur, false, b.sync_mode),
                        Some(season) => {
                            let moved = cur.with_season_spec(n);
                            (
                                capped_episode(moved, moved.episode_spec(), season, d, n),
                                false,
                                b.sync_mode,
                            )
                        },
                    },
                },
            },
        },
        BookmarkMessage::ToggleSync => (
            cur,
            b.finished,
            match b.sync_mode {
                SyncMode::NoSync => SyncMode::Tmdb,
                SyncMode::Tmdb => SyncMode::NoSync,
            },
        ),
    }
}

/// What `Bookmark::apply` needs so that no counter overflows and the
/// seasons it steps through exist.
pub open spec fn can_apply(b: Bookmark, action: BookmarkMessage) -> bool {
    match action {
        BookmarkMessage::IncrE(details) => match b.sync_mode {
            SyncMode::NoSync => b.current_episode.episode_spec() < usize::MAX,
            SyncMode::Tmdb => details matches Some(d) ==> can_go_next(
                d.seasons@,
                d.last_episode_to_air,
                b.current_episode,
            ),
        },
        BookmarkMessage::DecrE(details) => (b.sync_mode == SyncMode::Tmdb && !b.finished)
            ==> (details matches Some(d) ==> can_go_back(d.seasons@, b.current_episode)),
        _ => true,
    }
}

/// The first season of `details` numbered `number`.
fn season_with_number(details: &MovieDetails, number: usize) -> (r: Option<&Season>)
    ensures
        match season_numbered(details.seasons@, number as int) {
            Some(s) => r == Some(&s),
            None => r is None,
        },
{
    proof {
        crate::movie_details::lemma_season_index(details.seasons@, number as int);
    }
    let seasons = details.seasons();
    let mut i: usize = 0;
    while i < seasons.len()
        invariant
            i <= seasons@.len(),
            seasons@ == details.seasons@,
            forall|j: int| 0 <= j < i ==> #[trigger] seasons@[j].season_number != number,
            match crate::movie_details::season_index(details.seasons@, number as int) {
                Some(k) => 0 <= k < seasons@.len() && seasons@[k].season_number == number
                    && forall|j: int| 0 <= j < k ==> #[trigger] seasons@[j].season_number != number,
                None => forall|j: int| 0 <= j < seasons@.len() ==> #[trigger] seasons@[j].season_number
                    != number,
            },
        decreases seasons@.len() - i,
    {
        if seasons[i].number() == number {
            return Some(&seasons[i]);
        }
        i = i + 1;
    }
    None
}

/// The episode a synced bookmark is set to (see `capped_episode`).
fn cap_episode(cur: Episode, n: usize, season: &Season, details: &MovieDetails, season_number: usize) -> (r: Episode)
    ensures
        r == capped_episode(cur, n, *season, *details, season_number),
{
    let mut cur = cur;
    let wanted = if n < 1 { 1 } else { n };
    let episode = if season.episode_count < wanted { season.episode_count } else { wanted };
    match &details.last_episode_to_air {
        Some(last_published) => {
            if last_published.episode.season_number == season_number
                && last_published.episode.episode_number < n {
                Episode::Seasonal(last_published.episode)
            } else {
                cur.set_episode(episode);
                cur
            }
        },
        None => {
            cur.set_episode(episode);
            cur
        },
    }
}

impl Bookmark {
    /// A new bookmark of `movie`, at its first episode and synced with the
    /// database.
    pub fn from(movie: &TmdbMovie) -> (r: Bookmark)
        ensures
            r.movie@ == movie@,
            r.current_episode == Episode::Total(TotalEpisode { episode: 1 }),
            !r.finished,
            r.sync_mode == SyncMode::Tmdb,
    {
        Bookmark {
            movie: movie.clone(),
            current_episode: Episode::Total(TotalEpisode { episode: 1 }),
            finished: false,
            sync_mode: SyncMode::Tmdb,
        }
    }

    /// Applies a change of progress or of sync mode.
    pub fn apply(&mut self, action: BookmarkMessage)
        requires
            can_apply(*old(self), action),
        ensures
            final(self).movie == old(self).movie,
            (final(self).current_episode, final(self).finished, final(self).sync_mode)
                == applied(*old(self), action),
    {
        match action {
            BookmarkMessage::IncrE(details) => match self.sync_mode {
                SyncMode::NoSync => self.current_episode.next_episode(),
                SyncMode::Tmdb => {
                    if let Some(details) = details {
                        let next_episode = details.next_episode(self.current_episode);
                        self.finished = next_episode == self.current_episode;
                        self.current_episode = next_episode;
                    }
                },
            },
            BookmarkMessage::DecrE(details) => match self.sync_mode {
                SyncMode::NoSync => self.current_episode.previous_episode(),
                SyncMode::Tmdb => {
                    if let Some(details) = details {
                        if self.finished {
                            self.finished = false;
                        } else {
                            let previous_episode = details.previous_episode(self.current_episode);
                            self.current_episode = previous_episode;
                            self.finished = false;
                        }
                    }
                },
            },
            BookmarkMessage::SetE(episode, details) => {
                let text = chars_of(episode.as_str());
                let Some(episode) = parse_usize(text.as_slice()) else {
                    return;
                };
                self.finished = false;
                match self.sync_mode {
                    SyncMode::NoSync => self.current_episode.set_episode(episode),
                    SyncMode::Tmdb => {
                        let Some(details) = details else {
                            return;
                        };
                        let current_episode = details.as_seasonal_episode(&self.current_episode);
                        if let Some(season) = season_with_number(&details, current_episode.season_number) {
                            self.current_episode = cap_episode(
                                self.current_episode,
                                episode,
                                season,
                                &details,
                                current_episode.season_number,
                            );
                        }
                    },
                }
            },
            BookmarkMessage::SetS(new_season, details) => {
                let text = chars_of(new_season.as_str());
                let Some(new_season) = parse_usize(text.as_slice()) else {
                    return;
                };
                self.finished = false;
                match self.sync_mode {
                    SyncMode::NoSync => self.current_episode.set_season(new_season),
                    SyncMode::Tmdb => {
                        let Some(details) = details else {
                            return;
                        };
                        if let Some(season) = season_with_number(&details, new_season) {
                            self.current_episode.set_season(new_season);
                            let episode = self.current_episode.episode();
                            self.current_episode = cap_episode(
                                self.current_episode,
                                episode,
                                season,
                                &details,
                                new_season,
                            );
                        }
                    },
                }
            },
            BookmarkMessage::ToggleSync => {
                match self.sync_mode {
                    SyncMode::NoSync => self.sync_mode = SyncMode::Tmdb,
                    SyncMode::Tmdb => self.sync_mode = SyncMode::NoSync,
                }
            },
        }
    }

    /// The id of the bookmark's current episode.
    pub fn current_episode_id(&self) -> (r: EpisodeId)
        ensures
            r == EpisodeId(self.movie.id, self.current_episode),
    {
        EpisodeId(self.movie.id, self.current_episode)
    }
}

/// Toggling the sync mode twice gives the bookmark's progress and mode back.
pub proof fn law_toggle_sync_twice(b: Bookmark, once: Bookmark)
    requires
        once.movie == b.movie,
        (once.current_episode, once.finished, once.sync_mode) == applied(
            b,
            BookmarkMessage::ToggleSync,
        ),
    ensures
        applied(once, BookmarkMessage::ToggleSync) == (
            b.current_episode,
            b.finished,
            b.sync_mode,
        ),
{
}

/// A synced bookmark reports itself finished after an increment exactly
/// when there was no episode to move on to.
pub proof fn law_increment_synced(b: Bookmark, details: MovieDetails)
    requires
        b.sync_mode == SyncMode::Tmdb,
        can_apply(b, BookmarkMessage::IncrE(Some(details))),
    ensures
        applied(b, BookmarkMessage::IncrE(Some(details))).1 == (applied(
            b,
            BookmarkMessage::IncrE(Some(details)),
        ).0 == b.current_episode),
{
}

/// A synced bookmark with no episode to move on to only turns finished on an
/// increment, and the decrement after it only turns that back: the episode
/// stays where it was.
pub proof fn law_increment_then_decrement_at_the_end(b: Bookmark, details: MovieDetails, once: Bookmark)
    requires
        b.sync_mode == SyncMode::Tmdb,
        !b.finished,
        next_of(details.seasons@, details.last_episode_to_air, b.current_episode)
            == b.current_episode,
        once.movie == b.movie,
        (once.current_episode, once.finished, once.sync_mode) == applied(
            b,
            BookmarkMessage::IncrE(Some(details)),
        ),
    ensures
        once.finished,
        once.current_episode == b.current_episode,
        applied(once, BookmarkMessage::DecrE(Some(details))) == (
            b.current_episode,
            false,
            b.sync_mode,
        ),
{
}

/// Moving a synced bookmark to an existing season keeps it on an episode that
/// season has: numbered from 1 up to the season's size, in that season. The
/// last published episode, when it lies in that season, is taken to be one
/// of its episodes.
pub proof fn law_synced_season_change_stays_in_season(
    b: Bookmark,
    text: String,
    details: MovieDetails,
    n: usize,
    season: Season,
)
    requires
        b.sync_mode == SyncMode::Tmdb,
        b.current_episode is Seasonal,
        parse_usize_spec(text@) == Some(n),
        season_numbered(details.seasons@, n as int) == Some(season),
        season.episode_count >= 1,
        details.last_episode_to_air matches Some(l) ==> (l.episode.season_number == n ==> 1
            <= l.episode.episode_number <= season.episode_count),
    ensures
        ({
            let (e, finished, mode) = applied(b, BookmarkMessage::SetS(text, Some(details)));
            &&& e is Seasonal
            &&& e.season_spec() == n
            &&& 1 <= e.episode_spec() <= season.episode_count
            &&& !finished
            &&& mode == SyncMode::Tmdb
        }),
{
}

/// Setting the episode of a synced bookmark keeps it on an episode its
/// season has: numbered from 1 up to the season's size, in the same season.
/// The last published episode, when it lies in that season, is taken to be
/// one of its episodes.
pub proof fn law_synced_episode_change_stays_in_season(
    b: Bookmark,
    text: String,
    details: MovieDetails,
    n: usize,
    season: Season,
)
    requires
        b.sync_mode == SyncMode::Tmdb,
        b.current_episode is Seasonal,
        parse_usize_spec(text@) == Some(n),
        season_numbered(details.seasons@, b.current_episode.season_spec() as int) == Some(season),
        season.episode_count >= 1,
        details.last_episode_to_air matches Some(l) ==> (l.episode.season_number
            == b.current_episode.season_spec() ==> 1 <= l.episode.episode_number
            <= season.episode_count),
    ensures
        ({
            let (e, finished, mode) = applied(b, BookmarkMessage::SetE(text, Some(details)));
            &&& e is Seasonal
            &&& e.season_spec() == b.current_episode.season_spec()
            &&& 1 <= e.episode_spec() <= season.episode_count
            &&& !finished
            &&& mode == SyncMode::Tmdb
        }),
{
}

/// An unsynced bookmark counts freely: an increment adds one to the episode
/// number, a decrement takes one off (stopping at 0), both keep the season,
/// the kind of count, the finished mark and the mode, whatever details come
/// with them; one after the other they give the episode back.
pub proof fn law_unsynced_counts_by_one(b: Bookmark, d1: Option<MovieDetails>, d2: Option<MovieDetails>, once: Bookmark)
    requires
        b.sync_mode == SyncMode::NoSync,
        b.current_episode.episode_spec() < usize::MAX,
        once.movie == b.movie,
        (once.current_episode, once.finished, once.sync_mode) == applied(
            b,
            BookmarkMessage::IncrE(d1),
        ),
    ensures
        once.current_episode.episode_spec() == b.current_episode.episode_spec() + 1,
        once.current_episode.season_spec() == b.current_episode.season_spec(),
        (once.current_episode is Seasonal) == (b.current_episode is Seasonal),
        once.finished == b.finished,
        once.sync_mode == SyncMode::NoSync,
        applied(once, BookmarkMessage::DecrE(d2)) == (b.current_episode, b.finished, b.sync_mode),
        b.current_episode.episode_spec() == 0 ==> applied(b, BookmarkMessage::DecrE(d2)).0
            == b.current_episode,
        b.current_episode.episode_spec() > 0 ==> applied(b, BookmarkMessage::DecrE(d2)).0.episode_spec()
            == b.current_episode.episode_spec() - 1,
{
}

/// The details that a message hands to a bookmark, in place of others that
/// hold the same seasons and episodes.
pub open spec fn with_details(action: BookmarkMessage, d: Option<MovieDetails>) -> BookmarkMessage {
    match action {
        BookmarkMessage::IncrE(_) => BookmarkMessage::IncrE(d),
        BookmarkMessage::DecrE(_) => BookmarkMessage::DecrE(d),
        BookmarkMessage::SetE(t, _) => BookmarkMessage::SetE(t, d),
        BookmarkMessage::SetS(t, _) => BookmarkMessage::SetS(t, d),
        BookmarkMessage::ToggleSync => BookmarkMessage::ToggleSync,
    }
}

/// Two optional details that hold the same seasons and episodes.
pub open spec fn same_details_opt(a: Option<MovieDetails>, b: Option<MovieDetails>) -> bool {
    match (a, b) {
        (Some(x), Some(y)) => same_details(x, y),
        (None, None) => true,
        _ => false,
    }
}

/// A bookmark changes alike under details that hold the same seasons and
/// episodes.
pub proof fn lemma_applied_same_details(b: Bookmark, action: BookmarkMessage, d1: Option<MovieDetails>, d2: Option<MovieDetails>)
    requires
        same_details_opt(d1, d2),
    ensures
        applied(b, with_details(action, d1)) == applied(b, with_details(action, d2)),
        can_apply(b, with_details(action, d1)) == can_apply(b, with_details(action, d2)),
{
}

/// The details a message hands to the bookmark.
pub open spec fn details_of(action: BookmarkMessage) -> Option<MovieDetails> {
    match action {
        BookmarkMessage::IncrE(d) => d,
        BookmarkMessage::DecrE(d) => d,
        BookmarkMessage::SetE(_, d) => d,
        BookmarkMessage::SetS(_, d) => d,
        BookmarkMessage::ToggleSync => None,
    }
}

/// A copy of the details.
fn copy_details(d: &Option<MovieDetails>) -> (c: Option<MovieDetails>)
    ensures
        same_details_opt(c, *d),
{
    match d {
        Some(d) => Some(d.clone()),
        None => None,
    }
}

/// A copy of the message, with details that hold the same seasons and
/// episodes.
fn copy_action(action: &BookmarkMessage) -> (r: BookmarkMessage)
    ensures
        same_details_opt(details_of(r), details_of(*action)),
        r == with_details(*action, details_of(r)),
{
    match action {
        BookmarkMessage::IncrE(d) => BookmarkMessage::IncrE(copy_details(d)),
        BookmarkMessage::DecrE(d) => BookmarkMessage::DecrE(copy_details(d)),
        BookmarkMessage::SetE(t, d) => BookmarkMessage::SetE(t.clone(), copy_details(d)),
        BookmarkMessage::SetS(t, d) => BookmarkMessage::SetS(t.clone(), copy_details(d)),
        BookmarkMessage::ToggleSync => BookmarkMessage::ToggleSync,
    }
}

impl Bookmark {
    /// Whether `apply` can step the bookmark on to its next episode with the
    /// details.
    pub(crate) fn can_step_on(&self, details: &Option<MovieDetails>) -> (r: bool)
        ensures
            r == can_apply(*self, BookmarkMessage::IncrE(*details)),
    {
        match self.sync_mode {
            SyncMode::NoSync => self.current_episode.episode() < usize::MAX,
            SyncMode::Tmdb => match details {
                Some(d) => d.can_go_next(&self.current_episode),
                None => true,
            },
        }
    }

    /// The progress the bookmark would have after the message, leaving the
    /// bookmark as it is.
    pub(crate) fn preview(&self, action: &BookmarkMessage) -> (r: (Episode, bool, SyncMode))
        requires
            can_apply(*self, *action),
        ensures
            r == applied(*self, *action),
    {
        let copied = copy_action(action);
        proof {
            lemma_applied_same_details(*self, *action, details_of(copied), details_of(*action));
            assert(with_details(*action, details_of(*action)) == *action);
        }
        let mut probe = Bookmark {
            movie: self.movie.clone(),
            current_episode: self.current_episode,
            finished: self.finished,
            sync_mode: self.sync_mode,
        };
        probe.apply(copied);
        (probe.current_episode, probe.finished, probe.sync_mode)
    }

    /// Whether `apply` can take the message: no counter overflows and the
    /// seasons it steps through exist.
    pub(crate) fn can_apply(&self, action: &BookmarkMessage) -> (r: bool)
        ensures
            r == can_apply(*self, *action),
    {
        match action {
            BookmarkMessage::IncrE(details) => match self.sync_mode {
                SyncMode::NoSync => self.current_episode.episode() < usize::MAX,
                SyncMode::Tmdb => match details {
                    Some(d) => d.can_go_next(&self.current_episode),
                    None => true,
                },
            },
            BookmarkMessage::DecrE(details) => {
                if self.sync_mode == SyncMode::Tmdb && !self.finished {
                    match details {
                        Some(d) => d.can_go_back(&self.current_episode),
                        None => true,
                    }
                } else {
                    true
                }
            },
            _ => true,
        }
    }
}

} // verus!
