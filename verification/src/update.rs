//! How the front end reacts to what happens: each message changes the state
//! and asks for work to be done outside.
use vstd::prelude::*;

use crate::bookmark::{applied, can_apply, Bookmark, SyncMode};
use crate::filter::Filter;
use crate::id::{bookmark_ids, first_id, movie_ids, EpisodeId, MovieId, MovieIndex};
use crate::link::{clipboard_url, parse_spec, tokens, tokens_have_season, validity, Link, LinkToken};
use crate::message::{BookmarkMessage, LinkMessage, Message, Response, ShiftPressed};
use crate::movie::TmdbMovie;
use crate::movie_details::{
    can_go_next, can_renumber, episodes_before, needs_renumbering, next_of, renumbered,
    seasonal_of, total_of, Episode, EpisodeDetails, MovieDetails, Season, SeasonEpisode,
};
use crate::state::{detail_caches, GuiState, InputCaches, InputKind, Poster, State};
use crate::tmdb::{RequestType, TmdbResponse};
use crate::gui::App;

verus! {

/// How the window is shown.
#[derive(Clone, Copy, Debug, PartialEq, Eq, Structural)]
pub enum WindowMode {
    Windowed,
    Fullscreen,
    Hidden,
}

/// Work that the front end does outside the state, and the message it
/// answers with.
#[derive(Debug, PartialEq, Eq)]
pub enum Action {
    /// Send `sent` to the movie database and answer with
    /// `Message::RequestResponse` of the reply and `answer_to`.
    SendRequest { sent: RequestType, answer_to: RequestType },
    /// Load the poster of the movie, from disk or from `path` at the movie
    /// database, and answer with `Message::RequestPoster`.
    LoadPoster { id: MovieId, path: String },
    /// Write the bookmarks and links to disk and answer with `Message::Saved`.
    Save,
    /// Read the saved state from disk and answer with `Message::Loaded`.
    LoadState,
    /// Put the text on the clipboard.
    CopyToClipboard(String),
    /// Move the focus to the next widget.
    FocusNext,
    /// Move the focus to the previous widget.
    FocusPrevious,
    /// Move the focus to the search input.
    FocusInput,
    /// Show the window in the mode.
    ChangeWindowMode(WindowMode),
}

/// What a step asks to be done, and whether it just saved the state.
pub struct StateUpdate {
    command: Vec<Action>,
    save: bool,
}

impl StateUpdate {
    /// The work asked for, in order.
    pub closed spec fn commands(self) -> Seq<Action> {
        self.command@
    }

    /// False when the step just saved the state.
    pub closed spec fn saves(self) -> bool {
        self.save
    }

    pub fn new(command: Vec<Action>) -> (r: Self)
        ensures
            r.commands() == command@,
            r.saves(),
    {
        StateUpdate { command, save: true }
    }

    /// The same work, from a step that just saved the state.
    pub fn just_saved(self) -> (r: Self)
        ensures
            r.commands() == self.commands(),
            !r.saves(),
    {
        StateUpdate { command: self.command, save: false }
    }

    pub fn has_just_saved(&self) -> (r: bool)
        ensures
            r == !self.saves(),
    {
        !self.save
    }

    /// The work asked for.
    pub fn command(self) -> (r: Vec<Action>)
        ensures
            r@ == self.commands(),
    {
        self.command
    }

    /// The work of `self` followed by `command`.
    pub fn add_command(self, command: Vec<Action>) -> (r: Self)
        ensures
            r.commands() == self.commands() + command@,
            r.saves() == self.saves(),
    {
        let save = self.save;
        let mut old = self.command();
        let mut command = command;
        old.append(&mut command);
        StateUpdate { command: old, save }
    }
}

impl Default for StateUpdate {
    fn default() -> (r: Self)
        ensures
            r.commands() == Seq::<Action>::empty(),
            r.saves(),
    {
        StateUpdate { command: Vec::new(), save: true }
    }
}

/// An update that asks for nothing and did not save.
pub open spec fn plain(u: StateUpdate) -> bool {
    u.commands() == Seq::<Action>::empty() && u.saves()
}

/// The episode as the database numbers it (see
/// `MovieDetails::reformat_for_request`).
pub open spec fn reformatted(d: MovieDetails, e: Episode) -> Episode {
    if d.fixed {
        e.with_episode_spec(
            (e.episode_spec() + episodes_before(d.seasons@, e.season_spec() as int, true)) as usize,
        )
    } else {
        e
    }
}

/// Whether `reformatted` fits in a `usize`.
pub open spec fn reformat_fits(d: MovieDetails, e: Episode) -> bool {
    d.fixed ==> episodes_before(d.seasons@, e.season_spec() as int, true) + e.episode_spec()
        <= usize::MAX
}

/// The request that is sent for `request`: an episode of a show whose
/// details are loaded is numbered as the database numbers it.
pub open spec fn request_sent(details: Map<MovieId, MovieDetails>, request: RequestType) -> RequestType {
    match request {
        RequestType::EpisodeDetails { id } => if details.contains_key(id.0) {
            RequestType::EpisodeDetails { id: EpisodeId(id.0, reformatted(details[id.0], id.1)) }
        } else {
            request
        },
        _ => request,
    }
}

/// The work that executing `request` asks for: a poster is loaded, anything
/// else is sent to the movie database.
pub open spec fn request_actions(details: Map<MovieId, MovieDetails>, request: RequestType) -> Seq<Action> {
    match request {
        RequestType::Poster { id, path } => seq![Action::LoadPoster { id, path }],
        _ => seq![Action::SendRequest { sent: request_sent(details, request), answer_to: request }],
    }
}

/// The work asked for a movie found by a search: its details, and its poster
/// when it has one.
pub open spec fn movie_actions(m: TmdbMovie) -> Seq<Action> {
    seq![
        Action::SendRequest {
            sent: RequestType::TvDetails { id: m.id },
            answer_to: RequestType::TvDetails { id: m.id },
        },
    ] + match m.poster_path {
        Some(p) => seq![Action::LoadPoster { id: m.id, path: p }],
        None => Seq::<Action>::empty(),
    }
}

/// The work asked for the movies found by a search, in order.
pub open spec fn search_actions(ms: Seq<TmdbMovie>) -> Seq<Action>
    decreases ms.len(),
{
    if ms.len() == 0 {
        Seq::<Action>::empty()
    } else {
        search_actions(ms.drop_last()) + movie_actions(ms.last())
    }
}

/// The published or announced episode renumbered (see `renumbered`).
pub open spec fn fixed_episode(seasons: Seq<Season>, d: Option<EpisodeDetails>) -> Option<EpisodeDetails> {
    match d {
        None => None,
        Some(b) => Some(
            EpisodeDetails {
                episode: SeasonEpisode {
                    episode_number: match renumbered(seasons, b) {
                        Some(n) => n,
                        None => b.episode.episode_number,
                    },
                    season_number: b.episode.season_number,
                },
                name: b.name,
                air_date: b.air_date,
                overview: b.overview,
            },
        ),
    }
}

/// Whether `MovieDetails::fix_episode_formats` can renumber the details.
pub open spec fn can_fix(d: MovieDetails) -> bool {
    d.seasons@.len() >= 2 ==> can_renumber(d.seasons@, d.last_episode_to_air) && can_renumber(
        d.seasons@,
        d.next_episode_to_air,
    )
}

/// The details after `MovieDetails::fix_episode_formats`.
pub open spec fn formats_fixed(d: MovieDetails) -> MovieDetails {
    if d.seasons@.len() < 2 {
        d
    } else {
        MovieDetails {
            id: d.id,
            seasons: d.seasons,
            in_production: d.in_production,
            last_air_date: d.last_air_date,
            number_of_seasons: d.number_of_seasons,
            number_of_episodes: d.number_of_episodes,
            last_episode_to_air: fixed_episode(d.seasons@, d.last_episode_to_air),
            next_episode_to_air: fixed_episode(d.seasons@, d.next_episode_to_air),
            fixed: d.fixed || needs_renumbering(d.seasons@, d.last_episode_to_air)
                || needs_renumbering(d.seasons@, d.next_episode_to_air),
        }
    }
}

/// The bookmark with another progress.
pub open spec fn with_progress(b: Bookmark, e: Episode, finished: bool) -> Bookmark {
    Bookmark { movie: b.movie, current_episode: e, finished, sync_mode: b.sync_mode }
}

/// The progress of a bookmark once fresh details of its show came in: a
/// total count is placed in its season, and a finished bookmark moves on
/// when a new episode was published.
pub open spec fn refreshed(b: Bookmark, f: MovieDetails) -> (Episode, bool) {
    let cur = match b.current_episode {
        Episode::Total(_) => Episode::Seasonal(seasonal_of(f.seasons@, b.current_episode)),
        Episode::Seasonal(_) => b.current_episode,
    };
    if b.finished {
        let next = next_of(f.seasons@, f.last_episode_to_air, cur);
        if next != cur {
            (next, false)
        } else {
            (cur, true)
        }
    } else {
        (cur, b.finished)
    }
}

/// Nothing but the loaded details and the bookmarks changed.
pub open spec fn others_unchanged(a: State, b: State) -> bool {
    &&& b.gui == a.gui
    &&& b.movies@ == a.movies@
    &&& b.movie_posters@ == a.movie_posters@
    &&& b.episode_details@ == a.episode_details@
    &&& b.links@ == a.links@
}

/// The state after fresh details of a show came in: the details are stored,
/// renumbered, and the show's bookmark is refreshed.
pub open spec fn tv_details_step(a: State, d: MovieDetails, b: State) -> bool {
    let f = formats_fixed(d);
    &&& others_unchanged(a, b)
    &&& b.movie_details@ == a.movie_details@.insert(f.id, f)
    &&& match first_id(bookmark_ids(a.bookmarks@), f.id) {
        None => b.bookmarks@ == a.bookmarks@,
        Some(i) => {
            let (e, finished) = refreshed(a.bookmarks@[i], f);
            b.bookmarks@ == a.bookmarks@.update(i, with_progress(a.bookmarks@[i], e, finished))
        },
    }
}

/// What storing fresh details needs: they can be renumbered, and a finished
/// bookmark of the show can step on to the next episode without overflow.
pub open spec fn tv_details_defined(a: State, d: MovieDetails) -> bool {
    &&& can_fix(d)
    &&& match first_id(bookmark_ids(a.bookmarks@), d.id) {
        Some(i) => {
            let b = a.bookmarks@[i];
            let f = formats_fixed(d);
            b.finished ==> can_go_next(
                f.seasons@,
                f.last_episode_to_air,
                Episode::Seasonal(seasonal_of(d.seasons@, b.current_episode)),
            )
        },
        None => true,
    }
}

/// What executing the request needs: an episode of a show whose details are
/// loaded can be numbered as the database numbers it without overflow.
pub open spec fn request_defined(a: State, request: RequestType) -> bool {
    match request {
        RequestType::EpisodeDetails { id } => a.movie_details@.contains_key(id.0) ==> reformat_fits(
            a.movie_details@[id.0],
            id.1,
        ),
        _ => true,
    }
}

impl State {
    /// The update that executing `request` gives.
    fn execute_request(&self, request: RequestType) -> (r: StateUpdate)
        requires
            request_defined(*self, request),
        ensures
            r.commands() == request_actions(self.movie_details@, request),
            r.saves(),
    {
        let action = match request {
            RequestType::Poster { id, path } => Action::LoadPoster { id, path },
            RequestType::EpisodeDetails { id } => {
                let sent = match self.movie_details.get(&id.0) {
                    Some(d) => RequestType::EpisodeDetails {
                        id: EpisodeId(id.0, d.reformat_for_request(id.1)),
                    },
                    None => RequestType::EpisodeDetails { id },
                };
                Action::SendRequest { sent, answer_to: RequestType::EpisodeDetails { id } }
            },
            RequestType::TvSearch { query } => Action::SendRequest {
                sent: RequestType::TvSearch { query: query.clone() },
                answer_to: RequestType::TvSearch { query },
            },
            RequestType::TvDetails { id } => Action::SendRequest {
                sent: RequestType::TvDetails { id },
                answer_to: RequestType::TvDetails { id },
            },
        };
        StateUpdate::new(vec![action])
    }

    /// Takes the movies found by a search and asks for their details and
    /// posters.
    pub fn response_tv_search(&mut self, response: TmdbResponse) -> (r: Vec<Action>)
        ensures
            final(self).movies@ == response.results@,
            final(self).gui == old(self).gui,
            final(self).movie_details@ == old(self).movie_details@,
            final(self).movie_posters@ == old(self).movie_posters@,
            final(self).episode_details@ == old(self).episode_details@,
            final(self).links@ == old(self).links@,
            final(self).bookmarks@ == old(self).bookmarks@,
            r@ == search_actions(response.results@),
    {
        self.movies = response.results;
        let mut cmds: Vec<Action> = Vec::new();
        let mut i: usize = 0;
        while i < self.movies.len()
            invariant
                i <= self.movies@.len(),
                cmds@ == search_actions(self.movies@.take(i as int)),
            decreases self.movies@.len() - i,
        {
            let movie = &self.movies[i];
            let id = movie.id;
            let ghost before = cmds@;
            cmds.push(
                Action::SendRequest {
                    sent: RequestType::TvDetails { id },
                    answer_to: RequestType::TvDetails { id },
                },
            );
            match &movie.poster_path {
                Some(path) => cmds.push(Action::LoadPoster { id, path: path.clone() }),
                None => {},
            }
            assert(self.movies@.take(i + 1).drop_last() =~= self.movies@.take(i as int));
            assert(cmds@ =~= before + movie_actions(self.movies@[i as int]));
            i = i + 1;
        }
        assert(self.movies@.take(i as int) =~= self.movies@);
        cmds
    }

    /// Stores fresh details of a show and refreshes its bookmark.
    pub fn response_tv_details(&mut self, details: MovieDetails)
        requires
            tv_details_defined(*old(self), details),
        ensures
            tv_details_step(*old(self), details, *final(self)),
    {
        let ghost d0 = details;
        let mut details = details;
        details.fix_episode_formats();
        proof {
            if d0.seasons@.len() >= 2 {
                assert(details.last_episode_to_air == fixed_episode(d0.seasons@, d0.last_episode_to_air));
                assert(details.next_episode_to_air == fixed_episode(d0.seasons@, d0.next_episode_to_air));
            }
            assert(details == formats_fixed(d0));
        }
        match self.bookmarks.with_id_mut(details.id) {
            Some(bookmark) => {
                if let Episode::Total(_) = bookmark.current_episode {
                    bookmark.current_episode = Episode::Seasonal(
                        details.as_seasonal_episode(&bookmark.current_episode),
                    );
                }
                if bookmark.finished {
                    let next = details.next_episode(bookmark.current_episode);
                    if next != bookmark.current_episode {
                        bookmark.finished = false;
                        bookmark.current_episode = next;
                    }
                }
            },
            None => {},
        }
        let id = details.id;
        self.movie_details.insert(id, details);
    }

    /// Stores the details of an episode.
    pub fn response_episode_details(&mut self, details: EpisodeDetails, id: EpisodeId)
        ensures
            final(self).episode_details@ == old(self).episode_details@.insert(id, details),
            final(self).gui == old(self).gui,
            final(self).movies@ == old(self).movies@,
            final(self).movie_details@ == old(self).movie_details@,
            final(self).movie_posters@ == old(self).movie_posters@,
            final(self).links@ == old(self).links@,
            final(self).bookmarks@ == old(self).bookmarks@,
    {
        self.episode_details.insert(id, details);
    }
}

/// The loaded data and the bookmarks are as they were.
pub open spec fn data_same(a: State, b: State) -> bool {
    &&& b.movies@ == a.movies@
    &&& b.movie_details@ == a.movie_details@
    &&& b.movie_posters@ == a.movie_posters@
    &&& b.episode_details@ == a.episode_details@
    &&& b.links@ == a.links@
    &&& b.bookmarks@ == a.bookmarks@
}

/// Nothing changed.
pub open spec fn unchanged(a: State, b: State) -> bool {
    b.gui == a.gui && data_same(a, b)
}

/// The flags of the front end are as they were.
pub open spec fn flags_same(a: GuiState, b: GuiState) -> bool {
    b.dirty == a.dirty && b.saving == a.saving && b.shift_pressed == a.shift_pressed
}

/// The input `kind` holds `text`, the other inputs are as they were.
pub open spec fn cache_set(a: InputCaches, b: InputCaches, kind: InputKind, text: Seq<char>) -> bool {
    &&& b.cache(kind) == text
    &&& forall|other: InputKind| other != kind ==> #[trigger] b.cached(other) == a.cached(other)
}

/// The details of the movie, if they are loaded.
pub open spec fn stored_details(a: State, id: MovieId) -> Option<MovieDetails> {
    if a.movie_details@.contains_key(id) {
        Some(a.movie_details@[id])
    } else {
        None
    }
}

/// The bookmark after the message.
pub open spec fn bookmark_after(b: Bookmark, action: BookmarkMessage) -> Bookmark {
    let (e, finished, mode) = applied(b, action);
    Bookmark { movie: b.movie, current_episode: e, finished, sync_mode: mode }
}

/// The work asked for once a bookmark moved: the details of its current
/// episode, unless they are loaded.
pub open spec fn episode_actions(a: State, b: Bookmark) -> Seq<Action> {
    let cur = EpisodeId(b.movie.id, b.current_episode);
    if a.episode_details@.contains_key(cur) {
        Seq::<Action>::empty()
    } else {
        request_actions(a.movie_details@, RequestType::EpisodeDetails { id: cur })
    }
}

/// A message to the bookmark of the movie `id`: it is applied to the first
/// such bookmark, and the details of its new episode are asked for.
pub open spec fn bookmark_step(a: State, id: MovieId, action: BookmarkMessage, b: State, r: StateUpdate) -> bool {
    &&& b.gui == a.gui
    &&& b.movies@ == a.movies@
    &&& b.movie_details@ == a.movie_details@
    &&& b.movie_posters@ == a.movie_posters@
    &&& b.episode_details@ == a.episode_details@
    &&& b.links@ == a.links@
    &&& match first_id(bookmark_ids(a.bookmarks@), id) {
        None => b.bookmarks@ == a.bookmarks@ && plain(r),
        Some(i) => {
            let nb = bookmark_after(a.bookmarks@[i], action);
            &&& b.bookmarks@ == a.bookmarks@.update(i, nb)
            &&& r.saves()
            &&& r.commands() == episode_actions(a, nb)
        },
    }
}

/// A change of the filter: the details view of a bookmarked movie fills its
/// inputs and asks for the details of the current episode.
pub open spec fn filter_step(a: State, f: Filter, b: State, r: StateUpdate) -> bool {
    &&& b.gui.filter == f
    &&& flags_same(a.gui, b.gui)
    &&& data_same(a, b)
    &&& match f {
        Filter::Details(id) => match first_id(bookmark_ids(a.bookmarks@), id) {
            None => b.gui.input_caches == a.gui.input_caches && plain(r),
            Some(i) => {
                &&& detail_caches(
                    a.gui.input_caches,
                    b.gui.input_caches,
                    a.bookmarks@[i],
                    a.links@,
                    id,
                )
                &&& r.saves()
                &&& r.commands() == episode_actions(a, a.bookmarks@[i])
            },
        },
        _ => b.gui.input_caches == a.gui.input_caches && plain(r),
    }
}

/// A new bookmark of the movie, at its first episode and synced.
pub open spec fn fresh_bookmark(nb: Bookmark, m: TmdbMovie) -> bool {
    &&& nb.movie@ == m@
    &&& nb.current_episode == Episode::Total(crate::movie_details::TotalEpisode { episode: 1 })
    &&& !nb.finished
    &&& nb.sync_mode == SyncMode::Tmdb
}

/// Adding a bookmark of a movie of the search: nothing happens when the movie
/// is bookmarked already or is not among the movies found.
pub open spec fn add_step(a: State, id: MovieId, b: State, r: StateUpdate) -> bool {
    &&& plain(r)
    &&& b.gui == a.gui
    &&& b.movies@ == a.movies@
    &&& b.movie_details@ == a.movie_details@
    &&& b.movie_posters@ == a.movie_posters@
    &&& b.episode_details@ == a.episode_details@
    &&& b.links@ == a.links@
    &&& if first_id(bookmark_ids(a.bookmarks@), id) is Some {
        b.bookmarks@ == a.bookmarks@
    } else {
        match first_id(movie_ids(a.movies@), id) {
            None => b.bookmarks@ == a.bookmarks@,
            Some(k) => b.bookmarks@.len() == a.bookmarks@.len() + 1 && b.bookmarks@.drop_last()
                == a.bookmarks@ && fresh_bookmark(b.bookmarks@.last(), a.movies@[k]),
        }
    }
}

/// Removing the first bookmark of the movie; the details view of the movie
/// turns back to the bookmarks.
pub open spec fn remove_step(a: State, id: MovieId, b: State, r: StateUpdate) -> bool {
    &&& plain(r)
    &&& b.gui.input_caches == a.gui.input_caches
    &&& flags_same(a.gui, b.gui)
    &&& b.movies@ == a.movies@
    &&& b.movie_details@ == a.movie_details@
    &&& b.movie_posters@ == a.movie_posters@
    &&& b.episode_details@ == a.episode_details@
    &&& b.links@ == a.links@
    &&& match first_id(bookmark_ids(a.bookmarks@), id) {
        None => b.bookmarks@ == a.bookmarks@ && b.gui.filter == a.gui.filter,
        Some(i) => {
            &&& b.bookmarks@ == a.bookmarks@.remove(i)
            &&& b.gui.filter == if a.gui.filter == Filter::Details(id) {
                Filter::Bookmarks
            } else {
                a.gui.filter
            }
        },
    }
}

/// What a link of the tokens `ts` needs to make the url and to step the
/// bookmark on: the total count it writes for a seasonal episode fits.
pub open spec fn clip_ok(ts: Seq<LinkToken>, bk: Bookmark, details: Option<MovieDetails>, shift: ShiftPressed) -> bool {
    &&& (details matches Some(d) ==> (!tokens_have_season(ts) && bk.current_episode is Seasonal
        ==> total_of(d.seasons@, bk.current_episode) <= usize::MAX))
    &&& (shift != ShiftPressed::True ==> can_apply(bk, BookmarkMessage::IncrE(details)))
}

/// Copying the link of the movie's current episode: the url goes to the
/// clipboard and, unless shift is held, the bookmark steps on.
pub open spec fn link_step(a: State, id: MovieId, details: Option<MovieDetails>, shift: ShiftPressed, b: State, r: StateUpdate) -> bool {
    &&& b.gui == a.gui
    &&& b.movies@ == a.movies@
    &&& b.movie_details@ == a.movie_details@
    &&& b.movie_posters@ == a.movie_posters@
    &&& b.episode_details@ == a.episode_details@
    &&& b.links@ == a.links@
    &&& match first_id(bookmark_ids(a.bookmarks@), id) {
        None => b.bookmarks@ == a.bookmarks@ && plain(r),
        Some(i) => {
            let bk = a.bookmarks@[i];
            if !a.links@.contains_key(id) {
                b.bookmarks@ == a.bookmarks@ && plain(r)
            } else {
                match clipboard_url(tokens(a.links@[id].link_parts@), bk.current_episode, details) {
                    None => b.bookmarks@ == a.bookmarks@ && r.saves() && r.commands().len() == 0,
                    Some(u) => {
                        &&& r.saves()
                        &&& r.commands().len() == 1
                        &&& r.commands()[0] matches Action::CopyToClipboard(s) && s@ == u
                        &&& b.bookmarks@ == a.bookmarks@.update(
                            i,
                            if shift == ShiftPressed::True {
                                bk
                            } else {
                                bookmark_after(bk, BookmarkMessage::IncrE(details))
                            },
                        )
                    },
                }
            }
        },
    }
}

/// Submitting an input: a search is sent, an episode or season typed in the
/// details view moves the bookmark, and a link typed there is stored when it
/// is valid.
pub open spec fn submit_step(a: State, kind: InputKind, b: State, r: StateUpdate) -> bool {
    let c = a.gui.input_caches;
    match kind {
        InputKind::SearchField => if a.gui.filter == Filter::Search {
            &&& data_same(a, b)
            &&& b.gui.filter == a.gui.filter
            &&& flags_same(a.gui, b.gui)
            &&& cache_set(c, b.gui.input_caches, kind, Seq::<char>::empty())
            &&& r.saves()
            &&& r.commands() == request_actions(
                a.movie_details@,
                RequestType::TvSearch { query: c.cached(kind) },
            )
        } else {
            unchanged(a, b) && plain(r)
        },
        InputKind::EpisodeInput => match a.gui.filter {
            Filter::Details(id) => bookmark_step(
                a,
                id,
                BookmarkMessage::SetE(c.cached(kind), stored_details(a, id)),
                b,
                r,
            ),
            _ => unchanged(a, b) && plain(r),
        },
        InputKind::SeasonInput => match a.gui.filter {
            Filter::Details(id) => bookmark_step(
                a,
                id,
                BookmarkMessage::SetS(c.cached(kind), stored_details(a, id)),
                b,
                r,
            ),
            _ => unchanged(a, b) && plain(r),
        },
        InputKind::LinkInput => match a.gui.filter {
            Filter::Details(id) => {
                let text = c.cache(kind);
                &&& plain(r)
                &&& b.gui == a.gui
                &&& b.movies@ == a.movies@
                &&& b.movie_details@ == a.movie_details@
                &&& b.movie_posters@ == a.movie_posters@
                &&& b.episode_details@ == a.episode_details@
                &&& b.bookmarks@ == a.bookmarks@
                &&& match validity(parse_spec(text)) {
                    Ok(()) => {
                        &&& b.links@.dom() == a.links@.dom().insert(id)
                        &&& forall|k: MovieId| k != id && #[trigger] a.links@.contains_key(k)
                            ==> b.links@[k] == a.links@[k]
                        &&& tokens(b.links@[id].link_parts@) == parse_spec(text)
                        &&& b.links@[id].string_link@ == text
                    },
                    Err(_) => b.links@ == a.links@,
                }
            },
            _ => unchanged(a, b) && plain(r),
        },
    }
}

/// A reply of the movie database for `query`: the movies found are shown and
/// their details and posters asked for, fresh details and episode details are
/// stored. A missing reply changes nothing; an unreadable one changes nothing
/// either.
pub open spec fn response_step(a: State, resp: Option<Response>, query: RequestType, b: State, r: StateUpdate) -> bool {
    match resp {
        None => unchanged(a, b) && plain(r),
        Some(resp) => r.saves() && match query {
            RequestType::TvSearch { .. } => match resp {
                Response::TvSearch(t) => {
                    &&& b.movies@ == t.results@
                    &&& b.gui == a.gui
                    &&& b.movie_details@ == a.movie_details@
                    &&& b.movie_posters@ == a.movie_posters@
                    &&& b.episode_details@ == a.episode_details@
                    &&& b.links@ == a.links@
                    &&& b.bookmarks@ == a.bookmarks@
                    &&& r.commands() == search_actions(t.results@)
                },
                _ => unchanged(a, b) && r.commands().len() == 0,
            },
            RequestType::TvDetails { .. } => match resp {
                Response::TvDetails(d) => tv_details_step(a, d, b) && r.commands().len() == 0,
                _ => unchanged(a, b) && r.commands().len() == 0,
            },
            RequestType::EpisodeDetails { id } => match resp {
                Response::EpisodeDetails(e) => {
                    &&& b.episode_details@ == a.episode_details@.insert(id, e)
                    &&& b.gui == a.gui
                    &&& b.movies@ == a.movies@
                    &&& b.movie_details@ == a.movie_details@
                    &&& b.movie_posters@ == a.movie_posters@
                    &&& b.links@ == a.links@
                    &&& b.bookmarks@ == a.bookmarks@
                    &&& r.commands().len() == 0
                },
                _ => unchanged(a, b) && r.commands().len() == 0,
            },
            RequestType::Poster { .. } => unchanged(a, b) && r.commands().len() == 0,
        },
    }
}

/// The state after the message, and the work it asks for.
pub open spec fn updated(a: State, m: Message, b: State, r: StateUpdate) -> bool {
    match m {
        Message::Loaded(_) => unchanged(a, b) && plain(r),
        Message::CreateNew => unchanged(a, b) && plain(r),
        Message::Saved(_) => {
            &&& !b.gui.saving
            &&& b.gui.dirty == a.gui.dirty
            &&& b.gui.shift_pressed == a.gui.shift_pressed
            &&& b.gui.filter == a.gui.filter
            &&& b.gui.input_caches == a.gui.input_caches
            &&& data_same(a, b)
            &&& r.commands().len() == 0
            &&& !r.saves()
        },
        Message::InputChanged(kind, text) => {
            &&& cache_set(a.gui.input_caches, b.gui.input_caches, kind, text@)
            &&& b.gui.filter == a.gui.filter
            &&& flags_same(a.gui, b.gui)
            &&& data_same(a, b)
            &&& plain(r)
        },
        Message::InputSubmit(kind) => submit_step(a, kind, b, r),
        Message::ExecuteRequest(request) => unchanged(a, b) && r.saves() && r.commands()
            == request_actions(a.movie_details@, request),
        Message::RequestResponse(resp, query) => response_step(a, resp, query, b, r),
        Message::RequestPoster(id, handle) => match handle {
            None => unchanged(a, b) && plain(r),
            Some(bytes) => {
                &&& b.movie_posters@ == a.movie_posters@.insert(id, Poster::Image(bytes))
                &&& b.gui == a.gui
                &&& b.movies@ == a.movies@
                &&& b.movie_details@ == a.movie_details@
                &&& b.episode_details@ == a.episode_details@
                &&& b.links@ == a.links@
                &&& b.bookmarks@ == a.bookmarks@
                &&& plain(r)
            },
        },
        Message::FilterChanged(f) => filter_step(a, f, b, r),
        Message::AddBookmark(id) => add_step(a, id, b, r),
        Message::RemoveBookmark(id) => remove_step(a, id, b, r),
        Message::BookmarkMessage(id, action) => bookmark_step(a, id, action, b, r),
        Message::LinkMessage(id, LinkMessage::LinkToClipboard(details, shift)) => link_step(
            a,
            id,
            details,
            shift,
            b,
            r,
        ),
        Message::TabPressed => unchanged(a, b) && r.saves() && r.commands() == seq![
            if a.gui.shift_pressed == ShiftPressed::True {
                Action::FocusPrevious
            } else {
                Action::FocusNext
            },
        ],
        Message::ShiftPressed(shift) => {
            &&& b.gui.shift_pressed == shift
            &&& b.gui.input_caches == a.gui.input_caches
            &&& b.gui.filter == a.gui.filter
            &&& b.gui.dirty == a.gui.dirty
            &&& b.gui.saving == a.gui.saving
            &&& data_same(a, b)
            &&& plain(r)
        },
        Message::ToggleFullscreen(mode) => unchanged(a, b) && r.saves() && r.commands() == seq![
            Action::ChangeWindowMode(mode),
        ],
    }
}

/// What asking for the details of the bookmark's current episode needs.
pub open spec fn episode_request_defined(a: State, b: Bookmark) -> bool {
    let cur = EpisodeId(b.movie.id, b.current_episode);
    !a.episode_details@.contains_key(cur) ==> request_defined(
        a,
        RequestType::EpisodeDetails { id: cur },
    )
}

/// What a message to the bookmark of the movie needs: the bookmark can take
/// it, and the details of its new episode can be asked for.
pub open spec fn bookmark_message_defined(a: State, id: MovieId, action: BookmarkMessage) -> bool {
    match first_id(bookmark_ids(a.bookmarks@), id) {
        Some(i) => can_apply(a.bookmarks@[i], action) && episode_request_defined(
            a,
            bookmark_after(a.bookmarks@[i], action),
        ),
        None => true,
    }
}

/// What showing the filter needs: the details of the current episode of the
/// shown bookmark can be asked for.
pub open spec fn filter_defined(a: State, f: Filter) -> bool {
    match f {
        Filter::Details(id) => match first_id(bookmark_ids(a.bookmarks@), id) {
            Some(i) => episode_request_defined(a, a.bookmarks@[i]),
            None => true,
        },
        _ => true,
    }
}

/// The message that submitting the episode or season input hands to the
/// bookmark of the details view.
pub open spec fn submitted_action(a: State, kind: InputKind, id: MovieId) -> BookmarkMessage {
    if kind == InputKind::EpisodeInput {
        BookmarkMessage::SetE(a.gui.input_caches.cached(kind), stored_details(a, id))
    } else {
        BookmarkMessage::SetS(a.gui.input_caches.cached(kind), stored_details(a, id))
    }
}

/// The messages that the state can take: those on which the front end does
/// not stop with a counter that overflows, a season that is missing, or an
/// episode number that runs below zero.
pub open spec fn update_defined(a: State, m: Message) -> bool {
    match m {
        Message::InputSubmit(kind) => match a.gui.filter {
            Filter::Details(id) => (kind == InputKind::EpisodeInput || kind
                == InputKind::SeasonInput) ==> bookmark_message_defined(
                a,
                id,
                submitted_action(a, kind, id),
            ),
            _ => true,
        },
        Message::ExecuteRequest(request) => request_defined(a, request),
        Message::RequestResponse(resp, query) => match (resp, query) {
            (Some(Response::TvDetails(d)), RequestType::TvDetails { .. }) => tv_details_defined(a, d),
            _ => true,
        },
        Message::FilterChanged(f) => filter_defined(a, f),
        Message::BookmarkMessage(id, action) => bookmark_message_defined(a, id, action),
        Message::LinkMessage(id, LinkMessage::LinkToClipboard(details, shift)) => match first_id(
            bookmark_ids(a.bookmarks@),
            id,
        ) {
            Some(i) => a.links@.contains_key(id) ==> clip_ok(
                tokens(a.links@[id].link_parts@),
                a.bookmarks@[i],
                details,
                shift,
            ),
            None => true,
        },
        _ => true,
    }
}

impl State {
    /// Applies a message to the bookmark of the movie.
    fn bookmark_message(&mut self, id: MovieId, action: BookmarkMessage) -> (r: StateUpdate)
        requires
            bookmark_message_defined(*old(self), id, action),
        ensures
            bookmark_step(*old(self), id, action, *final(self), r),
    {
        let ghost a = *self;
        let current = match self.bookmarks.with_id_mut(id) {
            Some(bookmark) => {
                bookmark.apply(action);
                bookmark.current_episode_id()
            },
            None => {
                return StateUpdate::default();
            },
        };
        proof {
            crate::id::lemma_first_id(bookmark_ids(a.bookmarks@), id);
            let i = first_id(bookmark_ids(a.bookmarks@), id)->0;
            assert(bookmark_ids(a.bookmarks@)[i] == a.bookmarks@[i].movie.id);
        }
        if !self.episode_details.contains_key(&current) {
            self.execute_request(RequestType::EpisodeDetails { id: current })
        } else {
            StateUpdate::new(Vec::new())
        }
    }

    /// Shows another list, or the details of a movie.
    fn filter_changed(&mut self, new_filter: Filter) -> (r: StateUpdate)
        requires
            filter_defined(*old(self), new_filter),
        ensures
            filter_step(*old(self), new_filter, *final(self), r),
    {
        self.gui.filter = new_filter;
        if let Filter::Details(movie_id) = new_filter {
            self.set_detail_input_caches(movie_id);
            let current = match self.get_bookmark(movie_id) {
                Some(bookmark) => bookmark.current_episode_id(),
                None => {
                    return StateUpdate::default();
                },
            };
            if !self.episode_details.contains_key(&current) {
                return self.execute_request(RequestType::EpisodeDetails { id: current });
            }
        }
        StateUpdate::default()
    }

    /// Bookmarks a movie of the search.
    fn add_bookmark(&mut self, id: MovieId) -> (r: StateUpdate)
        ensures
            add_step(*old(self), id, *final(self), r),
    {
        if self.get_bookmark(id).is_some() {
            return StateUpdate::default();
        }
        let bookmark = match self.movies.with_id(id) {
            Some(movie) => Bookmark::from(movie),
            None => {
                return StateUpdate::default();
            },
        };
        let ghost before = self.bookmarks@;
        self.bookmarks.push(bookmark);
        assert(self.bookmarks@.drop_last() =~= before);
        StateUpdate::default()
    }

    /// Removes the bookmark of a movie.
    fn remove_bookmark(&mut self, id: MovieId) -> (r: StateUpdate)
        ensures
            remove_step(*old(self), id, *final(self), r),
    {
        let index = match crate::id::bookmark_position(&self.bookmarks, id) {
            Some(index) => index,
            None => {
                return StateUpdate::default();
            },
        };
        self.bookmarks.remove(index);
        if self.gui.filter == Filter::Details(id) {
            self.filter_changed(Filter::Bookmarks)
        } else {
            StateUpdate::default()
        }
    }

    /// Copies the link of the movie's current episode.
    fn link_message(&mut self, id: MovieId, details: Option<MovieDetails>, shift: ShiftPressed) -> (r: StateUpdate)
        requires
            update_defined(*old(self), Message::LinkMessage(id, LinkMessage::LinkToClipboard(details, shift))),
        ensures
            link_step(*old(self), id, details, shift, *final(self), r),
    {
        let ghost a = *self;
        proof {
            crate::id::lemma_first_id(bookmark_ids(a.bookmarks@), id);
        }
        let ghost i = first_id(bookmark_ids(a.bookmarks@), id)->0;
        let bookmark = match self.bookmarks.with_id_mut(id) {
            Some(bookmark) => bookmark,
            None => {
                return StateUpdate::default();
            },
        };
        assert(a.bookmarks@.update(i, a.bookmarks@[i]) =~= a.bookmarks@);
        let mut link = match self.links.remove(&id) {
            Some(link) => link,
            None => {
                return StateUpdate::default();
            },
        };
        assert(a.links@.remove(id).insert(id, link) =~= a.links@);
        let url = link.to_clipboard(bookmark, details, shift);
        self.links.insert(id, link);
        match url {
            Some(u) => StateUpdate::new(vec![Action::CopyToClipboard(u)]),
            None => StateUpdate::new(Vec::new()),
        }
    }

    /// Submits an input.
    fn input_submit(&mut self, kind: InputKind) -> (r: StateUpdate)
        requires
            update_defined(*old(self), Message::InputSubmit(kind)),
        ensures
            submit_step(*old(self), kind, *final(self), r),
    {
        let ghost a = *self;
        match kind {
            InputKind::SearchField => {
                if self.gui.filter == Filter::Search {
                    let query = self.gui.input_caches.get(kind).clone();
                    let update = self.execute_request(RequestType::TvSearch { query });
                    self.gui.input_caches.set(kind, String::new());
                    update
                } else {
                    StateUpdate::default()
                }
            },
            InputKind::EpisodeInput | InputKind::SeasonInput => {
                let movie_id = match self.gui.filter {
                    Filter::Details(movie_id) => movie_id,
                    _ => {
                        return StateUpdate::default();
                    },
                };
                let text = self.gui.input_caches.get(kind).clone();
                let details = match self.movie_details.get(&movie_id) {
                    Some(d) => Some(d.clone()),
                    None => None,
                };
                let ghost stored = stored_details(a, movie_id);
                let action = if kind == InputKind::EpisodeInput {
                    BookmarkMessage::SetE(text, details)
                } else {
                    BookmarkMessage::SetS(text, details)
                };
                proof {
                    let i = first_id(bookmark_ids(a.bookmarks@), movie_id);
                    if i is Some {
                        crate::bookmark::lemma_applied_same_details(
                            a.bookmarks@[i->0],
                            action,
                            details,
                            stored,
                        );
                        assert(crate::bookmark::with_details(action, details) == action);
                    }
                }
                self.bookmark_message(movie_id, action)
            },
            InputKind::LinkInput => {
                let movie_id = match self.gui.filter {
                    Filter::Details(movie_id) => movie_id,
                    _ => {
                        return StateUpdate::default();
                    },
                };
                let text = self.gui.input_caches.get(kind).as_str();
                match Link::validate(text) {
                    Ok(()) => {
                        if let Ok(link) = Link::new(text) {
                            self.links.insert(movie_id, link);
                        }
                    },
                    Err(_) => {},
                }
                StateUpdate::default()
            },
        }
    }

    /// Reacts to a message: changes the state and asks for work to be done.
    pub fn update_state(&mut self, message: Message) -> (r: StateUpdate)
        requires
            update_defined(*old(self), message),
        ensures
            updated(*old(self), message, *final(self), r),
    {
        match message {
            Message::Loaded(_) => StateUpdate::default(),
            Message::CreateNew => StateUpdate::default(),
            Message::Saved(_) => {
                self.gui.saving = false;
                StateUpdate::default().just_saved()
            },
            Message::InputChanged(kind, input) => {
                self.gui.input_caches.set(kind, input);
                StateUpdate::default()
            },
            Message::InputSubmit(kind) => self.input_submit(kind),
            Message::ExecuteRequest(request) => self.execute_request(request),
            Message::RequestResponse(text, query) => {
                let response = match text {
                    Some(response) => response,
                    None => {
                        return StateUpdate::default();
                    },
                };
                let cmd = match query {
                    RequestType::TvSearch { .. } => match response {
                        Response::TvSearch(found) => self.response_tv_search(found),
                        _ => Vec::new(),
                    },
                    RequestType::TvDetails { .. } => match response {
                        Response::TvDetails(details) => {
                            self.response_tv_details(details);
                            Vec::new()
                        },
                        _ => Vec::new(),
                    },
                    RequestType::EpisodeDetails { id } => match response {
                        Response::EpisodeDetails(details) => {
                            self.response_episode_details(details, id);
                            Vec::new()
                        },
                        _ => Vec::new(),
                    },
                    RequestType::Poster { .. } => Vec::new(),
                };
                StateUpdate::new(cmd)
            },
            Message::RequestPoster(id, handle) => {
                match handle {
                    Some(bytes) => {
                        self.movie_posters.insert(id, Poster::Image(bytes));
                    },
                    None => {},
                }
                StateUpdate::default()
            },
            Message::FilterChanged(new_filter) => self.filter_changed(new_filter),
            Message::AddBookmark(id) => self.add_bookmark(id),
            Message::RemoveBookmark(id) => self.remove_bookmark(id),
            Message::BookmarkMessage(id, action) => self.bookmark_message(id, action),
            Message::LinkMessage(id, LinkMessage::LinkToClipboard(details, shift)) => self.link_message(
                id,
                details,
                shift,
            ),
            Message::TabPressed => {
                let action = if self.gui.shift_pressed == ShiftPressed::True {
                    Action::FocusPrevious
                } else {
                    Action::FocusNext
                };
                let r = StateUpdate::new(vec![action]);
                assert(r.commands() =~= seq![action]);
                r
            },
            Message::ShiftPressed(shift) => {
                self.gui.shift_pressed = shift;
                StateUpdate::default()
            },
            Message::ToggleFullscreen(mode) => {
                let r = StateUpdate::new(vec![Action::ChangeWindowMode(mode)]);
                assert(r.commands() =~= seq![Action::ChangeWindowMode(mode)]);
                r
            },
        }
    }
}

impl State {
    /// Whether the request can be executed (see `request_defined`).
    fn request_ok(&self, request: &RequestType) -> (r: bool)
        ensures
            r == request_defined(*self, *request),
    {
        match request {
            RequestType::EpisodeDetails { id } => match self.movie_details.get(&id.0) {
                Some(d) => d.can_reformat(&id.1),
                None => true,
            },
            _ => true,
        }
    }

    /// Whether the details of the bookmark's current episode can be asked
    /// for (see `episode_request_defined`), the bookmark being at `episode`.
    fn episode_request_ok(&self, movie: MovieId, episode: Episode) -> (r: bool)
        ensures
            r == (!self.episode_details@.contains_key(EpisodeId(movie, episode)) ==> request_defined(
                *self,
                RequestType::EpisodeDetails { id: EpisodeId(movie, episode) },
            )),
    {
        let id = EpisodeId(movie, episode);
        self.episode_details.contains_key(&id) || self.request_ok(
            &RequestType::EpisodeDetails { id },
        )
    }

    /// Whether the bookmark of the movie can take the message (see
    /// `bookmark_message_defined`).
    fn bookmark_message_ok(&self, id: MovieId, action: &BookmarkMessage) -> (r: bool)
        ensures
            r == bookmark_message_defined(*self, id, *action),
    {
        proof {
            crate::id::lemma_first_id(bookmark_ids(self.bookmarks@), id);
        }
        match self.get_bookmark(id) {
            Some(b) => {
                if !b.can_apply(action) {
                    return false;
                }
                let (episode, _, _) = b.preview(action);
                self.episode_request_ok(b.movie.id, episode)
            },
            None => true,
        }
    }

    /// Whether fresh details can be stored (see `tv_details_defined`).
    fn tv_details_ok(&self, d: &MovieDetails) -> (r: bool)
        ensures
            r == tv_details_defined(*self, *d),
    {
        if !d.can_fix_formats() {
            return false;
        }
        match self.get_bookmark(d.id) {
            Some(b) => {
                if !b.finished {
                    return true;
                }
                let s = d.as_seasonal_episode(&b.current_episode);
                let mut fixed = d.clone();
                fixed.fix_episode_formats();
                proof {
                    if d.seasons@.len() >= 2 {
                        assert(fixed.last_episode_to_air == fixed_episode(
                            d.seasons@,
                            d.last_episode_to_air,
                        ));
                    }
                }
                fixed.can_go_next(&Episode::Seasonal(s))
            },
            None => true,
        }
    }

    /// Whether the state can take the message (see `update_defined`); the
    /// front end stops where this does not hold.
    pub fn can_update(&self, message: &Message) -> (r: bool)
        ensures
            r == update_defined(*self, *message),
    {
        match message {
            Message::InputSubmit(kind) => match self.gui.filter {
                Filter::Details(id) => {
                    if *kind != InputKind::EpisodeInput && *kind != InputKind::SeasonInput {
                        return true;
                    }
                    let text = self.gui.input_caches.get(*kind).clone();
                    let details = match self.movie_details.get(&id) {
                        Some(d) => Some(d.clone()),
                        None => None,
                    };
                    let action = if *kind == InputKind::EpisodeInput {
                        BookmarkMessage::SetE(text, details)
                    } else {
                        BookmarkMessage::SetS(text, details)
                    };
                    proof {
                        let i = first_id(bookmark_ids(self.bookmarks@), id);
                        if i is Some {
                            crate::bookmark::lemma_applied_same_details(
                                self.bookmarks@[i->0],
                                action,
                                details,
                                stored_details(*self, id),
                            );
                            assert(crate::bookmark::with_details(action, details) == action);
                        }
                    }
                    self.bookmark_message_ok(id, &action)
                },
                _ => true,
            },
            Message::ExecuteRequest(request) => self.request_ok(request),
            Message::RequestResponse(Some(Response::TvDetails(d)), RequestType::TvDetails { .. }) => {
                self.tv_details_ok(d)
            },
            Message::FilterChanged(Filter::Details(id)) => {
                proof {
                    crate::id::lemma_first_id(bookmark_ids(self.bookmarks@), *id);
                }
                match self.get_bookmark(*id) {
                    Some(b) => self.episode_request_ok(b.movie.id, b.current_episode),
                    None => true,
                }
            },
            Message::BookmarkMessage(id, action) => self.bookmark_message_ok(*id, action),
            Message::LinkMessage(id, LinkMessage::LinkToClipboard(details, shift)) => {
                match self.get_bookmark(*id) {
                    Some(b) => {
                        let link = match self.links.get(id) {
                            Some(link) => link,
                            None => {
                                return true;
                            },
                        };
                        let counts_in_total = match b.current_episode {
                            Episode::Seasonal(_) => !link.has_season(),
                            Episode::Total(_) => false,
                        };
                        let fits = match details {
                            Some(d) => !counts_in_total || d.total_fits(&b.current_episode),
                            None => true,
                        };
                        fits && (*shift == ShiftPressed::True || b.can_step_on(details))
                    },
                    None => true,
                }
            },
            _ => true,
        }
    }
}

impl App {
    /// Whether the front end can take the message: a running one as
    /// `State::can_update` says, one that is loading or asks to start afresh
    /// always.
    pub fn can_take(&self, message: &Message) -> (r: bool)
        ensures
            r == (*self matches App::Loaded(s) ==> update_defined(s, *message)),
    {
        match self {
            App::Loaded(s) => s.can_update(message),
            _ => true,
        }
    }
}

/// A movie is bookmarked once: adding it a second time changes nothing.
pub proof fn law_add_bookmark_twice(a: State, id: MovieId, mid: State, r1: StateUpdate, b: State, r2: StateUpdate)
    requires
        updated(a, Message::AddBookmark(id), mid, r1),
        updated(mid, Message::AddBookmark(id), b, r2),
    ensures
        b.bookmarks@ == mid.bookmarks@,
        mid.bookmarks@.len() <= a.bookmarks@.len() + 1,
{
    if first_id(bookmark_ids(a.bookmarks@), id) is None {
        crate::id::lemma_first_id(movie_ids(a.movies@), id);
        if let Some(k) = first_id(movie_ids(a.movies@), id) {
            assert(movie_ids(a.movies@)[k] == a.movies@[k].id);
            let nb = mid.bookmarks@.last();
            assert(nb.movie.id == a.movies@[k].id);
            assert(mid.bookmarks@ =~= a.bookmarks@.push(nb));
            assert(bookmark_ids(mid.bookmarks@) =~= bookmark_ids(a.bookmarks@).push(id));
            crate::id::lemma_first_id_push(bookmark_ids(a.bookmarks@), id);
        }
    }
}

/// Adding a bookmark of a movie that had none, then removing the bookmark of
/// that movie, gives the bookmarks back.
pub proof fn law_add_then_remove_bookmark(a: State, id: MovieId, mid: State, r1: StateUpdate, b: State, r2: StateUpdate)
    requires
        first_id(bookmark_ids(a.bookmarks@), id) is None,
        updated(a, Message::AddBookmark(id), mid, r1),
        updated(mid, Message::RemoveBookmark(id), b, r2),
    ensures
        b.bookmarks@ == a.bookmarks@,
{
    crate::id::lemma_first_id(movie_ids(a.movies@), id);
    if let Some(k) = first_id(movie_ids(a.movies@), id) {
        assert(movie_ids(a.movies@)[k] == a.movies@[k].id);
        let nb = mid.bookmarks@.last();
        assert(nb.movie.id == a.movies@[k].id);
        assert(mid.bookmarks@ =~= a.bookmarks@.push(nb));
        assert(bookmark_ids(mid.bookmarks@) =~= bookmark_ids(a.bookmarks@).push(id));
        crate::id::lemma_first_id_push(bookmark_ids(a.bookmarks@), id);
        assert(mid.bookmarks@.remove(a.bookmarks@.len() as int) =~= a.bookmarks@);
    } else {
        crate::id::lemma_first_id(bookmark_ids(a.bookmarks@), id);
    }
}

/// What is typed into the search field while searching is what is searched,
/// and the field is emptied.
pub proof fn law_search_sends_typed_text(a: State, text: String, mid: State, r1: StateUpdate, b: State, r2: StateUpdate)
    requires
        a.gui.filter == Filter::Search,
        updated(a, Message::InputChanged(InputKind::SearchField, text), mid, r1),
        updated(mid, Message::InputSubmit(InputKind::SearchField), b, r2),
    ensures
        r2.commands().len() == 1,
        match r2.commands()[0] {
            Action::SendRequest { sent, answer_to } => sent == answer_to && match sent {
                RequestType::TvSearch { query } => query@ == text@,
                _ => false,
            },
            _ => false,
        },
        b.gui.input_caches.cache(InputKind::SearchField) == Seq::<char>::empty(),
{
}

/// The movie `id` has a bookmark.
pub open spec fn bookmarked(bs: Seq<Bookmark>, id: MovieId) -> bool {
    first_id(bookmark_ids(bs), id) is Some
}

/// The details view shows a movie that has a bookmark.
pub open spec fn details_bookmarked(s: State) -> bool {
    s.gui.filter matches Filter::Details(id) ==> bookmarked(s.bookmarks@, id)
}

/// An id that occurs in the sequence is found.
proof fn lemma_first_id_found(ids: Seq<MovieId>, id: MovieId, k: int)
    requires
        0 <= k < ids.len(),
        ids[k] == id,
    ensures
        first_id(ids, id) is Some,
{
    crate::id::lemma_first_id(ids, id);
}

/// How a message changes the movie ids of the bookmarks: they stay as they
/// were, a movie without a bookmark gets one at the end, or the first
/// bookmark of a movie goes.
proof fn lemma_step_ids(a: State, m: Message, b: State, r: StateUpdate)
    requires
        updated(a, m, b, r),
    ensures
        bookmark_ids(b.bookmarks@) == bookmark_ids(a.bookmarks@) || (m matches Message::AddBookmark(
            id,
        ) && first_id(bookmark_ids(a.bookmarks@), id) is None && bookmark_ids(b.bookmarks@)
            == bookmark_ids(a.bookmarks@).push(id)) || (m matches Message::RemoveBookmark(id)
            && first_id(bookmark_ids(a.bookmarks@), id) matches Some(i) && 0 <= i < bookmark_ids(
            a.bookmarks@,
        ).len() && bookmark_ids(a.bookmarks@)[i] == id && bookmark_ids(b.bookmarks@)
            == bookmark_ids(a.bookmarks@).remove(i)),
{
    let ids = bookmark_ids(a.bookmarks@);
    match m {
        Message::AddBookmark(id) => {
            if first_id(ids, id) is None {
                crate::id::lemma_first_id(movie_ids(a.movies@), id);
                if let Some(k) = first_id(movie_ids(a.movies@), id) {
                    let nb = b.bookmarks@.last();
                    assert(movie_ids(a.movies@)[k] == a.movies@[k].id);
                    assert(nb.movie.id == a.movies@[k].id);
                    assert(b.bookmarks@ =~= a.bookmarks@.push(nb));
                    assert(bookmark_ids(b.bookmarks@) =~= ids.push(id));
                } else {
                    assert(bookmark_ids(b.bookmarks@) =~= ids);
                }
            } else {
                assert(bookmark_ids(b.bookmarks@) =~= ids);
            }
        },
        Message::RemoveBookmark(id) => {
            crate::id::lemma_first_id(ids, id);
            if let Some(i) = first_id(ids, id) {
                assert(bookmark_ids(b.bookmarks@) =~= ids.remove(i));
            } else {
                assert(bookmark_ids(b.bookmarks@) =~= ids);
            }
        },
        Message::BookmarkMessage(id, action) => {
            crate::id::lemma_first_id(ids, id);
            assert(bookmark_ids(b.bookmarks@) =~= ids);
        },
        Message::LinkMessage(id, LinkMessage::LinkToClipboard(details, shift)) => {
            crate::id::lemma_first_id(ids, id);
            assert(bookmark_ids(b.bookmarks@) =~= ids);
        },
        Message::InputSubmit(kind) => {
            if let Filter::Details(id) = a.gui.filter {
                crate::id::lemma_first_id(ids, id);
            }
            assert(bookmark_ids(b.bookmarks@) =~= ids);
        },
        Message::RequestResponse(resp, query) => {
            if let Some(Response::TvDetails(d)) = resp {
                crate::id::lemma_first_id(ids, formats_fixed(d).id);
            }
            assert(bookmark_ids(b.bookmarks@) =~= ids);
        },
        _ => {
            assert(bookmark_ids(b.bookmarks@) =~= ids);
        },
    }
}

/// No movie has two bookmarks, whatever message comes: a bookmark is only
/// added for a movie that has none, and the others keep their movie.
pub proof fn law_bookmark_ids_stay_distinct(a: State, m: Message, b: State, r: StateUpdate)
    requires
        bookmark_ids(a.bookmarks@).no_duplicates(),
        updated(a, m, b, r),
    ensures
        bookmark_ids(b.bookmarks@).no_duplicates(),
{
    lemma_step_ids(a, m, b, r);
    let ids = bookmark_ids(a.bookmarks@);
    let nids = bookmark_ids(b.bookmarks@);
    if nids != ids {
        match m {
            Message::AddBookmark(id) => {
                crate::id::lemma_first_id(ids, id);
                assert forall|i: int, j: int|
                    0 <= i < nids.len() && 0 <= j < nids.len() && i != j implies nids[i]
                    != nids[j] by {
                    if i < ids.len() && j < ids.len() {
                        assert(nids[i] == ids[i] && nids[j] == ids[j]);
                    } else if i < ids.len() {
                        assert(nids[i] == ids[i]);
                    } else {
                        assert(nids[j] == ids[j]);
                    }
                }
            },
            Message::RemoveBookmark(id) => {
                let i0 = first_id(ids, id)->0;
                assert forall|i: int, j: int|
                    0 <= i < nids.len() && 0 <= j < nids.len() && i != j implies nids[i]
                    != nids[j] by {
                    let oi = if i < i0 { i } else { i + 1 };
                    let oj = if j < i0 { j } else { j + 1 };
                    assert(nids[i] == ids[oi] && nids[j] == ids[oj]);
                }
            },
            _ => {},
        }
    }
}

/// The details view always shows a movie that has a bookmark, unless the
/// view is switched to a movie without one: removing the bookmark shown
/// turns the view back to the bookmarks.
pub proof fn law_details_view_keeps_its_bookmark(a: State, m: Message, b: State, r: StateUpdate)
    requires
        details_bookmarked(a),
        updated(a, m, b, r),
        !(m matches Message::FilterChanged(Filter::Details(id)) && !bookmarked(a.bookmarks@, id)),
    ensures
        details_bookmarked(b),
{
    lemma_step_ids(a, m, b, r);
    let ids = bookmark_ids(a.bookmarks@);
    let nids = bookmark_ids(b.bookmarks@);
    if let Filter::Details(x) = b.gui.filter {
        match m {
            Message::FilterChanged(f) => {},
            Message::RemoveBookmark(id) => {
                crate::id::lemma_first_id(ids, x);
                if nids != ids {
                    let i0 = first_id(ids, id)->0;
                    let k = first_id(ids, x)->0;
                    assert(x != id);
                    if k < i0 {
                        assert(nids[k] == x);
                        lemma_first_id_found(nids, x, k);
                    } else {
                        assert(nids[k - 1] == x);
                        lemma_first_id_found(nids, x, k - 1);
                    }
                }
            },
            Message::AddBookmark(id) => {
                crate::id::lemma_first_id(ids, x);
                if nids != ids {
                    let k = first_id(ids, x)->0;
                    assert(nids[k] == x);
                    lemma_first_id_found(nids, x, k);
                }
            },
            _ => {
                assert(b.gui.filter == a.gui.filter);
            },
        }
    }
}

/// Numbering an episode as the database does undoes the renumbering of the
/// details: once the last published episode had to be renumbered, numbering
/// it back gives the episode the database sent. Details that were never
/// renumbered keep every episode as it is.
pub proof fn law_reformat_undoes_fix(d: MovieDetails, e: Episode)
    requires
        can_fix(d),
        !d.fixed,
    ensures
        reformatted(d, e) == e,
        d.seasons@.len() >= 2 && needs_renumbering(d.seasons@, d.last_episode_to_air) ==> {
            let f = formats_fixed(d);
            &&& f.fixed
            &&& reformatted(f, Episode::Seasonal(f.last_episode_to_air->0.episode))
                == Episode::Seasonal(d.last_episode_to_air->0.episode)
        },
{
}

/// When fresh details of a show come in and its bookmark was finished on a
/// seasonal episode that now has a successor, the bookmark moves to that
/// very next episode (the next one in its season, or the first of the next
/// season after a season's last) and is no longer finished; nothing is
/// skipped. The other bookmarks stay as they were.
pub proof fn law_fresh_details_move_finished_bookmark_one_step(
    a: State,
    d: MovieDetails,
    id: MovieId,
    b: State,
    r: StateUpdate,
    i: int,
)
    requires
        updated(a, Message::RequestResponse(Some(Response::TvDetails(d)), RequestType::TvDetails { id }), b, r),
        first_id(bookmark_ids(a.bookmarks@), d.id) == Some(i),
        a.bookmarks@[i].finished,
        a.bookmarks@[i].current_episode is Seasonal,
        next_of(
            formats_fixed(d).seasons@,
            formats_fixed(d).last_episode_to_air,
            a.bookmarks@[i].current_episode,
        ) != a.bookmarks@[i].current_episode,
    ensures
        b.bookmarks@.len() == a.bookmarks@.len(),
        b.bookmarks@[i].current_episode == next_of(
            d.seasons@,
            formats_fixed(d).last_episode_to_air,
            a.bookmarks@[i].current_episode,
        ),
        a.bookmarks@[i].current_episode matches Episode::Seasonal(x) ==> {
            ||| b.bookmarks@[i].current_episode == Episode::Seasonal(
                SeasonEpisode {
                    episode_number: (x.episode_number + 1) as usize,
                    season_number: x.season_number,
                },
            )
            ||| b.bookmarks@[i].current_episode == Episode::Seasonal(
                SeasonEpisode { episode_number: 1, season_number: (x.season_number + 1) as usize },
            )
        },
        !b.bookmarks@[i].finished,
        b.bookmarks@[i].movie == a.bookmarks@[i].movie,
        forall|j: int| 0 <= j < a.bookmarks@.len() && j != i ==> b.bookmarks@[j] == a.bookmarks@[j],
{
    crate::id::lemma_first_id(bookmark_ids(a.bookmarks@), d.id);
}

} // verus!
