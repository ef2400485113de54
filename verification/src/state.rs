//! What the front end holds: the inputs, the loaded data and the bookmarks.
use vstd::prelude::*;

use crate::bookmark::Bookmark;
use crate::filter::Filter;
use crate::id::{bookmark_ids, first_id, EpisodeId, MovieId, MovieIndex};
use crate::keyed_map::KeyedMap;
use crate::link::Link;
use crate::message::ShiftPressed;
use crate::movie::TmdbMovie;
use crate::movie_details::{EpisodeDetails, MovieDetails};
use crate::text::{decimal_chars, decimal_string, string_of};
use crate::update::Action;

verus! {

/// The text inputs of the front end.
#[derive(Clone, Copy, Debug, PartialEq, Eq, Structural)]
pub enum InputKind {
    SearchField,
    EpisodeInput,
    SeasonInput,
    LinkInput,
}

impl InputKind {
    pub open spec fn index_spec(self) -> usize {
        match self {
            InputKind::SearchField => 0,
            InputKind::EpisodeInput => 1,
            InputKind::SeasonInput => 2,
            InputKind::LinkInput => 3,
        }
    }

    /// The slot of the input among the input caches.
    pub fn index(&self) -> (r: usize)
        ensures
            r == self.index_spec(),
    {
        match self {
            InputKind::SearchField => 0,
            InputKind::EpisodeInput => 1,
            InputKind::SeasonInput => 2,
            InputKind::LinkInput => 3,
        }
    }
}

/// Every input has a slot of its own among the four input caches.
pub proof fn law_input_slots_distinct(a: InputKind, b: InputKind)
    ensures
        a.index_spec() < 4,
        a != b ==> a.index_spec() != b.index_spec(),
{
}

/// What was typed into each input.
pub struct InputCaches([String; 4]);

impl InputCaches {
    /// The text of the input `kind`.
    pub closed spec fn cached(self, kind: InputKind) -> String {
        self.0@[kind.index_spec() as int]
    }

    /// What was typed into the input `kind`.
    pub open spec fn cache(self, kind: InputKind) -> Seq<char> {
        self.cached(kind)@
    }

    /// What was typed into the input `kind`.
    pub fn get(&self, kind: InputKind) -> (r: &String)
        ensures
            *r == self.cached(kind),
    {
        &self.0[kind.index()]
    }

    /// Replaces what was typed into the input `kind`.
    pub fn set(&mut self, kind: InputKind, value: String)
        ensures
            final(self).cached(kind) == value,
            forall|other: InputKind| other != kind ==> final(self).cached(other) == old(self).cached(other),
    {
        let i = kind.index();
        self.0[i] = value;
    }
}

impl Default for InputCaches {
    fn default() -> (r: Self)
        ensures
            forall|kind: InputKind| r.cache(kind) == Seq::<char>::empty(),
    {
        InputCaches([String::new(), String::new(), String::new(), String::new()])
    }
}

/// The state of the front end itself.
pub struct GuiState {
    pub input_caches: InputCaches,
    pub filter: Filter,
    pub dirty: bool,
    pub saving: bool,
    pub shift_pressed: ShiftPressed,
}

impl Default for GuiState {
    fn default() -> (r: Self)
        ensures
            forall|kind: InputKind| r.input_caches.cache(kind) == Seq::<char>::empty(),
            r.filter == Filter::Bookmarks,
            !r.dirty,
            !r.saving,
            r.shift_pressed == ShiftPressed::False,
    {
        GuiState {
            input_caches: InputCaches::default(),
            filter: Filter::default(),
            dirty: false,
            saving: false,
            shift_pressed: ShiftPressed::default(),
        }
    }
}

/// The posters that were loaded: the bytes of the image.
pub enum Poster {
    Image(Vec<u8>),
}

/// Everything the front end shows.
pub struct State {
    pub gui: GuiState,
    pub movies: Vec<TmdbMovie>,
    pub movie_details: KeyedMap<MovieId, MovieDetails>,
    pub movie_posters: KeyedMap<MovieId, Poster>,
    pub episode_details: KeyedMap<EpisodeId, EpisodeDetails>,
    pub links: KeyedMap<MovieId, Link>,
    pub bookmarks: Vec<Bookmark>,
}

/// The front end as it starts: empty inputs, the bookmarks listed, nothing
/// loaded, no flag raised.
pub open spec fn fresh_gui(g: GuiState) -> bool {
    &&& forall|kind: InputKind| #[trigger] g.input_caches.cache(kind) == Seq::<char>::empty()
    &&& g.filter == Filter::Bookmarks
    &&& !g.dirty
    &&& !g.saving
    &&& g.shift_pressed == ShiftPressed::False
}

/// Nothing is loaded yet.
pub open spec fn nothing_loaded(s: State) -> bool {
    &&& s.movies@.len() == 0
    &&& s.movie_details@ == Map::<MovieId, MovieDetails>::empty()
    &&& s.movie_posters@ == Map::<MovieId, Poster>::empty()
    &&& s.episode_details@ == Map::<EpisodeId, EpisodeDetails>::empty()
}

/// A state as it starts, without bookmarks or links.
pub open spec fn fresh_state(s: State) -> bool {
    &&& fresh_gui(s.gui)
    &&& nothing_loaded(s)
    &&& s.links@ == Map::<MovieId, Link>::empty()
    &&& s.bookmarks@.len() == 0
}

impl Default for State {
    fn default() -> (r: Self)
        ensures
            fresh_state(r),
    {
        State {
            gui: GuiState::default(),
            movies: Vec::new(),
            movie_details: KeyedMap::new(),
            movie_posters: KeyedMap::new(),
            episode_details: KeyedMap::new(),
            links: KeyedMap::new(),
            bookmarks: Vec::new(),
        }
    }
}

/// The inputs of the details view filled from the bookmark `b` of the movie
/// `id`: its episode, its season and its link; the search input stays.
pub open spec fn detail_caches(before: InputCaches, after: InputCaches, b: Bookmark, links: Map<MovieId, Link>, id: MovieId) -> bool {
    &&& after.cache(InputKind::SearchField) == before.cache(InputKind::SearchField)
    &&& after.cache(InputKind::EpisodeInput) == decimal_string(b.current_episode.episode_spec() as nat)
    &&& after.cache(InputKind::SeasonInput) == decimal_string(b.current_episode.season_spec() as nat)
    &&& after.cache(InputKind::LinkInput) == if links.contains_key(id) {
        links[id].string_link@
    } else {
        Seq::<char>::empty()
    }
}

/// Whether the state is written to disk after a step, and how the dirty and
/// saving flags move: a step that did not just save makes the state dirty,
/// and a dirty state is written unless a write is under way.
pub open spec fn save_step(dirty: bool, saving: bool, saved: bool) -> (bool, bool, bool) {
    let dirty = dirty || !saved;
    if dirty && !saving {
        (false, true, true)
    } else {
        (dirty, saving, false)
    }
}

impl State {
    /// Marks the state dirty unless the step just saved it, and asks for it to
    /// be written when it is dirty and no write is under way.
    pub fn save(&mut self, saved: bool) -> (r: Vec<Action>)
        ensures
            ({
                let (dirty, saving, write) = save_step(old(self).gui.dirty, old(self).gui.saving, saved);
                &&& final(self).gui.dirty == dirty
                &&& final(self).gui.saving == saving
                &&& write ==> r@ == seq![Action::Save]
                &&& !write ==> r@.len() == 0
            }),
            final(self).gui.input_caches == old(self).gui.input_caches,
            final(self).gui.filter == old(self).gui.filter,
            final(self).gui.shift_pressed == old(self).gui.shift_pressed,
            final(self).movies == old(self).movies,
            final(self).movie_details == old(self).movie_details,
            final(self).movie_posters == old(self).movie_posters,
            final(self).episode_details == old(self).episode_details,
            final(self).links == old(self).links,
            final(self).bookmarks == old(self).bookmarks,
    {
        if !saved {
            self.gui.dirty = true;
        }
        if self.gui.dirty && !self.gui.saving {
            self.gui.dirty = false;
            self.gui.saving = true;
            vec![Action::Save]
        } else {
            Vec::new()
        }
    }

    /// The first bookmark of the movie.
    pub fn get_bookmark(&self, movie_id: MovieId) -> (r: Option<&Bookmark>)
        ensures
            match first_id(bookmark_ids(self.bookmarks@), movie_id) {
                Some(i) => 0 <= i < self.bookmarks@.len() && r == Some(&self.bookmarks@[i]),
                None => r is None,
            },
    {
        self.bookmarks.with_id(movie_id)
    }

    /// Fills the episode, season and link inputs from the bookmark of the
    /// movie; without such a bookmark nothing changes.
    pub fn set_detail_input_caches(&mut self, movie_id: MovieId)
        ensures
            final(self).movies == old(self).movies,
            final(self).movie_details == old(self).movie_details,
            final(self).movie_posters == old(self).movie_posters,
            final(self).episode_details == old(self).episode_details,
            final(self).links == old(self).links,
            final(self).bookmarks == old(self).bookmarks,
            final(self).gui.filter == old(self).gui.filter,
            final(self).gui.dirty == old(self).gui.dirty,
            final(self).gui.saving == old(self).gui.saving,
            final(self).gui.shift_pressed == old(self).gui.shift_pressed,
            match first_id(bookmark_ids(old(self).bookmarks@), movie_id) {
                None => final(self).gui.input_caches == old(self).gui.input_caches,
                Some(i) => detail_caches(
                    old(self).gui.input_caches,
                    final(self).gui.input_caches,
                    old(self).bookmarks@[i],
                    old(self).links@,
                    movie_id,
                ),
            },
    {
        let Some(bookmark) = self.get_bookmark(movie_id) else {
            return;
        };
        let episode = bookmark.current_episode;
        let link = match self.links.get(&movie_id) {
            Some(link) => link.string_link.clone(),
            None => String::new(),
        };
        let episode_text = string_of(decimal_chars(episode.episode()).as_slice());
        let season_text = string_of(decimal_chars(episode.season()).as_slice());
        self.gui.input_caches.set(InputKind::EpisodeInput, episode_text);
        self.gui.input_caches.set(InputKind::SeasonInput, season_text);
        self.gui.input_caches.set(InputKind::LinkInput, link);
    }
}

} // verus!
