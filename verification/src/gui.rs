//! The front end as a whole: loading the saved state, then reacting to what
//! happens and keeping the state saved.
use vstd::prelude::*;

use crate::bookmark::Bookmark;
use crate::message::{Message, ShiftPressed};
use crate::save::{LoadError, SavedState};
use crate::state::{fresh_gui, nothing_loaded, fresh_state, save_step, State};
use crate::tmdb::RequestType;
use crate::update::{update_defined, updated, Action, StateUpdate, WindowMode};

verus! {

/// The front end: loading, asking to start afresh after the saved state could
/// not be read, or running.
pub enum App {
    Loading,
    CreateNew(String),
    Loaded(State),
}

/// The work asked for the bookmarks that were loaded: the details of each
/// show, then the poster of each show that has one.
pub open spec fn load_actions(bs: Seq<Bookmark>) -> Seq<Action> {
    details_requests(bs) + poster_loads(bs)
}

/// A request for the details of each show, in order.
pub open spec fn details_requests(bs: Seq<Bookmark>) -> Seq<Action>
    decreases bs.len(),
{
    if bs.len() == 0 {
        Seq::<Action>::empty()
    } else {
        let id = bs.last().movie.id;
        details_requests(bs.drop_last()) + seq![
            Action::SendRequest {
                sent: RequestType::TvDetails { id },
                answer_to: RequestType::TvDetails { id },
            },
        ]
    }
}

/// A load of the poster of each show that has one, in order.
pub open spec fn poster_loads(bs: Seq<Bookmark>) -> Seq<Action>
    decreases bs.len(),
{
    if bs.len() == 0 {
        Seq::<Action>::empty()
    } else {
        let m = bs.last().movie;
        poster_loads(bs.drop_last()) + match m.poster_path {
            Some(p) => seq![Action::LoadPoster { id: m.id, path: p }],
            None => Seq::<Action>::empty(),
        }
    }
}

/// The running state once `saved` was loaded: its bookmarks and links, the
/// front end as it starts and nothing else loaded.
pub open spec fn loaded_from(s: State, saved: SavedState) -> bool {
    &&& fresh_gui(s.gui)
    &&& nothing_loaded(s)
    &&& s.bookmarks@ == saved.bookmarks@
    &&& s.links@ == saved.links@
}

/// One step of the running front end: the message changes the state into
/// `mid` and asks for the work of `u`; then the state is saved unless the step
/// just saved it.
pub open spec fn step_then_save(a: State, m: Message, mid: State, u: StateUpdate, b: State, r: Seq<Action>) -> bool {
    let (dirty, saving, write) = save_step(mid.gui.dirty, mid.gui.saving, !u.saves());
    &&& updated(a, m, mid, u)
    &&& b.gui.dirty == dirty
    &&& b.gui.saving == saving
    &&& b.gui.input_caches == mid.gui.input_caches
    &&& b.gui.filter == mid.gui.filter
    &&& b.gui.shift_pressed == mid.gui.shift_pressed
    &&& b.movies == mid.movies
    &&& b.movie_details == mid.movie_details
    &&& b.movie_posters == mid.movie_posters
    &&& b.episode_details == mid.episode_details
    &&& b.links == mid.links
    &&& b.bookmarks == mid.bookmarks
    &&& r == u.commands() + if write {
        seq![Action::Save]
    } else {
        Seq::<Action>::empty()
    }
}

/// The keys the front end listens to.
#[derive(Clone, Copy, Debug, PartialEq, Eq, Structural)]
pub enum Key {
    Tab,
    ArrowUp,
    ArrowDown,
    Shift,
    Other,
}

/// The message of a key press: tab moves the focus, shift with an arrow up or
/// down (and no other modifier) switches the window to full screen or back,
/// and shift itself is noted as held.
pub fn key_pressed(key: Key, only_shift_held: bool) -> (r: Option<Message>)
    ensures
        match key {
            Key::Tab => r matches Some(Message::TabPressed),
            Key::ArrowUp => if only_shift_held {
                r matches Some(Message::ToggleFullscreen(m)) && m == WindowMode::Fullscreen
            } else {
                r is None
            },
            Key::ArrowDown => if only_shift_held {
                r matches Some(Message::ToggleFullscreen(m)) && m == WindowMode::Windowed
            } else {
                r is None
            },
            Key::Shift => r matches Some(Message::ShiftPressed(s)) && s == ShiftPressed::True,
            Key::Other => r is None,
        },
{
    match key {
        Key::Tab => Some(Message::TabPressed),
        Key::ArrowUp => if only_shift_held {
            Some(Message::ToggleFullscreen(WindowMode::Fullscreen))
        } else {
            None
        },
        Key::ArrowDown => if only_shift_held {
            Some(Message::ToggleFullscreen(WindowMode::Windowed))
        } else {
            None
        },
        Key::Shift => Some(Message::ShiftPressed(ShiftPressed::True)),
        Key::Other => None,
    }
}

/// The message of a key release: letting go of shift is noted.
pub fn key_released(key: Key) -> (r: Option<Message>)
    ensures
        key == Key::Shift ==> (r matches Some(Message::ShiftPressed(s)) && s == ShiftPressed::False),
        key != Key::Shift ==> r is None,
{
    if key == Key::Shift {
        Some(Message::ShiftPressed(ShiftPressed::False))
    } else {
        None
    }
}

impl App {
    /// The title of the window.
    pub fn title(&self) -> (r: &'static str)
        ensures
            r@ == "Webworm"@,
    {
        "Webworm"
    }

    /// The front end as it starts: loading, and asking for the saved state.
    pub fn new() -> (r: (App, Vec<Action>))
        ensures
            r.0 == App::Loading,
            r.1@ == seq![Action::LoadState],
    {
        let actions = vec![Action::LoadState];
        assert(actions@ =~= seq![Action::LoadState]);
        (App::Loading, actions)
    }

    /// Runs with the saved state and asks for the details and posters of the
    /// bookmarked shows.
    pub fn as_loaded(&mut self, state: SavedState) -> (r: Vec<Action>)
        ensures
            *final(self) matches App::Loaded(s) && loaded_from(s, state),
            r@ == load_actions(state.bookmarks@),
    {
        let mut details: Vec<Action> = Vec::new();
        let mut posters: Vec<Action> = Vec::new();
        let mut i: usize = 0;
        while i < state.bookmarks.len()
            invariant
                i <= state.bookmarks@.len(),
                details@ == details_requests(state.bookmarks@.take(i as int)),
                posters@ == poster_loads(state.bookmarks@.take(i as int)),
            decreases state.bookmarks@.len() - i,
        {
            let movie = &state.bookmarks[i].movie;
            let id = movie.id;
            assert(state.bookmarks@.take(i + 1).drop_last() =~= state.bookmarks@.take(i as int));
            let ghost before = posters@;
            details.push(
                Action::SendRequest {
                    sent: RequestType::TvDetails { id },
                    answer_to: RequestType::TvDetails { id },
                },
            );
            match &movie.poster_path {
                Some(path) => posters.push(Action::LoadPoster { id, path: path.clone() }),
                None => {},
            }
            assert(posters@ =~= poster_loads(state.bookmarks@.take(i + 1)));
            i = i + 1;
        }
        assert(state.bookmarks@.take(i as int) =~= state.bookmarks@);
        let mut loaded = State::default();
        loaded.bookmarks = state.bookmarks;
        loaded.links = state.links;
        *self = App::Loaded(loaded);
        details.append(&mut posters);
        details
    }

    /// Reacts to a message.
    pub fn update(&mut self, message: Message) -> (r: Vec<Action>)
        requires
            *old(self) matches App::Loaded(s) ==> update_defined(s, message),
        ensures
            match *old(self) {
                App::Loading => match message {
                    Message::Loaded(Ok(saved)) => *final(self) matches App::Loaded(s) && loaded_from(
                        s,
                        saved,
                    ) && r@ == load_actions(saved.bookmarks@),
                    Message::Loaded(Err(LoadError::DeserializationError(text))) => *final(self)
                        == App::CreateNew(text) && r@ == seq![Action::FocusInput],
                    Message::Loaded(Err(_)) => *final(self) matches App::Loaded(s) && fresh_state(s)
                        && r@ == seq![Action::FocusInput],
                    _ => *final(self) == App::Loading && r@ == seq![Action::FocusInput],
                },
                App::Loaded(a) => *final(self) matches App::Loaded(b) && exists|
                    mid: State,
                    u: StateUpdate,
                | #[trigger] step_then_save(a, message, mid, u, b, r@),
                App::CreateNew(text) => r@.len() == 0 && match message {
                    Message::CreateNew => *final(self) matches App::Loaded(s) && fresh_state(s),
                    _ => *final(self) == App::CreateNew(text),
                },
            },
    {
        match self {
            App::Loading => {
                match message {
                    Message::Loaded(Ok(state)) => {
                        return self.as_loaded(state);
                    },
                    Message::Loaded(Err(e)) => {
                        *self = match e {
                            LoadError::DeserializationError(s) => App::CreateNew(s),
                            _ => App::Loaded(State::default()),
                        };
                    },
                    _ => {},
                }
                let r = vec![Action::FocusInput];
                assert(r@ =~= seq![Action::FocusInput]);
                r
            },
            App::Loaded(state) => {
                let ghost a = *state;
                let update = state.update_state(message);
                let ghost mid = *state;
                let ghost u = update;
                let saved = update.has_just_saved();
                let mut save = state.save(saved);
                let mut cmds = update.command();
                cmds.append(&mut save);
                assert(step_then_save(a, message, mid, u, *state, cmds@));
                cmds
            },
            App::CreateNew(_) => {
                match message {
                    Message::CreateNew => {
                        *self = App::Loaded(State::default());
                    },
                    _ => {},
                }
                Vec::new()
            },
        }
    }
}

/// The running front end keeps its state saved: after every step a state
/// with unsaved changes has a write under way, and a write is only asked for
/// when none was under way.
pub proof fn law_changes_are_being_saved(a: State, m: Message, mid: State, u: StateUpdate, b: State, r: Seq<Action>)
    requires
        step_then_save(a, m, mid, u, b, r),
    ensures
        b.gui.dirty ==> b.gui.saving,
        r.len() > u.commands().len() ==> !mid.gui.saving && b.gui.saving,
{
}

/// Loading bookmarks asks for the details of every show once, in the order
/// of the bookmarks, each answered as asked.
pub proof fn law_details_asked_for_each_bookmark(bs: Seq<Bookmark>)
    ensures
        details_requests(bs).len() == bs.len(),
        forall|k: int|
            0 <= k < bs.len() ==> #[trigger] details_requests(bs)[k] == (Action::SendRequest {
                sent: RequestType::TvDetails { id: bs[k].movie.id },
                answer_to: RequestType::TvDetails { id: bs[k].movie.id },
            }),
    decreases bs.len(),
{
    if bs.len() > 0 {
        law_details_asked_for_each_bookmark(bs.drop_last());
        let prev = details_requests(bs.drop_last());
        assert forall|k: int| 0 <= k < bs.len() implies #[trigger] details_requests(bs)[k]
            == (Action::SendRequest {
            sent: RequestType::TvDetails { id: bs[k].movie.id },
            answer_to: RequestType::TvDetails { id: bs[k].movie.id },
        }) by {
            if k < bs.len() - 1 {
                assert(details_requests(bs)[k] == prev[k]);
                assert(bs.drop_last()[k] == bs[k]);
            }
        }
    }
}

} // verus!
