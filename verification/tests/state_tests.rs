use webworm::bookmark::Bookmark;
use webworm::filter::Filter;
use webworm::id::{EpisodeId, MovieId};
use webworm::link::Link;
use webworm::message::{BookmarkMessage, LinkMessage, Message, Response, ShiftPressed};
use webworm::movie::TmdbMovie;
use webworm::movie_details::{Episode, EpisodeDetails, MovieDetails, Season, SeasonEpisode, TotalEpisode};
use webworm::state::{InputCaches, InputKind, State};
use webworm::tmdb::{RequestType, TmdbResponse};
use webworm::update::{Action, StateUpdate, WindowMode};

fn movie(id: usize, name: &str, poster: Option<&str>) -> TmdbMovie {
    TmdbMovie {
        id: MovieId(id),
        genre_ids: vec![],
        overview: String::new(),
        vote_average_bits: 0,
        original_name: name.to_string(),
        name: name.to_string(),
        popularity_bits: 0,
        poster_path: poster.map(|p| p.to_string()),
    }
}

fn season(number: usize, count: usize) -> Season {
    Season {
        id: number,
        name: format!("Season {number}"),
        episode_count: count,
        season_number: number,
        overview: String::new(),
        poster_path: None,
    }
}

fn episode_details(e: usize, s: usize) -> EpisodeDetails {
    EpisodeDetails {
        episode: SeasonEpisode { episode_number: e, season_number: s },
        name: format!("Episode {e}"),
        air_date: None,
        overview: String::new(),
    }
}

fn details(id: usize, last: (usize, usize)) -> MovieDetails {
    MovieDetails {
        id: MovieId(id),
        seasons: vec![season(1, 10), season(2, 8)],
        in_production: true,
        last_air_date: None,
        number_of_seasons: 2,
        number_of_episodes: 18,
        last_episode_to_air: Some(episode_details(last.0, last.1)),
        next_episode_to_air: None,
        fixed: false,
    }
}

fn seasonal(e: usize, s: usize) -> Episode {
    Episode::Seasonal(SeasonEpisode { episode_number: e, season_number: s })
}

fn send(r: RequestType) -> Action {
    match &r {
        RequestType::TvSearch { query } => Action::SendRequest {
            sent: RequestType::TvSearch { query: query.clone() },
            answer_to: r,
        },
        RequestType::TvDetails { id } => Action::SendRequest { sent: RequestType::TvDetails { id: *id }, answer_to: r },
        RequestType::EpisodeDetails { id } => Action::SendRequest { sent: RequestType::EpisodeDetails { id: *id }, answer_to: r },
        RequestType::Poster { .. } => panic!("posters are loaded"),
    }
}

fn commands(u: StateUpdate) -> Vec<Action> {
    u.command()
}

fn state_with_bookmark() -> State {
    let mut s = State::default();
    s.movies.push(movie(1, "Show", Some("p1.jpg")));
    let u = s.update_state(Message::AddBookmark(MovieId(1)));
    assert!(commands(u).is_empty());
    s
}

#[test]
fn input_kinds_have_their_own_slot() {
    assert_eq!(InputKind::SearchField.index(), 0);
    assert_eq!(InputKind::EpisodeInput.index(), 1);
    assert_eq!(InputKind::SeasonInput.index(), 2);
    assert_eq!(InputKind::LinkInput.index(), 3);
    let mut c = InputCaches::default();
    c.set(InputKind::LinkInput, "link".to_string());
    assert_eq!(c.get(InputKind::LinkInput), "link");
    assert_eq!(c.get(InputKind::SearchField), "");
}

#[test]
fn save_writes_once_and_marks_later_changes_dirty() {
    let mut s = State::default();
    assert_eq!(s.save(false), vec![Action::Save]);
    assert!(s.gui.saving && !s.gui.dirty);
    assert_eq!(s.save(false), vec![]);
    assert!(s.gui.saving && s.gui.dirty);
    let u = s.update_state(Message::Saved(Ok(())));
    assert!(u.has_just_saved());
    assert!(!s.gui.saving);
    assert_eq!(s.save(true), vec![Action::Save]);
    assert!(s.gui.saving && !s.gui.dirty);
    assert_eq!(s.save(true), vec![]);
    assert!(!s.gui.dirty);
}

#[test]
fn state_update_collects_commands() {
    let u = StateUpdate::new(vec![Action::FocusNext]);
    assert!(!u.has_just_saved());
    let u = u.add_command(vec![Action::FocusPrevious]).just_saved();
    assert!(u.has_just_saved());
    assert_eq!(u.command(), vec![Action::FocusNext, Action::FocusPrevious]);
    let d = StateUpdate::default();
    assert!(!d.has_just_saved());
    assert!(d.command().is_empty());
}

#[test]
fn typed_search_is_sent_and_cleared() {
    let mut s = State::default();
    s.update_state(Message::FilterChanged(Filter::Search));
    s.update_state(Message::InputChanged(InputKind::SearchField, "the office".to_string()));
    let u = s.update_state(Message::InputSubmit(InputKind::SearchField));
    assert_eq!(commands(u), vec![send(RequestType::TvSearch { query: "the office".to_string() })]);
    assert_eq!(s.gui.input_caches.get(InputKind::SearchField), "");
}

#[test]
fn search_submit_outside_the_search_does_nothing() {
    let mut s = State::default();
    s.update_state(Message::InputChanged(InputKind::SearchField, "x".to_string()));
    let u = s.update_state(Message::InputSubmit(InputKind::SearchField));
    assert!(commands(u).is_empty());
    assert_eq!(s.gui.input_caches.get(InputKind::SearchField), "x");
}

#[test]
fn search_results_ask_for_details_and_posters() {
    let mut s = State::default();
    let found = TmdbResponse { results: vec![movie(1, "A", Some("a.jpg")), movie(2, "B", None)] };
    let u = s.update_state(Message::RequestResponse(
        Some(Response::TvSearch(found)),
        RequestType::TvSearch { query: "x".to_string() },
    ));
    assert_eq!(s.movies.len(), 2);
    assert_eq!(
        commands(u),
        vec![
            send(RequestType::TvDetails { id: MovieId(1) }),
            Action::LoadPoster { id: MovieId(1), path: "a.jpg".to_string() },
            send(RequestType::TvDetails { id: MovieId(2) }),
        ]
    );
}

#[test]
fn missing_or_unreadable_replies_change_nothing() {
    let mut s = State::default();
    let u = s.update_state(Message::RequestResponse(None, RequestType::TvDetails { id: MovieId(1) }));
    assert!(commands(u).is_empty());
    let u = s.update_state(Message::RequestResponse(
        Some(Response::Unreadable),
        RequestType::TvSearch { query: "x".to_string() },
    ));
    assert!(commands(u).is_empty());
    assert!(s.movies.is_empty());
}

#[test]
fn a_movie_is_bookmarked_once() {
    let mut s = state_with_bookmark();
    assert_eq!(s.bookmarks.len(), 1);
    s.update_state(Message::AddBookmark(MovieId(1)));
    assert_eq!(s.bookmarks.len(), 1);
    s.update_state(Message::AddBookmark(MovieId(9)));
    assert_eq!(s.bookmarks.len(), 1);
    assert!(s.get_bookmark(MovieId(1)).is_some());
    assert!(s.get_bookmark(MovieId(9)).is_none());
}

#[test]
fn the_details_view_fills_its_inputs_and_asks_for_the_episode() {
    let mut s = state_with_bookmark();
    let u = s.update_state(Message::FilterChanged(Filter::Details(MovieId(1))));
    let id = EpisodeId(MovieId(1), Episode::Total(TotalEpisode { episode: 1 }));
    assert_eq!(commands(u), vec![send(RequestType::EpisodeDetails { id })]);
    assert_eq!(s.gui.input_caches.get(InputKind::EpisodeInput), "1");
    assert_eq!(s.gui.input_caches.get(InputKind::SeasonInput), "1");
    assert_eq!(s.gui.input_caches.get(InputKind::LinkInput), "");
    s.update_state(Message::RequestResponse(
        Some(Response::EpisodeDetails(episode_details(1, 1))),
        RequestType::EpisodeDetails { id },
    ));
    assert!(s.episode_details.contains_key(&id));
    let u = s.update_state(Message::FilterChanged(Filter::Details(MovieId(1))));
    assert!(commands(u).is_empty());
}

#[test]
fn removing_the_shown_bookmark_goes_back_to_the_list() {
    let mut s = state_with_bookmark();
    s.update_state(Message::FilterChanged(Filter::Details(MovieId(1))));
    let u = s.update_state(Message::RemoveBookmark(MovieId(1)));
    assert!(commands(u).is_empty());
    assert!(s.bookmarks.is_empty());
    assert_eq!(s.gui.filter, Filter::Bookmarks);
    s.update_state(Message::RemoveBookmark(MovieId(1)));
    assert!(s.bookmarks.is_empty());
}

#[test]
fn tab_moves_the_focus_by_the_shift_key() {
    let mut s = State::default();
    assert_eq!(commands(s.update_state(Message::TabPressed)), vec![Action::FocusNext]);
    s.update_state(Message::ShiftPressed(ShiftPressed::True));
    assert_eq!(commands(s.update_state(Message::TabPressed)), vec![Action::FocusPrevious]);
    assert_eq!(
        commands(s.update_state(Message::ToggleFullscreen(WindowMode::Fullscreen))),
        vec![Action::ChangeWindowMode(WindowMode::Fullscreen)]
    );
}

#[test]
fn posters_are_kept() {
    let mut s = State::default();
    s.update_state(Message::RequestPoster(MovieId(4), None));
    assert!(s.movie_posters.get(&MovieId(4)).is_none());
    s.update_state(Message::RequestPoster(MovieId(4), Some(vec![1, 2, 3])));
    assert!(s.movie_posters.get(&MovieId(4)).is_some());
    let u = s.update_state(Message::ExecuteRequest(RequestType::Poster { id: MovieId(4), path: "x.jpg".to_string() }));
    assert_eq!(commands(u), vec![Action::LoadPoster { id: MovieId(4), path: "x.jpg".to_string() }]);
}

#[test]
fn fresh_details_move_a_finished_bookmark_on() {
    let mut s = state_with_bookmark();
    s.update_state(Message::BookmarkMessage(MovieId(1), BookmarkMessage::SetS("2".to_string(), None)));
    s.bookmarks[0].current_episode = seasonal(5, 2);
    s.bookmarks[0].finished = true;
    s.update_state(Message::RequestResponse(
        Some(Response::TvDetails(details(1, (6, 2)))),
        RequestType::TvDetails { id: MovieId(1) },
    ));
    assert_eq!(s.bookmarks[0].current_episode, seasonal(6, 2));
    assert!(!s.bookmarks[0].finished);
    assert!(s.movie_details.get(&MovieId(1)).is_some());
}

#[test]
fn fresh_details_place_a_total_count_in_its_season() {
    let mut s = state_with_bookmark();
    s.update_state(Message::RequestResponse(
        Some(Response::TvDetails(details(1, (6, 2)))),
        RequestType::TvDetails { id: MovieId(1) },
    ));
    assert_eq!(s.bookmarks[0].current_episode, seasonal(1, 1));
    assert!(!s.bookmarks[0].finished);
}

#[test]
fn a_bookmark_message_asks_for_the_new_episode() {
    let mut s = state_with_bookmark();
    s.bookmarks[0].current_episode = seasonal(3, 1);
    let u = s.update_state(Message::BookmarkMessage(MovieId(1), BookmarkMessage::IncrE(Some(details(1, (5, 2))))));
    assert_eq!(s.bookmarks[0].current_episode, seasonal(4, 1));
    let id = EpisodeId(MovieId(1), seasonal(4, 1));
    assert_eq!(commands(u), vec![send(RequestType::EpisodeDetails { id })]);
    let u = s.update_state(Message::BookmarkMessage(MovieId(8), BookmarkMessage::ToggleSync));
    assert!(commands(u).is_empty());
}

#[test]
fn typed_episode_moves_the_bookmark_of_the_details_view() {
    let mut s = state_with_bookmark();
    s.update_state(Message::RequestResponse(
        Some(Response::TvDetails(details(1, (6, 2)))),
        RequestType::TvDetails { id: MovieId(1) },
    ));
    s.update_state(Message::FilterChanged(Filter::Details(MovieId(1))));
    s.update_state(Message::InputChanged(InputKind::EpisodeInput, "7".to_string()));
    s.update_state(Message::InputSubmit(InputKind::EpisodeInput));
    assert_eq!(s.bookmarks[0].current_episode, seasonal(7, 1));
    s.update_state(Message::InputChanged(InputKind::SeasonInput, "2".to_string()));
    s.update_state(Message::InputSubmit(InputKind::SeasonInput));
    assert_eq!(s.bookmarks[0].current_episode, seasonal(6, 2));
}

#[test]
fn a_typed_link_is_stored_and_copied() {
    let mut s = state_with_bookmark();
    s.update_state(Message::FilterChanged(Filter::Details(MovieId(1))));
    s.update_state(Message::InputChanged(InputKind::LinkInput, "no placeholder".to_string()));
    s.update_state(Message::InputSubmit(InputKind::LinkInput));
    assert!(s.links.get(&MovieId(1)).is_none());
    s.update_state(Message::InputChanged(InputKind::LinkInput, "https://x.org/ep{e}".to_string()));
    s.update_state(Message::InputSubmit(InputKind::LinkInput));
    assert_eq!(s.links.get(&MovieId(1)).unwrap().string_link, "https://x.org/ep{e}");
    s.bookmarks[0].current_episode = Episode::Total(TotalEpisode { episode: 3 });
    let u = s.update_state(Message::LinkMessage(
        MovieId(1),
        LinkMessage::LinkToClipboard(None, ShiftPressed::True),
    ));
    assert_eq!(commands(u), vec![Action::CopyToClipboard("https://x.org/ep3".to_string())]);
    assert!(s.links.get(&MovieId(1)).is_some());
    let u = s.update_state(Message::LinkMessage(
        MovieId(2),
        LinkMessage::LinkToClipboard(None, ShiftPressed::True),
    ));
    assert!(commands(u).is_empty());
}

#[test]
fn episode_requests_are_numbered_as_the_database_numbers_them() {
    let mut s = state_with_bookmark();
    let mut d = details(1, (15, 2));
    d.next_episode_to_air = None;
    s.update_state(Message::RequestResponse(
        Some(Response::TvDetails(d)),
        RequestType::TvDetails { id: MovieId(1) },
    ));
    assert!(s.movie_details.get(&MovieId(1)).unwrap().fixed);
    let id = EpisodeId(MovieId(1), seasonal(3, 2));
    let u = s.update_state(Message::ExecuteRequest(RequestType::EpisodeDetails { id }));
    assert_eq!(
        commands(u),
        vec![Action::SendRequest {
            sent: RequestType::EpisodeDetails { id: EpisodeId(MovieId(1), seasonal(13, 2)) },
            answer_to: RequestType::EpisodeDetails { id },
        }]
    );
}

#[test]
fn bookmark_from_a_movie_of_the_search() {
    let b = Bookmark::from(&movie(3, "X", None));
    assert_eq!(b.movie.id, MovieId(3));
}

#[test]
fn messages_the_front_end_would_stop_on_are_told_apart() {
    let mut s = state_with_bookmark();
    let fine = Message::ExecuteRequest(RequestType::TvDetails { id: MovieId(1) });
    assert!(s.can_update(&fine));
    let mut broken = details(1, (5, 7));
    broken.next_episode_to_air = None;
    let reply = Message::RequestResponse(
        Some(Response::TvDetails(broken)),
        RequestType::TvDetails { id: MovieId(1) },
    );
    assert!(!s.can_update(&reply));
    s.update_state(Message::BookmarkMessage(MovieId(1), BookmarkMessage::ToggleSync));
    s.bookmarks[0].current_episode = Episode::Total(TotalEpisode { episode: usize::MAX });
    assert!(!s.can_update(&Message::BookmarkMessage(MovieId(1), BookmarkMessage::IncrE(None))));
    assert!(s.can_update(&Message::BookmarkMessage(MovieId(1), BookmarkMessage::DecrE(None))));
    assert!(s.can_update(&Message::BookmarkMessage(MovieId(5), BookmarkMessage::IncrE(None))));
}

#[test]
fn no_movie_gets_two_bookmarks() {
    let mut s = state_with_bookmark();
    s.movies.push(movie(2, "Other", None));
    for m in [
        Message::AddBookmark(MovieId(2)),
        Message::AddBookmark(MovieId(1)),
        Message::AddBookmark(MovieId(2)),
        Message::RemoveBookmark(MovieId(1)),
        Message::AddBookmark(MovieId(1)),
        Message::AddBookmark(MovieId(1)),
    ] {
        s.update_state(m);
        let ids: Vec<usize> = s.bookmarks.iter().map(|b| b.movie.id.0).collect();
        for (i, a) in ids.iter().enumerate() {
            assert!(!ids[i + 1..].contains(a));
        }
    }
    assert_eq!(s.bookmarks.len(), 2);
}

#[test]
fn removing_another_bookmark_keeps_the_details_view() {
    let mut s = state_with_bookmark();
    s.movies.push(movie(2, "Other", None));
    s.update_state(Message::AddBookmark(MovieId(2)));
    s.update_state(Message::FilterChanged(Filter::Details(MovieId(2))));
    s.update_state(Message::RemoveBookmark(MovieId(1)));
    assert_eq!(s.gui.filter, Filter::Details(MovieId(2)));
    assert!(s.get_bookmark(MovieId(2)).is_some());
}

#[test]
fn a_season_link_is_copied_whatever_the_season_sizes() {
    let mut s = state_with_bookmark();
    s.update_state(Message::FilterChanged(Filter::Details(MovieId(1))));
    s.update_state(Message::InputChanged(InputKind::LinkInput, "https://x.org/{s}x{e}".to_string()));
    s.update_state(Message::InputSubmit(InputKind::LinkInput));
    s.bookmarks[0].current_episode = seasonal(4, 3);
    let mut huge = details(1, (4, 3));
    huge.seasons = vec![season(1, usize::MAX), season(2, usize::MAX), season(3, 8)];
    let message = Message::LinkMessage(
        MovieId(1),
        LinkMessage::LinkToClipboard(Some(huge.clone()), ShiftPressed::True),
    );
    assert!(s.can_update(&message));
    let u = s.update_state(message);
    assert_eq!(commands(u), vec![Action::CopyToClipboard("https://x.org/3x4".to_string())]);
    let mut plain = state_with_bookmark();
    plain.update_state(Message::FilterChanged(Filter::Details(MovieId(1))));
    plain.update_state(Message::InputChanged(InputKind::LinkInput, "https://x.org/ep{e}".to_string()));
    plain.update_state(Message::InputSubmit(InputKind::LinkInput));
    plain.bookmarks[0].current_episode = seasonal(4, 3);
    assert!(!plain.can_update(&Message::LinkMessage(
        MovieId(1),
        LinkMessage::LinkToClipboard(Some(huge), ShiftPressed::True),
    )));
}
