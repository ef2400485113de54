use webworm::bookmark::Bookmark;
use webworm::filter::Filter;
use webworm::gui::{key_pressed, key_released, App, Key};
use webworm::id::{EpisodeId, MovieId};
use webworm::keyed_map::KeyedMap;
use webworm::message::{Message, ShiftPressed};
use webworm::movie::TmdbMovie;
use webworm::movie_details::{Episode, EpisodeDetails, MovieDetails, Season, SeasonEpisode, TotalEpisode};
use webworm::save::{LoadError, SavedState};
use webworm::state::{InputKind, State};
use webworm::tmdb::RequestType;
use webworm::update::{Action, WindowMode};
use webworm::view::{card_rows, current_episode_lines, latest_text, release_text};

fn movie(id: usize, name: &str, poster: Option<&str>) -> TmdbMovie {
    TmdbMovie {
        id: MovieId(id),
        genre_ids: vec![],
        overview: String::new(),
        vote_average_bits: 0,
        original_name: name.to_string(),
        name: name.to_string(),
        popularity_bits: 0,
        poster_path: poster.map(|p| p.to_string()),
    }
}

fn details_request(id: usize) -> Action {
    Action::SendRequest {
        sent: RequestType::TvDetails { id: MovieId(id) },
        answer_to: RequestType::TvDetails { id: MovieId(id) },
    }
}

#[test]
fn the_app_starts_by_loading() {
    let (app, actions) = App::new();
    assert!(matches!(app, App::Loading));
    assert_eq!(actions, vec![Action::LoadState]);
    assert_eq!(app.title(), "Webworm");
}

#[test]
fn an_unreadable_state_asks_to_start_afresh() {
    let (mut app, _) = App::new();
    let r = app.update(Message::Loaded(Err(LoadError::DeserializationError("bad json".to_string()))));
    assert_eq!(r, vec![Action::FocusInput]);
    assert!(matches!(&app, App::CreateNew(e) if e == "bad json"));
    assert!(app.update(Message::TabPressed).is_empty());
    assert!(matches!(&app, App::CreateNew(_)));
    assert!(app.update(Message::CreateNew).is_empty());
    assert!(matches!(&app, App::Loaded(s) if s.bookmarks.is_empty()));
}

#[test]
fn other_load_errors_start_empty() {
    let (mut app, _) = App::new();
    assert_eq!(app.update(Message::TabPressed), vec![Action::FocusInput]);
    assert!(matches!(app, App::Loading));
    assert_eq!(app.update(Message::Loaded(Err(LoadError::ReadFile))), vec![Action::FocusInput]);
    assert!(matches!(app, App::Loaded(_)));
}

#[test]
fn a_loaded_state_asks_for_details_then_posters() {
    let (mut app, _) = App::new();
    let saved = SavedState {
        bookmarks: vec![
            Bookmark::from(&movie(1, "A", Some("a.jpg"))),
            Bookmark::from(&movie(2, "B", None)),
            Bookmark::from(&movie(3, "C", Some("c.jpg"))),
        ],
        links: KeyedMap::new(),
    };
    let r = app.update(Message::Loaded(Ok(saved)));
    assert_eq!(
        r,
        vec![
            details_request(1),
            details_request(2),
            details_request(3),
            Action::LoadPoster { id: MovieId(1), path: "a.jpg".to_string() },
            Action::LoadPoster { id: MovieId(3), path: "c.jpg".to_string() },
        ]
    );
    assert!(matches!(&app, App::Loaded(s) if s.bookmarks.len() == 3));
}

#[test]
fn every_change_of_the_running_app_is_saved_once_at_a_time() {
    let (mut app, _) = App::new();
    app.update(Message::Loaded(Err(LoadError::OpenFile)));
    let r = app.update(Message::ShiftPressed(ShiftPressed::True));
    assert_eq!(r, vec![Action::Save]);
    let r = app.update(Message::TabPressed);
    assert_eq!(r, vec![Action::FocusPrevious]);
    let r = app.update(Message::Saved(Ok(())));
    assert_eq!(r, vec![Action::Save]);
    let r = app.update(Message::Saved(Ok(())));
    assert!(r.is_empty());
    if let App::Loaded(s) = &app {
        assert!(!s.gui.dirty && !s.gui.saving);
    } else {
        panic!("the app runs");
    }
}

#[test]
fn keys_become_messages() {
    assert!(matches!(key_pressed(Key::Tab, false), Some(Message::TabPressed)));
    assert!(matches!(
        key_pressed(Key::ArrowUp, true),
        Some(Message::ToggleFullscreen(WindowMode::Fullscreen))
    ));
    assert!(matches!(
        key_pressed(Key::ArrowDown, true),
        Some(Message::ToggleFullscreen(WindowMode::Windowed))
    ));
    assert!(key_pressed(Key::ArrowUp, false).is_none());
    assert!(matches!(key_pressed(Key::Shift, false), Some(Message::ShiftPressed(ShiftPressed::True))));
    assert!(key_pressed(Key::Other, true).is_none());
    assert!(matches!(key_released(Key::Shift), Some(Message::ShiftPressed(ShiftPressed::False))));
    assert!(key_released(Key::Tab).is_none());
}

fn season(number: usize, count: usize) -> Season {
    Season {
        id: number,
        name: format!("Season {number}"),
        episode_count: count,
        season_number: number,
        overview: String::new(),
        poster_path: None,
    }
}

fn episode_details(e: usize, s: usize, air_date: Option<&str>) -> EpisodeDetails {
    EpisodeDetails {
        episode: SeasonEpisode { episode_number: e, season_number: s },
        name: format!("Episode {e}"),
        air_date: air_date.map(|d| d.to_string()),
        overview: String::new(),
    }
}

fn details(id: usize) -> MovieDetails {
    MovieDetails {
        id: MovieId(id),
        seasons: vec![season(1, 10), season(2, 8)],
        in_production: true,
        last_air_date: None,
        number_of_seasons: 2,
        number_of_episodes: 18,
        last_episode_to_air: Some(episode_details(5, 2, None)),
        next_episode_to_air: None,
        fixed: false,
    }
}

#[test]
fn the_lists_show_bookmarks_by_progress_and_search() {
    let mut s = State::default();
    let mut a = Bookmark::from(&movie(1, "Alpha Show", None));
    let b = Bookmark::from(&movie(2, "Beta", None));
    let c = Bookmark::from(&movie(3, "Another", None));
    a.finished = true;
    s.bookmarks = vec![a, b, c];
    assert_eq!(s.listed_bookmarks(), vec![1, 2]);
    assert_eq!(s.control_info(), Some("2 movies left".to_string()));
    s.gui.input_caches.set(InputKind::SearchField, "an".to_string());
    assert_eq!(s.listed_bookmarks(), vec![2]);
    s.gui.filter = Filter::Completed;
    s.gui.input_caches.set(InputKind::SearchField, String::new());
    assert_eq!(s.listed_bookmarks(), vec![0]);
    assert_eq!(s.control_info(), Some("1 movies left".to_string()));
    s.gui.filter = Filter::Search;
    assert_eq!(s.listed_bookmarks(), Vec::<usize>::new());
    assert_eq!(s.control_info(), None);
    s.movies = vec![movie(1, "x", None), movie(2, "y", None), movie(3, "z", None)];
    assert_eq!(s.control_info(), Some("3 results found for search".to_string()));
    s.gui.filter = Filter::Details(MovieId(1));
    assert_eq!(s.control_info(), None);
    assert_eq!(State::default().control_info(), None);
}

#[test]
fn the_details_view_shows_the_current_episode() {
    let mut s = State::default();
    s.bookmarks.push(Bookmark::from(&movie(1, "A", None)));
    assert!(s.current_episode_details(MovieId(1)).is_none());
    s.movie_details.insert(MovieId(1), details(1));
    let placed = s.current_episode_details(MovieId(1)).unwrap();
    assert_eq!(placed.episode, SeasonEpisode { episode_number: 1, season_number: 1 });
    assert_eq!(placed.name, "");
    let id = EpisodeId(MovieId(1), Episode::Total(TotalEpisode { episode: 1 }));
    s.episode_details.insert(id, episode_details(1, 1, Some("2020-02-02")));
    assert_eq!(s.current_episode_details(MovieId(1)).unwrap().name, "Episode 1");
}

#[test]
fn card_and_detail_texts() {
    let mut b = Bookmark::from(&movie(1, "A", None));
    assert_eq!(b.progress_text(), "PROGRESS: 1E");
    b.current_episode = Episode::Seasonal(SeasonEpisode { episode_number: 3, season_number: 2 });
    assert_eq!(b.progress_text(), "PROGRESS: 3E · 2S");
    let d = details(1);
    assert_eq!(latest_text(Some(&d)), "LATEST: 5E · 2S");
    let mut unpublished = details(1);
    unpublished.last_episode_to_air = None;
    assert_eq!(latest_text(Some(&unpublished)), "no latest episode");
    assert_eq!(latest_text(None), "details not loaded");
    assert_eq!(release_text(&episode_details(6, 2, Some("2025-03-01"))), "Releases at 2025-03-01");
    assert_eq!(release_text(&episode_details(6, 2, None)), "Releases at ---");
}

#[test]
fn cards_are_laid_out_three_by_three() {
    assert_eq!(card_rows(&[]), vec![vec![None, None, None]]);
    assert_eq!(
        card_rows(&[4, 7, 9, 12]),
        vec![vec![Some(4), Some(7), Some(9)], vec![Some(12), None, None]]
    );
    assert_eq!(
        card_rows(&[1, 2, 3]),
        vec![vec![Some(1), Some(2), Some(3)], vec![None, None, None]]
    );
}

#[test]
fn the_current_episode_lines() {
    assert_eq!(current_episode_lines(None), ("TITLE".to_string(), "---".to_string()));
    let d = episode_details(2, 3, None);
    assert_eq!(current_episode_lines(Some(&d)), ("Episode 2".to_string(), "2E · 3S".to_string()));
}
