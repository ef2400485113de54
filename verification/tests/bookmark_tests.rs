use webworm::bookmark::{Bookmark, SyncMode};
use webworm::id::{EpisodeId, MovieId};
use webworm::message::BookmarkMessage;
use webworm::movie::TmdbMovie;
use webworm::movie_details::{Episode, EpisodeDetails, MovieDetails, Season, SeasonEpisode, TotalEpisode};

fn movie(id: usize, name: &str) -> TmdbMovie {
    TmdbMovie {
        id: MovieId(id),
        genre_ids: vec![18],
        overview: "A show".to_string(),
        vote_average_bits: 7.5f32.to_bits(),
        original_name: name.to_string(),
        name: name.to_string(),
        popularity_bits: 1.0f32.to_bits(),
        poster_path: None,
    }
}

fn season(number: usize, count: usize) -> Season {
    Season {
        id: number,
        name: format!("Season {number}"),
        episode_count: count,
        season_number: number,
        overview: String::new(),
        poster_path: None,
    }
}

fn details(last: (usize, usize)) -> MovieDetails {
    MovieDetails {
        id: MovieId(1),
        seasons: vec![season(1, 10), season(2, 8)],
        in_production: true,
        last_air_date: None,
        number_of_seasons: 2,
        number_of_episodes: 18,
        last_episode_to_air: Some(EpisodeDetails {
            episode: SeasonEpisode { episode_number: last.0, season_number: last.1 },
            name: String::new(),
            air_date: None,
            overview: String::new(),
        }),
        next_episode_to_air: None,
        fixed: false,
    }
}

fn seasonal(e: usize, s: usize) -> Episode {
    Episode::Seasonal(SeasonEpisode { episode_number: e, season_number: s })
}

#[test]
fn a_new_bookmark_starts_at_the_first_episode() {
    let b = Bookmark::from(&movie(1, "Show"));
    assert_eq!(b.current_episode, Episode::Total(TotalEpisode { episode: 1 }));
    assert!(!b.finished);
    assert_eq!(b.sync_mode, SyncMode::Tmdb);
    assert_eq!(b.current_episode_id(), EpisodeId(MovieId(1), Episode::Total(TotalEpisode { episode: 1 })));
}

#[test]
fn increment_follows_the_database_when_synced() {
    let mut b = Bookmark::from(&movie(1, "Show"));
    b.current_episode = seasonal(10, 1);
    b.apply(BookmarkMessage::IncrE(Some(details((5, 2)))));
    assert_eq!(b.current_episode, seasonal(1, 2));
    assert!(!b.finished);
    b.current_episode = seasonal(5, 2);
    b.apply(BookmarkMessage::IncrE(Some(details((5, 2)))));
    assert_eq!(b.current_episode, seasonal(5, 2));
    assert!(b.finished);
    b.apply(BookmarkMessage::IncrE(None));
    assert_eq!(b.current_episode, seasonal(5, 2));
}

#[test]
fn decrement_first_clears_the_finished_mark() {
    let mut b = Bookmark::from(&movie(1, "Show"));
    b.current_episode = seasonal(5, 2);
    b.finished = true;
    b.apply(BookmarkMessage::DecrE(Some(details((5, 2)))));
    assert_eq!(b.current_episode, seasonal(5, 2));
    assert!(!b.finished);
    b.apply(BookmarkMessage::DecrE(Some(details((5, 2)))));
    assert_eq!(b.current_episode, seasonal(4, 2));
}

#[test]
fn unsynced_bookmarks_count_freely() {
    let mut b = Bookmark::from(&movie(1, "Show"));
    b.apply(BookmarkMessage::ToggleSync);
    assert_eq!(b.sync_mode, SyncMode::NoSync);
    b.apply(BookmarkMessage::IncrE(None));
    b.apply(BookmarkMessage::IncrE(None));
    assert_eq!(b.current_episode, Episode::Total(TotalEpisode { episode: 3 }));
    b.apply(BookmarkMessage::DecrE(None));
    assert_eq!(b.current_episode, Episode::Total(TotalEpisode { episode: 2 }));
    b.apply(BookmarkMessage::SetE("40".to_string(), None));
    assert_eq!(b.current_episode, Episode::Total(TotalEpisode { episode: 40 }));
    b.apply(BookmarkMessage::SetS("3".to_string(), None));
    assert_eq!(b.current_episode, seasonal(40, 2));
    b.apply(BookmarkMessage::ToggleSync);
    assert_eq!(b.sync_mode, SyncMode::Tmdb);
}

#[test]
fn set_episode_is_capped_by_the_season_and_the_last_published() {
    let mut b = Bookmark::from(&movie(1, "Show"));
    b.current_episode = seasonal(2, 1);
    b.finished = true;
    b.apply(BookmarkMessage::SetE("25".to_string(), Some(details((5, 2)))));
    assert_eq!(b.current_episode, seasonal(10, 1));
    assert!(!b.finished);
    b.current_episode = seasonal(2, 2);
    b.apply(BookmarkMessage::SetE("7".to_string(), Some(details((5, 2)))));
    assert_eq!(b.current_episode, seasonal(5, 2));
    b.apply(BookmarkMessage::SetE("seven".to_string(), Some(details((5, 2)))));
    assert_eq!(b.current_episode, seasonal(5, 2));
}

#[test]
fn set_season_moves_to_an_existing_season() {
    let mut b = Bookmark::from(&movie(1, "Show"));
    b.current_episode = seasonal(9, 1);
    b.apply(BookmarkMessage::SetS("2".to_string(), Some(details((5, 2)))));
    assert_eq!(b.current_episode, seasonal(5, 2));
    b.apply(BookmarkMessage::SetS("9".to_string(), Some(details((5, 2)))));
    assert_eq!(b.current_episode, seasonal(5, 2));
}

#[test]
fn movies_match_by_lower_cased_name() {
    let m = movie(1, "The Office");
    assert!(m.matches_filter("office"));
    assert!(m.matches_filter(""));
    assert!(!m.matches_filter("Office"));
    assert!(!m.matches_filter("parks"));
}

#[test]
fn a_search_result_shows_the_first_thirty_words() {
    let mut m = movie(1, "Show");
    m.overview = "A  family\tof four moves to a new town.".to_string();
    assert_eq!(m.description(), "A family of four moves to a new town....");
    let long: Vec<String> = (0..40).map(|i| format!("w{i}")).collect();
    m.overview = long.join(" ");
    let expected = format!("{}...", long[..30].join(" "));
    assert_eq!(m.description(), expected);
    m.overview = String::new();
    assert_eq!(m.description(), "...");
}

#[test]
fn a_synced_bookmark_is_never_set_to_episode_zero() {
    let mut b = Bookmark::from(&movie(1, "Show"));
    b.current_episode = seasonal(4, 2);
    b.apply(BookmarkMessage::SetE("0".to_string(), Some(details((5, 2)))));
    assert_eq!(b.current_episode, seasonal(1, 2));
    b.current_episode = seasonal(0, 1);
    b.apply(BookmarkMessage::SetS("1".to_string(), Some(details((5, 2)))));
    assert_eq!(b.current_episode, seasonal(1, 1));
}

#[test]
fn increment_then_decrement_at_the_last_published_keeps_the_episode() {
    let mut b = Bookmark::from(&movie(1, "Show"));
    b.current_episode = seasonal(5, 2);
    b.apply(BookmarkMessage::IncrE(Some(details((5, 2)))));
    assert!(b.finished);
    assert_eq!(b.current_episode, seasonal(5, 2));
    b.apply(BookmarkMessage::DecrE(Some(details((5, 2)))));
    assert!(!b.finished);
    assert_eq!(b.current_episode, seasonal(5, 2));
}
