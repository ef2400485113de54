use webworm::id::MovieId;
use webworm::movie_details::{Episode, EpisodeDetails, MovieDetails, Season, SeasonEpisode, TotalEpisode};

fn season(number: usize, name: &str, count: usize) -> Season {
    Season {
        id: number,
        name: name.to_string(),
        episode_count: count,
        season_number: number,
        overview: String::new(),
        poster_path: None,
    }
}

fn episode_details(episode: usize, season: usize) -> EpisodeDetails {
    EpisodeDetails {
        episode: SeasonEpisode { episode_number: episode, season_number: season },
        name: format!("E{episode}"),
        air_date: Some("2024-01-01".to_string()),
        overview: String::new(),
    }
}

fn details(last: Option<(usize, usize)>) -> MovieDetails {
    MovieDetails {
        id: MovieId(1),
        seasons: vec![season(0, "Specials", 3), season(1, "Season 1", 10), season(2, "Season 2", 8)],
        in_production: true,
        last_air_date: None,
        number_of_seasons: 2,
        number_of_episodes: 18,
        last_episode_to_air: last.map(|(e, s)| episode_details(e, s)),
        next_episode_to_air: None,
        fixed: false,
    }
}

fn seasonal(e: usize, s: usize) -> Episode {
    Episode::Seasonal(SeasonEpisode { episode_number: e, season_number: s })
}

fn total(e: usize) -> Episode {
    Episode::Total(TotalEpisode { episode: e })
}

#[test]
fn total_counts_the_regular_seasons_before() {
    let d = details(Some((5, 2)));
    assert_eq!(d.as_total_episodes(&seasonal(3, 2)).episode, 13);
    assert_eq!(d.as_total_episodes(&seasonal(3, 1)).episode, 3);
    assert_eq!(d.as_total_episodes(&total(7)).episode, 7);
}

#[test]
fn seasonal_walks_the_seasons() {
    let d = details(Some((5, 2)));
    assert_eq!(d.as_seasonal_episode(&total(5)), SeasonEpisode { episode_number: 5, season_number: 1 });
    assert_eq!(d.as_seasonal_episode(&total(10)), SeasonEpisode { episode_number: 10, season_number: 1 });
    assert_eq!(d.as_seasonal_episode(&total(11)), SeasonEpisode { episode_number: 1, season_number: 2 });
    assert_eq!(d.as_seasonal_episode(&total(13)), SeasonEpisode { episode_number: 3, season_number: 2 });
    assert_eq!(d.as_seasonal_episode(&total(25)), SeasonEpisode { episode_number: 7, season_number: 2 });
    assert_eq!(d.as_seasonal_episode(&seasonal(4, 2)), SeasonEpisode { episode_number: 4, season_number: 2 });
}

#[test]
fn next_episode_steps_up_to_the_last_published() {
    let d = details(Some((5, 2)));
    assert_eq!(d.next_episode(seasonal(10, 1)), seasonal(1, 2));
    assert_eq!(d.next_episode(seasonal(3, 2)), seasonal(4, 2));
    assert_eq!(d.next_episode(seasonal(5, 2)), seasonal(5, 2));
    assert_eq!(d.next_episode(total(12)), total(13));
    assert_eq!(d.next_episode(total(15)), total(15));
    let unpublished = details(None);
    assert_eq!(unpublished.next_episode(seasonal(3, 1)), seasonal(3, 1));
}

#[test]
fn previous_episode_steps_back_into_the_season_before() {
    let d = details(Some((5, 2)));
    assert_eq!(d.previous_episode(seasonal(1, 2)), seasonal(10, 1));
    assert_eq!(d.previous_episode(seasonal(4, 2)), seasonal(3, 2));
    assert_eq!(d.previous_episode(seasonal(1, 1)), seasonal(1, 1));
    assert_eq!(d.previous_episode(total(1)), total(1));
    assert_eq!(d.previous_episode(total(5)), total(4));
}

#[test]
fn next_then_previous_gives_the_episode_back() {
    let d = details(Some((5, 2)));
    for e in [seasonal(2, 1), seasonal(10, 1), seasonal(3, 2)] {
        assert_eq!(d.previous_episode(d.next_episode(e)), e);
    }
}

#[test]
fn fix_renumbers_counts_that_run_over_the_seasons() {
    let mut d = MovieDetails {
        id: MovieId(2),
        seasons: vec![season(1, "Season 1", 10), season(2, "Season 2", 8)],
        in_production: true,
        last_air_date: None,
        number_of_seasons: 2,
        number_of_episodes: 18,
        last_episode_to_air: Some(episode_details(15, 2)),
        next_episode_to_air: Some(episode_details(16, 2)),
        fixed: false,
    };
    d.fix_episode_formats();
    assert!(d.fixed);
    assert_eq!(d.last_episode_to_air.as_ref().unwrap().episode, SeasonEpisode { episode_number: 5, season_number: 2 });
    assert_eq!(d.next_episode_to_air.as_ref().unwrap().episode, SeasonEpisode { episode_number: 6, season_number: 2 });
    assert_eq!(d.reformat_for_request(seasonal(3, 2)), seasonal(13, 2));
}

#[test]
fn fix_leaves_regular_counts_and_single_seasons_alone() {
    let mut d = details(Some((5, 2)));
    d.fix_episode_formats();
    assert!(!d.fixed);
    assert_eq!(d.last_episode_to_air.as_ref().unwrap().episode.episode_number, 5);
    assert_eq!(d.reformat_for_request(seasonal(3, 2)), seasonal(3, 2));
    let mut single = MovieDetails {
        seasons: vec![season(1, "Season 1", 2)],
        last_episode_to_air: Some(episode_details(30, 1)),
        ..details(None)
    };
    single.fix_episode_formats();
    assert!(!single.fixed);
    assert_eq!(single.last_episode_to_air.unwrap().episode.episode_number, 30);
}

#[test]
fn published_and_announced_episodes_are_handed_out() {
    let mut d = details(Some((5, 2)));
    d.next_episode_to_air = Some(episode_details(6, 2));
    assert_eq!(d.last_published().unwrap().episode.episode_number, 5);
    assert_eq!(d.next_episode_to_air().unwrap().episode.episode_number, 6);
    assert_eq!(d.seasons().len(), 3);
    assert_eq!(d.seasons()[2].number(), 2);
}

#[test]
fn episode_texts_and_steps() {
    assert_eq!(seasonal(3, 2).as_info_str(), "3E · 2S");
    assert_eq!(total(7).as_info_str(), "7E");
    assert_eq!(TotalEpisode { episode: 9 }.as_info_str(), "9E");
    assert_eq!(SeasonEpisode { episode_number: 1, season_number: 4 }.as_info_str(), "1E · 4S");
    let mut e = total(4);
    e.set_season(7);
    assert_eq!(e, seasonal(4, 2));
    e.set_season(3);
    assert_eq!(e, seasonal(4, 3));
    e.set_episode(9);
    assert_eq!(e.episode(), 9);
    assert_eq!(e.season(), 3);
    e.next_episode();
    assert_eq!(e.episode(), 10);
    let mut z = total(0);
    z.previous_episode();
    assert_eq!(z, total(0));
    assert_eq!(total(5).season(), 1);
    assert_eq!(Episode::from(SeasonEpisode { episode_number: 1, season_number: 1 }), seasonal(1, 1));
    assert_eq!(Episode::from(TotalEpisode { episode: 2 }), total(2));
}

#[test]
fn placing_a_total_count_and_counting_it_back_gives_it_again() {
    let d = details(Some((8, 2)));
    for t in 1..=18 {
        let placed = d.as_seasonal_episode(&total(t));
        assert!(placed.episode_number >= 1);
        assert_eq!(d.as_total_episodes(&Episode::Seasonal(placed)).episode, t);
    }
}

#[test]
fn next_then_previous_gives_a_total_count_back() {
    let d = details(Some((5, 2)));
    for t in [1, 7, 14] {
        assert_eq!(d.previous_episode(d.next_episode(total(t))), total(t));
    }
}

#[test]
fn numbering_for_the_database_undoes_the_renumbering() {
    let original = episode_details(15, 2);
    let mut d = MovieDetails {
        id: MovieId(2),
        seasons: vec![season(1, "Season 1", 10), season(2, "Season 2", 8)],
        in_production: true,
        last_air_date: None,
        number_of_seasons: 2,
        number_of_episodes: 18,
        last_episode_to_air: Some(original.clone()),
        next_episode_to_air: None,
        fixed: false,
    };
    assert_eq!(d.reformat_for_request(seasonal(15, 2)), seasonal(15, 2));
    d.fix_episode_formats();
    let last = d.last_published().unwrap().episode;
    assert_eq!(d.reformat_for_request(Episode::Seasonal(last)), Episode::Seasonal(original.episode));
}

#[test]
fn without_a_last_episode_the_movie_id_is_used() {
    let mut d = details(None);
    d.id = MovieId(42);
    let last = d.last_published().unwrap();
    assert_eq!(last.episode, SeasonEpisode { episode_number: 42, season_number: 1 });
    assert_eq!(last.name, "");
    assert_eq!(last.air_date, None);
    assert_eq!(d.next_episode(seasonal(3, 1)), seasonal(3, 1));
}
