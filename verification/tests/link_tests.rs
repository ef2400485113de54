use webworm::bookmark::Bookmark;
use webworm::bookmark_link::{BookmarkLink, LinkError as PartsError, LinkPart as Part};
use webworm::identifier::Identifier;
use webworm::id::MovieId;
use webworm::link::{Link, LinkError, LinkPart};
use webworm::message::ShiftPressed;
use webworm::movie::TmdbMovie;
use webworm::movie_details::{Episode, SeasonEpisode, TotalEpisode};

fn movie() -> TmdbMovie {
    TmdbMovie {
        id: MovieId(1),
        genre_ids: vec![],
        overview: String::new(),
        vote_average_bits: 0,
        original_name: "Show".to_string(),
        name: "Show".to_string(),
        popularity_bits: 0,
        poster_path: None,
    }
}

#[test]
fn a_link_is_cut_at_its_placeholders() {
    let l = Link::new("https://x.org/{s}/watch/{e}").unwrap();
    assert_eq!(l.link_parts.len(), 4);
    assert!(matches!(&l.link_parts[0], LinkPart::Const(s) if s == "https://x.org/"));
    assert!(matches!(l.link_parts[1], LinkPart::Season));
    assert!(matches!(&l.link_parts[2], LinkPart::Const(s) if s == "/watch/"));
    assert!(matches!(l.link_parts[3], LinkPart::Episode));
    assert_eq!(l.string_link, "https://x.org/{s}/watch/{e}");
    assert!(l.has_season());
    assert_eq!(l.url(3, 2), "https://x.org/2/watch/3");
}

#[test]
fn invalid_links_are_refused() {
    assert!(matches!(Link::validate("{e}"), Err(LinkError::NoConstPart)));
    assert!(matches!(Link::validate("https://x.org/"), Err(LinkError::NoEpisode)));
    assert!(matches!(Link::validate("a{e}{e}"), Err(LinkError::ToManyEpisodes)));
    assert!(matches!(Link::validate("a{e}{s}{s}"), Err(LinkError::ToManySeasons)));
    assert!(Link::validate("a{e}").is_ok());
    assert!(!Link::new("a{e}").unwrap().has_season());
}

#[test]
fn copying_steps_the_bookmark_on_unless_shift_is_held() {
    let mut link = Link::new("https://x.org/ep{e}").unwrap();
    let mut b = Bookmark::from(&movie());
    b.apply(webworm::message::BookmarkMessage::ToggleSync);
    let url = link.to_clipboard(&mut b, None, ShiftPressed::True);
    assert_eq!(url, Some("https://x.org/ep1".to_string()));
    assert_eq!(b.current_episode, Episode::Total(TotalEpisode { episode: 1 }));
    let url = link.to_clipboard(&mut b, None, ShiftPressed::False);
    assert_eq!(url, Some("https://x.org/ep1".to_string()));
    assert_eq!(b.current_episode, Episode::Total(TotalEpisode { episode: 2 }));
}

#[test]
fn copying_a_season_link_needs_the_details_for_a_total_count() {
    let mut link = Link::new("https://x.org/{s}x{e}").unwrap();
    let mut b = Bookmark::from(&movie());
    assert_eq!(link.to_clipboard(&mut b, None, ShiftPressed::Unknown), None);
    assert_eq!(b.current_episode, Episode::Total(TotalEpisode { episode: 1 }));
    b.current_episode = Episode::Seasonal(SeasonEpisode { episode_number: 4, season_number: 3 });
    assert_eq!(
        link.to_clipboard(&mut b, None, ShiftPressed::True),
        Some("https://x.org/3x4".to_string())
    );
}

#[test]
fn bookmark_links_write_their_parts() {
    let l = BookmarkLink::new(vec![
        Part::Const("https://x.org/s".to_string()),
        Part::Season(2),
        Part::Const("e".to_string()),
        Part::Episode(13),
    ])
    .unwrap();
    assert_eq!(l.url(), "https://x.org/s2e13");
    assert!(matches!(BookmarkLink::is_valid_link(&[Part::Episode(1)]), Err(PartsError::NoConstPart)));
    assert!(matches!(
        BookmarkLink::is_valid_link(&[Part::Const("a".to_string())]),
        Err(PartsError::NoEpisode)
    ));
    assert!(matches!(
        BookmarkLink::is_valid_link(&[Part::Const("a".to_string()), Part::Episode(1), Part::Episode(2)]),
        Err(PartsError::ToManyEpisodes)
    ));
    assert!(matches!(
        BookmarkLink::is_valid_link(&[
            Part::Const("a".to_string()),
            Part::Episode(1),
            Part::Season(1),
            Part::Season(2)
        ]),
        Err(PartsError::ToManySeasons)
    ));
}

#[test]
fn identifiers_point_at_numbers() {
    assert_eq!(Identifier::Index(5).start("https://x.org/12"), 5);
    assert_eq!(Identifier::Index(14).end("https://x.org/123/a"), 17);
    // the start of the last run of digits is taken once there are enough runs
    assert_eq!(Identifier::NumberOcc(0).start("ab12cd345"), 6);
    assert_eq!(Identifier::NumberOcc(0).end("ab12cd345"), 9);
    assert_eq!(Identifier::NumberOcc(1).start("ab12cd345ef6"), 11);
    assert_eq!(Identifier::NumberOcc(5).start("ab12"), 0);
}

#[test]
fn constant_parts_are_never_empty_nor_side_by_side() {
    let l = Link::new("{s}x{e}y{").unwrap();
    let l2 = Link::new("ab{s}{e}cd").unwrap();
    assert_eq!(l.link_parts.len(), 4);
    for link in [l, l2] {
        let mut previous_const = false;
        for part in link.link_parts.iter() {
            match part {
                LinkPart::Const(s) => {
                    assert!(!s.is_empty());
                    assert!(!s.contains("{e}") && !s.contains("{s}"));
                    assert!(!previous_const);
                    previous_const = true;
                }
                _ => previous_const = false,
            }
        }
    }
    let l3 = Link::new("ab{s}{e}cd").unwrap();
    assert_eq!(l3.link_parts.len(), 4);
}
