use webworm::id::{EpisodeId, MovieId};
use webworm::movie_details::{Episode, SeasonEpisode, TotalEpisode};
use webworm::tmdb::{RequestType, TmdbConfig};

#[test]
fn search_url_escapes_spaces() {
    let r = RequestType::TvSearch { query: "the office us".to_string() };
    assert_eq!(
        r.url(),
        "https://api.themoviedb.org/3/search/tv?&query=the%20office%20us&language=en-US&page=1"
    );
}

#[test]
fn details_url_names_the_show() {
    let r = RequestType::TvDetails { id: MovieId(1396) };
    assert_eq!(r.url(), "https://api.themoviedb.org/3/tv/1396?language=en-US&page=1");
}

#[test]
fn poster_url_is_the_image_path() {
    let r = RequestType::Poster { id: MovieId(3), path: "abc.jpg".to_string() };
    assert_eq!(r.url(), "https://image.tmdb.org/t/p/w500/abc.jpg");
}

#[test]
fn episode_url_names_season_and_episode() {
    let seasonal = RequestType::EpisodeDetails {
        id: EpisodeId(
            MovieId(7),
            Episode::Seasonal(SeasonEpisode { episode_number: 3, season_number: 2 }),
        ),
    };
    assert_eq!(
        seasonal.url(),
        "https://api.themoviedb.org/3/tv/7/season/2/episode/3?language=en-US&page=1"
    );
    let total = RequestType::EpisodeDetails {
        id: EpisodeId(MovieId(7), Episode::Total(TotalEpisode { episode: 12 })),
    };
    assert_eq!(
        total.url(),
        "https://api.themoviedb.org/3/tv/7/season/1/episode/12?language=en-US&page=1"
    );
}

#[test]
fn config_token_is_the_first_line_that_is_no_comment() {
    let c = TmdbConfig::new("# the token of the api\n# another comment\nsecret-token\nignored").unwrap();
    assert_eq!(c.token(), "secret-token");
}

#[test]
fn config_lines_lose_their_carriage_return() {
    let c = TmdbConfig::new("#comment\r\ntoken\r\n").unwrap();
    assert_eq!(c.token(), "token");
    let c = TmdbConfig::new("only").unwrap();
    assert_eq!(c.token(), "only");
    let c = TmdbConfig::new("\n#x\n").unwrap();
    assert_eq!(c.token(), "");
}
