//! Requests to the movie database and the credentials they are sent with.
use vstd::prelude::*;

use crate::id::{EpisodeId, MovieId};
use crate::movie::TmdbMovie;
use crate::movie_details::{Episode, SeasonEpisode, TotalEpisode};
use crate::text::{lemma_replace_absent, occurs_at, chars_of, line_end, lines_of, newline_index, strip_cr, decimal_chars, decimal_string, extend_chars, replace, replace_spec, string_of};

verus! {

/// What is asked of the movie database.
#[derive(Debug, PartialEq, Eq)]
#[allow(inconsistent_fields)]
pub enum RequestType {
    TvSearch { query: String },
    TvDetails { id: MovieId },
    Poster { id: MovieId, path: String },
    EpisodeDetails { id: EpisodeId },
}

/// Where every request but a poster is sent.
pub open spec fn api_base() -> Seq<char> {
    "https://api.themoviedb.org/3/"@
}

/// What ends every request but a poster.
pub open spec fn api_rest() -> Seq<char> {
    "language=en-US&page=1"@
}

/// Where posters are fetched from.
pub open spec fn image_base() -> Seq<char> {
    "https://image.tmdb.org/t/p/w500/"@
}

/// Season and episode that an episode request names: a total count is taken
/// as an episode of the first season.
pub open spec fn requested_episode(e: Episode) -> (usize, usize) {
    match e {
        Episode::Seasonal(s) => (s.season_number, s.episode_number),
        Episode::Total(t) => (1, t.episode),
    }
}

/// The URL of a request.
pub open spec fn request_url(r: RequestType) -> Seq<char> {
    match r {
        RequestType::TvSearch { query } => api_base() + "search/tv?&query="@ + replace_spec(
            query@,
            " "@,
            "%20"@,
        ) + "&"@ + api_rest(),
        RequestType::TvDetails { id } => api_base() + "tv/"@ + decimal_string(id.0 as nat) + "?"@
            + api_rest(),
        RequestType::Poster { id: _, path } => image_base() + path@,
        RequestType::EpisodeDetails { id } => {
            let (s, e) = requested_episode(id.1);
            api_base() + "tv/"@ + decimal_string(id.0.0 as nat) + "/season/"@ + decimal_string(
                s as nat,
            ) + "/episode/"@ + decimal_string(e as nat) + "?"@ + api_rest()
        },
    }
}

impl RequestType {
    /// The URL the request is sent to.
    pub fn url(&self) -> (r: String)
        ensures
            r@ == request_url(*self),
    {
        let mut out: Vec<char> = Vec::new();
        match self {
            RequestType::Poster { id: _, path } => {
                extend_chars(&mut out, chars_of("https://image.tmdb.org/t/p/w500/").as_slice());
                extend_chars(&mut out, chars_of(path.as_str()).as_slice());
                return string_of(out.as_slice());
            },
            _ => {},
        }
        extend_chars(&mut out, chars_of("https://api.themoviedb.org/3/").as_slice());
        match self {
            RequestType::TvSearch { query } => {
                extend_chars(&mut out, chars_of("search/tv?&query=").as_slice());
                let q = chars_of(query.as_str());
                let space = chars_of(" ");
                let escaped = chars_of("%20");
                proof {
                    reveal_strlit(" ");
                }
                let cleaned = replace(q.as_slice(), space.as_slice(), escaped.as_slice());
                extend_chars(&mut out, cleaned.as_slice());
                extend_chars(&mut out, chars_of("&").as_slice());
            },
            RequestType::TvDetails { id } => {
                extend_chars(&mut out, chars_of("tv/").as_slice());
                extend_chars(&mut out, decimal_chars(id.id()).as_slice());
                extend_chars(&mut out, chars_of("?").as_slice());
            },
            RequestType::EpisodeDetails { id } => {
                let (s, e) = match id.1 {
                    Episode::Seasonal(se) => (se.season_number, se.episode_number),
                    Episode::Total(t) => (1usize, t.episode),
                };
                extend_chars(&mut out, chars_of("tv/").as_slice());
                extend_chars(&mut out, decimal_chars(id.0.id()).as_slice());
                extend_chars(&mut out, chars_of("/season/").as_slice());
                extend_chars(&mut out, decimal_chars(s).as_slice());
                extend_chars(&mut out, chars_of("/episode/").as_slice());
                extend_chars(&mut out, decimal_chars(e).as_slice());
                extend_chars(&mut out, chars_of("?").as_slice());
            },
            RequestType::Poster { .. } => {},
        }
        extend_chars(&mut out, chars_of("language=en-US&page=1").as_slice());
        proof {
            assert(out@ =~= request_url(*self));
        }
        string_of(out.as_slice())
    }
}

/// A line of the credentials file that starts with `#` is a comment.
pub open spec fn is_comment(l: Seq<char>) -> bool {
    l.len() > 0 && l[0] == '#'
}

/// The first line of `ls` that is no comment.
pub open spec fn first_uncommented(ls: Seq<Seq<char>>) -> Option<Seq<char>>
    decreases ls.len(),
{
    if ls.len() == 0 {
        None
    } else if !is_comment(ls[0]) {
        Some(ls[0])
    } else {
        first_uncommented(ls.drop_first())
    }
}

/// The token that a credentials file holds: its first line that is no comment.
pub open spec fn config_token(content: Seq<char>) -> Option<Seq<char>> {
    first_uncommented(lines_of(content))
}

/// The credentials that requests to the movie database are sent with.
pub struct TmdbConfig {
    token: String,
}

impl TmdbConfig {
    pub closed spec fn token_spec(&self) -> Seq<char> {
        self.token@
    }

    /// Reads the credentials file: the token is its first line that is no
    /// comment.
    pub fn new(content: &str) -> (r: Option<TmdbConfig>)
        requires
            config_token(content@) is Some,
        ensures
            r matches Some(c) && c.token_spec() == config_token(content@)->0,
    {
        let s = chars_of(content);
        let mut i: usize = 0;
        assert(s@.skip(0) =~= s@);
        loop
            invariant
                i <= s@.len(),
                config_token(s@) is Some,
                first_uncommented(lines_of(s@.skip(i as int))) == config_token(s@),
                s@ == content@,
            decreases s@.len() - i,
        {
            let ghost rest = s@.skip(i as int);
            assert(rest.len() > 0);
            let e = line_end(s.as_slice(), i);
            let mut stop = e;
            if e > i && s[e - 1] == '\r' {
                stop = e - 1;
            }
            let mut line: Vec<char> = Vec::new();
            let mut k: usize = i;
            while k < stop
                invariant
                    i <= k <= stop <= e <= s@.len(),
                    line@ == s@.subrange(i as int, k as int),
                decreases stop - k,
            {
                line.push(s[k]);
                assert(s@.subrange(i as int, k + 1) =~= line@);
                k = k + 1;
            }
            proof {
                let n = newline_index(rest);
                assert(e == i + n);
                let raw = if n < rest.len() { rest.take(n as int) } else { rest };
                assert(raw =~= s@.subrange(i as int, e as int));
                assert(line@ =~= strip_cr(raw));
                if n < rest.len() {
                    assert(rest.skip(n + 1 as int) =~= s@.skip(e + 1));
                    let ls = lines_of(rest);
                    assert(ls[0] == line@);
                    assert(ls.drop_first() =~= lines_of(s@.skip(e + 1)));
                } else {
                    assert(lines_of(rest) =~= seq![line@]);
                    assert(seq![line@].drop_first() =~= Seq::<Seq<char>>::empty());
                }
            }
            if line.len() == 0 || line[0] != '#' {
                return Some(TmdbConfig { token: string_of(line.as_slice()) });
            }
            proof {
                if e >= s.len() {
                    assert(first_uncommented(seq![line@].drop_first()) is None);
                    assert(false);
                }
            }
            i = e + 1;
        }
    }

    /// The token to authenticate with.
    pub fn token(&self) -> (r: &str)
        ensures
            r@ == self.token_spec(),
    {
        self.token.as_str()
    }
}

/// What a search of the movie database answers.
pub struct TmdbResponse {
    pub results: Vec<TmdbMovie>,
}

/// An episode counted in total is asked for as that episode of the first
/// season.
pub proof fn law_total_episode_asked_in_first_season(movie: MovieId, t: TotalEpisode)
    ensures
        request_url(RequestType::EpisodeDetails { id: EpisodeId(movie, Episode::Total(t)) })
            == request_url(
            RequestType::EpisodeDetails {
                id: EpisodeId(
                    movie,
                    Episode::Seasonal(SeasonEpisode { episode_number: t.episode, season_number: 1 }),
                ),
            },
        ),
{
}

/// A search text without spaces is sent as it is; spaces are the only thing
/// the search url changes.
pub proof fn law_search_text_without_spaces_is_sent_as_is(query: String)
    requires
        forall|i: int| 0 <= i < query@.len() ==> #[trigger] query@[i] != ' ',
    ensures
        request_url(RequestType::TvSearch { query }) == api_base() + "search/tv?&query="@ + query@
            + "&"@ + api_rest(),
{
    reveal_strlit(" ");
    assert forall|q: int| !#[trigger] occurs_at(query@, " "@, q) by {
        if occurs_at(query@, " "@, q) {
            assert(query@.subrange(q, q + 1)[0] == query@[q]);
        }
    }
    lemma_replace_absent(query@, " "@, "%20"@);
}

} // verus!
