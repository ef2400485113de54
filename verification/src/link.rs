//! Streaming links: a url template in which `{e}` stands for the episode and
//! `{s}` for the season.
use vstd::prelude::*;

use crate::bookmark::{applied, can_apply, Bookmark};
use crate::message::{BookmarkMessage, ShiftPressed};
use crate::movie_details::{
    episodes_before, seasonal_of, total_of, Episode, MovieDetails, SeasonEpisode, TotalEpisode,
};
use crate::text::{
    chars_of, contains_spec, decimal_chars, decimal_string, extend_chars, find, find_spec,
    lemma_find, lemma_find_is, occurs_at, string_of,
};

verus! {

/// `{e}`, the episode placeholder.
pub open spec fn episode_placeholder() -> Seq<char> {
    seq!['{', 'e', '}']
}

/// `{s}`, the season placeholder.
pub open spec fn season_placeholder() -> Seq<char> {
    seq!['{', 's', '}']
}

/// A part of a link, by its content.
pub enum LinkToken {
    Const(Seq<char>),
    Episode,
    Season,
}

pub enum LinkPart {
    Const(String),
    Episode,
    Season,
}

impl View for LinkPart {
    type V = LinkToken;

    open spec fn view(&self) -> LinkToken {
        match self {
            LinkPart::Const(s) => LinkToken::Const(s@),
            LinkPart::Episode => LinkToken::Episode,
            LinkPart::Season => LinkToken::Season,
        }
    }
}

/// The tokens of a list of parts.
pub open spec fn tokens(parts: Seq<LinkPart>) -> Seq<LinkToken> {
    parts.map_values(|p: LinkPart| p@)
}

/// How `parse_link` splits `link`: constant text up to the first
/// placeholder, then the placeholder, then the rest in the same way.
pub open spec fn parse_spec(link: Seq<char>) -> Seq<LinkToken>
    decreases link.len(),
{
    if link.len() == 0 {
        Seq::empty()
    } else {
        proof {
            lemma_find(link, episode_placeholder());
            lemma_find(link, season_placeholder());
        }
        let fe = find_spec(link, episode_placeholder());
        let fs = find_spec(link, season_placeholder());
        if fe is None && fs is None {
            seq![LinkToken::Const(link)]
        } else if fs == Some(0int) {
            seq![LinkToken::Season] + parse_spec(link.skip(3))
        } else if fe == Some(0int) {
            seq![LinkToken::Episode] + parse_spec(link.skip(3))
        } else {
            let cut = first_cut(fe, fs);
            seq![LinkToken::Const(link.take(cut))] + parse_spec(link.skip(cut))
        }
    }
}

/// Where the constant text before the first placeholder ends.
pub open spec fn first_cut(fe: Option<int>, fs: Option<int>) -> int {
    match (fe, fs) {
        (Some(x), Some(y)) => if x > y {
            y
        } else {
            x
        },
        (Some(x), None) => x,
        (None, Some(y)) => y,
        (None, None) => 0,
    }
}

/// The text a token stands for in the template.
pub open spec fn token_template(t: LinkToken) -> Seq<char> {
    match t {
        LinkToken::Const(s) => s,
        LinkToken::Episode => episode_placeholder(),
        LinkToken::Season => season_placeholder(),
    }
}

/// The template written back from its tokens.
pub open spec fn template(ts: Seq<LinkToken>) -> Seq<char>
    decreases ts.len(),
{
    if ts.len() == 0 {
        Seq::empty()
    } else {
        token_template(ts[0]) + template(ts.drop_first())
    }
}

/// The text a token stands for in a url for `episode` and `season`.
pub open spec fn token_url(t: LinkToken, episode: nat, season: nat) -> Seq<char> {
    match t {
        LinkToken::Const(s) => s,
        LinkToken::Episode => decimal_string(episode),
        LinkToken::Season => decimal_string(season),
    }
}

/// The url the tokens give for `episode` and `season`.
pub open spec fn url_spec(ts: Seq<LinkToken>, episode: nat, season: nat) -> Seq<char>
    decreases ts.len(),
{
    if ts.len() == 0 {
        Seq::empty()
    } else {
        url_spec(ts.drop_last(), episode, season) + token_url(ts.last(), episode, season)
    }
}

/// How many tokens of `ts` satisfy `pred`.
pub open spec fn count_tokens(ts: Seq<LinkToken>, pred: spec_fn(LinkToken) -> bool) -> nat
    decreases ts.len(),
{
    if ts.len() == 0 {
        0
    } else {
        count_tokens(ts.drop_last(), pred) + if pred(ts.last()) {
            1nat
        } else {
            0nat
        }
    }
}

pub open spec fn is_const(t: LinkToken) -> bool {
    t is Const
}

pub open spec fn is_episode(t: LinkToken) -> bool {
    t is Episode
}

pub open spec fn is_season(t: LinkToken) -> bool {
    t is Season
}

/// The verdict on a link made of `ts`: at least one const part, exactly one
/// episode, at most one season, checked in that order.
pub open spec fn validity(ts: Seq<LinkToken>) -> Result<(), LinkError> {
    if count_tokens(ts, |t: LinkToken| is_const(t)) == 0 {
        Err(LinkError::NoConstPart)
    } else if count_tokens(ts, |t: LinkToken| is_episode(t)) == 0 {
        Err(LinkError::NoEpisode)
    } else if count_tokens(ts, |t: LinkToken| is_episode(t)) > 1 {
        Err(LinkError::ToManyEpisodes)
    } else if count_tokens(ts, |t: LinkToken| is_season(t)) > 1 {
        Err(LinkError::ToManySeasons)
    } else {
        Ok(())
    }
}

pub struct Link {
    pub link_parts: Vec<LinkPart>,
    pub string_link: String,
}

#[derive(Debug, PartialEq, Eq, Structural)]
pub enum LinkError {
    NoConstPart,
    NoEpisode,
    ToManySeasons,
    ToManyEpisodes,
}

/// Splits `link` into its parts.
fn parse_link(link: &str) -> (parts: Vec<LinkPart>)
    ensures
        tokens(parts@) == parse_spec(link@),
{
    let mut parts = Vec::new();
    let chars = chars_of(link);
    parse_link_impl(chars.as_slice(), &mut parts);
    assert(tokens(parts@) =~= parse_spec(link@));
    parts
}

/// Top-down recursive tokenizer
fn parse_link_impl(link: &[char], parsed: &mut Vec<LinkPart>)
    ensures
        tokens(final(parsed)@) == tokens(old(parsed)@) + parse_spec(link@),
    decreases link@.len(),
{
    if link.len() == 0 {
        assert(tokens(parsed@) =~= tokens(old(parsed)@) + parse_spec(link@));
        return;
    }
    let episode: Vec<char> = vec!['{', 'e', '}'];
    let season: Vec<char> = vec!['{', 's', '}'];
    assert(episode@ =~= episode_placeholder());
    assert(season@ =~= season_placeholder());
    proof {
        lemma_find(link@, episode_placeholder());
        lemma_find(link@, season_placeholder());
    }
    let found_episode = find(link, episode.as_slice());
    let found_season = find(link, season.as_slice());
    let (part, rest): (LinkPart, Option<usize>) = match (found_episode, found_season) {
        (None, None) => (LinkPart::Const(string_of(link)), None),
        (_, Some(0)) => (LinkPart::Season, Some(3)),
        (Some(0), _) => (LinkPart::Episode, Some(3)),
        (None, Some(i)) => (LinkPart::Const(string_of(&link[0..i])), Some(i)),
        (Some(i), None) => (LinkPart::Const(string_of(&link[0..i])), Some(i)),
        (Some(x), Some(y)) => if x > y {
            (LinkPart::Const(string_of(&link[0..y])), Some(y))
        } else {
            (LinkPart::Const(string_of(&link[0..x])), Some(x))
        },
    };
    let ghost before = parsed@;
    parsed.push(part);
    assert(tokens(parsed@) =~= tokens(before).push(part@));
    match rest {
        Some(start) => {
            let tail = &link[start..link.len()];
            parse_link_impl(tail, parsed);
            assert(tokens(parsed@) =~= tokens(before) + parse_spec(link@));
        },
        None => {
            assert(tokens(parsed@) =~= tokens(before) + parse_spec(link@));
        },
    }
}

impl Link {
    /// The url of the link for `episode` and `season`.
    pub fn url(&self, episode: usize, season: usize) -> (r: String)
        ensures
            r@ == url_spec(tokens(self.link_parts@), episode as nat, season as nat),
    {
        let mut out: Vec<char> = Vec::new();
        let mut i: usize = 0;
        while i < self.link_parts.len()
            invariant
                i <= self.link_parts@.len(),
                out@ == url_spec(
                    tokens(self.link_parts@.take(i as int)),
                    episode as nat,
                    season as nat,
                ),
            decreases self.link_parts@.len() - i,
        {
            let ghost before = out@;
            match &self.link_parts[i] {
                LinkPart::Const(s) => {
                    let piece = chars_of(s.as_str());
                    extend_chars(&mut out, piece.as_slice());
                },
                LinkPart::Episode => {
                    let piece = decimal_chars(episode);
                    extend_chars(&mut out, piece.as_slice());
                },
                LinkPart::Season => {
                    let piece = decimal_chars(season);
                    extend_chars(&mut out, piece.as_slice());
                },
            }
            let ghost next = tokens(self.link_parts@.take(i + 1));
            assert(next.drop_last() =~= tokens(self.link_parts@.take(i as int)));
            assert(next.last() == self.link_parts@[i as int]@);
            i = i + 1;
        }
        assert(self.link_parts@.take(i as int) =~= self.link_parts@);
        string_of(out.as_slice())
    }

    /// Whether the link has a season placeholder.
    pub fn has_season(&self) -> (r: bool)
        ensures
            r == (exists|i: int|
                0 <= i < self.link_parts@.len() && #[trigger] self.link_parts@[i] is Season),
            r == tokens_have_season(tokens(self.link_parts@)),
    {
        proof {
            let ts = tokens(self.link_parts@);
            assert forall|i: int| 0 <= i < ts.len() implies (#[trigger] ts[i] is Season)
                == (self.link_parts@[i] is Season) by {
                assert(ts[i] == self.link_parts@[i]@);
            }
        }
        let mut i: usize = 0;
        while i < self.link_parts.len()
            invariant
                i <= self.link_parts@.len(),
                forall|j: int| 0 <= j < i ==> !(#[trigger] self.link_parts@[j] is Season),
            decreases self.link_parts@.len() - i,
        {
            if let LinkPart::Season = &self.link_parts[i] {
                assert(tokens(self.link_parts@)[i as int] == self.link_parts@[i as int]@);
                return true;
            }
            i = i + 1;
        }
        false
    }

    /// Creates a new Bookmark link.
    /// Panics if the link is not valid, so only a valid link is taken (see
    /// `Link::validate`, which tells the two apart).
    pub fn new(link: &str) -> (r: Result<Link, LinkError>)
        requires
            validity(parse_spec(link@)) is Ok,
        ensures
            r matches Ok(l) && tokens(l.link_parts@) == parse_spec(link@) && l.string_link@
                == link@,
    {
        let link_parts = parse_link(link);
        match Link::is_valid_link(link_parts.as_slice()) {
            Ok(()) => Ok(Link { link_parts, string_link: link.to_owned() }),
            Err(e) => Err(e),
        }
    }

    /// Whether `link` makes a valid link, and if not, what is wrong with it.
    pub fn validate(link: &str) -> (r: Result<(), LinkError>)
        ensures
            r == validity(parse_spec(link@)),
    {
        let link_parts = parse_link(link);
        Link::is_valid_link(link_parts.as_slice())
    }

    /// A link is valid if it contains:
    /// * at least one const part
    /// * exactly one episode
    /// * a maximum of one season
    fn is_valid_link(link: &[LinkPart]) -> (r: Result<(), LinkError>)
        ensures
            r == validity(tokens(link@)),
    {
        let mut consts: usize = 0;
        let mut episode: usize = 0;
        let mut season: usize = 0;
        let mut i: usize = 0;
        while i < link.len()
            invariant
                i <= link@.len(),
                consts == count_tokens(tokens(link@.take(i as int)), |t: LinkToken| is_const(t)),
                episode == count_tokens(
                    tokens(link@.take(i as int)),
                    |t: LinkToken| is_episode(t),
                ),
                season == count_tokens(tokens(link@.take(i as int)), |t: LinkToken| is_season(t)),
                consts + episode + season == i,
            decreases link@.len() - i,
        {
            let ghost next = tokens(link@.take(i + 1));
            assert(next.drop_last() =~= tokens(link@.take(i as int)));
            assert(next.last() == link@[i as int]@);
            match &link[i] {
                LinkPart::Const(_) => consts += 1,
                LinkPart::Episode => episode += 1,
                LinkPart::Season => season += 1,
            }
            i = i + 1;
        }
        assert(link@.take(i as int) =~= link@);
        if consts == 0 {
            Err(LinkError::NoConstPart)
        } else if episode == 0 {
            Err(LinkError::NoEpisode)
        } else if episode > 1 {
            Err(LinkError::ToManyEpisodes)
        } else if season > 1 {
            Err(LinkError::ToManySeasons)
        } else {
            Ok(())
        }
    }
}

/// Whether a link of these tokens has a season placeholder.
pub open spec fn tokens_have_season(ts: Seq<LinkToken>) -> bool {
    exists|i: int| 0 <= i < ts.len() && #[trigger] ts[i] is Season
}

/// The url copied for the bookmark's current episode `cur`: a seasonal
/// episode goes in as it is when the link has a season and as a total count
/// otherwise; a total count is placed in its season when the link has one.
/// `None` when that needs details that are not loaded.
pub open spec fn clipboard_url(ts: Seq<LinkToken>, cur: Episode, details: Option<MovieDetails>) -> Option<Seq<char>> {
    match cur {
        Episode::Seasonal(e) => if tokens_have_season(ts) {
            Some(url_spec(ts, e.episode_number as nat, e.season_number as nat))
        } else {
            match details {
                None => None,
                Some(d) => Some(url_spec(ts, total_of(d.seasons@, cur), 1)),
            }
        },
        Episode::Total(e) => if tokens_have_season(ts) {
            match details {
                None => None,
                Some(d) => {
                    let s = seasonal_of(d.seasons@, cur);
                    Some(url_spec(ts, s.episode_number as nat, s.season_number as nat))
                },
            }
        } else {
            Some(url_spec(ts, e.episode as nat, 1))
        },
    }
}

impl Link {
    /// The url to copy for the bookmark's current episode; unless shift is
    /// held, the bookmark then moves on to the next episode. `None`, with
    /// nothing changed, when the url needs details that are not loaded.
    pub fn to_clipboard(
        &mut self,
        bookmark: &mut Bookmark,
        details: Option<MovieDetails>,
        shift: ShiftPressed,
    ) -> (r: Option<String>)
        requires
            details matches Some(d) ==> (!tokens_have_season(tokens(old(self).link_parts@))
                && old(bookmark).current_episode is Seasonal ==> total_of(
                d.seasons@,
                old(bookmark).current_episode,
            ) <= usize::MAX),
            shift != ShiftPressed::True ==> can_apply(
                *old(bookmark),
                BookmarkMessage::IncrE(details),
            ),
        ensures
            *final(self) == *old(self),
            match clipboard_url(tokens(old(self).link_parts@), old(bookmark).current_episode, details) {
                None => r is None && *final(bookmark) == *old(bookmark),
                Some(u) => r matches Some(s) && s@ == u && final(bookmark).movie == old(bookmark).movie
                    && if shift == ShiftPressed::True {
                    *final(bookmark) == *old(bookmark)
                } else {
                    (final(bookmark).current_episode, final(bookmark).finished, final(bookmark).sync_mode)
                        == applied(*old(bookmark), BookmarkMessage::IncrE(details))
                },
            },
    {
        let has_season = self.has_season();
        let url = match bookmark.current_episode {
            Episode::Seasonal(e) => {
                if has_season {
                    self.url(e.episode_number, e.season_number)
                } else {
                    let Some(d) = &details else {
                        return None;
                    };
                    self.url(d.as_total_episodes(&bookmark.current_episode).episode, 1)
                }
            },
            Episode::Total(e) => {
                if has_season {
                    let Some(d) = &details else {
                        return None;
                    };
                    let e = d.as_seasonal_episode(&bookmark.current_episode);
                    self.url(e.episode_number, e.season_number)
                } else {
                    self.url(e.episode, 1)
                }
            },
        };
        if shift != ShiftPressed::True {
            bookmark.apply(BookmarkMessage::IncrE(details));
        }
        Some(url)
    }
}

/// Splitting a link into parts loses nothing: writing the parts back, with
/// `{e}` and `{s}` for the placeholders, gives the link text.
pub proof fn law_parse_template(link: Seq<char>)
    ensures
        template(parse_spec(link)) == link,
    decreases link.len(),
{
    if link.len() == 0 {
        return;
    }
    lemma_find(link, episode_placeholder());
    lemma_find(link, season_placeholder());
    let fe = find_spec(link, episode_placeholder());
    let fs = find_spec(link, season_placeholder());
    let ts = parse_spec(link);
    let (head, cut): (LinkToken, int) = if fe is None && fs is None {
        (LinkToken::Const(link), link.len() as int)
    } else if fs == Some(0int) {
        (LinkToken::Season, 3)
    } else if fe == Some(0int) {
        (LinkToken::Episode, 3)
    } else {
        (LinkToken::Const(link.take(first_cut(fe, fs))), first_cut(fe, fs))
    };
    if fe is None && fs is None {
        assert(ts =~= seq![head]);
        assert(ts.drop_first() =~= Seq::<LinkToken>::empty());
        assert(template(Seq::<LinkToken>::empty()) == Seq::<char>::empty());
        assert(template(ts) == token_template(ts[0]) + template(ts.drop_first()));
        assert(template(ts) =~= link);
    } else {
        assert(ts =~= seq![head] + parse_spec(link.skip(cut)));
        assert(ts.drop_first() =~= parse_spec(link.skip(cut)));
        law_parse_template(link.skip(cut));
        assert(token_template(head) =~= link.take(cut));
        assert(link =~= link.take(cut) + link.skip(cut));
    }
}

/// The url of tokens put one after the other is the urls put one after the
/// other.
proof fn lemma_url_spec_append(a: Seq<LinkToken>, b: Seq<LinkToken>, episode: nat, season: nat)
    ensures
        url_spec(a + b, episode, season) == url_spec(a, episode, season) + url_spec(b, episode, season),
    decreases b.len(),
{
    if b.len() == 0 {
        assert(a + b =~= a);
    } else {
        assert((a + b).drop_last() =~= a + b.drop_last());
        assert((a + b).last() == b.last());
        lemma_url_spec_append(a, b.drop_last(), episode, season);
    }
}

/// Some token satisfies the predicate when some are counted.
proof fn lemma_counted_token(ts: Seq<LinkToken>, pred: spec_fn(LinkToken) -> bool)
    requires
        count_tokens(ts, pred) > 0,
    ensures
        exists|i: int| 0 <= i < ts.len() && pred(#[trigger] ts[i]),
    decreases ts.len(),
{
    if !pred(ts.last()) {
        lemma_counted_token(ts.drop_last(), pred);
        let i = choose|i: int| 0 <= i < ts.drop_last().len() && pred(#[trigger] ts.drop_last()[i]);
        assert(ts[i] == ts.drop_last()[i]);
    } else {
        assert(pred(ts[ts.len() - 1]));
    }
}

/// A link is accepted only with at least one constant part, exactly one
/// episode placeholder and at most one season placeholder; and the url it
/// gives for an episode holds the episode's number.
pub proof fn law_accepted_link_holds_episode(link: Seq<char>, episode: nat, season: nat)
    requires
        validity(parse_spec(link)) is Ok,
    ensures
        count_tokens(parse_spec(link), |t: LinkToken| is_const(t)) >= 1,
        count_tokens(parse_spec(link), |t: LinkToken| is_episode(t)) == 1,
        count_tokens(parse_spec(link), |t: LinkToken| is_season(t)) <= 1,
        contains_spec(url_spec(parse_spec(link), episode, season), decimal_string(episode)),
{
    let ts = parse_spec(link);
    lemma_counted_token(ts, |t: LinkToken| is_episode(t));
    let i = choose|i: int| 0 <= i < ts.len() && is_episode(#[trigger] ts[i]);
    let before = ts.take(i);
    let rest = ts.skip(i + 1);
    assert(ts =~= before + (seq![ts[i]] + rest));
    lemma_url_spec_append(before, seq![ts[i]] + rest, episode, season);
    lemma_url_spec_append(seq![ts[i]], rest, episode, season);
    assert(seq![ts[i]].drop_last() =~= Seq::<LinkToken>::empty());
    assert(ts[i] is Episode);
    assert(url_spec(seq![ts[i]].drop_last(), episode, season) =~= Seq::<char>::empty());
    assert(seq![ts[i]].last() == ts[i]);
    assert(token_url(ts[i], episode, season) == decimal_string(episode));
    assert(url_spec(seq![ts[i]], episode, season) =~= decimal_string(episode));
    let u = url_spec(ts, episode, season);
    assert(u == url_spec(before + (seq![ts[i]] + rest), episode, season));
    let a = url_spec(before, episode, season);
    let d = decimal_string(episode);
    assert(u == a + d + url_spec(rest, episode, season));
    assert(u.subrange(a.len() as int, (a.len() + d.len()) as int) =~= d);
    assert(occurs_at(u, d, a.len() as int));
    lemma_find(u, d);
}

/// A constant part is not empty and holds neither placeholder.
pub open spec fn clean_const(t: LinkToken) -> bool {
    t matches LinkToken::Const(c) ==> c.len() > 0 && !contains_spec(c, episode_placeholder())
        && !contains_spec(c, season_placeholder())
}

/// The parts of a split link: each constant part is clean, and no constant
/// part follows another.
pub open spec fn well_split(ts: Seq<LinkToken>) -> bool {
    &&& forall|i: int| 0 <= i < ts.len() ==> clean_const(#[trigger] ts[i])
    &&& forall|i: int, j: int|
        0 <= i && j == i + 1 && j < ts.len() && is_const(#[trigger] ts[i]) ==> !is_const(
            #[trigger] ts[j],
        )
}

/// A part put before well split parts keeps them well split, when it is
/// clean and is not a constant part before a constant part.
proof fn lemma_well_split_cons(h: LinkToken, rest: Seq<LinkToken>)
    requires
        clean_const(h),
        well_split(rest),
        is_const(h) && rest.len() > 0 ==> !is_const(rest[0]),
    ensures
        well_split(seq![h] + rest),
{
    let ts = seq![h] + rest;
    assert forall|i: int| 0 <= i < ts.len() implies clean_const(#[trigger] ts[i]) by {
        if i > 0 {
            assert(ts[i] == rest[i - 1]);
        }
    }
    assert forall|i: int, j: int|
        0 <= i && j == i + 1 && j < ts.len() && is_const(#[trigger] ts[i]) implies !is_const(
        #[trigger] ts[j],
    ) by {
        assert(ts[j] == rest[j - 1]);
        if i > 0 {
            assert(ts[i] == rest[i - 1]);
        }
    }
}

/// Text before the first occurrence of `pat` in `s` does not hold `pat`.
proof fn lemma_prefix_before_first(s: Seq<char>, pat: Seq<char>, cut: int)
    requires
        pat.len() > 0,
        0 <= cut <= s.len(),
        find_spec(s, pat) matches Some(k) ==> cut <= k,
    ensures
        !contains_spec(s.take(cut), pat),
{
    lemma_find(s, pat);
    lemma_find(s.take(cut), pat);
    if let Some(p) = find_spec(s.take(cut), pat) {
        assert(s.take(cut).subrange(p, p + pat.len()) =~= s.subrange(p, p + pat.len()));
        assert(occurs_at(s, pat, p));
        assert(p < cut);
    }
}

/// Splitting a link gives constant parts that are not empty, hold no
/// placeholder and never follow one another; only an empty link gives no
/// part.
pub proof fn law_parse_parts_well_split(link: Seq<char>)
    ensures
        well_split(parse_spec(link)),
        parse_spec(link).len() == 0 <==> link.len() == 0,
    decreases link.len(),
{
    if link.len() == 0 {
        return;
    }
    let ep = episode_placeholder();
    let sp = season_placeholder();
    lemma_find(link, ep);
    lemma_find(link, sp);
    let fe = find_spec(link, ep);
    let fs = find_spec(link, sp);
    let ts = parse_spec(link);
    if fe is None && fs is None {
        assert(ts =~= seq![LinkToken::Const(link)]);
        assert(link.take(link.len() as int) =~= link);
        lemma_prefix_before_first(link, ep, link.len() as int);
        lemma_prefix_before_first(link, sp, link.len() as int);
        lemma_well_split_cons(LinkToken::Const(link), Seq::<LinkToken>::empty());
        assert(seq![LinkToken::Const(link)] + Seq::<LinkToken>::empty() =~= ts);
    } else if fs == Some(0int) || fe == Some(0int) {
        let head = if fs == Some(0int) {
            LinkToken::Season
        } else {
            LinkToken::Episode
        };
        let rest = link.skip(3);
        assert(ts =~= seq![head] + parse_spec(rest));
        law_parse_parts_well_split(rest);
        lemma_well_split_cons(head, parse_spec(rest));
    } else {
        let cut = first_cut(fe, fs);
        let rest = link.skip(cut);
        let head = LinkToken::Const(link.take(cut));
        assert(ts =~= seq![head] + parse_spec(rest));
        assert(0 < cut < link.len());
        lemma_prefix_before_first(link, ep, cut);
        lemma_prefix_before_first(link, sp, cut);
        law_parse_parts_well_split(rest);
        let pat = if fs == Some(cut) {
            sp
        } else {
            ep
        };
        assert(occurs_at(link, pat, cut));
        assert(rest.subrange(0, 3) =~= link.subrange(cut, cut + 3));
        assert(occurs_at(rest, pat, 0));
        lemma_find_is(rest, pat, 0);
        lemma_find(rest, ep);
        lemma_find(rest, sp);
        assert(!is_const(parse_spec(rest)[0]));
        lemma_well_split_cons(head, parse_spec(rest));
    }
}

/// The url copied for a seasonal episode: a link with a season placeholder
/// gets the episode and season as they are; a link without one gets the
/// episode counted over every regular season before its own, in season 1,
/// once the details are loaded.
pub proof fn law_copied_url_of_seasonal_episode(ts: Seq<LinkToken>, e: SeasonEpisode, details: Option<MovieDetails>)
    ensures
        tokens_have_season(ts) ==> clipboard_url(ts, Episode::Seasonal(e), details) == Some(
            url_spec(ts, e.episode_number as nat, e.season_number as nat),
        ),
        !tokens_have_season(ts) ==> clipboard_url(ts, Episode::Seasonal(e), details) == match details {
            None => None,
            Some(d) => Some(
                url_spec(
                    ts,
                    episodes_before(d.seasons@, e.season_number as int, false)
                        + e.episode_number as nat,
                    1,
                ),
            ),
        },
{
}

/// The url copied for an episode counted in total: a link without a season
/// placeholder gets the count itself, in season 1; a link with one needs the
/// details to place the count in its season.
pub proof fn law_copied_url_of_total_episode(ts: Seq<LinkToken>, t: TotalEpisode, details: Option<MovieDetails>)
    ensures
        !tokens_have_season(ts) ==> clipboard_url(ts, Episode::Total(t), details) == Some(
            url_spec(ts, t.episode as nat, 1),
        ),
        tokens_have_season(ts) && details is None ==> clipboard_url(
            ts,
            Episode::Total(t),
            details,
        ) is None,
{
}

} // verus!
