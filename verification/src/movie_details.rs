//! The details of a show as the movie database reports them, and the episode
//! arithmetic built on them.
use vstd::prelude::*;

use crate::id::MovieId;
use crate::text::{chars_of, contains, contains_spec, decimal_chars, decimal_string, extend_chars, string_of};

verus! {

/// `Specials`, the name of the season of specials.
pub open spec fn specials_word() -> Seq<char> {
    seq!['S', 'p', 'e', 'c', 'i', 'a', 'l', 's']
}

/// `Extras`, the name of the season of extras.
pub open spec fn extras_word() -> Seq<char> {
    seq!['E', 'x', 't', 'r', 'a', 's']
}

/// The season's name holds `Specials`.
pub open spec fn is_specials(s: Season) -> bool {
    contains_spec(s.name@, specials_word())
}

/// The season's name holds `Extras`.
pub open spec fn is_extras(s: Season) -> bool {
    contains_spec(s.name@, extras_word())
}

/// The episodes of the seasons numbered below `season_number`, leaving out
/// specials, and extras too when `skip_extras` holds.
pub open spec fn episodes_before(seasons: Seq<Season>, season_number: int, skip_extras: bool) -> nat
    decreases seasons.len(),
{
    if seasons.len() == 0 {
        0
    } else {
        let s = seasons.last();
        let counted = s.season_number < season_number && !is_specials(s) && !(skip_extras
            && is_extras(s));
        episodes_before(seasons.drop_last(), season_number, skip_extras) + if counted {
            s.episode_count as nat
        } else {
            0nat
        }
    }
}

/// The index of the first season numbered `season_number`.
pub open spec fn season_index(seasons: Seq<Season>, season_number: int) -> Option<int>
    decreases seasons.len(),
{
    if seasons.len() == 0 {
        None
    } else if seasons[0].season_number == season_number {
        Some(0)
    } else {
        match season_index(seasons.drop_first(), season_number) {
            Some(i) => Some(i + 1),
            None => None,
        }
    }
}

/// The first season numbered `season_number`.
pub open spec fn season_numbered(seasons: Seq<Season>, season_number: int) -> Option<Season> {
    match season_index(seasons, season_number) {
        Some(i) => Some(seasons[i]),
        None => None,
    }
}

/// A running count of episodes placed in the seasons, walking them in order
/// and skipping specials: the count lands in the first season that still
/// holds it, counted from 1 in that season. A count beyond every season stays
/// with the last season walked (`season_number` when there was none).
pub open spec fn seasonal_from(seasons: Seq<Season>, episode: nat, season_number: nat) -> SeasonEpisode
    decreases seasons.len(),
{
    if seasons.len() == 0 {
        SeasonEpisode { episode_number: episode as usize, season_number: season_number as usize }
    } else {
        let s = seasons[0];
        if is_specials(s) {
            seasonal_from(seasons.drop_first(), episode, season_number)
        } else if episode <= s.episode_count {
            SeasonEpisode { episode_number: episode as usize, season_number: s.season_number }
        } else {
            seasonal_from(
                seasons.drop_first(),
                (episode - s.episode_count) as nat,
                s.season_number as nat,
            )
        }
    }
}

/// The episode details renumbered when its season counts fewer episodes than
/// its number: the regular episodes of the earlier seasons are taken off.
pub open spec fn renumbered(seasons: Seq<Season>, d: EpisodeDetails) -> Option<usize> {
    let season = season_numbered(seasons, d.episode.season_number as int).unwrap();
    if season.episode_count < d.episode.episode_number {
        Some(
            (d.episode.episode_number - episodes_before(
                seasons,
                d.episode.season_number as int,
                true,
            )) as usize,
        )
    } else {
        None
    }
}

/// What `MovieDetails::fix_episode_formats` needs of an episode to renumber:
/// its season exists and the renumbering neither overflows nor goes below 0.
pub open spec fn can_renumber(seasons: Seq<Season>, d: Option<EpisodeDetails>) -> bool {
    match d {
        None => true,
        Some(d) => season_numbered(seasons, d.episode.season_number as int) is Some && (
        season_numbered(seasons, d.episode.season_number as int).unwrap().episode_count
            < d.episode.episode_number ==> episodes_before(
            seasons,
            d.episode.season_number as int,
            true,
        ) <= d.episode.episode_number),
    }
}

/// `after` is `before` with the episode number `renumbered` gives, if any.
pub open spec fn fixed_details(
    seasons: Seq<Season>,
    after: Option<EpisodeDetails>,
    before: Option<EpisodeDetails>,
) -> bool {
    match before {
        None => after is None,
        Some(b) => after matches Some(a) && a.name == b.name && a.air_date == b.air_date
            && a.overview == b.overview && a.episode.season_number == b.episode.season_number
            && a.episode.episode_number == match renumbered(seasons, b) {
            Some(n) => n,
            None => b.episode.episode_number,
        },
    }
}

/// Whether `renumbered` changes the episode.
pub open spec fn needs_renumbering(seasons: Seq<Season>, d: Option<EpisodeDetails>) -> bool {
    match d {
        None => false,
        Some(d) => renumbered(seasons, d) is Some,
    }
}

pub struct MovieDetails {
    pub id: MovieId,
    pub seasons: Vec<Season>,
    pub in_production: bool,
    pub last_air_date: Option<String>,
    pub number_of_seasons: usize,
    pub number_of_episodes: usize,
    pub last_episode_to_air: Option<EpisodeDetails>,
    pub next_episode_to_air: Option<EpisodeDetails>,
    pub fixed: bool,
}

/// Whether `name` holds `word`.
fn name_holds(name: &String, word: &Vec<char>) -> (r: bool)
    ensures
        r == contains_spec(name@, word@),
{
    let chars = chars_of(name.as_str());
    contains(chars.as_slice(), word.as_slice())
}

/// Whether the season's name holds `Specials`.
fn season_is_specials(s: &Season) -> (r: bool)
    ensures
        r == is_specials(*s),
{
    let word: Vec<char> = vec!['S', 'p', 'e', 'c', 'i', 'a', 'l', 's'];
    assert(word@ =~= specials_word());
    name_holds(&s.name, &word)
}

/// Whether the season's name holds `Extras`.
fn season_is_extras(s: &Season) -> (r: bool)
    ensures
        r == is_extras(*s),
{
    let word: Vec<char> = vec!['E', 'x', 't', 'r', 'a', 's'];
    assert(word@ =~= extras_word());
    name_holds(&s.name, &word)
}

/// The episodes of the seasons numbered below `season_number`, leaving out
/// specials, and extras too when `skip_extras` holds.
fn count_episodes_before(seasons: &Vec<Season>, season_number: usize, skip_extras: bool) -> (r: usize)
    requires
        episodes_before(seasons@, season_number as int, skip_extras) <= usize::MAX,
    ensures
        r == episodes_before(seasons@, season_number as int, skip_extras),
{
    let mut total: usize = 0;
    let mut i: usize = 0;
    while i < seasons.len()
        invariant
            i <= seasons@.len(),
            episodes_before(seasons@, season_number as int, skip_extras) <= usize::MAX,
            total == episodes_before(seasons@.take(i as int), season_number as int, skip_extras),
        decreases seasons@.len() - i,
    {
        let s = &seasons[i];
        assert(seasons@.take(i + 1).drop_last() =~= seasons@.take(i as int));
        proof {
            lemma_episodes_before_prefix(seasons@, (i + 1) as int, season_number as int, skip_extras);
        }
        if s.season_number < season_number && !season_is_specials(s) && !(skip_extras
            && season_is_extras(s)) {
            total = total + s.episode_count;
        }
        i = i + 1;
    }
    assert(seasons@.take(i as int) =~= seasons@);
    total
}

/// A prefix of the seasons counts no more episodes than all of them.
pub proof fn lemma_episodes_before_prefix(seasons: Seq<Season>, k: int, season_number: int, skip_extras: bool)
    requires
        0 <= k <= seasons.len(),
    ensures
        episodes_before(seasons.take(k), season_number, skip_extras) <= episodes_before(
            seasons,
            season_number,
            skip_extras,
        ),
    decreases seasons.len(),
{
    if k < seasons.len() {
        lemma_episodes_before_prefix(seasons.drop_last(), k, season_number, skip_extras);
        assert(seasons.drop_last().take(k) =~= seasons.take(k));
    } else {
        assert(seasons.take(k) =~= seasons);
    }
}

/// The index of the first season numbered `season_number`.
fn find_season(seasons: &Vec<Season>, season_number: usize) -> (r: Option<usize>)
    ensures
        match season_index(seasons@, season_number as int) {
            Some(i) => r matches Some(k) && k == i,
            None => r is None,
        },
        r matches Some(k) ==> k < seasons@.len() && seasons@[k as int].season_number == season_number,
{
    proof {
        lemma_season_index(seasons@, season_number as int);
    }
    let mut i: usize = 0;
    while i < seasons.len()
        invariant
            i <= seasons@.len(),
            forall|j: int| 0 <= j < i ==> #[trigger] seasons@[j].season_number != season_number,
            match season_index(seasons@, season_number as int) {
                Some(k) => 0 <= k < seasons@.len() && seasons@[k].season_number == season_number
                    && forall|j: int| 0 <= j < k ==> #[trigger] seasons@[j].season_number != season_number,
                None => forall|j: int| 0 <= j < seasons@.len() ==> #[trigger] seasons@[j].season_number
                    != season_number,
            },
        decreases seasons@.len() - i,
    {
        if seasons[i].season_number == season_number {
            return Some(i);
        }
        i = i + 1;
    }
    None
}

/// `season_index` gives the first season with the number.
pub proof fn lemma_season_index(seasons: Seq<Season>, season_number: int)
    ensures
        match season_index(seasons, season_number) {
            Some(k) => 0 <= k < seasons.len() && seasons[k].season_number == season_number
                && forall|j: int| 0 <= j < k ==> #[trigger] seasons[j].season_number != season_number,
            None => forall|j: int| 0 <= j < seasons.len() ==> #[trigger] seasons[j].season_number
                != season_number,
        },
    decreases seasons.len(),
{
    if seasons.len() > 0 && seasons[0].season_number != season_number {
        lemma_season_index(seasons.drop_first(), season_number);
        assert forall|j: int| 1 <= j < seasons.len() implies #[trigger] seasons[j].season_number
            == seasons.drop_first()[j - 1].season_number by {}
    }
}

impl MovieDetails {
    /// Renumbers `details` when its season counts fewer episodes than its
    /// number; reports whether it did.
    fn fix_episode(seasons: &Vec<Season>, details: &mut Option<EpisodeDetails>) -> (changed: bool)
        requires
            can_renumber(seasons@, *old(details)),
        ensures
            fixed_details(seasons@, *final(details), *old(details)),
            changed == needs_renumbering(seasons@, *old(details)),
    {
        proof {
            lemma_season_index(seasons@, 0);
        }
        match details {
            Some(d) => {
                let found = find_season(seasons, d.episode.season_number);
                let index = found.unwrap();
                let current_season = &seasons[index];
                if current_season.episode_count < d.episode.episode_number {
                    let episodes_before_season = count_episodes_before(
                        seasons,
                        d.episode.season_number,
                        true,
                    );
                    d.episode.episode_number = d.episode.episode_number - episodes_before_season;
                    true
                } else {
                    false
                }
            },
            None => false,
        }
    }

    /// Sometimes shows encode the `SeasonEpisode` to not have resetting episodes counts.
    /// We have to check that and fix if needed as our calculations can not handle both formats.
    pub fn fix_episode_formats(&mut self)
        requires
            old(self).seasons@.len() >= 2 ==> can_renumber(
                old(self).seasons@,
                old(self).last_episode_to_air,
            ) && can_renumber(old(self).seasons@, old(self).next_episode_to_air),
        ensures
            old(self).seasons@.len() < 2 ==> *final(self) == *old(self),
            old(self).seasons@.len() >= 2 ==> {
                &&& final(self).id == old(self).id
                &&& final(self).seasons == old(self).seasons
                &&& final(self).in_production == old(self).in_production
                &&& final(self).last_air_date == old(self).last_air_date
                &&& final(self).number_of_seasons == old(self).number_of_seasons
                &&& final(self).number_of_episodes == old(self).number_of_episodes
                &&& fixed_details(
                    old(self).seasons@,
                    final(self).last_episode_to_air,
                    old(self).last_episode_to_air,
                )
                &&& fixed_details(
                    old(self).seasons@,
                    final(self).next_episode_to_air,
                    old(self).next_episode_to_air,
                )
                &&& final(self).fixed == (old(self).fixed || needs_renumbering(
                    old(self).seasons@,
                    old(self).last_episode_to_air,
                ) || needs_renumbering(old(self).seasons@, old(self).next_episode_to_air))
            },
    {
        if self.seasons.len() < 2 {
            return;
        }
        if MovieDetails::fix_episode(&self.seasons, &mut self.last_episode_to_air) {
            self.fixed = true;
        }
        if MovieDetails::fix_episode(&self.seasons, &mut self.next_episode_to_air) {
            self.fixed = true;
        }
    }
}

/// The episode that stands for the last published one when the database
/// gives none: numbered by the movie's id, in season 1.
pub open spec fn id_episode(id: MovieId) -> SeasonEpisode {
    SeasonEpisode { episode_number: id.0, season_number: 1 }
}

/// The episode counted over the seasons before it, leaving out specials.
pub open spec fn total_of(seasons: Seq<Season>, e: Episode) -> nat {
    match e {
        Episode::Seasonal(s) => episodes_before(seasons, s.season_number as int, false)
            + s.episode_number as nat,
        Episode::Total(t) => t.episode as nat,
    }
}

/// The episode placed in its season by walking the seasons.
pub open spec fn seasonal_of(seasons: Seq<Season>, e: Episode) -> SeasonEpisode {
    match e {
        Episode::Seasonal(s) => s,
        Episode::Total(t) => seasonal_from(seasons, t.episode as nat, 1),
    }
}

/// The episode that `MovieDetails::previous_episode` goes back to.
pub open spec fn previous_of(seasons: Seq<Season>, e: Episode) -> Episode {
    match e {
        Episode::Seasonal(s) => if s.episode_number > 1 {
            Episode::Seasonal(
                SeasonEpisode {
                    episode_number: (s.episode_number - 1) as usize,
                    season_number: s.season_number,
                },
            )
        } else if s.season_number > 1 {
            let p = season_numbered(seasons, s.season_number - 1).unwrap();
            Episode::Seasonal(
                SeasonEpisode { episode_number: p.episode_count, season_number: p.season_number },
            )
        } else {
            e
        },
        Episode::Total(t) => Episode::Total(
            TotalEpisode { episode: if t.episode >= 2 { (t.episode - 1) as usize } else { 1 } },
        ),
    }
}

/// What `MovieDetails::previous_episode` needs: the season before exists
/// when it is needed, and a total count is at least 1.
pub open spec fn can_go_back(seasons: Seq<Season>, e: Episode) -> bool {
    match e {
        Episode::Seasonal(s) => (s.episode_number <= 1 && s.season_number > 1) ==> season_numbered(
            seasons,
            s.season_number - 1,
        ) is Some,
        Episode::Total(t) => t.episode >= 1,
    }
}

/// The episode that `MovieDetails::next_episode` moves on to, given the last
/// published episode.
pub open spec fn next_of(seasons: Seq<Season>, last: Option<EpisodeDetails>, e: Episode) -> Episode {
    match last {
        None => e,
        Some(l) => match e {
            Episode::Seasonal(s) => if s == l.episode {
                e
            } else {
                match season_numbered(seasons, s.season_number as int) {
                    None => e,
                    Some(current) => if current.episode_count == s.episode_number {
                        Episode::Seasonal(
                            SeasonEpisode {
                                episode_number: 1,
                                season_number: (s.season_number + 1) as usize,
                            },
                        )
                    } else {
                        Episode::Seasonal(
                            SeasonEpisode {
                                episode_number: (s.episode_number + 1) as usize,
                                season_number: s.season_number,
                            },
                        )
                    },
                }
            },
            Episode::Total(t) => {
                let total = total_of(seasons, Episode::Seasonal(l.episode));
                Episode::Total(
                    TotalEpisode {
                        episode: if t.episode + 1 <= total {
                            (t.episode + 1) as usize
                        } else {
                            total as usize
                        },
                    },
                )
            },
        },
    }
}

/// What `MovieDetails::next_episode` needs: the number it counts up does not
/// overflow.
pub open spec fn can_go_next(seasons: Seq<Season>, last: Option<EpisodeDetails>, e: Episode) -> bool {
    match last {
        None => true,
        Some(l) => match e {
            Episode::Seasonal(s) => s != l.episode ==> match season_numbered(
                seasons,
                s.season_number as int,
            ) {
                None => true,
                Some(c) => if c.episode_count == s.episode_number {
                    s.season_number < usize::MAX
                } else {
                    s.episode_number < usize::MAX
                },
            },
            Episode::Total(t) => t.episode < usize::MAX && total_of(
                seasons,
                Episode::Seasonal(l.episode),
            ) <= usize::MAX,
        },
    }
}

impl MovieDetails {
    /// The episode as the database numbers it: when the show's episodes had
    /// to be renumbered, the regular episodes of the earlier seasons are added
    /// back.
    pub fn reformat_for_request(&self, episode: Episode) -> (r: Episode)
        requires
            self.fixed ==> episodes_before(self.seasons@, episode.season_spec() as int, true)
                + episode.episode_spec() <= usize::MAX,
        ensures
            !self.fixed ==> r == episode,
            self.fixed ==> r == episode.with_episode_spec(
                (episode.episode_spec() + episodes_before(
                    self.seasons@,
                    episode.season_spec() as int,
                    true,
                )) as usize,
            ),
    {
        if !self.fixed {
            return episode;
        }
        let mut episode = episode;
        proof {
            lemma_episodes_before_prefix(self.seasons@, 0, episode.season_spec() as int, true);
        }
        let episodes_before_season = count_episodes_before(&self.seasons, episode.season(), true);
        episode.set_episode(episode.episode() + episodes_before_season);
        episode
    }

    /// The episode counted over all seasons before it, leaving out specials.
    pub fn as_total_episodes(&self, episode: &Episode) -> (r: TotalEpisode)
        requires
            total_of(self.seasons@, *episode) <= usize::MAX,
        ensures
            r.episode == total_of(self.seasons@, *episode),
    {
        match episode {
            Episode::Seasonal(episode) => {
                let sum_before = count_episodes_before(&self.seasons, episode.season_number, false);
                TotalEpisode { episode: sum_before + episode.episode_number }
            },
            Episode::Total(episode) => *episode,
        }
    }

    /// The episode placed in its season.
    pub fn as_seasonal_episode(&self, episode: &Episode) -> (r: SeasonEpisode)
        ensures
            r == seasonal_of(self.seasons@, *episode),
    {
        match episode {
            Episode::Seasonal(episode) => *episode,
            Episode::Total(total) => {
                let ghost start = total.episode as nat;
                let mut remaining: usize = total.episode;
                let mut season_number: usize = 1;
                let mut i: usize = 0;
                assert(self.seasons@.skip(0) =~= self.seasons@);
                while i < self.seasons.len()
                    invariant
                        i <= self.seasons@.len(),
                        seasonal_of(self.seasons@, *episode) == seasonal_from(self.seasons@, start, 1),
                        seasonal_from(self.seasons@.skip(i as int), remaining as nat, season_number as nat)
                            == seasonal_from(self.seasons@, start, 1),
                    decreases self.seasons@.len() - i,
                {
                    let season = &self.seasons[i];
                    assert(self.seasons@.skip(i as int)[0] == *season);
                    assert(self.seasons@.skip(i as int).drop_first() =~= self.seasons@.skip(i + 1));
                    if season_is_specials(season) {
                        i = i + 1;
                        continue;
                    }
                    if remaining <= season.episode_count {
                        assert(seasonal_from(self.seasons@.skip(i as int), remaining as nat, season_number as nat)
                            == SeasonEpisode { episode_number: remaining, season_number: season.season_number });
                        return SeasonEpisode { episode_number: remaining, season_number: season.season_number };
                    }
                    season_number = season.season_number;
                    remaining = remaining - season.episode_count;
                    i = i + 1;
                }
                assert(self.seasons@.skip(i as int) =~= Seq::<Season>::empty());
                SeasonEpisode { episode_number: remaining, season_number }
            },
        }
    }

    /// The episode before `episode`: the previous one in its season, else the
    /// last of the season before, else `episode` itself; a total count stays
    /// at 1 or above.
    pub fn previous_episode(&self, episode: Episode) -> (r: Episode)
        requires
            can_go_back(self.seasons@, episode),
        ensures
            r == previous_of(self.seasons@, episode),
    {
        match episode {
            Episode::Seasonal(SeasonEpisode { episode_number, season_number }) => {
                if episode_number > 1 {
                    Episode::Seasonal(
                        SeasonEpisode { episode_number: episode_number - 1, season_number },
                    )
                } else if season_number > 1 {
                    proof {
                        lemma_season_index(self.seasons@, season_number - 1);
                    }
                    let index = find_season(&self.seasons, season_number - 1).unwrap();
                    let previous_season = &self.seasons[index];
                    Episode::Seasonal(
                        SeasonEpisode {
                            episode_number: previous_season.episode_count,
                            season_number: previous_season.season_number,
                        },
                    )
                } else {
                    episode
                }
            },
            Episode::Total(ep) => {
                let before = ep.episode - 1;
                Episode::Total(TotalEpisode { episode: if before > 1 { before } else { 1 } })
            },
        }
    }

    /// The seasons of the show.
    pub fn seasons(&self) -> (r: &[Season])
        ensures
            r@ == self.seasons@,
    {
        self.seasons.as_slice()
    }

    /// The episode after `episode`, up to the last published one: the next in
    /// its season, or the first of the next season after a season's last
    /// episode.
    pub fn next_episode(&self, episode: Episode) -> (r: Episode)
        requires
            can_go_next(self.seasons@, self.last_episode_to_air, episode),
        ensures
            r == next_of(self.seasons@, self.last_episode_to_air, episode),
    {
        let Some(last_published) = self.last_aired() else {
            return episode;
        };
        match episode {
            Episode::Seasonal(ep) => {
                if ep != last_published.episode {
                    proof {
                        lemma_season_index(self.seasons@, ep.season_number as int);
                    }
                    let current_season = find_season(&self.seasons, ep.season_number);
                    let Some(index) = current_season else {
                        return episode;
                    };
                    if self.seasons[index].episode_count == ep.episode_number {
                        Episode::Seasonal(
                            SeasonEpisode { episode_number: 1, season_number: ep.season_number + 1 },
                        )
                    } else {
                        Episode::Seasonal(
                            SeasonEpisode {
                                episode_number: ep.episode_number + 1,
                                season_number: ep.season_number,
                            },
                        )
                    }
                } else {
                    episode
                }
            },
            Episode::Total(ep) => {
                let TotalEpisode { episode: total_episodes } = self.as_total_episodes(
                    &Episode::Seasonal(last_published.episode),
                );
                let next = ep.episode + 1;
                Episode::Total(
                    TotalEpisode { episode: if next < total_episodes { next } else { total_episodes } },
                )
            },
        }
    }

    /// The last episode the database reports as aired, if it reports one.
    pub(crate) fn last_aired(&self) -> (r: Option<EpisodeDetails>)
        ensures
            r == self.last_episode_to_air,
    {
        match &self.last_episode_to_air {
            Some(d) => Some(d.clone()),
            None => None,
        }
    }

    /// Tries to fetch the last published episode.
    /// In case the last episode was not given, the `id` from the movie is used:
    /// the episode is then numbered by that id, in season 1, with no name,
    /// air date or overview (see `id_episode`).
    pub fn last_published(&self) -> (r: Option<EpisodeDetails>)
        ensures
            match self.last_episode_to_air {
                Some(l) => r == Some(l),
                None => r matches Some(e) && e.episode == id_episode(self.id) && e.name@
                    == Seq::<char>::empty() && e.air_date is None && e.overview@ == Seq::<
                    char,
                >::empty(),
            },
    {
        match self.last_aired() {
            Some(d) => Some(d),
            None => Some(
                EpisodeDetails {
                    episode: SeasonEpisode { episode_number: self.id.0, season_number: 1 },
                    name: String::new(),
                    air_date: None,
                    overview: String::new(),
                },
            ),
        }
    }

    /// The next episode to be published, if announced.
    pub fn next_episode_to_air(&self) -> (r: Option<EpisodeDetails>)
        ensures
            r == self.next_episode_to_air,
    {
        match &self.next_episode_to_air {
            Some(d) => Some(d.clone()),
            None => None,
        }
    }
}

pub struct Season {
    pub id: usize,
    pub name: String,
    pub episode_count: usize,
    pub season_number: usize,
    pub overview: String,
    pub poster_path: Option<String>,
}

impl Season {
    /// Returns the season number.
    pub fn number(&self) -> (r: usize)
        ensures
            r == self.season_number,
    {
        self.season_number
    }
}

pub struct EpisodeDetails {
    pub episode: SeasonEpisode,
    pub name: String,
    pub air_date: Option<String>,
    pub overview: String,
}

impl Clone for EpisodeDetails {
    fn clone(&self) -> (r: Self)
        ensures
            r == *self,
    {
        EpisodeDetails {
            episode: self.episode,
            name: self.name.clone(),
            air_date: match &self.air_date {
                Some(a) => Some(a.clone()),
                None => None,
            },
            overview: self.overview.clone(),
        }
    }
}

#[derive(Clone, Copy, Debug, PartialEq, Eq, Structural)]
pub enum Episode {
    Seasonal(SeasonEpisode),
    Total(TotalEpisode),
}

#[derive(Clone, Copy, Debug, PartialEq, Eq, Structural)]
pub struct SeasonEpisode {
    /// Episode in the season. The first episode of the season should always be 1
    pub episode_number: usize,
    /// The season of the episode. The first season is assumed to be 1
    pub season_number: usize,
}

#[derive(Clone, Copy, Debug, PartialEq, Eq, Structural)]
pub struct TotalEpisode {
    pub episode: usize,
}

impl Episode {
    /// The episode number: within the season, or in total.
    pub open spec fn episode_spec(self) -> usize {
        match self {
            Episode::Seasonal(e) => e.episode_number,
            Episode::Total(e) => e.episode,
        }
    }

    /// The season number; 1 for an episode counted in total.
    pub open spec fn season_spec(self) -> usize {
        match self {
            Episode::Seasonal(e) => e.season_number,
            Episode::Total(_e) => 1,
        }
    }

    /// The same kind of episode with the episode number `n`.
    pub open spec fn with_episode_spec(self, n: usize) -> Episode {
        match self {
            Episode::Seasonal(e) => Episode::Seasonal(
                SeasonEpisode { episode_number: n, season_number: e.season_number },
            ),
            Episode::Total(_e) => Episode::Total(TotalEpisode { episode: n }),
        }
    }

    /// The episode after `set_season(season)`.
    pub open spec fn with_season_spec(self, season: usize) -> Episode {
        match self {
            Episode::Seasonal(e) => Episode::Seasonal(
                SeasonEpisode { episode_number: e.episode_number, season_number: season },
            ),
            Episode::Total(e) => Episode::Seasonal(
                SeasonEpisode { episode_number: e.episode, season_number: 2 },
            ),
        }
    }

    /// The episode number: within the season, or in total.
    pub fn episode(&self) -> (r: usize)
        ensures
            r == self.episode_spec(),
    {
        match self {
            Episode::Seasonal(e) => e.episode_number,
            Episode::Total(e) => e.episode,
        }
    }

    /// The season number; 1 for an episode counted in total.
    pub fn season(&self) -> (r: usize)
        ensures
            r == self.season_spec(),
    {
        match self {
            Episode::Seasonal(e) => e.season_number,
            Episode::Total(_e) => 1,
        }
    }

    /// The episode as shown: `<episode>E · <season>S`, or `<episode>E`.
    pub fn as_info_str(&self) -> (r: String)
        ensures
            r@ == match *self {
                Episode::Seasonal(e) => seasonal_info(e),
                Episode::Total(e) => total_info(e),
            },
    {
        match self {
            Episode::Seasonal(e) => e.as_info_str(),
            Episode::Total(e) => e.as_info_str(),
        }
    }

    /// Increments the episode by one.
    /// It should be checked if the episode exists beforehand.
    pub fn next_episode(&mut self)
        requires
            old(self).episode_spec() < usize::MAX,
        ensures
            *final(self) == old(self).with_episode_spec((old(self).episode_spec() + 1) as usize),
    {
        match self {
            Episode::Seasonal(e) => e.episode_number = e.episode_number + 1,
            Episode::Total(e) => e.episode = e.episode + 1,
        }
    }

    /// Decrement the episode by one.
    /// This method saturates at 0 instead of panicing
    pub fn previous_episode(&mut self)
        ensures
            *final(self) == old(self).with_episode_spec(
                if old(self).episode_spec() > 0 {
                    (old(self).episode_spec() - 1) as usize
                } else {
                    0
                },
            ),
    {
        match self {
            Episode::Seasonal(e) => e.episode_number = e.episode_number.saturating_sub(1),
            Episode::Total(e) => e.episode = e.episode.saturating_sub(1),
        }
    }

    /// Sets the episode number.
    pub fn set_episode(&mut self, episode: usize)
        ensures
            *final(self) == old(self).with_episode_spec(episode),
    {
        match self {
            Episode::Seasonal(e) => e.episode_number = episode,
            Episode::Total(e) => e.episode = episode,
        }
    }

    /// Sets the season; an episode counted in total becomes an episode of
    /// season 2 with the same number.
    pub fn set_season(&mut self, season: usize)
        ensures
            *final(self) == old(self).with_season_spec(season),
    {
        match self {
            Episode::Seasonal(e) => e.season_number = season,
            Episode::Total(e) => {
                *self = Episode::Seasonal(
                    SeasonEpisode { episode_number: e.episode, season_number: 2 },
                );
            },
        }
    }
}

/// `<episode>E · <season>S`.
pub open spec fn seasonal_info(e: SeasonEpisode) -> Seq<char> {
    decimal_string(e.episode_number as nat) + seq!['E', ' ', '·', ' '] + decimal_string(
        e.season_number as nat,
    ) + seq!['S']
}

/// `<episode>E`.
pub open spec fn total_info(e: TotalEpisode) -> Seq<char> {
    decimal_string(e.episode as nat) + seq!['E']
}

impl TotalEpisode {
    /// The episode as shown: `<episode>E`.
    pub fn as_info_str(&self) -> (r: String)
        ensures
            r@ == total_info(*self),
    {
        let mut out = decimal_chars(self.episode);
        out.push('E');
        string_of(out.as_slice())
    }
}

impl SeasonEpisode {
    /// The episode as shown: `<episode>E · <season>S`.
    pub fn as_info_str(&self) -> (r: String)
        ensures
            r@ == seasonal_info(*self),
    {
        let mut out = decimal_chars(self.episode_number);
        let middle: Vec<char> = vec!['E', ' ', '·', ' '];
        extend_chars(&mut out, middle.as_slice());
        let season = decimal_chars(self.season_number);
        extend_chars(&mut out, season.as_slice());
        out.push('S');
        assert(out@ =~= seasonal_info(*self));
        string_of(out.as_slice())
    }
}

impl From<SeasonEpisode> for Episode {
    fn from(value: SeasonEpisode) -> (r: Self) {
        Self::Seasonal(value)
    }
}

impl vstd::std_specs::convert::FromSpecImpl<SeasonEpisode> for Episode {
    open spec fn obeys_from_spec() -> bool {
        true
    }

    open spec fn from_spec(v: SeasonEpisode) -> Episode {
        Episode::Seasonal(v)
    }
}

impl From<TotalEpisode> for Episode {
    fn from(value: TotalEpisode) -> (r: Self) {
        Self::Total(value)
    }
}

impl vstd::std_specs::convert::FromSpecImpl<TotalEpisode> for Episode {
    open spec fn obeys_from_spec() -> bool {
        true
    }

    open spec fn from_spec(v: TotalEpisode) -> Episode {
        Episode::Total(v)
    }
}

/// Synced with the database, a bookmark counted in total never moves past
/// the last published episode.
pub proof fn law_next_total_stays_published(seasons: Seq<Season>, last: EpisodeDetails, e: TotalEpisode)
    requires
        can_go_next(seasons, Some(last), Episode::Total(e)),
        e.episode <= total_of(seasons, Episode::Seasonal(last.episode)),
    ensures
        next_of(seasons, Some(last), Episode::Total(e)).episode_spec() <= total_of(
            seasons,
            Episode::Seasonal(last.episode),
        ),
        next_of(seasons, Some(last), Episode::Total(e)).episode_spec() >= e.episode,
{
}

/// At the last published episode there is no next one to move to.
pub proof fn law_next_at_last_published(seasons: Seq<Season>, last: EpisodeDetails)
    ensures
        next_of(seasons, Some(last), Episode::Seasonal(last.episode)) == Episode::Seasonal(
            last.episode,
        ),
{
}

/// The regular seasons (those that are no specials) come in order of their
/// numbers and each has an episode.
pub open spec fn regular_seasons_ordered(seasons: Seq<Season>) -> bool {
    &&& forall|i: int, j: int|
        0 <= i < j < seasons.len() && !is_specials(#[trigger] seasons[i]) && !is_specials(
            #[trigger] seasons[j],
        ) ==> seasons[i].season_number < seasons[j].season_number
    &&& forall|i: int|
        0 <= i < seasons.len() && !is_specials(#[trigger] seasons[i]) ==> seasons[i].episode_count
            >= 1
}

/// The episodes of all regular seasons.
pub open spec fn regular_episodes(seasons: Seq<Season>) -> nat
    decreases seasons.len(),
{
    if seasons.len() == 0 {
        0
    } else {
        regular_episodes(seasons.drop_first()) + if is_specials(seasons[0]) {
            0nat
        } else {
            seasons[0].episode_count as nat
        }
    }
}

/// `episodes_before` counted from the first season on.
proof fn lemma_episodes_before_first(seasons: Seq<Season>, k: int, skip_extras: bool)
    requires
        seasons.len() > 0,
    ensures
        episodes_before(seasons, k, skip_extras) == episodes_before(seasons.drop_first(), k, skip_extras)
            + if seasons[0].season_number < k && !is_specials(seasons[0]) && !(skip_extras
            && is_extras(seasons[0])) {
            seasons[0].episode_count as nat
        } else {
            0nat
        },
    decreases seasons.len(),
{
    if seasons.len() == 1 {
        assert(seasons.drop_last() =~= Seq::<Season>::empty());
        assert(seasons.drop_first() =~= Seq::<Season>::empty());
    } else {
        lemma_episodes_before_first(seasons.drop_last(), k, skip_extras);
        assert(seasons.drop_last().drop_first() =~= seasons.drop_first().drop_last());
        assert(seasons.drop_first().last() == seasons.last());
        assert(seasons.drop_last()[0] == seasons[0]);
    }
}

/// No episode is counted before a season that no regular season precedes in
/// number.
proof fn lemma_episodes_before_none(seasons: Seq<Season>, k: int)
    requires
        forall|i: int| 0 <= i < seasons.len() && !is_specials(#[trigger] seasons[i]) ==> seasons[i].season_number >= k,
    ensures
        episodes_before(seasons, k, false) == 0,
    decreases seasons.len(),
{
    if seasons.len() > 0 {
        assert forall|i: int| 0 <= i < seasons.drop_last().len() && !is_specials(
            #[trigger] seasons.drop_last()[i],
        ) implies seasons.drop_last()[i].season_number >= k by {
            assert(seasons.drop_last()[i] == seasons[i]);
        }
        lemma_episodes_before_none(seasons.drop_last(), k);
        assert(seasons.last() == seasons[seasons.len() - 1]);
    }
}

/// Placing a total count in its season and counting it back gives the count
/// again, the episode lying between 1 and the size of a regular season with
/// that number.
pub proof fn law_total_placed_in_season(seasons: Seq<Season>, t: nat, start: nat)
    requires
        regular_seasons_ordered(seasons),
        1 <= t <= regular_episodes(seasons),
    ensures
        ({
            let r = seasonal_from(seasons, t, start);
            &&& exists|i: int|
                0 <= i < seasons.len() && !is_specials(#[trigger] seasons[i])
                    && seasons[i].season_number == r.season_number && 1 <= r.episode_number
                    <= seasons[i].episode_count
            &&& episodes_before(seasons, r.season_number as int, false) + r.episode_number == t
        }),
    decreases seasons.len(),
{
    let s0 = seasons[0];
    let rest = seasons.drop_first();
    assert forall|i: int, j: int|
        0 <= i < j < rest.len() && !is_specials(#[trigger] rest[i]) && !is_specials(#[trigger] rest[j])
        implies rest[i].season_number < rest[j].season_number by {
        assert(rest[i] == seasons[i + 1] && rest[j] == seasons[j + 1]);
    }
    assert forall|i: int| 0 <= i < rest.len() && !is_specials(#[trigger] rest[i]) implies rest[i].episode_count
        >= 1 by {
        assert(rest[i] == seasons[i + 1]);
    }
    let r = seasonal_from(seasons, t, start);
    lemma_episodes_before_first(seasons, r.season_number as int, false);
    if is_specials(s0) {
        law_total_placed_in_season(rest, t, start);
        let i = choose|i: int|
            0 <= i < rest.len() && !is_specials(#[trigger] rest[i]) && rest[i].season_number
                == r.season_number && 1 <= r.episode_number <= rest[i].episode_count;
        assert(seasons[i + 1] == rest[i]);
    } else if t <= s0.episode_count {
        assert forall|i: int| 0 <= i < rest.len() && !is_specials(#[trigger] rest[i]) implies rest[i].season_number
            >= s0.season_number by {
            assert(rest[i] == seasons[i + 1]);
            assert(!is_specials(seasons[0]));
        }
        lemma_episodes_before_none(rest, s0.season_number as int);
        assert(!is_specials(seasons[0]));
    } else {
        law_total_placed_in_season(rest, (t - s0.episode_count) as nat, s0.season_number as nat);
        let i = choose|i: int|
            0 <= i < rest.len() && !is_specials(#[trigger] rest[i]) && rest[i].season_number
                == r.season_number && 1 <= r.episode_number <= rest[i].episode_count;
        assert(seasons[i + 1] == rest[i]);
        assert(!is_specials(seasons[0]));
        assert(s0.season_number < seasons[i + 1].season_number);
    }
}

/// Going back never leaves the first episode when counting in total.
pub proof fn law_previous_total_at_least_one(seasons: Seq<Season>, e: TotalEpisode)
    ensures
        previous_of(seasons, Episode::Total(e)).episode_spec() >= 1,
{
}

/// Stepping to the next episode and back gives the episode again.
pub proof fn law_episode_next_then_previous(e: Episode)
    requires
        e.episode_spec() < usize::MAX,
    ensures
        e.with_episode_spec((e.episode_spec() + 1) as usize).with_episode_spec(
            (e.with_episode_spec((e.episode_spec() + 1) as usize).episode_spec() - 1) as usize,
        ) == e,
{
}

/// Going on to the next episode and back gives the episode again, for an
/// episode before the last published one that lies within its season
/// (numbered from 1 on), or a total count from 1 up to the last published one.
pub proof fn law_previous_undoes_next(seasons: Seq<Season>, last: EpisodeDetails, e: Episode)
    requires
        can_go_next(seasons, Some(last), e),
        match e {
            Episode::Seasonal(x) => {
                &&& x != last.episode
                &&& x.episode_number >= 1
                &&& x.season_number >= 1
                &&& (season_numbered(seasons, x.season_number as int) matches Some(c)
                    && x.episode_number <= c.episode_count)
            },
            Episode::Total(t) => 1 <= t.episode && t.episode < total_of(
                seasons,
                Episode::Seasonal(last.episode),
            ),
        },
    ensures
        can_go_back(seasons, next_of(seasons, Some(last), e)),
        previous_of(seasons, next_of(seasons, Some(last), e)) == e,
{
    if let Episode::Seasonal(x) = e {
        lemma_season_index(seasons, x.season_number as int);
        let c = season_numbered(seasons, x.season_number as int).unwrap();
        if c.episode_count == x.episode_number {
            let n = SeasonEpisode { episode_number: 1, season_number: (x.season_number + 1) as usize };
            assert(next_of(seasons, Some(last), e) == Episode::Seasonal(n));
            assert(n.season_number - 1 == x.season_number);
            assert(previous_of(seasons, Episode::Seasonal(n)) == Episode::Seasonal(
                SeasonEpisode { episode_number: c.episode_count, season_number: c.season_number },
            ));
        }
    }
}

impl Clone for Season {
    fn clone(&self) -> (r: Self)
        ensures
            r == *self,
    {
        Season {
            id: self.id,
            name: self.name.clone(),
            episode_count: self.episode_count,
            season_number: self.season_number,
            overview: self.overview.clone(),
            poster_path: match &self.poster_path {
                Some(p) => Some(p.clone()),
                None => None,
            },
        }
    }
}

/// Two details that hold the same seasons and episodes.
pub open spec fn same_details(a: MovieDetails, b: MovieDetails) -> bool {
    &&& a.id == b.id
    &&& a.seasons@ == b.seasons@
    &&& a.in_production == b.in_production
    &&& a.last_air_date == b.last_air_date
    &&& a.number_of_seasons == b.number_of_seasons
    &&& a.number_of_episodes == b.number_of_episodes
    &&& a.last_episode_to_air == b.last_episode_to_air
    &&& a.next_episode_to_air == b.next_episode_to_air
    &&& a.fixed == b.fixed
}

impl Clone for MovieDetails {
    fn clone(&self) -> (r: Self)
        ensures
            same_details(r, *self),
    {
        let seasons = self.seasons.clone();
        assert(seasons@ =~= self.seasons@);
        MovieDetails {
            id: self.id,
            seasons,
            in_production: self.in_production,
            last_air_date: match &self.last_air_date {
                Some(d) => Some(d.clone()),
                None => None,
            },
            number_of_seasons: self.number_of_seasons,
            number_of_episodes: self.number_of_episodes,
            last_episode_to_air: self.last_aired(),
            next_episode_to_air: self.next_episode_to_air(),
            fixed: self.fixed,
        }
    }
}

/// The episodes of the seasons numbered below `season_number` (see
/// `episodes_before`), or `None` when they do not fit in a `usize`.
fn checked_episodes_before(seasons: &Vec<Season>, season_number: usize, skip_extras: bool) -> (r: Option<usize>)
    ensures
        match r {
            Some(n) => n == episodes_before(seasons@, season_number as int, skip_extras),
            None => episodes_before(seasons@, season_number as int, skip_extras) > usize::MAX,
        },
{
    let mut total: usize = 0;
    let mut i: usize = 0;
    while i < seasons.len()
        invariant
            i <= seasons@.len(),
            total == episodes_before(seasons@.take(i as int), season_number as int, skip_extras),
        decreases seasons@.len() - i,
    {
        let s = &seasons[i];
        assert(seasons@.take(i + 1).drop_last() =~= seasons@.take(i as int));
        if s.season_number < season_number && !season_is_specials(s) && !(skip_extras
            && season_is_extras(s)) {
            match total.checked_add(s.episode_count) {
                Some(t) => total = t,
                None => {
                    proof {
                        lemma_episodes_before_prefix(seasons@, (i + 1) as int, season_number as int, skip_extras);
                    }
                    return None;
                },
            }
        }
        i = i + 1;
    }
    assert(seasons@.take(i as int) =~= seasons@);
    Some(total)
}

impl MovieDetails {
    /// Whether `total_of` the episode fits in a `usize`.
    pub(crate) fn total_fits(&self, episode: &Episode) -> (r: bool)
        ensures
            r == (total_of(self.seasons@, *episode) <= usize::MAX),
    {
        match episode {
            Episode::Seasonal(e) => match checked_episodes_before(&self.seasons, e.season_number, false) {
                Some(before) => before.checked_add(e.episode_number).is_some(),
                None => false,
            },
            Episode::Total(_) => true,
        }
    }

    /// Whether `reformat_for_request` can number the episode without overflow.
    pub(crate) fn can_reformat(&self, episode: &Episode) -> (r: bool)
        ensures
            r == (self.fixed ==> episodes_before(self.seasons@, episode.season_spec() as int, true)
                + episode.episode_spec() <= usize::MAX),
    {
        if !self.fixed {
            return true;
        }
        match checked_episodes_before(&self.seasons, episode.season(), true) {
            Some(before) => before.checked_add(episode.episode()).is_some(),
            None => false,
        }
    }

    /// Whether `next_episode` can step on from the episode.
    pub(crate) fn can_go_next(&self, episode: &Episode) -> (r: bool)
        ensures
            r == can_go_next(self.seasons@, self.last_episode_to_air, *episode),
    {
        match &self.last_episode_to_air {
            None => true,
            Some(l) => match episode {
                Episode::Seasonal(s) => {
                    if *s == l.episode {
                        return true;
                    }
                    proof {
                        lemma_season_index(self.seasons@, s.season_number as int);
                    }
                    match find_season(&self.seasons, s.season_number) {
                        None => true,
                        Some(index) => if self.seasons[index].episode_count == s.episode_number {
                            s.season_number < usize::MAX
                        } else {
                            s.episode_number < usize::MAX
                        },
                    }
                },
                Episode::Total(t) => t.episode < usize::MAX && self.total_fits(&Episode::Seasonal(l.episode)),
            },
        }
    }

    /// Whether `previous_episode` can step back from the episode.
    pub(crate) fn can_go_back(&self, episode: &Episode) -> (r: bool)
        ensures
            r == can_go_back(self.seasons@, *episode),
    {
        match episode {
            Episode::Seasonal(s) => {
                if s.episode_number <= 1 && s.season_number > 1 {
                    proof {
                        lemma_season_index(self.seasons@, s.season_number - 1);
                    }
                    find_season(&self.seasons, s.season_number - 1).is_some()
                } else {
                    true
                }
            },
            Episode::Total(t) => t.episode >= 1,
        }
    }

    /// Whether `fix_episode_formats` can renumber the published and the
    /// announced episode.
    pub(crate) fn can_fix_formats(&self) -> (r: bool)
        ensures
            r == (self.seasons@.len() >= 2 ==> can_renumber(self.seasons@, self.last_episode_to_air)
                && can_renumber(self.seasons@, self.next_episode_to_air)),
    {
        if self.seasons.len() < 2 {
            return true;
        }
        can_renumber_exec(&self.seasons, &self.last_episode_to_air) && can_renumber_exec(
            &self.seasons,
            &self.next_episode_to_air,
        )
    }
}

/// Whether `can_renumber` holds of the details.
fn can_renumber_exec(seasons: &Vec<Season>, details: &Option<EpisodeDetails>) -> (r: bool)
    ensures
        r == can_renumber(seasons@, *details),
{
    match details {
        None => true,
        Some(d) => {
            proof {
                lemma_season_index(seasons@, d.episode.season_number as int);
            }
            match find_season(seasons, d.episode.season_number) {
                None => false,
                Some(index) => {
                    if seasons[index].episode_count < d.episode.episode_number {
                        match checked_episodes_before(seasons, d.episode.season_number, true) {
                            Some(before) => before <= d.episode.episode_number,
                            None => false,
                        }
                    } else {
                        true
                    }
                },
            }
        },
    }
}

} // verus!
