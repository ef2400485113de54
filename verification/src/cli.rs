//! The command line tool: its commands, how it lists bookmarks and how it
//! moves them on.
use vstd::prelude::*;

use crate::base::bookmark::{
    advanced_from, browser_url, episode_of, not_found_marker, probe_answer, url_can_step_forward,
    with_episode, Bookmark, Bookmarks,
};
use crate::pattern::{any_matches, GlobPattern};
use crate::text::{
    chars_of, contains, contains_spec, decimal_chars, decimal_string, extend_chars, join, joined,
    lowercase, string_of, to_lowercase,
};

verus! {

/// The command line: whether to print debug information, and the command.
pub struct Args {
    /// Prints additional debug information
    pub debug: bool,
    pub command: Command,
}

pub enum Command {
    /// Pushes a new bookmark which will be saved
    /// The string should be in the following format "(name: "example name", url: "https://testurl_episode{{33}}")"
    Push { entries: Vec<String> },
    Print {
        /// Bookmarks which doesn't have a new episode wont be filtered
        all: bool,
        /// The names of the bookmarks
        /// Can contain globs which will be matched against the names
        /// If no names are given, all will be used
        glob: Vec<String>,
        format: Option<String>,
    },
    Advance {
        /// The names of the bookmarks
        /// Can contain globs which will be matched against the names
        /// If no names are given, all will be used
        glob: Vec<String>,
    },
}

/// What is printed of each bookmark.
#[derive(Clone, Copy, Debug, PartialEq, Eq, Structural)]
pub enum ReturnFormatting {
    Name,
    Url,
    Episode,
}

impl Default for ReturnFormatting {
    fn default() -> (r: Self)
        ensures
            r == ReturnFormatting::Name,
    {
        ReturnFormatting::Name
    }
}

/// The format a `--format` value asks for: one that holds `url` or `link`
/// prints urls, one that holds `ep` prints episodes, anything else names;
/// case does not matter.
pub open spec fn format_of(value: Option<String>) -> ReturnFormatting {
    match value {
        None => ReturnFormatting::Name,
        Some(v) => {
            let l = lowercase(v@);
            if contains_spec(l, "url"@) || contains_spec(l, "link"@) {
                ReturnFormatting::Url
            } else if contains_spec(l, "ep"@) {
                ReturnFormatting::Episode
            } else {
                ReturnFormatting::Name
            }
        },
    }
}

impl From<Option<String>> for ReturnFormatting {
    fn from(value: Option<String>) -> (r: Self) {
        let Some(value) = value else {
            return Self::default();
        };
        let lowered = to_lowercase(value.as_str());
        let l = chars_of(lowered.as_str());
        if contains(l.as_slice(), chars_of("url").as_slice()) || contains(
            l.as_slice(),
            chars_of("link").as_slice(),
        ) {
            return Self::Url;
        }
        if contains(l.as_slice(), chars_of("ep").as_slice()) {
            return Self::Episode;
        }
        return Self::Name;
    }
}

impl vstd::std_specs::convert::FromSpecImpl<Option<String>> for ReturnFormatting {
    open spec fn obeys_from_spec() -> bool {
        true
    }

    open spec fn from_spec(v: Option<String>) -> ReturnFormatting {
        format_of(v)
    }
}

impl ReturnFormatting {
    /// The text printed of the bookmark.
    pub open spec fn printed(self, b: Bookmark) -> Seq<char> {
        match self {
            ReturnFormatting::Name => b.name@,
            ReturnFormatting::Url => browser_url(b.url.0@),
            ReturnFormatting::Episode => b.name@ + ", "@ + decimal_string(
                episode_of(b.url.0@).unwrap() as nat,
            ),
        }
    }

    /// Prints the bookmark: its name, its url, or its name and episode.
    pub fn print(&self, bookmark: &Bookmark) -> (r: String)
        requires
            *self == ReturnFormatting::Episode ==> episode_of(bookmark.url.0@) is Some,
        ensures
            r@ == self.printed(*bookmark),
    {
        match self {
            Self::Name => bookmark.name.clone(),
            Self::Url => bookmark.url.get(),
            Self::Episode => {
                let mut out = chars_of(bookmark.name.as_str());
                extend_chars(&mut out, chars_of(", ").as_slice());
                extend_chars(&mut out, decimal_chars(bookmark.url.episode()).as_slice());
                string_of(out.as_slice())
            },
        }
    }
}

/// The patterns pick the bookmark: one of them matches its name, or there is
/// no pattern.
pub open spec fn picked(b: Bookmark, patterns: Seq<GlobPattern>) -> bool {
    patterns.len() == 0 || any_matches(patterns, b.name@)
}

/// The bookmark once its cached answer was refreshed with the probe `title`.
pub open spec fn after_probe(b: Bookmark, title: Option<String>) -> Bookmark {
    Bookmark { name: b.name, url: b.url, can_advance: probe_answer(b, title) }
}

/// A picked bookmark is probed, unless every picked one is listed anyway.
pub open spec fn probed_if_needed(b: Bookmark, title: Option<String>, patterns: Seq<GlobPattern>, all: bool) -> Bookmark {
    if picked(b, patterns) && !all {
        after_probe(b, title)
    } else {
        b
    }
}

/// The bookmark is listed: it is picked and, unless all are listed, it can
/// advance.
pub open spec fn shown(b: Bookmark, title: Option<String>, patterns: Seq<GlobPattern>, all: bool) -> bool {
    picked(b, patterns) && (all || probe_answer(b, title))
}

/// The listed bookmarks among the first `n`, in order.
pub open spec fn listing(bs: Seq<Bookmark>, titles: Seq<Option<String>>, patterns: Seq<GlobPattern>, all: bool, n: nat) -> Seq<Bookmark>
    decreases n,
{
    if n == 0 {
        Seq::<Bookmark>::empty()
    } else {
        let k = (n - 1) as nat;
        let rest = listing(bs, titles, patterns, all, k);
        if shown(bs[k as int], titles[k as int], patterns, all) {
            rest.push(bs[k as int])
        } else {
            rest
        }
    }
}

/// What the listing prints.
pub open spec fn printed_listing(bs: Seq<Bookmark>, format: ReturnFormatting) -> Seq<Seq<char>> {
    bs.map_values(|b: Bookmark| format.printed(b))
}

/// Whether `Bookmark::can_advance` would answer yes with the probe `title`.
fn would_advance(b: &Bookmark, title: &Option<String>) -> (r: bool)
    ensures
        r == probe_answer(*b, *title),
{
    if b.can_advance {
        return true;
    }
    match title {
        Some(t) => {
            let chars = chars_of(t.as_str());
            let marker: Vec<char> = vec!['4', '0', '4'];
            assert(marker@ =~= not_found_marker());
            !contains(chars.as_slice(), marker.as_slice())
        },
        None => false,
    }
}

/// A copy of the probe title.
fn title_copy(title: &Option<String>) -> (r: Option<String>)
    ensures
        r == *title,
{
    match title {
        Some(t) => Some(t.clone()),
        None => None,
    }
}

/// The page to probe for a bookmark: the browser url of its next episode
/// when it is picked, not every picked bookmark is listed anyway, and its
/// cached answer is no.
pub open spec fn probe_needed(b: Bookmark, patterns: Seq<GlobPattern>, all: bool) -> bool {
    picked(b, patterns) && !all && !b.can_advance
}

impl Bookmarks {
    /// For each bookmark, the url of the page whose title the listing needs
    /// (see `probe_needed`), or `None` when it needs none. `None` as a whole
    /// when a bookmark to probe holds no episode that can be incremented.
    pub fn probe_urls(&self, patterns: &[GlobPattern], all: bool) -> (r: Option<Vec<Option<String>>>)
        ensures
            r is None <==> exists|i: int|
                0 <= i < self.0@.len() && probe_needed(#[trigger] self.0@[i], patterns@, all)
                    && !url_can_step_forward(self.0@[i].url),
            r matches Some(urls) ==> urls@.len() == self.0@.len() && forall|i: int|
                0 <= i < self.0@.len() ==> if probe_needed(#[trigger] self.0@[i], patterns@, all) {
                    urls@[i] matches Some(u) && u@ == browser_url(
                        with_episode(
                            self.0@[i].url.0@,
                            (episode_of(self.0@[i].url.0@).unwrap() + 1) as nat,
                        ),
                    )
                } else {
                    urls@[i] is None
                },
    {
        let mut urls: Vec<Option<String>> = Vec::new();
        let mut i: usize = 0;
        while i < self.0.len()
            invariant
                i <= self.0@.len(),
                urls@.len() == i,
                forall|j: int|
                    0 <= j < i && probe_needed(#[trigger] self.0@[j], patterns@, all)
                        ==> url_can_step_forward(self.0@[j].url),
                forall|j: int|
                    0 <= j < i ==> if probe_needed(#[trigger] self.0@[j], patterns@, all) {
                        urls@[j] matches Some(u) && u@ == browser_url(
                            with_episode(
                                self.0@[j].url.0@,
                                (episode_of(self.0@[j].url.0@).unwrap() + 1) as nat,
                            ),
                        )
                    } else {
                        urls@[j] is None
                    },
            decreases self.0@.len() - i,
        {
            let b = &self.0[i];
            if !all && !b.can_advance && b.matches(patterns) {
                let steps = match b.url.try_episode() {
                    Some(e) => e < usize::MAX,
                    None => false,
                };
                if !steps {
                    return None;
                }
                urls.push(b.probe_url());
            } else {
                urls.push(None);
            }
            i = i + 1;
        }
        Some(urls)
    }

    /// The listing of the `print` commandimpl Bookmarks {
    /// The listing of the `print` command: the picked bookmarks that can
    /// advance (all picked ones with `all`), printed in `format` and joined
    /// with ` ; `. `titles[i]` is the title of the page of the next episode of
    /// bookmark `i`, asked for when its cached answer is no; the answers are
    /// cached. `None` when an episode is to be printed of a url that holds
    /// none.
    pub fn print_selection(
        &mut self,
        patterns: &[GlobPattern],
        all: bool,
        format: ReturnFormatting,
        titles: &[Option<String>],
    ) -> (r: Option<String>)
        requires
            titles@.len() == old(self).0@.len(),
        ensures
            final(self).0@.len() == old(self).0@.len(),
            forall|i: int|
                0 <= i < old(self).0@.len() ==> #[trigger] final(self).0@[i] == probed_if_needed(
                    old(self).0@[i],
                    titles@[i],
                    patterns@,
                    all,
                ),
            ({
                let chosen = listing(old(self).0@, titles@, patterns@, all, old(self).0@.len());
                &&& r is None <==> (format == ReturnFormatting::Episode && exists|k: int|
                    0 <= k < chosen.len() && episode_of(#[trigger] chosen[k].url.0@) is None)
                &&& r matches Some(s) ==> s@ == joined(printed_listing(chosen, format), " ; "@)
            }),
    {
        let ghost old_bs = self.0@;
        let mut parts: Vec<String> = Vec::new();
        let mut failed = false;
        let mut i: usize = 0;
        while i < self.0.len()
            invariant
                i <= self.0@.len(),
                self.0@.len() == old_bs.len(),
                titles@.len() == old_bs.len(),
                forall|j: int| 0 <= j < i ==> #[trigger] self.0@[j] == probed_if_needed(
                    old_bs[j],
                    titles@[j],
                    patterns@,
                    all,
                ),
                forall|j: int| i <= j < old_bs.len() ==> #[trigger] self.0@[j] == old_bs[j],
                ({
                    let chosen = listing(old_bs, titles@, patterns@, all, i as nat);
                    &&& failed <==> (format == ReturnFormatting::Episode && exists|k: int|
                        0 <= k < chosen.len() && episode_of(#[trigger] chosen[k].url.0@) is None)
                    &&& !failed ==> parts@.map_values(|p: String| p@) == printed_listing(chosen, format)
                }),
            decreases old_bs.len() - i,
        {
            let ghost chosen_before = listing(old_bs, titles@, patterns@, all, i as nat);
            let picked_now = self.0[i].matches(patterns);
            let show = if picked_now {
                if all {
                    true
                } else {
                    let title = title_copy(&titles[i]);
                    let b = &mut self.0[i];
                    b.can_advance(title)
                }
            } else {
                false
            };
            proof {
                assert(self.0@[i as int] == probed_if_needed(old_bs[i as int], titles@[i as int], patterns@, all));
                assert(show == shown(old_bs[i as int], titles@[i as int], patterns@, all));
            }
            if show {
                let b = &self.0[i];
                if format == ReturnFormatting::Episode && b.url.try_episode().is_none() {
                    failed = true;
                    proof {
                        let chosen = chosen_before.push(old_bs[i as int]);
                        assert(chosen[chosen.len() - 1] == old_bs[i as int]);
                    }
                } else if !failed {
                    let ghost before = parts@.map_values(|p: String| p@);
                    let part = format.print(b);
                    parts.push(part);
                    assert(parts@.map_values(|p: String| p@) =~= before.push(part@));
                    assert(printed_listing(chosen_before.push(old_bs[i as int]), format) =~= printed_listing(
                        chosen_before,
                        format,
                    ).push(format.printed(old_bs[i as int])));
                }
                proof {
                    let chosen = chosen_before.push(old_bs[i as int]);
                    if failed && !(format == ReturnFormatting::Episode && episode_of(
                        old_bs[i as int].url.0@,
                    ) is None) {
                        let k = choose|k: int|
                            0 <= k < chosen_before.len() && episode_of(
                                #[trigger] chosen_before[k].url.0@,
                            ) is None;
                        assert(chosen[k] == chosen_before[k]);
                    }
                    if !failed {
                        assert forall|k: int| 0 <= k < chosen.len() implies !(format
                            == ReturnFormatting::Episode && episode_of(#[trigger] chosen[k].url.0@)
                            is None) by {
                            if k < chosen_before.len() {
                                assert(chosen[k] == chosen_before[k]);
                            }
                        }
                    }
                }
            }
            i = i + 1;
        }
        if failed {
            None
        } else {
            Some(join(parts.as_slice(), " ; "))
        }
    }

    /// The `advance` command: each picked bookmark that can advance moves on
    /// to its next episode. `titles` are the probes as for `print_selection`.
    /// `false`, with nothing changed, when a bookmark that would advance
    /// holds no episode that can be incremented.
    pub fn advance_selection(&mut self, patterns: &[GlobPattern], titles: &[Option<String>]) -> (r: bool)
        requires
            titles@.len() == old(self).0@.len(),
        ensures
            r <==> forall|i: int|
                0 <= i < old(self).0@.len() && shown(old(self).0@[i], titles@[i], patterns@, false)
                    ==> url_can_step_forward(#[trigger] old(self).0@[i].url),
            !r ==> final(self).0@ == old(self).0@,
            r ==> final(self).0@.len() == old(self).0@.len(),
            r ==> forall|i: int|
                0 <= i < old(self).0@.len() ==> if shown(
                    old(self).0@[i],
                    titles@[i],
                    patterns@,
                    false,
                ) {
                    advanced_from(#[trigger] final(self).0@[i], old(self).0@[i])
                } else {
                    final(self).0@[i] == probed_if_needed(old(self).0@[i], titles@[i], patterns@, false)
                },
    {
        let ghost old_bs = self.0@;
        let mut i: usize = 0;
        while i < self.0.len()
            invariant
                i <= self.0@.len(),
                self.0@ == old_bs,
                titles@.len() == old_bs.len(),
                forall|j: int|
                    0 <= j < i && shown(old_bs[j], titles@[j], patterns@, false)
                        ==> url_can_step_forward(#[trigger] old_bs[j].url),
            decreases old_bs.len() - i,
        {
            let b = &self.0[i];
            if b.matches(patterns) && would_advance(b, &titles[i]) {
                let ok = match b.url.try_episode() {
                    Some(e) => e < usize::MAX,
                    None => false,
                };
                if !ok {
                    return false;
                }
            }
            i = i + 1;
        }
        let mut i: usize = 0;
        while i < self.0.len()
            invariant
                i <= self.0@.len(),
                self.0@.len() == old_bs.len(),
                titles@.len() == old_bs.len(),
                forall|j: int|
                    0 <= j < old_bs.len() && shown(old_bs[j], titles@[j], patterns@, false)
                        ==> url_can_step_forward(#[trigger] old_bs[j].url),
                forall|j: int|
                    0 <= j < i ==> if shown(old_bs[j], titles@[j], patterns@, false) {
                        advanced_from(#[trigger] self.0@[j], old_bs[j])
                    } else {
                        self.0@[j] == probed_if_needed(old_bs[j], titles@[j], patterns@, false)
                    },
                forall|j: int| i <= j < old_bs.len() ==> #[trigger] self.0@[j] == old_bs[j],
            decreases old_bs.len() - i,
        {
            if self.0[i].matches(patterns) {
                let title = title_copy(&titles[i]);
                let b = &mut self.0[i];
                if b.can_advance(title) {
                    b.advance();
                }
            }
            i = i + 1;
        }
        true
    }
}

/// With no pattern and every bookmark asked for, the listing holds every
/// bookmark, in order; asked only for those with a new episode, it holds none
/// when no page was reached and no answer was cached.
pub proof fn law_listing_without_patterns(bs: Seq<Bookmark>, titles: Seq<Option<String>>, n: nat)
    requires
        n <= bs.len(),
        n <= titles.len(),
    ensures
        listing(bs, titles, Seq::<GlobPattern>::empty(), true, n) == bs.take(n as int),
        (forall|i: int| 0 <= i < n ==> !bs[i].can_advance && #[trigger] titles[i] is None)
            ==> listing(bs, titles, Seq::<GlobPattern>::empty(), false, n).len() == 0,
    decreases n,
{
    if n > 0 {
        law_listing_without_patterns(bs, titles, (n - 1) as nat);
        assert(bs.take(n as int) =~= bs.take(n - 1).push(bs[n - 1]));
        if forall|i: int| 0 <= i < n ==> !bs[i].can_advance && #[trigger] titles[i] is None {
            assert(titles[n - 1] is None);
        }
    }
}

} // verus!
