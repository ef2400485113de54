//! Bookmarks of web series: a name and a url whose current episode number is
//! written between `{{` and `}}`.
use vstd::prelude::*;

use crate::pattern::{any_matches, any_pattern_matches, GlobPattern};
use crate::text::{
    chars_of, contains, contains_spec, decimal_chars, decimal_string, extend_chars, find,
    find_spec, lemma_find, lemma_find_is, lemma_parse_decimal_string, occurs_at, parse_usize,
    parse_usize_spec, replace, replace_spec, string_of, is_digit,
    lemma_decimal_string_digits, lemma_replace_single,
};

verus! {

// ---------------------------------------------------------------------------
// Url
// ---------------------------------------------------------------------------

/// `{{`, which opens the episode marker.
pub open spec fn open_marker() -> Seq<char> {
    seq!['{', '{']
}

/// `}}`, which closes the episode marker.
pub open spec fn close_marker() -> Seq<char> {
    seq!['}', '}']
}

/// Where the episode number stands in `s`: from two past the first `{{` up
/// to the first `}}`, when both are present and in that order.
pub open spec fn episode_span(s: Seq<char>) -> Option<(int, int)> {
    match (find_spec(s, open_marker()), find_spec(s, close_marker())) {
        (Some(a), Some(b)) => if a + 2 <= b {
            Some((a + 2, b))
        } else {
            None
        },
        _ => None,
    }
}

/// The current episode written in `s`, when the marker holds a number that
/// `str::parse::<usize>` reads.
pub open spec fn episode_of(s: Seq<char>) -> Option<usize> {
    match episode_span(s) {
        Some((a, b)) => parse_usize_spec(s.subrange(a, b)),
        None => None,
    }
}

/// `s` with the text between the markers replaced by the numeral of `n`.
pub open spec fn with_episode(s: Seq<char>, n: nat) -> Seq<char>
    recommends
        episode_span(s) is Some,
{
    let (a, b) = episode_span(s).unwrap();
    s.take(a) + decimal_string(n) + s.skip(b)
}

/// The url as a browser takes it: every `{{` removed, then every `}}`.
pub open spec fn browser_url(s: Seq<char>) -> Seq<char> {
    replace_spec(replace_spec(s, open_marker(), Seq::empty()), close_marker(), Seq::empty())
}

/// A bookmark url is the internal representation of the url for the bookmarks.
/// It uses the format `https://example_url{{episode number}}/somethingsomething`.
pub struct Url(pub String);

impl Url {
    /// Returns the properly formated url for the browser.
    ///
    /// This removes the "{{}}" symbols which indicate the current episode
    pub fn get(&self) -> (r: String)
        ensures
            r@ == browser_url(self.0@),
    {
        let s = chars_of(self.0.as_str());
        let open: Vec<char> = vec!['{', '{'];
        let close: Vec<char> = vec!['}', '}'];
        let empty: Vec<char> = Vec::new();
        let without_open = replace(s.as_slice(), open.as_slice(), empty.as_slice());
        let without_close = replace(without_open.as_slice(), close.as_slice(), empty.as_slice());
        assert(open@ =~= open_marker());
        assert(close@ =~= close_marker());
        assert(empty@ =~= Seq::<char>::empty());
        string_of(without_close.as_slice())
    }

    /// Returns the start and end index of the episode marker.
    /// The current episode is assumed to be in following format "{{episode}}"
    fn episode_position(&self) -> (r: (usize, usize))
        requires
            find_spec(self.0@, open_marker()) is Some,
            find_spec(self.0@, close_marker()) is Some,
        ensures
            r.0 == find_spec(self.0@, open_marker()).unwrap() + 2,
            r.1 == find_spec(self.0@, close_marker()).unwrap(),
            r.0 <= self.0@.len(),
            r.1 + 2 <= self.0@.len(),
    {
        let s = chars_of(self.0.as_str());
        let open: Vec<char> = vec!['{', '{'];
        let close: Vec<char> = vec!['}', '}'];
        assert(open@ =~= open_marker());
        assert(close@ =~= close_marker());
        proof {
            lemma_find(s@, open@);
            lemma_find(s@, close@);
        }
        let found_open = find(s.as_slice(), open.as_slice());
        let found_close = find(s.as_slice(), close.as_slice());
        let open_at = found_open.unwrap();
        let close_at = found_close.unwrap();
        assert(occurs_at(s@, open@, open_at as int));
        assert(occurs_at(s@, close@, close_at as int));
        let len = s.len();
        assert(open_at + 2 <= len);
        (open_at + 2, close_at)
    }

    /// Returns the current episode
    pub fn episode(&self) -> (r: usize)
        requires
            episode_of(self.0@) is Some,
        ensures
            r == episode_of(self.0@).unwrap(),
    {
        let (start, end) = self.episode_position();
        let s = chars_of(self.0.as_str());
        let digits = slice_chars(&s, start, end);
        parse_usize(digits.as_slice()).unwrap()
    }

    /// The current episode, or `None` when the url holds no marker with a
    /// number in it.
    pub fn try_episode(&self) -> (r: Option<usize>)
        ensures
            r == episode_of(self.0@),
    {
        let s = chars_of(self.0.as_str());
        let open: Vec<char> = vec!['{', '{'];
        let close: Vec<char> = vec!['}', '}'];
        assert(open@ =~= open_marker());
        assert(close@ =~= close_marker());
        proof {
            lemma_find(s@, open@);
            lemma_find(s@, close@);
        }
        let (open_at, close_at) = match (find(s.as_slice(), open.as_slice()), find(s.as_slice(), close.as_slice())) {
            (Some(a), Some(b)) => (a, b),
            _ => {
                return None;
            },
        };
        assert(occurs_at(s@, open@, open_at as int));
        let len = s.len();
        assert(open_at + 2 <= len);
        if open_at + 2 > close_at {
            return None;
        }
        let digits = slice_chars(&s, open_at + 2, close_at);
        parse_usize(digits.as_slice())
    }

    /// `self` with the number between the markers replaced by `n`.
    fn with_episode(&self, n: usize) -> (r: Url)
        requires
            episode_span(self.0@) is Some,
        ensures
            r.0@ == with_episode(self.0@, n as nat),
    {
        let (start, end) = self.episode_position();
        let s = chars_of(self.0.as_str());
        let mut out = slice_chars(&s, 0, start);
        let numeral = decimal_chars(n);
        extend_chars(&mut out, numeral.as_slice());
        let rest = slice_chars(&s, end, s.len());
        extend_chars(&mut out, rest.as_slice());
        assert(out@ =~= with_episode(self.0@, n as nat));
        Url(string_of(out.as_slice()))
    }

    /// Returns the next url of the bookmark
    pub fn next(&self) -> (r: Url)
        requires
            episode_of(self.0@) is Some,
            episode_of(self.0@).unwrap() < usize::MAX,
        ensures
            r.0@ == with_episode(self.0@, (episode_of(self.0@).unwrap() + 1) as nat),
    {
        let current_episode = self.episode();
        self.with_episode(current_episode + 1)
    }

    /// Returns the previous url of the bookmark
    pub fn previous(&self) -> (r: Url)
        requires
            episode_of(self.0@) is Some,
            episode_of(self.0@).unwrap() >= 1,
        ensures
            r.0@ == with_episode(self.0@, (episode_of(self.0@).unwrap() - 1) as nat),
    {
        let current_episode = self.episode();
        self.with_episode(current_episode - 1)
    }
}

/// The characters of `s` from `start` up to `end`.
fn slice_chars(s: &Vec<char>, start: usize, end: usize) -> (r: Vec<char>)
    requires
        start <= end <= s@.len(),
    ensures
        r@ == s@.subrange(start as int, end as int),
{
    let mut r: Vec<char> = Vec::new();
    let mut i: usize = start;
    while i < end
        invariant
            start <= i <= end <= s@.len(),
            r@ == s@.subrange(start as int, i as int),
        decreases end - i,
    {
        r.push(s[i]);
        assert(s@.subrange(start as int, i + 1) =~= s@.subrange(start as int, i as int).push(
            s@[i as int],
        ));
        i = i + 1;
    }
    r
}

/// Writing a number between the markers makes it the url's episode: the url
/// that `Url::next` gives has the episode after the current one, and the one
/// that `Url::previous` gives the episode before it.
pub proof fn lemma_episode_of_with_episode(s: Seq<char>, n: nat)
    requires
        episode_span(s) is Some,
        n <= usize::MAX,
    ensures
        episode_span(with_episode(s, n)) == Some(
            (episode_span(s).unwrap().0, episode_span(s).unwrap().0 + decimal_string(n).len()),
        ),
        episode_of(with_episode(s, n)) == Some(n as usize),
{
    let (a, b) = episode_span(s).unwrap();
    let oa = a - 2;
    let d = decimal_string(n);
    let t = with_episode(s, n);
    lemma_find(s, open_marker());
    lemma_find(s, close_marker());
    lemma_decimal_string_digits(n);
    assert(t =~= s.take(a) + d + s.skip(b));
    assert(t.len() == a + d.len() + (s.len() - b));
    // the opening marker stays where it was
    assert(t.subrange(oa, a) =~= s.subrange(oa, a));
    assert(occurs_at(t, open_marker(), oa));
    assert forall|j: int| 0 <= j < oa implies !#[trigger] occurs_at(t, open_marker(), j) by {
        assert(t[j] == s[j]);
        assert(t[j + 1] == s[j + 1]);
        assert(!occurs_at(s, open_marker(), j));
        if occurs_at(t, open_marker(), j) {
            assert(t.subrange(j, j + 2)[0] == t[j]);
            assert(t.subrange(j, j + 2)[1] == t[j + 1]);
            assert(s.subrange(j, j + 2) =~= open_marker());
        }
    }
    lemma_find_is(t, open_marker(), oa);
    // the closing marker follows the new numeral
    let c = a + d.len();
    assert(s.subrange(b, b + 2) =~= close_marker());
    assert(t.subrange(c, c + 2) =~= s.subrange(b, b + 2));
    assert(occurs_at(t, close_marker(), c));
    assert forall|j: int| 0 <= j < c implies !#[trigger] occurs_at(t, close_marker(), j) by {
        if j + 2 <= a {
            assert(t[j] == s[j]);
            assert(t[j + 1] == s[j + 1]);
            assert(!occurs_at(s, close_marker(), j));
            if occurs_at(t, close_marker(), j) {
                assert(t.subrange(j, j + 2)[0] == t[j]);
                assert(t.subrange(j, j + 2)[1] == t[j + 1]);
                assert(s.subrange(j, j + 2) =~= close_marker());
            }
        } else if j == a - 1 {
            assert(t[j] == s[j]);
            assert(s.subrange(oa, a)[1] == s[j]);
            assert(t.subrange(j, j + 2)[0] == t[j]);
        } else {
            assert(t[j] == d[j - a]);
            assert(is_digit(d[j - a]));
            assert(t.subrange(j, j + 2)[0] == t[j]);
        }
    }
    lemma_find_is(t, close_marker(), c);
    assert(t.subrange(a, c) =~= d);
    lemma_parse_decimal_string(n);
}

/// Writing two numbers in turn leaves the last one: going to the next
/// episode and back gives the url with the same episode number.
pub proof fn lemma_with_episode_twice(s: Seq<char>, n: nat, m: nat)
    requires
        episode_span(s) is Some,
        n <= usize::MAX,
    ensures
        with_episode(with_episode(s, n), m) == with_episode(s, m),
{
    lemma_episode_of_with_episode(s, n);
    lemma_find(s, open_marker());
    lemma_find(s, close_marker());
    let (a, b) = episode_span(s).unwrap();
    let d = decimal_string(n);
    let t = with_episode(s, n);
    assert(t =~= s.take(a) + d + s.skip(b));
    assert(t.take(a) =~= s.take(a));
    assert(t.skip(a + d.len()) =~= s.skip(b));
    assert(with_episode(t, m) =~= t.take(a) + decimal_string(m) + t.skip(a + d.len()));
}

/// When the episode is written as `usize::to_string` writes it, writing the
/// same number again changes nothing: `Url::next` then `Url::previous`
/// (or the reverse) gives the url back.
pub proof fn lemma_with_same_episode(s: Seq<char>)
    requires
        episode_span(s) is Some,
        episode_of(s) is Some,
        s.subrange(episode_span(s).unwrap().0, episode_span(s).unwrap().1) == decimal_string(
            episode_of(s).unwrap() as nat,
        ),
    ensures
        with_episode(s, episode_of(s).unwrap() as nat) == s,
{
    lemma_find(s, open_marker());
    lemma_find(s, close_marker());
    let (a, b) = episode_span(s).unwrap();
    assert(s =~= s.take(a) + s.subrange(a, b) + s.skip(b));
}

/// A url written as text without braces, then `{{`, the numeral of `n`,
/// `}}` and any text: its episode is `n`, the url before it has episode
/// `n - 1`, and going on then back, or back then on, gives the url again.
pub proof fn law_url_steps_undo(before: Seq<char>, after: Seq<char>, n: nat)
    requires
        forall|i: int| 0 <= i < before.len() ==> #[trigger] before[i] != '{' && before[i] != '}',
        1 <= n < usize::MAX,
    ensures
        episode_of(before + open_marker() + decimal_string(n) + close_marker() + after) == Some(
            n as usize,
        ),
        episode_of(
            with_episode(
                before + open_marker() + decimal_string(n) + close_marker() + after,
                (n - 1) as nat,
            ),
        ) == Some((n - 1) as usize),
        with_episode(
            with_episode(
                before + open_marker() + decimal_string(n) + close_marker() + after,
                n + 1,
            ),
            n,
        ) == before + open_marker() + decimal_string(n) + close_marker() + after,
        with_episode(
            with_episode(
                before + open_marker() + decimal_string(n) + close_marker() + after,
                (n - 1) as nat,
            ),
            n,
        ) == before + open_marker() + decimal_string(n) + close_marker() + after,
{
    let d = decimal_string(n);
    let s = before + open_marker() + d + close_marker() + after;
    let la = before.len() as int;
    let c = la + 2 + d.len();
    lemma_decimal_string_digits(n);
    assert(s[la] == '{' && s[la + 1] == '{');
    assert forall|j: int| la + 2 <= j < c implies #[trigger] s[j] == d[j - la - 2] by {}
    assert(s[c] == '}' && s[c + 1] == '}');
    assert(s.subrange(la, la + 2) =~= open_marker());
    assert(occurs_at(s, open_marker(), la));
    assert forall|j: int| 0 <= j < la implies !#[trigger] occurs_at(s, open_marker(), j) by {
        assert(s[j] == before[j]);
        if occurs_at(s, open_marker(), j) {
            assert(s.subrange(j, j + 2)[0] == s[j]);
        }
    }
    lemma_find_is(s, open_marker(), la);
    assert(s.subrange(c, c + 2) =~= close_marker());
    assert(occurs_at(s, close_marker(), c));
    assert forall|j: int| 0 <= j < c implies !#[trigger] occurs_at(s, close_marker(), j) by {
        if occurs_at(s, close_marker(), j) {
            assert(s.subrange(j, j + 2)[0] == s[j]);
            if j < la {
                assert(s[j] == before[j]);
            } else if j < la + 2 {
            } else {
                assert(is_digit(d[j - la - 2]));
            }
        }
    }
    lemma_find_is(s, close_marker(), c);
    assert(episode_span(s) == Some((la + 2, c)));
    assert(s.subrange(la + 2, c) =~= d);
    lemma_parse_decimal_string(n);
    lemma_with_same_episode(s);
    lemma_with_episode_twice(s, n + 1, n);
    lemma_with_episode_twice(s, (n - 1) as nat, n);
    lemma_episode_of_with_episode(s, (n - 1) as nat);
}

// ---------------------------------------------------------------------------
// Bookmark
// ---------------------------------------------------------------------------

/// `404`, which a page title holds when there is no such episode.
pub open spec fn not_found_marker() -> Seq<char> {
    seq!['4', '0', '4']
}

/// The url holds an episode number that can be incremented.
pub open spec fn url_can_step_forward(url: Url) -> bool {
    episode_of(url.0@) is Some && episode_of(url.0@).unwrap() < usize::MAX
}

/// The url holds an episode number that can be decremented.
pub open spec fn url_can_step_back(url: Url) -> bool {
    episode_of(url.0@) is Some && episode_of(url.0@).unwrap() >= 1
}

/// `after` is `before` moved on to the next episode.
pub open spec fn advanced_from(after: Bookmark, before: Bookmark) -> bool {
    &&& after.name == before.name
    &&& after.can_advance == false
    &&& after.url.0@ == with_episode(
        before.url.0@,
        (episode_of(before.url.0@).unwrap() + 1) as nat,
    )
}

/// `after` is `before` moved back to the previous episode.
pub open spec fn went_back_from(after: Bookmark, before: Bookmark) -> bool {
    &&& after.name == before.name
    &&& after.can_advance == false
    &&& after.url.0@ == with_episode(
        before.url.0@,
        (episode_of(before.url.0@).unwrap() - 1) as nat,
    )
}

/// What `Bookmark::can_advance` answers for `b` when the page of the next
/// episode had the title `page_title` (`None`: not reachable, or no title).
pub open spec fn probe_answer(b: Bookmark, page_title: Option<String>) -> bool {
    if b.can_advance {
        true
    } else {
        match page_title {
            Some(title) => !contains_spec(title@, not_found_marker()),
            None => false,
        }
    }
}

/// The bookmark after `Bookmark::can_advance` with the probe `page_title`.
pub open spec fn probed_from(after: Bookmark, before: Bookmark, page_title: Option<String>) -> bool {
    &&& after.name == before.name
    &&& after.url == before.url
    &&& after.can_advance == probe_answer(before, page_title)
}

pub struct Bookmark {
    /// The name of the bookmark. This can be the title of the series.
    /// The name is assumed to be unique and can be used as uniquekey
    pub name: String,
    /// The url of the bookmark. Note that the episode number is surrounded by "{{ }}"
    pub url: Url,
    /// Since pinging the website for the next episode can be taxing the result is saved.
    pub can_advance: bool,
}

impl Bookmark {
    /// The browser url of the next episode, whose page decides whether the
    /// bookmark can advance; `None` when the cached answer already says so.
    pub fn probe_url(&self) -> (r: Option<String>)
        requires
            !self.can_advance ==> url_can_step_forward(self.url),
        ensures
            self.can_advance ==> r is None,
            !self.can_advance ==> (r matches Some(u) && u@ == browser_url(
                with_episode(self.url.0@, (episode_of(self.url.0@).unwrap() + 1) as nat),
            )),
    {
        if self.can_advance {
            return None;
        }
        Some(self.url.next().get())
    }

    /// Returns if the bookmark can advance to the next episode, given the
    /// title of the page of the next episode (`None` when that page could not
    /// be reached or has no title). A title that holds `404` means there is
    /// no next episode yet.
    ///
    /// The result is cached for each bookmark
    pub fn can_advance(&mut self, page_title: Option<String>) -> (r: bool)
        ensures
            r == probe_answer(*old(self), page_title),
            probed_from(*final(self), *old(self), page_title),
    {
        if self.can_advance {
            return true;
        }
        let Some(title) = page_title else {
            return false;
        };
        let title_chars = chars_of(title.as_str());
        let marker: Vec<char> = vec!['4', '0', '4'];
        assert(marker@ =~= not_found_marker());
        self.can_advance = !contains(title_chars.as_slice(), marker.as_slice());
        self.can_advance
    }

    /// Moves the bookmark on to the next episode.
    pub fn advance(&mut self)
        requires
            url_can_step_forward(old(self).url),
        ensures
            advanced_from(*final(self), *old(self)),
    {
        self.can_advance = false;
        self.url = self.url.next();
    }

    /// Moves the bookmark back to the previous episode.
    pub fn previous(&mut self)
        requires
            url_can_step_back(old(self).url),
        ensures
            went_back_from(*final(self), *old(self)),
    {
        self.can_advance = false;
        self.url = self.url.previous();
    }

    /// Whether one of the patterns matches the name; every name matches when
    /// there is no pattern.
    pub fn matches(&self, patterns: &[GlobPattern]) -> (r: bool)
        ensures
            r == (patterns@.len() == 0 || any_matches(patterns@, self.name@)),
    {
        if patterns.len() == 0 {
            return true;
        }
        any_pattern_matches(patterns, self.name.as_str())
    }
}

/// The answer of `Bookmark::can_advance` is cached: once it said yes, it says
/// yes again whatever the next probe finds, until the bookmark moves.
pub proof fn law_advance_answer_is_cached(b: Bookmark, probed: Bookmark, first: Option<String>, second: Option<String>)
    requires
        probe_answer(b, first),
        probed_from(probed, b, first),
    ensures
        probe_answer(probed, second),
        probed.url == b.url,
{
}

/// No brace stands in `s`.
pub open spec fn brace_free(s: Seq<char>) -> bool {
    forall|i: int| 0 <= i < s.len() ==> #[trigger] s[i] != '{' && s[i] != '}'
}

/// The only places where `pat`, two equal characters `c`, stands in `s` are
/// those where `s` holds `c` twice in a row; when that happens at `p` alone,
/// `pat` stands at `p` alone.
proof fn lemma_pair_only_at(s: Seq<char>, pat: Seq<char>, c: char, p: int)
    requires
        pat == seq![c, c],
        0 <= p && p + 1 < s.len(),
        s[p] == c && s[p + 1] == c,
        forall|i: int| 0 <= i < s.len() && #[trigger] s[i] == c ==> i == p || i == p + 1,
    ensures
        occurs_at(s, pat, p),
        forall|q: int| #[trigger] occurs_at(s, pat, q) ==> q == p,
{
    assert(s.subrange(p, p + 2) =~= pat);
    assert forall|q: int| #[trigger] occurs_at(s, pat, q) implies q == p by {
        assert(s.subrange(q, q + 2)[0] == s[q]);
        assert(s.subrange(q, q + 2)[1] == s[q + 1]);
    }
}

/// The url a browser gets: the markers around the episode are taken out and
/// everything else stays, in order.
pub proof fn law_browser_url_drops_the_markers(before: Seq<char>, middle: Seq<char>, after: Seq<char>)
    requires
        brace_free(before),
        brace_free(middle),
        brace_free(after),
    ensures
        browser_url(before + open_marker() + middle + close_marker() + after) == before + middle
            + after,
{
    let s = before + open_marker() + middle + close_marker() + after;
    let la = before.len() as int;
    let lm = middle.len() as int;
    assert forall|i: int| 0 <= i < s.len() && #[trigger] s[i] == '{' implies i == la || i == la
        + 1 by {
        if i < la {
            assert(s[i] == before[i]);
        } else if la + 2 <= i < la + 2 + lm {
            assert(s[i] == middle[i - la - 2]);
        } else if la + 2 + lm <= i < la + 4 + lm {
        } else if i >= la + 4 + lm {
            assert(s[i] == after[i - la - 4 - lm]);
        }
    }
    lemma_pair_only_at(s, open_marker(), '{', la);
    lemma_replace_single(s, open_marker(), Seq::empty(), la);
    let t = before + middle + close_marker() + after;
    assert(replace_spec(s, open_marker(), Seq::empty()) =~= t);
    assert forall|i: int| 0 <= i < t.len() && #[trigger] t[i] == '}' implies i == la + lm || i
        == la + lm + 1 by {
        if i < la {
            assert(t[i] == before[i]);
        } else if la <= i < la + lm {
            assert(t[i] == middle[i - la]);
        } else if i >= la + lm + 2 {
            assert(t[i] == after[i - la - lm - 2]);
        }
    }
    lemma_pair_only_at(t, close_marker(), '}', la + lm);
    lemma_replace_single(t, close_marker(), Seq::empty(), la + lm);
    assert(replace_spec(t, close_marker(), Seq::empty()) =~= before + middle + after);
}

/// Advancing a bookmark writes the next episode number between the markers
/// and leaves the text before and after them as it was.
pub proof fn law_advance_writes_the_next_number(b: Bookmark, moved: Bookmark)
    requires
        url_can_step_forward(b.url),
        advanced_from(moved, b),
    ensures
        episode_of(moved.url.0@) == Some((episode_of(b.url.0@).unwrap() + 1) as usize),
        moved.url.0@ == b.url.0@.take(episode_span(b.url.0@).unwrap().0) + decimal_string(
            (episode_of(b.url.0@).unwrap() + 1) as nat,
        ) + b.url.0@.skip(episode_span(b.url.0@).unwrap().1),
        moved.name == b.name,
        !moved.can_advance,
{
    lemma_episode_of_with_episode(b.url.0@, (episode_of(b.url.0@).unwrap() + 1) as nat);
}

/// The text `404` stands in `t` at `i`.
pub open spec fn holds_404_at(t: Seq<char>, i: int) -> bool {
    0 <= i && i + 3 <= t.len() && t[i] == '4' && t[i + 1] == '0' && t[i + 2] == '4'
}

/// A bookmark not yet known to have a new episode is said to have one
/// exactly when a page title was found and `404` stands nowhere in it; once
/// known, the answer stays yes.
pub proof fn law_probe_reads_404_anywhere(b: Bookmark, page_title: Option<String>)
    ensures
        b.can_advance ==> probe_answer(b, page_title),
        !b.can_advance ==> (probe_answer(b, page_title) <==> (page_title matches Some(t)
            && !exists|i: int| #[trigger] holds_404_at(t@, i))),
{
    if let Some(t) = page_title {
        let s = t@;
        let m = not_found_marker();
        lemma_find(s, m);
        if let Some(k) = find_spec(s, m) {
            assert(s.subrange(k, k + 3)[0] == s[k]);
            assert(s.subrange(k, k + 3)[1] == s[k + 1]);
            assert(s.subrange(k, k + 3)[2] == s[k + 2]);
            assert(holds_404_at(s, k));
        } else {
            assert forall|i: int| !#[trigger] holds_404_at(s, i) by {
                if holds_404_at(s, i) {
                    assert(s.subrange(i, i + 3) =~= m);
                    assert(occurs_at(s, m, i));
                }
            }
        }
    }
}

/// Advancing a bookmark and going back again gives the episode it had, and
/// the very url when its episode was written as `usize::to_string` writes it.
pub proof fn law_advance_then_previous(b: Bookmark, moved: Bookmark, back: Bookmark)
    requires
        url_can_step_forward(b.url),
        advanced_from(moved, b),
        went_back_from(back, moved),
    ensures
        url_can_step_back(moved.url),
        back.name == b.name,
        !back.can_advance,
        episode_of(back.url.0@) == episode_of(b.url.0@),
        back.url.0@ == with_episode(b.url.0@, episode_of(b.url.0@).unwrap() as nat),
        b.url.0@.subrange(
            episode_span(b.url.0@).unwrap().0,
            episode_span(b.url.0@).unwrap().1,
        ) == decimal_string(episode_of(b.url.0@).unwrap() as nat) ==> back.url.0@ == b.url.0@,
{
    let s = b.url.0@;
    let e = episode_of(s).unwrap() as nat;
    lemma_episode_of_with_episode(s, e + 1);
    lemma_with_episode_twice(s, e + 1, e);
    lemma_episode_of_with_episode(s, e);
    if s.subrange(episode_span(s).unwrap().0, episode_span(s).unwrap().1) == decimal_string(e) {
        lemma_with_same_episode(s);
    }
}

// ---------------------------------------------------------------------------
// Bookmarks
// ---------------------------------------------------------------------------

#[derive(Debug, PartialEq, Eq, Structural)]
pub enum BookmarkInsertError {
    NameAlreadyFound,
    WrongFormat,
}

/// The index of the first bookmark of `bs` named `name`.
pub open spec fn first_named(bs: Seq<Bookmark>, name: Seq<char>) -> Option<int>
    decreases bs.len(),
{
    if bs.len() == 0 {
        None
    } else if bs[0].name@ == name {
        Some(0)
    } else {
        match first_named(bs.drop_first(), name) {
            Some(i) => Some(i + 1),
            None => None,
        }
    }
}

/// Some bookmark of `bs` is named `name`.
pub open spec fn has_name(bs: Seq<Bookmark>, name: Seq<char>) -> bool {
    first_named(bs, name) is Some
}

/// No two bookmarks share a name.
pub open spec fn names_unique(bs: Seq<Bookmark>) -> bool {
    forall|i: int, j: int|
        0 <= i < bs.len() && 0 <= j < bs.len() && i != j ==> #[trigger] bs[i].name@
            != #[trigger] bs[j].name@
}

/// `bs` after trying to add `b`: unchanged when the name is taken.
pub open spec fn pushed(bs: Seq<Bookmark>, b: Bookmark) -> Seq<Bookmark> {
    if has_name(bs, b.name@) {
        bs
    } else {
        bs.push(b)
    }
}

/// `bs` without its first bookmark named `name`.
pub open spec fn removed(bs: Seq<Bookmark>, name: Seq<char>) -> Seq<Bookmark> {
    match first_named(bs, name) {
        Some(i) => bs.remove(i),
        None => bs,
    }
}

/// The bookmarks that some pattern matches, in their order.
pub open spec fn matching(bs: Seq<Bookmark>, patterns: Seq<GlobPattern>) -> Seq<Bookmark>
    decreases bs.len(),
{
    if bs.len() == 0 {
        bs
    } else if any_matches(patterns, bs.last().name@) {
        matching(bs.drop_last(), patterns).push(bs.last())
    } else {
        matching(bs.drop_last(), patterns)
    }
}

/// `first_named` gives the first bookmark with the name.
pub proof fn lemma_first_named(bs: Seq<Bookmark>, name: Seq<char>)
    ensures
        match first_named(bs, name) {
            Some(i) => 0 <= i < bs.len() && bs[i].name@ == name && forall|j: int|
                0 <= j < i ==> #[trigger] bs[j].name@ != name,
            None => forall|j: int| 0 <= j < bs.len() ==> #[trigger] bs[j].name@ != name,
        },
    decreases bs.len(),
{
    if bs.len() > 0 && bs[0].name@ != name {
        lemma_first_named(bs.drop_first(), name);
        assert forall|j: int| 1 <= j < bs.len() implies #[trigger] bs[j].name@ == bs.drop_first()[j
            - 1].name@ by {}
    }
}

/// The first index in `bs` whose bookmark is named `name`.
fn position(bs: &Vec<Bookmark>, name: &String) -> (r: Option<usize>)
    ensures
        match first_named(bs@, name@) {
            Some(i) => r matches Some(k) && k == i,
            None => r is None,
        },
        r matches Some(k) ==> k < bs@.len() && bs@[k as int].name@ == name@,
{
    proof {
        lemma_first_named(bs@, name@);
    }
    let mut i: usize = 0;
    while i < bs.len()
        invariant
            i <= bs@.len(),
            forall|j: int| 0 <= j < i ==> #[trigger] bs@[j].name@ != name@,
        decreases bs@.len() - i,
    {
        if bs[i].name == *name {
            proof {
                lemma_first_named(bs@, name@);
            }
            return Some(i);
        }
        i = i + 1;
    }
    proof {
        lemma_first_named(bs@, name@);
    }
    None
}

pub struct Bookmarks(pub Vec<Bookmark>);

/// Adding a bookmark never gives two bookmarks the same name.
pub proof fn law_push_keeps_names_unique(bs: Seq<Bookmark>, b: Bookmark)
    requires
        names_unique(bs),
    ensures
        names_unique(pushed(bs, b)),
{
    lemma_first_named(bs, b.name@);
    let p = pushed(bs, b);
    if !has_name(bs, b.name@) {
        assert forall|i: int, j: int|
            0 <= i < p.len() && 0 <= j < p.len() && i != j implies #[trigger] p[i].name@
            != #[trigger] p[j].name@ by {
            if i == bs.len() {
                assert(bs[j].name@ != b.name@);
            } else if j == bs.len() {
                assert(bs[i].name@ != b.name@);
            } else {
                assert(bs[i].name@ != bs[j].name@);
            }
        }
    }
}

/// After a bookmark is added, looking its name up finds a bookmark of that
/// name, and it is the added one when the name was free.
pub proof fn law_get_after_push(bs: Seq<Bookmark>, b: Bookmark)
    ensures
        first_named(pushed(bs, b), b.name@) matches Some(i) && pushed(bs, b)[i].name@ == b.name@
            && (!has_name(bs, b.name@) ==> pushed(bs, b)[i] == b),
{
    lemma_first_named(bs, b.name@);
    lemma_first_named(pushed(bs, b), b.name@);
    if !has_name(bs, b.name@) {
        let p = pushed(bs, b);
        assert(p[bs.len() as int].name@ == b.name@);
        assert forall|j: int| 0 <= j < bs.len() implies #[trigger] p[j].name@ != b.name@ by {
            assert(p[j] == bs[j]);
        }
    }
}

/// When names are unique, removing a name leaves no bookmark of that name,
/// and the names stay unique.
pub proof fn law_remove_leaves_no_such_name(bs: Seq<Bookmark>, name: Seq<char>)
    requires
        names_unique(bs),
    ensures
        !has_name(removed(bs, name), name),
        names_unique(removed(bs, name)),
{
    lemma_first_named(bs, name);
    let r = removed(bs, name);
    lemma_first_named(r, name);
    if let Some(k) = first_named(bs, name) {
        assert forall|j: int| 0 <= j < r.len() implies #[trigger] r[j].name@ != name by {
            if j < k {
                assert(r[j] == bs[j]);
            } else {
                assert(r[j] == bs[j + 1]);
                assert(bs[k].name@ != bs[j + 1].name@);
            }
        }
        assert forall|i: int, j: int|
            0 <= i < r.len() && 0 <= j < r.len() && i != j implies #[trigger] r[i].name@
            != #[trigger] r[j].name@ by {
            let oi = if i < k { i } else { i + 1 };
            let oj = if j < k { j } else { j + 1 };
            assert(r[i] == bs[oi]);
            assert(r[j] == bs[oj]);
            assert(bs[oi].name@ != bs[oj].name@);
        }
    }
}

impl Bookmarks {
    /// Pushes a bookmark read from its text form; `None` stands for text that
    /// is not a bookmark.
    pub fn push(&mut self, parsed: Option<Bookmark>) -> (r: Result<(), BookmarkInsertError>)
        ensures
            match parsed {
                None => r == Err::<(), BookmarkInsertError>(BookmarkInsertError::WrongFormat)
                    && final(self).0@ == old(self).0@,
                Some(b) => final(self).0@ == pushed(old(self).0@, b) && (r is Ok <==> !has_name(
                    old(self).0@,
                    b.name@,
                )) && (r is Err ==> r == Err::<(), BookmarkInsertError>(
                    BookmarkInsertError::NameAlreadyFound,
                )),
            },
    {
        let Some(bookmark) = parsed else {
            return Err(BookmarkInsertError::WrongFormat);
        };
        self.push_entry(bookmark)
    }

    /// Adds the bookmark unless one with the same name is already there.
    pub fn push_entry(&mut self, bookmark: Bookmark) -> (r: Result<(), BookmarkInsertError>)
        ensures
            final(self).0@ == pushed(old(self).0@, bookmark),
            r is Ok <==> !has_name(old(self).0@, bookmark.name@),
            r is Err ==> r == Err::<(), BookmarkInsertError>(BookmarkInsertError::NameAlreadyFound),
    {
        if position(&self.0, &bookmark.name).is_some() {
            return Err(BookmarkInsertError::NameAlreadyFound);
        }
        self.0.push(bookmark);
        Ok(())
    }

    /// Moves the first bookmark named `name` on to the next episode and hands
    /// it out.
    pub fn advance(&mut self, name: &str) -> (r: Option<&mut Bookmark>)
        requires
            first_named(old(self).0@, name@) matches Some(i) ==> url_can_step_forward(
                old(self).0@[i].url,
            ),
        ensures
            match first_named(old(self).0@, name@) {
                Some(i) => r is Some && advanced_from(*r->0, old(self).0@[i])
                    && final(self).0@ == old(self).0@.update(i, *final(r->0)),
                None => r is None && final(self).0@ == old(self).0@,
            },
    {
        let key = name.to_owned();
        let found = position(&self.0, &key);
        match found {
            Some(i) => {
                assert(first_named(old(self).0@, name@) == Some(i as int));
                let bookmark = &mut self.0[i];
                bookmark.advance();
                Some(bookmark)
            },
            None => None,
        }
    }

    /// The first bookmark named `name`.
    pub fn get(&self, name: &str) -> (r: Option<&Bookmark>)
        ensures
            match first_named(self.0@, name@) {
                Some(i) => r == Some(&self.0@[i]),
                None => r is None,
            },
    {
        let key = name.to_owned();
        let found = position(&self.0, &key);
        match found {
            Some(i) => {
                assert(first_named(self.0@, name@) == Some(i as int));
                Some(&self.0[i])
            },
            None => None,
        }
    }

    /// Removes the first bookmark named `name`, if any.
    pub fn remove(&mut self, name: &str)
        ensures
            final(self).0@ == removed(old(self).0@, name@),
    {
        let key = name.to_owned();
        let found = position(&self.0, &key);
        match found {
            Some(index) => {
                assert(first_named(old(self).0@, name@) == Some(index as int));
                self.0.remove(index);
            },
            None => {},
        }
    }

    /// Moves the first bookmark named `name` back to the previous episode and
    /// hands it out.
    pub fn previous(&mut self, name: &str) -> (r: Option<&mut Bookmark>)
        requires
            first_named(old(self).0@, name@) matches Some(i) ==> url_can_step_back(
                old(self).0@[i].url,
            ),
        ensures
            match first_named(old(self).0@, name@) {
                Some(i) => r is Some && went_back_from(*r->0, old(self).0@[i])
                    && final(self).0@ == old(self).0@.update(i, *final(r->0)),
                None => r is None && final(self).0@ == old(self).0@,
            },
    {
        let key = name.to_owned();
        let found = position(&self.0, &key);
        match found {
            Some(i) => {
                assert(first_named(old(self).0@, name@) == Some(i as int));
                let bookmark = &mut self.0[i];
                bookmark.previous();
                Some(bookmark)
            },
            None => None,
        }
    }

    /// Whether the first bookmark named `name` can advance, given the title of
    /// the page of its next episode; `false` when there is no such bookmark.
    pub fn update(&mut self, name: &str, page_title: Option<String>) -> (r: bool)
        ensures
            match first_named(old(self).0@, name@) {
                Some(i) => r == probe_answer(old(self).0@[i], page_title) && final(self).0@.len()
                    == old(self).0@.len() && probed_from(
                    final(self).0@[i],
                    old(self).0@[i],
                    page_title,
                ) && forall|j: int|
                    0 <= j < old(self).0@.len() && j != i ==> #[trigger] final(self).0@[j]
                        == old(self).0@[j],
                None => !r && final(self).0@ == old(self).0@,
            },
    {
        let key = name.to_owned();
        let found = position(&self.0, &key);
        match found {
            Some(i) => {
                assert(first_named(old(self).0@, name@) == Some(i as int));
                let bookmark = &mut self.0[i];
                bookmark.can_advance(page_title)
            },
            None => false,
        }
    }

    /// Keeps only the bookmarks whose name one of the patterns matches; with
    /// no pattern every bookmark stays.
    pub fn filter(&mut self, patterns: &[GlobPattern])
        ensures
            patterns@.len() == 0 ==> final(self).0@ == old(self).0@,
            patterns@.len() > 0 ==> final(self).0@ == matching(old(self).0@, patterns@),
    {
        if patterns.len() == 0 {
            return;
        }
        let mut rest: Vec<Bookmark> = Vec::new();
        std::mem::swap(&mut rest, &mut self.0);
        let ghost all = rest@;
        // walk from the back, moving the matching bookmarks out in reverse order
        let mut kept_reversed: Vec<Bookmark> = Vec::new();
        assert(matching(all, patterns@) =~= matching(rest@, patterns@)
            + kept_reversed@.reverse());
        while rest.len() > 0
            invariant
                matching(all, patterns@) == matching(rest@, patterns@) + kept_reversed@.reverse(),
            decreases rest@.len(),
        {
            let ghost before = rest@;
            let ghost before_kept = kept_reversed@;
            let b = rest.pop().unwrap();
            assert(before.drop_last() == rest@);
            if any_pattern_matches(patterns, b.name.as_str()) {
                kept_reversed.push(b);
                assert(kept_reversed@.reverse() =~= seq![b] + before_kept.reverse());
                assert(matching(before, patterns@) =~= matching(rest@, patterns@).push(b));
                assert(matching(rest@, patterns@).push(b) + before_kept.reverse() =~= matching(
                    rest@,
                    patterns@,
                ) + kept_reversed@.reverse());
            }
        }
        assert(matching(rest@, patterns@) =~= Seq::<Bookmark>::empty());
        // restore the order
        let mut kept: Vec<Bookmark> = Vec::new();
        assert(matching(all, patterns@) =~= kept@ + kept_reversed@.reverse());
        while kept_reversed.len() > 0
            invariant
                matching(all, patterns@) == kept@ + kept_reversed@.reverse(),
            decreases kept_reversed@.len(),
        {
            let ghost before = kept_reversed@;
            let b = kept_reversed.pop().unwrap();
            assert(before.reverse() =~= seq![b] + kept_reversed@.reverse());
            kept.push(b);
            assert(kept@.drop_last() + (seq![b] + kept_reversed@.reverse()) =~= kept@
                + kept_reversed@.reverse());
        }
        assert(kept@ + kept_reversed@.reverse() =~= kept@);
        self.0 = kept;
    }
}

} // verus!
