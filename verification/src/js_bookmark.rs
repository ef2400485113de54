//! A bookmark as the desktop front end shows it: its episode and the url of
//! that episode written out.
use vstd::prelude::*;

use crate::base::bookmark::{browser_url, episode_of, has_name, Bookmark, Bookmarks, Url};
use crate::text::{
    chars_of, decimal_chars, decimal_string, extend_chars, lemma_replace_single, occurs_at, replace,
    replace_spec, string_of,
};

verus! {

pub struct JsBookmark {
    pub name: String,
    episode: usize,
    url: String,
    has_new: bool,
}

/// The url with the numeral of `episode` marked as the episode: each of its
/// occurrences is put between `{{` and `}}`.
pub open spec fn marked_url(url: Seq<char>, episode: usize) -> Seq<char> {
    let ep = decimal_string(episode as nat);
    replace_spec(url, ep, "{{"@ + ep + "}}"@)
}

impl JsBookmark {
    /// A bookmark of the front end.
    pub fn new(name: String, episode: usize, url: String, has_new: bool) -> (r: JsBookmark)
        ensures
            r.name_spec() == name@,
            r.episode_spec() == episode,
            r.url_spec() == url@,
            r.has_new_spec() == has_new,
    {
        JsBookmark { name, episode, url, has_new }
    }

    pub closed spec fn name_spec(&self) -> Seq<char> {
        self.name@
    }

    pub closed spec fn episode_spec(&self) -> usize {
        self.episode
    }

    pub closed spec fn url_spec(&self) -> Seq<char> {
        self.url@
    }

    pub closed spec fn has_new_spec(&self) -> bool {
        self.has_new
    }

    /// The current episode.
    pub fn episode(&self) -> (r: usize)
        ensures
            r == self.episode_spec(),
    {
        self.episode
    }

    /// The url of the current episode.
    pub fn url(&self) -> (r: &String)
        ensures
            r@ == self.url_spec(),
    {
        &self.url
    }

    /// Whether a next episode was found.
    pub fn has_new(&self) -> (r: bool)
        ensures
            r == self.has_new_spec(),
    {
        self.has_new
    }

    /// The bookmark as the front end shows it.
    pub fn from_bookmark(bookmark: &Bookmark) -> (r: Self)
        requires
            episode_of(bookmark.url.0@) is Some,
        ensures
            r.name_spec() == bookmark.name@,
            r.episode_spec() == episode_of(bookmark.url.0@).unwrap(),
            r.url_spec() == browser_url(bookmark.url.0@),
            r.has_new_spec() == bookmark.can_advance,
    {
        JsBookmark {
            name: bookmark.name.clone(),
            episode: bookmark.url.episode(),
            url: bookmark.url.get(),
            has_new: bookmark.can_advance,
        }
    }

    /// The bookmark again, its episode marked in the url; an error when the
    /// url does not hold the episode.
    pub fn into_bookmark(&self) -> (r: Result<Bookmark, String>)
        ensures
            ({
                let marked = marked_url(self.url_spec(), self.episode_spec());
                &&& marked == self.url_spec() ==> (r matches Err(e) && e@
                    == "episode was not found in url"@)
                &&& marked != self.url_spec() ==> (r matches Ok(b) && b.name@ == self.name_spec()
                    && b.url.0@ == marked && !b.can_advance)
            }),
    {
        let ep = decimal_chars(self.episode);
        proof {
            crate::text::lemma_decimal_string_digits(self.episode as nat);
        }
        let mut marked: Vec<char> = chars_of("{{");
        extend_chars(&mut marked, ep.as_slice());
        extend_chars(&mut marked, chars_of("}}").as_slice());
        let url_chars = chars_of(self.url.as_str());
        let url = string_of(replace(url_chars.as_slice(), ep.as_slice(), marked.as_slice()).as_slice());
        if url == self.url {
            return Err("episode was not found in url".to_string());
        }
        Ok(Bookmark { name: self.name.clone(), url: Url(url), can_advance: false })
    }
}

impl Bookmarks {
    /// Adds the bookmark the front end entered. Fails, changing nothing, when
    /// its url does not hold its episode, or with `the name .. already
    /// exists` when a bookmark of that name is there.
    pub fn insert_shown(&mut self, shown: &JsBookmark) -> (r: Result<(), String>)
        ensures
            ({
                let marked = marked_url(shown.url_spec(), shown.episode_spec());
                if marked == shown.url_spec() {
                    r matches Err(e) && e@ == "episode was not found in url"@ && final(self).0@
                        == old(self).0@
                } else if has_name(old(self).0@, shown.name_spec()) {
                    r matches Err(e) && e@ == "the name "@ + shown.name_spec() + " already exists"@
                        && final(self).0@ == old(self).0@
                } else {
                    &&& r is Ok
                    &&& final(self).0@.len() == old(self).0@.len() + 1
                    &&& final(self).0@.drop_last() == old(self).0@
                    &&& final(self).0@.last().name@ == shown.name_spec()
                    &&& final(self).0@.last().url.0@ == marked
                    &&& !final(self).0@.last().can_advance
                }
            }),
    {
        let bookmark = match shown.into_bookmark() {
            Ok(b) => b,
            Err(e) => {
                return Err(e);
            },
        };
        let name = bookmark.name.clone();
        let ghost before = self.0@;
        match self.push_entry(bookmark) {
            Ok(()) => {
                assert(self.0@.drop_last() =~= before);
                Ok(())
            },
            Err(_) => {
                let mut out = chars_of("the name ");
                extend_chars(&mut out, chars_of(name.as_str()).as_slice());
                extend_chars(&mut out, chars_of(" already exists").as_slice());
                Err(string_of(out.as_slice()))
            },
        }
    }
}

/// Showing a bookmark and reading it back gives its url back, when the url's
/// only markers are the ones around its episode, written as `usize::to_string`
/// writes it, and that numeral stands nowhere else in the shown url.
pub proof fn law_shown_url_reads_back(url: Seq<char>, before: Seq<char>, after: Seq<char>, e: usize)
    requires
        url == before + "{{"@ + decimal_string(e as nat) + "}}"@ + after,
        browser_url(url) == before + decimal_string(e as nat) + after,
        forall|q: int|
            #[trigger] occurs_at(browser_url(url), decimal_string(e as nat), q) ==> q == before.len(),
    ensures
        marked_url(browser_url(url), e) == url,
        marked_url(browser_url(url), e) != browser_url(url),
{
    let n = decimal_string(e as nat);
    let shown = before + n + after;
    let to = "{{"@ + n + "}}"@;
    crate::text::lemma_decimal_string_digits(e as nat);
    assert(shown.subrange(before.len() as int, (before.len() + n.len()) as int) =~= n);
    lemma_replace_single(shown, n, to, before.len() as int);
    assert(shown.take(before.len() as int) =~= before);
    assert(shown.skip((before.len() + n.len()) as int) =~= after);
    assert(before + to + after =~= url);
    reveal_strlit("{{");
    assert(url.len() > shown.len());
}

} // verus!
