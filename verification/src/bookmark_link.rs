//! Links built from parts that carry their own episode and season numbers.
use vstd::prelude::*;

use crate::text::{chars_of, decimal_chars, decimal_string, extend_chars, string_of};

verus! {

pub enum LinkPart {
    Const(String),
    Episode(u16),
    Season(u16),
}

/// The text a part stands for in the url.
pub open spec fn part_text(p: LinkPart) -> Seq<char> {
    match p {
        LinkPart::Const(s) => s@,
        LinkPart::Episode(i) => decimal_string(i as nat),
        LinkPart::Season(i) => decimal_string(i as nat),
    }
}

/// The url the parts give, in order.
pub open spec fn parts_url(ps: Seq<LinkPart>) -> Seq<char>
    decreases ps.len(),
{
    if ps.len() == 0 {
        Seq::empty()
    } else {
        parts_url(ps.drop_last()) + part_text(ps.last())
    }
}

/// How many parts of `ps` are constant text, episodes and seasons.
pub open spec fn part_counts(ps: Seq<LinkPart>) -> (nat, nat, nat)
    decreases ps.len(),
{
    if ps.len() == 0 {
        (0, 0, 0)
    } else {
        let (c, e, s) = part_counts(ps.drop_last());
        match ps.last() {
            LinkPart::Const(_) => (c + 1, e, s),
            LinkPart::Episode(_) => (c, e + 1, s),
            LinkPart::Season(_) => (c, e, s + 1),
        }
    }
}

/// The verdict on a link made of `ps`: at least one const part, exactly one
/// episode, at most one season, checked in that order.
pub open spec fn parts_validity(ps: Seq<LinkPart>) -> Result<(), LinkError> {
    let (c, e, s) = part_counts(ps);
    if c == 0 {
        Err(LinkError::NoConstPart)
    } else if e == 0 {
        Err(LinkError::NoEpisode)
    } else if e > 1 {
        Err(LinkError::ToManyEpisodes)
    } else if s > 1 {
        Err(LinkError::ToManySeasons)
    } else {
        Ok(())
    }
}

#[derive(Debug, PartialEq, Eq, Structural)]
pub enum LinkError {
    NoConstPart,
    NoEpisode,
    ToManySeasons,
    ToManyEpisodes,
}

pub struct BookmarkLink {
    link: Vec<LinkPart>,
}

impl BookmarkLink {
    /// The parts of the link.
    pub closed spec fn parts(&self) -> Seq<LinkPart> {
        self.link@
    }

    /// Creates a new Bookmark link.
    /// Panics if the link is not valid, so only a valid link is taken (see
    /// `BookmarkLink::is_valid_link`, which tells the two apart).
    pub fn new(link: Vec<LinkPart>) -> (r: Result<BookmarkLink, LinkError>)
        requires
            parts_validity(link@) is Ok,
        ensures
            r matches Ok(l) && l.parts() == link@,
    {
        match BookmarkLink::is_valid_link(link.as_slice()) {
            Ok(()) => Ok(BookmarkLink { link }),
            Err(e) => Err(e),
        }
    }

    /// Converts the internal link representation to the finished url
    pub fn url(&self) -> (r: String)
        ensures
            r@ == parts_url(self.parts()),
    {
        let mut out: Vec<char> = Vec::new();
        let mut i: usize = 0;
        while i < self.link.len()
            invariant
                i <= self.link@.len(),
                out@ == parts_url(self.link@.take(i as int)),
            decreases self.link@.len() - i,
        {
            match &self.link[i] {
                LinkPart::Const(s) => {
                    let piece = chars_of(s.as_str());
                    extend_chars(&mut out, piece.as_slice());
                },
                LinkPart::Episode(e) => {
                    let piece = decimal_chars(*e as usize);
                    extend_chars(&mut out, piece.as_slice());
                },
                LinkPart::Season(s) => {
                    let piece = decimal_chars(*s as usize);
                    extend_chars(&mut out, piece.as_slice());
                },
            }
            assert(self.link@.take(i + 1).drop_last() =~= self.link@.take(i as int));
            i = i + 1;
        }
        assert(self.link@.take(i as int) =~= self.link@);
        string_of(out.as_slice())
    }

    /// A link is valid if it contains:
    /// * at least one const part
    /// * exactly one episode
    /// * a maximum of one season
    pub fn is_valid_link(link: &[LinkPart]) -> (r: Result<(), LinkError>)
        ensures
            r == parts_validity(link@),
    {
        let mut consts: usize = 0;
        let mut episode: usize = 0;
        let mut season: usize = 0;
        let mut i: usize = 0;
        while i < link.len()
            invariant
                i <= link@.len(),
                part_counts(link@.take(i as int)) == (consts as nat, episode as nat, season as nat),
                consts + episode + season == i,
            decreases link@.len() - i,
        {
            assert(link@.take(i + 1).drop_last() =~= link@.take(i as int));
            match &link[i] {
                LinkPart::Const(_) => consts += 1,
                LinkPart::Episode(_) => episode += 1,
                LinkPart::Season(_) => season += 1,
            }
            i = i + 1;
        }
        assert(link@.take(i as int) =~= link@);
        if consts == 0 {
            Err(LinkError::NoConstPart)
        } else if episode == 0 {
            Err(LinkError::NoEpisode)
        } else if episode > 1 {
            Err(LinkError::ToManyEpisodes)
        } else if season > 1 {
            Err(LinkError::ToManySeasons)
        } else {
            Ok(())
        }
    }
}

} // verus!
