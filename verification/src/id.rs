//! Identifiers of movies and of their episodes.
use vstd::prelude::*;

use crate::bookmark::Bookmark;
use crate::keyed_map::SameKey;
use crate::movie::TmdbMovie;
use crate::movie_details::Episode;
use crate::text::{decimal_chars, decimal_string, string_of};

verus! {

#[derive(Clone, Copy, Debug, PartialEq, Eq, Structural)]
pub struct EpisodeId(pub MovieId, pub Episode);

impl SameKey for EpisodeId {
    fn same_key(&self, other: &Self) -> (r: bool) {
        self.0 == other.0 && self.1 == other.1
    }
}

impl SameKey for MovieId {
    fn same_key(&self, other: &Self) -> (r: bool) {
        self.0 == other.0
    }
}

#[derive(Clone, Copy, Debug, PartialEq, Eq, Structural)]
pub struct MovieId(pub usize);

impl MovieId {
    pub fn id(&self) -> (r: usize)
        ensures
            r == self.0,
    {
        self.0
    }

    /// The id as it is shown to people: `Id ` and the number.
    pub fn display(&self) -> (r: String)
        ensures
            r@ == seq!['I', 'd', ' '] + decimal_string(self.0 as nat),
    {
        let mut out: Vec<char> = vec!['I', 'd', ' '];
        let digits = decimal_chars(self.0);
        crate::text::extend_chars(&mut out, digits.as_slice());
        string_of(out.as_slice())
    }
}

/// The index of the first entry of `ids` equal to `id`.
pub open spec fn first_id(ids: Seq<MovieId>, id: MovieId) -> Option<int>
    decreases ids.len(),
{
    if ids.len() == 0 {
        None
    } else if ids[0] == id {
        Some(0)
    } else {
        match first_id(ids.drop_first(), id) {
            Some(i) => Some(i + 1),
            None => None,
        }
    }
}

/// `first_id` gives the first entry equal to `id`.
pub proof fn lemma_first_id(ids: Seq<MovieId>, id: MovieId)
    ensures
        match first_id(ids, id) {
            Some(k) => 0 <= k < ids.len() && ids[k] == id && forall|j: int|
                0 <= j < k ==> #[trigger] ids[j] != id,
            None => forall|j: int| 0 <= j < ids.len() ==> #[trigger] ids[j] != id,
        },
    decreases ids.len(),
{
    if ids.len() > 0 && ids[0] != id {
        lemma_first_id(ids.drop_first(), id);
        assert forall|j: int| 1 <= j < ids.len() implies #[trigger] ids[j] == ids.drop_first()[j
            - 1] by {}
    }
}

/// Appending an entry with the id, where none was before, makes it the first.
pub proof fn lemma_first_id_push(ids: Seq<MovieId>, id: MovieId)
    requires
        first_id(ids, id) is None,
    ensures
        first_id(ids.push(id), id) == Some(ids.len() as int),
    decreases ids.len(),
{
    lemma_first_id(ids, id);
    if ids.len() > 0 {
        assert(ids.push(id).drop_first() =~= ids.drop_first().push(id));
        lemma_first_id(ids.drop_first(), id);
        assert forall|j: int| 0 <= j < ids.drop_first().len() implies ids.drop_first()[j] != id by {
            assert(ids.drop_first()[j] == ids[j + 1]);
        }
        lemma_first_id_push(ids.drop_first(), id);
    }
}

/// Collections whose entries are found by the id of their movie.
pub trait MovieIndex<T> {
    /// The entries, in order.
    spec fn entries(&self) -> Seq<T>;

    /// The index of the first entry with the movie `id`.
    spec fn index_of(&self, id: MovieId) -> Option<int>;

    /// The first entry with the movie `id`.
    fn with_id(&self, id: MovieId) -> (r: Option<&T>)
        ensures
            match self.index_of(id) {
                Some(i) => 0 <= i < self.entries().len() && r == Some(&self.entries()[i]),
                None => r is None,
            },
    ;

    /// The first entry with the movie `id`, to change it in place.
    fn with_id_mut(&mut self, id: MovieId) -> (r: Option<&mut T>)
        ensures
            match old(self).index_of(id) {
                Some(i) => 0 <= i < old(self).entries().len() && r is Some && *r->0 == old(
                    self,
                ).entries()[i] && final(self).entries() == old(self).entries().update(
                    i,
                    *final(r->0),
                ),
                None => r is None && final(self).entries() == old(self).entries(),
            },
    ;
}

/// The movie ids of the movies, in order.
pub open spec fn movie_ids(ms: Seq<TmdbMovie>) -> Seq<MovieId> {
    ms.map_values(|m: TmdbMovie| m.id)
}

/// The movie ids of the bookmarks, in order.
pub open spec fn bookmark_ids(bs: Seq<Bookmark>) -> Seq<MovieId> {
    bs.map_values(|b: Bookmark| b.movie.id)
}

/// The index of the first movie with the id.
fn movie_position(ms: &Vec<TmdbMovie>, id: MovieId) -> (r: Option<usize>)
    ensures
        match first_id(movie_ids(ms@), id) {
            Some(i) => r matches Some(k) && k == i,
            None => r is None,
        },
{
    proof {
        lemma_first_id(movie_ids(ms@), id);
    }
    let mut i: usize = 0;
    while i < ms.len()
        invariant
            i <= ms@.len(),
            forall|j: int| 0 <= j < i ==> #[trigger] movie_ids(ms@)[j] != id,
            match first_id(movie_ids(ms@), id) {
                Some(k) => 0 <= k < ms@.len() && movie_ids(ms@)[k] == id && forall|j: int|
                    0 <= j < k ==> #[trigger] movie_ids(ms@)[j] != id,
                None => forall|j: int| 0 <= j < ms@.len() ==> #[trigger] movie_ids(ms@)[j] != id,
            },
        decreases ms@.len() - i,
    {
        assert(movie_ids(ms@)[i as int] == ms@[i as int].id);
        if ms[i].id == id {
            return Some(i);
        }
        i = i + 1;
    }
    None
}

/// The index of the first bookmark with the movie id.
pub fn bookmark_position(bs: &Vec<Bookmark>, id: MovieId) -> (r: Option<usize>)
    ensures
        match first_id(bookmark_ids(bs@), id) {
            Some(i) => r matches Some(k) && k == i,
            None => r is None,
        },
        r matches Some(k) ==> k < bs@.len() && bs@[k as int].movie.id == id,
{
    proof {
        lemma_first_id(bookmark_ids(bs@), id);
    }
    let mut i: usize = 0;
    while i < bs.len()
        invariant
            i <= bs@.len(),
            forall|j: int| 0 <= j < i ==> #[trigger] bookmark_ids(bs@)[j] != id,
            match first_id(bookmark_ids(bs@), id) {
                Some(k) => 0 <= k < bs@.len() && bookmark_ids(bs@)[k] == id && forall|j: int|
                    0 <= j < k ==> #[trigger] bookmark_ids(bs@)[j] != id,
                None => forall|j: int| 0 <= j < bs@.len() ==> #[trigger] bookmark_ids(bs@)[j] != id,
            },
        decreases bs@.len() - i,
    {
        assert(bookmark_ids(bs@)[i as int] == bs@[i as int].movie.id);
        if bs[i].movie.id == id {
            return Some(i);
        }
        i = i + 1;
    }
    None
}

impl MovieIndex<TmdbMovie> for Vec<TmdbMovie> {
    open spec fn entries(&self) -> Seq<TmdbMovie> {
        self@
    }

    open spec fn index_of(&self, id: MovieId) -> Option<int> {
        first_id(movie_ids(self@), id)
    }

    fn with_id(&self, id: MovieId) -> (r: Option<&TmdbMovie>) {
        proof {
            lemma_first_id(movie_ids(self@), id);
        }
        let found = movie_position(self, id);
        match found {
            Some(i) => Some(&self[i]),
            None => None,
        }
    }

    fn with_id_mut(&mut self, id: MovieId) -> (r: Option<&mut TmdbMovie>) {
        proof {
            lemma_first_id(movie_ids(self@), id);
        }
        let found = movie_position(self, id);
        match found {
            Some(i) => Some(&mut self[i]),
            None => None,
        }
    }
}

impl MovieIndex<Bookmark> for Vec<Bookmark> {
    open spec fn entries(&self) -> Seq<Bookmark> {
        self@
    }

    open spec fn index_of(&self, id: MovieId) -> Option<int> {
        first_id(bookmark_ids(self@), id)
    }

    fn with_id(&self, id: MovieId) -> (r: Option<&Bookmark>) {
        proof {
            lemma_first_id(bookmark_ids(self@), id);
        }
        let found = bookmark_position(self, id);
        match found {
            Some(i) => Some(&self[i]),
            None => None,
        }
    }

    fn with_id_mut(&mut self, id: MovieId) -> (r: Option<&mut Bookmark>) {
        proof {
            lemma_first_id(bookmark_ids(self@), id);
        }
        let found = bookmark_position(self, id);
        match found {
            Some(i) => Some(&mut self[i]),
            None => None,
        }
    }
}

} // verus!
