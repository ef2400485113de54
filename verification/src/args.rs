//! The command line of the bookmark tool that opens the next episode.
use vstd::prelude::*;

use crate::text::{chars_of, extend_chars, string_of};

verus! {

pub struct Args {
    /// Prints additional debug information
    pub debug: bool,
    /// The path to the bookmarks
    /// If non is given the default ($HOME/.local/share/webworm/bookmarks.ron) is used
    pub bookmark_file: Option<String>,
    /// Advances the bookmarks if possible
    /// only advances the bookmarks selected
    pub advance: bool,
    /// The names of the bookmarks
    /// Can contain globs which will be matched against the names
    /// If no names are given, all will be used
    pub names: Vec<String>,
    /// returns the links instead of the names
    pub link: bool,
}

/// The pieces of `s` between its `/` characters (`str::split('/')`): one
/// more piece than there are `/`, empty ones included.
pub open spec fn slash_parts(s: Seq<char>) -> Seq<Seq<char>>
    decreases s.len(),
{
    if s.len() == 0 {
        seq![Seq::<char>::empty()]
    } else {
        let parts = slash_parts(s.drop_last());
        if s.last() == '/' {
            parts.push(Seq::<char>::empty())
        } else {
            parts.drop_last().push(parts.last().push(s.last()))
        }
    }
}

/// A path with a part that holds no `/` pushed onto it (`PathBuf::push` on
/// Unix): a `/` goes between unless the path is empty or ends in one.
pub open spec fn path_push(path: Seq<char>, part: Seq<char>) -> Seq<char> {
    if path.len() > 0 && path.last() != '/' {
        path + seq!['/'] + part
    } else {
        path + part
    }
}

/// The path with the parts pushed onto it in order.
pub open spec fn path_push_all(path: Seq<char>, parts: Seq<Seq<char>>) -> Seq<char>
    decreases parts.len(),
{
    if parts.len() == 0 {
        path
    } else {
        path_push(path_push_all(path, parts.drop_last()), parts.last())
    }
}

/// Where the bookmarks are kept: the given file, else
/// `$HOME/.local/share/webworm/bookmarks.ron`, built from `/`, the pieces of
/// the home directory (`.` when it is not known) and the four names.
pub open spec fn load_path_of(bookmark_file: Option<String>, home: Option<String>) -> Seq<char> {
    match bookmark_file {
        Some(p) => p@,
        None => {
            let base = match home {
                Some(h) => h@,
                None => seq!['.'],
            };
            path_push_all(
                path_push_all(seq!['/'], slash_parts(base)),
                seq![".local"@, "share"@, "webworm"@, "bookmarks.ron"@],
            )
        },
    }
}

/// Pushes `part` onto `path` (see `path_push`).
fn push_part(path: &mut Vec<char>, part: &[char])
    ensures
        final(path)@ == path_push(old(path)@, part@),
{
    if path.len() > 0 && path[path.len() - 1] != '/' {
        path.push('/');
    }
    extend_chars(path, part);
}

/// The path of the bookmarks file (see `load_path_of`).
pub fn load_path(bookmark_file: Option<String>, home: Option<String>) -> (r: String)
    ensures
        r@ == load_path_of(bookmark_file, home),
{
    match bookmark_file {
        Some(p) => p,
        None => {
            let base = match home {
                Some(h) => chars_of(h.as_str()),
                None => vec!['.'],
            };
            assert(base@ == (match home { Some(h) => h@, None => seq!['.'] }));
            // the pieces of the home directory, pushed as they are found
            let mut path: Vec<char> = vec!['/'];
            let mut piece: Vec<char> = Vec::new();
            let mut i: usize = 0;
            assert(base@.take(0) =~= Seq::<char>::empty());
            while i < base.len()
                invariant
                    i <= base@.len(),
                    path_push_all(seq!['/'], slash_parts(base@.take(i as int)).drop_last()) == path@,
                    slash_parts(base@.take(i as int)).last() == piece@,
                    slash_parts(base@.take(i as int)).len() > 0,
                decreases base@.len() - i,
            {
                let ghost before = base@.take(i as int);
                let ghost after = base@.take(i + 1);
                assert(after.drop_last() =~= before);
                assert(after.last() == base@[i as int]);
                proof {
                    lemma_slash_parts_len(before);
                }
                if base[i] == '/' {
                    push_part(&mut path, piece.as_slice());
                    piece = Vec::new();
                    assert(slash_parts(after).drop_last() =~= slash_parts(before));
                    assert(slash_parts(before) =~= slash_parts(before).drop_last().push(
                        slash_parts(before).last(),
                    ));
                } else {
                    piece.push(base[i]);
                    assert(slash_parts(after).drop_last() =~= slash_parts(before).drop_last());
                }
                i = i + 1;
            }
            assert(base@.take(i as int) =~= base@);
            push_part(&mut path, piece.as_slice());
            let ghost parts = slash_parts(base@);
            assert(parts =~= parts.drop_last().push(parts.last()));
            let ghost head = path@;
            assert(head == path_push_all(seq!['/'], parts));
            assert(base@ == (match home { Some(h) => h@, None => seq!['.'] }));
            push_part(&mut path, chars_of(".local").as_slice());
            let ghost p1 = path@;
            push_part(&mut path, chars_of("share").as_slice());
            let ghost p2 = path@;
            push_part(&mut path, chars_of("webworm").as_slice());
            let ghost p3 = path@;
            push_part(&mut path, chars_of("bookmarks.ron").as_slice());
            let ghost tail = seq![".local"@, "share"@, "webworm"@, "bookmarks.ron"@];
            assert(path_push_all(head, tail) == path@) by {
                let t1 = tail.drop_last().drop_last().drop_last();
                let t2 = tail.drop_last().drop_last();
                let t3 = tail.drop_last();
                assert(t1.drop_last() =~= Seq::<Seq<char>>::empty());
                assert(t1 =~= seq![".local"@]);
                assert(t2 =~= seq![".local"@, "share"@]);
                assert(t3 =~= seq![".local"@, "share"@, "webworm"@]);
                assert(path_push_all(head, t1.drop_last()) == head);
                assert(path_push_all(head, t1) == p1);
                assert(path_push_all(head, t2) == p2);
                assert(path_push_all(head, t3) == p3);
            }
            string_of(path.as_slice())
        },
    }
}

proof fn lemma_slash_parts_len(s: Seq<char>)
    ensures
        slash_parts(s).len() > 0,
    decreases s.len(),
{
    if s.len() > 0 {
        lemma_slash_parts_len(s.drop_last());
    }
}

} // verus!
