//! Ways to point at the episode number inside a link.
use vstd::prelude::*;

use crate::text::{chars_of, is_digit};
use vstd::string::StringSliceAdditionalSpecFns;

verus! {

/// A run of digits begins at `i`: a digit with no digit right before it.
pub open spec fn run_begins_at(s: Seq<char>, i: int) -> bool {
    0 <= i < s.len() && is_digit(s[i]) && (i == 0 || !is_digit(s[i - 1]))
}

/// The indices at which runs of digits begin, in order.
pub open spec fn run_starts(s: Seq<char>) -> Seq<int>
    decreases s.len(),
{
    if s.len() == 0 {
        Seq::empty()
    } else if run_begins_at(s, s.len() - 1) {
        run_starts(s.drop_last()).push(s.len() - 1)
    } else {
        run_starts(s.drop_last())
    }
}

/// How many ASCII digit bytes follow from `from` on.
pub open spec fn digit_bytes_from(b: Seq<u8>, from: int) -> nat
    decreases b.len() - from,
{
    if from < 0 || from >= b.len() || !(48 <= b[from] <= 57) {
        0
    } else {
        1 + digit_bytes_from(b, from + 1)
    }
}

pub enum Identifier {
    Index(usize),
    NumberOcc(usize),
}

impl Identifier {
    /// Where `start` points in `link`: the index itself, or, for the
    /// `n`-th number, the index of the last run of digits when there are more
    /// than `n` runs and 0 otherwise.
    pub open spec fn start_spec(self, link: Seq<char>) -> int {
        match self {
            Identifier::Index(i) => i as int,
            Identifier::NumberOcc(n) => if run_starts(link).len() > n {
                run_starts(link).last()
            } else {
                0
            },
        }
    }

    pub fn start(&self, link: &str) -> (r: usize)
        ensures
            r == self.start_spec(link@),
    {
        match self {
            Identifier::Index(i) => *i,
            Identifier::NumberOcc(i) => {
                let chars = chars_of(link);
                let mut result: usize = 0;
                let mut count: usize = 0;
                let mut in_number = false;
                let mut index: usize = 0;
                while index < chars.len()
                    invariant
                        index <= chars@.len(),
                        chars@ == link@,
                        in_number == (index > 0 && is_digit(chars@[index - 1])),
                        count == if run_starts(chars@.take(index as int)).len() > *i {
                            *i as nat
                        } else {
                            run_starts(chars@.take(index as int)).len()
                        },
                        result == if run_starts(chars@.take(index as int)).len() > *i {
                            run_starts(chars@.take(index as int)).last()
                        } else {
                            0
                        },
                        forall|k: int| 0 <= k < run_starts(chars@.take(index as int)).len() ==> 0
                            <= #[trigger] run_starts(chars@.take(index as int))[k] < index,
                    decreases chars@.len() - index,
                {
                    let c = chars[index];
                    let ghost before = chars@.take(index as int);
                    let ghost after = chars@.take(index + 1);
                    assert(after.drop_last() =~= before);
                    assert(run_begins_at(after, index as int) == (is_digit(c) && !in_number));
                    let digit = '0' <= c && c <= '9';
                    if digit && !in_number {
                        in_number = true;
                        if *i == count {
                            result = index;
                        } else {
                            count += 1;
                        }
                    }
                    if in_number && !digit {
                        in_number = false;
                    }
                    index = index + 1;
                }
                assert(chars@.take(index as int) =~= link@);
                result
            },
        }
    }

    /// Where the number that `start` points at ends: after the ASCII digits
    /// that follow the start, counted in bytes of the link's UTF-8 text.
    pub fn end(&self, link: &str) -> (r: usize)
        requires
            0 <= self.start_spec(link@) <= link.spec_bytes().len(),
            vstd::utf8::is_char_boundary(link.spec_bytes(), self.start_spec(link@)),
        ensures
            r == self.start_spec(link@) + digit_bytes_from(
                link.spec_bytes(),
                self.start_spec(link@),
            ),
    {
        let start = self.start(link);
        let bytes = link.as_bytes();
        let mut end: usize = start;
        while end < bytes.len() && 48 <= bytes[end] && bytes[end] <= 57
            invariant
                start <= end <= bytes@.len(),
                bytes@ == link.spec_bytes(),
                digit_bytes_from(bytes@, start as int) == (end - start) + digit_bytes_from(
                    bytes@,
                    end as int,
                ),
            decreases bytes@.len() - end,
        {
            end = end + 1;
        }
        end
    }
}

} // verus!
