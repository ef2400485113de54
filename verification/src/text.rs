//! Character-level text helpers shared by the bookmark, link and request code:
//! decimal numerals, substring search, replacement and line splitting, all
//! stated over the `Seq<char>` view of strings.
use vstd::prelude::*;

verus! {

// ---------------------------------------------------------------------------
// Decimal numerals
// ---------------------------------------------------------------------------

/// An ASCII decimal digit.
pub open spec fn is_digit(c: char) -> bool {
    '0' <= c && c <= '9'
}

/// The value of an ASCII decimal digit.
pub open spec fn digit_value(c: char) -> nat {
    (c as int - '0' as int) as nat
}

/// The ASCII digit that denotes `d` (for `d < 10`).
pub open spec fn digit_char(d: nat) -> char {
    (d + '0' as int) as char
}

/// Every character of `s` is an ASCII digit.
pub open spec fn all_digits(s: Seq<char>) -> bool {
    forall|i: int| 0 <= i < s.len() ==> is_digit(#[trigger] s[i])
}

/// The value of a numeral made of ASCII digits, most significant first.
pub open spec fn decimal_value(s: Seq<char>) -> nat
    decreases s.len(),
{
    if s.len() == 0 {
        0
    } else {
        decimal_value(s.drop_last()) * 10 + digit_value(s.last())
    }
}

/// The shortest decimal numeral of `n`, as `usize::to_string` writes it.
pub open spec fn decimal_string(n: nat) -> Seq<char>
    decreases n,
{
    if n < 10 {
        seq![digit_char(n)]
    } else {
        decimal_string(n / 10).push(digit_char(n % 10))
    }
}

/// What `str::parse::<usize>` gives for the characters `s`: an optional
/// leading `+`, then at least one ASCII digit and nothing else, with a value
/// that fits in `usize`.
pub open spec fn parse_usize_spec(s: Seq<char>) -> Option<usize> {
    let digits = if s.len() > 0 && s[0] == '+' {
        s.drop_first()
    } else {
        s
    };
    if digits.len() > 0 && all_digits(digits) && decimal_value(digits) <= usize::MAX {
        Some(decimal_value(digits) as usize)
    } else {
        None
    }
}

/// The digit written for `d` is a digit, and it reads back as `d`.
pub proof fn lemma_digit_char(d: nat)
    requires
        d < 10,
    ensures
        is_digit(digit_char(d)),
        digit_value(digit_char(d)) == d,
{
    assert(('0' as int + d) as char as int == '0' as int + d);
}

pub proof fn lemma_decimal_string_digits(n: nat)
    ensures
        all_digits(decimal_string(n)),
        decimal_value(decimal_string(n)) == n,
        decimal_string(n).len() > 0,
    decreases n,
{
    if n < 10 {
        lemma_digit_char(n);
        assert(decimal_string(n) =~= seq![digit_char(n)]);
        let s = decimal_string(n);
        assert(s.drop_last() =~= Seq::<char>::empty());
        assert(decimal_value(Seq::<char>::empty()) == 0);
        assert(s.last() == digit_char(n));
        assert(decimal_value(s) == decimal_value(s.drop_last()) * 10 + digit_value(s.last()));
    } else {
        lemma_digit_char(n % 10);
        lemma_decimal_string_digits(n / 10);
        let s = decimal_string(n);
        assert(s.drop_last() =~= decimal_string(n / 10));
        assert(s.last() == digit_char(n % 10));
        assert(decimal_value(s) == decimal_value(s.drop_last()) * 10 + digit_value(s.last()));
        assert((n / 10) * 10 + n % 10 == n);
        assert forall|i: int| 0 <= i < s.len() implies is_digit(#[trigger] s[i]) by {
            if i < s.len() - 1 {
                assert(s[i] == decimal_string(n / 10)[i]);
            }
        }
    }
}

/// A numeral written by `decimal_string` reads back as the number it denotes.
pub proof fn lemma_parse_decimal_string(n: nat)
    requires
        n <= usize::MAX,
    ensures
        parse_usize_spec(decimal_string(n)) == Some(n as usize),
{
    lemma_decimal_string_digits(n);
    let s = decimal_string(n);
    assert(is_digit(s[0]));
}

/// The ASCII digit that denotes `d`.
pub fn digit_to_char(d: usize) -> (c: char)
    requires
        d < 10,
    ensures
        c == digit_char(d as nat),
        is_digit(c),
{
    let b: u8 = 48u8 + d as u8;
    b as char
}

/// The decimal numeral of `n`, as `usize::to_string` writes it.
pub fn decimal_chars(n: usize) -> (v: Vec<char>)
    ensures
        v@ == decimal_string(n as nat),
    decreases n,
{
    if n < 10 {
        let mut v = Vec::new();
        v.push(digit_to_char(n));
        v
    } else {
        let mut v = decimal_chars(n / 10);
        v.push(digit_to_char(n % 10));
        v
    }
}

/// Reads `s` as `str::parse::<usize>` does.
pub fn parse_usize(s: &[char]) -> (r: Option<usize>)
    ensures
        r == parse_usize_spec(s@),
{
    let mut start: usize = 0;
    if s.len() > 0 && s[0] == '+' {
        start = 1;
    }
    let ghost digits = if s@.len() > 0 && s@[0] == '+' {
        s@.drop_first()
    } else {
        s@
    };
    assert(digits =~= s@.subrange(start as int, s@.len() as int));
    if start >= s.len() {
        return None;
    }
    let mut value: usize = 0;
    let mut i: usize = start;
    while i < s.len()
        invariant
            start <= i <= s@.len(),
            start < s@.len(),
            digits == (if s@.len() > 0 && s@[0] == '+' {
                s@.drop_first()
            } else {
                s@
            }),
            digits =~= s@.subrange(start as int, s@.len() as int),
            all_digits(s@.subrange(start as int, i as int)),
            value == decimal_value(s@.subrange(start as int, i as int)),
        decreases s@.len() - i,
    {
        let c = s[i];
        let ghost prefix = s@.subrange(start as int, i as int);
        let ghost next = s@.subrange(start as int, i + 1);
        assert(next.drop_last() =~= prefix);
        assert(next.last() == c);
        if !('0' <= c && c <= '9') {
            assert(digits[i - start] == c);
            assert(!is_digit(digits[i - start]));
            assert(!all_digits(digits));
            return None;
        }
        let d: u8 = (c as u32 - 48u32) as u8;
        assert(d as nat == digit_value(c));
        if value > (usize::MAX - d as usize) / 10 {
            proof {
                assert(decimal_value(next) > usize::MAX) by (nonlinear_arith)
                    requires
                        decimal_value(next) == value * 10 + d,
                        value > (usize::MAX - d as int) / 10,
                        d < 10,
                ;
                if all_digits(digits) {
                    lemma_decimal_value_prefix_le(digits, (i + 1 - start) as int);
                    assert(digits.subrange(0, (i + 1 - start) as int) =~= next);
                }
            }
            return None;
        }
        proof {
            assert(value * 10 + d <= usize::MAX) by (nonlinear_arith)
                requires
                    value <= (usize::MAX - d as int) / 10,
                    d < 10,
            ;
            assert forall|k: int| 0 <= k < next.len() implies is_digit(#[trigger] next[k]) by {
                if k < next.len() - 1 {
                    assert(next[k] == prefix[k]);
                }
            }
        }
        value = value * 10 + d as usize;
        i = i + 1;
    }
    assert(s@.subrange(start as int, i as int) =~= digits);
    Some(value)
}

/// A numeral made of digits is worth at least as much as any of its prefixes.
pub proof fn lemma_decimal_value_prefix_le(s: Seq<char>, k: int)
    requires
        0 <= k <= s.len(),
        all_digits(s),
    ensures
        decimal_value(s.subrange(0, k)) <= decimal_value(s),
    decreases s.len(),
{
    if k < s.len() {
        assert(s.drop_last() =~= s.subrange(0, s.len() - 1));
        assert(all_digits(s.drop_last())) by {
            assert forall|i: int| 0 <= i < s.drop_last().len() implies is_digit(
                #[trigger] s.drop_last()[i],
            ) by {
                assert(s.drop_last()[i] == s[i]);
            }
        }
        lemma_decimal_value_prefix_le(s.drop_last(), k);
        assert(s.drop_last().subrange(0, k) =~= s.subrange(0, k));
        assert(decimal_value(s.drop_last()) <= decimal_value(s)) by (nonlinear_arith)
            requires
                decimal_value(s) == decimal_value(s.drop_last()) * 10 + digit_value(s.last()),
        ;
    } else {
        assert(s.subrange(0, k) =~= s);
    }
}

// ---------------------------------------------------------------------------
// Conversion between strings and characters
// ---------------------------------------------------------------------------

/// Appends one character (`String::push`).
/// Trusted: the string afterwards is the old one with `c` at its end.
#[verifier::external_body]
pub(crate) fn push_char(s: &mut String, c: char)
    ensures
        final(s)@ == old(s)@.push(c),
{
    s.push(c);
}

/// The text `str::to_lowercase` makes of `s`.
pub uninterp spec fn lowercase(s: Seq<char>) -> Seq<char>;

/// Lower-cases `s` (`str::to_lowercase`).
/// Trusted: the result is `lowercase` of the characters of `s`.
#[verifier::external_body]
pub(crate) fn to_lowercase(s: &str) -> (r: String)
    ensures
        r@ == lowercase(s@),
{
    s.to_lowercase()
}

/// The characters of `s`, in order.
pub fn chars_of(s: &str) -> (v: Vec<char>)
    ensures
        v@ == s@,
{
    let mut v: Vec<char> = Vec::new();
    for c in it: s.chars()
        invariant
            v@ == it.seq().take(it.index()),
    {
        v.push(c);
    }
    v
}

/// A string made of the characters `v`.
pub fn string_of(v: &[char]) -> (s: String)
    ensures
        s@ == v@,
{
    let mut s = String::new();
    let mut i: usize = 0;
    while i < v.len()
        invariant
            i <= v@.len(),
            s@ == v@.take(i as int),
        decreases v@.len() - i,
    {
        push_char(&mut s, v[i]);
        assert(v@.take(i + 1) =~= v@.take(i as int).push(v@[i as int]));
        i = i + 1;
    }
    assert(v@.take(i as int) =~= v@);
    s
}

/// Appends the characters `v` to `out`.
pub fn extend_chars(out: &mut Vec<char>, v: &[char])
    ensures
        final(out)@ == old(out)@ + v@,
{
    let mut i: usize = 0;
    while i < v.len()
        invariant
            i <= v@.len(),
            out@ == old(out)@ + v@.take(i as int),
        decreases v@.len() - i,
    {
        out.push(v[i]);
        assert(v@.take(i + 1) =~= v@.take(i as int).push(v@[i as int]));
        i = i + 1;
    }
    assert(v@.take(i as int) =~= v@);
}

// ---------------------------------------------------------------------------
// Searching
// ---------------------------------------------------------------------------

/// `pat` stands in `s` at index `i`.
pub open spec fn occurs_at(s: Seq<char>, pat: Seq<char>, i: int) -> bool {
    0 <= i && i + pat.len() <= s.len() && s.subrange(i, i + pat.len()) == pat
}

/// The first index at or after `from` at which `pat` stands in `s`.
pub open spec fn find_from(s: Seq<char>, pat: Seq<char>, from: int) -> Option<int>
    decreases s.len() + 1 - from,
{
    if from < 0 || from + pat.len() > s.len() {
        None
    } else if occurs_at(s, pat, from) {
        Some(from)
    } else {
        find_from(s, pat, from + 1)
    }
}

/// The first index at which `pat` stands in `s` (`str::find`).
pub open spec fn find_spec(s: Seq<char>, pat: Seq<char>) -> Option<int> {
    find_from(s, pat, 0)
}

/// `pat` stands somewhere in `s` (`str::contains`).
pub open spec fn contains_spec(s: Seq<char>, pat: Seq<char>) -> bool {
    find_spec(s, pat) is Some
}

/// `find_from` gives the first occurrence at or after `from`, if any.
pub proof fn lemma_find_from(s: Seq<char>, pat: Seq<char>, from: int)
    requires
        0 <= from,
    ensures
        match find_from(s, pat, from) {
            Some(k) => from <= k && occurs_at(s, pat, k) && forall|j: int|
                from <= j < k ==> !#[trigger] occurs_at(s, pat, j),
            None => forall|j: int| from <= j ==> !#[trigger] occurs_at(s, pat, j),
        },
    decreases s.len() + 1 - from,
{
    if from + pat.len() > s.len() {
    } else if occurs_at(s, pat, from) {
    } else {
        lemma_find_from(s, pat, from + 1);
    }
}

/// The first occurrence of `pat` in `s`, if any.
pub proof fn lemma_find(s: Seq<char>, pat: Seq<char>)
    ensures
        match find_spec(s, pat) {
            Some(k) => occurs_at(s, pat, k) && forall|j: int|
                0 <= j < k ==> !#[trigger] occurs_at(s, pat, j),
            None => forall|j: int| !#[trigger] occurs_at(s, pat, j),
        },
{
    lemma_find_from(s, pat, 0);
}

/// `k` is the first occurrence of `pat` in `s`, so `find_spec` gives it.
pub proof fn lemma_find_is(s: Seq<char>, pat: Seq<char>, k: int)
    requires
        occurs_at(s, pat, k),
        forall|j: int| 0 <= j < k ==> !#[trigger] occurs_at(s, pat, j),
    ensures
        find_spec(s, pat) == Some(k),
{
    lemma_find(s, pat);
}

/// `pat` stands in `s` at `i` (executable).
pub fn occurs_at_exec(s: &[char], pat: &[char], i: usize) -> (r: bool)
    ensures
        r == occurs_at(s@, pat@, i as int),
{
    let n = s.len();
    if i > n || pat.len() > n - i {
        return false;
    }
    let mut k: usize = 0;
    while k < pat.len()
        invariant
            n == s@.len(),
            i + pat@.len() <= s@.len(),
            k <= pat@.len(),
            forall|m: int| 0 <= m < k ==> s@[i + m] == pat@[m],
        decreases pat@.len() - k,
    {
        assert(i + k < s@.len());
        if s[i + k] != pat[k] {
            assert(s@.subrange(i as int, i + pat@.len())[k as int] != pat@[k as int]);
            return false;
        }
        k = k + 1;
    }
    assert(s@.subrange(i as int, i + pat@.len()) =~= pat@);
    true
}

/// The first index at which `pat` stands in `s` (`str::find`).
pub fn find(s: &[char], pat: &[char]) -> (r: Option<usize>)
    ensures
        match r {
            Some(k) => find_spec(s@, pat@) == Some(k as int),
            None => find_spec(s@, pat@) is None,
        },
{
    let mut i: usize = 0;
    loop
        invariant
            i <= s@.len(),
            find_from(s@, pat@, 0) == find_from(s@, pat@, i as int),
        decreases s@.len() - i,
    {
        if pat.len() > s.len() - i {
            return None;
        }
        if occurs_at_exec(s, pat, i) {
            return Some(i);
        }
        assert(pat@.len() > 0) by {
            if pat@.len() == 0 {
                assert(s@.subrange(i as int, i as int) =~= pat@);
            }
        }
        i = i + 1;
    }
}

/// `pat` stands somewhere in `s` (`str::contains`).
pub fn contains(s: &[char], pat: &[char]) -> (r: bool)
    ensures
        r == contains_spec(s@, pat@),
{
    find(s, pat).is_some()
}

// ---------------------------------------------------------------------------
// Replacing
// ---------------------------------------------------------------------------

/// `str::replace`: every occurrence of `from`, searched left to right and
/// without overlap, is replaced by `to`.
pub open spec fn replace_spec(s: Seq<char>, from: Seq<char>, to: Seq<char>) -> Seq<char>
    recommends
        from.len() > 0,
    decreases s.len(),
{
    if s.len() == 0 || from.len() == 0 {
        s
    } else if occurs_at(s, from, 0) {
        to + replace_spec(s.skip(from.len() as int), from, to)
    } else {
        seq![s[0]] + replace_spec(s.drop_first(), from, to)
    }
}

/// Where `from` stands nowhere in `s`, replacing leaves `s` as it is.
pub proof fn lemma_replace_absent(s: Seq<char>, from: Seq<char>, to: Seq<char>)
    requires
        from.len() > 0,
        forall|q: int| !#[trigger] occurs_at(s, from, q),
    ensures
        replace_spec(s, from, to) == s,
    decreases s.len(),
{
    if s.len() > 0 {
        let t = s.drop_first();
        assert forall|q: int| !#[trigger] occurs_at(t, from, q) by {
            if occurs_at(t, from, q) {
                assert(s.subrange(q + 1, q + 1 + from.len()) =~= t.subrange(q, q + from.len()));
                assert(occurs_at(s, from, q + 1));
            }
        }
        lemma_replace_absent(t, from, to);
        assert(seq![s[0]] + t =~= s);
    }
}

/// Where `from` stands in `s` at `p` only, replacing puts `to` there.
pub proof fn lemma_replace_single(s: Seq<char>, from: Seq<char>, to: Seq<char>, p: int)
    requires
        from.len() > 0,
        occurs_at(s, from, p),
        forall|q: int| #[trigger] occurs_at(s, from, q) ==> q == p,
    ensures
        replace_spec(s, from, to) == s.take(p) + to + s.skip(p + from.len()),
    decreases s.len(),
{
    if p == 0 {
        let t = s.skip(from.len() as int);
        assert forall|q: int| !#[trigger] occurs_at(t, from, q) by {
            if occurs_at(t, from, q) {
                assert(s.subrange(q + from.len(), q + from.len() + from.len()) =~= t.subrange(
                    q,
                    q + from.len(),
                ));
                assert(occurs_at(s, from, q + from.len()));
            }
        }
        lemma_replace_absent(t, from, to);
        assert(s.take(0) + to + t =~= to + t);
    } else {
        let t = s.drop_first();
        assert(!occurs_at(s, from, 0));
        assert(t.subrange(p - 1, p - 1 + from.len()) =~= s.subrange(p, p + from.len()));
        assert forall|q: int| #[trigger] occurs_at(t, from, q) implies q == p - 1 by {
            assert(s.subrange(q + 1, q + 1 + from.len()) =~= t.subrange(q, q + from.len()));
            assert(occurs_at(s, from, q + 1));
        }
        lemma_replace_single(t, from, to, p - 1);
        assert(seq![s[0]] + (t.take(p - 1) + to + t.skip(p - 1 + from.len())) =~= s.take(p) + to
            + s.skip(p + from.len()));
    }
}

/// Replaces every occurrence of `from` in `s` by `to` (`str::replace`).
pub fn replace(s: &[char], from: &[char], to: &[char]) -> (r: Vec<char>)
    requires
        from@.len() > 0,
    ensures
        r@ == replace_spec(s@, from@, to@),
{
    let mut out: Vec<char> = Vec::new();
    let mut i: usize = 0;
    assert(s@.skip(0) =~= s@);
    assert(out@ + replace_spec(s@, from@, to@) =~= replace_spec(s@, from@, to@));
    while i < s.len()
        invariant
            i <= s@.len(),
            from@.len() > 0,
            out@ + replace_spec(s@.skip(i as int), from@, to@) == replace_spec(s@, from@, to@),
        decreases s@.len() - i,
    {
        let ghost rest = s@.skip(i as int);
        if occurs_at_exec(s, from, i) {
            assert(rest.subrange(0, from@.len() as int) =~= s@.subrange(
                i as int,
                i + from@.len(),
            ));
            assert(occurs_at(rest, from@, 0));
            assert(rest.skip(from@.len() as int) =~= s@.skip(i + from@.len()));
            let ghost before = out@;
            extend_chars(&mut out, to);
            assert(before + (to@ + replace_spec(s@.skip(i + from@.len()), from@, to@)) =~= out@
                + replace_spec(s@.skip(i + from@.len()), from@, to@));
            i = i + from.len();
        } else {
            assert(!occurs_at(rest, from@, 0)) by {
                if occurs_at(rest, from@, 0) {
                    assert(rest.subrange(0, from@.len() as int) =~= s@.subrange(
                        i as int,
                        i + from@.len(),
                    ));
                }
            }
            assert(rest.drop_first() =~= s@.skip(i + 1));
            let ghost before = out@;
            out.push(s[i]);
            assert(before + (seq![s@[i as int]] + replace_spec(s@.skip(i + 1), from@, to@))
                =~= out@ + replace_spec(s@.skip(i + 1), from@, to@));
            i = i + 1;
        }
    }
    assert(s@.skip(i as int) =~= Seq::<char>::empty());
    assert(out@ + Seq::<char>::empty() =~= out@);
    out
}

// ---------------------------------------------------------------------------
// Lines
// ---------------------------------------------------------------------------

/// Index of the first `'\n'` in `s`, or its length where there is none.
pub open spec fn newline_index(s: Seq<char>) -> nat
    decreases s.len(),
{
    if s.len() == 0 {
        0
    } else if s[0] == '\n' {
        0
    } else {
        1 + newline_index(s.drop_first())
    }
}

/// `l` without one trailing `'\r'`.
pub open spec fn strip_cr(l: Seq<char>) -> Seq<char> {
    if l.len() > 0 && l.last() == '\r' {
        l.drop_last()
    } else {
        l
    }
}

/// `str::lines`: the text cut at each `'\n'`, each piece without a trailing
/// `'\r'`; a last piece that ends the text without a newline counts too.
pub open spec fn lines_of(s: Seq<char>) -> Seq<Seq<char>>
    decreases s.len(),
{
    if s.len() == 0 {
        seq![]
    } else {
        let e = newline_index(s);
        if e < s.len() {
            seq![strip_cr(s.take(e as int))] + lines_of(s.skip(e + 1 as int))
        } else {
            seq![strip_cr(s)]
        }
    }
}

/// The index of the first `'\n'` in `s` at or after `from`, or the length of `s`.
pub fn line_end(s: &[char], from: usize) -> (e: usize)
    requires
        from <= s@.len(),
    ensures
        e == from + newline_index(s@.skip(from as int)),
        e <= s@.len(),
{
    let mut j: usize = from;
    while j < s.len() && s[j] != '\n'
        invariant
            from <= j <= s@.len(),
            newline_index(s@.skip(from as int)) == (j - from) + newline_index(s@.skip(j as int)),
        decreases s@.len() - j,
    {
        assert(s@.skip(j as int).drop_first() =~= s@.skip(j + 1));
        j = j + 1;
    }
    proof {
        if j < s.len() {
            assert(s@.skip(j as int)[0] == '\n');
        } else {
            assert(s@.skip(j as int).len() == 0);
        }
    }
    j
}

// ---------------------------------------------------------------------------
// Words
// ---------------------------------------------------------------------------

/// The characters with the Unicode property `White_Space`, which
/// `char::is_whitespace` tests for.
pub open spec fn is_white_space(c: char) -> bool {
    let n = c as u32;
    (0x09 <= n && n <= 0x0D) || n == 0x20 || n == 0x85 || n == 0xA0 || n == 0x1680 || (0x2000
        <= n && n <= 0x200A) || n == 0x2028 || n == 0x2029 || n == 0x202F || n == 0x205F || n
        == 0x3000
}

/// Whether `c` is white space (`char::is_whitespace`).
pub fn white_space(c: char) -> (r: bool)
    ensures
        r == is_white_space(c),
{
    let n = c as u32;
    (0x09 <= n && n <= 0x0D) || n == 0x20 || n == 0x85 || n == 0xA0 || n == 0x1680 || (0x2000
        <= n && n <= 0x200A) || n == 0x2028 || n == 0x2029 || n == 0x202F || n == 0x205F || n
        == 0x3000
}

/// The words of `s`: its runs of characters that are no white space, in
/// order (`str::split_whitespace`).
pub open spec fn words(s: Seq<char>) -> Seq<Seq<char>>
    decreases s.len(),
{
    if s.len() == 0 {
        Seq::empty()
    } else {
        let w = words(s.drop_last());
        let c = s.last();
        if is_white_space(c) {
            w
        } else if s.len() >= 2 && !is_white_space(s[s.len() - 2]) {
            w.drop_last().push(w.last().push(c))
        } else {
            w.push(seq![c])
        }
    }
}

/// The words of `s`, each as a `String`, up to `limit` of them.
pub fn first_words(s: &str, limit: usize) -> (r: Vec<String>)
    ensures
        r@.len() == if words(s@).len() < limit { words(s@).len() } else { limit as nat },
        forall|k: int| 0 <= k < r@.len() ==> #[trigger] r@[k]@ == words(s@)[k],
{
    let chars = chars_of(s);
    let mut done: Vec<String> = Vec::new();
    let mut cur: Vec<char> = Vec::new();
    let mut i: usize = 0;
    while i < chars.len()
        invariant
            i <= chars@.len(),
            chars@ == s@,
            ({
                let w = words(chars@.take(i as int));
                &&& cur@.len() > 0 ==> (i > 0 && !is_white_space(chars@[i - 1]) && w.len() > 0
                    && w.last() == cur@ && done@.len() == w.len() - 1)
                &&& cur@.len() == 0 ==> (done@.len() == w.len() && (i > 0 ==> is_white_space(
                    chars@[i - 1],
                )))
                &&& forall|k: int| 0 <= k < done@.len() ==> #[trigger] done@[k]@ == w[k]
            }),
        decreases chars@.len() - i,
    {
        let c = chars[i];
        let ghost before = chars@.take(i as int);
        let ghost after = chars@.take(i + 1);
        assert(after.drop_last() =~= before);
        assert(after.last() == c);
        if white_space(c) {
            if cur.len() > 0 {
                let word = string_of(cur.as_slice());
                done.push(word);
                cur = Vec::new();
            }
        } else {
            if cur.len() == 0 && i > 0 {
                assert(after[after.len() - 2] == chars@[i - 1]);
            }
            if cur.len() > 0 {
                assert(after[after.len() - 2] == chars@[i - 1]);
            }
            cur.push(c);
        }
        i = i + 1;
    }
    assert(chars@.take(i as int) =~= s@);
    if cur.len() > 0 {
        let word = string_of(cur.as_slice());
        done.push(word);
    }
    let mut out: Vec<String> = Vec::new();
    let mut k: usize = 0;
    while k < done.len() && k < limit
        invariant
            k <= done@.len(),
            k <= limit,
            done@.len() == words(s@).len(),
            forall|j: int| 0 <= j < done@.len() ==> #[trigger] done@[j]@ == words(s@)[j],
            out@.len() == k,
            forall|j: int| 0 <= j < k ==> #[trigger] out@[j]@ == words(s@)[j],
        decreases done@.len() - k,
    {
        out.push(done[k].clone());
        k = k + 1;
    }
    out
}

// ---------------------------------------------------------------------------
// Joining
// ---------------------------------------------------------------------------

/// The parts joined, with `sep` between two of them.
pub open spec fn joined(parts: Seq<Seq<char>>, sep: Seq<char>) -> Seq<char>
    decreases parts.len(),
{
    if parts.len() == 0 {
        Seq::<char>::empty()
    } else if parts.len() == 1 {
        parts[0]
    } else {
        joined(parts.drop_last(), sep) + sep + parts.last()
    }
}

/// The parts joined with `sep` (`[String]::join`).
pub fn join(parts: &[String], sep: &str) -> (r: String)
    ensures
        r@ == joined(parts@.map_values(|p: String| p@), sep@),
{
    let sep_chars = chars_of(sep);
    let mut out: Vec<char> = Vec::new();
    let mut k: usize = 0;
    while k < parts.len()
        invariant
            k <= parts@.len(),
            sep_chars@ == sep@,
            out@ == joined(parts@.take(k as int).map_values(|p: String| p@), sep@),
        decreases parts@.len() - k,
    {
        let ghost before = parts@.take(k as int).map_values(|p: String| p@);
        let ghost after = parts@.take(k + 1).map_values(|p: String| p@);
        assert(after.drop_last() =~= before);
        assert(after.last() == parts@[k as int]@);
        if k > 0 {
            extend_chars(&mut out, sep_chars.as_slice());
        }
        extend_chars(&mut out, chars_of(parts[k].as_str()).as_slice());
        proof {
            if k == 0 {
                assert(after =~= seq![parts@[0]@]);
            }
        }
        assert(out@ =~= joined(after, sep@));
        k = k + 1;
    }
    assert(parts@.take(k as int) =~= parts@);
    string_of(out.as_slice())
}

} // verus!
