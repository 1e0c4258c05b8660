//! Character-level text handling: decimal numerals, trimming, field
//! splitting, and the few conversions that are left to the standard library.

use vstd::prelude::*;
use vstd::utf8::{decode_utf8, valid_utf8};

verus! {

/// The lower-case form that `str::to_lowercase` gives to a text.
pub uninterp spec fn lowercase_of(text: Seq<char>) -> Seq<char>;

/// The upper-case form that `str::to_uppercase` gives to a text.
pub uninterp spec fn uppercase_of(text: Seq<char>) -> Seq<char>;

/// The text that `String::from_utf8_lossy` reads out of a run of bytes.
pub uninterp spec fn lossy_text_of(bytes: Seq<u8>) -> Seq<char>;

/// Calls `String::push`. Taken on trust from the standard library: the
/// character is appended at the end and nothing else changes.
#[verifier::external_body]
pub(crate) fn push_char(s: &mut String, c: char)
    ensures
        final(s)@ == old(s)@.push(c),
{
    s.push(c);
}

/// Calls `str::to_lowercase`. Taken on trust from the standard library: the
/// result depends on the text alone. What it is (the Unicode lower-casing of
/// the whole text) is not written out here; it only has a name.
#[verifier::external_body]
pub(crate) fn lowercase(s: &str) -> (r: String)
    ensures
        r@ == lowercase_of(s@),
{
    s.to_lowercase()
}

/// Calls `str::to_uppercase`. Taken on trust from the standard library: the
/// result depends on the text alone. What it is (the Unicode upper-casing of
/// the whole text) is not written out here; it only has a name.
#[verifier::external_body]
pub(crate) fn uppercase(s: &str) -> (r: String)
    ensures
        r@ == uppercase_of(s@),
{
    s.to_uppercase()
}

/// Calls `String::from_utf8_lossy`. Taken on trust from the standard
/// library: the result depends on the bytes alone, and well-formed UTF-8 is
/// decoded as it stands. How anything else is read, with replacement
/// characters, is not written out here; it only has a name.
#[verifier::external_body]
pub(crate) fn decode_lossy(bytes: &[u8]) -> (r: String)
    ensures
        r@ == lossy_text_of(bytes@),
        valid_utf8(bytes@) ==> r@ == decode_utf8(bytes@),
{
    String::from_utf8_lossy(bytes).into_owned()
}

/// The character that writes the digit `d`.
pub open spec fn digit(d: nat) -> char {
    if d == 0 {
        '0'
    } else if d == 1 {
        '1'
    } else if d == 2 {
        '2'
    } else if d == 3 {
        '3'
    } else if d == 4 {
        '4'
    } else if d == 5 {
        '5'
    } else if d == 6 {
        '6'
    } else if d == 7 {
        '7'
    } else if d == 8 {
        '8'
    } else {
        '9'
    }
}

/// The decimal numeral of `n`, without sign or leading zeros.
pub open spec fn decimal(n: nat) -> Seq<char>
    decreases n,
{
    if n < 10 {
        seq![digit(n)]
    } else {
        decimal(n / 10).push(digit(n % 10))
    }
}

/// `width` copies of the character `c`.
pub open spec fn repeated(c: char, width: nat) -> Seq<char> {
    Seq::new(width, |i: int| c)
}

/// `s` without the run of `c` at its end.
pub open spec fn strip_trailing(s: Seq<char>, c: char) -> Seq<char>
    decreases s.len(),
{
    if s.len() > 0 && s.last() == c {
        strip_trailing(s.drop_last(), c)
    } else {
        s
    }
}

/// `s` without the run of `c` at its start.
pub open spec fn strip_leading(s: Seq<char>, c: char) -> Seq<char>
    decreases s.len(),
{
    if s.len() > 0 && s.first() == c {
        strip_leading(s.drop_first(), c)
    } else {
        s
    }
}

/// The position of the first `c` in `s`, or the length of `s` where there is
/// none.
pub open spec fn index_of(s: Seq<char>, c: char) -> int
    decreases s.len(),
{
    if s.len() == 0 || s.first() == c {
        0
    } else {
        1 + index_of(s.drop_first(), c)
    }
}

/// `s` cut at single spaces into at most three fields: the first two end at
/// a space, the third keeps whatever follows, spaces included.
pub open spec fn fields(s: Seq<char>) -> Seq<Seq<char>> {
    let i = index_of(s, ' ');
    if i == s.len() {
        seq![s]
    } else {
        let rest = s.skip(i + 1);
        let j = index_of(rest, ' ');
        if j == rest.len() {
            seq![s.take(i), rest]
        } else {
            seq![s.take(i), rest.take(j), rest.skip(j + 1)]
        }
    }
}

/// What `index_of` finds: nothing before it is `c`, and it is either a `c`
/// or the end.
pub proof fn lemma_index_of(s: Seq<char>, c: char)
    ensures
        0 <= index_of(s, c) <= s.len(),
        forall|k: int| 0 <= k < index_of(s, c) ==> s[k] != c,
        index_of(s, c) < s.len() ==> s[index_of(s, c)] == c,
    decreases s.len(),
{
    if s.len() > 0 && s.first() != c {
        let t = s.drop_first();
        lemma_index_of(t, c);
        assert forall|k: int| 0 <= k < index_of(s, c) implies s[k] != c by {
            if k > 0 {
                assert(s[k] == t[k - 1]);
            }
        }
    }
}

/// A position that `index_of` must return: the first `c`, or the end.
pub proof fn lemma_index_of_is(s: Seq<char>, c: char, i: int)
    requires
        0 <= i <= s.len(),
        forall|k: int| 0 <= k < i ==> s[k] != c,
        i < s.len() ==> s[i] == c,
    ensures
        index_of(s, c) == i,
{
    lemma_index_of(s, c);
}

/// A cut that `strip_trailing` must make.
pub proof fn lemma_strip_trailing_is(s: Seq<char>, c: char, n: int)
    requires
        0 <= n <= s.len(),
        forall|k: int| n <= k < s.len() ==> s[k] == c,
        n > 0 ==> s[n - 1] != c,
    ensures
        strip_trailing(s, c) == s.take(n),
    decreases s.len(),
{
    if s.len() > 0 && s.last() == c && n < s.len() {
        lemma_strip_trailing_is(s.drop_last(), c, n);
    }
}

/// A cut that `strip_leading` must make.
pub proof fn lemma_strip_leading_is(s: Seq<char>, c: char, n: int)
    requires
        0 <= n <= s.len(),
        forall|k: int| 0 <= k < n ==> s[k] == c,
        n < s.len() ==> s[n] != c,
    ensures
        strip_leading(s, c) == s.skip(n),
    decreases s.len(),
{
    if s.len() > 0 && s.first() == c && n > 0 {
        lemma_strip_leading_is(s.drop_first(), c, n - 1);
    }
}

/// The characters of a text, one by one.
pub fn to_chars(s: &str) -> (v: Vec<char>)
    ensures
        v@ == s@,
{
    let mut v: Vec<char> = Vec::new();
    for c in it: s.chars()
        invariant
            v@ == it.seq().take(it.index() as int),
            it.seq() == s@,
    {
        v.push(c);
    }
    v
}

/// The text made of the characters of `v` from `from` up to `to`.
pub fn string_of(v: &Vec<char>, from: usize, to: usize) -> (s: String)
    requires
        from <= to <= v.len(),
    ensures
        s@ == v@.subrange(from as int, to as int),
{
    let mut s = String::new();
    let mut i: usize = from;
    while i < to
        invariant
            from <= i <= to <= v.len(),
            s@ == v@.subrange(from as int, i as int),
        decreases to - i,
    {
        push_char(&mut s, v[i]);
        i += 1;
    }
    s
}

/// Appends `width` copies of `c` to `out`.
pub fn push_repeated(out: &mut String, c: char, width: usize)
    ensures
        final(out)@ == old(out)@ + repeated(c, width as nat),
{
    let mut i: usize = 0;
    while i < width
        invariant
            i <= width,
            out@ == old(out)@ + repeated(c, i as nat),
        decreases width - i,
    {
        push_char(out, c);
        i += 1;
    }
}

fn digit_char(d: usize) -> (c: char)
    requires
        d < 10,
    ensures
        c == digit(d as nat),
{
    if d == 0 {
        '0'
    } else if d == 1 {
        '1'
    } else if d == 2 {
        '2'
    } else if d == 3 {
        '3'
    } else if d == 4 {
        '4'
    } else if d == 5 {
        '5'
    } else if d == 6 {
        '6'
    } else if d == 7 {
        '7'
    } else if d == 8 {
        '8'
    } else {
        '9'
    }
}

/// Appends the decimal numeral of `n` to `out`.
pub fn push_decimal(out: &mut String, n: usize)
    ensures
        final(out)@ == old(out)@ + decimal(n as nat),
    decreases n,
{
    if n >= 10 {
        push_decimal(out, n / 10);
    }
    push_char(out, digit_char(n % 10));
}

/// The position of the first `c` in `v` at or after `from`, or the length of
/// `v` where there is none.
pub fn find_from(v: &Vec<char>, from: usize, c: char) -> (i: usize)
    requires
        from <= v.len(),
    ensures
        from <= i <= v.len(),
        i - from == index_of(v@.skip(from as int), c),
{
    let mut i: usize = from;
    while i < v.len() && v[i] != c
        invariant
            from <= i <= v.len(),
            forall|k: int| from <= k < i ==> v@[k] != c,
        decreases v.len() - i,
    {
        i += 1;
    }
    proof {
        lemma_index_of_is(v@.skip(from as int), c, i - from);
    }
    i
}

/// The number of characters of `v` that remain once the run of `c` at its
/// end is taken off.
pub fn trailing_cut(v: &Vec<char>, end: usize, c: char) -> (n: usize)
    requires
        end <= v.len(),
    ensures
        n <= end,
        v@.take(n as int) == strip_trailing(v@.take(end as int), c),
{
    let mut n: usize = end;
    while n > 0 && v[n - 1] == c
        invariant
            n <= end <= v.len(),
            forall|k: int| n <= k < end ==> v@[k] == c,
        decreases n,
    {
        n -= 1;
    }
    proof {
        lemma_strip_trailing_is(v@.take(end as int), c, n as int);
    }
    n
}

/// The number of characters in the run of `c` at the start of `v`.
pub fn leading_run(v: &Vec<char>, c: char) -> (n: usize)
    ensures
        n <= v.len(),
        v@.skip(n as int) == strip_leading(v@, c),
{
    let mut n: usize = 0;
    while n < v.len() && v[n] == c
        invariant
            n <= v.len(),
            forall|k: int| 0 <= k < n ==> v@[k] == c,
        decreases v.len() - n,
    {
        n += 1;
    }
    proof {
        lemma_strip_leading_is(v@, c, n as int);
    }
    n
}

} // verus!
