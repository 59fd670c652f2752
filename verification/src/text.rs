//! The grammar of the editor's arguments: words separated by white space
//! and decimal integers.

use vstd::prelude::*;

verus! {

/// White space: the code points with the Unicode property `White_Space`.
pub open spec fn is_space(c: char) -> bool {
    let n = c as u32;
    ||| 0x09 <= n <= 0x0d
    ||| n == 0x20
    ||| n == 0x85
    ||| n == 0xa0
    ||| n == 0x1680
    ||| 0x2000 <= n <= 0x200a
    ||| n == 0x2028
    ||| n == 0x2029
    ||| n == 0x202f
    ||| n == 0x205f
    ||| n == 0x3000
}

/// An ASCII decimal digit.
pub open spec fn is_digit(c: char) -> bool {
    0x30 <= c as u32 <= 0x39
}

/// The value of a decimal digit.
pub open spec fn digit_value(c: char) -> nat {
    (c as u32 - 0x30) as nat
}

/// Whether `s` consists of decimal digits only.
pub open spec fn all_digits(s: Seq<char>) -> bool {
    forall|i: int| 0 <= i < s.len() ==> is_digit(#[trigger] s[i])
}

/// The number that a string of decimal digits denotes, most significant
/// digit first.
pub open spec fn decimal(s: Seq<char>) -> nat
    decreases s.len(),
{
    if s.len() == 0 {
        0
    } else {
        10 * decimal(s.drop_last()) + digit_value(s.last())
    }
}

/// The integer that `s` denotes: an optional sign, `+` or (where `signed`)
/// `-`, followed by one or more decimal digits and nothing else.
pub open spec fn integer(s: Seq<char>, signed: bool) -> Option<int> {
    let negative = signed && s.len() > 0 && s[0] == '-';
    let digits = if s.len() > 0 && (s[0] == '+' || negative) {
        s.skip(1)
    } else {
        s
    };
    if digits.len() > 0 && all_digits(digits) {
        Some(
            if negative {
                -(decimal(digits) as int)
            } else {
                decimal(digits) as int
            },
        )
    } else {
        None
    }
}

/// The unsigned integer that `s` denotes, if it denotes one that is at
/// most `max`.
pub open spec fn natural(s: Seq<char>, max: int) -> Option<int> {
    match integer(s, false) {
        Some(v) => if v <= max {
            Some(v)
        } else {
            None
        },
        None => None,
    }
}

/// The 32-bit signed integer that `s` denotes, if it denotes one.
pub open spec fn parsed_i32(s: Seq<char>) -> Option<i32> {
    match integer(s, true) {
        Some(v) => if i32::MIN <= v <= i32::MAX {
            Some(v as i32)
        } else {
            None
        },
        None => None,
    }
}

/// The length of the longest prefix of `s` that holds no white space.
pub open spec fn word_len(s: Seq<char>) -> nat
    decreases s.len(),
{
    if s.len() > 0 && !is_space(s[0]) {
        1 + word_len(s.skip(1))
    } else {
        0
    }
}

/// The words of `s`: its maximal runs of characters that are not white
/// space, in order.
pub open spec fn words(s: Seq<char>) -> Seq<Seq<char>>
    decreases s.len(),
    via words_decreases
{
    if s.len() == 0 {
        Seq::empty()
    } else if is_space(s[0]) {
        words(s.skip(1))
    } else {
        seq![s.take(word_len(s) as int)] + words(s.skip(word_len(s) as int))
    }
}

#[via_fn]
proof fn words_decreases(s: Seq<char>) {
    if s.len() > 0 && !is_space(s[0]) {
        lemma_word_len_bound(s);
    }
}

/// A word is no longer than the string it starts, and not empty where the
/// string starts with a character that is not white space.
pub proof fn lemma_word_len_bound(s: Seq<char>)
    ensures
        word_len(s) <= s.len(),
        s.len() > 0 && !is_space(s[0]) ==> word_len(s) >= 1,
    decreases s.len(),
{
    if s.len() > 0 && !is_space(s[0]) {
        lemma_word_len_bound(s.skip(1));
    }
}

/// A run of `n` characters without white space that ends the string, or
/// that white space follows, is the first word.
pub proof fn lemma_word_len_is(s: Seq<char>, n: int)
    requires
        0 <= n <= s.len(),
        forall|k: int| 0 <= k < n ==> !is_space(#[trigger] s[k]),
        n == s.len() || is_space(s[n]),
    ensures
        word_len(s) == n,
    decreases n,
{
    if n > 0 {
        let t = s.skip(1);
        assert forall|k: int| 0 <= k < n - 1 implies !is_space(#[trigger] t[k]) by {
            assert(t[k] == s[k + 1]);
        }
        lemma_word_len_is(t, n - 1);
    }
}

/// The views of a vector of words.
pub open spec fn word_views(v: Seq<Vec<char>>) -> Seq<Seq<char>> {
    Seq::new(v.len(), |i: int| v[i]@)
}

/// Whether `c` is white space.
pub fn is_whitespace(c: char) -> (b: bool)
    ensures
        b == is_space(c),
{
    let n: u32 = c as u32;
    (0x09 <= n && n <= 0x0d) || n == 0x20 || n == 0x85 || n == 0xa0 || n == 0x1680 || (0x2000 <= n
        && n <= 0x200a) || n == 0x2028 || n == 0x2029 || n == 0x202f || n == 0x205f || n == 0x3000
}

/// The characters of a string.
pub fn chars_of(s: &str) -> (chars: Vec<char>)
    ensures
        chars@ == s@,
{
    let n: usize = s.unicode_len();
    let mut chars: Vec<char> = Vec::new();
    let mut i: usize = 0;
    while i < n
        invariant
            n == s@.len(),
            i <= n,
            chars@ == s@.take(i as int),
        decreases n - i,
    {
        chars.push(s.get_char(i));
        i += 1;
        assert(chars@ =~= s@.take(i as int));
    }
    assert(s@.take(n as int) =~= s@);
    chars
}

/// Splits a string at white space into its words.
pub fn split_words(chars: &Vec<char>) -> (out: Vec<Vec<char>>)
    ensures
        word_views(out@) == words(chars@),
{
    let n: usize = chars.len();
    let mut out: Vec<Vec<char>> = Vec::new();
    let mut i: usize = 0;
    assert(chars@.skip(0) =~= chars@);
    assert(word_views(out@) =~= Seq::<Seq<char>>::empty());
    while i < n
        invariant
            n == chars@.len(),
            i <= n,
            words(chars@) == word_views(out@) + words(chars@.skip(i as int)),
        decreases n - i,
    {
        let ghost rest = chars@.skip(i as int);
        if is_whitespace(chars[i]) {
            assert(rest.skip(1) =~= chars@.skip(i + 1));
            i += 1;
        } else {
            let start: usize = i;
            let mut word: Vec<char> = Vec::new();
            while i < n && !is_whitespace(chars[i])
                invariant
                    n == chars@.len(),
                    start <= i <= n,
                    word@ == chars@.subrange(start as int, i as int),
                    forall|k: int| start <= k < i ==> !is_space(#[trigger] chars@[k]),
                decreases n - i,
            {
                word.push(chars[i]);
                i += 1;
                assert(word@ =~= chars@.subrange(start as int, i as int));
            }
            proof {
                let m = i - start;
                assert forall|k: int| 0 <= k < m implies !is_space(#[trigger] rest[k]) by {
                    assert(rest[k] == chars@[start + k]);
                }
                lemma_word_len_is(rest, m);
                assert(rest.take(m) =~= word@);
                assert(rest.skip(m) =~= chars@.skip(i as int));
                let ghost before = word_views(out@);
                assert(word_views(out@.push(word)) =~= before + seq![word@]);
                assert((before + seq![word@]) + words(chars@.skip(i as int)) =~= before + (
                seq![word@] + words(chars@.skip(i as int))));
            }
            out.push(word);
        }
    }
    assert(word_views(out@) + Seq::<Seq<char>>::empty() =~= word_views(out@));
    out
}

/// Magnitudes from here on are not told apart while digits are read: all
/// of them are too large for any range asked for.
const MAGNITUDE_CAP: u64 = 0x1_0000_0000_0000;

/// Reads the integer that `chars` denotes, if it lies between `lo` and
/// `hi`. Any number of digits is read without overflow.
fn parse_integer(chars: &Vec<char>, signed: bool, lo: i64, hi: i64) -> (r: Option<i64>)
    requires
        -MAGNITUDE_CAP < lo,
        hi < MAGNITUDE_CAP,
    ensures
        r == match integer(chars@, signed) {
            Some(v) => if lo <= v <= hi {
                Some(v as i64)
            } else {
                None
            },
            None => None,
        },
{
    let n: usize = chars.len();
    if n == 0 {
        return None;
    }
    let first: char = chars[0];
    let negative: bool = signed && first == '-';
    let start: usize = if first == '+' || negative {
        1
    } else {
        0
    };
    let ghost digits = chars@.skip(start as int);
    assert(chars@.skip(0) =~= chars@);
    if start == n {
        return None;
    }
    let mut acc: u64 = 0;
    let mut i: usize = start;
    assert(chars@.subrange(start as int, i as int) =~= Seq::<char>::empty());
    while i < n
        invariant
            n == chars@.len(),
            start <= i <= n,
            n > 0,
            negative == (signed && chars@[0] == '-'),
            start == if chars@[0] == '+' || negative { 1int } else { 0int },
            digits == chars@.skip(start as int),
            start == 0 ==> digits == chars@,
            all_digits(chars@.subrange(start as int, i as int)),
            acc <= MAGNITUDE_CAP,
            acc == if decimal(chars@.subrange(start as int, i as int)) < MAGNITUDE_CAP {
                decimal(chars@.subrange(start as int, i as int))
            } else {
                MAGNITUDE_CAP as nat
            },
        decreases n - i,
    {
        let c: char = chars[i];
        let code: u32 = c as u32;
        if code < 0x30 || code > 0x39 {
            assert(digits[i - start] == c);
            assert(!all_digits(digits));
            return None;
        }
        let ghost before = chars@.subrange(start as int, i as int);
        let ghost after = chars@.subrange(start as int, i + 1);
        proof {
            assert(after.drop_last() =~= before);
            assert(after.last() == c);
            assert(decimal(after) == 10 * decimal(before) + digit_value(c));
            assert forall|k: int| 0 <= k < after.len() implies is_digit(#[trigger] after[k]) by {
                if k < before.len() {
                    assert(after[k] == before[k]);
                }
            }
        }
        let next: u64 = acc * 10 + (code - 0x30) as u64;
        acc = if next > MAGNITUDE_CAP {
            MAGNITUDE_CAP
        } else {
            next
        };
        i += 1;
    }
    assert(chars@.subrange(start as int, n as int) =~= digits);
    let magnitude: i64 = acc as i64;
    let value: i64 = if negative {
        -magnitude
    } else {
        magnitude
    };
    if lo <= value && value <= hi {
        Some(value)
    } else {
        None
    }
}

/// Reads a 32-bit signed integer: an optional sign and decimal digits.
pub fn parse_i32(s: &str) -> (r: Option<i32>)
    ensures
        r == parsed_i32(s@),
{
    let chars = chars_of(s);
    match parse_integer(&chars, true, -0x8000_0000, 0x7fff_ffff) {
        Some(v) => Some(v as i32),
        None => None,
    }
}

/// Whether every word of `ws` denotes an unsigned integer of at most `max`.
pub open spec fn all_natural(ws: Seq<Seq<char>>, max: int) -> bool {
    forall|i: int| 0 <= i < ws.len() ==> (#[trigger] natural(ws[i], max)).is_some()
}

/// Reads the words of `s` as unsigned integers of at most `max`: all of
/// them, or none if one of them is not such an integer.
pub fn parse_values(s: &str, max: u32) -> (r: Option<Vec<u32>>)
    ensures
        r.is_some() <==> all_natural(words(s@), max as int),
        r matches Some(v) ==> v@.len() == words(s@).len() && forall|i: int|
            0 <= i < v@.len() ==> natural(words(s@)[i], max as int) == Some(#[trigger] v@[i] as int),
{
    let chars = chars_of(s);
    let ws = split_words(&chars);
    let ghost texts = words(s@);
    let mut values: Vec<u32> = Vec::new();
    let mut i: usize = 0;
    while i < ws.len()
        invariant
            i <= ws@.len(),
            word_views(ws@) == texts,
            texts == words(s@),
            values@.len() == i,
            forall|k: int|
                0 <= k < i ==> natural(texts[k], max as int) == Some(#[trigger] values@[k] as int),
            forall|k: int| 0 <= k < i ==> (#[trigger] natural(texts[k], max as int)).is_some(),
        decreases ws@.len() - i,
    {
        assert(texts[i as int] == ws@[i as int]@);
        match parse_integer(&ws[i], false, 0, max as i64) {
            Some(v) => {
                values.push(v as u32);
            },
            None => {
                assert(natural(texts[i as int], max as int).is_none());
                assert(!all_natural(texts, max as int));
                return None;
            },
        }
        i += 1;
    }
    assert(all_natural(texts, max as int));
    Some(values)
}

} // verus!
