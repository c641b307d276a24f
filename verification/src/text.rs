//! Character-level string helpers: Unicode whitespace trimming, prefix
//! stripping, substring search and unsigned integer parsing.

use vstd::prelude::*;
use vstd::string::*;

verus! {

/// A code point with the Unicode `White_Space` property, which is what
/// `char::is_whitespace` and `str::trim` test.
pub open spec fn is_white_space(c: char) -> bool {
    ||| ('\u{9}' <= c && c <= '\u{d}')
    ||| c == ' '
    ||| c == '\u{85}'
    ||| c == '\u{a0}'
    ||| c == '\u{1680}'
    ||| ('\u{2000}' <= c && c <= '\u{200a}')
    ||| c == '\u{2028}'
    ||| c == '\u{2029}'
    ||| c == '\u{202f}'
    ||| c == '\u{205f}'
    ||| c == '\u{3000}'
}

/// `s` with all leading whitespace removed.
pub open spec fn trim_start_spec(s: Seq<char>) -> Seq<char>
    decreases s.len(),
{
    if s.len() > 0 && is_white_space(s[0]) {
        trim_start_spec(s.drop_first())
    } else {
        s
    }
}

/// `s` with all trailing whitespace removed.
pub open spec fn trim_end_spec(s: Seq<char>) -> Seq<char>
    decreases s.len(),
{
    if s.len() > 0 && is_white_space(s.last()) {
        trim_end_spec(s.drop_last())
    } else {
        s
    }
}

/// `s` with leading and trailing whitespace removed.
pub open spec fn trim_spec(s: Seq<char>) -> Seq<char> {
    trim_end_spec(trim_start_spec(s))
}

/// `s` with every leading occurrence of `c` removed.
pub open spec fn trim_start_char_spec(s: Seq<char>, c: char) -> Seq<char>
    decreases s.len(),
{
    if s.len() > 0 && s[0] == c {
        trim_start_char_spec(s.drop_first(), c)
    } else {
        s
    }
}

/// `t` is a contiguous piece of `s`.
pub open spec fn is_infix(t: Seq<char>, s: Seq<char>) -> bool {
    exists|i: int, j: int| 0 <= i <= j <= s.len() && t == #[trigger] s.subrange(i, j)
}

/// `p` occurs in `s` starting at position `i`.
pub open spec fn occurs_at(s: Seq<char>, p: Seq<char>, i: int) -> bool {
    0 <= i && i + p.len() <= s.len() && s.subrange(i, i + p.len()) == p
}

/// `p` occurs somewhere in `s` (what `str::contains` tests).
pub open spec fn contains_spec(s: Seq<char>, p: Seq<char>) -> bool {
    exists|i: int| occurs_at(s, p, i)
}

/// `t` neither begins nor ends with whitespace.
pub open spec fn is_trimmed(t: Seq<char>) -> bool {
    t.len() > 0 ==> !is_white_space(t[0]) && !is_white_space(t.last())
}

/// Whatever `trim_start_spec` leaves does not begin with whitespace.
pub proof fn lemma_trim_start_first(s: Seq<char>)
    ensures
        trim_start_spec(s).len() > 0 ==> !is_white_space(trim_start_spec(s)[0]),
    decreases s.len(),
{
    if s.len() > 0 && is_white_space(s[0]) {
        lemma_trim_start_first(s.drop_first());
    }
}

/// `trim_end_spec` keeps a prefix of `s`, and what it keeps does not end with
/// whitespace.
pub proof fn lemma_trim_end_prefix(s: Seq<char>)
    ensures
        trim_end_spec(s).len() <= s.len(),
        trim_end_spec(s) == s.take(trim_end_spec(s).len() as int),
        trim_end_spec(s).len() > 0 ==> !is_white_space(trim_end_spec(s).last()),
    decreases s.len(),
{
    if s.len() > 0 && is_white_space(s.last()) {
        lemma_trim_end_prefix(s.drop_last());
        let t = trim_end_spec(s.drop_last());
        assert(s.drop_last().take(t.len() as int) =~= s.take(t.len() as int));
    } else {
        assert(s.take(s.len() as int) =~= s);
    }
}

/// `trim_start_spec` keeps a suffix of `s`.
pub proof fn lemma_trim_start_suffix(s: Seq<char>)
    ensures
        trim_start_spec(s).len() <= s.len(),
        trim_start_spec(s) == s.skip(s.len() - trim_start_spec(s).len()),
    decreases s.len(),
{
    if s.len() > 0 && is_white_space(s[0]) {
        lemma_trim_start_suffix(s.drop_first());
        let t = trim_start_spec(s.drop_first());
        assert(s.drop_first().skip(s.drop_first().len() - t.len()) =~= s.skip(s.len() - t.len()));
    } else {
        assert(s.skip(0) =~= s);
    }
}

/// What `trim_spec` leaves is a piece of `s`.
pub proof fn lemma_trim_within(s: Seq<char>)
    ensures
        is_infix(trim_spec(s), s),
{
    lemma_trim_start_suffix(s);
    let a = trim_start_spec(s);
    lemma_trim_end_prefix(a);
    let t = trim_end_spec(a);
    let i = s.len() - a.len();
    assert(t =~= s.subrange(i, i + t.len()));
}

/// Whatever `trim_spec` leaves neither begins nor ends with whitespace.
pub proof fn lemma_trim_is_trimmed(s: Seq<char>)
    ensures
        is_trimmed(trim_spec(s)),
{
    let a = trim_start_spec(s);
    lemma_trim_start_first(s);
    lemma_trim_end_prefix(a);
    let t = trim_end_spec(a);
    if t.len() > 0 {
        assert(t[0] == a[0]);
    }
}

/// Trimming what is already trimmed changes nothing.
pub proof fn lemma_trim_idempotent(s: Seq<char>)
    ensures
        trim_spec(trim_spec(s)) == trim_spec(s),
{
    lemma_trim_is_trimmed(s);
}

/// Whatever `trim_start_char_spec(s, c)` leaves does not begin with `c`.
pub proof fn lemma_trim_start_char_first(s: Seq<char>, c: char)
    ensures
        trim_start_char_spec(s, c).len() > 0 ==> trim_start_char_spec(s, c)[0] != c,
    decreases s.len(),
{
    if s.len() > 0 && s[0] == c {
        lemma_trim_start_char_first(s.drop_first(), c);
    }
}

/// Every character of `s` is `c`.
pub open spec fn all_chars(s: Seq<char>, c: char) -> bool {
    forall|i: int| 0 <= i < s.len() ==> #[trigger] s[i] == c
}

/// `trim_start_char_spec(s, c)` is what follows the run of `c` that begins
/// `s`: it is `s.skip(k)` for a `k` such that the first `k` characters are `c`.
pub proof fn lemma_trim_start_char_skips(s: Seq<char>, c: char) -> (k: int)
    ensures
        0 <= k <= s.len(),
        all_chars(s.take(k), c),
        trim_start_char_spec(s, c) == s.skip(k),
    decreases s.len(),
{
    if s.len() > 0 && s[0] == c {
        let k1 = lemma_trim_start_char_skips(s.drop_first(), c);
        assert(s.drop_first().skip(k1) =~= s.skip(k1 + 1));
        assert forall|i: int| 0 <= i < k1 + 1 implies #[trigger] s.take(k1 + 1)[i] == c by {
            if i > 0 {
                assert(s.take(k1 + 1)[i] == s.drop_first().take(k1)[i - 1]);
            }
        }
        k1 + 1
    } else {
        assert(s.skip(0) =~= s);
        0
    }
}

/// A leading `'0'` does not change the number that digits denote.
pub proof fn lemma_digits_value_leading_zero(x: Seq<char>)
    ensures
        digits_value(seq!['0'] + x) == digits_value(x),
    decreases x.len(),
{
    if x.len() > 0 {
        assert((seq!['0'] + x).drop_last() =~= seq!['0'] + x.drop_last());
        assert((seq!['0'] + x).last() == x.last());
        lemma_digits_value_leading_zero(x.drop_last());
    } else {
        assert((seq!['0'] + x).drop_last() =~= Seq::<char>::empty());
        assert((seq!['0'] + x).last() == '0');
        assert(digits_value(Seq::<char>::empty()) == 0);
    }
}

/// Dropping leading `'0'`s does not change the number that digits denote.
pub proof fn lemma_digits_value_skip_zeroes(d: Seq<char>, k: int)
    requires
        0 <= k <= d.len(),
        all_chars(d.take(k), '0'),
    ensures
        digits_value(d.skip(k)) == digits_value(d),
    decreases k,
{
    if k == 0 {
        assert(d.skip(0) =~= d);
    } else {
        assert(d[0] == d.take(k)[0]);
        assert(d =~= seq!['0'] + d.drop_first());
        lemma_digits_value_leading_zero(d.drop_first());
        assert forall|i: int| 0 <= i < k - 1 implies #[trigger] d.drop_first().take(k - 1)[i] == '0' by {
            assert(d.drop_first().take(k - 1)[i] == d.take(k)[i + 1]);
        }
        lemma_digits_value_skip_zeroes(d.drop_first(), k - 1);
        assert(d.drop_first().skip(k - 1) =~= d.skip(k));
    }
}

/// A character is whitespace when it has the Unicode `White_Space` property.
pub fn is_white_space_char(c: char) -> (r: bool)
    ensures
        r == is_white_space(c),
{
    ('\u{9}' <= c && c <= '\u{d}') || c == ' ' || c == '\u{85}' || c == '\u{a0}' || c
        == '\u{1680}' || ('\u{2000}' <= c && c <= '\u{200a}') || c == '\u{2028}' || c
        == '\u{2029}' || c == '\u{202f}' || c == '\u{205f}' || c == '\u{3000}'
}

/// Every subrange of a subrange of `s` is a subrange of `s`.
pub proof fn lemma_infix_transitive(a: Seq<char>, b: Seq<char>, c: Seq<char>)
    requires
        is_infix(a, b),
        is_infix(b, c),
    ensures
        is_infix(a, c),
{
    let (i, j) = choose|i: int, j: int| 0 <= i <= j <= c.len() && b == #[trigger] c.subrange(i, j);
    let (k, l) = choose|k: int, l: int| 0 <= k <= l <= b.len() && a == #[trigger] b.subrange(k, l);
    assert(a =~= c.subrange(i + k, i + l));
}

/// Returns `s` without its leading and trailing whitespace, as `str::trim` does.
pub fn trim<'a>(s: &'a str) -> (r: &'a str)
    ensures
        r@ == trim_spec(s@),
        is_infix(r@, s@),
        is_trimmed(r@),
{
    proof {
        lemma_trim_is_trimmed(s@);
    }
    let n = s.unicode_len();
    let mut i: usize = 0;
    assert(s@.skip(0) =~= s@);
    loop
        invariant
            0 <= i <= n,
            n == s@.len(),
            trim_start_spec(s@) == trim_start_spec(s@.skip(i as int)),
        ensures
            0 <= i <= n,
            trim_start_spec(s@) == trim_start_spec(s@.skip(i as int)),
            i == n || !is_white_space(s@[i as int]),
        decreases n - i,
    {
        if i == n || !is_white_space_char(s.get_char(i)) {
            break;
        }
        assert(s@.skip(i as int).drop_first() =~= s@.skip(i + 1));
        i += 1;
    }
    assert(trim_start_spec(s@) == s@.subrange(i as int, n as int)) by {
        assert(s@.skip(i as int) =~= s@.subrange(i as int, n as int));
        if i < n {
            assert(s@.skip(i as int)[0] == s@[i as int]);
        }
    }
    let mut j: usize = n;
    loop
        invariant
            i <= j <= n,
            n == s@.len(),
            trim_start_spec(s@) == s@.subrange(i as int, n as int),
            trim_end_spec(s@.subrange(i as int, n as int)) == trim_end_spec(
                s@.subrange(i as int, j as int),
            ),
        ensures
            i <= j <= n,
            trim_end_spec(s@.subrange(i as int, n as int)) == trim_end_spec(
                s@.subrange(i as int, j as int),
            ),
            j == i || !is_white_space(s@[j - 1]),
        decreases j - i,
    {
        if j == i || !is_white_space_char(s.get_char(j - 1)) {
            break;
        }
        assert(s@.subrange(i as int, j as int).drop_last() =~= s@.subrange(i as int, j - 1));
        j -= 1;
    }
    if j > i {
        assert(s@.subrange(i as int, j as int).last() == s@[j - 1]);
    }
    assert(is_infix(s@.subrange(i as int, j as int), s@));
    s.substring_char(i, j)
}

/// Returns `s` without the occurrences of `c` that begin it, as
/// `str::trim_start_matches(c)` does.
pub fn trim_start_char<'a>(s: &'a str, c: char) -> (r: &'a str)
    ensures
        r@ == trim_start_char_spec(s@, c),
        is_infix(r@, s@),
        r@.len() > 0 ==> r@[0] != c,
{
    proof {
        lemma_trim_start_char_first(s@, c);
    }
    let n = s.unicode_len();
    let mut i: usize = 0;
    assert(s@.skip(0) =~= s@);
    loop
        invariant
            0 <= i <= n,
            n == s@.len(),
            trim_start_char_spec(s@, c) == trim_start_char_spec(s@.skip(i as int), c),
        ensures
            0 <= i <= n,
            trim_start_char_spec(s@, c) == trim_start_char_spec(s@.skip(i as int), c),
            i == n || s@[i as int] != c,
        decreases n - i,
    {
        if i == n || s.get_char(i) != c {
            break;
        }
        assert(s@.skip(i as int).drop_first() =~= s@.skip(i + 1));
        i += 1;
    }
    assert(s@.skip(i as int) =~= s@.subrange(i as int, n as int));
    if i < n {
        assert(s@.skip(i as int)[0] == s@[i as int]);
    }
    assert(is_infix(s@.subrange(i as int, n as int), s@));
    s.substring_char(i, n)
}


/// Position of the first occurrence of `p` in `s`, counted in characters.
pub fn find_str(s: &str, p: &str) -> (r: Option<usize>)
    ensures
        match r {
            Some(i) => occurs_at(s@, p@, i as int) && forall|k: int|
                0 <= k < i ==> !occurs_at(s@, p@, k),
            None => !contains_spec(s@, p@),
        },
{
    let n = s.unicode_len();
    let m = p.unicode_len();
    if m > n {
        return None;
    }
    let mut i: usize = 0;
    while i <= n - m
        invariant
            n == s@.len(),
            m == p@.len(),
            m <= n,
            i <= n - m + 1,
            forall|k: int| 0 <= k < i ==> !occurs_at(s@, p@, k),
        decreases n - m + 1 - i,
    {
        let mut j: usize = 0;
        loop
            invariant
                n == s@.len(),
                m == p@.len(),
                i + m <= n,
                j <= m,
                forall|t: int| 0 <= t < j ==> s@[i + t] == p@[t],
            ensures
                j <= m,
                forall|t: int| 0 <= t < j ==> s@[i + t] == p@[t],
                j == m || s@[i + j] != p@[j as int],
            decreases m - j,
        {
            if j == m || s.get_char(i + j) != p.get_char(j) {
                break;
            }
            j += 1;
        }
        if j == m {
            assert(s@.subrange(i as int, i + m) =~= p@);
            return Some(i);
        }
        assert(s@.subrange(i as int, i + m)[j as int] == s@[i + j]);
        i += 1;
    }
    None
}

/// An ASCII decimal digit.
pub open spec fn is_ascii_digit(c: char) -> bool {
    '0' <= c && c <= '9'
}

/// Every character of `s` is an ASCII decimal digit.
pub open spec fn all_ascii_digits(s: Seq<char>) -> bool {
    forall|i: int| 0 <= i < s.len() ==> is_ascii_digit(#[trigger] s[i])
}

/// The number that the ASCII decimal digits `s` denote.
pub open spec fn digits_value(s: Seq<char>) -> nat
    decreases s.len(),
{
    if s.len() == 0 {
        0
    } else {
        digits_value(s.drop_last()) * 10 + ((s.last() as int) - ('0' as int)) as nat
    }
}

/// What is left of `s` for the digits once a leading `+` is dropped.
pub open spec fn unsigned_digits(s: Seq<char>) -> Seq<char> {
    if s.len() > 0 && s[0] == '+' {
        s.drop_first()
    } else {
        s
    }
}

/// What `str::parse` gives for an unsigned integer type whose largest value is
/// `max`: an optional `+`, then at least one ASCII digit and nothing else, and a
/// value that fits.
pub open spec fn parse_unsigned_spec(s: Seq<char>, max: nat) -> Option<nat> {
    let d = unsigned_digits(s);
    if d.len() > 0 && all_ascii_digits(d) && digits_value(d) <= max {
        Some(digits_value(d))
    } else {
        None
    }
}

/// A prefix of a digit string never denotes more than the whole string.
pub proof fn lemma_digits_value_prefix(d: Seq<char>, k: int)
    requires
        0 <= k <= d.len(),
        all_ascii_digits(d),
    ensures
        digits_value(d.take(k)) <= digits_value(d),
    decreases d.len(),
{
    if k < d.len() {
        assert(all_ascii_digits(d.drop_last())) by {
            assert forall|i: int| 0 <= i < d.drop_last().len() implies is_ascii_digit(
                #[trigger] d.drop_last()[i],
            ) by {
                assert(d.drop_last()[i] == d[i]);
            }
        }
        lemma_digits_value_prefix(d.drop_last(), k);
        assert(d.drop_last().take(k) =~= d.take(k));
    } else {
        assert(d.take(k) =~= d);
    }
}

fn parse_bounded(s: &str, max: u32) -> (r: Option<u32>)
    requires
        max <= 65535,
    ensures
        match r {
            Some(v) => parse_unsigned_spec(s@, max as nat) == Some(v as nat),
            None => parse_unsigned_spec(s@, max as nat) is None,
        },
{
    let n = s.unicode_len();
    let mut st: usize = 0;
    if n > 0 && s.get_char(0) == '+' {
        st = 1;
    }
    let ghost d = unsigned_digits(s@);
    assert(d =~= s@.skip(st as int));
    if st == n {
        return None;
    }
    let mut acc: u32 = 0;
    let mut k: usize = st;
    assert(d.take(0) =~= Seq::<char>::empty());
    while k < n
        invariant
            n == s@.len(),
            st <= k <= n,
            st <= 1,
            d == s@.skip(st as int),
            d == unsigned_digits(s@),
            d.len() == n - st,
            acc as nat == digits_value(d.take(k - st)),
            acc <= max,
            max <= 65535,
            forall|t: int| 0 <= t < k - st ==> is_ascii_digit(#[trigger] d[t]),
        decreases n - k,
    {
        let c = s.get_char(k);
        assert(d[k - st] == c);
        if !('0' <= c && c <= '9') {
            return None;
        }
        let dv = (c as u32) - ('0' as u32);
        let next = acc * 10 + dv;
        assert(d.take(k - st + 1).drop_last() =~= d.take(k - st));
        assert(next as nat == digits_value(d.take(k - st + 1)));
        if next > max {
            proof {
                if all_ascii_digits(d) {
                    lemma_digits_value_prefix(d, k - st + 1);
                }
            }
            return None;
        }
        acc = next;
        k += 1;
    }
    assert(d.take(n - st) =~= d);
    Some(acc)
}

/// Parses `s` as `str::parse::<u8>` does, giving `None` where it gives an error.
pub fn parse_u8(s: &str) -> (r: Option<u8>)
    ensures
        match r {
            Some(v) => parse_unsigned_spec(s@, 255) == Some(v as nat),
            None => parse_unsigned_spec(s@, 255) is None,
        },
{
    match parse_bounded(s, 255) {
        Some(v) => Some(v as u8),
        None => None,
    }
}

/// Parses `s` as `str::parse::<u16>` does, giving `None` where it gives an error.
pub fn parse_u16(s: &str) -> (r: Option<u16>)
    ensures
        match r {
            Some(v) => parse_unsigned_spec(s@, 65535) == Some(v as nat),
            None => parse_unsigned_spec(s@, 65535) is None,
        },
{
    match parse_bounded(s, 65535) {
        Some(v) => Some(v as u16),
        None => None,
    }
}

} // verus!
