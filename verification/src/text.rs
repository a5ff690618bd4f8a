//! Text helpers: converting between strings and characters, reading and
//! writing decimal integers the way `str::parse` and `Display` do, and
//! splitting lines at a separator.

use vstd::prelude::*;

verus! {

/// Why a decimal integer could not be read (mirrors `std::num::IntErrorKind`).
#[derive(Debug, Clone, Copy, PartialEq, Eq, Structural)]
pub enum IntErrorKind {
    /// The text is empty.
    Empty,
    /// A character is not a digit, or a sign stands alone.
    InvalidDigit,
    /// The value is above the type's maximum.
    PosOverflow,
    /// The value is below the type's minimum.
    NegOverflow,
}

/// Whether `c` is an ASCII decimal digit.
pub open spec fn is_digit(c: char) -> bool {
    '0' <= c && c <= '9'
}

/// The value of the ASCII digit `c`.
pub open spec fn digit_value(c: char) -> int {
    (c as int) - ('0' as int)
}

/// Scanning digits from index `i` with the value so far `acc`: the first
/// non-digit is an error, and so is leaving `[min, max]` after a digit.
pub open spec fn scan_digits(s: Seq<char>, i: int, acc: int, neg: bool, min: int, max: int) -> Result<
    int,
    IntErrorKind,
>
    decreases s.len() - i,
{
    if i >= s.len() || i < 0 {
        Ok(acc)
    } else if !is_digit(s[i]) {
        Err(IntErrorKind::InvalidDigit)
    } else {
        let next = if neg {
            acc * 10 - digit_value(s[i])
        } else {
            acc * 10 + digit_value(s[i])
        };
        if next > max {
            Err(IntErrorKind::PosOverflow)
        } else if next < min {
            Err(IntErrorKind::NegOverflow)
        } else {
            scan_digits(s, i + 1, next, neg, min, max)
        }
    }
}

/// Reading a decimal integer of a type whose values are `[min, max]`, as
/// `str::parse` does: an optional `+` (or `-` when `min` is negative), then
/// digits only.
pub open spec fn spec_parse_int(s: Seq<char>, min: int, max: int) -> Result<int, IntErrorKind> {
    if s.len() == 0 {
        Err(IntErrorKind::Empty)
    } else {
        let neg = min < 0 && s[0] == '-';
        let start: int = if s[0] == '+' || neg {
            1
        } else {
            0
        };
        if start == 1 && s.len() == 1 {
            Err(IntErrorKind::InvalidDigit)
        } else {
            scan_digits(s, start, 0, neg, min, max)
        }
    }
}

/// The decimal digits of a natural number, most significant first.
pub open spec fn nat_digits(n: nat) -> Seq<char>
    decreases n,
{
    if n < 10 {
        seq![digit_char(n)]
    } else {
        nat_digits(n / 10).push(digit_char(n % 10))
    }
}

/// The ASCII digit of `d`.
pub open spec fn digit_char(d: nat) -> char {
    (('0' as int) + d) as char
}

/// The decimal text of an integer, as `Display` writes it: a `-` for negative
/// numbers, then the digits without leading zeros.
pub open spec fn spec_decimal(n: int) -> Seq<char> {
    if n < 0 {
        seq!['-'] + nat_digits((-n) as nat)
    } else {
        nat_digits(n as nat)
    }
}

/// The characters of `s` (`str::chars` collected). The contract states that
/// the characters are the string's.
#[verifier::external_body]
pub(crate) fn str_chars(s: &str) -> (r: Vec<char>)
    ensures
        r@ == s@,
{
    s.chars().collect()
}

/// A string of the characters `v[lo..hi]` (`String` collected from chars). The
/// contract states that the string holds exactly those characters.
#[verifier::external_body]
pub(crate) fn chars_to_string(v: &Vec<char>, lo: usize, hi: usize) -> (r: String)
    requires
        lo <= hi <= v@.len(),
    ensures
        r@ == v@.subrange(lo as int, hi as int),
{
    v[lo..hi].iter().collect()
}

/// Reads `v[lo..hi]` as a decimal integer of a type whose values are
/// `[min, max]`.
pub fn parse_int(v: &Vec<char>, lo: usize, hi: usize, min: i128, max: i128) -> (r: Result<
    i128,
    IntErrorKind,
>)
    requires
        lo <= hi <= v@.len(),
        -0x8000_0000_0000_0000 <= min <= 0 < max <= 0xffff_ffff_ffff_ffff,
    ensures
        match spec_parse_int(v@.subrange(lo as int, hi as int), min as int, max as int) {
            Ok(n) => r == Ok::<i128, IntErrorKind>(n as i128) && min <= n <= max,
            Err(e) => r == Err::<i128, IntErrorKind>(e),
        },
{
    let ghost s = v@.subrange(lo as int, hi as int);
    if lo == hi {
        return Err(IntErrorKind::Empty);
    }
    let first = v[lo];
    assert(s[0] == first);
    let neg = min < 0 && first == '-';
    let start = if first == '+' || neg {
        1
    } else {
        0
    };
    if start == 1 && hi - lo == 1 {
        return Err(IntErrorKind::InvalidDigit);
    }
    let mut i: usize = lo + start;
    let mut acc: i128 = 0;
    while i < hi
        invariant
            lo <= i <= hi,
            hi <= v@.len(),
            s == v@.subrange(lo as int, hi as int),
            min <= acc <= max,
            -0x8000_0000_0000_0000 <= min <= 0 < max <= 0xffff_ffff_ffff_ffff,
            spec_parse_int(s, min as int, max as int) == scan_digits(
                s,
                i - lo,
                acc as int,
                neg,
                min as int,
                max as int,
            ),
        decreases hi - i,
    {
        let c = v[i];
        assert(s[i - lo] == c);
        if !('0' <= c && c <= '9') {
            return Err(IntErrorKind::InvalidDigit);
        }
        let d = (c as u32 - '0' as u32) as i128;
        let next = if neg {
            acc * 10 - d
        } else {
            acc * 10 + d
        };
        if next > max {
            return Err(IntErrorKind::PosOverflow);
        }
        if next < min {
            return Err(IntErrorKind::NegOverflow);
        }
        acc = next;
        i = i + 1;
    }
    Ok(acc)
}

/// Appends the decimal text of `n` to `out`.
pub fn push_decimal(out: &mut Vec<char>, n: i128)
    requires
        -0x8000_0000_0000_0000 <= n <= 0xffff_ffff_ffff_ffff,
    ensures
        final(out)@ == old(out)@ + spec_decimal(n as int),
{
    if n < 0 {
        out.push('-');
        push_nat(out, (-n) as u128);
        assert(old(out)@.push('-') + nat_digits((-n) as nat) =~= old(out)@ + spec_decimal(
            n as int,
        ));
    } else {
        push_nat(out, n as u128);
    }
}

fn push_nat(out: &mut Vec<char>, n: u128)
    ensures
        final(out)@ == old(out)@ + nat_digits(n as nat),
    decreases n,
{
    if n < 10 {
        out.push(digit_of(n));
        assert(nat_digits(n as nat) == seq![digit_char(n as nat)]);
        assert(old(out)@.push(digit_char(n as nat)) =~= old(out)@ + seq![digit_char(n as nat)]);
    } else {
        push_nat(out, n / 10);
        out.push(digit_of(n % 10));
        assert(old(out)@ + nat_digits((n / 10) as nat).push(digit_char((n % 10) as nat))
            =~= (old(out)@ + nat_digits((n / 10) as nat)).push(digit_char((n % 10) as nat)));
    }
}

fn digit_of(d: u128) -> (c: char)
    requires
        d < 10,
    ensures
        c == digit_char(d as nat),
{
    if d == 0 {
        '0'
    } else if d == 1 {
        '1'
    } else if d == 2 {
        '2'
    } else if d == 3 {
        '3'
    } else if d == 4 {
        '4'
    } else if d == 5 {
        '5'
    } else if d == 6 {
        '6'
    } else if d == 7 {
        '7'
    } else if d == 8 {
        '8'
    } else {
        '9'
    }
}


/// The index of the first `c` at or after `from`, or the length of `s`.
pub open spec fn find_char(s: Seq<char>, c: char, from: int) -> int
    decreases s.len() - from,
{
    if from < 0 || from >= s.len() {
        s.len() as int
    } else if s[from] == c {
        from
    } else {
        find_char(s, c, from + 1)
    }
}

/// `find_char` gives the first occurrence at or after `from`, or the end.
pub proof fn lemma_find_char(s: Seq<char>, c: char, from: int)
    requires
        0 <= from <= s.len(),
    ensures
        from <= find_char(s, c, from) <= s.len(),
        find_char(s, c, from) < s.len() ==> s[find_char(s, c, from)] == c,
        forall|k: int| from <= k < find_char(s, c, from) ==> s[k] != c,
    decreases s.len() - from,
{
    if from < s.len() && s[from] != c {
        lemma_find_char(s, c, from + 1);
    }
}

/// The pieces of `s` between occurrences of `sep`, as `str::split` gives
/// them: one more piece than there are separators.
pub open spec fn split_spec(s: Seq<char>, sep: char) -> Seq<Seq<char>>
    decreases s.len(),
{
    let e = find_char(s, sep, 0);
    if e >= s.len() {
        seq![s]
    } else {
        proof {
            lemma_find_char(s, sep, 0);
        }
        seq![s.subrange(0, e)] + split_spec(s.subrange(e + 1, s.len() as int), sep)
    }
}

/// The texts that `parts` delimits in `v`.
pub open spec fn pieces(v: Seq<char>, parts: Seq<(usize, usize)>) -> Seq<Seq<char>> {
    parts.map_values(|b: (usize, usize)| v.subrange(b.0 as int, b.1 as int))
}

/// Whether every pair of `parts` delimits a range within a text of length `n`.
pub open spec fn bounds_within(parts: Seq<(usize, usize)>, n: nat) -> bool {
    forall|k: int| 0 <= k < parts.len() ==> (#[trigger] parts[k]).0 <= parts[k].1 <= n
}

/// Splits `v[lo..hi]` at every `sep`: the bounds of the pieces in `v`.
pub fn split_char(v: &Vec<char>, lo: usize, hi: usize, sep: char) -> (r: Vec<(usize, usize)>)
    requires
        lo <= hi <= v@.len(),
    ensures
        pieces(v@, r@) == split_spec(v@.subrange(lo as int, hi as int), sep),
        bounds_within(r@, v@.len()),
        r@.len() == split_spec(v@.subrange(lo as int, hi as int), sep).len(),
        forall|k: int|
            0 <= k < r@.len() ==> lo <= (#[trigger] r@[k]).0 <= r@[k].1 <= hi && v@.subrange(
                r@[k].0 as int,
                r@[k].1 as int,
            ) == split_spec(v@.subrange(lo as int, hi as int), sep)[k],
{
    let ghost whole = v@.subrange(lo as int, hi as int);
    let mut out: Vec<(usize, usize)> = Vec::new();
    let mut start = lo;
    let mut j = lo;
    loop
        invariant
            lo <= start <= j <= hi,
            hi <= v@.len(),
            whole == v@.subrange(lo as int, hi as int),
            forall|k: int| start <= k < j ==> v@[k] != sep,
            split_spec(whole, sep) == out@.map_values(
                |b: (usize, usize)| v@.subrange(b.0 as int, b.1 as int),
            ) + split_spec(v@.subrange(start as int, hi as int), sep),
            forall|k: int|
                0 <= k < out@.len() ==> lo <= (#[trigger] out@[k]).0 <= out@[k].1 <= hi,
        decreases hi - j, hi - start,
    {
        let ghost rest = v@.subrange(start as int, hi as int);
        if j == hi || v[j] == sep {
            proof {
                lemma_find_char(rest, sep, 0);
                lemma_find_char(rest, sep, (j - start) as int);
                assert forall|k: int| 0 <= k < j - start implies rest[k] != sep by {
                    assert(rest[k] == v@[start + k]);
                }
                if j < hi {
                    assert(rest[j - start] == sep);
                }
                assert(find_char(rest, sep, 0) == j - start) by {
                    let f = find_char(rest, sep, 0);
                    if f < j - start {
                        assert(rest[f] == v@[start + f]);
                    }
                }
            }
            let piece = (start, j);
            if j == hi {
                proof {
                    assert(split_spec(rest, sep) == seq![rest]);
                    assert(out@.push(piece).map_values(
                        |b: (usize, usize)| v@.subrange(b.0 as int, b.1 as int),
                    ) =~= out@.map_values(|b: (usize, usize)| v@.subrange(b.0 as int, b.1 as int))
                        + seq![rest]);
                }
                out.push(piece);
                let ghost m = out@.map_values(|b: (usize, usize)| v@.subrange(b.0 as int, b.1 as int));
                assert forall|k: int|
                    0 <= k < out@.len() implies lo <= (#[trigger] out@[k]).0 <= out@[k].1 <= hi
                    && v@.subrange(out@[k].0 as int, out@[k].1 as int) == split_spec(whole, sep)[k] by {
                    assert(m[k] == v@.subrange(out@[k].0 as int, out@[k].1 as int));
                }
                return out;
            } else {
                proof {
                    let tail = rest.subrange((j - start + 1) as int, rest.len() as int);
                    assert(tail =~= v@.subrange(j + 1, hi as int));
                    assert(rest.subrange(0, (j - start) as int) =~= v@.subrange(
                        start as int,
                        j as int,
                    ));
                    assert(split_spec(rest, sep) == seq![v@.subrange(start as int, j as int)]
                        + split_spec(tail, sep));
                    assert(out@.push(piece).map_values(
                        |b: (usize, usize)| v@.subrange(b.0 as int, b.1 as int),
                    ) =~= out@.map_values(|b: (usize, usize)| v@.subrange(b.0 as int, b.1 as int))
                        + seq![v@.subrange(start as int, j as int)]);
                }
                out.push(piece);
                start = j + 1;
                j = j + 1;
            }
        } else {
            j = j + 1;
        }
    }
}


/// Appends the characters of `v[lo..hi]` to `out`.
pub fn push_range(out: &mut Vec<char>, v: &Vec<char>, lo: usize, hi: usize)
    requires
        lo <= hi <= v@.len(),
    ensures
        final(out)@ == old(out)@ + v@.subrange(lo as int, hi as int),
{
    let mut i = lo;
    while i < hi
        invariant
            lo <= i <= hi,
            hi <= v@.len(),
            out@ == old(out)@ + v@.subrange(lo as int, i as int),
        decreases hi - i,
    {
        out.push(v[i]);
        assert(v@.subrange(lo as int, i + 1) =~= v@.subrange(lo as int, i as int).push(v@[i as int]));
        i = i + 1;
    }
}

/// Appends the characters of `s` to `out`.
pub fn push_str(out: &mut Vec<char>, s: &str)
    ensures
        final(out)@ == old(out)@ + s@,
{
    let v = str_chars(s);
    let n = v.len();
    push_range(out, &v, 0, n);
    assert(v@.subrange(0, n as int) =~= v@);
}


/// The value of a sequence of decimal digits.
pub open spec fn digits_value(d: Seq<char>) -> int
    decreases d.len(),
{
    if d.len() == 0 {
        0
    } else {
        digits_value(d.drop_last()) * 10 + digit_value(d.last())
    }
}

/// Whether every character of `d` is a decimal digit.
pub open spec fn all_digits(d: Seq<char>) -> bool {
    forall|i: int| 0 <= i < d.len() ==> is_digit(#[trigger] d[i])
}

proof fn lemma_digit_char(k: nat)
    requires
        k < 10,
    ensures
        digit_value(digit_char(k)) == k,
        is_digit(digit_char(k)),
{
    assert(k == 0 || k == 1 || k == 2 || k == 3 || k == 4 || k == 5 || k == 6 || k == 7 || k == 8
        || k == 9);
}

/// The decimal digits of a natural number are digits.
pub proof fn lemma_nat_digits(m: nat)
    ensures
        all_digits(nat_digits(m)),
        digits_value(nat_digits(m)) == m,
        nat_digits(m).len() >= 1,
    decreases m,
{
    let d = nat_digits(m);
    if m < 10 {
        assert(d.drop_last() =~= Seq::<char>::empty());
        assert(digits_value(d.drop_last()) == 0);
        assert(d.last() == digit_char(m));
        lemma_digit_char(m);
        assert(digits_value(d) == digits_value(d.drop_last()) * 10 + digit_value(d.last()));
    } else {
        lemma_nat_digits(m / 10);
        lemma_digit_char(m % 10);
        assert(d.drop_last() =~= nat_digits(m / 10));
        assert(d.last() == digit_char(m % 10));
        assert(digits_value(d) == digits_value(d.drop_last()) * 10 + digit_value(d.last()));
        assert(all_digits(d)) by {
            assert forall|i: int| 0 <= i < d.len() implies is_digit(#[trigger] d[i]) by {
                if i < d.len() - 1 {
                    assert(d[i] == nat_digits(m / 10)[i]);
                }
            }
        }
    }
}

proof fn lemma_digits_value_nonneg(d: Seq<char>)
    requires
        all_digits(d),
    ensures
        digits_value(d) >= 0,
    decreases d.len(),
{
    if d.len() > 0 {
        lemma_digits_value_nonneg(d.drop_last());
    }
}

proof fn lemma_prefix_value_le(d: Seq<char>, k: int)
    requires
        all_digits(d),
        0 <= k <= d.len(),
    ensures
        digits_value(d.subrange(0, k)) <= digits_value(d),
    decreases d.len(),
{
    if k < d.len() {
        lemma_prefix_value_le(d.drop_last(), k);
        lemma_digits_value_nonneg(d.drop_last());
        assert(d.drop_last().subrange(0, k) =~= d.subrange(0, k));
    } else {
        assert(d.subrange(0, k) =~= d);
    }
}

proof fn lemma_scan_digits(s: Seq<char>, a: int, i: int, neg: bool, min: int, max: int)
    requires
        0 <= a <= i <= s.len(),
        all_digits(s.subrange(a, s.len() as int)),
        min <= 0 < max,
        neg ==> -digits_value(s.subrange(a, s.len() as int)) >= min,
        !neg ==> digits_value(s.subrange(a, s.len() as int)) <= max,
    ensures
        scan_digits(
            s,
            i,
            if neg {
                -digits_value(s.subrange(a, i))
            } else {
                digits_value(s.subrange(a, i))
            },
            neg,
            min,
            max,
        ) == Ok::<int, IntErrorKind>(
            if neg {
                -digits_value(s.subrange(a, s.len() as int))
            } else {
                digits_value(s.subrange(a, s.len() as int))
            },
        ),
    decreases s.len() - i,
{
    let whole = s.subrange(a, s.len() as int);
    if i < s.len() {
        let pre = s.subrange(a, i);
        let pre1 = s.subrange(a, i + 1);
        assert(pre1.drop_last() =~= pre);
        assert(pre1.last() == s[i]);
        assert(whole[i - a] == s[i]);
        assert(is_digit(s[i]));
        assert(whole.subrange(0, i + 1 - a) =~= pre1);
        lemma_prefix_value_le(whole, i + 1 - a);
        assert(pre1.drop_last() =~= pre);
        lemma_digits_value_nonneg(pre1);
        lemma_scan_digits(s, a, i + 1, neg, min, max);
    } else {
        assert(s.subrange(a, i) =~= whole);
    }
}

/// Reading back the decimal text of an integer gives the integer, for any
proof fn lemma_scan_range(s: Seq<char>, i: int, acc: int, neg: bool, min: int, max: int)
    requires
        min <= acc <= max,
    ensures
        scan_digits(s, i, acc, neg, min, max) matches Ok(n) ==> min <= n <= max,
    decreases s.len() - i,
{
    if 0 <= i < s.len() && is_digit(s[i]) {
        let next = if neg {
            acc * 10 - digit_value(s[i])
        } else {
            acc * 10 + digit_value(s[i])
        };
        if min <= next <= max {
            lemma_scan_range(s, i + 1, next, neg, min, max);
        }
    }
}

/// A decimal integer read for a type whose values are `[min, max]` is one of
/// those values.
pub proof fn lemma_parse_int_range(s: Seq<char>, min: int, max: int)
    requires
        min <= 0 <= max,
    ensures
        spec_parse_int(s, min, max) matches Ok(n) ==> min <= n <= max,
{
    if s.len() > 0 {
        let neg = min < 0 && s[0] == '-';
        let start: int = if s[0] == '+' || neg {
            1
        } else {
            0
        };
        lemma_scan_range(s, start, 0, neg, min, max);
    }
}

/// integer type whose values `[min, max]` contain it.
pub proof fn decimal_roundtrip(n: int, min: int, max: int)
    requires
        min <= n <= max,
        min <= 0 < max,
    ensures
        spec_parse_int(spec_decimal(n), min, max) == Ok::<int, IntErrorKind>(n),
{
    if n >= 0 {
        let d = nat_digits(n as nat);
        lemma_nat_digits(n as nat);
        assert(is_digit(d[0]));
        assert(d.subrange(0, d.len() as int) =~= d);
        assert(d.subrange(0, 0) =~= Seq::<char>::empty());
        lemma_scan_digits(d, 0, 0, false, min, max);
    } else {
        let d = nat_digits((-n) as nat);
        lemma_nat_digits((-n) as nat);
        let s = seq!['-'] + d;
        assert(s.subrange(1, s.len() as int) =~= d);
        assert(s.subrange(1, 1) =~= Seq::<char>::empty());
        lemma_scan_digits(s, 1, 1, true, min, max);
    }
}

/// The decimal text of an integer holds only digits and `-`.
pub proof fn lemma_decimal_chars(n: int, c: char)
    requires
        c != '-',
        !is_digit(c),
    ensures
        !spec_decimal(n).contains(c),
        spec_decimal(n).len() >= 1,
{
    if n >= 0 {
        lemma_nat_digits(n as nat);
        if spec_decimal(n).contains(c) {
            let i = choose|i: int| 0 <= i < spec_decimal(n).len() && spec_decimal(n)[i] == c;
            assert(is_digit(nat_digits(n as nat)[i]));
        }
    } else {
        lemma_nat_digits((-n) as nat);
        let s = seq!['-'] + nat_digits((-n) as nat);
        if s.contains(c) {
            let i = choose|i: int| 0 <= i < s.len() && s[i] == c;
            assert(i > 0);
            assert(is_digit(nat_digits((-n) as nat)[i - 1]));
        }
    }
}

/// Splitting text with no separator gives the text itself.
pub proof fn lemma_split_none(a: Seq<char>, sep: char)
    requires
        !a.contains(sep),
    ensures
        split_spec(a, sep) == seq![a],
{
    lemma_find_char(a, sep, 0);
}

/// A split gives at least one piece, and no piece holds the separator, nor
/// any character that the text does not hold.
pub proof fn lemma_split_excludes(s: Seq<char>, sep: char, c: char)
    requires
        c == sep || !s.contains(c),
    ensures
        split_spec(s, sep).len() >= 1,
        forall|i: int|
            0 <= i < split_spec(s, sep).len() ==> !(#[trigger] split_spec(s, sep)[i]).contains(c),
    decreases s.len(),
{
    lemma_find_char(s, sep, 0);
    let e = find_char(s, sep, 0);
    if e >= s.len() {
        assert(!s.contains(c)) by {
            if s.contains(c) {
                let k = choose|k: int| 0 <= k < s.len() && s[k] == c;
                assert(s[k] != sep);
            }
        }
    } else {
        let first = s.subrange(0, e);
        let rest = s.subrange(e + 1, s.len() as int);
        assert(!first.contains(c)) by {
            if first.contains(c) {
                let k = choose|k: int| 0 <= k < first.len() && first[k] == c;
                assert(s[k] == c);
            }
        }
        assert(c == sep || !rest.contains(c)) by {
            if c != sep && rest.contains(c) {
                let k = choose|k: int| 0 <= k < rest.len() && rest[k] == c;
                assert(s[e + 1 + k] == c);
            }
        }
        lemma_split_excludes(rest, sep, c);
        let sp = split_spec(s, sep);
        assert(sp == seq![first] + split_spec(rest, sep));
        assert forall|i: int| 0 <= i < sp.len() implies !(#[trigger] sp[i]).contains(c) by {
            if i > 0 {
                assert(sp[i] == split_spec(rest, sep)[i - 1]);
            }
        }
    }
}

/// Splitting `a`, a separator and `b`, where `a` holds no separator, gives `a`
/// followed by the pieces of `b`.
pub proof fn lemma_split_join(a: Seq<char>, sep: char, b: Seq<char>)
    requires
        !a.contains(sep),
    ensures
        split_spec(a + seq![sep] + b, sep) == seq![a] + split_spec(b, sep),
{
    let s = a + seq![sep] + b;
    lemma_find_char(s, sep, 0);
    let e = find_char(s, sep, 0);
    if e < a.len() {
        assert(s[e] == a[e]);
    }
    assert(s[a.len() as int] == sep);
    assert(e == a.len());
    assert(s.subrange(0, e) =~= a);
    assert(s.subrange(e + 1, s.len() as int) =~= b);
}


/// The texts of `fields` with `sep` between each two, as `join` writes them.
pub open spec fn join_spec(fields: Seq<Seq<char>>, sep: char) -> Seq<char>
    decreases fields.len(),
{
    if fields.len() == 0 {
        Seq::empty()
    } else if fields.len() == 1 {
        fields[0]
    } else {
        fields[0] + seq![sep] + join_spec(fields.drop_first(), sep)
    }
}

/// Joining one more field appends the separator and the field.
pub proof fn lemma_join_push(fields: Seq<Seq<char>>, x: Seq<char>, sep: char)
    requires
        fields.len() >= 1,
    ensures
        join_spec(fields.push(x), sep) == join_spec(fields, sep) + seq![sep] + x,
    decreases fields.len(),
{
    let g = fields.push(x);
    assert(g[0] == fields[0]);
    if fields.len() == 1 {
        assert(g.drop_first() =~= seq![x]);
        assert(join_spec(g.drop_first(), sep) == x);
    } else {
        let d = fields.drop_first();
        lemma_join_push(d, x, sep);
        assert(g.drop_first() =~= d.push(x));
        assert(fields[0] + seq![sep] + (join_spec(d, sep) + seq![sep] + x) =~= (fields[0] + seq![sep]
            + join_spec(d, sep)) + seq![sep] + x);
    }
}

/// Appends the separator before field `k` of `f`, once the fields before it
/// are written.
pub fn next_field(out: &mut Vec<char>, sep: char, Ghost(f): Ghost<Seq<Seq<char>>>, Ghost(o): Ghost<Seq<char>>, k: usize)
    requires
        1 <= k < f.len(),
        if k == 1 {
            old(out)@ == o + f[0]
        } else {
            old(out)@ == o + join_spec(f.take(k - 1), sep) + seq![sep] + f[k - 1]
        },
    ensures
        final(out)@ == o + join_spec(f.take(k as int), sep) + seq![sep],
{
    proof {
        if k == 1 {
            assert(join_spec(f.take(1), sep) =~= f[0]);
        } else {
            lemma_join_push(f.take(k - 1), f[k - 1], sep);
            assert(f.take(k - 1).push(f[k - 1]) =~= f.take(k as int));
        }
    }
    out.push(sep);
}

/// Text made of two texts without `c` holds no `c`.
pub proof fn lemma_concat_excludes(a: Seq<char>, b: Seq<char>, c: char)
    requires
        !a.contains(c),
        !b.contains(c),
    ensures
        !(a + b).contains(c),
{
    if (a + b).contains(c) {
        let k = choose|k: int| 0 <= k < (a + b).len() && (a + b)[k] == c;
        if k < a.len() {
            assert(a[k] == c);
        } else {
            assert(b[k - a.len()] == c);
        }
    }
}

/// Fields without `c`, joined by another separator, hold no `c`.
pub proof fn lemma_join_excludes(fields: Seq<Seq<char>>, sep: char, c: char)
    requires
        sep != c,
        forall|i: int| 0 <= i < fields.len() ==> !(#[trigger] fields[i]).contains(c),
    ensures
        !join_spec(fields, sep).contains(c),
    decreases fields.len(),
{
    if fields.len() == 0 {
        assert(!Seq::<char>::empty().contains(c));
    } else if fields.len() > 1 {
        let rest = fields.drop_first();
        assert forall|i: int| 0 <= i < rest.len() implies !(#[trigger] rest[i]).contains(c) by {
            assert(rest[i] == fields[i + 1]);
        }
        lemma_join_excludes(rest, sep, c);
        assert(!seq![sep].contains(c)) by {
            if seq![sep].contains(c) {
                assert(seq![sep][0] == sep);
            }
        }
        lemma_concat_excludes(fields[0], seq![sep], c);
        lemma_concat_excludes(fields[0] + seq![sep], join_spec(rest, sep), c);
    }
}

/// Splitting joined fields, none of which holds the separator, gives the
/// fields back.
pub proof fn lemma_split_join_all(fields: Seq<Seq<char>>, sep: char)
    requires
        fields.len() >= 1,
        forall|i: int| 0 <= i < fields.len() ==> !(#[trigger] fields[i]).contains(sep),
    ensures
        split_spec(join_spec(fields, sep), sep) == fields,
    decreases fields.len(),
{
    if fields.len() == 1 {
        lemma_split_none(fields[0], sep);
        assert(seq![fields[0]] =~= fields);
    } else {
        let rest = fields.drop_first();
        assert forall|i: int| 0 <= i < rest.len() implies !(#[trigger] rest[i]).contains(sep) by {
            assert(rest[i] == fields[i + 1]);
        }
        lemma_split_join_all(rest, sep);
        lemma_split_join(fields[0], sep, join_spec(rest, sep));
        assert(seq![fields[0]] + rest =~= fields);
    }
}

/// Why text could not be read as a floating-point number (mirrors the two
/// kinds of `std::num::ParseFloatError`).
#[derive(Debug, Clone, Copy, PartialEq, Eq, Structural)]
pub enum FloatErrorKind {
    /// The text is empty.
    Empty,
    /// The text is not a number.
    Invalid,
}

/// The ASCII lower-case form of `c`.
pub open spec fn ascii_lower(c: char) -> char {
    if 'A' <= c && c <= 'Z' {
        ((c as int) + 32) as char
    } else {
        c
    }
}

/// Whether `s`, lower-cased, is `word`.
pub open spec fn lower_is(s: Seq<char>, word: Seq<char>) -> bool {
    &&& s.len() == word.len()
    &&& forall|i: int| 0 <= i < s.len() ==> ascii_lower(#[trigger] s[i]) == word[i]
}

/// The index of the first non-digit of `s` at or after `from`.
pub open spec fn skip_digits(s: Seq<char>, from: int) -> int
    decreases s.len() - from,
{
    if from < 0 || from >= s.len() {
        s.len() as int
    } else if !is_digit(s[from]) {
        from
    } else {
        skip_digits(s, from + 1)
    }
}

/// Whether `s` is an exponent: `e` or `E`, an optional sign, one or more digits.
pub open spec fn is_exponent(s: Seq<char>) -> bool {
    &&& s.len() >= 2
    &&& (s[0] == 'e' || s[0] == 'E')
    &&& {
        let start: int = if s[1] == '+' || s[1] == '-' {
            2
        } else {
            1
        };
        &&& start < s.len()
        &&& skip_digits(s, start) == s.len()
    }
}

/// Whether `s` is a decimal number: digits with an optional `.` and further
/// digits, at least one digit in all, then an optional exponent.
pub open spec fn is_decimal_number(s: Seq<char>) -> bool {
    let i = skip_digits(s, 0);
    let j = if i < s.len() && s[i] == '.' {
        skip_digits(s, i + 1)
    } else {
        i
    };
    let digits = if i < s.len() && s[i] == '.' {
        j - 1
    } else {
        j
    };
    &&& digits > 0
    &&& (j == s.len() || is_exponent(s.subrange(j, s.len() as int)))
}

/// Whether `s` is text that `f64::from_str` accepts: an optional sign, then
/// `inf`, `infinity`, `nan` (in any case) or a decimal number.
pub open spec fn is_float_text(s: Seq<char>) -> bool {
    let body = if s.len() > 0 && (s[0] == '+' || s[0] == '-') {
        s.subrange(1, s.len() as int)
    } else {
        s
    };
    ||| lower_is(body, seq!['i', 'n', 'f'])
    ||| lower_is(body, seq!['i', 'n', 'f', 'i', 'n', 'i', 't', 'y'])
    ||| lower_is(body, seq!['n', 'a', 'n'])
    ||| is_decimal_number(body)
}

/// Checking text as a floating-point number, as `f64::from_str` does.
pub open spec fn spec_check_float(s: Seq<char>) -> Result<(), FloatErrorKind> {
    if s.len() == 0 {
        Err(FloatErrorKind::Empty)
    } else if is_float_text(s) {
        Ok(())
    } else {
        Err(FloatErrorKind::Invalid)
    }
}

/// `skip_digits` stops at the first non-digit at or after `from`.
proof fn lemma_skip_digits(s: Seq<char>, from: int)
    requires
        0 <= from <= s.len(),
    ensures
        from <= skip_digits(s, from) <= s.len(),
        forall|k: int| from <= k < skip_digits(s, from) ==> is_digit(#[trigger] s[k]),
    decreases s.len() - from,
{
    if from < s.len() && is_digit(s[from]) {
        lemma_skip_digits(s, from + 1);
    }
}

/// Text that reads as a floating-point number holds no character other than
/// digits, signs, `.` and ASCII letters.
pub proof fn lemma_float_text_excludes(s: Seq<char>, c: char)
    requires
        is_float_text(s),
        !is_digit(c),
        c != '.' && c != '+' && c != '-',
        !('a' <= c && c <= 'z'),
        !('A' <= c && c <= 'Z'),
    ensures
        !s.contains(c),
{
    let body = if s.len() > 0 && (s[0] == '+' || s[0] == '-') {
        s.subrange(1, s.len() as int)
    } else {
        s
    };
    let off: int = if s.len() > 0 && (s[0] == '+' || s[0] == '-') {
        1
    } else {
        0
    };
    assert(ascii_lower(c) == c);
    assert forall|k: int| 0 <= k < body.len() implies body[k] != c by {
        if lower_is(body, seq!['i', 'n', 'f']) || lower_is(
            body,
            seq!['i', 'n', 'f', 'i', 'n', 'i', 't', 'y'],
        ) || lower_is(body, seq!['n', 'a', 'n']) {
            assert(ascii_lower(body[k]) != c);
        } else {
            assert(is_decimal_number(body));
            let i = skip_digits(body, 0);
            lemma_skip_digits(body, 0);
            let dot = i < body.len() && body[i] == '.';
            let j = if dot {
                skip_digits(body, i + 1)
            } else {
                i
            };
            if dot {
                lemma_skip_digits(body, i + 1);
            }
            if k >= j {
                let e = body.subrange(j, body.len() as int);
                assert(is_exponent(e));
                let start: int = if e[1] == '+' || e[1] == '-' {
                    2
                } else {
                    1
                };
                lemma_skip_digits(e, start);
                assert(body[k] == e[k - j]);
            }
        }
    }
    if s.contains(c) {
        let k = choose|k: int| 0 <= k < s.len() && s[k] == c;
        assert(k >= off);
        assert(body[k - off] == s[k]);
    }
}

fn lower_char(c: char) -> (r: char)
    ensures
        r == ascii_lower(c),
{
    if 'A' <= c && c <= 'Z' {
        ((c as u32) + 32) as u8 as char
    } else {
        c
    }
}

fn range_lower_is(v: &Vec<char>, lo: usize, hi: usize, word: &str) -> (r: bool)
    requires
        lo <= hi <= v@.len(),
    ensures
        r == lower_is(v@.subrange(lo as int, hi as int), word@),
{
    let w = str_chars(word);
    if hi - lo != w.len() {
        return false;
    }
    let mut i: usize = 0;
    while i < w.len()
        invariant
            hi - lo == w@.len(),
            w@ == word@,
            lo <= hi <= v@.len(),
            i <= w@.len(),
            forall|k: int| 0 <= k < i ==> ascii_lower(v@[lo + k]) == w@[k],
        decreases w@.len() - i,
    {
        if lower_char(v[lo + i]) != w[i] {
            assert(v@.subrange(lo as int, hi as int)[i as int] == v@[lo + i]);
            return false;
        }
        i = i + 1;
    }
    assert forall|k: int| 0 <= k < hi - lo implies ascii_lower(
        #[trigger] v@.subrange(lo as int, hi as int)[k],
    ) == w@[k] by {
        assert(v@.subrange(lo as int, hi as int)[k] == v@[lo + k]);
    }
    true
}

fn skip_digits_at(v: &Vec<char>, lo: usize, from: usize, hi: usize) -> (r: usize)
    requires
        lo <= from <= hi <= v@.len(),
    ensures
        r == lo + skip_digits(v@.subrange(lo as int, hi as int), from - lo),
        from <= r <= hi,
{
    let ghost s = v@.subrange(lo as int, hi as int);
    let mut k = from;
    while k < hi && '0' <= v[k] && v[k] <= '9'
        invariant
            lo <= from <= k <= hi <= v@.len(),
            s == v@.subrange(lo as int, hi as int),
            skip_digits(s, from - lo) == skip_digits(s, k - lo),
        decreases hi - k,
    {
        assert(s[k - lo] == v@[k as int]);
        k = k + 1;
    }
    if k < hi {
        assert(s[k - lo] == v@[k as int]);
    }
    k
}

fn exponent_at(v: &Vec<char>, j: usize, hi: usize) -> (r: bool)
    requires
        j <= hi <= v@.len(),
    ensures
        r == is_exponent(v@.subrange(j as int, hi as int)),
{
    let ghost e = v@.subrange(j as int, hi as int);
    if hi - j < 2 || !(v[j] == 'e' || v[j] == 'E') {
        return false;
    }
    assert(e[0] == v@[j as int] && e[1] == v@[j + 1]);
    let start = if v[j + 1] == '+' || v[j + 1] == '-' {
        j + 2
    } else {
        j + 1
    };
    if start >= hi {
        return false;
    }
    let k = skip_digits_at(v, j, start, hi);
    k == hi
}

fn decimal_at(v: &Vec<char>, b: usize, hi: usize) -> (r: bool)
    requires
        b <= hi <= v@.len(),
    ensures
        r == is_decimal_number(v@.subrange(b as int, hi as int)),
{
    let ghost body = v@.subrange(b as int, hi as int);
    let i = skip_digits_at(v, b, b, hi);
    let dot = i < hi && v[i] == '.';
    proof {
        if i < hi {
            assert(body[i - b] == v@[i as int]);
        }
    }
    let j = if dot {
        skip_digits_at(v, b, i + 1, hi)
    } else {
        i
    };
    let digits = if dot {
        j - b - 1
    } else {
        j - b
    };
    if digits == 0 {
        return false;
    }
    if j == hi {
        return true;
    }
    assert(body.subrange(j - b, body.len() as int) =~= v@.subrange(j as int, hi as int));
    exponent_at(v, j, hi)
}

/// Checks `v[lo..hi]` as a floating-point number.
pub fn check_float(v: &Vec<char>, lo: usize, hi: usize) -> (r: Result<(), FloatErrorKind>)
    requires
        lo <= hi <= v@.len(),
    ensures
        r == spec_check_float(v@.subrange(lo as int, hi as int)),
{
    let ghost s = v@.subrange(lo as int, hi as int);
    if lo == hi {
        return Err(FloatErrorKind::Empty);
    }
    let b = if v[lo] == '+' || v[lo] == '-' {
        lo + 1
    } else {
        lo
    };
    let ghost body = v@.subrange(b as int, hi as int);
    assert(body =~= if s.len() > 0 && (s[0] == '+' || s[0] == '-') {
        s.subrange(1, s.len() as int)
    } else {
        s
    });
    proof {
        reveal_strlit("inf");
        reveal_strlit("infinity");
        reveal_strlit("nan");
        assert("inf"@ =~= seq!['i', 'n', 'f']);
        assert("infinity"@ =~= seq!['i', 'n', 'f', 'i', 'n', 'i', 't', 'y']);
        assert("nan"@ =~= seq!['n', 'a', 'n']);
    }
    let named = range_lower_is(v, b, hi, "inf") || range_lower_is(v, b, hi, "infinity")
        || range_lower_is(v, b, hi, "nan");
    if named || decimal_at(v, b, hi) {
        Ok(())
    } else {
        Err(FloatErrorKind::Invalid)
    }
}

/// Whether `c` is white space: the Unicode `White_Space` characters, which
/// `char::is_whitespace`, `str::trim` and the regex class `\s` use.
pub open spec fn is_ws(c: char) -> bool {
    let u = c as u32;
    ||| (0x9 <= u && u <= 0xD)
    ||| u == 0x20
    ||| u == 0x85
    ||| u == 0xA0
    ||| u == 0x1680
    ||| (0x2000 <= u && u <= 0x200A)
    ||| u == 0x2028
    ||| u == 0x2029
    ||| u == 0x202F
    ||| u == 0x205F
    ||| u == 0x3000
}

/// Whether `c` is white space (see [`is_ws`]).
pub fn is_ws_char(c: char) -> (r: bool)
    ensures
        r == is_ws(c),
{
    let u = c as u32;
    (0x9 <= u && u <= 0xD) || u == 0x20 || u == 0x85 || u == 0xA0 || u == 0x1680 || (0x2000 <= u
        && u <= 0x200A) || u == 0x2028 || u == 0x2029 || u == 0x202F || u == 0x205F || u == 0x3000
}

/// The index of the first character of `s` at or after `from` that is not
/// white space, or the length of `s`.
pub open spec fn skip_ws(s: Seq<char>, from: int) -> int
    decreases s.len() - from,
{
    if from < 0 || from >= s.len() {
        s.len() as int
    } else if !is_ws(s[from]) {
        from
    } else {
        skip_ws(s, from + 1)
    }
}

/// The end of `s[..to]` without its trailing white space.
pub open spec fn skip_ws_back(s: Seq<char>, to: int) -> int
    decreases to,
{
    if to <= 0 || to > s.len() {
        0
    } else if !is_ws(s[to - 1]) {
        to
    } else {
        skip_ws_back(s, to - 1)
    }
}

/// `s` without leading and trailing white space (`str::trim`).
pub open spec fn trim_ws(s: Seq<char>) -> Seq<char> {
    let a = skip_ws(s, 0);
    let b = skip_ws_back(s, s.len() as int);
    if a >= b {
        Seq::empty()
    } else {
        s.subrange(a, b)
    }
}

/// `skip_ws` stops at the first character that is not white space.
pub proof fn lemma_skip_ws(s: Seq<char>, from: int)
    requires
        0 <= from <= s.len(),
    ensures
        from <= skip_ws(s, from) <= s.len(),
        skip_ws(s, from) < s.len() ==> !is_ws(s[skip_ws(s, from)]),
        forall|k: int| from <= k < skip_ws(s, from) ==> is_ws(#[trigger] s[k]),
    decreases s.len() - from,
{
    if from < s.len() && is_ws(s[from]) {
        lemma_skip_ws(s, from + 1);
    }
}

/// `skip_ws_back` stops after the last character that is not white space.
pub proof fn lemma_skip_ws_back(s: Seq<char>, to: int)
    requires
        0 <= to <= s.len(),
    ensures
        0 <= skip_ws_back(s, to) <= to,
        skip_ws_back(s, to) > 0 ==> !is_ws(s[skip_ws_back(s, to) - 1]),
        forall|k: int| skip_ws_back(s, to) <= k < to ==> is_ws(#[trigger] s[k]),
    decreases to,
{
    if to > 0 && is_ws(s[to - 1]) {
        lemma_skip_ws_back(s, to - 1);
    }
}

/// The index of the first character of `v[from..hi]` that is not white
/// space, or `hi`.
pub fn skip_ws_at(v: &Vec<char>, lo: usize, from: usize, hi: usize) -> (r: usize)
    requires
        lo <= from <= hi <= v@.len(),
    ensures
        r == lo + skip_ws(v@.subrange(lo as int, hi as int), from - lo),
        from <= r <= hi,
{
    let ghost s = v@.subrange(lo as int, hi as int);
    let mut k = from;
    while k < hi && is_ws_char(v[k])
        invariant
            lo <= from <= k <= hi <= v@.len(),
            s == v@.subrange(lo as int, hi as int),
            skip_ws(s, from - lo) == skip_ws(s, k - lo),
        decreases hi - k,
    {
        assert(s[k - lo] == v@[k as int]);
        k = k + 1;
    }
    if k < hi {
        assert(s[k - lo] == v@[k as int]);
    }
    k
}

/// The bounds of `v[lo..hi]` without its leading and trailing white space.
pub fn trim_bounds(v: &Vec<char>, lo: usize, hi: usize) -> (r: (usize, usize))
    requires
        lo <= hi <= v@.len(),
    ensures
        lo <= r.0 <= r.1 <= hi,
        v@.subrange(r.0 as int, r.1 as int) == trim_ws(v@.subrange(lo as int, hi as int)),
{
    let ghost s = v@.subrange(lo as int, hi as int);
    let a = skip_ws_at(v, lo, lo, hi);
    let mut b = hi;
    while b > lo && is_ws_char(v[b - 1])
        invariant
            lo <= b <= hi <= v@.len(),
            s == v@.subrange(lo as int, hi as int),
            skip_ws_back(s, s.len() as int) == skip_ws_back(s, b - lo),
        decreases b,
    {
        assert(s[b - lo - 1] == v@[b - 1]);
        b = b - 1;
    }
    if b > lo {
        assert(s[b - lo - 1] == v@[b - 1]);
    }
    assert(skip_ws_back(s, s.len() as int) == b - lo);
    if a >= b {
        (lo, lo)
    } else {
        assert(s.subrange(a - lo, b - lo) =~= v@.subrange(a as int, b as int));
        (a, b)
    }
}

/// Whether `c` is a decimal digit of any script (the Unicode category `Nd`,
/// Unicode 15), which the regex class `\d` matches.
pub open spec fn is_unicode_digit(c: char) -> bool {
    let u = c as u32;
    ||| (0x1D7CE <= u && u <= 0x1D7FF)
    ||| (0x30 <= u && u <= 0x39)
    ||| (0x660 <= u && u <= 0x669)
    ||| (0x6F0 <= u && u <= 0x6F9)
    ||| (0x7C0 <= u && u <= 0x7C9)
    ||| (0x966 <= u && u <= 0x96F)
    ||| (0x9E6 <= u && u <= 0x9EF)
    ||| (0xA66 <= u && u <= 0xA6F)
    ||| (0xAE6 <= u && u <= 0xAEF)
    ||| (0xB66 <= u && u <= 0xB6F)
    ||| (0xBE6 <= u && u <= 0xBEF)
    ||| (0xC66 <= u && u <= 0xC6F)
    ||| (0xCE6 <= u && u <= 0xCEF)
    ||| (0xD66 <= u && u <= 0xD6F)
    ||| (0xDE6 <= u && u <= 0xDEF)
    ||| (0xE50 <= u && u <= 0xE59)
    ||| (0xED0 <= u && u <= 0xED9)
    ||| (0xF20 <= u && u <= 0xF29)
    ||| (0x1040 <= u && u <= 0x1049)
    ||| (0x1090 <= u && u <= 0x1099)
    ||| (0x17E0 <= u && u <= 0x17E9)
    ||| (0x1810 <= u && u <= 0x1819)
    ||| (0x1946 <= u && u <= 0x194F)
    ||| (0x19D0 <= u && u <= 0x19D9)
    ||| (0x1A80 <= u && u <= 0x1A89)
    ||| (0x1A90 <= u && u <= 0x1A99)
    ||| (0x1B50 <= u && u <= 0x1B59)
    ||| (0x1BB0 <= u && u <= 0x1BB9)
    ||| (0x1C40 <= u && u <= 0x1C49)
    ||| (0x1C50 <= u && u <= 0x1C59)
    ||| (0xA620 <= u && u <= 0xA629)
    ||| (0xA8D0 <= u && u <= 0xA8D9)
    ||| (0xA900 <= u && u <= 0xA909)
    ||| (0xA9D0 <= u && u <= 0xA9D9)
    ||| (0xA9F0 <= u && u <= 0xA9F9)
    ||| (0xAA50 <= u && u <= 0xAA59)
    ||| (0xABF0 <= u && u <= 0xABF9)
    ||| (0xFF10 <= u && u <= 0xFF19)
    ||| (0x104A0 <= u && u <= 0x104A9)
    ||| (0x10D30 <= u && u <= 0x10D39)
    ||| (0x11066 <= u && u <= 0x1106F)
    ||| (0x110F0 <= u && u <= 0x110F9)
    ||| (0x11136 <= u && u <= 0x1113F)
    ||| (0x111D0 <= u && u <= 0x111D9)
    ||| (0x112F0 <= u && u <= 0x112F9)
    ||| (0x11450 <= u && u <= 0x11459)
    ||| (0x114D0 <= u && u <= 0x114D9)
    ||| (0x11650 <= u && u <= 0x11659)
    ||| (0x116C0 <= u && u <= 0x116C9)
    ||| (0x11730 <= u && u <= 0x11739)
    ||| (0x118E0 <= u && u <= 0x118E9)
    ||| (0x11950 <= u && u <= 0x11959)
    ||| (0x11C50 <= u && u <= 0x11C59)
    ||| (0x11D50 <= u && u <= 0x11D59)
    ||| (0x11DA0 <= u && u <= 0x11DA9)
    ||| (0x11F50 <= u && u <= 0x11F59)
    ||| (0x16A60 <= u && u <= 0x16A69)
    ||| (0x16AC0 <= u && u <= 0x16AC9)
    ||| (0x16B50 <= u && u <= 0x16B59)
    ||| (0x1E140 <= u && u <= 0x1E149)
    ||| (0x1E2F0 <= u && u <= 0x1E2F9)
    ||| (0x1E4F0 <= u && u <= 0x1E4F9)
    ||| (0x1E950 <= u && u <= 0x1E959)
    ||| (0x1FBF0 <= u && u <= 0x1FBF9)
}

/// Whether `c` is a decimal digit of any script (see [`is_unicode_digit`]).
pub fn unicode_digit(c: char) -> (r: bool)
    ensures
        r == is_unicode_digit(c),
{
    let u = c as u32;
    (0x1D7CE <= u && u <= 0x1D7FF)
        || (0x30 <= u && u <= 0x39)
        || (0x660 <= u && u <= 0x669)
        || (0x6F0 <= u && u <= 0x6F9)
        || (0x7C0 <= u && u <= 0x7C9)
        || (0x966 <= u && u <= 0x96F)
        || (0x9E6 <= u && u <= 0x9EF)
        || (0xA66 <= u && u <= 0xA6F)
        || (0xAE6 <= u && u <= 0xAEF)
        || (0xB66 <= u && u <= 0xB6F)
        || (0xBE6 <= u && u <= 0xBEF)
        || (0xC66 <= u && u <= 0xC6F)
        || (0xCE6 <= u && u <= 0xCEF)
        || (0xD66 <= u && u <= 0xD6F)
        || (0xDE6 <= u && u <= 0xDEF)
        || (0xE50 <= u && u <= 0xE59)
        || (0xED0 <= u && u <= 0xED9)
        || (0xF20 <= u && u <= 0xF29)
        || (0x1040 <= u && u <= 0x1049)
        || (0x1090 <= u && u <= 0x1099)
        || (0x17E0 <= u && u <= 0x17E9)
        || (0x1810 <= u && u <= 0x1819)
        || (0x1946 <= u && u <= 0x194F)
        || (0x19D0 <= u && u <= 0x19D9)
        || (0x1A80 <= u && u <= 0x1A89)
        || (0x1A90 <= u && u <= 0x1A99)
        || (0x1B50 <= u && u <= 0x1B59)
        || (0x1BB0 <= u && u <= 0x1BB9)
        || (0x1C40 <= u && u <= 0x1C49)
        || (0x1C50 <= u && u <= 0x1C59)
        || (0xA620 <= u && u <= 0xA629)
        || (0xA8D0 <= u && u <= 0xA8D9)
        || (0xA900 <= u && u <= 0xA909)
        || (0xA9D0 <= u && u <= 0xA9D9)
        || (0xA9F0 <= u && u <= 0xA9F9)
        || (0xAA50 <= u && u <= 0xAA59)
        || (0xABF0 <= u && u <= 0xABF9)
        || (0xFF10 <= u && u <= 0xFF19)
        || (0x104A0 <= u && u <= 0x104A9)
        || (0x10D30 <= u && u <= 0x10D39)
        || (0x11066 <= u && u <= 0x1106F)
        || (0x110F0 <= u && u <= 0x110F9)
        || (0x11136 <= u && u <= 0x1113F)
        || (0x111D0 <= u && u <= 0x111D9)
        || (0x112F0 <= u && u <= 0x112F9)
        || (0x11450 <= u && u <= 0x11459)
        || (0x114D0 <= u && u <= 0x114D9)
        || (0x11650 <= u && u <= 0x11659)
        || (0x116C0 <= u && u <= 0x116C9)
        || (0x11730 <= u && u <= 0x11739)
        || (0x118E0 <= u && u <= 0x118E9)
        || (0x11950 <= u && u <= 0x11959)
        || (0x11C50 <= u && u <= 0x11C59)
        || (0x11D50 <= u && u <= 0x11D59)
        || (0x11DA0 <= u && u <= 0x11DA9)
        || (0x11F50 <= u && u <= 0x11F59)
        || (0x16A60 <= u && u <= 0x16A69)
        || (0x16AC0 <= u && u <= 0x16AC9)
        || (0x16B50 <= u && u <= 0x16B59)
        || (0x1E140 <= u && u <= 0x1E149)
        || (0x1E2F0 <= u && u <= 0x1E2F9)
        || (0x1E4F0 <= u && u <= 0x1E4F9)
        || (0x1E950 <= u && u <= 0x1E959)
        || (0x1FBF0 <= u && u <= 0x1FBF9)
}

/// Whether `v[lo..hi]` is exactly the characters of `text`.
pub fn range_is(v: &Vec<char>, lo: usize, hi: usize, text: &str) -> (r: bool)
    requires
        lo <= hi <= v@.len(),
    ensures
        r == (v@.subrange(lo as int, hi as int) == text@),
{
    let word = crate::text::str_chars(text);
    if hi - lo != word.len() {
        return false;
    }
    let mut i: usize = 0;
    while i < word.len()
        invariant
            hi - lo == word@.len(),
            word@ == text@,
            lo <= hi <= v@.len(),
            i <= word@.len(),
            forall|k: int| 0 <= k < i ==> v@[lo + k] == word@[k],
        decreases word@.len() - i,
    {
        if v[lo + i] != word[i] {
            assert(v@.subrange(lo as int, hi as int)[i as int] != word@[i as int]);
            return false;
        }
        i = i + 1;
    }
    assert(v@.subrange(lo as int, hi as int) =~= word@);
    true
}


} // verus!
