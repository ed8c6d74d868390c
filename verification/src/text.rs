//! Character-level text utilities for the group-match language.
//!
//! Group names, tokens and country codes are compared after trimming
//! surrounding whitespace and/or folding ASCII letters to lower case.  The
//! comparisons are specified over `Seq<char>` and implemented over
//! `Vec<char>`; [`chars_of`] bridges from `&str`.

use vstd::prelude::*;
use vstd::string::StrSliceExecFns;

verus! {

/// A whitespace character, as the Unicode `White_Space` property defines
/// the set (the set `str::trim` removes).
pub open spec fn is_space_char(c: char) -> bool {
    let u = c as u32;
    (9 <= u && u <= 13) || u == 32 || u == 0x85 || u == 0xA0 || u == 0x1680 || (0x2000 <= u && u
        <= 0x200A) || u == 0x2028 || u == 0x2029 || u == 0x202F || u == 0x205F || u == 0x3000
}

/// The code point of `c` with an ASCII capital letter folded to lower case.
pub open spec fn folded_char(c: char) -> u32 {
    if 0x41 <= c as u32 && c as u32 <= 0x5A {
        (c as u32 + 0x20) as u32
    } else {
        c as u32
    }
}

/// `s` with its leading whitespace removed.
pub open spec fn trim_start(s: Seq<char>) -> Seq<char>
    decreases s.len(),
{
    if s.len() > 0 && is_space_char(s[0]) {
        trim_start(s.drop_first())
    } else {
        s
    }
}

/// `s` with its trailing whitespace removed.
pub open spec fn trim_end(s: Seq<char>) -> Seq<char>
    decreases s.len(),
{
    if s.len() > 0 && is_space_char(s.last()) {
        trim_end(s.drop_last())
    } else {
        s
    }
}

/// `s` with surrounding whitespace removed.
pub open spec fn trimmed(s: Seq<char>) -> Seq<char> {
    trim_end(trim_start(s))
}

/// The case-folded code points of `s`.
pub open spec fn folded(s: Seq<char>) -> Seq<u32> {
    s.map_values(|c: char| folded_char(c))
}

/// The canonical form used for loose comparison: trim, then fold case.
pub open spec fn canon(s: Seq<char>) -> Seq<u32> {
    folded(trimmed(s))
}

/// Two texts are loosely equal when their trimmed, case-folded forms agree.
pub open spec fn loose_eq(a: Seq<char>, b: Seq<char>) -> bool {
    canon(a) == canon(b)
}

/// The characters of `s`, as a vector.
pub fn chars_of(s: &str) -> (r: Vec<char>)
    ensures
        r@ == s@,
{
    let n = s.unicode_len();
    let mut r: Vec<char> = Vec::new();
    let mut i: usize = 0;
    while i < n
        invariant
            i <= n,
            n == s@.len(),
            r@ == s@.subrange(0, i as int),
        decreases n - i,
    {
        r.push(s.get_char(i));
        i += 1;
    }
    proof {
        assert(r@ =~= s@);
    }
    r
}

/// Whitespace test, for one character.
pub fn is_space(c: char) -> (r: bool)
    ensures
        r == is_space_char(c),
{
    let u = c as u32;
    (9 <= u && u <= 13) || u == 32 || u == 0x85 || u == 0xA0 || u == 0x1680 || (0x2000 <= u && u
        <= 0x200A) || u == 0x2028 || u == 0x2029 || u == 0x202F || u == 0x205F || u == 0x3000
}

/// Case folding, for one character.
pub fn fold_char(c: char) -> (r: u32)
    ensures
        r == folded_char(c),
{
    let u = c as u32;
    if 0x41 <= u && u <= 0x5A {
        u + 0x20
    } else {
        u
    }
}

/// Removing a whitespace prefix leaves `trim_start` unchanged.
proof fn lemma_trim_start_skip(s: Seq<char>, i: int)
    requires
        0 <= i <= s.len(),
        forall|j: int| 0 <= j < i ==> is_space_char(s[j]),
    ensures
        trim_start(s) == trim_start(s.skip(i)),
    decreases i,
{
    if i > 0 {
        assert(s.drop_first() =~= s.skip(1));
        lemma_trim_start_skip(s.skip(1), i - 1);
        assert(s.skip(1).skip(i - 1) =~= s.skip(i));
    } else {
        assert(s.skip(0) =~= s);
    }
}

/// Removing a whitespace suffix leaves `trim_end` unchanged.
proof fn lemma_trim_end_take(s: Seq<char>, i: int)
    requires
        0 <= i <= s.len(),
        forall|j: int| i <= j < s.len() ==> is_space_char(s[j]),
    ensures
        trim_end(s) == trim_end(s.take(i)),
    decreases s.len() - i,
{
    if i < s.len() {
        assert(s.drop_last() =~= s.take(s.len() - 1));
        lemma_trim_end_take(s.take(s.len() - 1), i);
        assert(s.take(s.len() - 1).take(i) =~= s.take(i));
    } else {
        assert(s.take(s.len() as int) =~= s);
    }
}

/// The trimmed form of `v`, case-folded: the canonical form for loose
/// comparison.
pub fn canon_of(v: &Vec<char>) -> (r: Vec<u32>)
    ensures
        r@ == canon(v@),
{
    let ghost s = v@;
    let n = v.len();
    let mut lo: usize = 0;
    while lo < n && is_space(v[lo])
        invariant
            0 <= lo <= n,
            n == s.len(),
            v@ == s,
            forall|j: int| 0 <= j < lo ==> is_space_char(s[j]),
        decreases n - lo,
    {
        lo += 1;
    }
    proof {
        lemma_trim_start_skip(s, lo as int);
        if lo == n {
            assert(s.skip(lo as int) =~= Seq::<char>::empty());
        }
    }
    let ghost t = s.skip(lo as int);
    let mut hi: usize = n;
    while hi > lo && is_space(v[hi - 1])
        invariant
            lo <= hi <= n,
            n == s.len(),
            v@ == s,
            t == s.skip(lo as int),
            forall|j: int| hi <= j < n ==> is_space_char(s[j]),
        decreases hi,
    {
        hi -= 1;
    }
    proof {
        assert(forall|j: int| hi - lo <= j < t.len() ==> is_space_char(t[j]));
        lemma_trim_end_take(t, hi - lo);
        if hi == lo {
            assert(t.take(0) =~= Seq::<char>::empty());
            assert(trim_end(t.take(0)) =~= Seq::<char>::empty());
        } else {
            assert(!is_space_char(t[hi - lo - 1]));
            assert(trim_end(t.take(hi - lo)) == t.take(hi - lo));
        }
        assert(trimmed(s) == t.take(hi - lo));
    }
    let mut r: Vec<u32> = Vec::new();
    let mut i: usize = lo;
    while i < hi
        invariant
            lo <= i <= hi <= n,
            n == s.len(),
            v@ == s,
            trimmed(s) == s.subrange(lo as int, hi as int),
            r@ == s.subrange(lo as int, i as int).map_values(|c: char| folded_char(c)),
        decreases hi - i,
    {
        r.push(fold_char(v[i]));
        proof {
            assert(s.subrange(lo as int, i + 1).drop_last() =~= s.subrange(lo as int, i as int));
            assert(s.subrange(lo as int, i + 1).map_values(|c: char| folded_char(c)) =~= s.subrange(
                lo as int,
                i as int,
            ).map_values(|c: char| folded_char(c)).push(folded_char(s[i as int])));
        }
        i += 1;
    }
    proof {
        assert(s.subrange(lo as int, hi as int) =~= t.take(hi - lo));
        assert(r@ =~= canon(s));
    }
    r
}

/// The case-folded code points of `v`, with no trimming.
pub fn folded_of(v: &Vec<char>) -> (r: Vec<u32>)
    ensures
        r@ == folded(v@),
{
    let mut r: Vec<u32> = Vec::new();
    let mut i: usize = 0;
    let n = v.len();
    while i < n
        invariant
            0 <= i <= n,
            n == v@.len(),
            r@ == v@.subrange(0, i as int).map_values(|c: char| folded_char(c)),
        decreases n - i,
    {
        r.push(fold_char(v[i]));
        proof {
            assert(v@.subrange(0, i + 1).map_values(|c: char| folded_char(c)) =~= v@.subrange(
                0,
                i as int,
            ).map_values(|c: char| folded_char(c)).push(folded_char(v@[i as int])));
        }
        i += 1;
    }
    proof {
        assert(v@.subrange(0, v@.len() as int) =~= v@);
    }
    r
}

/// Element-wise equality of two `u32` vectors.
pub fn u32s_eq(a: &Vec<u32>, b: &Vec<u32>) -> (r: bool)
    ensures
        r == (a@ == b@),
{
    if a.len() != b.len() {
        proof {
            assert(a@ != b@);
        }
        return false;
    }
    let n = a.len();
    let mut i: usize = 0;
    while i < n
        invariant
            0 <= i <= n,
            n == a@.len() && n == b@.len(),
            forall|j: int| 0 <= j < i ==> a@[j] == b@[j],
        decreases n - i,
    {
        if a[i] != b[i] {
            proof {
                assert(a@ != b@);
            }
            return false;
        }
        i += 1;
    }
    proof {
        assert(a@ =~= b@);
    }
    true
}

/// Element-wise equality of two byte vectors.
pub fn bytes_eq(a: &Vec<u8>, b: &Vec<u8>) -> (r: bool)
    ensures
        r == (a@ == b@),
{
    if a.len() != b.len() {
        proof {
            assert(a@ != b@);
        }
        return false;
    }
    let n = a.len();
    let mut i: usize = 0;
    while i < n
        invariant
            0 <= i <= n,
            n == a@.len() && n == b@.len(),
            forall|j: int| 0 <= j < i ==> a@[j] == b@[j],
        decreases n - i,
    {
        if a[i] != b[i] {
            proof {
                assert(a@ != b@);
            }
            return false;
        }
        i += 1;
    }
    proof {
        assert(a@ =~= b@);
    }
    true
}

/// A decimal digit.
pub open spec fn is_digit_char(c: char) -> bool {
    0x30 <= c as u32 && c as u32 <= 0x39
}

/// The value of a decimal digit.
pub open spec fn digit_val(c: char) -> int {
    c as u32 - 0x30
}

/// The number denoted by a sequence of decimal digits, most significant
/// first.
pub open spec fn digits_value(s: Seq<char>) -> int
    decreases s.len(),
{
    if s.len() == 0 {
        0
    } else {
        digits_value(s.drop_last()) * 10 + digit_val(s.last())
    }
}

/// Every character is a decimal digit.
pub open spec fn all_digits(s: Seq<char>) -> bool {
    forall|i: int| 0 <= i < s.len() ==> is_digit_char(s[i])
}

/// The digit part of a decimal numeral: everything after an optional
/// leading `+`.
pub open spec fn numeral_digits(s: Seq<char>) -> Seq<char> {
    if s.len() > 0 && s[0] == '+' {
        s.drop_first()
    } else {
        s
    }
}

/// The `u32` denoted by `s` in the form `str::parse::<u32>` accepts: an
/// optional leading `+`, then one or more decimal digits, denoting a value
/// that fits in 32 bits.
pub open spec fn parsed_u32(s: Seq<char>) -> Option<u32> {
    if numeral_digits(s).len() > 0 && all_digits(numeral_digits(s)) && digits_value(
        numeral_digits(s),
    ) <= u32::MAX {
        Some(digits_value(numeral_digits(s)) as u32)
    } else {
        None
    }
}

/// A digit string denotes a non-negative number.
proof fn lemma_digits_value_nonneg(s: Seq<char>)
    requires
        forall|i: int| 0 <= i < s.len() ==> is_digit_char(s[i]),
    ensures
        digits_value(s) >= 0,
    decreases s.len(),
{
    if s.len() > 0 {
        lemma_digits_value_nonneg(s.drop_last());
    }
}

/// Extending a digit string never shrinks its value.
proof fn lemma_digits_value_grows(s: Seq<char>, i: int)
    requires
        0 <= i <= s.len(),
        forall|j: int| 0 <= j < s.len() ==> is_digit_char(s[j]),
    ensures
        digits_value(s.take(i)) <= digits_value(s),
    decreases s.len() - i,
{
    if i < s.len() {
        lemma_digits_value_grows(s, i + 1);
        let t = s.take(i + 1);
        assert(t.drop_last() =~= s.take(i));
        lemma_digits_value_nonneg(s.take(i));
        assert(digits_value(s.take(i)) <= digits_value(t));
    } else {
        assert(s.take(i) =~= s);
    }
}

/// Parse a decimal `u32` the way `str::parse::<u32>` does: an optional
/// leading `+`, then one or more digits; overflow and any other character
/// are rejected.
pub fn parse_u32_chars(v: &Vec<char>) -> (r: Option<u32>)
    ensures
        r == parsed_u32(v@),
{
    let n = v.len();
    let start: usize = if n > 0 && v[0] == '+' {
        1
    } else {
        0
    };
    let ghost d = numeral_digits(v@);
    proof {
        assert(d =~= v@.skip(start as int));
    }
    if start == n {
        return None;
    }
    let mut acc: u64 = 0;
    let mut i: usize = start;
    while i < n
        invariant
            start <= i <= n,
            n == v@.len(),
            start <= 1,
            d == v@.skip(start as int),
            d == numeral_digits(v@),
            forall|j: int| 0 <= j < i - start ==> is_digit_char(d[j]),
            acc <= u32::MAX,
            acc as int == digits_value(d.take(i - start)),
        decreases n - i,
    {
        let c = v[i];
        proof {
            assert(d[i - start] == v@[i as int]);
        }
        let u = c as u32;
        if !(0x30 <= u && u <= 0x39) {
            proof {
                assert(!is_digit_char(d[i - start]));
                assert(!all_digits(numeral_digits(v@)));
            }
            return None;
        }
        let dv = (u - 0x30) as u64;
        proof {
            assert(d.take(i - start + 1).drop_last() =~= d.take(i - start));
            assert(d.take(i - start + 1).last() == d[i - start]);
            assert(digit_val(d[i - start]) == dv as int);
        }
        acc = acc * 10 + dv;
        i += 1;
        if acc > u32::MAX as u64 {
            proof {
                if all_digits(d) {
                    lemma_digits_value_grows(d, i - start);
                    assert(d.take(d.len() as int) =~= d);
                    assert(digits_value(d) > u32::MAX);
                }
            }
            return None;
        }
    }
    proof {
        assert(d.take(d.len() as int) =~= d);
        assert(all_digits(d));
        assert(parsed_u32(v@) == Some((digits_value(d) as u32)));
    }
    Some(acc as u32)
}

/// A hexadecimal digit, upper or lower case.
pub open spec fn is_hex_digit_char(c: char) -> bool {
    let u = c as u32;
    (0x30 <= u && u <= 0x39) || (0x41 <= u && u <= 0x46) || (0x61 <= u && u <= 0x66)
}

/// The value of a hexadecimal digit.
pub open spec fn hex_digit_val(c: char) -> int {
    let u = c as u32;
    if 0x30 <= u && u <= 0x39 {
        u - 0x30
    } else if 0x41 <= u && u <= 0x46 {
        u - 0x41 + 10
    } else {
        u - 0x61 + 10
    }
}

/// Every character is a hexadecimal digit.
pub open spec fn all_hex_digits(s: Seq<char>) -> bool {
    forall|i: int| 0 <= i < s.len() ==> is_hex_digit_char(s[i])
}

/// The bytes denoted by a hexadecimal text: one byte for each pair of
/// digits.  An odd-length text, or one holding any other character, denotes
/// nothing.
pub open spec fn hex_decoded(s: Seq<char>) -> Option<Seq<u8>> {
    if s.len() % 2 == 0 && all_hex_digits(s) {
        Some(
            Seq::new(
                (s.len() / 2) as nat,
                |i: int| (hex_digit_val(s[2 * i]) * 16 + hex_digit_val(s[2 * i + 1])) as u8,
            ),
        )
    } else {
        None
    }
}

/// Relies on `hex::decode`: one byte for each pair of hexadecimal digits,
/// upper or lower case; an odd-length input or any non-hex character is
/// rejected.  A character outside ASCII occupies several bytes, all outside
/// the hex digit range, so the byte-level check `hex::decode` performs
/// rejects exactly the inputs [`hex_decoded`] rejects.
#[verifier::external_body]
pub fn hex_decode(s: &str) -> (r: Option<Vec<u8>>)
    ensures
        r is Some <==> hex_decoded(s@) is Some,
        r matches Some(v) ==> Some(v@) == hex_decoded(s@),
{
    match hex::decode(s) {
        Ok(v) => Some(v),
        Err(_) => None,
    }
}

/// Loose equality of two texts: equal after trimming and case folding.
pub fn loose_eq_str(a: &str, b: &str) -> (r: bool)
    ensures
        r == loose_eq(a@, b@),
{
    let ca = chars_of(a);
    let cb = chars_of(b);
    let na = canon_of(&ca);
    let nb = canon_of(&cb);
    u32s_eq(&na, &nb)
}

/// Case-insensitive equality of two texts, with no trimming.
pub fn fold_eq_str(a: &str, b: &str) -> (r: bool)
    ensures
        r == (folded(a@) == folded(b@)),
{
    let ca = chars_of(a);
    let cb = chars_of(b);
    let na = folded_of(&ca);
    let nb = folded_of(&cb);
    u32s_eq(&na, &nb)
}

} // verus!
