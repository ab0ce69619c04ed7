//! Verified text helpers shared across the crate: ASCII lower-casing,
//! substring search, digit filtering, and decimal rendering of integers.

use vstd::prelude::*;

verus! {

/// `c` is an ASCII decimal digit.
pub open spec fn is_digit_char(c: char) -> bool {
    48 <= c as u32 <= 57
}

/// Numeric value of an ASCII digit character.
pub open spec fn digit_val(c: char) -> nat {
    (c as u32 - 48) as nat
}

/// The ASCII digit character for a value below ten.
pub open spec fn digit_char(d: nat) -> char {
    ((d + 48) as u8) as char
}

/// `c` with an ASCII upper-case letter mapped to lower case; all other
/// characters are unchanged.
pub open spec fn lower_char(c: char) -> char {
    if 65 <= c as u32 <= 90 {
        ((c as u32 + 32) as u8) as char
    } else {
        c
    }
}

/// `s` with every ASCII upper-case letter mapped to lower case.
pub open spec fn lower(s: Seq<char>) -> Seq<char> {
    Seq::new(s.len(), |i: int| lower_char(s[i]))
}

/// The needle occurs in the haystack starting at position `k`.
pub open spec fn matches_at(hay: Seq<char>, needle: Seq<char>, k: int) -> bool {
    &&& 0 <= k
    &&& k + needle.len() <= hay.len()
    &&& forall|j: int| 0 <= j < needle.len() ==> hay[k + j] == needle[j]
}

/// The needle occurs somewhere in the haystack.
pub open spec fn contains_sub(hay: Seq<char>, needle: Seq<char>) -> bool {
    exists|k: int| matches_at(hay, needle, k)
}

/// The ASCII decimal digits of `s`, in order, all other characters dropped.
pub open spec fn digits_of(s: Seq<char>) -> Seq<char>
    decreases s.len(),
{
    if s.len() == 0 {
        Seq::empty()
    } else if is_digit_char(s.last()) {
        digits_of(s.drop_last()).push(s.last())
    } else {
        digits_of(s.drop_last())
    }
}

/// Decimal digit string of a natural number, most significant digit first.
pub open spec fn dec_of(n: nat) -> Seq<char>
    decreases n,
{
    if n < 10 {
        seq![digit_char(n)]
    } else {
        dec_of(n / 10).push(digit_char(n % 10))
    }
}

/// Decimal rendering of an integer: a minus sign before the digits when
/// it is negative.
pub open spec fn dec_of_int(v: int) -> Seq<char> {
    if v < 0 {
        seq!['-'] + dec_of((-v) as nat)
    } else {
        dec_of(v as nat)
    }
}

/// Relies on String::push: appends exactly the given character.
#[verifier::external_body]
pub(crate) fn push_char(s: &mut String, c: char)
    ensures
        final(s)@ == old(s)@.push(c),
{
    s.push(c);
}

/// Lower-cases one character, as [`lower_char`] describes.
pub fn to_lower_char(c: char) -> (r: char)
    ensures
        r == lower_char(c),
{
    let u = c as u32;
    if 65 <= u && u <= 90 {
        ((u + 32) as u8) as char
    } else {
        c
    }
}

/// Lower-cases every ASCII upper-case letter of `s`.
pub fn to_lowercase(s: &str) -> (r: String)
    ensures
        r@ == lower(s@),
{
    let n = s.unicode_len();
    let mut out = String::new();
    let mut i: usize = 0;
    while i < n
        invariant
            n == s@.len(),
            0 <= i <= n,
            out@.len() == i,
            forall|j: int| 0 <= j < i ==> out@[j] == lower_char(s@[j]),
        decreases n - i,
    {
        let c = s.get_char(i);
        push_char(&mut out, to_lower_char(c));
        i += 1;
    }
    assert(out@ =~= lower(s@));
    out
}

/// Whether two string slices hold the same characters.
pub fn str_eq(a: &str, b: &str) -> (r: bool)
    ensures
        r == (a@ == b@),
{
    let an = a.unicode_len();
    let bn = b.unicode_len();
    if an != bn {
        return false;
    }
    let mut i: usize = 0;
    while i < an
        invariant
            an == a@.len(),
            bn == b@.len(),
            an == bn,
            0 <= i <= an,
            forall|j: int| 0 <= j < i ==> a@[j] == b@[j],
        decreases an - i,
    {
        if a.get_char(i) != b.get_char(i) {
            return false;
        }
        i += 1;
    }
    assert(a@ =~= b@);
    true
}

/// Whether the needle occurs in the haystack, both taken as character
/// sequences.
pub fn str_contains(hay: &str, needle: &str) -> (b: bool)
    ensures
        b == contains_sub(hay@, needle@),
{
    let hn = hay.unicode_len();
    let nn = needle.unicode_len();
    if nn > hn {
        assert(forall|k: int| !matches_at(hay@, needle@, k));
        return false;
    }
    let mut k: usize = 0;
    while k <= hn - nn
        invariant
            hn == hay@.len(),
            nn == needle@.len(),
            nn <= hn,
            0 <= k <= hn - nn + 1,
            forall|k2: int| 0 <= k2 < k ==> !matches_at(hay@, needle@, k2),
        decreases hn - nn - k + 1,
    {
        let mut j: usize = 0;
        let mut hit = true;
        while j < nn
            invariant
                hn == hay@.len(),
                nn == needle@.len(),
                0 <= k <= hn - nn,
                0 <= j <= nn,
                hit ==> forall|j2: int| 0 <= j2 < j ==> hay@[k + j2] == needle@[j2],
                !hit ==> !matches_at(hay@, needle@, k as int),
            ensures
                hit ==> forall|j2: int| 0 <= j2 < nn ==> hay@[k + j2] == needle@[j2],
                !hit ==> !matches_at(hay@, needle@, k as int),
            decreases nn - j,
        {
            if hay.get_char(k + j) != needle.get_char(j) {
                assert(!matches_at(hay@, needle@, k as int));
                hit = false;
                break;
            }
            j += 1;
        }
        if hit {
            assert(matches_at(hay@, needle@, k as int));
            return true;
        }
        k += 1;
    }
    assert(forall|k2: int| 0 <= k2 < hay@.len() - needle@.len() + 1
        ==> !matches_at(hay@, needle@, k2));
    assert(forall|k2: int| !matches_at(hay@, needle@, k2));
    false
}

/// Keeps only the ASCII decimal digits of `s`.
pub fn filter_digits(s: &str) -> (r: String)
    ensures
        r@ == digits_of(s@),
{
    let n = s.unicode_len();
    let mut out = String::new();
    let mut i: usize = 0;
    while i < n
        invariant
            n == s@.len(),
            0 <= i <= n,
            out@ == digits_of(s@.subrange(0, i as int)),
        decreases n - i,
    {
        let c = s.get_char(i);
        let u = c as u32;
        proof {
            assert(s@.subrange(0, i + 1).drop_last() =~= s@.subrange(0, i as int));
            assert(s@.subrange(0, i + 1).last() == s@[i as int]);
        }
        if 48 <= u && u <= 57 {
            push_char(&mut out, c);
        }
        i += 1;
    }
    assert(s@.subrange(0, n as int) =~= s@);
    out
}

/// Renders a natural number in decimal, as [`dec_of`] describes.
pub fn u64_to_string(n: u64) -> (r: String)
    ensures
        r@ == dec_of(n as nat),
    decreases n,
{
    if n < 10 {
        let mut s = String::new();
        push_char(&mut s, ((48 + n as u8)) as char);
        assert(s@ =~= seq![digit_char(n as nat)]);
        s
    } else {
        let mut s = u64_to_string(n / 10);
        let d = (n % 10) as u8;
        push_char(&mut s, (48 + d) as char);
        assert(n as nat / 10 == (n / 10) as nat);
        assert(n as nat % 10 == (n % 10) as nat);
        s
    }
}

/// Renders a `u32` in decimal.
pub fn u32_to_string(n: u32) -> (r: String)
    ensures
        r@ == dec_of(n as nat),
{
    u64_to_string(n as u64)
}

/// Renders an `i64` in decimal, with a leading minus sign when negative.
pub fn i64_to_string(v: i64) -> (r: String)
    ensures
        r@ == dec_of_int(v as int),
{
    if v >= 0 {
        u64_to_string(v as u64)
    } else {
        let mag: u64 = ((-(v + 1)) as u64) + 1;
        assert(mag as nat == (-(v as int)) as nat);
        let mut s = String::new();
        push_char(&mut s, '-');
        let digits = u64_to_string(mag);
        let out = s.concat(digits.as_str());
        assert(out@ =~= dec_of_int(v as int));
        out
    }
}

/// A message at most `max` characters long is unchanged; a longer one is
/// cut to `max - 3` characters with a three-dot ellipsis appended.
pub open spec fn clipped(s: Seq<char>, max: int) -> Seq<char> {
    if s.len() <= max {
        s
    } else {
        s.subrange(0, max - 3) + seq!['.', '.', '.']
    }
}

/// Clips `s` to at most `max` characters, ellipsis included, as
/// [`clipped`] describes.
pub fn clip_message(s: &str, max: usize) -> (r: String)
    requires
        max >= 3,
    ensures
        r@ == clipped(s@, max as int),
{
    let n = s.unicode_len();
    if n <= max {
        s.to_owned()
    } else {
        let head = s.substring_char(0, max - 3);
        let out = head.to_owned().concat("...");
        proof {
            reveal_strlit("...");
            assert(out@ =~= clipped(s@, max as int));
        }
        out
    }
}

} // verus!
