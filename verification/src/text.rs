//! Verified text utilities: character extraction, ASCII-case-insensitive
//! comparison and search, whitespace trimming, and the first-occurrence
//! index that the engine's split operations are defined by.

use vstd::prelude::*;

verus! {

/// The code point of `c` with an ASCII upper-case letter folded to lower
/// case; every other character is left as it is.
pub open spec fn lower_code(c: char) -> int {
    if 65 <= c as int && c as int <= 90 {
        c as int + 32
    } else {
        c as int
    }
}

/// `a` and `b` are equal up to ASCII case.
pub open spec fn eq_ci(a: Seq<char>, b: Seq<char>) -> bool {
    a.len() == b.len() && forall|i: int| 0 <= i < a.len() ==> lower_code(a[i]) == lower_code(b[i])
}

/// `needle` occurs in `hay` at offset `i`, up to ASCII case.
pub open spec fn ci_at(hay: Seq<char>, needle: Seq<char>, i: int) -> bool {
    0 <= i && i + needle.len() <= hay.len() && forall|j: int|
        0 <= j < needle.len() ==> lower_code(hay[i + j]) == lower_code(needle[j])
}

/// `needle` occurs somewhere in `hay`, up to ASCII case.
pub open spec fn contains_ci(hay: Seq<char>, needle: Seq<char>) -> bool {
    exists|i: int| ci_at(hay, needle, i)
}

/// `s` starts with `p` (case-sensitive).
pub open spec fn starts_with(s: Seq<char>, p: Seq<char>) -> bool {
    p.len() <= s.len() && s.subrange(0, p.len() as int) == p
}

/// An ASCII whitespace character, the set the engine trims around header
/// and cookie fields.
pub open spec fn is_ws(c: char) -> bool {
    c == ' ' || c == '\t' || c == '\r' || c == '\n'
}

/// `s` without its leading whitespace.
pub open spec fn trim_start_spec(s: Seq<char>) -> Seq<char>
    decreases s.len(),
{
    if s.len() > 0 && is_ws(s[0]) {
        trim_start_spec(s.drop_first())
    } else {
        s
    }
}

/// `s` without its trailing whitespace.
pub open spec fn trim_end_spec(s: Seq<char>) -> Seq<char>
    decreases s.len(),
{
    if s.len() > 0 && is_ws(s.last()) {
        trim_end_spec(s.drop_last())
    } else {
        s
    }
}

/// `s` without leading and trailing whitespace.
pub open spec fn trim_spec(s: Seq<char>) -> Seq<char> {
    trim_end_spec(trim_start_spec(s))
}

/// The least index `>= from` where `c` occurs in `s`, or `-1` if it does
/// not occur there.
pub open spec fn index_of_from(s: Seq<char>, c: char, from: int) -> int
    decreases s.len() - from,
{
    if from < 0 || from >= s.len() {
        -1
    } else if s[from] == c {
        from
    } else {
        index_of_from(s, c, from + 1)
    }
}

/// The least index where `c` occurs in `s`, or `-1`.
pub open spec fn index_of(s: Seq<char>, c: char) -> int {
    index_of_from(s, c, 0)
}

/// The characters of `s`, materialized for random access.
pub fn chars_of(s: &str) -> (v: Vec<char>)
    ensures
        v@ == s@,
{
    let n = s.unicode_len();
    let mut v: Vec<char> = Vec::new();
    let mut i: usize = 0;
    while i < n
        invariant
            n == s@.len(),
            i <= n,
            v@ == s@.subrange(0, i as int),
        decreases n - i,
    {
        v.push(s.get_char(i));
        i += 1;
        proof {
            assert(v@ =~= s@.subrange(0, i as int));
        }
    }
    proof {
        assert(v@ =~= s@);
    }
    v
}

/// The substring of `s` from character `from` (inclusive) to `to`
/// (exclusive), as an owned string.
pub fn substring_of(s: &str, from: usize, to: usize) -> (r: String)
    requires
        from <= to <= s@.len(),
    ensures
        r@ == s@.subrange(from as int, to as int),
{
    s.substring_char(from, to).to_owned()
}

/// The ASCII-lower-case code of `c`.
pub fn lower_code_x(c: char) -> (r: u32)
    ensures
        r as int == lower_code(c),
{
    let u = c as u32;
    if 65 <= u && u <= 90 {
        u + 32
    } else {
        u
    }
}

/// Whether the ranges `[alo, ahi)` of `a` and `[blo, bhi)` of `b` are equal
/// up to ASCII case.
pub fn range_eq_ci(a: &Vec<char>, alo: usize, ahi: usize, b: &Vec<char>, blo: usize, bhi: usize) -> (r:
    bool)
    requires
        alo <= ahi <= a@.len(),
        blo <= bhi <= b@.len(),
    ensures
        r == eq_ci(a@.subrange(alo as int, ahi as int), b@.subrange(blo as int, bhi as int)),
{
    let ghost sa = a@.subrange(alo as int, ahi as int);
    let ghost sb = b@.subrange(blo as int, bhi as int);
    if ahi - alo != bhi - blo {
        return false;
    }
    let n = ahi - alo;
    let mut j: usize = 0;
    while j < n
        invariant
            alo + n <= a@.len(),
            blo + n <= b@.len(),
            n == sa.len() && n == sb.len(),
            sa == a@.subrange(alo as int, ahi as int),
            sb == b@.subrange(blo as int, bhi as int),
            ahi - alo == n && bhi - blo == n,
            j <= n,
            forall|i: int| 0 <= i < j ==> lower_code(sa[i]) == lower_code(sb[i]),
        decreases n - j,
    {
        if lower_code_x(a[alo + j]) != lower_code_x(b[blo + j]) {
            assert(sa[j as int] == a@[alo + j as int] && sb[j as int] == b@[blo + j as int]);
            return false;
        }
        assert(sa[j as int] == a@[alo + j as int] && sb[j as int] == b@[blo + j as int]);
        j += 1;
    }
    true
}

/// Whether `needle` occurs in the range `[lo, hi)` of `hay`, up to ASCII
/// case.
pub fn range_contains_ci(hay: &Vec<char>, lo: usize, hi: usize, needle: &Vec<char>) -> (r: bool)
    requires
        lo <= hi <= hay@.len(),
    ensures
        r == contains_ci(hay@.subrange(lo as int, hi as int), needle@),
{
    let ghost h = hay@.subrange(lo as int, hi as int);
    let m = needle.len();
    if m > hi - lo {
        assert forall|i: int| !ci_at(h, needle@, i) by {}
        return false;
    }
    let last = hi - lo - m;
    let mut i: usize = 0;
    loop
        invariant
            lo <= hi <= hay@.len(),
            m == needle@.len(),
            m <= hi - lo,
            last == hi - lo - m,
            h == hay@.subrange(lo as int, hi as int),
            i <= last + 1,
            forall|k: int| 0 <= k < i ==> !ci_at(h, needle@, k),
        decreases last + 1 - i,
    {
        if i > last {
            assert forall|k: int| !ci_at(h, needle@, k) by {
                if 0 <= k && k + needle@.len() <= h.len() {
                    assert(k <= last);
                }
            }
            return false;
        }
        if range_eq_ci(hay, lo + i, lo + i + m, needle, 0, m) {
            proof {
                let sa = hay@.subrange(lo + i as int, lo + i + m as int);
                assert forall|j: int| 0 <= j < m implies lower_code(h[i + j]) == lower_code(
                    needle@[j],
                ) by {
                    assert(sa[j] == hay@[lo + i + j] && h[i + j] == hay@[lo + i + j]);
                    assert(needle@.subrange(0, m as int)[j] == needle@[j]);
                }
                assert(ci_at(h, needle@, i as int));
            }
            return true;
        } else {
            proof {
                let sa = hay@.subrange(lo + i as int, lo + i + m as int);
                if ci_at(h, needle@, i as int) {
                    assert forall|j: int| 0 <= j < m implies lower_code(sa[j]) == lower_code(
                        needle@.subrange(0, m as int)[j],
                    ) by {
                        assert(sa[j] == hay@[lo + i + j] && h[i + j] == hay@[lo + i + j]);
                    }
                    assert(eq_ci(sa, needle@.subrange(0, m as int)));
                }
            }
        }
        i += 1;
    }
}

/// Whether `needle` occurs in `hay`, up to ASCII case.
pub fn str_contains_ci(hay: &Vec<char>, needle: &Vec<char>) -> (r: bool)
    ensures
        r == contains_ci(hay@, needle@),
{
    let r = range_contains_ci(hay, 0, hay.len(), needle);
    proof {
        assert(hay@.subrange(0, hay@.len() as int) =~= hay@);
    }
    r
}

/// Whether the range `[lo, hi)` of `s` starts with `p` (case-sensitive).
pub fn range_starts_with(s: &Vec<char>, lo: usize, hi: usize, p: &Vec<char>) -> (r: bool)
    requires
        lo <= hi <= s@.len(),
    ensures
        r == starts_with(s@.subrange(lo as int, hi as int), p@),
{
    let ghost sub = s@.subrange(lo as int, hi as int);
    let m = p.len();
    if m > hi - lo {
        return false;
    }
    let mut j: usize = 0;
    while j < m
        invariant
            lo <= hi <= s@.len(),
            m == p@.len(),
            m <= hi - lo,
            sub == s@.subrange(lo as int, hi as int),
            j <= m,
            forall|k: int| 0 <= k < j ==> sub[k] == p@[k],
        decreases m - j,
    {
        if s[lo + j] != p[j] {
            assert(sub[j as int] == s@[lo + j as int]);
            assert(sub.subrange(0, m as int)[j as int] == sub[j as int]);
            return false;
        }
        assert(sub[j as int] == s@[lo + j as int]);
        j += 1;
    }
    proof {
        assert(sub.subrange(0, m as int) =~= p@);
    }
    true
}

/// Whether `c` is ASCII whitespace.
pub fn is_ws_x(c: char) -> (r: bool)
    ensures
        r == is_ws(c),
{
    c == ' ' || c == '\t' || c == '\r' || c == '\n'
}

/// The bounds of the range `[lo, hi)` of `s` with surrounding whitespace
/// dropped.
pub fn trim_range(s: &Vec<char>, lo: usize, hi: usize) -> (r: (usize, usize))
    requires
        lo <= hi <= s@.len(),
    ensures
        lo <= r.0 <= r.1 <= hi,
        s@.subrange(r.0 as int, r.1 as int) == trim_spec(s@.subrange(lo as int, hi as int)),
{
    let mut a = lo;
    let mut b = hi;
    while a < b && is_ws_x(s[a])
        invariant
            lo <= a <= b <= hi <= s@.len(),
            trim_start_spec(s@.subrange(a as int, b as int)) == trim_start_spec(
                s@.subrange(lo as int, hi as int),
            ),
        decreases b - a,
    {
        proof {
            assert(s@.subrange(a as int, b as int).drop_first() =~= s@.subrange(
                a + 1 as int,
                b as int,
            ));
        }
        a += 1;
    }
    proof {
        assert(trim_start_spec(s@.subrange(a as int, b as int)) == s@.subrange(a as int, b as int));
    }
    let ghost started = s@.subrange(a as int, b as int);
    while a < b && is_ws_x(s[b - 1])
        invariant
            lo <= a <= b <= hi <= s@.len(),
            trim_end_spec(s@.subrange(a as int, b as int)) == trim_end_spec(started),
        decreases b - a,
    {
        proof {
            assert(s@.subrange(a as int, b as int).drop_last() =~= s@.subrange(
                a as int,
                b - 1 as int,
            ));
        }
        b -= 1;
    }
    proof {
        assert(trim_end_spec(s@.subrange(a as int, b as int)) == s@.subrange(a as int, b as int));
    }
    (a, b)
}

/// The least index in `[from, hi)` where `c` occurs in `s`, as an option.
pub fn find_in_range(s: &Vec<char>, from: usize, hi: usize, c: char) -> (r: Option<usize>)
    requires
        from <= hi <= s@.len(),
    ensures
        match r {
            Option::Some(i) => {
                let sub = s@.subrange(from as int, hi as int);
                &&& from <= i < hi
                &&& index_of(sub, c) == i - from
                &&& s@[i as int] == c
            },
            Option::None => index_of(s@.subrange(from as int, hi as int), c) == -1,
        },
{
    let ghost sub = s@.subrange(from as int, hi as int);
    let mut i = from;
    while i < hi
        invariant
            from <= i <= hi <= s@.len(),
            sub == s@.subrange(from as int, hi as int),
            index_of_from(sub, c, 0) == index_of_from(sub, c, i - from),
        decreases hi - i,
    {
        if s[i] == c {
            assert(sub[i - from] == s@[i as int]);
            return Option::Some(i);
        }
        assert(sub[i - from] == s@[i as int]);
        i += 1;
    }
    Option::None
}

} // verus!
