//! Patterns for names: `%` stands for any run of characters, `_` for any one
//! character, a backslash takes the character after it as it is, and the
//! case of ASCII letters does not count.

use vstd::prelude::*;
use vstd::string::StrSliceExecFns;

verus! {

/// The number by which a character is compared: that of the lower-case
/// letter for an ASCII capital, else its own.
pub open spec fn folded(c: char) -> u32 {
    if 65 <= c as u32 && c as u32 <= 90 {
        (c as u32 + 32) as u32
    } else {
        c as u32
    }
}

/// The number by which a character is compared: see [`folded`].
pub fn fold(c: char) -> (r: u32)
    ensures
        r == folded(c),
{
    let n: u32 = c as u32;
    if 65 <= n && n <= 90 {
        n + 32
    } else {
        n
    }
}

/// Whether a text as a whole fits a pattern.
pub open spec fn like(p: Seq<char>, t: Seq<char>) -> bool
    decreases p.len(), t.len(),
{
    if p.len() == 0 {
        t.len() == 0
    } else if p[0] == '%' {
        like(p.skip(1), t) || (t.len() > 0 && like(p, t.skip(1)))
    } else if t.len() == 0 {
        false
    } else if p[0] == '_' {
        like(p.skip(1), t.skip(1))
    } else if p[0] == '\\' {
        p.len() > 1 && folded(p[1]) == folded(t[0]) && like(p.skip(2), t.skip(1))
    } else {
        folded(p[0]) == folded(t[0]) && like(p.skip(1), t.skip(1))
    }
}

/// The pattern that a text fits where it holds `part`.
pub open spec fn holding(part: Seq<char>) -> Seq<char> {
    seq!['%'] + part + seq!['%']
}

/// The characters of a text.
pub fn chars_of(s: &str) -> (r: Vec<char>)
    ensures
        r@ == s@,
{
    let n = s.unicode_len();
    let mut out: Vec<char> = Vec::new();
    let mut i: usize = 0;
    while i < n
        invariant
            i <= n,
            n == s@.len(),
            out@ == s@.take(i as int),
        decreases n - i,
    {
        out.push(s.get_char(i));
        proof {
            assert(s@.take(i + 1) =~= s@.take(i as int).push(s@[i as int]));
        }
        i += 1;
    }
    proof {
        assert(s@.take(n as int) =~= s@);
    }
    out
}

/// The pattern that a text fits where it holds `part`: see [`holding`].
pub fn pattern_holding(part: &str) -> (r: Vec<char>)
    ensures
        r@ == holding(part@),
{
    let inner = chars_of(part);
    let mut out: Vec<char> = Vec::new();
    out.push('%');
    let mut i: usize = 0;
    while i < inner.len()
        invariant
            i <= inner.len(),
            out@ == seq!['%'] + inner@.take(i as int),
        decreases inner.len() - i,
    {
        out.push(inner[i]);
        proof {
            assert(inner@.take(i + 1) =~= inner@.take(i as int).push(inner@[i as int]));
            assert(out@ =~= seq!['%'] + inner@.take(i + 1));
        }
        i += 1;
    }
    proof {
        assert(inner@.take(inner.len() as int) =~= inner@);
    }
    out.push('%');
    proof {
        assert(out@ =~= holding(part@));
    }
    out
}

/// Whether what is left of a text from place `j` on fits what is left of a
/// pattern from place `i` on.
pub fn fits_from(p: &Vec<char>, i: usize, t: &Vec<char>, j: usize) -> (r: bool)
    requires
        i <= p.len(),
        j <= t.len(),
    ensures
        r == like(p@.skip(i as int), t@.skip(j as int)),
    decreases p.len() - i, t.len() - j,
{
    proof {
        if i < p.len() {
            assert(p@.skip(i as int).skip(1) =~= p@.skip(i + 1));
            if i + 1 < p.len() {
                assert(p@.skip(i as int).skip(2) =~= p@.skip(i + 2));
            }
        }
        if j < t.len() {
            assert(t@.skip(j as int).skip(1) =~= t@.skip(j + 1));
        }
    }
    if i == p.len() {
        j == t.len()
    } else if p[i] == '%' {
        if fits_from(p, i + 1, t, j) {
            true
        } else if j < t.len() {
            fits_from(p, i, t, j + 1)
        } else {
            false
        }
    } else if j == t.len() {
        false
    } else if p[i] == '_' {
        fits_from(p, i + 1, t, j + 1)
    } else if p[i] == '\\' {
        if i + 1 < p.len() && fold(p[i + 1]) == fold(t[j]) {
            fits_from(p, i + 2, t, j + 1)
        } else {
            false
        }
    } else if fold(p[i]) == fold(t[j]) {
        fits_from(p, i + 1, t, j + 1)
    } else {
        false
    }
}

/// Whether a text fits a pattern.
pub fn fits(p: &Vec<char>, text: &str) -> (r: bool)
    ensures
        r == like(p@, text@),
{
    let t = chars_of(text);
    proof {
        assert(p@.skip(0) =~= p@);
        assert(t@.skip(0) =~= t@);
    }
    fits_from(p, 0, &t, 0)
}

} // verus!
