//! Character-level helpers: verified string equality, case folding through
//! the standard library, and the character-class scans that registration
//! validation is defined over.

use vstd::prelude::*;

verus! {

/// What `str::to_lowercase` returns; it depends on the characters alone.
pub uninterp spec fn lower_of(s: Seq<char>) -> Seq<char>;

/// Relies on `str::to_lowercase` from std: lower-cases every character,
/// a function of the input characters alone.
#[verifier::external_body]
pub fn lowercase(s: &str) -> (r: String)
    ensures
        r@ == lower_of(s@),
{
    s.to_lowercase()
}

/// Character-by-character string comparison.
pub fn str_eq(a: &str, b: &str) -> (r: bool)
    ensures
        r == (a@ == b@),
{
    let n = a.unicode_len();
    let m = b.unicode_len();
    if n != m {
        return false;
    }
    let mut i: usize = 0;
    while i < n
        invariant
            0 <= i <= n,
            n == a@.len(),
            n == b@.len(),
            forall|j: int| 0 <= j < i ==> a@[j] == b@[j],
        decreases n - i,
    {
        let ca = a.get_char(i);
        let cb = b.get_char(i);
        if ca != cb {
            return false;
        }
        i = i + 1;
    }
    proof {
        assert(a@ =~= b@);
    }
    true
}

/// Index of the first occurrence of `c` in `s` at or after `i`;
/// the length of `s` when there is none.
pub open spec fn find_from(s: Seq<char>, c: char, i: int) -> int
    decreases s.len() - i,
    when 0 <= i <= s.len()
{
    if i >= s.len() {
        s.len() as int
    } else if s[i] == c {
        i
    } else {
        find_from(s, c, i + 1)
    }
}

pub fn find_char_from(s: &str, c: char, start: usize) -> (r: usize)
    requires
        start <= s@.len(),
    ensures
        r == find_from(s@, c, start as int),
        start <= r <= s@.len(),
{
    let n = s.unicode_len();
    let mut i = start;
    while i < n
        invariant
            start <= i <= n,
            n == s@.len(),
            find_from(s@, c, start as int) == find_from(s@, c, i as int),
        decreases n - i,
    {
        if s.get_char(i) == c {
            return i;
        }
        i = i + 1;
    }
    n
}

/// The username and password alphabet: letters, digits and underscore.
pub open spec fn is_word_char(c: char) -> bool {
    let v = c as u32;
    (48 <= v <= 57) || (65 <= v <= 90) || (97 <= v <= 122) || v == 95
}

/// Characters allowed before the `@` of an email address.
pub open spec fn is_local_char(c: char) -> bool {
    let v = c as u32;
    is_word_char(c) || v == 46 || v == 43 || v == 45
}

/// Characters allowed in the first domain segment: letters, digits, hyphen.
pub open spec fn is_domseg_char(c: char) -> bool {
    let v = c as u32;
    (48 <= v <= 57) || (65 <= v <= 90) || (97 <= v <= 122) || v == 45
}

/// Characters allowed after the first dot of the domain.
pub open spec fn is_domtail_char(c: char) -> bool {
    is_domseg_char(c) || c as u32 == 46
}

pub fn word_char(c: char) -> (r: bool)
    ensures
        r == is_word_char(c),
{
    let v = c as u32;
    (48 <= v && v <= 57) || (65 <= v && v <= 90) || (97 <= v && v <= 122) || v == 95
}

pub fn local_char(c: char) -> (r: bool)
    ensures
        r == is_local_char(c),
{
    let v = c as u32;
    word_char(c) || v == 46 || v == 43 || v == 45
}

pub fn domseg_char(c: char) -> (r: bool)
    ensures
        r == is_domseg_char(c),
{
    let v = c as u32;
    (48 <= v && v <= 57) || (65 <= v && v <= 90) || (97 <= v && v <= 122) || v == 45
}

pub fn domtail_char(c: char) -> (r: bool)
    ensures
        r == is_domtail_char(c),
{
    domseg_char(c) || c as u32 == 46
}

/// An email address shape: a nonempty run of local characters, one `@`,
/// a nonempty hyphen-free first domain segment, a dot, and a nonempty tail.
pub open spec fn is_email(s: Seq<char>) -> bool {
    let n = s.len() as int;
    let a = find_from(s, '@', 0);
    let d = find_from(s, '.', a + 1);
    &&& 1 <= a < n
    &&& (forall|i: int| 0 <= i < a ==> is_local_char(#[trigger] s[i]))
    &&& a + 2 <= d <= n - 2
    &&& (forall|i: int| a < i < d ==> is_domseg_char(#[trigger] s[i]))
    &&& (forall|i: int| d < i < n ==> is_domtail_char(#[trigger] s[i]))
}

pub fn check_email(s: &str) -> (r: bool)
    ensures
        r == is_email(s@),
{
    let n = s.unicode_len();
    let a = find_char_from(s, '@', 0);
    if a < 1 || a >= n {
        return false;
    }
    let mut i: usize = 0;
    while i < a
        invariant
            0 <= i <= a,
            1 <= a < n,
            n == s@.len(),
            a == find_from(s@, '@', 0),
            forall|j: int| 0 <= j < i ==> is_local_char(#[trigger] s@[j]),
        decreases a - i,
    {
        let c = s.get_char(i);
        if !local_char(c) {
            proof {
                assert(!is_email(s@)) by {
                    if is_email(s@) {
                        assert(is_local_char(s@[i as int]));
                    }
                }
            }
            return false;
        }
        i = i + 1;
    }
    let d = find_char_from(s, '.', a + 1);
    if d - a < 2 || n - d < 2 {
        return false;
    }
    let mut j = a + 1;
    while j < d
        invariant
            a + 1 <= j <= d,
            1 <= a,
            a + 2 <= d <= n - 2,
            n == s@.len(),
            a == find_from(s@, '@', 0),
            d == find_from(s@, '.', a + 1 as int),
            forall|k: int| a < k < j ==> is_domseg_char(#[trigger] s@[k]),
        decreases d - j,
    {
        let c = s.get_char(j);
        if !domseg_char(c) {
            proof {
                assert(!is_email(s@)) by {
                    if is_email(s@) {
                        assert(is_domseg_char(s@[j as int]));
                    }
                }
            }
            return false;
        }
        j = j + 1;
    }
    let mut k = d + 1;
    while k < n
        invariant
            d + 1 <= k <= n,
            1 <= a,
            a + 2 <= d <= n - 2,
            n == s@.len(),
            a == find_from(s@, '@', 0),
            d == find_from(s@, '.', a + 1 as int),
            forall|m: int| d < m < k ==> is_domtail_char(#[trigger] s@[m]),
        decreases n - k,
    {
        let c = s.get_char(k);
        if !domtail_char(c) {
            proof {
                assert(!is_email(s@)) by {
                    if is_email(s@) {
                        assert(is_domtail_char(s@[k as int]));
                    }
                }
            }
            return false;
        }
        k = k + 1;
    }
    true
}

} // verus!
