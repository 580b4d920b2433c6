//! Text routines on the character view of strings: exact and ASCII
//! case-insensitive comparison, prefixes, substrings, and Unicode white space.
use vstd::prelude::*;
use vstd::string::*;

verus! {

/// Whether `c` has the Unicode `White_Space` property (what `\s` matches and
/// what `str::trim` removes).
pub open spec fn is_ws(c: char) -> bool {
    let n = c as u32;
    (0x9 <= n <= 0xd) || n == 0x20 || n == 0x85 || n == 0xa0 || n == 0x1680 || (0x2000 <= n <= 0x200a)
        || n == 0x2028 || n == 0x2029 || n == 0x202f || n == 0x205f || n == 0x3000
}

/// The first position at or after `i` that is not white space (or the end).
pub open spec fn skip_ws(s: Seq<char>, i: int) -> int
    decreases s.len() - i,
{
    if i < 0 || i >= s.len() || !is_ws(s[i]) {
        i
    } else {
        skip_ws(s, i + 1)
    }
}

/// The end of `s[..j]` once white space is cut off its end.
pub open spec fn trim_end(s: Seq<char>, j: int) -> int
    decreases j,
{
    if j <= 0 || j > s.len() {
        if j > s.len() {
            s.len() as int
        } else {
            0
        }
    } else if is_ws(s[j - 1]) {
        trim_end(s, j - 1)
    } else {
        j
    }
}

/// `s` with white space cut off both ends.
pub open spec fn trim_spec(s: Seq<char>) -> Seq<char> {
    let a = skip_ws(s, 0);
    if a >= s.len() {
        Seq::empty()
    } else {
        s.subrange(a, trim_end(s, s.len() as int))
    }
}

/// Whether `s` begins with `p`.
pub open spec fn starts_with(s: Seq<char>, p: Seq<char>) -> bool {
    p.len() <= s.len() && s.take(p.len() as int) == p
}

/// `c` with an ASCII upper-case letter turned into its lower-case form.
pub open spec fn ascii_fold(c: char) -> int {
    if 65 <= (c as u32) <= 90 {
        (c as u32) + 32int
    } else {
        c as int
    }
}

/// Whether two texts are equal when ASCII letters are compared without case.
pub open spec fn eq_ignore_ascii_case(a: Seq<char>, b: Seq<char>) -> bool {
    a.len() == b.len() && forall|i: int| 0 <= i < a.len() ==> ascii_fold(#[trigger] a[i]) == ascii_fold(b[i])
}

/// Whether `t` occurs in `s` as a run of consecutive characters.
pub open spec fn has_infix(s: Seq<char>, t: Seq<char>) -> bool {
    exists|i: int| 0 <= i && i + t.len() <= s.len() && #[trigger] s.subrange(i, i + t.len()) == t
}

/// Whether two texts hold the same characters.
pub fn same_text(a: &str, b: &str) -> (r: bool)
    ensures
        r == (a@ == b@),
{
    let n = a.unicode_len();
    if n != b.unicode_len() {
        return false;
    }
    let mut i: usize = 0;
    while i < n
        invariant
            n as nat == a@.len(),
            a@.len() == b@.len(),
            i <= n,
            forall|j: int| 0 <= j < i ==> a@[j] == b@[j],
        decreases n - i,
    {
        if a.get_char(i) != b.get_char(i) {
            return false;
        }
        i = i + 1;
    }
    assert(a@ =~= b@);
    true
}

fn fold_char(c: char) -> (r: u32)
    ensures
        r as int == ascii_fold(c),
{
    let n = c as u32;
    if 65 <= n && n <= 90 {
        n + 32
    } else {
        n
    }
}

/// Compares two texts, ASCII letters without case.
pub fn text_eq_ignore_ascii_case(a: &str, b: &str) -> (r: bool)
    ensures
        r == eq_ignore_ascii_case(a@, b@),
{
    let n = a.unicode_len();
    if n != b.unicode_len() {
        return false;
    }
    let mut i: usize = 0;
    while i < n
        invariant
            n as nat == a@.len(),
            a@.len() == b@.len(),
            i <= n,
            forall|j: int| 0 <= j < i ==> ascii_fold(#[trigger] a@[j]) == ascii_fold(b@[j]),
        decreases n - i,
    {
        if fold_char(a.get_char(i)) != fold_char(b.get_char(i)) {
            return false;
        }
        i = i + 1;
    }
    true
}

pub(crate) fn ws_char(c: char) -> (r: bool)
    ensures
        r == is_ws(c),
{
    let n = c as u32;
    (0x9 <= n && n <= 0xd) || n == 0x20 || n == 0x85 || n == 0xa0 || n == 0x1680 || (0x2000 <= n
        && n <= 0x200a) || n == 0x2028 || n == 0x2029 || n == 0x202f || n == 0x205f || n == 0x3000
}

pub(crate) fn skip_ws_from(s: &str, n: usize, i: usize) -> (r: usize)
    requires
        n as nat == s@.len(),
        i <= n,
    ensures
        r as int == skip_ws(s@, i as int),
        i <= r <= n,
        r < n ==> !is_ws(s@[r as int]),
    decreases n - i,
{
    if i >= n || !ws_char(s.get_char(i)) {
        i
    } else {
        skip_ws_from(s, n, i + 1)
    }
}

pub(crate) fn trim_end_at(s: &str, n: usize, j: usize) -> (r: usize)
    requires
        n as nat == s@.len(),
        j <= n,
    ensures
        r as int == trim_end(s@, j as int),
        r <= j,
    decreases j,
{
    if j == 0 {
        0
    } else if ws_char(s.get_char(j - 1)) {
        trim_end_at(s, n, j - 1)
    } else {
        j
    }
}

/// `s` with Unicode white space cut off both ends.
pub fn trim_ws(s: &str) -> (r: &str)
    ensures
        r@ == trim_spec(s@),
{
    let n = s.unicode_len();
    let a = skip_ws_from(s, n, 0);
    if a >= n {
        return s.substring_char(0, 0);
    }
    let e = trim_end_at(s, n, n);
    proof {
        lemma_trim_end_past(s@, a as int, n as int);
    }
    s.substring_char(a, e)
}

proof fn lemma_trim_end_past(s: Seq<char>, a: int, j: int)
    requires
        0 <= a < j <= s.len(),
        !is_ws(s[a]),
    ensures
        a < trim_end(s, j) <= j,
    decreases j,
{
    if j - 1 > a && is_ws(s[j - 1]) {
        lemma_trim_end_past(s, a, j - 1);
    }
}

/// Whether `t` occurs in `s`.
pub fn contains_text(s: &str, t: &str) -> (r: bool)
    ensures
        r == has_infix(s@, t@),
{
    let n = s.unicode_len();
    let m = t.unicode_len();
    if m > n {
        return false;
    }
    let mut i: usize = 0;
    while i <= n - m
        invariant
            n as nat == s@.len(),
            m as nat == t@.len(),
            m <= n,
            i <= n - m + 1,
            forall|a: int| 0 <= a < i ==> #[trigger] s@.subrange(a, a + m) != t@,
        decreases n - m + 1 - i,
    {
        let mut j: usize = 0;
        let mut same = true;
        while j < m
            invariant
                n as nat == s@.len(),
                m as nat == t@.len(),
                i + m <= n,
                j <= m,
                same == forall|b: int| 0 <= b < j ==> s@[i + b] == t@[b],
            decreases m - j,
        {
            if s.get_char(i + j) != t.get_char(j) {
                same = false;
            }
            j = j + 1;
        }
        if same {
            assert(s@.subrange(i as int, i + m) =~= t@);
            return true;
        }
        assert(s@.subrange(i as int, i + m) != t@) by {
            let b = choose|b: int| 0 <= b < m && s@[i + b] != t@[b];
            assert(s@.subrange(i as int, i + m)[b] == s@[i + b]);
        }
        i = i + 1;
    }
    false
}

/// Whether `s` begins with `p`.
pub fn has_prefix(s: &str, p: &str) -> (r: bool)
    ensures
        r == starts_with(s@, p@),
{
    let n = s.unicode_len();
    let m = p.unicode_len();
    if m > n {
        return false;
    }
    let mut j: usize = 0;
    while j < m
        invariant
            n as nat == s@.len(),
            m as nat == p@.len(),
            m <= n,
            j <= m,
            forall|b: int| 0 <= b < j ==> s@[b] == p@[b],
        decreases m - j,
    {
        if s.get_char(j) != p.get_char(j) {
            assert(s@.take(m as int)[j as int] != p@[j as int]);
            return false;
        }
        j = j + 1;
    }
    assert(s@.take(m as int) =~= p@);
    true
}

/// The first position at or after `i` that holds `c` (or the end).
pub open spec fn find(s: Seq<char>, i: int, c: char) -> int
    decreases s.len() - i,
{
    if i < 0 || i >= s.len() || s[i] == c {
        i
    } else {
        find(s, i + 1, c)
    }
}

pub fn find_from(s: &str, n: usize, i: usize, c: char) -> (r: usize)
    requires
        n as nat == s@.len(),
        i <= n,
    ensures
        r as int == find(s@, i as int, c),
        i <= r <= n,
        r < n ==> s@[r as int] == c,
        forall|j: int| i <= j < r ==> s@[j] != c,
    decreases n - i,
{
    if i >= n || s.get_char(i) == c {
        i
    } else {
        find_from(s, n, i + 1, c)
    }
}

} // verus!
