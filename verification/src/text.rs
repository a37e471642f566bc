//! Character-level text operations on `&str`, each proved against a short
//! statement over the string's characters (`s@`).

use vstd::prelude::*;

verus! {

/// The Unicode `White_Space` property, which `char::is_whitespace` and
/// `str::trim` go by.
pub open spec fn is_white_space(c: char) -> bool {
    ||| ('\u{9}' <= c && c <= '\u{d}')
    ||| c == ' '
    ||| c == '\u{85}'
    ||| c == '\u{a0}'
    ||| c == '\u{1680}'
    ||| ('\u{2000}' <= c && c <= '\u{200a}')
    ||| c == '\u{2028}'
    ||| c == '\u{2029}'
    ||| c == '\u{202f}'
    ||| c == '\u{205f}'
    ||| c == '\u{3000}'
}

/// `s` with its leading white space removed.
pub open spec fn trim_start_spec(s: Seq<char>) -> Seq<char>
    decreases s.len(),
{
    if s.len() > 0 && is_white_space(s[0]) {
        trim_start_spec(s.drop_first())
    } else {
        s
    }
}

/// `s` with its trailing white space removed.
pub open spec fn trim_end_spec(s: Seq<char>) -> Seq<char>
    decreases s.len(),
{
    if s.len() > 0 && is_white_space(s.last()) {
        trim_end_spec(s.drop_last())
    } else {
        s
    }
}

/// `s` with leading and trailing white space removed.
pub open spec fn trim_spec(s: Seq<char>) -> Seq<char> {
    trim_end_spec(trim_start_spec(s))
}

/// Every character of `s` is white space.
pub open spec fn all_white(s: Seq<char>) -> bool {
    forall|i: int| 0 <= i < s.len() ==> is_white_space(#[trigger] s[i])
}

/// Trimming the start removes white space only, and leaves a text that does
/// not start with white space.
pub proof fn lemma_trim_start_shape(s: Seq<char>)
    ensures
        trim_start_spec(s).len() <= s.len(),
        trim_start_spec(s) == s.skip(s.len() - trim_start_spec(s).len()),
        all_white(s.take(s.len() - trim_start_spec(s).len())),
        trim_start_spec(s).len() > 0 ==> !is_white_space(trim_start_spec(s)[0]),
    decreases s.len(),
{
    if s.len() > 0 && is_white_space(s[0]) {
        let t = s.drop_first();
        lemma_trim_start_shape(t);
        let n = trim_start_spec(t).len();
        assert(t.skip(t.len() - n) =~= s.skip(s.len() - n));
        assert forall|i: int| 0 <= i < s.len() - n implies is_white_space(
            #[trigger] s.take(s.len() - n)[i],
        ) by {
            if i > 0 {
                assert(s.take(s.len() - n)[i] == t.take(t.len() - n)[i - 1]);
            }
        }
    } else {
        assert(s.skip(0) =~= s);
    }
}

/// Trimming the end removes white space only, and leaves a text that does
/// not end with white space.
pub proof fn lemma_trim_end_shape(s: Seq<char>)
    ensures
        trim_end_spec(s).len() <= s.len(),
        trim_end_spec(s) == s.take(trim_end_spec(s).len() as int),
        all_white(s.skip(trim_end_spec(s).len() as int)),
        trim_end_spec(s).len() > 0 ==> !is_white_space(trim_end_spec(s).last()),
    decreases s.len(),
{
    if s.len() > 0 && is_white_space(s.last()) {
        let t = s.drop_last();
        lemma_trim_end_shape(t);
        let n = trim_end_spec(t).len();
        assert(t.take(n as int) =~= s.take(n as int));
        assert forall|i: int| 0 <= i < s.len() - n implies is_white_space(
            #[trigger] s.skip(n as int)[i],
        ) by {
            if i < t.len() - n {
                assert(s.skip(n as int)[i] == t.skip(n as int)[i]);
            }
        }
    } else {
        assert(s.take(s.len() as int) =~= s);
    }
}

/// Trimming removes white space at both ends only: `s` is the trimmed text
/// with white space before and after it, and the trimmed text neither
/// starts nor ends with white space.
pub proof fn law_trim_shape(s: Seq<char>)
    ensures
        ({
            let t = trim_spec(s);
            exists|a: int|
                #![trigger s.subrange(a, a + t.len())]
                0 <= a && a + t.len() <= s.len() && s.subrange(a, a + t.len()) == t && all_white(
                    s.take(a),
                ) && all_white(s.skip(a + t.len()))
        }),
        trim_spec(s).len() > 0 ==> !is_white_space(trim_spec(s)[0]) && !is_white_space(
            trim_spec(s).last(),
        ),
{
    let u = trim_start_spec(s);
    let t = trim_spec(s);
    lemma_trim_start_shape(s);
    lemma_trim_end_shape(u);
    let a = s.len() - u.len();
    assert(s.subrange(a, a + t.len()) =~= u.take(t.len() as int));
    assert forall|i: int| 0 <= i < s.len() - (a + t.len()) implies is_white_space(
        #[trigger] s.skip(a + t.len())[i],
    ) by {
        assert(s.skip(a + t.len())[i] == u.skip(t.len() as int)[i]);
    }
    if t.len() > 0 {
        assert(t[0] == u[0]);
    }
}

/// Whether `c` has the Unicode `White_Space` property.
pub fn is_whitespace(c: char) -> (r: bool)
    ensures
        r == is_white_space(c),
{
    ('\u{9}' <= c && c <= '\u{d}') || c == ' ' || c == '\u{85}' || c == '\u{a0}' || c
        == '\u{1680}' || ('\u{2000}' <= c && c <= '\u{200a}') || c == '\u{2028}' || c
        == '\u{2029}' || c == '\u{202f}' || c == '\u{205f}' || c == '\u{3000}'
}

pub proof fn lemma_trim_start_at(s: Seq<char>, i: int)
    requires
        0 <= i <= s.len(),
        forall|k: int| 0 <= k < i ==> is_white_space(#[trigger] s[k]),
        i == s.len() || !is_white_space(s[i]),
    ensures
        trim_start_spec(s) == s.subrange(i, s.len() as int),
    decreases i,
{
    if i == 0 {
        assert(s.subrange(0, s.len() as int) =~= s);
    } else {
        let t = s.drop_first();
        assert forall|k: int| 0 <= k < i - 1 implies is_white_space(#[trigger] t[k]) by {
            assert(t[k] == s[k + 1]);
        }
        if i - 1 < t.len() {
            assert(t[i - 1] == s[i]);
        }
        lemma_trim_start_at(t, i - 1);
        assert(t.subrange(i - 1, t.len() as int) =~= s.subrange(i, s.len() as int));
    }
}

pub proof fn lemma_trim_end_at(s: Seq<char>, j: int)
    requires
        0 <= j <= s.len(),
        forall|k: int| j <= k < s.len() ==> is_white_space(#[trigger] s[k]),
        j == 0 || !is_white_space(s[j - 1]),
    ensures
        trim_end_spec(s) == s.subrange(0, j),
    decreases s.len() - j,
{
    if j == s.len() {
        assert(s.subrange(0, j) =~= s);
    } else {
        let t = s.drop_last();
        assert(is_white_space(s[s.len() - 1]));
        assert forall|k: int| j <= k < t.len() implies is_white_space(#[trigger] t[k]) by {
            assert(t[k] == s[k]);
        }
        if j > 0 {
            assert(t[j - 1] == s[j - 1]);
        }
        lemma_trim_end_at(t, j);
        assert(t.subrange(0, j) =~= s.subrange(0, j));
    }
}

/// `str::trim`: the string without leading and trailing white space.
pub fn trim(s: &str) -> (r: &str)
    ensures
        r@ == trim_spec(s@),
{
    let n = s.unicode_len();
    let mut i: usize = 0;
    while i < n && is_whitespace(s.get_char(i))
        invariant
            n == s@.len(),
            i <= n,
            forall|k: int| 0 <= k < i ==> is_white_space(#[trigger] s@[k]),
        decreases n - i,
    {
        i = i + 1;
    }
    proof {
        lemma_trim_start_at(s@, i as int);
    }
    let mut j: usize = n;
    while j > i && is_whitespace(s.get_char(j - 1))
        invariant
            n == s@.len(),
            i <= j <= n,
            forall|k: int| j <= k < n ==> is_white_space(#[trigger] s@[k]),
        decreases j - i,
    {
        j = j - 1;
    }
    proof {
        let t = s@.subrange(i as int, n as int);
        assert forall|k: int| j - i <= k < t.len() implies is_white_space(#[trigger] t[k]) by {
            assert(t[k] == s@[k + i]);
        }
        if j > i {
            assert(t[j - i - 1] == s@[j - 1]);
        }
        lemma_trim_end_at(t, j - i);
        assert(t.subrange(0, j - i) =~= s@.subrange(i as int, j as int));
    }
    s.substring_char(i, j)
}

/// Whether `a` and `b` hold the same characters.
pub fn str_eq(a: &str, b: &str) -> (r: bool)
    ensures
        r == (a@ == b@),
{
    let n = a.unicode_len();
    let m = b.unicode_len();
    if n != m {
        return false;
    }
    let mut i: usize = 0;
    while i < n
        invariant
            n == a@.len(),
            m == b@.len(),
            n == m,
            i <= n,
            forall|k: int| 0 <= k < i ==> a@[k] == b@[k],
        decreases n - i,
    {
        if a.get_char(i) != b.get_char(i) {
            return false;
        }
        i = i + 1;
    }
    assert(a@ =~= b@);
    true
}

/// Whether `p` occurs in `s` starting at position `k`.
pub open spec fn occurs_at(s: Seq<char>, p: Seq<char>, k: int) -> bool {
    &&& 0 <= k
    &&& k + p.len() <= s.len()
    &&& s.subrange(k, k + p.len()) == p
}

/// The first position at or after `k` where `p` occurs in `s`.
pub open spec fn find_from(s: Seq<char>, p: Seq<char>, k: int) -> Option<int>
    decreases s.len() + 1 - k,
{
    if k < 0 || k + p.len() > s.len() {
        None
    } else if occurs_at(s, p, k) {
        Some(k)
    } else {
        find_from(s, p, k + 1)
    }
}

/// `str::starts_with` with a string pattern.
pub open spec fn starts_with_spec(s: Seq<char>, p: Seq<char>) -> bool {
    occurs_at(s, p, 0)
}

/// `str::strip_prefix` with a string pattern.
pub open spec fn strip_prefix_spec(s: Seq<char>, p: Seq<char>) -> Option<Seq<char>> {
    if starts_with_spec(s, p) {
        Some(s.skip(p.len() as int))
    } else {
        None
    }
}

/// `str::strip_suffix` with a string pattern.
pub open spec fn strip_suffix_spec(s: Seq<char>, p: Seq<char>) -> Option<Seq<char>> {
    if occurs_at(s, p, s.len() - p.len()) {
        Some(s.take(s.len() - p.len()))
    } else {
        None
    }
}

/// `str::split_once` with a string pattern: the text before and after the
/// first occurrence of `p`.
pub open spec fn split_once_spec(s: Seq<char>, p: Seq<char>) -> Option<(Seq<char>, Seq<char>)> {
    match find_from(s, p, 0) {
        Some(k) => Some((s.take(k), s.skip(k + p.len()))),
        None => None,
    }
}

/// `str::contains` with a string pattern.
pub open spec fn contains_spec(s: Seq<char>, p: Seq<char>) -> bool {
    find_from(s, p, 0) is Some
}

/// `str::trim_start_matches` with a non-empty string pattern: every leading
/// repetition of `p` removed.
pub open spec fn trim_start_matches_spec(s: Seq<char>, p: Seq<char>) -> Seq<char>
    decreases s.len(),
{
    if p.len() > 0 && starts_with_spec(s, p) {
        trim_start_matches_spec(s.skip(p.len() as int), p)
    } else {
        s
    }
}

pub proof fn lemma_find_from_some(s: Seq<char>, p: Seq<char>, k: int)
    requires
        find_from(s, p, k) is Some,
    ensures
        k <= find_from(s, p, k)->0,
        occurs_at(s, p, find_from(s, p, k)->0),
    decreases s.len() + 1 - k,
{
    if k < 0 || k + p.len() > s.len() {
    } else if occurs_at(s, p, k) {
    } else {
        lemma_find_from_some(s, p, k + 1);
    }
}

/// A first occurrence in `x` stays the first occurrence when text is
/// appended to `x`.
pub proof fn lemma_find_from_append(x: Seq<char>, y: Seq<char>, p: Seq<char>, j: int)
    requires
        find_from(x, p, j) is Some,
    ensures
        find_from(x + y, p, j) == find_from(x, p, j),
    decreases x.len() + 1 - j,
{
    let xy = x + y;
    if j < 0 || j + p.len() > x.len() {
    } else {
        assert(xy.subrange(j, j + p.len()) =~= x.subrange(j, j + p.len()));
        if !occurs_at(x, p, j) {
            lemma_find_from_append(x, y, p, j + 1);
        }
    }
}

proof fn lemma_find_from_first(s: Seq<char>, p: Seq<char>, k: int)
    requires
        0 <= k,
    ensures
        find_from(s, p, k) matches Some(i) ==> k <= i && occurs_at(s, p, i) && forall|j: int|
            k <= j < i ==> !occurs_at(s, p, j),
        find_from(s, p, k) is None ==> forall|j: int| k <= j ==> !occurs_at(s, p, j),
    decreases s.len() + 1 - k,
{
    if k + p.len() <= s.len() && !occurs_at(s, p, k) {
        lemma_find_from_first(s, p, k + 1);
    }
}

/// The search finds the first occurrence: the position found holds the
/// pattern and no earlier one does; where nothing is found, the pattern
/// occurs nowhere.
pub proof fn law_find_first_occurrence(s: Seq<char>, p: Seq<char>)
    ensures
        find_from(s, p, 0) matches Some(i) ==> 0 <= i && i + p.len() <= s.len() && s.subrange(
            i,
            i + p.len(),
        ) == p && forall|j: int| 0 <= j < i ==> #[trigger] s.subrange(j, j + p.len()) != p,
        find_from(s, p, 0) is None ==> forall|j: int|
            0 <= j && j + p.len() <= s.len() ==> #[trigger] s.subrange(j, j + p.len()) != p,
{
    lemma_find_from_first(s, p, 0);
    if let Some(i) = find_from(s, p, 0) {
        assert forall|j: int| 0 <= j < i implies #[trigger] s.subrange(j, j + p.len()) != p by {
            assert(!occurs_at(s, p, j));
        }
    } else {
        assert forall|j: int| 0 <= j && j + p.len() <= s.len() implies #[trigger] s.subrange(j, j + p.len())
            != p by {
            assert(!occurs_at(s, p, j));
        }
    }
}

/// Splitting at a pattern cuts the text at the pattern's first occurrence:
/// the part before, the pattern and the part after make up the text, and
/// the pattern does not occur before the cut.
pub proof fn law_split_once_parts(s: Seq<char>, p: Seq<char>)
    ensures
        split_once_spec(s, p) matches Some((a, b)) ==> a + p + b == s && forall|j: int|
            0 <= j < a.len() ==> #[trigger] s.subrange(j, j + p.len()) != p,
        split_once_spec(s, p) is None ==> forall|j: int|
            0 <= j && j + p.len() <= s.len() ==> #[trigger] s.subrange(j, j + p.len()) != p,
{
    law_find_first_occurrence(s, p);
    if let Some(i) = find_from(s, p, 0) {
        assert(s.take(i) + p + s.skip(i + p.len()) =~= s);
    }
}

/// Removing a prefix or suffix that was added gives back the text, and
/// what a removal leaves makes the text up again with the prefix or suffix.
pub proof fn law_strip_affixes(s: Seq<char>, p: Seq<char>, t: Seq<char>)
    ensures
        strip_prefix_spec(p + t, p) == Some(t),
        strip_suffix_spec(t + p, p) == Some(t),
        strip_prefix_spec(s, p) matches Some(r) ==> p + r == s,
        strip_suffix_spec(s, p) matches Some(r) ==> r + p == s,
{
    assert((p + t).subrange(0, p.len() as int) =~= p);
    assert((p + t).skip(p.len() as int) =~= t);
    assert((t + p).subrange(t.len() as int, (t + p).len() as int) =~= p);
    assert((t + p).take(t.len() as int) =~= t);
    if strip_prefix_spec(s, p) is Some {
        assert(p + s.skip(p.len() as int) =~= s);
    }
    if strip_suffix_spec(s, p) is Some {
        assert(s.take(s.len() - p.len()) + p =~= s);
    }
}

/// After every leading repetition of a non-empty pattern is removed, the
/// text no longer starts with it, and it ends the same way the text did.
pub proof fn law_trim_start_matches(s: Seq<char>, p: Seq<char>)
    requires
        p.len() > 0,
    ensures
        !starts_with_spec(trim_start_matches_spec(s, p), p),
        trim_start_matches_spec(s, p).len() <= s.len(),
        trim_start_matches_spec(s, p) == s.skip(s.len() - trim_start_matches_spec(s, p).len()),
    decreases s.len(),
{
    if starts_with_spec(s, p) {
        let t = s.skip(p.len() as int);
        law_trim_start_matches(t, p);
        let r = trim_start_matches_spec(t, p);
        assert(t.skip(t.len() - r.len()) =~= s.skip(s.len() - r.len()));
    } else {
        assert(s.skip(0) =~= s);
    }
}

/// Whether `p` occurs in `s` at position `k`.
fn occurs_at_exec(s: &str, p: &str, k: usize) -> (r: bool)
    requires
        k + p@.len() <= s@.len(),
    ensures
        r == occurs_at(s@, p@, k as int),
{
    let n = s.unicode_len();
    let m = p.unicode_len();
    let mut j: usize = 0;
    while j < m
        invariant
            n == s@.len(),
            m == p@.len(),
            k + m <= s@.len(),
            j <= m,
            forall|i: int| 0 <= i < j ==> s@[k + i] == p@[i],
        decreases m - j,
    {
        if s.get_char(k + j) != p.get_char(j) {
            assert(s@.subrange(k as int, k + m)[j as int] == s@[k + j]);
            return false;
        }
        j = j + 1;
    }
    assert(s@.subrange(k as int, k + m) =~= p@);
    true
}

/// The first position where `p` occurs in `s`.
pub fn find(s: &str, p: &str) -> (r: Option<usize>)
    ensures
        r matches Some(k) ==> find_from(s@, p@, 0) == Some(k as int),
        r is None ==> find_from(s@, p@, 0) is None,
        r matches Some(k) ==> k + p@.len() <= s@.len() && s@.subrange(k as int, k + p@.len()) == p@
            && forall|j: int| 0 <= j < k ==> #[trigger] s@.subrange(j, j + p@.len()) != p@,
        r is None ==> forall|j: int|
            0 <= j && j + p@.len() <= s@.len() ==> #[trigger] s@.subrange(j, j + p@.len()) != p@,
{
    proof {
        law_find_first_occurrence(s@, p@);
    }
    let n = s.unicode_len();
    let m = p.unicode_len();
    if m > n {
        return None;
    }
    if m == 0 {
        assert(s@.subrange(0, 0) =~= p@);
        return Some(0);
    }
    let mut k: usize = 0;
    while k <= n - m
        invariant
            n == s@.len(),
            m == p@.len(),
            0 < m <= n,
            k <= n - m + 1,
            find_from(s@, p@, 0) == find_from(s@, p@, k as int),
        decreases n - k,
    {
        if occurs_at_exec(s, p, k) {
            proof {
                law_find_first_occurrence(s@, p@);
            }
            return Some(k);
        }
        k = k + 1;
    }
    None
}

/// `str::starts_with` with a string pattern.
pub fn starts_with(s: &str, p: &str) -> (r: bool)
    ensures
        r == starts_with_spec(s@, p@),
{
    if p.unicode_len() > s.unicode_len() {
        false
    } else {
        occurs_at_exec(s, p, 0)
    }
}

/// `str::strip_prefix` with a string pattern.
pub fn strip_prefix<'a>(s: &'a str, p: &str) -> (r: Option<&'a str>)
    ensures
        r matches Some(t) ==> strip_prefix_spec(s@, p@) == Some(t@),
        r is None ==> strip_prefix_spec(s@, p@) is None,
{
    if starts_with(s, p) {
        let n = s.unicode_len();
        let m = p.unicode_len();
        let t = s.substring_char(m, n);
        assert(t@ =~= s@.skip(m as int));
        Some(t)
    } else {
        None
    }
}

/// `str::strip_suffix` with a string pattern.
pub fn strip_suffix<'a>(s: &'a str, p: &str) -> (r: Option<&'a str>)
    ensures
        r matches Some(t) ==> strip_suffix_spec(s@, p@) == Some(t@),
        r is None ==> strip_suffix_spec(s@, p@) is None,
{
    let n = s.unicode_len();
    let m = p.unicode_len();
    if m > n {
        return None;
    }
    if occurs_at_exec(s, p, n - m) {
        let t = s.substring_char(0, n - m);
        assert(t@ =~= s@.take(n - m));
        Some(t)
    } else {
        None
    }
}

/// `str::split_once` with a string pattern.
pub fn split_once<'a>(s: &'a str, p: &str) -> (r: Option<(&'a str, &'a str)>)
    ensures
        r matches Some((a, b)) ==> split_once_spec(s@, p@) == Some((a@, b@)),
        r is None ==> split_once_spec(s@, p@) is None,
        r matches Some((a, b)) ==> a@ + p@ + b@ == s@ && forall|j: int|
            0 <= j < a@.len() ==> #[trigger] s@.subrange(j, j + p@.len()) != p@,
{
    proof {
        law_split_once_parts(s@, p@);
    }
    match find(s, p) {
        Some(k) => {
            proof {
                lemma_find_from_some(s@, p@, 0);
            }
            let n = s.unicode_len();
            let m = p.unicode_len();
            let a = s.substring_char(0, k);
            let b = s.substring_char(k + m, n);
            assert(a@ =~= s@.take(k as int));
            assert(b@ =~= s@.skip(k + m));
            Some((a, b))
        },
        None => None,
    }
}

/// `str::contains` with a string pattern.
pub fn contains(s: &str, p: &str) -> (r: bool)
    ensures
        r == contains_spec(s@, p@),
{
    find(s, p).is_some()
}

/// `str::trim_start_matches` with a non-empty string pattern.
pub fn trim_start_matches<'a>(s: &'a str, p: &str) -> (r: &'a str)
    requires
        p@.len() > 0,
    ensures
        r@ == trim_start_matches_spec(s@, p@),
    decreases s@.len(),
{
    match strip_prefix(s, p) {
        Some(t) => trim_start_matches(t, p),
        None => s,
    }
}

/// ASCII lower case of one character, as `char::to_ascii_lowercase` gives it.
pub open spec fn ascii_lower(c: char) -> char {
    if 'A' <= c && c <= 'Z' {
        ((c as int) + 32) as char
    } else {
        c
    }
}

/// `str::to_ascii_lowercase`: the standard library maps each `A`..`Z` to
/// `a`..`z` and leaves every other character as it is. This contract is
/// trusted, not proved.
#[verifier::external_body]
pub fn to_ascii_lowercase(s: &str) -> (r: String)
    ensures
        r@ == s@.map_values(|c: char| ascii_lower(c)),
{
    s.to_ascii_lowercase()
}

/// What `str::to_uppercase` returns: the Unicode upper-case mapping of the
/// whole string (which may change its length, `ß` becoming `SS`).
pub uninterp spec fn unicode_uppercase(s: Seq<char>) -> Seq<char>;

/// `str::to_uppercase`. The standard library's Unicode case tables are not
/// stated here: the contract only names the result as a function of the
/// input. Trusted, not proved.
#[verifier::external_body]
pub fn to_uppercase(s: &str) -> (r: String)
    ensures
        r@ == unicode_uppercase(s@),
{
    s.to_uppercase()
}

/// An ASCII decimal digit.
pub open spec fn is_ascii_digit(c: char) -> bool {
    '0' <= c && c <= '9'
}

/// Every character of `s` is an ASCII decimal digit.
pub open spec fn all_digits(s: Seq<char>) -> bool {
    forall|i: int| 0 <= i < s.len() ==> is_ascii_digit(#[trigger] s[i])
}

/// The number that the decimal digits `s` spell (0 for no digits).
pub open spec fn digits_value(s: Seq<char>) -> nat
    decreases s.len(),
{
    if s.len() == 0 {
        0
    } else {
        digits_value(s.drop_last()) * 10 + ((s.last() as int) - ('0' as int)) as nat
    }
}

/// `u64::from_str` (what `str::parse::<u64>` does): an optional `+`, then
/// one or more ASCII digits whose value fits in a `u64`.
pub open spec fn parse_u64_spec(s: Seq<char>) -> Option<u64> {
    let body = if s.len() > 0 && s[0] == '+' {
        s.drop_first()
    } else {
        s
    };
    if body.len() > 0 && all_digits(body) && digits_value(body) <= u64::MAX {
        Some(digits_value(body) as u64)
    } else {
        None
    }
}

/// A leading `+` is accepted once and changes nothing.
pub proof fn law_parse_u64_plus(s: Seq<char>)
    requires
        s.len() == 0 || s[0] != '+',
    ensures
        parse_u64_spec(seq!['+'] + s) == parse_u64_spec(s),
{
    let t = seq!['+'] + s;
    assert(t.drop_first() =~= s);
}

/// Appending a digit to a number's text gives ten times the number plus the
/// digit, where that fits in a `u64`, and no number otherwise.
pub proof fn law_parse_u64_push_digit(s: Seq<char>, v: u64, d: char)
    requires
        parse_u64_spec(s) == Some(v),
        is_ascii_digit(d),
    ensures
        (v as int) * 10 + ((d as int) - ('0' as int)) <= u64::MAX ==> parse_u64_spec(s.push(d))
            == Some(((v as int) * 10 + ((d as int) - ('0' as int))) as u64),
        (v as int) * 10 + ((d as int) - ('0' as int)) > u64::MAX ==> parse_u64_spec(s.push(d))
            is None,
{
    let t = s.push(d);
    let body = if s.len() > 0 && s[0] == '+' {
        s.drop_first()
    } else {
        s
    };
    let tbody = if t.len() > 0 && t[0] == '+' {
        t.drop_first()
    } else {
        t
    };
    assert(t[0] == s[0]);
    assert(tbody =~= body.push(d));
    assert(tbody.drop_last() =~= body);
    assert forall|i: int| 0 <= i < tbody.len() implies is_ascii_digit(#[trigger] tbody[i]) by {
        if i < body.len() {
            assert(tbody[i] == body[i]);
        }
    }
}

/// The character of the decimal digit `d` (below 10).
pub open spec fn digit_char(d: nat) -> char {
    (('0' as int) + d) as char
}

/// The decimal representation of `n`, without leading zeros.
pub open spec fn decimal_spec(n: nat) -> Seq<char>
    decreases n,
{
    if n < 10 {
        seq![digit_char(n)]
    } else {
        decimal_spec(n / 10).push(digit_char(n % 10))
    }
}

proof fn lemma_digits_value_prefix(s: Seq<char>, k: int)
    requires
        all_digits(s),
        0 <= k <= s.len(),
    ensures
        digits_value(s.take(k)) <= digits_value(s),
    decreases s.len() - k,
{
    if k < s.len() {
        lemma_digits_value_prefix(s, k + 1);
        assert(s.take(k + 1).drop_last() =~= s.take(k));
        assert(is_ascii_digit(s[k]));
    } else {
        assert(s.take(k) =~= s);
    }
}

/// `str::parse::<u64>`.
pub fn parse_u64(s: &str) -> (r: Option<u64>)
    ensures
        r == parse_u64_spec(s@),
{
    let n = s.unicode_len();
    let start: usize = if n > 0 && s.get_char(0) == '+' {
        1
    } else {
        0
    };
    let ghost body = if s@.len() > 0 && s@[0] == '+' {
        s@.drop_first()
    } else {
        s@
    };
    assert(body =~= s@.skip(start as int));
    if start == n {
        return None;
    }
    let mut acc: u64 = 0;
    let mut i: usize = start;
    while i < n
        invariant
            n == s@.len(),
            start <= i <= n,
            body == s@.skip(start as int),
            body == (if s@.len() > 0 && s@[0] == '+' {
                s@.drop_first()
            } else {
                s@
            }),
            all_digits(body.take(i - start)),
            acc == digits_value(body.take(i - start)),
        decreases n - i,
    {
        let c = s.get_char(i);
        let ghost k = i - start;
        assert(body[k] == c);
        if !('0' <= c && c <= '9') {
            assert(!is_ascii_digit(body[k]));
            assert(!all_digits(body));
            assert(parse_u64_spec(s@) is None);
            return None;
        }
        assert(body.take(k + 1).drop_last() =~= body.take(k));
        let d: u64 = ((c as u32) - ('0' as u32)) as u64;
        match acc.checked_mul(10) {
            Some(t) => match t.checked_add(d) {
                Some(v) => {
                    acc = v;
                },
                None => {
                    proof {
                        if all_digits(body) {
                            lemma_digits_value_prefix(body, k + 1);
                        }
                    }
                    return None;
                },
            },
            None => {
                proof {
                    if all_digits(body) {
                        lemma_digits_value_prefix(body, k + 1);
                    }
                }
                return None;
            },
        }
        i = i + 1;
        assert forall|j: int| 0 <= j < k + 1 implies is_ascii_digit(#[trigger] body.take(k + 1)[j]) by {
            if j < k {
                assert(body.take(k + 1)[j] == body.take(k)[j]);
            }
        }
    }
    assert(body.take(n - start) =~= body);
    Some(acc)
}

/// The one-character text of the decimal digit `d`.
fn digit_text(d: u64) -> (r: &'static str)
    requires
        d < 10,
    ensures
        r@ == seq![digit_char(d as nat)],
{
    if d == 0 {
        proof { reveal_strlit("0"); }
        "0"
    } else if d == 1 {
        proof { reveal_strlit("1"); }
        "1"
    } else if d == 2 {
        proof { reveal_strlit("2"); }
        "2"
    } else if d == 3 {
        proof { reveal_strlit("3"); }
        "3"
    } else if d == 4 {
        proof { reveal_strlit("4"); }
        "4"
    } else if d == 5 {
        proof { reveal_strlit("5"); }
        "5"
    } else if d == 6 {
        proof { reveal_strlit("6"); }
        "6"
    } else if d == 7 {
        proof { reveal_strlit("7"); }
        "7"
    } else if d == 8 {
        proof { reveal_strlit("8"); }
        "8"
    } else {
        proof { reveal_strlit("9"); }
        "9"
    }
}

/// The decimal text of `n`, as `n.to_string()` gives it.
pub fn u64_to_decimal(n: u64) -> (r: String)
    ensures
        r@ == decimal_spec(n as nat),
    decreases n,
{
    if n < 10 {
        String::from_str(digit_text(n))
    } else {
        let mut s = u64_to_decimal(n / 10);
        s.append(digit_text(n % 10));
        s
    }
}

/// Reading back the decimal text of a number gives the number.
pub proof fn lemma_decimal_parse_roundtrip(n: u64)
    ensures
        parse_u64_spec(decimal_spec(n as nat)) == Some(n),
{
    lemma_decimal_digits(n as nat);
    let s = decimal_spec(n as nat);
    assert(s[0] != '+') by {
        assert(is_ascii_digit(s[0]));
    }
}

pub proof fn lemma_decimal_digits(n: nat)
    ensures
        decimal_spec(n).len() > 0,
        all_digits(decimal_spec(n)),
        digits_value(decimal_spec(n)) == n,
    decreases n,
{
    if n < 10 {
        let s = decimal_spec(n);
        assert(s.drop_last() =~= Seq::<char>::empty());
        assert(digits_value(s.drop_last()) == 0);
        assert(digit_char(n) as int == ('0' as int) + n);
    } else {
        lemma_decimal_digits(n / 10);
        let s = decimal_spec(n);
        assert(s.drop_last() =~= decimal_spec(n / 10));
        let d = n % 10;
        assert(digit_char(d) as int == ('0' as int) + d);
        assert(s.last() == digit_char(d));
        assert(digits_value(s) == digits_value(s.drop_last()) * 10 + d);
        assert(n == (n / 10) * 10 + d);
        assert forall|i: int| 0 <= i < s.len() implies is_ascii_digit(#[trigger] s[i]) by {
            if i < s.len() - 1 {
                assert(s[i] == decimal_spec(n / 10)[i]);
            }
        }
    }
}

} // verus!
