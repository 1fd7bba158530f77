use vstd::prelude::*;

verus! {

/// Unicode `White_Space`, the property that `char::is_whitespace` tests.
pub open spec fn is_white_space(c: char) -> bool {
    ||| ('\u{9}' <= c && c <= '\u{d}')
    ||| c == ' '
    ||| c == '\u{85}'
    ||| c == '\u{a0}'
    ||| c == '\u{1680}'
    ||| ('\u{2000}' <= c && c <= '\u{200a}')
    ||| c == '\u{2028}'
    ||| c == '\u{2029}'
    ||| c == '\u{202f}'
    ||| c == '\u{205f}'
    ||| c == '\u{3000}'
}

/// The characters of a string, in order.
pub fn chars_of(s: &str) -> (v: Vec<char>)
    ensures
        v@ == s@,
{
    let mut v: Vec<char> = Vec::new();
    for c in it: s.chars()
        invariant
            v@ == it.seq().take(it.index() as int),
    {
        v.push(c);
    }
    v
}


/// `char::is_whitespace`.
pub fn char_is_white_space(c: char) -> (b: bool)
    ensures
        b == is_white_space(c),
{
    ('\u{9}' <= c && c <= '\u{d}') || c == ' ' || c == '\u{85}' || c == '\u{a0}' || c == '\u{1680}'
        || ('\u{2000}' <= c && c <= '\u{200a}') || c == '\u{2028}' || c == '\u{2029}'
        || c == '\u{202f}' || c == '\u{205f}' || c == '\u{3000}'
}

/// `char::to_ascii_lowercase`: `A`..=`Z` become `a`..=`z`, every other char stays.
pub open spec fn ascii_lower_char(c: char) -> char {
    if 'A' <= c && c <= 'Z' {
        ((c as int) + 32) as char
    } else {
        c
    }
}

/// `str::to_ascii_lowercase` on the characters of a string.
pub open spec fn ascii_lower(s: Seq<char>) -> Seq<char> {
    s.map_values(|c: char| ascii_lower_char(c))
}

pub fn lower_char(c: char) -> (d: char)
    ensures
        d == ascii_lower_char(c),
{
    if 'A' <= c && c <= 'Z' {
        ((c as u8) + 32) as char
    } else {
        c
    }
}

pub fn lower_chars(v: &Vec<char>) -> (w: Vec<char>)
    ensures
        w@ == ascii_lower(v@),
{
    let mut w: Vec<char> = Vec::new();
    let n = v.len();
    for i in 0..n
        invariant
            n == v@.len(),
            w@ == ascii_lower(v@.take(i as int)),
    {
        assert(v@.take(i + 1) == v@.take(i as int).push(v@[i as int]));
        w.push(lower_char(v[i]));
    }
    assert(v@.take(n as int) == v@);
    w
}

/// The first index at or after `i` that holds no white space (or the length).
pub open spec fn skip_white(s: Seq<char>, i: int) -> int
    decreases s.len() - i,
{
    if 0 <= i < s.len() && is_white_space(s[i]) {
        skip_white(s, i + 1)
    } else {
        i
    }
}

/// The first index at or after `i` that holds white space (or the length).
pub open spec fn skip_word(s: Seq<char>, i: int) -> int
    decreases s.len() - i,
{
    if 0 <= i < s.len() && !is_white_space(s[i]) {
        skip_word(s, i + 1)
    } else {
        i
    }
}

/// The end of `s.take(j)` once its trailing white space is dropped.
pub open spec fn drop_white_back(s: Seq<char>, j: int) -> int
    decreases j,
{
    if 0 < j <= s.len() && is_white_space(s[j - 1]) {
        drop_white_back(s, j - 1)
    } else {
        j
    }
}

/// `str::trim_start`.
pub open spec fn trim_start(s: Seq<char>) -> Seq<char> {
    s.subrange(skip_white(s, 0), s.len() as int)
}

/// `str::trim_end`.
pub open spec fn trim_end(s: Seq<char>) -> Seq<char> {
    s.subrange(0, drop_white_back(s, s.len() as int))
}

/// `str::trim`.
pub open spec fn trim(s: Seq<char>) -> Seq<char> {
    trim_end(trim_start(s))
}

pub proof fn lemma_drop_white_back_bounds(s: Seq<char>, j: int)
    requires
        0 <= j <= s.len(),
    ensures
        0 <= drop_white_back(s, j) <= j,
        forall|k: int| drop_white_back(s, j) <= k < j ==> is_white_space(#[trigger] s[k]),
        drop_white_back(s, j) > 0 ==> !is_white_space(s[drop_white_back(s, j) - 1]),
    decreases j,
{
    if 0 < j && is_white_space(s[j - 1]) {
        lemma_drop_white_back_bounds(s, j - 1);
    }
}

/// `skip_word` stops at the first white space, or at the end.
pub proof fn lemma_skip_word_to(s: Seq<char>, i: int, j: int)
    requires
        0 <= i <= j <= s.len(),
        forall|k: int| i <= k < j ==> !is_white_space(#[trigger] s[k]),
        j == s.len() || is_white_space(s[j]),
    ensures
        skip_word(s, i) == j,
    decreases j - i,
{
    if i < j {
        lemma_skip_word_to(s, i + 1, j);
    }
}

/// `skip_white` stops at the first char that is no white space, or at the end.
pub proof fn lemma_skip_white_to(s: Seq<char>, i: int, j: int)
    requires
        0 <= i <= j <= s.len(),
        forall|k: int| i <= k < j ==> is_white_space(#[trigger] s[k]),
        j == s.len() || !is_white_space(s[j]),
    ensures
        skip_white(s, i) == j,
    decreases j - i,
{
    if i < j {
        lemma_skip_white_to(s, i + 1, j);
    }
}

/// `skip_white` computed on a vector of chars.
pub fn skip_white_at(v: &Vec<char>, start: usize) -> (r: usize)
    requires
        start <= v@.len(),
    ensures
        r == skip_white(v@, start as int),
        start <= r <= v@.len(),
{
    let mut i = start;
    while i < v.len() && char_is_white_space(v[i])
        invariant
            start <= i <= v@.len(),
            skip_white(v@, i as int) == skip_white(v@, start as int),
        decreases v@.len() - i,
    {
        i = i + 1;
    }
    i
}

/// `skip_word` computed on a vector of chars.
pub fn skip_word_at(v: &Vec<char>, start: usize) -> (r: usize)
    requires
        start <= v@.len(),
    ensures
        r == skip_word(v@, start as int),
        start <= r <= v@.len(),
{
    let mut i = start;
    while i < v.len() && !char_is_white_space(v[i])
        invariant
            start <= i <= v@.len(),
            skip_word(v@, i as int) == skip_word(v@, start as int),
        decreases v@.len() - i,
    {
        i = i + 1;
    }
    i
}

/// The bounds `(a, b)` of `trim(v@)` inside `v@`.
pub fn trim_bounds(v: &Vec<char>) -> (r: (usize, usize))
    ensures
        r.0 <= r.1 <= v@.len(),
        v@.subrange(r.0 as int, r.1 as int) == trim(v@),
{
    let a = skip_white_at(v, 0);
    let ghost t = v@.subrange(a as int, v@.len() as int);
    let mut j = v.len();
    while j > a && char_is_white_space(v[j - 1])
        invariant
            a <= j <= v@.len(),
            t == v@.subrange(a as int, v@.len() as int),
            drop_white_back(t, (j - a) as int) == drop_white_back(t, t.len() as int),
        decreases j,
    {
        assert(t[(j - a) - 1] == v@[j - 1]);
        j = j - 1;
    }
    proof {
        lemma_drop_white_back_bounds(t, t.len() as int);
        assert(v@.subrange(a as int, j as int) == t.subrange(0, (j - a) as int));
    }
    (a, j)
}

/// `s` begins with `prefix` (`str::starts_with`).
pub open spec fn starts_with(s: Seq<char>, prefix: Seq<char>) -> bool {
    prefix.len() <= s.len() && s.subrange(0, prefix.len() as int) == prefix
}

/// `s` with every leading copy of a non-empty `prefix` removed (`str::trim_start_matches`).
pub open spec fn strip_prefixes(s: Seq<char>, prefix: Seq<char>) -> Seq<char>
    decreases s.len(),
{
    if prefix.len() > 0 && starts_with(s, prefix) {
        strip_prefixes(s.subrange(prefix.len() as int, s.len() as int), prefix)
    } else {
        s
    }
}

/// The end of `s.take(j)` once the trailing copies of `c` are dropped.
pub open spec fn drop_char_back(s: Seq<char>, j: int, c: char) -> int
    decreases j,
{
    if 0 < j <= s.len() && s[j - 1] == c {
        drop_char_back(s, j - 1, c)
    } else {
        j
    }
}

/// `str::trim_end_matches` with a single char.
pub open spec fn trim_end_char(s: Seq<char>, c: char) -> Seq<char> {
    s.subrange(0, drop_char_back(s, s.len() as int, c))
}

/// A copy of `v@.subrange(from, to)`.
pub fn copy_range(v: &Vec<char>, from: usize, to: usize) -> (w: Vec<char>)
    requires
        from <= to <= v@.len(),
    ensures
        w@ == v@.subrange(from as int, to as int),
{
    let mut w: Vec<char> = Vec::new();
    let mut i = from;
    while i < to
        invariant
            from <= i <= to <= v@.len(),
            w@ == v@.subrange(from as int, i as int),
        decreases to - i,
    {
        w.push(v[i]);
        i = i + 1;
    }
    w
}

/// Whether two char vectors hold the same characters.
pub fn same_chars(v: &Vec<char>, w: &Vec<char>) -> (b: bool)
    ensures
        b == (v@ == w@),
{
    let b = range_equals(v, 0, v.len(), w);
    assert(v@.subrange(0, v@.len() as int) == v@);
    b
}

/// `needle` occurs in `hay` as a contiguous run (`str::contains`).
pub open spec fn occurs_in(needle: Seq<char>, hay: Seq<char>) -> bool {
    exists|i: int|
        0 <= i && i + needle.len() <= hay.len() && #[trigger] hay.subrange(i, i + needle.len())
            == needle
}

/// `v@.subrange(at, at + w.len()) == w@`, computed.
pub fn matches_at(v: &Vec<char>, at: usize, w: &Vec<char>) -> (b: bool)
    requires
        at + w@.len() <= v@.len(),
    ensures
        b == (v@.subrange(at as int, at + w@.len()) == w@),
{
    let m = w.len();
    let mut k: usize = 0;
    while k < m
        invariant
            m == w@.len(),
            at + m <= v.len(),
            k <= m,
            forall|l: int| 0 <= l < k ==> v@[at + l] == w@[l],
        decreases m - k,
    {
        if v[at + k] != w[k] {
            assert(v@.subrange(at as int, at + m)[k as int] != w@[k as int]);
            return false;
        }
        k = k + 1;
    }
    assert(v@.subrange(at as int, at + m) == w@);
    true
}

/// Whether `w` occurs in `v` (`str::contains`).
pub fn occurs(w: &Vec<char>, v: &Vec<char>) -> (b: bool)
    ensures
        b == occurs_in(w@, v@),
{
    let n = v.len();
    let m = w.len();
    if m > n {
        return false;
    }
    let mut i: usize = 0;
    loop
        invariant
            n == v.len(),
            m == w@.len(),
            m <= n,
            i <= n - m,
            forall|k: int| 0 <= k < i ==> #[trigger] v@.subrange(k, k + m) != w@,
        decreases n - m - i,
    {
        if matches_at(v, i, w) {
            return true;
        }
        if i == n - m {
            return false;
        }
        i = i + 1;
    }
}

/// Whether `v@.subrange(from, to) == w@`.
pub fn range_equals(v: &Vec<char>, from: usize, to: usize, w: &Vec<char>) -> (b: bool)
    requires
        from <= to <= v@.len(),
    ensures
        b == (v@.subrange(from as int, to as int) == w@),
{
    if to - from != w.len() {
        return false;
    }
    matches_at(v, from, w)
}

} // verus!
