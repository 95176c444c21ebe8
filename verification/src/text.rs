//! Character-level building blocks shared by the path, slug, URI and HTML
//! routines: strings are handled as sequences of `char`, and every routine
//! here is stated over those sequences.
use vstd::prelude::*;

verus! {

pub assume_specification[ String::push ](s: &mut String, ch: char)
    ensures
        final(s)@ == old(s)@.push(ch),
;

/// Whether `c` has the Unicode `White_Space` property, as `char::is_whitespace`
/// (and so `str::trim`) reports it: the ASCII tab, line feed, vertical tab,
/// form feed, carriage return and space, and U+0085, U+00A0, U+1680,
/// U+2000..=U+200A, U+2028, U+2029, U+202F, U+205F and U+3000.
pub open spec fn char_is_whitespace(c: char) -> bool {
    let u = c as u32;
    ||| 0x09 <= u <= 0x0D
    ||| u == 0x20
    ||| u == 0x85
    ||| u == 0xA0
    ||| u == 0x1680
    ||| 0x2000 <= u <= 0x200A
    ||| u == 0x2028
    ||| u == 0x2029
    ||| u == 0x202F
    ||| u == 0x205F
    ||| u == 0x3000
}

/// Whether a character outside ASCII is alphabetic or numeric in the Unicode
/// sense, as `char::is_alphanumeric` reports it.
pub uninterp spec fn unicode_alphanumeric(c: char) -> bool;

/// `char::is_alphanumeric`: within ASCII exactly the letters and digits,
/// beyond it the Unicode `Alphabetic` and numeric classes.
pub open spec fn char_is_alphanumeric(c: char) -> bool {
    if (c as u32) < 128 {
        is_ascii_alnum(c)
    } else {
        unicode_alphanumeric(c)
    }
}

/// `char::is_whitespace`.
pub fn is_whitespace(c: char) -> (b: bool)
    ensures
        b == char_is_whitespace(c),
{
    let u = c as u32;
    (0x09 <= u && u <= 0x0D) || u == 0x20 || u == 0x85 || u == 0xA0 || u == 0x1680 || (0x2000
        <= u && u <= 0x200A) || u == 0x2028 || u == 0x2029 || u == 0x202F || u == 0x205F || u
        == 0x3000
}

/// `char::is_alphanumeric`: stated for ASCII, where the letters and digits are
/// exactly the alphanumeric characters, and named beyond it.
#[verifier::external_body]
pub(crate) fn is_alphanumeric(c: char) -> (b: bool)
    ensures
        (c as u32) < 128 ==> b == is_ascii_alnum(c),
        (c as u32) >= 128 ==> b == unicode_alphanumeric(c),
{
    c.is_alphanumeric()
}

pub open spec fn ws() -> spec_fn(char) -> bool {
    |c: char| char_is_whitespace(c)
}

pub open spec fn is_char(x: char) -> spec_fn(char) -> bool {
    |c: char| c == x
}

// ---------------------------------------------------------------- conversion

/// The characters of `s`, in order.
pub fn chars_of(s: &str) -> (v: Vec<char>)
    ensures
        v@ == s@,
{
    let mut v: Vec<char> = Vec::new();
    for c in it: s.chars()
        invariant
            v@ == it.seq().take(it.index() as int),
            it.seq() == s@,
    {
        v.push(c);
    }
    v
}

/// A `String` holding exactly the characters of `v`.
pub fn string_of(v: &[char]) -> (s: String)
    ensures
        s@ == v@,
{
    let mut s = String::new();
    let mut i: usize = 0;
    while i < v.len()
        invariant
            i <= v@.len(),
            s@ == v@.take(i as int),
        decreases v@.len() - i,
    {
        s.push(v[i]);
        i = i + 1;
        assert(v@.take(i as int) == v@.take(i - 1).push(v@[i - 1]));
    }
    assert(v@.take(v@.len() as int) == v@);
    s
}

/// The characters of `v[from..to]` as a `String`.
pub fn string_of_range(v: &[char], from: usize, to: usize) -> (s: String)
    requires
        from <= to <= v@.len(),
    ensures
        s@ == v@.subrange(from as int, to as int),
{
    let mut s = String::new();
    let mut i: usize = from;
    while i < to
        invariant
            from <= i <= to <= v@.len(),
            s@ == v@.subrange(from as int, i as int),
        decreases to - i,
    {
        s.push(v[i]);
        i = i + 1;
        assert(v@.subrange(from as int, i as int) == v@.subrange(from as int, i - 1).push(
            v@[i - 1],
        ));
    }
    s
}

/// Append every character of `v` to `s`.
pub fn push_all(s: &mut String, v: &[char])
    ensures
        final(s)@ == old(s)@ + v@,
{
    let mut i: usize = 0;
    while i < v.len()
        invariant
            i <= v@.len(),
            s@ == old(s)@ + v@.take(i as int),
        decreases v@.len() - i,
    {
        s.push(v[i]);
        i = i + 1;
        assert(v@.take(i as int) == v@.take(i - 1).push(v@[i - 1]));
    }
    assert(v@.take(v@.len() as int) == v@);
}

/// Append every character of `t` to `s`.
pub fn push_str(s: &mut String, t: &str)
    ensures
        final(s)@ == old(s)@ + t@,
{
    let v = chars_of(t);
    push_all(s, &v);
}

/// `a` followed by `b`.
pub fn concat(a: &str, b: &str) -> (s: String)
    ensures
        s@ == a@ + b@,
{
    let mut s = a.to_owned();
    push_str(&mut s, b);
    s
}

// ---------------------------------------------------------------- ASCII case

pub open spec fn ascii_lower_char(c: char) -> char {
    if 'A' <= c && c <= 'Z' {
        ((c as u32) + 32) as char
    } else {
        c
    }
}

pub open spec fn ascii_lower(s: Seq<char>) -> Seq<char> {
    s.map_values(|c: char| ascii_lower_char(c))
}

pub fn to_ascii_lower(c: char) -> (r: char)
    ensures
        r == ascii_lower_char(c),
{
    if 'A' <= c && c <= 'Z' {
        let u: u8 = (c as u32 + 32) as u8;
        u as char
    } else {
        c
    }
}

/// `str::to_ascii_lowercase`, on characters.
pub fn lowercase_ascii(v: &[char]) -> (r: Vec<char>)
    ensures
        r@ == ascii_lower(v@),
{
    let mut r: Vec<char> = Vec::new();
    let mut i: usize = 0;
    while i < v.len()
        invariant
            i <= v@.len(),
            r@ == ascii_lower(v@.take(i as int)),
        decreases v@.len() - i,
    {
        r.push(to_ascii_lower(v[i]));
        i = i + 1;
        assert(ascii_lower(v@.take(i as int)) == ascii_lower(v@.take(i - 1)).push(
            ascii_lower_char(v@[i - 1]),
        ));
    }
    assert(v@.take(v@.len() as int) == v@);
    r
}

pub open spec fn is_ascii_alnum(c: char) -> bool {
    ('a' <= c && c <= 'z') || ('A' <= c && c <= 'Z') || ('0' <= c && c <= '9')
}

// ---------------------------------------------------------------- trimming

/// The first index at or after `i` whose character does not satisfy `p`
/// (the length when there is none).
pub open spec fn skip_while(s: Seq<char>, p: spec_fn(char) -> bool, i: int) -> int
    decreases s.len() - i,
{
    if i < 0 || i >= s.len() {
        s.len() as int
    } else if !p(s[i]) {
        i
    } else {
        skip_while(s, p, i + 1)
    }
}

/// Counting down from `j`, the end of the last stretch not satisfying `p`:
/// the largest `k <= j` with `k == 0` or `!p(s[k - 1])`.
pub open spec fn back_while(s: Seq<char>, p: spec_fn(char) -> bool, j: int) -> int
    decreases j,
{
    if j <= 0 || j > s.len() {
        0
    } else if !p(s[j - 1]) {
        j
    } else {
        back_while(s, p, j - 1)
    }
}

pub open spec fn trim_start_by(s: Seq<char>, p: spec_fn(char) -> bool) -> Seq<char> {
    s.skip(skip_while(s, p, 0))
}

pub open spec fn trim_end_by(s: Seq<char>, p: spec_fn(char) -> bool) -> Seq<char> {
    s.take(back_while(s, p, s.len() as int))
}

pub open spec fn trim_by(s: Seq<char>, p: spec_fn(char) -> bool) -> Seq<char> {
    trim_end_by(trim_start_by(s, p), p)
}

/// `str::trim`.
pub open spec fn trim(s: Seq<char>) -> Seq<char> {
    trim_by(s, ws())
}

pub proof fn lemma_skip_while_bounds(s: Seq<char>, p: spec_fn(char) -> bool, i: int)
    requires
        0 <= i <= s.len(),
    ensures
        i <= skip_while(s, p, i) <= s.len(),
        forall|k: int| i <= k < skip_while(s, p, i) ==> #[trigger] p(s[k]),
        skip_while(s, p, i) < s.len() ==> !p(s[skip_while(s, p, i)]),
    decreases s.len() - i,
{
    if i < s.len() && p(s[i]) {
        lemma_skip_while_bounds(s, p, i + 1);
    }
}

pub proof fn lemma_back_while_bounds(s: Seq<char>, p: spec_fn(char) -> bool, j: int)
    requires
        0 <= j <= s.len(),
    ensures
        0 <= back_while(s, p, j) <= j,
        forall|k: int| back_while(s, p, j) <= k < j ==> #[trigger] p(s[k]),
        back_while(s, p, j) > 0 ==> !p(s[back_while(s, p, j) - 1]),
    decreases j,
{
    if j > 0 && p(s[j - 1]) {
        lemma_back_while_bounds(s, p, j - 1);
    }
}

pub open spec fn not_ws() -> spec_fn(char) -> bool {
    |c: char| !char_is_whitespace(c)
}

/// Scanning a suffix is scanning the whole from the suffix's start.
pub proof fn lemma_skip_while_shift(s: Seq<char>, p: spec_fn(char) -> bool, off: int, i: int)
    requires
        0 <= off <= s.len(),
        0 <= i,
    ensures
        skip_while(s.skip(off), p, i) + off == skip_while(s, p, off + i),
    decreases s.len() - off - i,
{
    if i < s.len() - off {
        assert(s.skip(off)[i] == s[off + i]);
        if p(s[off + i]) {
            lemma_skip_while_shift(s, p, off, i + 1);
        }
    }
}

/// The index of the first whitespace character at or after `from` (the
/// length when there is none).
pub fn find_ws(v: &[char], from: usize) -> (i: usize)
    requires
        from <= v@.len(),
    ensures
        from <= i <= v@.len(),
        i as int == skip_while(v@, not_ws(), from as int),
{
    let mut i = from;
    while i < v.len() && !is_whitespace(v[i])
        invariant
            from <= i <= v@.len(),
            skip_while(v@, not_ws(), i as int) == skip_while(v@, not_ws(), from as int),
        decreases v@.len() - i,
    {
        i = i + 1;
    }
    i
}

/// `skip_while` stops at the first character not satisfying `p`.
pub proof fn lemma_skip_while_at(s: Seq<char>, p: spec_fn(char) -> bool, i: int, n: int)
    requires
        0 <= i <= n <= s.len(),
        forall|k: int| i <= k < n ==> #[trigger] p(s[k]),
        n < s.len() ==> !p(s[n]),
    ensures
        skip_while(s, p, i) == n,
    decreases n - i,
{
    if i < n {
        lemma_skip_while_at(s, p, i + 1, n);
    }
}

/// The index of the first non-whitespace character at or after `from`.
pub fn skip_ws(v: &[char], from: usize) -> (i: usize)
    requires
        from <= v@.len(),
    ensures
        from <= i <= v@.len(),
        i as int == skip_while(v@, ws(), from as int),
{
    let mut i = from;
    while i < v.len() && is_whitespace(v[i])
        invariant
            from <= i <= v@.len(),
            skip_while(v@, ws(), i as int) == skip_while(v@, ws(), from as int),
        decreases v@.len() - i,
    {
        i = i + 1;
    }
    i
}

/// Counting down from `to`, the end of the last non-whitespace character.
pub fn back_ws(v: &[char], to: usize) -> (j: usize)
    requires
        to <= v@.len(),
    ensures
        j <= to,
        j as int == back_while(v@, ws(), to as int),
{
    let mut j = to;
    while j > 0 && is_whitespace(v[j - 1])
        invariant
            j <= to <= v@.len(),
            back_while(v@, ws(), j as int) == back_while(v@, ws(), to as int),
        decreases j,
    {
        j = j - 1;
    }
    j
}

/// The index of the first character at or after `from` that is not `x`.
pub fn skip_char(v: &[char], x: char, from: usize) -> (i: usize)
    requires
        from <= v@.len(),
    ensures
        from <= i <= v@.len(),
        i as int == skip_while(v@, is_char(x), from as int),
{
    let mut i = from;
    while i < v.len() && v[i] == x
        invariant
            from <= i <= v@.len(),
            skip_while(v@, is_char(x), i as int) == skip_while(v@, is_char(x), from as int),
        decreases v@.len() - i,
    {
        i = i + 1;
    }
    i
}

/// Counting down from `to`, the end of the last character that is not `x`.
pub fn back_char(v: &[char], x: char, to: usize) -> (j: usize)
    requires
        to <= v@.len(),
    ensures
        j <= to,
        j as int == back_while(v@, is_char(x), to as int),
{
    let mut j = to;
    while j > 0 && v[j - 1] == x
        invariant
            j <= to <= v@.len(),
            back_while(v@, is_char(x), j as int) == back_while(v@, is_char(x), to as int),
        decreases j,
    {
        j = j - 1;
    }
    j
}

/// `str::trim`, on characters.
pub fn trim_chars(v: &[char]) -> (r: Vec<char>)
    ensures
        r@ == trim(v@),
{
    let a = skip_ws(v, 0);
    let rest = slice_vec(v, a, v.len());
    let b = back_ws(&rest, rest.len());
    slice_vec(&rest, 0, b)
}

/// `str::trim_matches` with a single character, on characters.
pub fn trim_char_chars(v: &[char], x: char) -> (r: Vec<char>)
    ensures
        r@ == trim_by(v@, is_char(x)),
{
    let a = skip_char(v, x, 0);
    let rest = slice_vec(v, a, v.len());
    let b = back_char(&rest, x, rest.len());
    slice_vec(&rest, 0, b)
}

/// A copy of `v[from..to]`.
pub fn slice_vec(v: &[char], from: usize, to: usize) -> (r: Vec<char>)
    requires
        from <= to <= v@.len(),
    ensures
        r@ == v@.subrange(from as int, to as int),
{
    let mut r: Vec<char> = Vec::new();
    let mut i: usize = from;
    while i < to
        invariant
            from <= i <= to <= v@.len(),
            r@ == v@.subrange(from as int, i as int),
        decreases to - i,
    {
        r.push(v[i]);
        i = i + 1;
        assert(v@.subrange(from as int, i as int) == v@.subrange(from as int, i - 1).push(
            v@[i - 1],
        ));
    }
    r
}


// ---------------------------------------------------------------- sets of characters

pub open spec fn in_set(set: Seq<char>) -> spec_fn(char) -> bool {
    |c: char| set.contains(c)
}

pub open spec fn not_in_set(set: Seq<char>) -> spec_fn(char) -> bool {
    |c: char| !set.contains(c)
}

pub fn set_contains(set: &[char], c: char) -> (b: bool)
    ensures
        b == set@.contains(c),
{
    let mut i: usize = 0;
    while i < set.len()
        invariant
            i <= set@.len(),
            forall|k: int| 0 <= k < i ==> set@[k] != c,
        decreases set@.len() - i,
    {
        if set[i] == c {
            assert(set@[i as int] == c);
            return true;
        }
        i = i + 1;
    }
    false
}

/// The index of the first character at or after `from` that is in `set`
/// (the length when there is none).
pub fn find_any(v: &[char], set: &[char], from: usize) -> (i: usize)
    requires
        from <= v@.len(),
    ensures
        from <= i <= v@.len(),
        i as int == skip_while(v@, not_in_set(set@), from as int),
{
    let mut i = from;
    while i < v.len() && !set_contains(set, v[i])
        invariant
            from <= i <= v@.len(),
            skip_while(v@, not_in_set(set@), i as int) == skip_while(
                v@,
                not_in_set(set@),
                from as int,
            ),
        decreases v@.len() - i,
    {
        i = i + 1;
    }
    i
}

/// Counting down from `to`, the position just after the last character in
/// `set` (0 when there is none).
pub fn rfind_any(v: &[char], set: &[char], to: usize) -> (j: usize)
    requires
        to <= v@.len(),
    ensures
        j <= to,
        j as int == back_while(v@, not_in_set(set@), to as int),
{
    let mut j = to;
    while j > 0 && !set_contains(set, v[j - 1])
        invariant
            j <= to <= v@.len(),
            back_while(v@, not_in_set(set@), j as int) == back_while(
                v@,
                not_in_set(set@),
                to as int,
            ),
        decreases j,
    {
        j = j - 1;
    }
    j
}

/// The characters of `s` before the first one in `set` (all of `s` when none
/// is): what `s.split(set).next()` yields.
pub open spec fn before_any(s: Seq<char>, set: Seq<char>) -> Seq<char> {
    s.take(skip_while(s, not_in_set(set), 0))
}

/// The characters of `s` after the last one in `set` (all of `s` when none
/// is): what `s.rsplit(set).next()` yields.
pub open spec fn after_last_any(s: Seq<char>, set: Seq<char>) -> Seq<char> {
    s.skip(back_while(s, not_in_set(set), s.len() as int))
}

// ---------------------------------------------------------------- substrings

/// Whether `pat` occurs in `s` starting at `i`.
pub open spec fn matches_at(s: Seq<char>, pat: Seq<char>, i: int) -> bool {
    0 <= i && i + pat.len() <= s.len() && s.subrange(i, i + pat.len()) == pat
}

/// The first position at or after `i` where `pat` occurs in `s`.
pub open spec fn find_from(s: Seq<char>, pat: Seq<char>, i: int) -> Option<int>
    decreases s.len() + 1 - i,
{
    if i < 0 || i + pat.len() > s.len() {
        None
    } else if matches_at(s, pat, i) {
        Some(i)
    } else {
        find_from(s, pat, i + 1)
    }
}

pub proof fn lemma_find_from(s: Seq<char>, pat: Seq<char>, i: int)
    requires
        0 <= i,
    ensures
        find_from(s, pat, i) matches Some(k) ==> i <= k && matches_at(s, pat, k) && forall|
            m: int,
        |
            i <= m < k ==> !#[trigger] matches_at(s, pat, m),
        find_from(s, pat, i) is None ==> forall|m: int| i <= m ==> !#[trigger] matches_at(s, pat, m),
    decreases s.len() + 1 - i,
{
    if i + pat.len() > s.len() {
    } else if matches_at(s, pat, i) {
    } else {
        lemma_find_from(s, pat, i + 1);
    }
}

/// Whether `pat` occurs in `v` at `i`.
pub fn matches_at_exec(v: &[char], pat: &[char], i: usize) -> (b: bool)
    ensures
        b == matches_at(v@, pat@, i as int),
{
    let n = pat.len();
    if i > v.len() || n > v.len() - i {
        return false;
    }
    let mut k: usize = 0;
    while k < n
        invariant
            n == pat@.len(),
            i + n <= v@.len(),
            v@.len() == v.len(),
            k <= pat@.len(),
            forall|m: int| 0 <= m < k ==> v@[i + m] == pat@[m],
        decreases pat@.len() - k,
    {
        if v[i + k] != pat[k] {
            assert(v@.subrange(i as int, i + pat@.len())[k as int] != pat@[k as int]);
            return false;
        }
        k = k + 1;
    }
    assert(v@.subrange(i as int, i + pat@.len()) == pat@);
    true
}

/// `str::find` from position `from`, on characters.
pub fn find_at(v: &[char], pat: &[char], from: usize) -> (r: Option<usize>)
    ensures
        r matches Some(k) ==> find_from(v@, pat@, from as int) == Some(k as int),
        r is None ==> find_from(v@, pat@, from as int) is None,
{
    if pat.len() == 0 {
        if from <= v.len() {
            assert(v@.subrange(from as int, from as int) == pat@);
            return Some(from);
        }
        return None;
    }
    let mut i = from;
    while i <= v.len() && pat.len() <= v.len() - i
        invariant
            from <= i,
            pat@.len() > 0,
            find_from(v@, pat@, i as int) == find_from(v@, pat@, from as int),
        decreases v@.len() + 1 - i,
    {
        if matches_at_exec(v, pat, i) {
            return Some(i);
        }
        i = i + 1;
    }
    None
}

/// `s` with every non-overlapping occurrence of `pat`, scanning left to
/// right, replaced by `rep`: `str::replace`.
pub open spec fn replace(s: Seq<char>, pat: Seq<char>, rep: Seq<char>) -> Seq<char>
    decreases s.len(),
{
    if pat.len() == 0 || s.len() < pat.len() {
        s
    } else if s.take(pat.len() as int) == pat {
        rep + replace(s.skip(pat.len() as int), pat, rep)
    } else {
        seq![s[0]] + replace(s.skip(1), pat, rep)
    }
}

/// The number of non-overlapping occurrences of `pat` in `s`, scanning left
/// to right: `str::matches(pat).count()`.
pub open spec fn count_matches(s: Seq<char>, pat: Seq<char>) -> nat
    decreases s.len(),
{
    if pat.len() == 0 || s.len() < pat.len() {
        0
    } else if s.take(pat.len() as int) == pat {
        1 + count_matches(s.skip(pat.len() as int), pat)
    } else {
        count_matches(s.skip(1), pat)
    }
}

/// `s` with its first occurrence of `pat` replaced by `rep`:
/// `str::replacen(pat, rep, 1)`.
pub open spec fn replace_first(s: Seq<char>, pat: Seq<char>, rep: Seq<char>) -> Seq<char> {
    match find_from(s, pat, 0) {
        Some(i) => s.take(i) + rep + s.skip(i + pat.len()),
        None => s,
    }
}

/// Replacing the first occurrence keeps everything around it: the text
/// before the first place `pat` occurs, then `rep`, then all of the text after
/// that occurrence, so the length changes by exactly `rep.len() - pat.len()`;
/// and text in which `pat` does not occur is left as it is.
pub proof fn replacing_the_first_keeps_the_rest(s: Seq<char>, pat: Seq<char>, rep: Seq<char>, i: int)
    ensures
        (matches_at(s, pat, i) && forall|j: int| 0 <= j < i ==> !#[trigger] matches_at(s, pat, j))
            ==> {
            let r = replace_first(s, pat, rep);
            &&& r.len() == s.len() - pat.len() + rep.len()
            &&& r.subrange(0, i) == s.subrange(0, i)
            &&& r.subrange(i, i + rep.len()) == rep
            &&& r.subrange(i + rep.len(), r.len() as int) == s.subrange(i + pat.len(), s.len() as int)
        },
        (forall|j: int| !#[trigger] matches_at(s, pat, j)) ==> replace_first(s, pat, rep) == s,
{
    lemma_find_from(s, pat, 0);
    if matches_at(s, pat, i) && forall|j: int| 0 <= j < i ==> !#[trigger] matches_at(s, pat, j) {
        let k = find_from(s, pat, 0)->0;
        if k < i {
            assert(!matches_at(s, pat, k));
        }
        if k > i {
            assert(!matches_at(s, pat, i));
        }
        let r = replace_first(s, pat, rep);
        assert(r == s.take(i) + rep + s.skip(i + pat.len()));
        assert(r.subrange(0, i) == s.subrange(0, i));
        assert(r.subrange(i, i + rep.len()) == rep);
        assert(r.subrange(i + rep.len(), r.len() as int) == s.subrange(i + pat.len(), s.len() as int));
    }
    if forall|j: int| !#[trigger] matches_at(s, pat, j) {
        if find_from(s, pat, 0) is Some {
            let k = find_from(s, pat, 0)->0;
            assert(matches_at(s, pat, k));
        }
    }
}

proof fn lemma_replace_step(s: Seq<char>, pat: Seq<char>, rep: Seq<char>, i: int)
    requires
        pat.len() > 0,
        0 <= i < s.len(),
    ensures
        matches_at(s, pat, i) ==> replace(s.skip(i), pat, rep) == rep + replace(
            s.skip(i + pat.len()),
            pat,
            rep,
        ),
        !matches_at(s, pat, i) ==> replace(s.skip(i), pat, rep) == seq![s[i]] + replace(
            s.skip(i + 1),
            pat,
            rep,
        ),
        matches_at(s, pat, i) ==> count_matches(s.skip(i), pat) == 1 + count_matches(
            s.skip(i + pat.len()),
            pat,
        ),
        !matches_at(s, pat, i) ==> count_matches(s.skip(i), pat) == count_matches(
            s.skip(i + 1),
            pat,
        ),
{
    let t = s.skip(i);
    assert(t.skip(1) == s.skip(i + 1));
    if i + pat.len() <= s.len() {
        assert(t.skip(pat.len() as int) == s.skip(i + pat.len()));
        assert(t.take(pat.len() as int) == s.subrange(i, i + pat.len()));
    } else {
        assert(replace(s.skip(i + 1), pat, rep) == s.skip(i + 1));
        assert(t == seq![s[i]] + s.skip(i + 1));
    }
}

/// A pattern that occurs nowhere is replaced nowhere.
pub proof fn lemma_replace_absent(s: Seq<char>, pat: Seq<char>, rep: Seq<char>)
    requires
        forall|i: int| !#[trigger] matches_at(s, pat, i),
    ensures
        replace(s, pat, rep) == s,
    decreases s.len(),
{
    if pat.len() == 0 || s.len() < pat.len() {
    } else {
        assert(s.take(pat.len() as int) == s.subrange(0, pat.len() as int));
        assert(!matches_at(s, pat, 0));
        let t = s.skip(1);
        assert forall|i: int| !#[trigger] matches_at(t, pat, i) by {
            if matches_at(t, pat, i) {
                assert(s.subrange(i + 1, i + 1 + pat.len()) == t.subrange(i, i + pat.len()));
                assert(matches_at(s, pat, i + 1));
            }
        }
        lemma_replace_absent(t, pat, rep);
        assert(seq![s[0]] + t == s);
    }
}

/// Replacing in `pat + rest` replaces the leading occurrence and carries on.
pub proof fn lemma_replace_leading(pat: Seq<char>, rest: Seq<char>, rep: Seq<char>)
    requires
        pat.len() > 0,
    ensures
        replace(pat + rest, pat, rep) == rep + replace(rest, pat, rep),
{
    let s = pat + rest;
    assert(s.take(pat.len() as int) == pat);
    assert(s.skip(pat.len() as int) == rest);
}

/// Replacing in `c + rest`, where `c` cannot begin the pattern, keeps `c`.
pub proof fn lemma_replace_other(c: char, rest: Seq<char>, pat: Seq<char>, rep: Seq<char>)
    requires
        pat.len() > 0,
        pat[0] != c,
    ensures
        replace(seq![c] + rest, pat, rep) == seq![c] + replace(rest, pat, rep),
{
    let s = seq![c] + rest;
    assert(s.skip(1) == rest);
    if s.len() < pat.len() {
        assert(replace(rest, pat, rep) == rest);
    } else {
        assert(s.take(pat.len() as int)[0] == c);
    }
}

/// `str::replace`, on characters.
pub fn replace_all(v: &[char], pat: &[char], rep: &[char]) -> (r: Vec<char>)
    requires
        pat@.len() > 0,
    ensures
        r@ == replace(v@, pat@, rep@),
{
    let mut r: Vec<char> = Vec::new();
    let mut i: usize = 0;
    assert(v@.skip(0) == v@);
    while i < v.len()
        invariant
            pat@.len() > 0,
            i <= v@.len(),
            r@ + replace(v@.skip(i as int), pat@, rep@) == replace(v@, pat@, rep@),
        decreases v@.len() - i,
    {
        proof {
            lemma_replace_step(v@, pat@, rep@, i as int);
        }
        if matches_at_exec(v, pat, i) {
            let mut k: usize = 0;
            let ghost r0 = r@;
            while k < rep.len()
                invariant
                    k <= rep@.len(),
                    r@ == r0 + rep@.take(k as int),
                decreases rep@.len() - k,
            {
                r.push(rep[k]);
                k = k + 1;
                assert(rep@.take(k as int) == rep@.take(k - 1).push(rep@[k - 1]));
            }
            assert(rep@.take(rep@.len() as int) == rep@);
            assert(r0 + (rep@ + replace(v@.skip(i + pat@.len()), pat@, rep@)) == r@ + replace(
                v@.skip(i + pat@.len()),
                pat@,
                rep@,
            ));
            i = i + pat.len();
        } else {
            let ghost r0 = r@;
            r.push(v[i]);
            assert(r0 + (seq![v@[i as int]] + replace(v@.skip(i + 1), pat@, rep@)) == r@
                + replace(v@.skip(i + 1), pat@, rep@));
            i = i + 1;
        }
    }
    assert(replace(v@.skip(i as int), pat@, rep@) == Seq::<char>::empty());
    assert(r@ + Seq::<char>::empty() == r@);
    r
}

/// `str::matches(pat).count()`, on characters.
pub fn count_occurrences(v: &[char], pat: &[char]) -> (n: usize)
    requires
        pat@.len() > 0,
    ensures
        n as nat == count_matches(v@, pat@),
{
    let mut n: usize = 0;
    let mut i: usize = 0;
    assert(v@.skip(0) == v@);
    while i < v.len()
        invariant
            pat@.len() > 0,
            i <= v@.len(),
            n + count_matches(v@.skip(i as int), pat@) == count_matches(v@, pat@),
            n <= i,
        decreases v@.len() - i,
    {
        proof {
            lemma_replace_step(v@, pat@, Seq::<char>::empty(), i as int);
        }
        if matches_at_exec(v, pat, i) {
            n = n + 1;
            i = i + pat.len();
        } else {
            i = i + 1;
        }
    }
    n
}

// ---------------------------------------------------------------- prefixes and suffixes

pub open spec fn starts_with(s: Seq<char>, p: Seq<char>) -> bool {
    p.len() <= s.len() && s.take(p.len() as int) == p
}

pub open spec fn ends_with(s: Seq<char>, p: Seq<char>) -> bool {
    p.len() <= s.len() && s.skip(s.len() - p.len()) == p
}

pub fn starts_with_exec(v: &[char], p: &[char]) -> (b: bool)
    ensures
        b == starts_with(v@, p@),
{
    let b = matches_at_exec(v, p, 0);
    assert(b ==> v@.subrange(0, p@.len() as int) == v@.take(p@.len() as int));
    assert(starts_with(v@, p@) ==> v@.subrange(0, p@.len() as int) == v@.take(p@.len() as int));
    b
}

pub fn ends_with_exec(v: &[char], p: &[char]) -> (b: bool)
    ensures
        b == ends_with(v@, p@),
{
    if p.len() > v.len() {
        return false;
    }
    let b = matches_at_exec(v, p, v.len() - p.len());
    assert(v@.subrange(v@.len() - p@.len(), v@.len() as int) == v@.skip(v@.len() - p@.len()));
    b
}

/// `s` with `pat` repeatedly stripped from its end: `str::trim_end_matches`
/// with a string pattern.
pub open spec fn strip_suffix_all(s: Seq<char>, pat: Seq<char>) -> Seq<char>
    decreases s.len(),
{
    if pat.len() > 0 && ends_with(s, pat) {
        strip_suffix_all(s.take(s.len() - pat.len()), pat)
    } else {
        s
    }
}

/// `str::trim_end_matches` with a string pattern, on characters.
pub fn strip_suffix_all_exec(v: &[char], pat: &[char]) -> (r: Vec<char>)
    ensures
        r@ == strip_suffix_all(v@, pat@),
{
    let mut end = v.len();
    let mut cur = slice_vec(v, 0, end);
    assert(v@.subrange(0, v@.len() as int) == v@);
    assert(v@.take(v@.len() as int) == v@);
    while pat.len() > 0 && ends_with_exec(&cur, pat)
        invariant
            end <= v@.len(),
            cur@ == v@.take(end as int),
            strip_suffix_all(cur@, pat@) == strip_suffix_all(v@, pat@),
        decreases end,
    {
        end = end - pat.len();
        assert(cur@.take(cur@.len() - pat@.len()) == v@.take(end as int));
        cur = slice_vec(v, 0, end);
    }
    assert(v@.take(v@.len() as int) == v@);
    cur
}

/// Whether `a` and `b` hold the same characters.
pub fn eq_chars(a: &[char], b: &[char]) -> (r: bool)
    ensures
        r == (a@ == b@),
{
    if a.len() != b.len() {
        return false;
    }
    let r = matches_at_exec(a, b, 0);
    assert(a@.subrange(0, b@.len() as int) == a@);
    r
}

/// Whether `c` occurs in `v`.
pub fn contains_char(v: &[char], c: char) -> (b: bool)
    ensures
        b == v@.contains(c),
{
    set_contains(v, c)
}

// ---------------------------------------------------------------- numbers

pub open spec fn digit_char(d: nat) -> char {
    (('0' as u32) + d) as char
}

/// The decimal digits of `n`, most significant first, with no leading zeros.
pub open spec fn decimal(n: nat) -> Seq<char>
    decreases n,
{
    if n < 10 {
        seq![digit_char(n)]
    } else {
        decimal(n / 10).push(digit_char(n % 10))
    }
}

/// Append the decimal digits of `n` to `s`.
pub fn push_decimal(s: &mut String, n: u64)
    ensures
        final(s)@ == old(s)@ + decimal(n as nat),
    decreases n,
{
    if n >= 10 {
        push_decimal(s, n / 10);
    }
    let d: u8 = (n % 10) as u8;
    s.push((48u8 + d) as char);
}

pub open spec fn hex_digit(d: nat) -> char {
    if d < 10 {
        (('0' as u32) + d) as char
    } else {
        (('a' as u32) + d - 10) as char
    }
}

/// Each byte as two lowercase hex digits, high nibble first: what
/// `format!("{b:02x}")` gives, byte by byte.
pub open spec fn hex(bytes: Seq<u8>) -> Seq<char>
    decreases bytes.len(),
{
    if bytes.len() == 0 {
        Seq::empty()
    } else {
        hex(bytes.drop_last()) + seq![
            hex_digit((bytes.last() / 16) as nat),
            hex_digit((bytes.last() % 16) as nat),
        ]
    }
}

pub proof fn lemma_hex_len(bytes: Seq<u8>)
    ensures
        hex(bytes).len() == 2 * bytes.len(),
    decreases bytes.len(),
{
    if bytes.len() > 0 {
        lemma_hex_len(bytes.drop_last());
    }
}

fn hex_digit_exec(d: u8) -> (c: char)
    requires
        d < 16,
    ensures
        c == hex_digit(d as nat),
{
    if d < 10 {
        (48u8 + d) as char
    } else {
        (97u8 + d - 10) as char
    }
}

/// The lowercase hex encoding of `bytes`.
pub fn hex_encode(bytes: &[u8]) -> (s: String)
    ensures
        s@ == hex(bytes@),
        s@.len() == 2 * bytes@.len(),
{
    let mut s = String::new();
    let mut i: usize = 0;
    while i < bytes.len()
        invariant
            i <= bytes@.len(),
            s@ == hex(bytes@.take(i as int)),
        decreases bytes@.len() - i,
    {
        let b = bytes[i];
        s.push(hex_digit_exec(b / 16));
        s.push(hex_digit_exec(b % 16));
        i = i + 1;
        assert(bytes@.take(i as int).drop_last() == bytes@.take(i - 1));
    }
    assert(bytes@.take(bytes@.len() as int) == bytes@);
    proof {
        lemma_hex_len(bytes@);
    }
    s
}
} // verus!
