//! Vault-relative paths and folder prefixes: normalised, and refused when
//! their shape is unsafe or meaningless.
use vstd::prelude::*;
use crate::text::{
    chars_of, concat, contains_char, ends_with, ends_with_exec, find_any, is_char,
    lemma_skip_while_bounds, lemma_skip_while_shift, not_in_set, skip_char, skip_while, slice_vec,
    string_of, trim, trim_chars, trim_by, trim_char_chars, trim_start_by,
};

verus! {

/// A segment that names nothing, or walks upward: empty, `.` or `..`.
pub open spec fn bad_segment(seg: Seq<char>) -> bool {
    seg.len() == 0 || seg == seq!['.'] || seg == seq!['.', '.']
}

/// Whether some `/`-separated segment of `s` is empty, `.` or `..`: what
/// `s.split('/').any(|seg| seg.is_empty() || seg == "." || seg == "..")`
/// decides.
pub open spec fn has_bad_segment(s: Seq<char>) -> bool
    decreases s.len(),
{
    let k = skip_while(s, not_in_set(seq!['/']), 0);
    if k >= s.len() {
        bad_segment(s)
    } else {
        proof {
            lemma_skip_while_bounds(s, not_in_set(seq!['/']), 0);
        }
        bad_segment(s.take(k)) || has_bad_segment(s.skip(k + 1))
    }
}

fn bad_segment_exec(v: &[char], from: usize, to: usize) -> (b: bool)
    requires
        from <= to <= v@.len(),
    ensures
        b == bad_segment(v@.subrange(from as int, to as int)),
{
    let n = to - from;
    let ghost seg = v@.subrange(from as int, to as int);
    if n == 0 {
        return true;
    }
    if n == 1 {
        assert(seg == seq![v@[from as int]]);
        assert(seg == seq!['.'] ==> seg[0] == '.');
        return v[from] == '.';
    }
    if n == 2 {
        assert(seg == seq![v@[from as int], v@[from + 1]]);
        assert(seg == seq!['.', '.'] ==> seg[0] == '.' && seg[1] == '.');
        return v[from] == '.' && v[from + 1] == '.';
    }
    assert(v@.subrange(from as int, to as int).len() != 1);
    assert(v@.subrange(from as int, to as int).len() != 2);
    false
}

/// Whether some `/`-separated segment of `v` is empty, `.` or `..`.
pub fn has_bad_segment_exec(v: &[char]) -> (b: bool)
    ensures
        b == has_bad_segment(v@),
{
    let slash = vec!['/'];
    assert(slash@ == seq!['/']);
    let mut start: usize = 0;
    assert(v@.skip(0) == v@);
    loop
        invariant
            slash@ == seq!['/'],
            start <= v@.len(),
            has_bad_segment(v@.skip(start as int)) == has_bad_segment(v@),
        decreases v@.len() - start,
    {
        let k = find_any(v, &slash, start);
        proof {
            lemma_skip_while_shift(v@, not_in_set(seq!['/']), start as int, 0);
        }
        let ghost rest = v@.skip(start as int);
        assert(skip_while(rest, not_in_set(seq!['/']), 0) == k - start);
        if bad_segment_exec(v, start, k) {
            assert(rest.take(k - start) == v@.subrange(start as int, k as int));
            if k < v.len() {
            } else {
                assert(rest == v@.subrange(start as int, k as int));
            }
            return true;
        }
        if k == v.len() {
            assert(rest == v@.subrange(start as int, k as int));
            return false;
        }
        assert(rest.take(k - start) == v@.subrange(start as int, k as int));
        assert(rest.skip(k - start + 1) == v@.skip(k + 1));
        start = k + 1;
    }
}

/// Why a vault-relative path was refused.
#[derive(Debug, Clone, Copy, PartialEq, Eq)]
pub enum PathError {
    Empty,
    TrailingSlash,
    IllegalChar,
    BadSegment,
}

impl PathError {
    /// The message an agent is shown.
    pub fn message(&self) -> (m: String)
        ensures
            m@ == match self {
                PathError::Empty => "path is empty"@,
                PathError::TrailingSlash => "path must not end with '/'"@,
                PathError::IllegalChar => "path contains an illegal character (NUL or '\\')"@,
                PathError::BadSegment => "path contains an empty or relative ('.', '..') segment"@,
            },
    {
        match self {
            PathError::Empty => "path is empty".to_owned(),
            PathError::TrailingSlash => "path must not end with '/'".to_owned(),
            PathError::IllegalChar => "path contains an illegal character (NUL or '\\')".to_owned(),
            PathError::BadSegment => "path contains an empty or relative ('.', '..') segment".to_owned(),
        }
    }
}

/// A vault-relative path normalised — surrounding whitespace trimmed, then
/// leading slashes stripped — or the reason it is refused: empty, a trailing
/// slash, a NUL or backslash, or an empty, `.` or `..` segment.
pub open spec fn clean_path_spec(raw: Seq<char>) -> Result<Seq<char>, PathError> {
    let t = trim_start_by(trim(raw), is_char('/'));
    if t.len() == 0 {
        Err(PathError::Empty)
    } else if ends_with(t, seq!['/']) {
        Err(PathError::TrailingSlash)
    } else if t.contains('\0') || t.contains('\\') {
        Err(PathError::IllegalChar)
    } else if has_bad_segment(t) {
        Err(PathError::BadSegment)
    } else {
        Ok(t)
    }
}

/// Normalize and validate a vault-relative path.
///
/// Leading slashes are stripped rather than rejected — agents produce them
/// routinely and the result is unambiguous. Genuinely unsafe or meaningless
/// shapes are refused: `..` traversal, NUL, backslashes (which would read as
/// a literal key character, not a separator), empty segments, and a trailing
/// slash.
pub fn clean_path(raw: &str) -> (r: Result<String, PathError>)
    ensures
        match r {
            Ok(p) => clean_path_spec(raw@) == Ok::<Seq<char>, PathError>(p@),
            Err(e) => clean_path_spec(raw@) == Err::<Seq<char>, PathError>(e),
        },
{
    let v = chars_of(raw);
    let t0 = trim_chars(&v);
    let a = skip_char(&t0, '/', 0);
    let t = slice_vec(&t0, a, t0.len());
    assert(t@ == trim_start_by(trim(raw@), is_char('/')));
    if t.len() == 0 {
        return Err(PathError::Empty);
    }
    let slash = vec!['/'];
    assert(slash@ == seq!['/']);
    if ends_with_exec(&t, &slash) {
        return Err(PathError::TrailingSlash);
    }
    if contains_char(&t, '\0') || contains_char(&t, '\\') {
        return Err(PathError::IllegalChar);
    }
    if has_bad_segment_exec(&t) {
        return Err(PathError::BadSegment);
    }
    Ok(string_of(&t))
}

/// A note path: as `clean_path_spec`, plus the `.md` extension the app
/// assumes when it is missing.
pub open spec fn clean_note_path_spec(raw: Seq<char>) -> Result<Seq<char>, PathError> {
    match clean_path_spec(raw) {
        Ok(p) => Ok(
            if ends_with(p, ".md"@) {
                p
            } else {
                p + ".md"@
            },
        ),
        Err(e) => Err(e),
    }
}

/// A note path — as `clean_path`, plus the `.md` extension.
pub fn clean_note_path(raw: &str) -> (r: Result<String, PathError>)
    ensures
        match r {
            Ok(p) => clean_note_path_spec(raw@) == Ok::<Seq<char>, PathError>(p@),
            Err(e) => clean_note_path_spec(raw@) == Err::<Seq<char>, PathError>(e),
        },
{
    let p = clean_path(raw)?;
    let v = chars_of(p.as_str());
    let md = chars_of(".md");
    if ends_with_exec(&v, &md) {
        Ok(p)
    } else {
        Ok(concat(p.as_str(), ".md"))
    }
}

/// A folder prefix within the vault: `""` for the whole vault, else the
/// trimmed, slash-stripped folder followed by one `/`; refused like a path
/// when it holds a NUL or backslash, or an empty, `.` or `..` segment.
pub open spec fn clean_folder_spec(raw: Seq<char>) -> Result<Seq<char>, Seq<char>> {
    let t = trim_by(trim(raw), is_char('/'));
    if t.len() == 0 {
        Ok(Seq::empty())
    } else if t.contains('\0') || t.contains('\\') {
        Err("folder contains an illegal character (NUL or '\\')"@)
    } else if has_bad_segment(t) {
        Err("folder contains an empty or relative ('.', '..') segment"@)
    } else {
        Ok(t + seq!['/'])
    }
}

/// A folder prefix within the vault, normalized to either "" (whole vault)
/// or "segment/segment/". Rejects the same shapes `clean_path` does — this
/// becomes part of every note key the link touches.
pub fn clean_folder(raw: &str) -> (r: Result<String, String>)
    ensures
        match r {
            Ok(p) => clean_folder_spec(raw@) == Ok::<Seq<char>, Seq<char>>(p@),
            Err(e) => clean_folder_spec(raw@) == Err::<Seq<char>, Seq<char>>(e@),
        },
{
    let v = chars_of(raw);
    let t0 = trim_chars(&v);
    let t = trim_char_chars(&t0, '/');
    if t.len() == 0 {
        return Ok(String::new());
    }
    if contains_char(&t, '\0') || contains_char(&t, '\\') {
        return Err("folder contains an illegal character (NUL or '\\')".to_owned());
    }
    if has_bad_segment_exec(&t) {
        return Err("folder contains an empty or relative ('.', '..') segment".to_owned());
    }
    let mut s = string_of(&t);
    s.push('/');
    assert(t@.push('/') == t@ + seq!['/']);
    Ok(s)
}

} // verus!
