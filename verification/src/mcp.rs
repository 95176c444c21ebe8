//! The local MCP server's own rules: resource URIs, the bearer-token check,
//! the edit/append/list semantics of its note tools, change coalescing for
//! notifications, and what the Settings panel shows.
use vstd::prelude::*;
use crate::link::{random_bytes, str_opt};
use crate::text::{
    chars_of, concat, count_matches, count_occurrences, decimal, ends_with, find_at, find_from,
    hex, hex_encode, is_char, lemma_find_from, lemma_hex_len, lemma_skip_while_at, matches_at,
    not_in_set, push_decimal, push_str, replace, replace_all, replace_first, skip_char, skip_while,
    slice_vec, starts_with, starts_with_exec, string_of, trim, trim_chars, trim_by,
    trim_start_by, back_char, trim_end_by, ends_with_exec, find_any,
};
use vstd::utf8::encode_utf8_decode_utf8;
use vstd::string::StringSliceAdditionalSpecFns;

verus! {

// ============================ resources ============================

/// The resource URIs this server serves.
#[derive(Debug, Clone, PartialEq, Eq)]
pub enum ResourceUri {
    /// `vellum://vaults`
    Vaults,
    /// `vellum://{vault}/tree`
    Tree(String),
    /// `vellum://{vault}/notes/{path}`
    Note(String, String),
}

pub enum UriView {
    Vaults,
    Tree(Seq<char>),
    Note(Seq<char>, Seq<char>),
}

impl View for ResourceUri {
    type V = UriView;

    open spec fn view(&self) -> UriView {
        match self {
            ResourceUri::Vaults => UriView::Vaults,
            ResourceUri::Tree(v) => UriView::Tree(v@),
            ResourceUri::Note(v, p) => UriView::Note(v@, p@),
        }
    }
}

/// A `vellum://` URI read back: `vaults`; else a vault id up to the first
/// `/`, followed by `tree` or by `notes/` and a non-empty path.
pub open spec fn parse_uri_spec(uri: Seq<char>) -> Option<UriView> {
    if !starts_with(uri, "vellum://"@) {
        None
    } else {
        let rest = uri.skip("vellum://"@.len() as int);
        if rest == "vaults"@ {
            Some(UriView::Vaults)
        } else {
            let k = skip_while(rest, not_in_set(seq!['/']), 0);
            if k >= rest.len() {
                None
            } else {
                let vault = rest.take(k);
                let tail = rest.skip(k + 1);
                if tail == "tree"@ {
                    Some(UriView::Tree(vault))
                } else if !starts_with(tail, "notes/"@) {
                    None
                } else {
                    let path = tail.skip("notes/"@.len() as int);
                    if path.len() > 0 {
                        Some(UriView::Note(vault, path))
                    } else {
                        None
                    }
                }
            }
        }
    }
}

impl ResourceUri {
    /// Parse a `vellum://…` string.
    pub fn parse(uri: &str) -> (r: Option<ResourceUri>)
        ensures
            match r {
                Some(u) => parse_uri_spec(uri@) == Some(u@),
                None => parse_uri_spec(uri@) is None,
            },
    {
        proof {
            reveal_strlit("vellum://");
            reveal_strlit("notes/");
        }
        let u = chars_of(uri);
        let scheme = chars_of("vellum://");
        if !starts_with_exec(&u, &scheme) {
            return None;
        }
        let rest = slice_vec(&u, 9, u.len());
        let vaults = chars_of("vaults");
        if crate::text::eq_chars(&rest, &vaults) {
            return Some(ResourceUri::Vaults);
        }
        let slash = vec!['/'];
        assert(slash@ == seq!['/']);
        let k = find_any(&rest, &slash, 0);
        if k >= rest.len() {
            return None;
        }
        let vault = slice_vec(&rest, 0, k);
        let tail = slice_vec(&rest, k + 1, rest.len());
        assert(tail@ == rest@.skip(k + 1));
        let tree = chars_of("tree");
        if crate::text::eq_chars(&tail, &tree) {
            return Some(ResourceUri::Tree(string_of(&vault)));
        }
        let notes = chars_of("notes/");
        if !starts_with_exec(&tail, &notes) {
            return None;
        }
        let path = slice_vec(&tail, 6, tail.len());
        if path.len() > 0 {
            Some(ResourceUri::Note(string_of(&vault), string_of(&path)))
        } else {
            None
        }
    }
}

/// `vellum://{vault}/notes/{path}`
pub open spec fn note_uri_spec(vault: Seq<char>, path: Seq<char>) -> Seq<char> {
    "vellum://"@ + vault + "/notes/"@ + path
}

/// `vellum://{vault}/tree`
pub open spec fn tree_uri_spec(vault: Seq<char>) -> Seq<char> {
    "vellum://"@ + vault + "/tree"@
}

pub fn note_uri(vault: &str, path: &str) -> (r: String)
    ensures
        r@ == note_uri_spec(vault@, path@),
{
    let mut s = "vellum://".to_owned();
    push_str(&mut s, vault);
    push_str(&mut s, "/notes/");
    push_str(&mut s, path);
    s
}

pub fn tree_uri(vault: &str) -> (r: String)
    ensures
        r@ == tree_uri_spec(vault@),
{
    let mut s = "vellum://".to_owned();
    push_str(&mut s, vault);
    push_str(&mut s, "/tree");
    s
}

/// The URIs this server hands out read back as what they name: a note URI
/// as that vault and path, a tree URI as that vault — for any vault id
/// without a `/` and any non-empty note path.
pub proof fn resource_uris_round_trip(vault: Seq<char>, path: Seq<char>)
    requires
        !vault.contains('/'),
    ensures
        path.len() > 0 ==> parse_uri_spec(note_uri_spec(vault, path)) == Some(
            UriView::Note(vault, path),
        ),
        parse_uri_spec(tree_uri_spec(vault)) == Some(UriView::Tree(vault)),
{
    reveal_strlit("vellum://");
    reveal_strlit("/notes/");
    reveal_strlit("notes/");
    reveal_strlit("/tree");
    reveal_strlit("tree");
    reveal_strlit("vaults");
    let scheme = "vellum://"@;
    // note
    let n = note_uri_spec(vault, path);
    assert(n.take(9) == scheme);
    let rest = n.skip(9);
    assert(rest == vault + "/notes/"@ + path);
    assert(rest[vault.len() as int] == '/');
    assert(seq!['/'][0] == '/');
    assert(seq!['/'].contains('/'));
    assert forall|k: int| 0 <= k < vault.len() implies #[trigger] not_in_set(seq!['/'])(rest[k]) by {
        assert(rest[k] == vault[k]);
        if rest[k] == '/' {
            assert(vault.contains('/'));
        }
    }
    lemma_skip_while_at(rest, not_in_set(seq!['/']), 0, vault.len() as int);
    assert(rest.take(vault.len() as int) == vault);
    assert(rest.skip(vault.len() as int + 1) == "notes/"@ + path);
    assert(("notes/"@ + path).take(6) == "notes/"@);
    assert(("notes/"@ + path).skip(6) == path);
    assert(rest != "vaults"@) by {
        if rest == "vaults"@ {
            assert(rest.len() >= 7);
        }
    }
    assert("notes/"@ + path != "tree"@) by {
        if "notes/"@ + path == "tree"@ {
            assert(("notes/"@ + path)[0] == 'n');
        }
    }
    // tree
    let t = tree_uri_spec(vault);
    assert(t.take(9) == scheme);
    let trest = t.skip(9);
    assert(trest == vault + "/tree"@);
    assert(trest[vault.len() as int] == '/');
    assert(seq!['/'][0] == '/');
    assert(seq!['/'].contains('/'));
    assert forall|k: int| 0 <= k < vault.len() implies #[trigger] not_in_set(seq!['/'])(trest[k]) by {
        assert(trest[k] == vault[k]);
        if trest[k] == '/' {
            assert(vault.contains('/'));
        }
    }
    lemma_skip_while_at(trest, not_in_set(seq!['/']), 0, vault.len() as int);
    assert(trest.take(vault.len() as int) == vault);
    assert(trest.skip(vault.len() as int + 1) == "tree"@);
    assert(trest != "vaults"@) by {
        if trest == "vaults"@ {
            assert(trest[vault.len() as int] == "vaults"@[vault.len() as int]);
        }
    }
}

// ============================ authentication ============================

/// Constant-time byte comparison: every byte pair is examined whatever the
/// earlier ones held. The length is not secret, so unequal lengths answer at
/// once.
pub fn ct_eq(a: &[u8], b: &[u8]) -> (r: bool)
    ensures
        r == (a@ == b@),
{
    if a.len() != b.len() {
        return false;
    }
    let mut acc: u8 = 0;
    let mut i: usize = 0;
    while i < a.len()
        invariant
            a@.len() == b@.len(),
            i <= a@.len(),
            (acc == 0) == (forall|k: int| 0 <= k < i ==> a@[k] == b@[k]),
        decreases a@.len() - i,
    {
        let x = a[i];
        let y = b[i];
        let d = x ^ y;
        assert((acc | d) == 0 <==> (acc == 0 && x == y)) by (bit_vector)
            requires
                d == x ^ y,
        ;
        acc = acc | d;
        i = i + 1;
    }
    assert(acc == 0 ==> a@ == b@);
    acc == 0
}

/// A 32-byte random token, hex-encoded.
pub fn new_token() -> (r: String)
    ensures
        r@.len() == 64,
        exists|b: Seq<u8>| b.len() == 32 && r@ == #[trigger] hex(b),
{
    let buf = random_bytes::<32>();
    hex_encode(&buf)
}

/// The token an `Authorization` header presents: what follows `Bearer `,
/// or nothing.
pub open spec fn presented_token(header: Option<Seq<char>>) -> Seq<char> {
    match header {
        Some(h) => if starts_with(h, "Bearer "@) {
            h.skip("Bearer "@.len() as int)
        } else {
            Seq::empty()
        },
        None => Seq::empty(),
    }
}

/// Whether a request's `Authorization` header carries exactly `token`,
/// compared in constant time.
pub fn bearer_authorized(header: Option<&str>, token: &str) -> (r: bool)
    ensures
        r == (presented_token(match header {
            Some(h) => Some(h@),
            None => None,
        }) == token@),
{
    proof {
        reveal_strlit("Bearer ");
    }
    let presented: String = match header {
        Some(h) => {
            let v = chars_of(h);
            let p = chars_of("Bearer ");
            if starts_with_exec(&v, &p) {
                string_of(&slice_vec(&v, 7, v.len()))
            } else {
                String::new()
            }
        },
        None => String::new(),
    };
    let r = ct_eq(presented.as_str().as_bytes(), token.as_bytes());
    proof {
        encode_utf8_decode_utf8(presented@);
        encode_utf8_decode_utf8(token@);
    }
    r
}

// ============================ note tools ============================

/// The soft-delete folder.
pub const TRASH: &'static str = ".trash";

/// The marker file that keeps an empty folder alive.
pub const KEEP: &'static str = ".keep";

/// Where a deleted note is moved to (before de-duplication).
pub fn trash_path(path: &str) -> (r: String)
    ensures
        r@ == ".trash/"@ + path@,
{
    concat(".trash/", path)
}

/// iroh-docs stamps entries in microseconds; agents are served unix
/// milliseconds.
pub fn ms(micros: u64) -> (r: u64)
    ensures
        r == micros / 1000,
{
    micros / 1000
}

/// The search limit: 20 unless asked, and never outside 1..=100.
pub fn search_limit(max: Option<usize>) -> (r: usize)
    ensures
        r == match max {
            Some(m) => if m < 1 {
                1
            } else if m > 100 {
                100
            } else {
                m
            },
            None => 20,
        },
{
    let m = match max {
        Some(m) => m,
        None => 20,
    };
    if m < 1 {
        1
    } else if m > 100 {
        100
    } else {
        m
    }
}

/// What appending `text` to a note holding `cur` gives: a newline first when
/// the note is non-empty and does not already end with one.
pub open spec fn appended_spec(cur: Seq<char>, text: Seq<char>) -> Seq<char> {
    if cur.len() == 0 || cur.last() == '\n' {
        cur + text
    } else {
        cur + seq!['\n'] + text
    }
}

/// Append to a note's text, so appended entries don't run together.
pub fn appended(cur: &str, text: &str) -> (r: String)
    ensures
        r@ == appended_spec(cur@, text@),
{
    let c = chars_of(cur);
    let mut s = cur.to_owned();
    if !(c.len() == 0 || c[c.len() - 1] == '\n') {
        s.push('\n');
    }
    push_str(&mut s, text);
    s
}

/// The outcome of an exact-string edit: the note's new text and how many
/// occurrences were replaced, or the message the agent is shown.
pub open spec fn edit_spec(
    cur: Option<Seq<char>>,
    path: Seq<char>,
    old: Seq<char>,
    new: Seq<char>,
    replace_all: bool,
) -> Result<(Seq<char>, nat), Seq<char>> {
    if old.len() == 0 {
        Err("old_string must not be empty"@)
    } else {
        match cur {
            None => Err("note not found (or its content hasn't synced yet): "@ + path),
            Some(c) => {
                let n = count_matches(c, old);
                if n == 0 {
                    Err("old_string not found in "@ + path)
                } else if n > 1 && !replace_all {
                    Err(
                        "old_string appears "@ + decimal(n) + " times in "@ + path
                            + "; pass replace_all or include more context"@,
                    )
                } else if replace_all {
                    Ok((replace(c, old, new), n))
                } else {
                    Ok((replace_first(c, old, new), 1))
                }
            },
        }
    }
}

/// Replace `old` with `new` in a note holding `cur` (`None` when the note
/// does not exist). Errors rather than guessing when `old` is missing, or
/// when it appears more than once and the caller didn't ask for
/// `replace_all`.
pub fn plan_edit(cur: Option<&str>, path: &str, old: &str, new: &str, replace_all: bool) -> (r:
    Result<(String, usize), String>)
    ensures
        match r {
            Ok((t, n)) => edit_spec(
                match cur {
                    Some(c) => Some(c@),
                    None => None,
                },
                path@,
                old@,
                new@,
                replace_all,
            ) == Ok::<(Seq<char>, nat), Seq<char>>((t@, n as nat)),
            Err(e) => edit_spec(
                match cur {
                    Some(c) => Some(c@),
                    None => None,
                },
                path@,
                old@,
                new@,
                replace_all,
            ) == Err::<(Seq<char>, nat), Seq<char>>(e@),
        },
{
    let o = chars_of(old);
    if o.len() == 0 {
        return Err("old_string must not be empty".to_owned());
    }
    let c = match cur {
        None => {
            return Err(concat("note not found (or its content hasn't synced yet): ", path));
        },
        Some(c) => chars_of(c),
    };
    let n = count_occurrences(&c, &o);
    if n == 0 {
        return Err(concat("old_string not found in ", path));
    }
    if n > 1 && !replace_all {
        let mut msg = "old_string appears ".to_owned();
        push_decimal(&mut msg, n as u64);
        push_str(&mut msg, " times in ");
        push_str(&mut msg, path);
        push_str(&mut msg, "; pass replace_all or include more context");
        return Err(msg);
    }
    let w = chars_of(new);
    if replace_all {
        let next = crate::text::replace_all(&c, &o, &w);
        Ok((string_of(&next), n))
    } else {
        let next = replace_first_exec(&c, &o, &w);
        Ok((string_of(&next), 1))
    }
}

/// A single-occurrence edit changes only that occurrence: when the note
/// holds `old` first at `i` and the edit succeeds without `replace_all`, the
/// new text is the note up to `i`, then `new`, then the rest of the note after
/// the occurrence, and one occurrence is reported.
pub proof fn an_edit_replaces_only_the_first_occurrence(
    cur: Seq<char>,
    path: Seq<char>,
    old: Seq<char>,
    new: Seq<char>,
    i: int,
)
    requires
        matches_at(cur, old, i),
        forall|j: int| 0 <= j < i ==> !#[trigger] matches_at(cur, old, j),
    ensures
        edit_spec(Some(cur), path, old, new, false) matches Ok((t, n)) ==> n == 1 && t == cur.subrange(
            0,
            i,
        ) + new + cur.subrange(i + old.len(), cur.len() as int),
{
    crate::text::replacing_the_first_keeps_the_rest(cur, old, new, i);
    let r = replace_first(cur, old, new);
    assert(r =~= r.subrange(0, i) + r.subrange(i, i + new.len()) + r.subrange(
        i + new.len(),
        r.len() as int,
    ));
}

fn replace_first_exec(v: &[char], pat: &[char], rep: &[char]) -> (r: Vec<char>)
    ensures
        r@ == replace_first(v@, pat@, rep@),
{
    match find_at(v, pat, 0) {
        None => slice_vec(v, 0, v.len()),
        Some(i) => {
            proof {
                lemma_find_from(v@, pat@, 0);
            }
            assert(matches_at(v@, pat@, i as int));
            let n = v.len();
            let mut r = slice_vec(v, 0, i);
            let mut k: usize = 0;
            let ghost r0 = r@;
            while k < rep.len()
                invariant
                    k <= rep@.len(),
                    r@ == r0 + rep@.take(k as int),
                decreases rep@.len() - k,
            {
                r.push(rep[k]);
                k = k + 1;
                assert(rep@.take(k as int) == rep@.take(k - 1).push(rep@[k - 1]));
            }
            assert(rep@.take(rep@.len() as int) == rep@);
            let tail = slice_vec(v, i + pat.len(), n);
            let mut j: usize = 0;
            let ghost r1 = r@;
            while j < tail.len()
                invariant
                    j <= tail@.len(),
                    r@ == r1 + tail@.take(j as int),
                decreases tail@.len() - j,
            {
                r.push(tail[j]);
                j = j + 1;
                assert(tail@.take(j as int) == tail@.take(j - 1).push(tail@[j - 1]));
            }
            assert(tail@.take(tail@.len() as int) == tail@);
            assert(v@.subrange(0, i as int) == v@.take(i as int));
            r
        },
    }
}

// ============================ listing ============================

/// A vault entry as the listing sees it.
#[derive(Debug, Clone)]
pub struct NoteEntry {
    pub path: String,
    /// Last modification, unix microseconds.
    pub modified_us: u64,
    /// Whether the vault counts it hidden (trash and the like).
    pub hidden: bool,
}

/// One listed note.
#[derive(Debug, Clone)]
pub struct NoteSummary {
    pub path: String,
    /// Last modification time, unix milliseconds.
    pub modified_ms: u64,
}

/// Whether a listing of `folder` opts into trashed notes: the folder names
/// somewhere under `.trash`.
pub open spec fn wants_trash(folder: Option<Seq<char>>) -> bool {
    match folder {
        Some(f) => starts_with(trim_start_by(f, is_char('/')), ".trash"@),
        None => false,
    }
}

/// The prefix a listing of `folder` keeps: the folder without surrounding
/// slashes, then one `/`.
pub open spec fn listing_prefix(f: Seq<char>) -> Seq<char> {
    trim_end_by(trim_start_by(f, is_char('/')), is_char('/')) + seq!['/']
}

/// Whether `e` is listed.
pub open spec fn listed(e: NoteEntry, folder: Option<Seq<char>>, since_ms: Option<u64>) -> bool {
    &&& wants_trash(folder) || !e.hidden
    &&& !ends_with(e.path@, ".keep"@)
    &&& !ends_with(e.path@, seq!['/'])
    &&& match folder {
        Some(f) => starts_with(e.path@, listing_prefix(f)),
        None => true,
    }
    &&& match since_ms {
        Some(s) => e.modified_us / 1000 >= s,
        None => true,
    }
}

/// A note is listed under a folder only if it lies inside it: its path
/// begins with the folder's name (without surrounding slashes) and the
/// character right after that name is `/`. A sibling folder whose name merely
/// begins the same way is not inside.
pub proof fn listed_notes_lie_inside_the_folder(e: NoteEntry, f: Seq<char>, since_ms: Option<u64>)
    ensures
        listed(e, Some(f), since_ms) ==> {
            let g = trim_end_by(trim_start_by(f, is_char('/')), is_char('/'));
            &&& e.path@.len() > g.len()
            &&& e.path@.subrange(0, g.len() as int) == g
            &&& e.path@[g.len() as int] == '/'
        },
{
    if listed(e, Some(f), since_ms) {
        let g = trim_end_by(trim_start_by(f, is_char('/')), is_char('/'));
        let p = listing_prefix(f);
        assert(p.len() == g.len() + 1);
        assert(e.path@.subrange(0, p.len() as int) == p);
        assert(p[g.len() as int] == '/');
        assert(e.path@[g.len() as int] == e.path@.subrange(0, p.len() as int)[g.len() as int]);
        assert(e.path@.subrange(0, g.len() as int) == p.subrange(0, g.len() as int));
        assert(p.subrange(0, g.len() as int) == g);
    }
}

pub open spec fn summary_of(e: NoteEntry) -> (Seq<char>, u64) {
    (e.path@, (e.modified_us / 1000) as u64)
}

/// A listing as (path, modification time) pairs.
pub open spec fn summaries(s: Seq<NoteSummary>) -> Seq<(Seq<char>, u64)> {
    s.map_values(|n: NoteSummary| (n.path@, n.modified_ms))
}

/// Whether a listing runs newest first.
pub open spec fn newest_first(s: Seq<(Seq<char>, u64)>) -> bool {
    forall|i: int, j: int| 0 <= i < j < s.len() ==> #[trigger] s[i].1 >= #[trigger] s[j].1
}

/// The notes of a listing, newest first: visible (or trashed, when the
/// folder asks for it), not a folder marker, under the folder, and modified
/// at or after `modified_since_ms`.
pub fn list_notes(entries: &Vec<NoteEntry>, folder: Option<&str>, modified_since_ms: Option<u64>) -> (r:
    Vec<NoteSummary>)
    ensures
        newest_first(summaries(r@)),
        summaries(r@).to_multiset() == entries@.filter(
            |e: NoteEntry| listed(e, str_opt(folder), modified_since_ms),
        ).map_values(|e: NoteEntry| summary_of(e)).to_multiset(),
{
    let listed_in_order = listed_notes(entries, folder, modified_since_ms);
    sort_newest_first(listed_in_order)
}

/// Sort summaries newest first; notes modified at the same millisecond keep
/// their order.
fn sort_newest_first(v: Vec<NoteSummary>) -> (r: Vec<NoteSummary>)
    ensures
        newest_first(summaries(r@)),
        summaries(r@).to_multiset() == summaries(v@).to_multiset(),
{
    let mut out: Vec<NoteSummary> = Vec::new();
    let mut i: usize = 0;
    assert(summaries(out@) =~= summaries(v@.take(0)));
    while i < v.len()
        invariant
            i <= v@.len(),
            newest_first(summaries(out@)),
            summaries(out@).to_multiset() == summaries(v@.take(i as int)).to_multiset(),
        decreases v@.len() - i,
    {
        let x = NoteSummary { path: v[i].path.clone(), modified_ms: v[i].modified_ms };
        let mut k: usize = 0;
        while k < out.len() && out[k].modified_ms >= x.modified_ms
            invariant
                k <= out@.len(),
                forall|j: int| 0 <= j < k ==> out@[j].modified_ms >= x.modified_ms,
            decreases out@.len() - k,
        {
            k = k + 1;
        }
        let ghost before = out@;
        let ghost xv = (x.path@, x.modified_ms);
        out.insert(k, x);
        proof {
            assert(summaries(out@) =~= summaries(before).insert(k as int, xv));
            vstd::seq_lib::to_multiset_insert(summaries(before), k as int, xv);
            assert(v@.take(i + 1) =~= v@.take(i as int).push(v@[i as int]));
            assert(summaries(v@.take(i + 1)) =~= summaries(v@.take(i as int)).push(xv));
            vstd::seq_lib::to_multiset_build(summaries(v@.take(i as int)), xv);
            let s = summaries(out@);
            assert forall|a: int, b: int| 0 <= a < b < s.len() implies #[trigger] s[a].1
                >= #[trigger] s[b].1 by {
                let t = summaries(before);
                if b < k {
                    assert(s[a] == t[a] && s[b] == t[b]);
                } else if b == k {
                    assert(s[a] == t[a]);
                } else if a < k {
                    assert(s[a] == t[a] && s[b] == t[b - 1]);
                } else if a == k {
                    assert(s[b] == t[b - 1]);
                    assert(t[k as int].1 < xv.1);
                } else {
                    assert(s[a] == t[a - 1] && s[b] == t[b - 1]);
                }
            }
        }
        i = i + 1;
    }
    assert(v@.take(v@.len() as int) =~= v@);
    out
}

fn listed_notes(entries: &Vec<NoteEntry>, folder: Option<&str>, modified_since_ms: Option<u64>) -> (r:
    Vec<NoteSummary>)
    ensures
        r@.map_values(|s: NoteSummary| (s.path@, s.modified_ms)) == entries@.filter(
            |e: NoteEntry| listed(e, str_opt(folder), modified_since_ms),
        ).map_values(|e: NoteEntry| summary_of(e)),
{
    let ghost fo = str_opt(folder);
    proof {
        reveal_strlit(".trash");
        reveal_strlit(".keep");
    }
    let (want_trash, prefix) = match folder {
        Some(f) => {
            let v = chars_of(f);
            let a = skip_char(&v, '/', 0);
            let t = slice_vec(&v, a, v.len());
            let tr = chars_of(".trash");
            let want = starts_with_exec(&t, &tr);
            let b = back_char(&t, '/', t.len());
            let mut p = slice_vec(&t, 0, b);
            p.push('/');
            assert(p@ == listing_prefix(f@));
            (want, Some(p))
        },
        None => (false, None),
    };
    let keep = chars_of(".keep");
    let slash = vec!['/'];
    assert(slash@ == seq!['/']);
    let mut r: Vec<NoteSummary> = Vec::new();
    let mut i: usize = 0;
    while i < entries.len()
        invariant
            i <= entries@.len(),
            keep@ == ".keep"@,
            slash@ == seq!['/'],
            want_trash == wants_trash(fo),
            match fo {
                Some(f) => prefix matches Some(p) && p@ == listing_prefix(f),
                None => prefix is None,
            },
            fo == str_opt(folder),
            r@.map_values(|s: NoteSummary| (s.path@, s.modified_ms)) == entries@.take(
                i as int,
            ).filter(|e: NoteEntry| listed(e, str_opt(folder), modified_since_ms)).map_values(
                |e: NoteEntry| summary_of(e),
            ),
        decreases entries@.len() - i,
    {
        let e = &entries[i];
        let ghost before = r@;
        let ghost pre = entries@.take(i as int).filter(|e: NoteEntry| listed(e, str_opt(folder), modified_since_ms));
        proof {
            reveal_with_fuel(Seq::<_>::filter, 1);
            assert(entries@.take(i + 1).drop_last() == entries@.take(i as int));
            assert(entries@.take(i + 1).last() == entries@[i as int]);
        }
        let p = chars_of(e.path.as_str());
        let mut keep_it = (want_trash || !e.hidden) && !ends_with_exec(&p, &keep)
            && !ends_with_exec(&p, &slash);
        if keep_it {
            match &prefix {
                Some(pf) => {
                    keep_it = starts_with_exec(&p, pf);
                },
                None => {},
            }
        }
        if keep_it {
            match modified_since_ms {
                Some(s) => {
                    keep_it = e.modified_us / 1000 >= s;
                },
                None => {},
            }
        }
        assert(keep_it == listed(entries@[i as int], fo, modified_since_ms));
        if keep_it {
            let s = NoteSummary { path: e.path.clone(), modified_ms: e.modified_us / 1000 };
            r.push(s);
            assert(entries@.take(i + 1).filter(|e: NoteEntry| listed(e, str_opt(folder), modified_since_ms))
                == pre.push(entries@[i as int]));
            assert(r@.map_values(|s: NoteSummary| (s.path@, s.modified_ms)) == before.map_values(
                |s: NoteSummary| (s.path@, s.modified_ms),
            ).push((s.path@, s.modified_ms)));
            assert(pre.push(entries@[i as int]).map_values(|e: NoteEntry| summary_of(e))
                == pre.map_values(|e: NoteEntry| summary_of(e)).push(summary_of(entries@[i as int])));
        } else {
            assert(entries@.take(i + 1).filter(|e: NoteEntry| listed(e, str_opt(folder), modified_since_ms))
                == pre);
        }
        i = i + 1;
    }
    assert(entries@.take(entries@.len() as int) == entries@);
    r
}


// ============================ notifications ============================

/// A vault mutation: which vault, and the entry key when the event carried
/// one (a note added, changed or removed).
#[derive(Debug, Clone)]
pub struct VaultChange {
    pub vault: String,
    pub path: Option<String>,
}

/// The resource URIs a change invalidates: always the vault's tree, and the
/// note when the event names one.
pub open spec fn changed_uris_spec(vault: Seq<char>, path: Option<Seq<char>>) -> Seq<Seq<char>> {
    match path {
        Some(p) => seq![tree_uri_spec(vault), note_uri_spec(vault, p)],
        None => seq![tree_uri_spec(vault)],
    }
}

pub open spec fn change_path(c: VaultChange) -> Option<Seq<char>> {
    match c.path {
        Some(p) => Some(p@),
        None => None,
    }
}

/// The resource URIs a vault mutation invalidates.
pub fn changed_uris(change: &VaultChange) -> (r: Vec<String>)
    ensures
        r@.map_values(|u: String| u@) == changed_uris_spec(change.vault@, change_path(*change)),
{
    let mut uris: Vec<String> = Vec::new();
    uris.push(tree_uri(change.vault.as_str()));
    match &change.path {
        Some(p) => {
            uris.push(note_uri(change.vault.as_str(), p.as_str()));
        },
        None => {},
    }
    uris
}

/// A settled batch of changes: what to tell the client after typing stopped.
pub struct Batch {
    /// Resource URIs to report, each once across the whole burst.
    uris: Vec<String>,
    /// Whether the vault's listing changed (a note added or removed).
    list_changed: bool,
}

impl Batch {
    pub closed spec fn uri_set(&self) -> Set<Seq<char>> {
        self.uris@.map_values(|u: String| u@).to_set()
    }

    pub closed spec fn listing_changed(&self) -> bool {
        self.list_changed
    }

    /// Whether the vault's listing changed (a note added or removed).
    pub fn list_changed(&self) -> (b: bool)
        ensures
            b == self.listing_changed(),
    {
        self.list_changed
    }

    pub closed spec fn wf(&self) -> bool {
        self.uris@.map_values(|u: String| u@).no_duplicates()
    }

    pub fn new() -> (b: Batch)
        ensures
            b.wf(),
            b.uri_set() == Set::<Seq<char>>::empty(),
            !b.listing_changed(),
    {
        let b = Batch { uris: Vec::new(), list_changed: false };
        assert(b.uris@.map_values(|u: String| u@).to_set() =~= Set::<Seq<char>>::empty());
        b
    }

    /// The URIs to report, each once.
    pub fn uris(&self) -> (r: Vec<String>)
        requires
            self.wf(),
        ensures
            r@.map_values(|u: String| u@).to_set() == self.uri_set(),
            r@.map_values(|u: String| u@).no_duplicates(),
    {
        let mut r: Vec<String> = Vec::new();
        let mut i: usize = 0;
        while i < self.uris.len()
            invariant
                i <= self.uris@.len(),
                r@.map_values(|u: String| u@) == self.uris@.map_values(|u: String| u@).take(
                    i as int,
                ),
            decreases self.uris@.len() - i,
        {
            let ghost before = r@;
            r.push(self.uris[i].clone());
            assert(r@.map_values(|u: String| u@) == before.map_values(|u: String| u@).push(
                self.uris@[i as int]@,
            ));
            assert(self.uris@.map_values(|u: String| u@).take(i + 1) == self.uris@.map_values(
                |u: String| u@,
            ).take(i as int).push(self.uris@[i as int]@));
            i = i + 1;
        }
        assert(self.uris@.map_values(|u: String| u@).take(self.uris@.len() as int)
            == self.uris@.map_values(|u: String| u@));
        r
    }

    fn insert_uri(&mut self, u: String)
        requires
            old(self).wf(),
        ensures
            final(self).wf(),
            final(self).uri_set() == old(self).uri_set().insert(u@),
            final(self).listing_changed() == old(self).listing_changed(),
    {
        let ghost before = self.uris@.map_values(|x: String| x@);
        let mut i: usize = 0;
        while i < self.uris.len()
            invariant
                self.uris@ == old(self).uris@,
                self.list_changed == old(self).list_changed,
                self.wf(),
                before == self.uris@.map_values(|x: String| x@),
                i <= self.uris@.len(),
                forall|k: int| 0 <= k < i ==> #[trigger] before[k] != u@,
            decreases self.uris@.len() - i,
        {
            if self.uris[i] == u {
                assert(before[i as int] == u@);
                assert(before.to_set().contains(u@));
                assert(before.to_set().insert(u@) =~= before.to_set());
                return;
            }
            i = i + 1;
        }
        self.uris.push(u);
        assert(self.uris@.map_values(|x: String| x@) == before.push(u@));
        assert(!before.contains(u@));
        assert(before.push(u@).to_set() =~= before.to_set().insert(u@)) by {
            assert forall|x: Seq<char>| #[trigger] before.push(u@).contains(x) <==> before.contains(x) || x == u@ by {
                if before.push(u@).contains(x) {
                    let k = choose|k: int| 0 <= k < before.push(u@).len() && before.push(u@)[k] == x;
                    if k < before.len() {
                        assert(before[k] == x);
                    }
                }
                if before.contains(x) {
                    let k = choose|k: int| 0 <= k < before.len() && before[k] == x;
                    assert(before.push(u@)[k] == x);
                }
                if x == u@ {
                    assert(before.push(u@)[before.len() as int] == x);
                }
            }
        }
        assert(before.push(u@).no_duplicates()) by {
            assert forall|a: int, b: int|
                0 <= a < before.push(u@).len() && 0 <= b < before.push(u@).len() && a != b implies before.push(u@)[a] != before.push(u@)[b] by {
                if a < before.len() && b < before.len() {
                } else if a < before.len() {
                    assert(before[a] != u@);
                } else {
                    assert(before[b] != u@);
                }
            }
        }
    }

    /// Fold one change into the batch: its URIs join the set, and a change
    /// that names an entry marks the listing changed.
    pub fn absorb(&mut self, change: &VaultChange)
        requires
            old(self).wf(),
        ensures
            final(self).wf(),
            final(self).uri_set() == old(self).uri_set() + changed_uris_spec(
                change.vault@,
                change_path(*change),
            ).to_set(),
            final(self).listing_changed() == (old(self).listing_changed() || change.path is Some),
    {
        if change.path.is_some() {
            self.list_changed = true;
        }
        let t = tree_uri(change.vault.as_str());
        self.insert_uri(t);
        match &change.path {
            Some(p) => {
                let n = note_uri(change.vault.as_str(), p.as_str());
                self.insert_uri(n);
                assert(changed_uris_spec(change.vault@, change_path(*change)).to_set() =~= set![
                    tree_uri_spec(change.vault@),
                    note_uri_spec(change.vault@, p@),
                ]) by {
                    let sq = changed_uris_spec(change.vault@, change_path(*change));
                    assert(sq[0] == tree_uri_spec(change.vault@));
                    assert(sq[1] == note_uri_spec(change.vault@, p@));
                }
            },
            None => {
                assert(changed_uris_spec(change.vault@, change_path(*change)).to_set() =~= set![
                    tree_uri_spec(change.vault@),
                ]) by {
                    let sq = changed_uris_spec(change.vault@, change_path(*change));
                    assert(sq[0] == tree_uri_spec(change.vault@));
                }
            },
        }
    }
}

/// Absorbing the same change again adds nothing: a burst of keystrokes on
/// one note settles into one note URI and the tree URI, however long it is.
pub proof fn absorbing_is_idempotent(uris: Set<Seq<char>>, listed: bool, change: VaultChange)
    ensures
        ({
            let once = uris + changed_uris_spec(change.vault@, change_path(change)).to_set();
            &&& once + changed_uris_spec(change.vault@, change_path(change)).to_set() == once
            &&& ((listed || change.path is Some) || change.path is Some) == (listed
                || change.path is Some)
        }),
{
    let c = changed_uris_spec(change.vault@, change_path(change)).to_set();
    assert((uris + c) + c =~= uris + c);
}

/// What the notification pump saw next.
#[derive(Debug, Clone)]
pub enum BatchEvent {
    /// A vault mutation.
    Change(VaultChange),
    /// The receiver fell behind and missed changes.
    Lagged,
    /// The channel closed.
    Closed,
    /// The stream stayed quiet for the whole window.
    Quiet,
}

/// What the pump does next with the batch it is building.
#[derive(Debug, Clone, Copy, PartialEq, Eq)]
pub enum BatchStep {
    /// Keep collecting.
    Continue,
    /// Send the batch.
    Deliver,
    /// Stop: nothing more will come.
    End,
}

/// One step of collecting a batch. The first event is awaited without a
/// timer; after it, changes keep being absorbed until the stream is quiet. A
/// lagged receiver is reported at once (as a listing change) rather than
/// waited out; a channel that closes before anything arrived ends the pump.
pub fn batch_step(batch: &mut Batch, first: bool, event: &BatchEvent) -> (r: BatchStep)
    requires
        old(batch).wf(),
    ensures
        final(batch).wf(),
        match event {
            BatchEvent::Change(c) => r == BatchStep::Continue && final(batch).uri_set()
                == old(batch).uri_set() + changed_uris_spec(c.vault@, change_path(*c)).to_set()
                && final(batch).listing_changed() == (old(batch).listing_changed() || c.path is Some),
            BatchEvent::Lagged => r == BatchStep::Deliver && final(batch).listing_changed()
                && final(batch).uri_set() == old(batch).uri_set(),
            BatchEvent::Closed => r == (if first {
                BatchStep::End
            } else {
                BatchStep::Deliver
            }) && final(batch).uri_set() == old(batch).uri_set() && final(batch).listing_changed()
                == old(batch).listing_changed(),
            BatchEvent::Quiet => r == BatchStep::Deliver && final(batch).uri_set()
                == old(batch).uri_set() && final(batch).listing_changed() == old(batch).listing_changed(),
        },
{
    match event {
        BatchEvent::Change(c) => {
            batch.absorb(c);
            BatchStep::Continue
        },
        BatchEvent::Lagged => {
            batch.list_changed = true;
            BatchStep::Deliver
        },
        BatchEvent::Closed => {
            if first {
                BatchStep::End
            } else {
                BatchStep::Deliver
            }
        },
        BatchEvent::Quiet => BatchStep::Deliver,
    }
}

// ============================ settings ============================

/// Persisted server settings: the token survives toggling the server off
/// and on, and the port is remembered for the same reason.
#[derive(Debug, Clone)]
pub struct McpConfig {
    pub enabled: bool,
    /// Last port successfully bound; 0 until the first start.
    pub port: u16,
    pub token: String,
}

/// The config to run with, given what was read from disk (if it parsed):
/// a stored config with a token is kept; otherwise a fresh one — disabled,
/// port 0, a new token — which must then be saved (the second value).
pub fn config_or_fresh(stored: Option<McpConfig>) -> (r: (McpConfig, bool))
    ensures
        match stored {
            Some(c) => c.token@.len() > 0 ==> r.0 == c && !r.1,
            None => true,
        },
        (stored is None || stored.unwrap().token@.len() == 0) ==> (r.1 && !r.0.enabled && r.0.port
            == 0 && r.0.token@.len() == 64 && exists|b: Seq<u8>|
            b.len() == 32 && r.0.token@ == #[trigger] hex(b)),
{
    match stored {
        Some(c) => {
            if !c.token.as_str().is_empty() {
                return (c, false);
            }
        },
        None => {},
    }
    (McpConfig { enabled: false, port: 0, token: new_token() }, true)
}

/// What the Settings UI needs to show and to hand to a client.
#[derive(Debug, Clone)]
pub struct McpStatus {
    pub enabled: bool,
    pub port: Option<u16>,
    pub url: Option<String>,
    pub token: String,
    /// Ready-to-paste command that registers this server with a client's
    /// command-line tool.
    pub command: Option<String>,
}

/// `http://127.0.0.1:{port}/mcp`
pub open spec fn server_url(port: u16) -> Seq<char> {
    "http://127.0.0.1:"@ + decimal(port as nat) + "/mcp"@
}

/// The connect command for a client whose command-line tool is `cli`.
pub open spec fn connect_command(cli: Seq<char>, url: Seq<char>, token: Seq<char>) -> Seq<char> {
    cli + " mcp add --transport http vellum "@ + url + " --header \"Authorization: Bearer "@ + token
        + "\""@
}

/// The server's status: running exactly when it has a port, with the URL
/// and connect command (for the client tool `cli`) for that port.
pub fn status_of(token: &str, port: Option<u16>, cli: &str) -> (r: McpStatus)
    ensures
        r.enabled == port is Some,
        r.port == port,
        r.token@ == token@,
        match port {
            Some(p) => (r.url matches Some(u) && u@ == server_url(p)) && (r.command matches Some(c)
                && c@ == connect_command(cli@, server_url(p), token@)),
            None => r.url is None && r.command is None,
        },
{
    match port {
        Some(p) => {
            let mut url = "http://127.0.0.1:".to_owned();
            push_decimal(&mut url, p as u64);
            push_str(&mut url, "/mcp");
            let mut cmd = cli.to_owned();
            push_str(&mut cmd, " mcp add --transport http vellum ");
            push_str(&mut cmd, url.as_str());
            push_str(&mut cmd, " --header \"Authorization: Bearer ");
            push_str(&mut cmd, token);
            push_str(&mut cmd, "\"");
            McpStatus {
                enabled: true,
                port: Some(p),
                url: Some(url),
                token: token.to_owned(),
                command: Some(cmd),
            }
        },
        None => McpStatus {
            enabled: false,
            port: None,
            url: None,
            token: token.to_owned(),
            command: None,
        },
    }
}

} // verus!
