//! Open Graph metadata for external links, for preview cards: the entity
//! decoder, the attribute scanner, the `<head>` scraper, the display host, and
//! the per-session cache of what was fetched.
use vstd::prelude::*;
use vstd::utf8::{decode_utf8, valid_utf8};
use crate::text::{
    eq_chars, trim, trim_chars,
    ascii_lower, find_ws, is_ascii_alnum, lemma_skip_while_shift, lowercase_ascii, not_in_set,
    not_ws, skip_while, skip_ws, trim_start_by, ws,
    after_last_any, before_any, lemma_replace_absent, lemma_replace_leading,
    lemma_replace_other, chars_of, find_any, find_at, find_from, lemma_find_from, matches_at, replace,
    replace_all, rfind_any, slice_vec, starts_with, starts_with_exec, string_of,
};

verus! {

/// What a preview card shows for one external link.
#[derive(Debug, Clone)]
pub struct LinkPreview {
    pub url: String,
    pub title: Option<String>,
    pub description: Option<String>,
    pub site_name: Option<String>,
    pub image: Option<String>,
}

pub open spec fn opt_view(o: Option<String>) -> Option<Seq<char>> {
    match o {
        Some(s) => Some(s@),
        None => None,
    }
}

/// A preview, as sequences of characters.
pub struct PreviewView {
    pub url: Seq<char>,
    pub title: Option<Seq<char>>,
    pub description: Option<Seq<char>>,
    pub site_name: Option<Seq<char>>,
    pub image: Option<Seq<char>>,
}

impl View for LinkPreview {
    type V = PreviewView;

    open spec fn view(&self) -> PreviewView {
        PreviewView {
            url: self.url@,
            title: opt_view(self.title),
            description: opt_view(self.description),
            site_name: opt_view(self.site_name),
            image: opt_view(self.image),
        }
    }
}

fn opt_string(o: Option<Vec<char>>) -> (r: Option<String>)
    ensures
        opt_view(r) == match o {
            Some(v) => Some(v@),
            None => None::<Seq<char>>,
        },
{
    match o {
        Some(v) => Some(string_of(&v)),
        None => None,
    }
}

impl LinkPreview {
    /// Whether there is anything worth drawing a card for: a title or a
    /// description. A card showing only a domain is worse than the plain link.
    pub fn is_useful(&self) -> (b: bool)
        ensures
            b == (self.title is Some || self.description is Some),
    {
        self.title.is_some() || self.description.is_some()
    }
}

// ---------------------------------------------------------------- entities

/// The handful of HTML entities that show up in `content=` attributes, each
/// decoded in turn, the ampersand last.
pub open spec fn unescape_spec(s: Seq<char>) -> Seq<char> {
    replace(
        replace(
            replace(
                replace(
                    replace(replace(s, "&quot;"@, "\""@), "&#39;"@, "'"@),
                    "&apos;"@,
                    "'"@,
                ),
                "&lt;"@,
                "<"@,
            ),
            "&gt;"@,
            ">"@,
        ),
        "&amp;"@,
        "&"@,
    )
}

fn replace_lit(v: &[char], pat: &str, rep: &str) -> (r: Vec<char>)
    requires
        pat@.len() > 0,
    ensures
        r@ == replace(v@, pat@, rep@),
{
    let p = chars_of(pat);
    let q = chars_of(rep);
    replace_all(v, &p, &q)
}

/// Decode `&quot;`, `&#39;`, `&apos;`, `&lt;`, `&gt;` and `&amp;` — the
/// ampersand last, so `&amp;lt;` reads as `&lt;`, not `<`.
pub fn unescape_chars(v: &[char]) -> (r: Vec<char>)
    ensures
        r@ == unescape_spec(v@),
{
    proof {
        reveal_strlit("&quot;");
        reveal_strlit("&#39;");
        reveal_strlit("&apos;");
        reveal_strlit("&lt;");
        reveal_strlit("&gt;");
        reveal_strlit("&amp;");
    }
    let a = replace_lit(v, "&quot;", "\"");
    let b = replace_lit(&a, "&#39;", "'");
    let c = replace_lit(&b, "&apos;", "'");
    let d = replace_lit(&c, "&lt;", "<");
    let e = replace_lit(&d, "&gt;", ">");
    replace_lit(&e, "&amp;", "&")
}

/// `unescape` on strings.
pub fn unescape(s: &str) -> (r: String)
    ensures
        r@ == unescape_spec(s@),
{
    let v = chars_of(s);
    let r = unescape_chars(&v);
    string_of(&r)
}

/// Every `&` in `e` begins an `&amp;`.
pub open spec fn ampersands_escaped(e: Seq<char>) -> bool {
    forall|k: int| 0 <= k < e.len() && e[k] == '&' ==> #[trigger] matches_at(e, "&amp;"@, k)
}

proof fn lemma_escape_escapes(s: Seq<char>)
    ensures
        ampersands_escaped(replace(s, "&"@, "&amp;"@)),
    decreases s.len(),
{
    reveal_strlit("&");
    reveal_strlit("&amp;");
    let e = replace(s, "&"@, "&amp;"@);
    if s.len() == 0 {
    } else {
        let rest = s.skip(1);
        lemma_escape_escapes(rest);
        let er = replace(rest, "&"@, "&amp;"@);
        assert(seq![s[0]] + rest == s);
        let head: Seq<char> = if s[0] == '&' {
            "&amp;"@
        } else {
            seq![s[0]]
        };
        if s[0] == '&' {
            assert("&"@ + rest == s);
            lemma_replace_leading("&"@, rest, "&amp;"@);
        } else {
            lemma_replace_other(s[0], rest, "&"@, "&amp;"@);
        }
        assert(e == head + er);
        assert forall|k: int| 0 <= k < e.len() && e[k] == '&' implies #[trigger] matches_at(
            e,
            "&amp;"@,
            k,
        ) by {
            if k < head.len() {
                assert(k == 0);
                assert(s[0] == '&');
                assert(e.subrange(0, 5) == "&amp;"@);
            } else {
                let j = k - head.len();
                assert(er[j] == e[k]);
                assert(matches_at(er, "&amp;"@, j));
                assert(e.subrange(k, k + 5) == er.subrange(j, j + 5));
            }
        }
    }
}

proof fn lemma_unescape_ampersands(s: Seq<char>)
    ensures
        replace(replace(s, "&"@, "&amp;"@), "&amp;"@, "&"@) == s,
    decreases s.len(),
{
    reveal_strlit("&");
    reveal_strlit("&amp;");
    if s.len() > 0 {
        let rest = s.skip(1);
        lemma_unescape_ampersands(rest);
        let er = replace(rest, "&"@, "&amp;"@);
        assert(seq![s[0]] + rest == s);
        if s[0] == '&' {
            lemma_replace_leading("&"@, rest, "&amp;"@);
            lemma_replace_leading("&amp;"@, er, "&"@);
            assert("&"@ + rest == s);
        } else {
            lemma_replace_other(s[0], rest, "&"@, "&amp;"@);
            lemma_replace_other(s[0], er, "&amp;"@, "&"@);
        }
    }
}

proof fn lemma_entity_absent(e: Seq<char>, pat: Seq<char>)
    requires
        ampersands_escaped(e),
        pat.len() >= 3,
        pat[0] == '&',
        pat[1] != 'a' || pat[2] != 'm',
    ensures
        forall|i: int| !#[trigger] matches_at(e, pat, i),
{
    reveal_strlit("&amp;");
    assert forall|i: int| !#[trigger] matches_at(e, pat, i) by {
        if matches_at(e, pat, i) {
            assert(e.subrange(i, i + pat.len())[0] == pat[0]);
            assert(e[i] == '&');
            assert(matches_at(e, "&amp;"@, i));
            assert(e.subrange(i, i + 5)[1] == 'a');
            assert(e.subrange(i, i + 5)[2] == 'm');
            assert(e.subrange(i, i + pat.len())[1] == pat[1]);
            assert(e.subrange(i, i + pat.len())[2] == pat[2]);
        }
    }
}

/// Decoding undoes ampersand escaping: text whose every `&` was written as
/// `&amp;` decodes back to itself, with nothing decoded twice through the
/// ampersand (`&amp;lt;` gives `&lt;`, never `<`).
pub proof fn unescape_inverts_ampersand_escaping(s: Seq<char>)
    ensures
        unescape_spec(replace(s, "&"@, "&amp;"@)) == s,
{
    reveal_strlit("&quot;");
    reveal_strlit("&#39;");
    reveal_strlit("&apos;");
    reveal_strlit("&lt;");
    reveal_strlit("&gt;");
    let e = replace(s, "&"@, "&amp;"@);
    lemma_escape_escapes(s);
    lemma_entity_absent(e, "&quot;"@);
    lemma_replace_absent(e, "&quot;"@, "\""@);
    lemma_entity_absent(e, "&#39;"@);
    lemma_replace_absent(e, "&#39;"@, "'"@);
    lemma_entity_absent(e, "&apos;"@);
    lemma_replace_absent(e, "&apos;"@, "'"@);
    lemma_entity_absent(e, "&lt;"@);
    lemma_replace_absent(e, "&lt;"@, "<"@);
    lemma_entity_absent(e, "&gt;"@);
    lemma_replace_absent(e, "&gt;"@, ">"@);
    lemma_unescape_ampersands(s);
}

// ---------------------------------------------------------------- attributes

/// Characters that may form part of an attribute name.
pub open spec fn attr_name_char(c: char) -> bool {
    is_ascii_alnum(c) || c == '-' || c == '_' || c == ':'
}

fn attr_name_char_exec(c: char) -> (b: bool)
    ensures
        b == attr_name_char(c),
{
    ('a' <= c && c <= 'z') || ('A' <= c && c <= 'Z') || ('0' <= c && c <= '9') || c == '-' || c
        == '_' || c == ':'
}

/// The value at the start of `after_eq` (what follows `=` and any
/// whitespace): a quoted value up to its closing quote — `None` when it is
/// never closed — or else everything up to the next whitespace; entities
/// decoded. `None` when nothing follows the `=`.
pub open spec fn attr_value(after_eq: Seq<char>) -> Option<Seq<char>> {
    if after_eq.len() == 0 {
        None
    } else {
        let q = after_eq[0];
        if q != '"' && q != '\'' {
            Some(unescape_spec(after_eq.take(skip_while(after_eq, not_ws(), 0))))
        } else {
            let body = after_eq.skip(1);
            let end = skip_while(body, not_in_set(seq![q]), 0);
            if end < body.len() {
                Some(unescape_spec(body.take(end)))
            } else {
                None
            }
        }
    }
}

/// The value of attribute `key` in a tag body, scanning the ASCII-lowercased
/// tag for `key` from position `from`. An occurrence counts when it begins an
/// attribute name (no name character before it) and is followed, after
/// optional whitespace, by `=`; the scan resumes after any occurrence that
/// does not count. The first occurrence that counts decides the answer.
pub open spec fn attr_from(tag: Seq<char>, key: Seq<char>, from: int) -> Option<Seq<char>>
    decreases tag.len() + 1 - from,
{
    let lower = ascii_lower(tag);
    if from < 0 || key.len() == 0 {
        None
    } else {
        match find_from(lower, key, from) {
            None => None,
            Some(at) => {
                let rest_trim = trim_start_by(tag.skip(at + key.len()), ws());
                let before_ok = at == 0 || !attr_name_char(lower[at - 1]);
                if before_ok && rest_trim.len() > 0 && rest_trim[0] == '=' {
                    attr_value(trim_start_by(rest_trim.skip(1), ws()))
                } else {
                    proof {
                        lemma_find_from(lower, key, from);
                    }
                    attr_from(tag, key, at + key.len())
                }
            },
        }
    }
}

/// `key="value"` out of a tag body, honouring single or double quotes.
pub open spec fn attr_spec(tag: Seq<char>, key: Seq<char>) -> Option<Seq<char>> {
    attr_from(tag, key, 0)
}

fn attr_value_exec(t: &[char], a: usize) -> (r: Option<Vec<char>>)
    requires
        a <= t@.len(),
    ensures
        match r {
            Some(v) => attr_value(t@.skip(a as int)) == Some(v@),
            None => attr_value(t@.skip(a as int)) is None,
        },
{
    let ghost after = t@.skip(a as int);
    if a == t.len() {
        return None;
    }
    let q = t[a];
    if q != '"' && q != '\'' {
        let end = find_ws(t, a);
        proof {
            lemma_skip_while_shift(t@, not_ws(), a as int, 0);
        }
        assert(after.take(skip_while(after, not_ws(), 0)) == t@.subrange(a as int, end as int));
        let raw = slice_vec(t, a, end);
        Some(unescape_chars(&raw))
    } else {
        let qs = vec![q];
        assert(qs@ == seq![q]);
        let end = find_any(t, &qs, a + 1);
        proof {
            lemma_skip_while_shift(t@, not_in_set(seq![q]), a + 1, 0);
        }
        assert(after.skip(1) == t@.skip(a + 1));
        if end < t.len() {
            assert(after.skip(1).take(end - (a + 1)) == t@.subrange(a + 1, end as int));
            let raw = slice_vec(t, a + 1, end);
            Some(unescape_chars(&raw))
        } else {
            None
        }
    }
}

/// Pull `key="value"` out of tag characters.
pub fn attr_chars(t: &[char], key: &[char]) -> (r: Option<Vec<char>>)
    requires
        key@.len() > 0,
    ensures
        match r {
            Some(v) => attr_spec(t@, key@) == Some(v@),
            None => attr_spec(t@, key@) is None,
        },
{
    let lower = lowercase_ascii(t);
    let mut from: usize = 0;
    while from <= t.len()
        invariant
            key@.len() > 0,
            lower@ == ascii_lower(t@),
            from <= t@.len() + 1,
            attr_from(t@, key@, from as int) == attr_from(t@, key@, 0),
        decreases t@.len() + 1 - from,
    {
        match find_at(&lower, key, from) {
            None => {
                return None;
            },
            Some(at) => {
                proof {
                    lemma_find_from(lower@, key@, from as int);
                }
                assert(matches_at(lower@, key@, at as int));
                let n = t.len();
                let kl = key.len();
                let r0 = skip_ws(t, at + kl);
                proof {
                    lemma_skip_while_shift(t@, ws(), at + kl, 0);
                }
                let ghost rest_trim = trim_start_by(t@.skip(at + kl), ws());
                assert(rest_trim == t@.skip(r0 as int));
                let before_ok = at == 0 || !attr_name_char_exec(lower[at - 1]);
                if before_ok && r0 < n && t[r0] == '=' {
                    let a = skip_ws(t, r0 + 1);
                    proof {
                        lemma_skip_while_shift(t@, ws(), r0 + 1, 0);
                    }
                    assert(rest_trim.skip(1) == t@.skip(r0 + 1));
                    assert(trim_start_by(rest_trim.skip(1), ws()) == t@.skip(a as int));
                    assert(rest_trim[0] == t@[r0 as int]);
                    assert(attr_from(t@, key@, from as int) == attr_value(t@.skip(a as int)));
                    return attr_value_exec(t, a);
                }
                from = at + kl;
            },
        }
    }
    None
}

/// `key="value"` out of a tag body, honouring single or double quotes;
/// `key` is matched against the ASCII-lowercased tag.
pub fn attr(tag: &str, key: &str) -> (r: Option<String>)
    requires
        key@.len() > 0,
    ensures
        opt_view(r) == attr_spec(tag@, key@),
{
    let t = chars_of(tag);
    let k = chars_of(key);
    let v = attr_chars(&t, &k);
    opt_string(v)
}

// ---------------------------------------------------------------- the head scrape

/// The `<meta …>` tag bodies of a document, in order: each runs from a
/// `<meta` (found case-insensitively) up to, not including, the next `>`.
/// The scan resumes at that `>`, and stops at a `<meta` that no `>` follows.
pub open spec fn meta_tags_from(html: Seq<char>, i: int) -> Seq<Seq<char>>
    decreases html.len() + 1 - i,
{
    let lower = ascii_lower(html);
    if i < 0 {
        Seq::empty()
    } else {
        match find_from(lower, seq!['<', 'm', 'e', 't', 'a'], i) {
            None => Seq::empty(),
            Some(start) => match find_from(lower, seq!['>'], start) {
                None => Seq::empty(),
                Some(gt) => {
                    proof {
                        lemma_find_from(lower, seq!['<', 'm', 'e', 't', 'a'], i);
                        lemma_find_from(lower, seq!['>'], start);
                        assert(lower.subrange(start, start + 5)[0] == '<');
                        assert(lower.subrange(gt, gt + 1)[0] == '>');
                    }
                    seq![html.subrange(start, gt)] + meta_tags_from(html, gt)
                },
            },
        }
    }
}

/// Five optional text fields of a preview.
pub struct Fields {
    pub title: Option<Seq<char>>,
    pub description: Option<Seq<char>>,
    pub site_name: Option<Seq<char>>,
    pub image: Option<Seq<char>>,
}

pub open spec fn no_fields() -> Fields {
    Fields { title: None, description: None, site_name: None, image: None }
}

/// A meta tag's key: its `property`, else its `name`, ASCII-lowercased.
pub open spec fn meta_key(tag: Seq<char>) -> Option<Seq<char>> {
    match attr_spec(tag, "property"@) {
        Some(k) => Some(ascii_lower(k)),
        None => match attr_spec(tag, "name"@) {
            Some(k) => Some(ascii_lower(k)),
            None => None,
        },
    }
}

/// A meta tag's `content`, trimmed; `None` when absent or blank.
pub open spec fn meta_content(tag: Seq<char>) -> Option<Seq<char>> {
    match attr_spec(tag, "content"@) {
        Some(c) => if trim(c).len() > 0 {
            Some(trim(c))
        } else {
            None
        },
        None => None,
    }
}

pub open spec fn first_of(a: Option<Seq<char>>, b: Option<Seq<char>>) -> Option<Seq<char>> {
    if a is Some {
        a
    } else {
        b
    }
}

/// One meta tag applied to the Open Graph fields (each `og:*` tag overwrites
/// its field, so the last one wins) and the plain fields (`twitter:*` and
/// `description` fill a field only while it is empty, so the first one wins).
pub open spec fn apply_meta(og: Fields, plain: Fields, tag: Seq<char>) -> (Fields, Fields) {
    match (meta_key(tag), meta_content(tag)) {
        (Some(k), Some(c)) => if k == "og:title"@ {
            (Fields { title: Some(c), ..og }, plain)
        } else if k == "og:description"@ {
            (Fields { description: Some(c), ..og }, plain)
        } else if k == "og:site_name"@ {
            (Fields { site_name: Some(c), ..og }, plain)
        } else if k == "og:image"@ {
            (Fields { image: Some(c), ..og }, plain)
        } else if k == "twitter:title"@ {
            (og, Fields { title: first_of(plain.title, Some(c)), ..plain })
        } else if k == "twitter:description"@ || k == "description"@ {
            (og, Fields { description: first_of(plain.description, Some(c)), ..plain })
        } else if k == "twitter:image"@ {
            (og, Fields { image: first_of(plain.image, Some(c)), ..plain })
        } else {
            (og, plain)
        },
        _ => (og, plain),
    }
}

/// The Open Graph and plain fields after the tags, in document order.
pub open spec fn fold_meta(tags: Seq<Seq<char>>) -> (Fields, Fields)
    decreases tags.len(),
{
    if tags.len() == 0 {
        (no_fields(), no_fields())
    } else {
        let (og, plain) = fold_meta(tags.drop_last());
        apply_meta(og, plain, tags.last())
    }
}

/// The text of the first `<title …>…</title>`, trimmed and decoded; `None`
/// when there is none or it is empty.
pub open spec fn title_element(html: Seq<char>) -> Option<Seq<char>> {
    let lower = ascii_lower(html);
    match find_from(lower, seq!['<', 't', 'i', 't', 'l', 'e'], 0) {
        None => None,
        Some(s) => match find_from(lower, seq!['>'], s) {
            None => None,
            Some(g) => match find_from(
                lower,
                seq!['<', '/', 't', 'i', 't', 'l', 'e', '>'],
                g + 1,
            ) {
                None => None,
                Some(end) => {
                    let t = unescape_spec(trim(html.subrange(g + 1, end)));
                    if t.len() > 0 {
                        Some(t)
                    } else {
                        None
                    }
                },
            },
        },
    }
}

/// The preview scraped from a document's head: `og:*` first, then the plain
/// `twitter:*`/`description` tags, then `<title>` for the headline and the
/// URL's host for the site name.
pub open spec fn parse_metadata_spec(html: Seq<char>, url: Seq<char>) -> PreviewView {
    let (og, plain) = fold_meta(meta_tags_from(html, 0));
    PreviewView {
        url: url,
        title: if og.title is Some {
            og.title
        } else if plain.title is Some {
            plain.title
        } else {
            title_element(html)
        },
        description: first_of(og.description, plain.description),
        site_name: first_of(og.site_name, host_spec(url)),
        image: first_of(og.image, plain.image),
    }
}

struct ExecFields {
    title: Option<Vec<char>>,
    description: Option<Vec<char>>,
    site_name: Option<Vec<char>>,
    image: Option<Vec<char>>,
}

spec fn vopt(o: Option<Vec<char>>) -> Option<Seq<char>> {
    match o {
        Some(v) => Some(v@),
        None => None,
    }
}

impl ExecFields {
    spec fn fields(&self) -> Fields {
        Fields {
            title: vopt(self.title),
            description: vopt(self.description),
            site_name: vopt(self.site_name),
            image: vopt(self.image),
        }
    }
}

fn meta_key_exec(tag: &[char]) -> (r: Option<Vec<char>>)
    ensures
        vopt(r) == meta_key(tag@),
{
    proof {
        reveal_strlit("property");
        reveal_strlit("name");
    }
    let p = chars_of("property");
    match attr_chars(tag, &p) {
        Some(k) => Some(lowercase_ascii(&k)),
        None => {
            let n = chars_of("name");
            match attr_chars(tag, &n) {
                Some(k) => Some(lowercase_ascii(&k)),
                None => None,
            }
        },
    }
}

fn meta_content_exec(tag: &[char]) -> (r: Option<Vec<char>>)
    ensures
        vopt(r) == meta_content(tag@),
{
    proof {
        reveal_strlit("content");
    }
    let c = chars_of("content");
    match attr_chars(tag, &c) {
        Some(v) => {
            let t = trim_chars(&v);
            if t.len() > 0 {
                Some(t)
            } else {
                None
            }
        },
        None => None,
    }
}

fn is_key(k: &[char], lit: &str) -> (b: bool)
    ensures
        b == (k@ == lit@),
{
    let l = chars_of(lit);
    eq_chars(k, &l)
}

fn apply_meta_exec(og: &mut ExecFields, plain: &mut ExecFields, tag: &[char])
    ensures
        (final(og).fields(), final(plain).fields()) == apply_meta(
            old(og).fields(),
            old(plain).fields(),
            tag@,
        ),
{
    let key = meta_key_exec(tag);
    let content = meta_content_exec(tag);
    match (key, content) {
        (Some(k), Some(c)) => {
            if is_key(&k, "og:title") {
                og.title = Some(c);
            } else if is_key(&k, "og:description") {
                og.description = Some(c);
            } else if is_key(&k, "og:site_name") {
                og.site_name = Some(c);
            } else if is_key(&k, "og:image") {
                og.image = Some(c);
            } else if is_key(&k, "twitter:title") {
                if plain.title.is_none() {
                    plain.title = Some(c);
                }
            } else if is_key(&k, "twitter:description") || is_key(&k, "description") {
                if plain.description.is_none() {
                    plain.description = Some(c);
                }
            } else if is_key(&k, "twitter:image") {
                if plain.image.is_none() {
                    plain.image = Some(c);
                }
            }
        },
        _ => {},
    }
}

fn title_element_exec(html: &[char], lower: &[char]) -> (r: Option<Vec<char>>)
    requires
        lower@ == ascii_lower(html@),
    ensures
        vopt(r) == title_element(html@),
{
    let open_tag = vec!['<', 't', 'i', 't', 'l', 'e'];
    let gt = vec!['>'];
    let close_tag = vec!['<', '/', 't', 'i', 't', 'l', 'e', '>'];
    assert(open_tag@ == seq!['<', 't', 'i', 't', 'l', 'e']);
    assert(gt@ == seq!['>']);
    assert(close_tag@ == seq!['<', '/', 't', 'i', 't', 'l', 'e', '>']);
    let s = match find_at(lower, &open_tag, 0) {
        Some(s) => s,
        None => return None,
    };
    let g = match find_at(lower, &gt, s) {
        Some(g) => g,
        None => return None,
    };
    proof {
        lemma_find_from(lower@, gt@, s as int);
    }
    assert(matches_at(lower@, gt@, g as int));
    let n = lower.len();
    let end = match find_at(lower, &close_tag, g + 1) {
        Some(e) => e,
        None => return None,
    };
    proof {
        lemma_find_from(lower@, close_tag@, g + 1);
    }
    assert(matches_at(lower@, close_tag@, end as int));
    let raw = slice_vec(html, g + 1, end);
    let trimmed = trim_chars(&raw);
    let t = unescape_chars(&trimmed);
    if t.len() > 0 {
        Some(t)
    } else {
        None
    }
}

/// Scrape Open Graph / `<meta name=…>` / `<title>` out of an HTML head.
///
/// Deliberately not a real HTML parser: five string fields from the top of
/// the document. Anything malformed simply yields `None` for that field.
pub fn parse_metadata(html: &str, url: &str) -> (p: LinkPreview)
    ensures
        p@ == parse_metadata_spec(html@, url@),
{
    let h = chars_of(html);
    let lower = lowercase_ascii(&h);
    let mut og = ExecFields { title: None, description: None, site_name: None, image: None };
    let mut plain = ExecFields { title: None, description: None, site_name: None, image: None };
    let meta = vec!['<', 'm', 'e', 't', 'a'];
    let gt = vec!['>'];
    assert(meta@ == seq!['<', 'm', 'e', 't', 'a']);
    assert(gt@ == seq!['>']);
    let ghost seen: Seq<Seq<char>> = Seq::empty();
    let mut i: usize = 0;
    assert(meta_tags_from(h@, 0) == seen + meta_tags_from(h@, 0));
    loop
        invariant
            lower@ == ascii_lower(h@),
            meta@ == seq!['<', 'm', 'e', 't', 'a'],
            gt@ == seq!['>'],
            i <= h@.len(),
            meta_tags_from(h@, 0) == seen + meta_tags_from(h@, i as int),
            (og.fields(), plain.fields()) == fold_meta(seen),
        ensures
            meta_tags_from(h@, 0) == seen,
            (og.fields(), plain.fields()) == fold_meta(seen),
        decreases h@.len() - i,
    {
        let start = match find_at(&lower, &meta, i) {
            Some(s) => s,
            None => {
                assert(meta_tags_from(h@, i as int) == Seq::<Seq<char>>::empty());
                assert(seen + Seq::<Seq<char>>::empty() == seen);
                break;
            },
        };
        proof {
            lemma_find_from(lower@, meta@, i as int);
        }
        assert(matches_at(lower@, meta@, start as int));
        let g = match find_at(&lower, &gt, start) {
            Some(g) => g,
            None => {
                assert(meta_tags_from(h@, i as int) == Seq::<Seq<char>>::empty());
                assert(seen + Seq::<Seq<char>>::empty() == seen);
                break;
            },
        };
        proof {
            lemma_find_from(lower@, gt@, start as int);
            assert(lower@.subrange(start as int, start + 5)[0] == '<');
            assert(lower@.subrange(g as int, g + 1)[0] == '>');
        }
        let tag = slice_vec(&h, start, g);
        let ghost rest = meta_tags_from(h@, g as int);
        assert(meta_tags_from(h@, i as int) == seq![tag@] + rest);
        apply_meta_exec(&mut og, &mut plain, &tag);
        proof {
            let next = seen.push(tag@);
            assert(next.drop_last() == seen);
            assert(seen + (seq![tag@] + rest) == next + rest);
            seen = next;
        }
        i = g;
    }
    let title = if og.title.is_some() {
        og.title
    } else if plain.title.is_some() {
        plain.title
    } else {
        title_element_exec(&h, &lower)
    };
    let description = if og.description.is_some() {
        og.description
    } else {
        plain.description
    };
    let image = if og.image.is_some() {
        og.image
    } else {
        plain.image
    };
    let site_name = if og.site_name.is_some() {
        opt_string(og.site_name)
    } else {
        host_of(url)
    };
    LinkPreview {
        url: url.to_owned(),
        title: opt_string(title),
        description: opt_string(description),
        site_name,
        image: opt_string(image),
    }
}

proof fn lemma_fold_og_title(tags: Seq<Seq<char>>, j: int, c: Seq<char>)
    requires
        0 <= j < tags.len(),
        meta_key(tags[j]) == Some("og:title"@),
        meta_content(tags[j]) == Some(c),
        forall|k: int|
            j < k < tags.len() ==> !(meta_key(#[trigger] tags[k]) == Some("og:title"@)
                && meta_content(tags[k]) is Some),
    ensures
        fold_meta(tags).0.title == Some(c),
    decreases tags.len(),
{
    if j < tags.len() - 1 {
        let init = tags.drop_last();
        assert(init[j] == tags[j]);
        assert forall|k: int| j < k < init.len() implies !(meta_key(#[trigger] init[k]) == Some(
            "og:title"@,
        ) && meta_content(init[k]) is Some) by {
            assert(init[k] == tags[k]);
        }
        lemma_fold_og_title(init, j, c);
        assert(tags.last() == tags[tags.len() - 1]);
    }
}

proof fn lemma_fold_og_description(tags: Seq<Seq<char>>, j: int, c: Seq<char>)
    requires
        0 <= j < tags.len(),
        meta_key(tags[j]) == Some("og:description"@),
        meta_content(tags[j]) == Some(c),
        forall|k: int|
            j < k < tags.len() ==> !(meta_key(#[trigger] tags[k]) == Some("og:description"@)
                && meta_content(tags[k]) is Some),
    ensures
        fold_meta(tags).0.description == Some(c),
    decreases tags.len(),
{
    reveal_strlit("og:title");
    reveal_strlit("og:description");
    reveal_strlit("og:site_name");
    reveal_strlit("og:image");
    if j < tags.len() - 1 {
        let init = tags.drop_last();
        assert(init[j] == tags[j]);
        assert forall|k: int| j < k < init.len() implies !(meta_key(#[trigger] init[k]) == Some(
            "og:description"@,
        ) && meta_content(init[k]) is Some) by {
            assert(init[k] == tags[k]);
        }
        lemma_fold_og_description(init, j, c);
        assert(tags.last() == tags[tags.len() - 1]);
    } else {
        assert("og:description"@.len() != "og:title"@.len());
        assert("og:description"@ != "og:title"@);
    }
}

/// `og:title` is what sites publish for link previews, so it decides the
/// headline wherever it stands: the last `og:title` tag with content gives
/// the title, whatever `twitter:title`, `description` or `<title>` say.
pub proof fn og_title_wins(html: Seq<char>, url: Seq<char>, j: int, c: Seq<char>)
    requires
        0 <= j < meta_tags_from(html, 0).len(),
        meta_key(meta_tags_from(html, 0)[j]) == Some("og:title"@),
        meta_content(meta_tags_from(html, 0)[j]) == Some(c),
        forall|k: int|
            j < k < meta_tags_from(html, 0).len() ==> !(meta_key(
                #[trigger] meta_tags_from(html, 0)[k],
            ) == Some("og:title"@) && meta_content(meta_tags_from(html, 0)[k]) is Some),
    ensures
        parse_metadata_spec(html, url).title == Some(c),
{
    lemma_fold_og_title(meta_tags_from(html, 0), j, c);
}

/// Likewise `og:description` decides the description over `description` and
/// `twitter:description`, in whichever order the tags appear.
pub proof fn og_description_wins(html: Seq<char>, url: Seq<char>, j: int, c: Seq<char>)
    requires
        0 <= j < meta_tags_from(html, 0).len(),
        meta_key(meta_tags_from(html, 0)[j]) == Some("og:description"@),
        meta_content(meta_tags_from(html, 0)[j]) == Some(c),
        forall|k: int|
            j < k < meta_tags_from(html, 0).len() ==> !(meta_key(
                #[trigger] meta_tags_from(html, 0)[k],
            ) == Some("og:description"@) && meta_content(meta_tags_from(html, 0)[k]) is Some),
    ensures
        parse_metadata_spec(html, url).description == Some(c),
{
    lemma_fold_og_description(meta_tags_from(html, 0), j, c);
}

/// Whether some tag gives the key `key` a non-blank content.
pub open spec fn titled_by(tag: Seq<char>, key: Seq<char>) -> bool {
    meta_key(tag) == Some(key) && meta_content(tag) is Some
}

proof fn lemma_fold_no_titles(tags: Seq<Seq<char>>)
    requires
        forall|k: int|
            0 <= k < tags.len() ==> !titled_by(#[trigger] tags[k], "og:title"@) && !titled_by(
                tags[k],
                "twitter:title"@,
            ),
    ensures
        fold_meta(tags).0.title is None,
        fold_meta(tags).1.title is None,
    decreases tags.len(),
{
    if tags.len() > 0 {
        let init = tags.drop_last();
        assert forall|k: int| 0 <= k < init.len() implies !titled_by(#[trigger] init[k], "og:title"@)
            && !titled_by(init[k], "twitter:title"@) by {
            assert(init[k] == tags[k]);
        }
        lemma_fold_no_titles(init);
        assert(tags.last() == tags[tags.len() - 1]);
    }
}

proof fn lemma_fold_twitter_title(tags: Seq<Seq<char>>, j: int, c: Seq<char>)
    requires
        0 <= j < tags.len(),
        meta_key(tags[j]) == Some("twitter:title"@),
        meta_content(tags[j]) == Some(c),
        forall|k: int| 0 <= k < j ==> !titled_by(#[trigger] tags[k], "twitter:title"@),
        forall|k: int| 0 <= k < tags.len() ==> !titled_by(#[trigger] tags[k], "og:title"@),
    ensures
        fold_meta(tags).0.title is None,
        fold_meta(tags).1.title == Some(c),
    decreases tags.len(),
{
    reveal_strlit("og:title");
    reveal_strlit("og:description");
    reveal_strlit("og:site_name");
    reveal_strlit("og:image");
    reveal_strlit("twitter:title");
    let init = tags.drop_last();
    assert(tags.last() == tags[tags.len() - 1]);
    if j < tags.len() - 1 {
        assert(init[j] == tags[j]);
        assert forall|k: int| 0 <= k < j implies !titled_by(#[trigger] init[k], "twitter:title"@) by {
            assert(init[k] == tags[k]);
        }
        assert forall|k: int| 0 <= k < init.len() implies !titled_by(#[trigger] init[k], "og:title"@) by {
            assert(init[k] == tags[k]);
        }
        lemma_fold_twitter_title(init, j, c);
    } else {
        assert forall|k: int| 0 <= k < init.len() implies !titled_by(#[trigger] init[k], "og:title"@)
            && !titled_by(init[k], "twitter:title"@) by {
            assert(init[k] == tags[k]);
        }
        lemma_fold_no_titles(init);
        assert("twitter:title"@.len() != "og:title"@.len());
        assert("twitter:title"@.len() != "og:description"@.len());
        assert("twitter:title"@.len() != "og:site_name"@.len());
        assert("twitter:title"@.len() != "og:image"@.len());
    }
}

/// Without an `og:title` (one with non-blank content), the first
/// `twitter:title` with content names the card, whatever `<title>` says.
pub proof fn twitter_title_beats_title_element(html: Seq<char>, url: Seq<char>, j: int, c: Seq<char>)
    requires
        0 <= j < meta_tags_from(html, 0).len(),
        meta_key(meta_tags_from(html, 0)[j]) == Some("twitter:title"@),
        meta_content(meta_tags_from(html, 0)[j]) == Some(c),
        forall|k: int| 0 <= k < j ==> !titled_by(#[trigger] meta_tags_from(html, 0)[k], "twitter:title"@),
        forall|k: int|
            0 <= k < meta_tags_from(html, 0).len() ==> !titled_by(
                #[trigger] meta_tags_from(html, 0)[k],
                "og:title"@,
            ),
    ensures
        parse_metadata_spec(html, url).title == Some(c),
{
    lemma_fold_twitter_title(meta_tags_from(html, 0), j, c);
}

// ---------------------------------------------------------------- host

/// The display host of a URL: after `://`, up to the first `/`, `?` or `#`,
/// after the last `@`, before the first `:`, with a leading `www.` dropped;
/// `None` when there is no `://` or nothing is left.
pub open spec fn host_spec(url: Seq<char>) -> Option<Seq<char>> {
    match find_from(url, seq![':', '/', '/'], 0) {
        None => None,
        Some(i) => {
            let rest = url.skip(i + 3);
            let h1 = before_any(rest, seq!['/', '?', '#']);
            let h2 = after_last_any(h1, seq!['@']);
            let h3 = before_any(h2, seq![':']);
            let h4 = if starts_with(h3, seq!['w', 'w', 'w', '.']) {
                h3.skip(4)
            } else {
                h3
            };
            if h4.len() > 0 {
                Some(h4)
            } else {
                None
            }
        },
    }
}

/// The display host for a URL — `www.` dropped, since it is noise on a card.
pub fn host_of(url: &str) -> (r: Option<String>)
    ensures
        opt_view(r) == host_spec(url@),
{
    let u = chars_of(url);
    let sep = vec![':', '/', '/'];
    assert(sep@ == seq![':', '/', '/']);
    let i = match find_at(&u, &sep, 0) {
        Some(i) => i,
        None => return None,
    };
    proof {
        lemma_find_from(u@, sep@, 0);
    }
    assert(matches_at(u@, sep@, i as int));
    let n = u.len();
    let rest = slice_vec(&u, i + 3, n);
    let stops = vec!['/', '?', '#'];
    assert(stops@ == seq!['/', '?', '#']);
    let e1 = find_any(&rest, &stops, 0);
    let h1 = slice_vec(&rest, 0, e1);
    let at = vec!['@'];
    assert(at@ == seq!['@']);
    let s2 = rfind_any(&h1, &at, h1.len());
    let h2 = slice_vec(&h1, s2, h1.len());
    let colon = vec![':'];
    assert(colon@ == seq![':']);
    let e3 = find_any(&h2, &colon, 0);
    let h3 = slice_vec(&h2, 0, e3);
    let www = vec!['w', 'w', 'w', '.'];
    assert(www@ == seq!['w', 'w', 'w', '.']);
    let h4 = if starts_with_exec(&h3, &www) {
        slice_vec(&h3, 4, h3.len())
    } else {
        h3
    };
    if h4.len() > 0 {
        Some(string_of(&h4))
    } else {
        None
    }
}


// ---------------------------------------------------------------- copies

fn copy_opt(o: &Option<String>) -> (r: Option<String>)
    ensures
        opt_view(r) == opt_view(*o),
{
    match o {
        Some(s) => Some(s.clone()),
        None => None,
    }
}

impl LinkPreview {
    /// A field-for-field copy.
    pub fn duplicate(&self) -> (r: LinkPreview)
        ensures
            r@ == self@,
    {
        LinkPreview {
            url: self.url.clone(),
            title: copy_opt(&self.title),
            description: copy_opt(&self.description),
            site_name: copy_opt(&self.site_name),
            image: copy_opt(&self.image),
        }
    }
}

pub open spec fn preview_opt_view(o: Option<LinkPreview>) -> Option<PreviewView> {
    match o {
        Some(p) => Some(p@),
        None => None,
    }
}

fn copy_preview_opt(o: &Option<LinkPreview>) -> (r: Option<LinkPreview>)
    ensures
        preview_opt_view(r) == preview_opt_view(*o),
{
    match o {
        Some(p) => Some(p.duplicate()),
        None => None,
    }
}

// ---------------------------------------------------------------- the cache

/// How long a fetched preview stays good, in milliseconds (six hours).
pub const PREVIEW_TTL_MS: u64 = 21600000;

/// Bound on distinct URLs held in memory.
pub const PREVIEW_MAX_CACHE: usize = 512;

/// One remembered fetch: when it was made, and what it gave (`None` when the
/// page offered nothing worth a card).
pub struct CachedPreview {
    pub url: String,
    pub at_ms: u64,
    pub value: Option<LinkPreview>,
}

pub struct EntryView {
    pub url: Seq<char>,
    pub at: u64,
    pub value: Option<PreviewView>,
}

impl View for CachedPreview {
    type V = EntryView;

    open spec fn view(&self) -> EntryView {
        EntryView { url: self.url@, at: self.at_ms, value: preview_opt_view(self.value) }
    }
}

/// The per-session memory of fetched previews, one entry per URL.
pub struct PreviewCache {
    entries: Vec<CachedPreview>,
}

/// Time since `at`, saturating at zero as `Instant::elapsed` does.
pub open spec fn elapsed(at: u64, now: u64) -> int {
    if now >= at {
        now - at
    } else {
        0
    }
}

/// The first position holding `url`, at or after `i`.
pub open spec fn url_index_from(s: Seq<EntryView>, url: Seq<char>, i: int) -> Option<int>
    decreases s.len() - i,
{
    if i < 0 || i >= s.len() {
        None
    } else if s[i].url == url {
        Some(i)
    } else {
        url_index_from(s, url, i + 1)
    }
}

pub open spec fn url_index(s: Seq<EntryView>, url: Seq<char>) -> Option<int> {
    url_index_from(s, url, 0)
}

/// What a lookup answers: the remembered value while it is younger than the
/// TTL; `None` when nothing is remembered or it has expired.
pub open spec fn lookup_spec(s: Seq<EntryView>, url: Seq<char>, now: u64) -> Option<
    Option<PreviewView>,
> {
    match url_index(s, url) {
        Some(i) => if elapsed(s[i].at, now) < PREVIEW_TTL_MS {
            Some(s[i].value)
        } else {
            None
        },
        None => None,
    }
}

/// The entries after a lookup: an expired entry is dropped so that a refetch
/// can replace it; otherwise nothing changes.
pub open spec fn after_lookup(s: Seq<EntryView>, url: Seq<char>, now: u64) -> Seq<EntryView> {
    match url_index(s, url) {
        Some(i) => if elapsed(s[i].at, now) < PREVIEW_TTL_MS {
            s
        } else {
            s.remove(i)
        },
        None => s,
    }
}

/// The entries after remembering `e`: a full cache is cleared first (crude
/// but adequate, it only refills from notes being read); an entry for the
/// same URL is replaced in place; otherwise `e` is added.
pub open spec fn remember_spec(s: Seq<EntryView>, e: EntryView) -> Seq<EntryView> {
    if s.len() >= PREVIEW_MAX_CACHE {
        seq![e]
    } else {
        match url_index(s, e.url) {
            Some(i) => s.update(i, e),
            None => s.push(e),
        }
    }
}

proof fn lemma_url_index_from(s: Seq<EntryView>, url: Seq<char>, i: int)
    requires
        0 <= i,
    ensures
        url_index_from(s, url, i) matches Some(k) ==> i <= k < s.len() && s[k].url == url
            && forall|m: int| i <= m < k ==> #[trigger] s[m].url != url,
        url_index_from(s, url, i) is None ==> forall|m: int|
            i <= m < s.len() ==> #[trigger] s[m].url != url,
    decreases s.len() - i,
{
    if i < s.len() && s[i].url != url {
        lemma_url_index_from(s, url, i + 1);
    }
}

/// Pin down `url_index` from where the URL first occurs.
proof fn lemma_url_index_is(s: Seq<EntryView>, url: Seq<char>, k: int, i: int)
    requires
        0 <= i <= k <= s.len(),
        k < s.len() ==> s[k].url == url,
        forall|m: int| i <= m < k ==> #[trigger] s[m].url != url,
    ensures
        url_index_from(s, url, i) == if k < s.len() {
            Some(k)
        } else {
            None::<int>
        },
    decreases k - i,
{
    if i < k {
        lemma_url_index_is(s, url, k, i + 1);
    }
}

impl PreviewCache {
    pub closed spec fn entries_view(&self) -> Seq<EntryView> {
        self.entries@.map_values(|e: CachedPreview| e@)
    }

    /// At most `PREVIEW_MAX_CACHE` entries, one per URL.
    pub closed spec fn wf(&self) -> bool {
        &&& self.entries@.len() <= PREVIEW_MAX_CACHE
        &&& forall|i: int, j: int|
            0 <= i < j < self.entries@.len() ==> #[trigger] self.entries@[i].url@
                != #[trigger] self.entries@[j].url@
    }

    pub fn new() -> (c: PreviewCache)
        ensures
            c.wf(),
            c.entries_view() == Seq::<EntryView>::empty(),
    {
        PreviewCache { entries: Vec::new() }
    }

    pub fn len(&self) -> (n: usize)
        ensures
            n == self.entries_view().len(),
    {
        self.entries.len()
    }

    fn position(&self, url: &str) -> (r: Option<usize>)
        ensures
            r matches Some(i) ==> i < self.entries@.len() && self.entries@[i as int].url@ == url@,
            match r {
                Some(i) => url_index(self.entries_view(), url@) == Some(i as int),
                None => url_index(self.entries_view(), url@) is None,
            },
    {
        let ghost s = self.entries_view();
        let mut i: usize = 0;
        while i < self.entries.len()
            invariant
                s == self.entries_view(),
                i <= s.len(),
                forall|m: int| 0 <= m < i ==> #[trigger] s[m].url != url@,
            decreases s.len() - i,
        {
            if self.entries[i].url == url.to_owned() {
                proof {
                    lemma_url_index_is(s, url@, i as int, 0);
                }
                return Some(i);
            }
            i = i + 1;
        }
        proof {
            lemma_url_index_is(s, url@, s.len() as int, 0);
        }
        None
    }

    /// The remembered preview for `url`, if it is younger than the TTL at
    /// `now_ms`; an expired entry is dropped.
    pub fn cached(&mut self, url: &str, now_ms: u64) -> (r: Option<Option<LinkPreview>>)
        requires
            old(self).wf(),
        ensures
            final(self).wf(),
            match r {
                Some(v) => lookup_spec(old(self).entries_view(), url@, now_ms) == Some(
                    preview_opt_view(v),
                ),
                None => lookup_spec(old(self).entries_view(), url@, now_ms) is None,
            },
            final(self).entries_view() == after_lookup(old(self).entries_view(), url@, now_ms),
    {
        match self.position(url) {
            None => None,
            Some(i) => {
                let at = self.entries[i].at_ms;
                let age = if now_ms >= at {
                    now_ms - at
                } else {
                    0
                };
                if age < PREVIEW_TTL_MS {
                    Some(copy_preview_opt(&self.entries[i].value))
                } else {
                    let ghost before = self.entries@;
                    self.entries.remove(i);
                    assert(self.entries_view() == old(self).entries_view().remove(i as int));
                    assert forall|a: int, b: int|
                        0 <= a < b < self.entries@.len() implies #[trigger] self.entries@[a].url@
                        != #[trigger] self.entries@[b].url@ by {
                        let a0 = if a < i {
                            a
                        } else {
                            a + 1
                        };
                        let b0 = if b < i {
                            b
                        } else {
                            b + 1
                        };
                        assert(self.entries@[a] == before[a0]);
                        assert(self.entries@[b] == before[b0]);
                    }
                    None
                }
            },
        }
    }

    /// Remember what fetching `url` gave at `now_ms`.
    pub fn remember(&mut self, url: &str, value: Option<LinkPreview>, now_ms: u64)
        requires
            old(self).wf(),
        ensures
            final(self).wf(),
            final(self).entries_view() == remember_spec(
                old(self).entries_view(),
                EntryView { url: url@, at: now_ms, value: preview_opt_view(value) },
            ),
    {
        let entry = CachedPreview { url: url.to_owned(), at_ms: now_ms, value };
        if self.entries.len() >= PREVIEW_MAX_CACHE {
            self.entries = Vec::new();
            self.entries.push(entry);
            assert(self.entries_view() == seq![entry@]);
            return;
        }
        match self.position(url) {
            Some(i) => {
                let ghost before = self.entries@;
                self.entries.set(i, entry);
                assert(self.entries_view() == old(self).entries_view().update(i as int, entry@));
                assert forall|a: int, b: int|
                    0 <= a < b < self.entries@.len() implies #[trigger] self.entries@[a].url@
                    != #[trigger] self.entries@[b].url@ by {
                    if a == i {
                        assert(before[i as int].url@ == url@);
                        assert(before[b].url@ != before[a].url@);
                    } else if b == i {
                        assert(before[i as int].url@ == url@);
                        assert(before[b].url@ != before[a].url@);
                    }
                }
            },
            None => {
                let ghost before = self.entries_view();
                proof {
                    lemma_url_index_from(before, url@, 0);
                }
                self.entries.push(entry);
                assert(self.entries_view() == old(self).entries_view().push(entry@));
                assert forall|a: int, b: int|
                    0 <= a < b < self.entries@.len() implies #[trigger] self.entries@[a].url@
                    != #[trigger] self.entries@[b].url@ by {
                    if b == self.entries@.len() - 1 {
                        assert(before[a].url == self.entries@[a].url@);
                    }
                }
            },
        }
    }
}

/// Once a fetch is remembered, looking it up again within the TTL gives back
/// exactly what was remembered — one request per URL per session.
pub proof fn remembered_preview_is_recalled(s: Seq<EntryView>, e: EntryView, now: u64)
    requires
        forall|i: int, j: int| 0 <= i < j < s.len() ==> #[trigger] s[i].url != #[trigger] s[j].url,
        e.at <= now,
        now - e.at < PREVIEW_TTL_MS,
    ensures
        lookup_spec(remember_spec(s, e), e.url, now) == Some(e.value),
{
    let r = remember_spec(s, e);
    if s.len() >= PREVIEW_MAX_CACHE {
        lemma_url_index_is(r, e.url, 0, 0);
    } else {
        lemma_url_index_from(s, e.url, 0);
        match url_index(s, e.url) {
            Some(i) => {
                assert forall|m: int| 0 <= m < i implies #[trigger] r[m].url != e.url by {
                    assert(r[m] == s[m]);
                }
                lemma_url_index_is(r, e.url, i, 0);
            },
            None => {
                assert forall|m: int| 0 <= m < s.len() implies #[trigger] r[m].url != e.url by {
                    assert(r[m] == s[m]);
                }
                lemma_url_index_is(r, e.url, s.len() as int, 0);
            },
        }
    }
}

/// At most one entry per URL.
pub open spec fn unique_urls(s: Seq<EntryView>) -> bool {
    forall|i: int, j: int| 0 <= i < j < s.len() ==> #[trigger] s[i].url != #[trigger] s[j].url
}

/// The entry remembered for `url`, if any.
pub open spec fn entry_for(s: Seq<EntryView>, url: Seq<char>) -> Option<EntryView> {
    match url_index(s, url) {
        Some(i) => Some(s[i]),
        None => None,
    }
}

/// One call on the cache: `remember` of an entry, or `cached` of a URL at a
/// time.
pub enum CacheOp {
    Remember(EntryView),
    Lookup(Seq<char>, u64),
}

pub open spec fn apply_op(s: Seq<EntryView>, op: CacheOp) -> Seq<EntryView> {
    match op {
        CacheOp::Remember(e) => remember_spec(s, e),
        CacheOp::Lookup(u, t) => after_lookup(s, u, t),
    }
}

/// The entries after a run of calls, in order.
pub open spec fn run_ops(s: Seq<EntryView>, ops: Seq<CacheOp>) -> Seq<EntryView>
    decreases ops.len(),
{
    if ops.len() == 0 {
        s
    } else {
        run_ops(apply_op(s, ops[0]), ops.drop_first())
    }
}

/// Whether some `remember` in the run finds the cache full and clears it.
pub open spec fn clears(s: Seq<EntryView>, ops: Seq<CacheOp>) -> bool
    decreases ops.len(),
{
    if ops.len() == 0 {
        false
    } else {
        (ops[0] is Remember && s.len() >= PREVIEW_MAX_CACHE) || clears(
            apply_op(s, ops[0]),
            ops.drop_first(),
        )
    }
}

proof fn lemma_locate(s: Seq<EntryView>, url: Seq<char>, k: int)
    requires
        unique_urls(s),
        0 <= k < s.len(),
        s[k].url == url,
    ensures
        url_index(s, url) == Some(k),
{
    assert forall|m: int| 0 <= m < k implies #[trigger] s[m].url != url by {
        assert(s[m].url != s[k].url);
    }
    lemma_url_index_is(s, url, k, 0);
}

proof fn lemma_absent(s: Seq<EntryView>, url: Seq<char>)
    requires
        forall|m: int| 0 <= m < s.len() ==> #[trigger] s[m].url != url,
    ensures
        url_index(s, url) is None,
{
    lemma_url_index_is(s, url, s.len() as int, 0);
}

/// Each call keeps one entry per URL, and leaves the entry of any other URL
/// as it was, unless a `remember` finds the cache full.
proof fn lemma_op_keeps_others(s: Seq<EntryView>, op: CacheOp, url: Seq<char>)
    requires
        unique_urls(s),
        !(op is Remember && s.len() >= PREVIEW_MAX_CACHE),
        match op {
            CacheOp::Remember(e) => e.url != url,
            CacheOp::Lookup(u, _) => u != url,
        },
    ensures
        unique_urls(apply_op(s, op)),
        entry_for(apply_op(s, op), url) == entry_for(s, url),
{
    let s2 = apply_op(s, op);
    let (key, changed): (Seq<char>, bool) = match op {
        CacheOp::Remember(e) => (e.url, true),
        CacheOp::Lookup(u, _) => (u, false),
    };
    lemma_url_index_from(s, key, 0);
    lemma_url_index_from(s, url, 0);
    match op {
        CacheOp::Remember(e) => {
            match url_index(s, e.url) {
                Some(i) => {
                    assert(s2 == s.update(i, e));
                    assert forall|a: int, b: int| 0 <= a < b < s2.len() implies #[trigger] s2[a].url
                        != #[trigger] s2[b].url by {
                        if a == i || b == i {
                            assert(s[a].url != s[b].url);
                        }
                    }
                    match url_index(s, url) {
                        Some(k) => {
                            assert(k != i);
                            lemma_locate(s2, url, k);
                        },
                        None => {
                            assert forall|m: int| 0 <= m < s2.len() implies #[trigger] s2[m].url
                                != url by {
                                if m != i {
                                    assert(s2[m] == s[m]);
                                }
                            }
                            lemma_absent(s2, url);
                        },
                    }
                },
                None => {
                    assert(s2 == s.push(e));
                    assert forall|a: int, b: int| 0 <= a < b < s2.len() implies #[trigger] s2[a].url
                        != #[trigger] s2[b].url by {
                        if b == s.len() {
                            assert(s2[a] == s[a]);
                        }
                    }
                    match url_index(s, url) {
                        Some(k) => {
                            assert(s2[k] == s[k]);
                            lemma_locate(s2, url, k);
                        },
                        None => {
                            assert forall|m: int| 0 <= m < s2.len() implies #[trigger] s2[m].url
                                != url by {
                                if m < s.len() {
                                    assert(s2[m] == s[m]);
                                }
                            }
                            lemma_absent(s2, url);
                        },
                    }
                },
            }
        },
        CacheOp::Lookup(u, t) => {
            match url_index(s, u) {
                Some(i) => {
                    if elapsed(s[i].at, t) >= PREVIEW_TTL_MS {
                        assert(s2 == s.remove(i));
                        assert forall|a: int, b: int| 0 <= a < b < s2.len() implies #[trigger] s2[a].url
                            != #[trigger] s2[b].url by {
                            let a0 = if a < i { a } else { a + 1 };
                            let b0 = if b < i { b } else { b + 1 };
                            assert(s2[a] == s[a0] && s2[b] == s[b0]);
                        }
                        match url_index(s, url) {
                            Some(k) => {
                                assert(k != i);
                                let k2 = if k < i { k } else { k - 1 };
                                assert(s2[k2] == s[k]);
                                lemma_locate(s2, url, k2);
                            },
                            None => {
                                assert forall|m: int| 0 <= m < s2.len() implies #[trigger] s2[m].url
                                    != url by {
                                    let m0 = if m < i { m } else { m + 1 };
                                    assert(s2[m] == s[m0]);
                                }
                                lemma_absent(s2, url);
                            },
                        }
                    }
                },
                None => {},
            }
        },
    }
}

/// A preview stays recalled across other calls: once a fetch of `e.url` is
/// remembered, any run of `remember`s of other URLs and lookups (of any URL,
/// at times no later than `now`) leaves a lookup of `e.url` at `now`, within
/// the TTL, answering what was remembered, so long as no `remember` in the
/// run finds the cache full and clears it.
pub proof fn preview_recalled_across_other_calls(
    s: Seq<EntryView>,
    e: EntryView,
    ops: Seq<CacheOp>,
    now: u64,
)
    requires
        unique_urls(s),
        e.at <= now,
        now - e.at < PREVIEW_TTL_MS,
        forall|i: int| 0 <= i < ops.len() ==> match #[trigger] ops[i] {
            CacheOp::Remember(e2) => e2.url != e.url,
            CacheOp::Lookup(_, t) => t <= now,
        },
        !clears(remember_spec(s, e), ops),
    ensures
        lookup_spec(run_ops(remember_spec(s, e), ops), e.url, now) == Some(e.value),
{
    let s1 = remember_spec(s, e);
    lemma_remember_unique(s, e);
    remembered_preview_is_recalled(s, e, now);
    assert(entry_for(s1, e.url) == Some(e)) by {
        if s.len() >= PREVIEW_MAX_CACHE {
            lemma_locate(s1, e.url, 0);
        } else {
            lemma_url_index_from(s, e.url, 0);
            match url_index(s, e.url) {
                Some(i) => {
                    lemma_locate(s1, e.url, i);
                },
                None => {
                    lemma_locate(s1, e.url, s.len() as int);
                },
            }
        }
    }
    lemma_run_keeps(s1, e, ops, now);
    let s2 = run_ops(s1, ops);
    lemma_url_index_from(s2, e.url, 0);
}

proof fn lemma_remember_unique(s: Seq<EntryView>, e: EntryView)
    requires
        unique_urls(s),
    ensures
        unique_urls(remember_spec(s, e)),
        remember_spec(s, e).len() > 0,
{
    let s2 = remember_spec(s, e);
    if s.len() < PREVIEW_MAX_CACHE {
        lemma_url_index_from(s, e.url, 0);
        match url_index(s, e.url) {
            Some(i) => {
                assert forall|a: int, b: int| 0 <= a < b < s2.len() implies #[trigger] s2[a].url
                    != #[trigger] s2[b].url by {
                    if a == i || b == i {
                        assert(s[a].url != s[b].url);
                    }
                }
            },
            None => {
                assert forall|a: int, b: int| 0 <= a < b < s2.len() implies #[trigger] s2[a].url
                    != #[trigger] s2[b].url by {
                    if b == s.len() {
                        assert(s2[a] == s[a]);
                    }
                }
            },
        }
    }
}

proof fn lemma_run_keeps(s: Seq<EntryView>, e: EntryView, ops: Seq<CacheOp>, now: u64)
    requires
        unique_urls(s),
        entry_for(s, e.url) == Some(e),
        e.at <= now,
        now - e.at < PREVIEW_TTL_MS,
        forall|i: int| 0 <= i < ops.len() ==> match #[trigger] ops[i] {
            CacheOp::Remember(e2) => e2.url != e.url,
            CacheOp::Lookup(_, t) => t <= now,
        },
        !clears(s, ops),
    ensures
        unique_urls(run_ops(s, ops)),
        entry_for(run_ops(s, ops), e.url) == Some(e),
    decreases ops.len(),
{
    if ops.len() > 0 {
        let op = ops[0];
        let rest = ops.drop_first();
        assert forall|i: int| 0 <= i < rest.len() implies match #[trigger] rest[i] {
            CacheOp::Remember(e2) => e2.url != e.url,
            CacheOp::Lookup(_, t) => t <= now,
        } by {
            assert(rest[i] == ops[i + 1]);
        }
        let same = match op {
            CacheOp::Remember(_) => false,
            CacheOp::Lookup(u, _) => u == e.url,
        };
        if same {
            // A lookup of the remembered URL itself finds it fresh and keeps it.
            lemma_url_index_from(s, e.url, 0);
            let t = op->Lookup_1;
            assert(elapsed(e.at, t) < PREVIEW_TTL_MS);
            assert(apply_op(s, op) == s);
        } else {
            lemma_op_keeps_others(s, op, e.url);
        }
        lemma_run_keeps(apply_op(s, op), e, rest, now);
    }
}

// ---------------------------------------------------------------- fetching

/// Stop reading once the head is well past (256 KiB).
pub const PREVIEW_MAX_BYTES: usize = 262144;

/// Only ever speak http(s): a `file:` or custom-scheme link is never
/// dereferenced just because it appeared in a note.
pub fn is_previewable_url(url: &str) -> (b: bool)
    ensures
        b == (starts_with(url@, "http://"@) || starts_with(url@, "https://"@)),
{
    let u = chars_of(url);
    let a = chars_of("http://");
    let b = chars_of("https://");
    starts_with_exec(&u, &a) || starts_with_exec(&u, &b)
}

/// Whether a `Content-Type` names HTML — the only kind that can carry
/// Open Graph tags.
pub fn is_html_content_type(content_type: Option<&str>) -> (b: bool)
    ensures
        b == match content_type {
            Some(ct) => find_from(ct@, "text/html"@, 0) is Some || find_from(
                ct@,
                "application/xhtml"@,
                0,
            ) is Some,
            None => false,
        },
{
    match content_type {
        None => false,
        Some(ct) => {
            let c = chars_of(ct);
            let h = chars_of("text/html");
            let x = chars_of("application/xhtml");
            find_at(&c, &h, 0).is_some() || find_at(&c, &x, 0).is_some()
        },
    }
}

/// The text of `bytes` if they are valid UTF-8, as `std::str::from_utf8`
/// decides.
#[verifier::external_body]
fn utf8_text(bytes: &[u8]) -> (r: Option<String>)
    ensures
        r is Some <==> valid_utf8(bytes@),
        r matches Some(s) ==> s@ == decode_utf8(bytes@),
{
    std::str::from_utf8(bytes).ok().map(|s| s.to_owned())
}

/// `String::from_utf8_lossy`: invalid sequences become U+FFFD.
pub uninterp spec fn utf8_lossy(bytes: Seq<u8>) -> Seq<char>;

/// `String::from_utf8_lossy`; valid UTF-8 decodes unchanged, and otherwise
/// the result is named, not restated.
#[verifier::external_body]
fn lossy_text(bytes: &[u8]) -> (r: String)
    ensures
        r@ == utf8_lossy(bytes@),
        valid_utf8(bytes@) ==> r@ == decode_utf8(bytes@),
{
    String::from_utf8_lossy(bytes).into_owned()
}

/// Whether the bytes read so far already hold the end of the head: they are
/// valid UTF-8 and contain `</head>`, case-insensitively.
pub fn head_complete(body: &[u8]) -> (b: bool)
    ensures
        b == (valid_utf8(body@) && find_from(
            ascii_lower(decode_utf8(body@)),
            "</head>"@,
            0,
        ) is Some),
{
    match utf8_text(body) {
        None => false,
        Some(s) => {
            let v = chars_of(s.as_str());
            let l = lowercase_ascii(&v);
            let pat = chars_of("</head>");
            find_at(&l, &pat, 0).is_some()
        },
    }
}

/// The card for a fetched head: the first `PREVIEW_MAX_BYTES` bytes, decoded
/// leniently, scraped, and kept only when it has a title or a description.
pub fn preview_from_body(body: &[u8], url: &str) -> (r: Option<LinkPreview>)
    ensures
        ({
            let cut = if body@.len() > PREVIEW_MAX_BYTES {
                body@.take(PREVIEW_MAX_BYTES as int)
            } else {
                body@
            };
            let p = parse_metadata_spec(utf8_lossy(cut), url@);
            match r {
                Some(v) => v@ == p && (p.title is Some || p.description is Some),
                None => !(p.title is Some || p.description is Some),
            }
        }),
{
    let n = if body.len() > PREVIEW_MAX_BYTES {
        PREVIEW_MAX_BYTES
    } else {
        body.len()
    };
    let cut = prefix_bytes(body, n);
    assert(cut@ == if body@.len() > PREVIEW_MAX_BYTES {
        body@.take(PREVIEW_MAX_BYTES as int)
    } else {
        body@
    });
    let html = lossy_text(&cut);
    let p = parse_metadata(html.as_str(), url);
    if p.is_useful() {
        Some(p)
    } else {
        None
    }
}

fn prefix_bytes(b: &[u8], n: usize) -> (r: Vec<u8>)
    requires
        n <= b@.len(),
    ensures
        r@ == b@.take(n as int),
{
    let mut r: Vec<u8> = Vec::new();
    let mut i: usize = 0;
    while i < n
        invariant
            i <= n <= b@.len(),
            r@ == b@.take(i as int),
        decreases n - i,
    {
        r.push(b[i]);
        i = i + 1;
        assert(b@.take(i as int) == b@.take(i - 1).push(b@[i - 1]));
    }
    r
}

} // verus!
