//! Linked folders: a vault folder mirrored to a plain directory on disk, kept
//! in sync in both directions. Here are the link records, the names a link is
//! given, and every decision of the sync pass; the disk and vault work that
//! carries them out happens around them.
use vstd::prelude::*;
use crate::tools::string_views;
use crate::text::{
    after_last_any, ascii_lower_char, back_while, char_is_alphanumeric, chars_of, concat, hex,
    hex_encode, is_alphanumeric, is_char, lemma_back_while_bounds, lemma_hex_len, rfind_any,
    slice_vec, starts_with, starts_with_exec, string_of, to_ascii_lower, trim, trim_by,
    trim_char_chars, trim_chars, trim_end_by, back_char,
};
use vstd::utf8::{
    decode_utf8, decode_utf8_split, encode_scalar, encode_utf8, encode_utf8_decode_utf8,
    encode_utf8_valid_utf8, is_char_boundary,
};
use vstd::string::StringSliceAdditionalSpecFns;

verus! {

// ============================ config ============================

/// A persisted link: which vault folder is mirrored where.
#[derive(Debug, Clone)]
pub struct LinkConfig {
    pub id: String,
    pub vault: String,
    /// Folder prefix within the vault; "" links the whole vault.
    pub folder: String,
    /// Canonical storage — what's actually watched and written to.
    pub local_dir: String,
    /// The `~/.vellum/local/<slug>` symlink pointing at `local_dir`.
    pub friendly_path: String,
    pub enabled: bool,
}

/// What the Settings UI shows for one link.
#[derive(Debug, Clone)]
pub struct LinkInfo {
    pub id: String,
    pub vault: String,
    pub vault_name: String,
    /// Folder prefix without the trailing slash ("" for a whole-vault link).
    pub folder: String,
    /// The friendly path — what to add to an editor.
    pub path: String,
    pub enabled: bool,
}

/// A vault's id and its display name.
#[derive(Debug, Clone)]
pub struct VaultName {
    pub id: String,
    pub name: String,
}

fn copy_config(c: &LinkConfig) -> (r: LinkConfig)
    ensures
        r.id@ == c.id@,
        r.vault@ == c.vault@,
        r.folder@ == c.folder@,
        r.local_dir@ == c.local_dir@,
        r.friendly_path@ == c.friendly_path@,
        r.enabled == c.enabled,
{
    LinkConfig {
        id: c.id.clone(),
        vault: c.vault.clone(),
        folder: c.folder.clone(),
        local_dir: c.local_dir.clone(),
        friendly_path: c.friendly_path.clone(),
        enabled: c.enabled,
    }
}

/// The display name of vault `id` among `vaults` (the first with that id),
/// falling back to the id itself.
pub open spec fn vault_name_spec(vaults: Seq<VaultName>, id: Seq<char>) -> Seq<char>
    decreases vaults.len(),
{
    if vaults.len() == 0 {
        id
    } else if vaults[0].id@ == id {
        vaults[0].name@
    } else {
        vault_name_spec(vaults.drop_first(), id)
    }
}

/// The display name of vault `id`, or the id when no vault has it.
pub fn vault_name_of(vaults: &Vec<VaultName>, id: &str) -> (r: String)
    ensures
        r@ == vault_name_spec(vaults@, id@),
{
    let mut i: usize = 0;
    assert(vaults@.skip(0) == vaults@);
    while i < vaults.len()
        invariant
            i <= vaults@.len(),
            vault_name_spec(vaults@.skip(i as int), id@) == vault_name_spec(vaults@, id@),
        decreases vaults@.len() - i,
    {
        assert(vaults@.skip(i as int).drop_first() == vaults@.skip(i + 1));
        if vaults[i].id == id.to_owned() {
            return vaults[i].name.clone();
        }
        i = i + 1;
    }
    id.to_owned()
}

/// What the Settings UI shows for `cfg`, given its vault's display name:
/// the folder loses its trailing slashes.
pub fn info_of(cfg: &LinkConfig, vault_name: &str) -> (r: LinkInfo)
    ensures
        r.id@ == cfg.id@,
        r.vault@ == cfg.vault@,
        r.vault_name@ == vault_name@,
        r.folder@ == trim_end_by(cfg.folder@, is_char('/')),
        r.path@ == cfg.friendly_path@,
        r.enabled == cfg.enabled,
{
    let f = chars_of(cfg.folder.as_str());
    let end = back_char(&f, '/', f.len());
    let folder = string_of(&slice_vec(&f, 0, end));
    LinkInfo {
        id: cfg.id.clone(),
        vault: cfg.vault.clone(),
        vault_name: vault_name.to_owned(),
        folder,
        path: cfg.friendly_path.clone(),
        enabled: cfg.enabled,
    }
}

/// Remove the first link with id `id`, handing it back; `None` ("link not
/// found") leaves the list as it was.
pub fn remove_config(cfgs: &mut Vec<LinkConfig>, id: &str) -> (r: Option<LinkConfig>)
    ensures
        match r {
            Some(c) => exists|i: int|
                0 <= i < old(cfgs)@.len() && old(cfgs)@[i].id@ == id@ && (forall|k: int|
                    0 <= k < i ==> #[trigger] old(cfgs)@[k].id@ != id@) && final(cfgs)@
                    == old(cfgs)@.remove(i) && c == old(cfgs)@[i],
            None => final(cfgs)@ == old(cfgs)@ && forall|k: int|
                0 <= k < old(cfgs)@.len() ==> #[trigger] old(cfgs)@[k].id@ != id@,
        },
{
    let mut i: usize = 0;
    while i < cfgs.len()
        invariant
            cfgs@ == old(cfgs)@,
            i <= cfgs@.len(),
            forall|k: int| 0 <= k < i ==> #[trigger] cfgs@[k].id@ != id@,
        decreases cfgs@.len() - i,
    {
        if cfgs[i].id == id.to_owned() {
            let c = cfgs.remove(i);
            return Some(c);
        }
        i = i + 1;
    }
    None
}

/// Set `enabled` on the first link with id `id` and hand back a copy of it;
/// `None` ("link not found") leaves the list as it was.
pub fn set_config_enabled(cfgs: &mut Vec<LinkConfig>, id: &str, enabled: bool) -> (r: Option<
    LinkConfig,
>)
    ensures
        final(cfgs)@.len() == old(cfgs)@.len(),
        match r {
            Some(c) => exists|i: int|
                0 <= i < old(cfgs)@.len() && old(cfgs)@[i].id@ == id@ && (forall|k: int|
                    0 <= k < i ==> #[trigger] old(cfgs)@[k].id@ != id@) && (forall|k: int|
                    0 <= k < old(cfgs)@.len() && k != i ==> #[trigger] final(cfgs)@[k]
                        == old(cfgs)@[k]) && same_link(final(cfgs)@[i], old(cfgs)@[i])
                    && final(cfgs)@[i].enabled == enabled && same_link(c, old(cfgs)@[i])
                    && c.enabled == enabled,
            None => final(cfgs)@ == old(cfgs)@ && forall|k: int|
                0 <= k < old(cfgs)@.len() ==> #[trigger] old(cfgs)@[k].id@ != id@,
        },
{
    let mut i: usize = 0;
    while i < cfgs.len()
        invariant
            cfgs@ == old(cfgs)@,
            i <= cfgs@.len(),
            forall|k: int| 0 <= k < i ==> #[trigger] cfgs@[k].id@ != id@,
        decreases cfgs@.len() - i,
    {
        if cfgs[i].id == id.to_owned() {
            let mut c = copy_config(&cfgs[i]);
            c.enabled = enabled;
            let back = copy_config(&c);
            cfgs.set(i, back);
            assert(same_link(cfgs@[i as int], old(cfgs)@[i as int]));
            assert(forall|k: int|
                0 <= k < old(cfgs)@.len() && k != i ==> #[trigger] cfgs@[k] == old(cfgs)@[k]);
            return Some(c);
        }
        i = i + 1;
    }
    None
}

/// `s` without any link whose id is `id`, in order.
pub open spec fn without_id(s: Seq<LinkConfig>, id: Seq<char>) -> Seq<LinkConfig>
    decreases s.len(),
{
    if s.len() == 0 {
        Seq::empty()
    } else if s[0].id@ == id {
        without_id(s.drop_first(), id)
    } else {
        seq![s[0]] + without_id(s.drop_first(), id)
    }
}

/// The links to save after starting link `id` failed, so that no persisted
/// link is left with nothing running: a link that was being added is dropped
/// again (every entry with its id); one that was being switched on is
/// switched back off (the first entry with its id), and the rest are kept.
pub fn after_failed_start(cfgs: Vec<LinkConfig>, id: &str, adding: bool) -> (r: Vec<LinkConfig>)
    ensures
        adding ==> r@ == without_id(cfgs@, id@),
        !adding ==> r@.len() == cfgs@.len(),
        !adding ==> (forall|k: int| 0 <= k < cfgs@.len() ==> #[trigger] cfgs@[k].id@ != id@) ==> r@
            == cfgs@,
        !adding ==> (exists|k: int| 0 <= k < cfgs@.len() && #[trigger] cfgs@[k].id@ == id@) ==> exists|
            i: int,
        |
            0 <= i < cfgs@.len() && cfgs@[i].id@ == id@ && (forall|k: int|
                0 <= k < i ==> #[trigger] cfgs@[k].id@ != id@) && (forall|k: int|
                0 <= k < cfgs@.len() && k != i ==> #[trigger] r@[k] == cfgs@[k]) && same_link(
                r@[i],
                cfgs@[i],
            ) && !r@[i].enabled,
{
    let mut cfgs = cfgs;
    if !adding {
        let _ = set_config_enabled(&mut cfgs, id, false);
        return cfgs;
    }
    let ghost orig = cfgs@;
    let mut out: Vec<LinkConfig> = Vec::new();
    assert(orig.skip(0) == orig);
    let ghost mut n: int = 0;
    while cfgs.len() > 0
        invariant
            0 <= n <= orig.len(),
            cfgs@ == orig.skip(n),
            out@ + without_id(cfgs@, id@) == without_id(orig, id@),
        decreases cfgs@.len(),
    {
        let ghost rest = cfgs@;
        let c = cfgs.remove(0);
        assert(cfgs@ == rest.drop_first());
        assert(rest.drop_first() == orig.skip(n + 1));
        proof {
            n = n + 1;
        }
        if c.id != id.to_owned() {
            let ghost before = out@;
            out.push(c);
            assert(out@ + without_id(cfgs@, id@) == before + (seq![rest[0]] + without_id(
                rest.drop_first(),
                id@,
            )));
        }
    }
    assert(out@ + without_id(cfgs@, id@) == out@);
    out
}

/// The same link record, apart from whether it is switched on.
pub open spec fn same_link(a: LinkConfig, b: LinkConfig) -> bool {
    &&& a.id@ == b.id@
    &&& a.vault@ == b.vault@
    &&& a.folder@ == b.folder@
    &&& a.local_dir@ == b.local_dir@
    &&& a.friendly_path@ == b.friendly_path@
}

/// The links that are switched on, in order: the ones resumed at launch.
pub fn enabled_links(cfgs: &Vec<LinkConfig>) -> (r: Vec<LinkConfig>)
    ensures
        forall|k: int| 0 <= k < r@.len() ==> (#[trigger] r@[k]).enabled,
        r@.map_values(|c: LinkConfig| c.id@) == cfgs@.filter(|c: LinkConfig| c.enabled).map_values(
            |c: LinkConfig| c.id@,
        ),
{
    let mut r: Vec<LinkConfig> = Vec::new();
    let mut i: usize = 0;
    while i < cfgs.len()
        invariant
            i <= cfgs@.len(),
            forall|k: int| 0 <= k < r@.len() ==> (#[trigger] r@[k]).enabled,
            r@.map_values(|c: LinkConfig| c.id@) == cfgs@.take(i as int).filter(
                |c: LinkConfig| c.enabled,
            ).map_values(|c: LinkConfig| c.id@),
        decreases cfgs@.len() - i,
    {
        let ghost before = r@;
        let ghost pre = cfgs@.take(i as int).filter(|c: LinkConfig| c.enabled);
        proof {
            reveal_with_fuel(Seq::<_>::filter, 1);
            assert(cfgs@.take(i + 1).drop_last() == cfgs@.take(i as int));
            assert(cfgs@.take(i + 1).last() == cfgs@[i as int]);
        }
        if cfgs[i].enabled {
            let c = copy_config(&cfgs[i]);
            r.push(c);
            assert(cfgs@.take(i + 1).filter(|c: LinkConfig| c.enabled) == pre.push(cfgs@[i as int]));
            assert(r@.map_values(|c: LinkConfig| c.id@) == before.map_values(|c: LinkConfig| c.id@).push(
                c.id@,
            ));
            assert(pre.push(cfgs@[i as int]).map_values(|c: LinkConfig| c.id@) == pre.map_values(
                |c: LinkConfig| c.id@,
            ).push(cfgs@[i as int].id@));
        } else {
            assert(cfgs@.take(i + 1).filter(|c: LinkConfig| c.enabled) == pre);
        }
        i = i + 1;
    }
    assert(cfgs@.take(cfgs@.len() as int) == cfgs@);
    r
}

// ============================ naming ============================

/// The raw slug and whether it currently ends in a separator: each
/// alphanumeric character ASCII-lowercased, each run of other characters one
/// `-` — none before the first alphanumeric.
pub open spec fn slug_scan(s: Seq<char>) -> (Seq<char>, bool)
    decreases s.len(),
{
    if s.len() == 0 {
        (Seq::empty(), true)
    } else {
        let (out, last_dash) = slug_scan(s.drop_last());
        let c = s.last();
        if char_is_alphanumeric(c) {
            (out.push(ascii_lower_char(c)), false)
        } else if !last_dash {
            (out.push('-'), true)
        } else {
            (out, last_dash)
        }
    }
}

/// The slug of `s`: the raw slug without trailing `-`, or `notes` when
/// nothing is left.
pub open spec fn slugify_spec(s: Seq<char>) -> Seq<char> {
    let t = trim_end_by(slug_scan(s).0, is_char('-'));
    if t.len() == 0 {
        seq!['n', 'o', 't', 'e', 's']
    } else {
        t
    }
}

/// A filesystem-friendly name: alphanumerics lowercased, every run of
/// anything else collapsed to one `-`, no dash at either end; `notes` when
/// nothing alphanumeric remains.
pub fn slugify(s: &str) -> (r: String)
    ensures
        r@ == slugify_spec(s@),
{
    let v = chars_of(s);
    let mut out: Vec<char> = Vec::new();
    let mut last_dash = true;
    let mut i: usize = 0;
    while i < v.len()
        invariant
            i <= v@.len(),
            (out@, last_dash) == slug_scan(v@.take(i as int)),
        decreases v@.len() - i,
    {
        let c = v[i];
        proof {
            assert(v@.take(i + 1).drop_last() == v@.take(i as int));
            assert(v@.take(i + 1).last() == c);
        }
        if is_alphanumeric(c) {
            out.push(to_ascii_lower(c));
            last_dash = false;
        } else if !last_dash {
            out.push('-');
            last_dash = true;
        }
        i = i + 1;
    }
    assert(v@.take(v@.len() as int) == v@);
    let end = back_char(&out, '-', out.len());
    proof {
        reveal_strlit("notes");
    }
    if end == 0 {
        "notes".to_owned()
    } else {
        string_of(&slice_vec(&out, 0, end))
    }
}

proof fn lemma_slug_scan_shape(s: Seq<char>)
    ensures
        ({
            let (out, last_dash) = slug_scan(s);
            &&& last_dash == (out.len() == 0 || out.last() == '-')
            &&& out.len() > 0 ==> out[0] != '-'
            &&& forall|k: int| 0 <= k < out.len() - 1 ==> !(out[k] == '-' && #[trigger] out[k + 1] == '-')
        }),
    decreases s.len(),
{
    if s.len() > 0 {
        lemma_slug_scan_shape(s.drop_last());
        let (o, d) = slug_scan(s.drop_last());
        let c = s.last();
        if char_is_alphanumeric(c) {
            assert(ascii_lower_char(c) != '-');
            let o2 = o.push(ascii_lower_char(c));
            assert forall|k: int| 0 <= k < o2.len() - 1 implies !(o2[k] == '-' && #[trigger] o2[k + 1] == '-') by {
                if k + 1 < o.len() {
                    assert(o2[k] == o[k] && o2[k + 1] == o[k + 1]);
                }
            }
        } else if !d {
            let o2 = o.push('-');
            assert forall|k: int| 0 <= k < o2.len() - 1 implies !(o2[k] == '-' && #[trigger] o2[k + 1] == '-') by {
                if k + 1 < o.len() {
                    assert(o2[k] == o[k] && o2[k + 1] == o[k + 1]);
                } else {
                    assert(o2[k] == o.last());
                }
            }
        }
    }
}

/// A slug is never empty, never begins or ends with `-`, and never holds two
/// dashes in a row.
pub proof fn slug_shape(s: Seq<char>)
    ensures
        slugify_spec(s).len() > 0,
        slugify_spec(s)[0] != '-',
        slugify_spec(s).last() != '-',
        forall|k: int|
            0 <= k < slugify_spec(s).len() - 1 ==> !(slugify_spec(s)[k] == '-'
                && #[trigger] slugify_spec(s)[k + 1] == '-'),
{
    lemma_slug_scan_shape(s);
    let out = slug_scan(s).0;
    lemma_back_while_bounds(out, is_char('-'), out.len() as int);
    let t = trim_end_by(out, is_char('-'));
    if t.len() > 0 {
        assert(t[0] == out[0]);
        assert(t.last() == out[t.len() - 1]);
        assert forall|k: int| 0 <= k < t.len() - 1 implies !(t[k] == '-' && #[trigger] t[k + 1] == '-') by {
            assert(t[k] == out[k] && t[k + 1] == out[k + 1]);
        }
    }
}

/// The slug a new link is named by: the last segment of its folder (trimmed
/// and slash-stripped), or, for a whole-vault link, the vault's name.
pub open spec fn default_slug_spec(vault_name: Seq<char>, folder: Seq<char>) -> Seq<char> {
    let f = trim_by(trim(folder), is_char('/'));
    let last = after_last_any(f, seq!['/']);
    if last.len() > 0 {
        slugify_spec(last)
    } else {
        slugify_spec(vault_name)
    }
}

/// The last folder segment names a link best (`projects/hermes` ->
/// `hermes`); a whole-vault link (no folder) falls back to the vault's
/// display name.
pub fn default_slug(vault_name: &str, folder: &str) -> (r: String)
    ensures
        r@ == default_slug_spec(vault_name@, folder@),
{
    let v = chars_of(folder);
    let t = trim_chars(&v);
    let f = trim_char_chars(&t, '/');
    let slash = vec!['/'];
    assert(slash@ == seq!['/']);
    let s = rfind_any(&f, &slash, f.len());
    let last = slice_vec(&f, s, f.len());
    if last.len() > 0 {
        slugify(string_of(&last).as_str())
    } else {
        slugify(vault_name)
    }
}

/// The friendly symlink's name: the slug itself, or — when that name is
/// already taken by another link — the slug, a `-`, and the first six bytes
/// of the link's id.
pub fn friendly_name(slug: &str, link_id: &str, taken: bool) -> (r: String)
    requires
        is_char_boundary(
            link_id.spec_bytes(),
            if link_id.len() < 6 {
                link_id.len() as int
            } else {
                6
            },
        ),
    ensures
        !taken ==> r@ == slug@,
        taken ==> exists|suffix: Seq<char>|
            r@ == slug@ + seq!['-'] + suffix && #[trigger] suffix.len() <= 6 && suffix.len() <= link_id@.len()
                && link_id@.take(suffix.len() as int) == suffix && encode_utf8(suffix)
                == link_id.spec_bytes().subrange(
                0,
                if link_id.len() < 6 {
                    link_id.len() as int
                } else {
                    6
                },
            ),
{
    if !taken {
        return slug.to_owned();
    }
    let n = link_id.len();
    let k = if n < 6 {
        n
    } else {
        6
    };
    let (head, _tail) = link_id.split_at(k);
    let mut r = slug.to_owned();
    r.push('-');
    let h = chars_of(head);
    proof {
        lemma_prefix_of_bytes(link_id, head, k as int);
        assert(r@ == slug@ + seq!['-']);
    }
    crate::text::push_all(&mut r, &h);
    r
}

/// A prefix of a string's bytes that ends on a character boundary is a
/// prefix of its characters, no longer than the byte count.
proof fn lemma_prefix_of_bytes(s: &str, head: &str, k: int)
    requires
        0 <= k,
        is_char_boundary(s.spec_bytes(), k),
        head.spec_bytes() == s.spec_bytes().subrange(0, k),
    ensures
        head@.len() <= k,
        head@.len() <= s@.len(),
        s@.take(head@.len() as int) == head@,
{
    let b = s.spec_bytes();
    encode_utf8_valid_utf8(s@);
    assert(k <= b.len()) by {
        reveal_with_fuel(is_char_boundary, 1);
    }
    encode_utf8_decode_utf8(s@);
    encode_utf8_decode_utf8(head@);
    decode_utf8_split(b, k);
    let rest = decode_utf8(b.subrange(k, b.len() as int));
    assert(s@ == head@ + rest);
    assert(s@.take(head@.len() as int) == head@);
    lemma_encode_len(head@);
}

/// Every character takes at least one byte.
proof fn lemma_encode_len(chars: Seq<char>)
    ensures
        encode_utf8(chars).len() >= chars.len(),
    decreases chars.len(),
{
    if chars.len() > 0 {
        lemma_encode_len(chars.drop_first());
        assert(encode_scalar(chars[0] as u32).len() >= 1);
    }
}


// ============================ identifiers ============================

/// `n` bytes from the thread-local generator (`rand::random`); nothing is
/// promised of their values. The generator panics only if the operating
/// system's random source cannot seed it, a failure of the machine rather
/// than of any input.
#[verifier::external_body]
pub(crate) fn random_bytes<const N: usize>() -> (r: Vec<u8>)
    ensures
        r@.len() == N,
{
    rand::random::<[u8; N]>().to_vec()
}

/// An 8-byte random id, hex-encoded: a filesystem-safe unique id.
pub fn new_id() -> (r: String)
    ensures
        r@.len() == 16,
        exists|b: Seq<u8>| b.len() == 8 && r@ == #[trigger] hex(b),
{
    let buf = random_bytes::<8>();
    hex_encode(&buf)
}

// ============================ reconciliation ============================

/// What one reconciliation pass does for one path, from what was last synced
/// (`known`), what the vault holds, what the local file holds, and whether
/// the local file exists but could not be read this pass.
#[derive(Debug, Clone, PartialEq, Eq)]
pub enum SyncAction {
    /// Leave the path for a later pass.
    Skip,
    /// Both sides agree: record their text as the new base.
    Record(String),
    /// Write this vault text to the local file and record it as the base.
    Pull(String),
    /// Push the local text to the vault, merged against the vault's own
    /// current text; write the merged result locally and record it.
    Push,
    /// Merge the local text into the vault against this base; write the
    /// merged result locally and record it.
    Merge(String),
    /// The local file was deleted: soft-delete the note, forget the base.
    TrashNote,
    /// The note was deleted: remove the local file, forget the base.
    RemoveFile,
    /// Gone on both sides: forget the base.
    Forget,
}

/// The sync rule for one path.
pub open spec fn plan_spec(
    known: Option<Seq<char>>,
    vault: Option<Seq<char>>,
    local: Option<Seq<char>>,
    unreadable: bool,
) -> SyncActionView {
    if unreadable {
        SyncActionView::Skip
    } else {
        match (known, vault, local) {
            (_, Some(v), Some(l)) if v == l => SyncActionView::Record(v),
            (None, Some(v), None) => SyncActionView::Pull(v),
            (None, None, Some(_)) => SyncActionView::Push,
            (None, Some(v), Some(_)) => SyncActionView::Merge(v),
            (Some(_), Some(_), None) => SyncActionView::TrashNote,
            (Some(_), None, Some(_)) => SyncActionView::RemoveFile,
            (Some(_), None, None) => SyncActionView::Forget,
            (None, None, None) => SyncActionView::Skip,
            (Some(h), Some(v), Some(l)) => if h == v {
                SyncActionView::Push
            } else if h == l {
                SyncActionView::Pull(v)
            } else {
                SyncActionView::Merge(h)
            },
        }
    }
}

/// A sync action, with its texts as sequences of characters.
pub enum SyncActionView {
    Skip,
    Record(Seq<char>),
    Pull(Seq<char>),
    Push,
    Merge(Seq<char>),
    TrashNote,
    RemoveFile,
    Forget,
}

impl View for SyncAction {
    type V = SyncActionView;

    open spec fn view(&self) -> SyncActionView {
        match self {
            SyncAction::Skip => SyncActionView::Skip,
            SyncAction::Record(s) => SyncActionView::Record(s@),
            SyncAction::Pull(s) => SyncActionView::Pull(s@),
            SyncAction::Push => SyncActionView::Push,
            SyncAction::Merge(s) => SyncActionView::Merge(s@),
            SyncAction::TrashNote => SyncActionView::TrashNote,
            SyncAction::RemoveFile => SyncActionView::RemoveFile,
            SyncAction::Forget => SyncActionView::Forget,
        }
    }
}

pub open spec fn str_opt(o: Option<&str>) -> Option<Seq<char>> {
    match o {
        Some(s) => Some(s@),
        None => None,
    }
}

pub(crate) fn eq_str(a: &str, b: &str) -> (r: bool)
    ensures
        r == (a@ == b@),
{
    a.to_owned() == b.to_owned()
}

/// Decide what to do with one path of a reconciliation pass.
pub fn plan_sync(known: Option<&str>, vault: Option<&str>, local: Option<&str>, unreadable: bool) -> (r:
    SyncAction)
    ensures
        r@ == plan_spec(str_opt(known), str_opt(vault), str_opt(local), unreadable),
{
    if unreadable {
        return SyncAction::Skip;
    }
    match (known, vault, local) {
        (_, Some(v), Some(l)) if eq_str(v, l) => SyncAction::Record(v.to_owned()),
        (None, Some(v), None) => SyncAction::Pull(v.to_owned()),
        (None, None, Some(_)) => SyncAction::Push,
        (None, Some(v), Some(_)) => SyncAction::Merge(v.to_owned()),
        (Some(_), Some(_), None) => SyncAction::TrashNote,
        (Some(_), None, Some(_)) => SyncAction::RemoveFile,
        (Some(_), None, None) => SyncAction::Forget,
        (None, None, None) => SyncAction::Skip,
        (Some(h), Some(v), Some(l)) => {
            if eq_str(h, v) {
                SyncAction::Push
            } else if eq_str(h, l) {
                SyncAction::Pull(v.to_owned())
            } else {
                SyncAction::Merge(h.to_owned())
            }
        },
    }
}

/// How a path's base entry changes once its action has been carried out.
#[derive(Debug, Clone, PartialEq, Eq)]
pub enum BaseUpdate {
    Keep,
    Store(String),
    Remove,
}

/// The base entry after `action`, where `merged` is the note's text as read
/// back from the vault after a push or merge.
pub fn base_after(action: &SyncAction, merged: Option<&str>) -> (r: BaseUpdate)
    requires
        (action is Push || action is Merge) ==> merged is Some,
    ensures
        match action@ {
            SyncActionView::Skip => r == BaseUpdate::Keep,
            SyncActionView::Record(t) => r matches BaseUpdate::Store(s) && s@ == t,
            SyncActionView::Pull(t) => r matches BaseUpdate::Store(s) && s@ == t,
            SyncActionView::Push => r matches BaseUpdate::Store(s) && s@ == merged.unwrap()@,
            SyncActionView::Merge(_) => r matches BaseUpdate::Store(s) && s@ == merged.unwrap()@,
            SyncActionView::TrashNote => r == BaseUpdate::Remove,
            SyncActionView::RemoveFile => r == BaseUpdate::Remove,
            SyncActionView::Forget => r == BaseUpdate::Remove,
        },
{
    match action {
        SyncAction::Skip => BaseUpdate::Keep,
        SyncAction::Record(t) => BaseUpdate::Store(t.clone()),
        SyncAction::Pull(t) => BaseUpdate::Store(t.clone()),
        SyncAction::Push => BaseUpdate::Store(merged.unwrap().to_owned()),
        SyncAction::Merge(_) => BaseUpdate::Store(merged.unwrap().to_owned()),
        SyncAction::TrashNote => BaseUpdate::Remove,
        SyncAction::RemoveFile => BaseUpdate::Remove,
        SyncAction::Forget => BaseUpdate::Remove,
    }
}

/// The rules a reconciliation pass follows:
/// - a file that exists but cannot be read is left alone — a read failure
///   never looks like a deletion;
/// - a path known on neither side before and present on one side only is
///   copied to the other;
/// - a previously synced path now missing on one side is deleted on the
///   other, never resurrected;
/// - a previously synced path changed on exactly one side takes that side's
///   text, and one changed on both is merged against the last-synced text;
/// - where both sides agree, their text is simply recorded.
pub proof fn sync_rules(known: Option<Seq<char>>, vault: Option<Seq<char>>, local: Option<Seq<char>>)
    ensures
        plan_spec(known, vault, local, true) is Skip,
        known is None && vault is Some && local is None ==> plan_spec(known, vault, local, false)
            == SyncActionView::Pull(vault.unwrap()),
        known is None && vault is None && local is Some ==> plan_spec(
            known,
            vault,
            local,
            false,
        ) is Push,
        known is Some && vault is Some && local is None ==> plan_spec(
            known,
            vault,
            local,
            false,
        ) is TrashNote,
        known is Some && vault is None && local is Some ==> plan_spec(
            known,
            vault,
            local,
            false,
        ) is RemoveFile,
        ({
            &&& known matches Some(h)
            &&& vault matches Some(v)
            &&& local matches Some(l)
            &&& h == v
            &&& l != h
        }) ==> plan_spec(known, vault, local, false) is Push,
        ({
            &&& known matches Some(h)
            &&& vault matches Some(v)
            &&& local matches Some(l)
            &&& h == l
            &&& v != h
        }) ==> plan_spec(known, vault, local, false) == SyncActionView::Pull(vault.unwrap()),
        ({
            &&& known matches Some(h)
            &&& vault matches Some(v)
            &&& local matches Some(l)
            &&& h != v
            &&& h != l
            &&& v != l
        }) ==> plan_spec(known, vault, local, false) == SyncActionView::Merge(known.unwrap()),
        ({
            &&& vault matches Some(v)
            &&& local matches Some(l)
            &&& v == l
        }) ==> plan_spec(known, vault, local, false) == SyncActionView::Record(vault.unwrap()),
{
}

/// What a reconciliation pass knows of its link: the last-synced text per
/// path, the vault's notes under the folder (keyed relative to it) and the
/// mirror's files.
pub struct SyncState {
    pub base: Map<Seq<char>, Seq<char>>,
    pub vault: Map<Seq<char>, Seq<char>>,
    pub local: Map<Seq<char>, Seq<char>>,
}

pub open spec fn map_get(m: Map<Seq<char>, Seq<char>>, p: Seq<char>) -> Option<Seq<char>> {
    if m.contains_key(p) {
        Some(m[p])
    } else {
        None
    }
}

pub open spec fn map_set(m: Map<Seq<char>, Seq<char>>, p: Seq<char>, v: Option<Seq<char>>) -> Map<
    Seq<char>,
    Seq<char>,
> {
    match v {
        Some(t) => m.insert(p, t),
        None => m.remove(p),
    }
}

/// One path of a pass carried out: the action `plan_spec` decides, with
/// `merged` the note's text as read back from the vault after a push or a
/// merge. A trashed note leaves the folder's visible notes.
pub open spec fn step_path(st: SyncState, p: Seq<char>, merged: Seq<char>) -> SyncState {
    let (k, v, l) = (map_get(st.base, p), map_get(st.vault, p), map_get(st.local, p));
    let (b2, v2, l2) = match plan_spec(k, v, l, false) {
        SyncActionView::Skip => (k, v, l),
        SyncActionView::Record(t) => (Some(t), v, l),
        SyncActionView::Pull(t) => (Some(t), v, Some(t)),
        SyncActionView::Push => (Some(merged), Some(merged), Some(merged)),
        SyncActionView::Merge(_) => (Some(merged), Some(merged), Some(merged)),
        SyncActionView::TrashNote => (None::<Seq<char>>, None::<Seq<char>>, l),
        SyncActionView::RemoveFile => (None::<Seq<char>>, v, None::<Seq<char>>),
        SyncActionView::Forget => (None::<Seq<char>>, v, l),
    };
    SyncState { base: map_set(st.base, p, b2), vault: map_set(st.vault, p, v2), local: map_set(st.local, p, l2) }
}

/// A whole pass over `paths`, in order; `merged(p)` is what the vault reads
/// back for `p` after a push or merge.
pub open spec fn run_pass(st: SyncState, paths: Seq<Seq<char>>, merged: spec_fn(Seq<char>) -> Seq<char>) -> SyncState
    decreases paths.len(),
{
    if paths.len() == 0 {
        st
    } else {
        run_pass(step_path(st, paths[0], merged(paths[0])), paths.drop_first(), merged)
    }
}

/// Whether `p` has converged: the base, the vault's note and the mirror's
/// file all hold the same text, or none of them exists.
pub open spec fn converged(st: SyncState, p: Seq<char>) -> bool {
    ||| (st.base.contains_key(p) && st.vault.contains_key(p) && st.local.contains_key(p)
        && st.vault[p] == st.base[p] && st.local[p] == st.base[p])
    ||| (!st.base.contains_key(p) && !st.vault.contains_key(p) && !st.local.contains_key(p))
}

/// The paths a pass visits: every path with a base entry, a vault note or a
/// local file, except those whose local file could not be read.
pub open spec fn pass_set(st: SyncState, unreadable: Set<Seq<char>>) -> Set<Seq<char>> {
    (st.base.dom() + st.vault.dom() + st.local.dom()) - unreadable
}

proof fn lemma_step_converges(st: SyncState, p: Seq<char>, merged: Seq<char>)
    ensures
        converged(step_path(st, p, merged), p),
{
}

proof fn lemma_step_elsewhere(st: SyncState, p: Seq<char>, merged: Seq<char>, q: Seq<char>)
    requires
        q != p,
    ensures
        map_get(step_path(st, p, merged).base, q) == map_get(st.base, q),
        map_get(step_path(st, p, merged).vault, q) == map_get(st.vault, q),
        map_get(step_path(st, p, merged).local, q) == map_get(st.local, q),
{
}

proof fn lemma_pass_untouched(st: SyncState, paths: Seq<Seq<char>>, merged: spec_fn(Seq<char>) -> Seq<char>, q: Seq<char>)
    requires
        !paths.contains(q),
    ensures
        map_get(run_pass(st, paths, merged).base, q) == map_get(st.base, q),
        map_get(run_pass(st, paths, merged).vault, q) == map_get(st.vault, q),
        map_get(run_pass(st, paths, merged).local, q) == map_get(st.local, q),
    decreases paths.len(),
{
    if paths.len() > 0 {
        assert(paths[0] != q);
        lemma_step_elsewhere(st, paths[0], merged(paths[0]), q);
        assert(!paths.drop_first().contains(q)) by {
            if paths.drop_first().contains(q) {
                let k = choose|k: int| 0 <= k < paths.drop_first().len() && paths.drop_first()[k] == q;
                assert(paths[k + 1] == q);
            }
        }
        lemma_pass_untouched(step_path(st, paths[0], merged(paths[0])), paths.drop_first(), merged, q);
    }
}

proof fn lemma_converged_by_gets(a: SyncState, b: SyncState, p: Seq<char>)
    requires
        map_get(a.base, p) == map_get(b.base, p),
        map_get(a.vault, p) == map_get(b.vault, p),
        map_get(a.local, p) == map_get(b.local, p),
        converged(a, p),
    ensures
        converged(b, p),
{
}

/// A reconciliation pass converges: afterwards every path it visited holds
/// the same text in the base, in the vault and in the mirror, or exists in
/// none of them — whatever the vault's merges produce, and whether or not a
/// path was synced before.
pub proof fn reconcile_pass_converges(
    st: SyncState,
    unreadable: Set<Seq<char>>,
    paths: Seq<Seq<char>>,
    merged: spec_fn(Seq<char>) -> Seq<char>,
)
    requires
        paths.to_set() == pass_set(st, unreadable),
    ensures
        forall|p: Seq<char>| #[trigger] pass_set(st, unreadable).contains(p) ==> converged(
            run_pass(st, paths, merged),
            p,
        ),
{
    assert forall|p: Seq<char>| #[trigger] pass_set(st, unreadable).contains(p) implies converged(
        run_pass(st, paths, merged),
        p,
    ) by {
        assert(paths.to_set().contains(p));
        lemma_pass_visits_converge(st, paths, merged, p);
    }
}

proof fn lemma_pass_visits_converge(st: SyncState, paths: Seq<Seq<char>>, merged: spec_fn(Seq<char>) -> Seq<char>, p: Seq<char>)
    requires
        paths.contains(p),
    ensures
        converged(run_pass(st, paths, merged), p),
    decreases paths.len(),
{
    let next = step_path(st, paths[0], merged(paths[0]));
    let rest = paths.drop_first();
    if rest.contains(p) {
        lemma_pass_visits_converge(next, rest, merged, p);
    } else {
        let k = choose|k: int| 0 <= k < paths.len() && paths[k] == p;
        if k > 0 {
            assert(rest[k - 1] == p);
        }
        assert(paths[0] == p);
        lemma_step_converges(st, p, merged(p));
        lemma_pass_untouched(next, rest, merged, p);
        lemma_converged_by_gets(next, run_pass(next, rest, merged), p);
    }
}

fn contains_str(list: &Vec<String>, x: &str) -> (b: bool)
    ensures
        b == string_views(list@).contains(x@),
{
    let mut i: usize = 0;
    while i < list.len()
        invariant
            i <= list@.len(),
            forall|k: int| 0 <= k < i ==> #[trigger] list@[k]@ != x@,
        decreases list@.len() - i,
    {
        if eq_str(list[i].as_str(), x) {
            assert(string_views(list@)[i as int] == x@);
            return true;
        }
        i = i + 1;
    }
    assert forall|k: int| 0 <= k < string_views(list@).len() implies #[trigger] string_views(list@)[k]
        != x@ by {
        assert(string_views(list@)[k] == list@[k]@);
    }
    false
}

/// The paths one reconciliation pass visits, each once: those with a base
/// entry, a vault note or a local file, minus those whose local file could
/// not be read.
pub fn pass_paths(base: &Vec<String>, vault: &Vec<String>, local: &Vec<String>, unreadable: &Vec<String>) -> (r:
    Vec<String>)
    ensures
        string_views(r@).no_duplicates(),
        string_views(r@).to_set() == (string_views(base@).to_set()
            + string_views(vault@).to_set() + string_views(local@).to_set())
            - string_views(unreadable@).to_set(),
{
    let mut r: Vec<String> = Vec::new();
    let ghost target = (string_views(base@).to_set() + string_views(vault@).to_set()
        + string_views(local@).to_set()) - string_views(unreadable@).to_set();
    let ghost un = string_views(unreadable@).to_set();
    let mut which: usize = 0;
    while which < 3
        invariant
            which <= 3,
            un == string_views(unreadable@).to_set(),
            target == (string_views(base@).to_set() + string_views(vault@).to_set()
                + string_views(local@).to_set()) - un,
            string_views(r@).no_duplicates(),
            string_views(r@).to_set() == (if which == 0 {
                Set::<Seq<char>>::empty()
            } else if which == 1 {
                string_views(base@).to_set()
            } else if which == 2 {
                string_views(base@).to_set() + string_views(vault@).to_set()
            } else {
                string_views(base@).to_set() + string_views(vault@).to_set()
                    + string_views(local@).to_set()
            }) - un,
        decreases 3 - which,
    {
        let src = if which == 0 {
            base
        } else if which == 1 {
            vault
        } else {
            local
        };
        let ghost start = string_views(r@).to_set();
        let mut i: usize = 0;
        while i < src.len()
            invariant
                i <= src@.len(),
                un == string_views(unreadable@).to_set(),
                string_views(r@).no_duplicates(),
                string_views(r@).to_set() == start + (string_views(src@).take(
                    i as int,
                ).to_set() - un),
            decreases src@.len() - i,
        {
            let x = src[i].as_str();
            let ghost before = string_views(r@);
            let ghost xs = string_views(src@);
            proof {
                assert(xs.take(i + 1) == xs.take(i as int).push(x@));
                xs.take(i as int).lemma_push_to_set_commute(x@);
            }
            if !contains_str(unreadable, x) && !contains_str(&r, x) {
                r.push(src[i].clone());
                proof {
                    assert(string_views(r@) == before.push(x@));
                    before.lemma_push_to_set_commute(x@);
                    assert(string_views(r@).to_set() =~= start + (xs.take(i + 1).to_set()
                        - un));
                    assert forall|a: int, b: int|
                        0 <= a < b < string_views(r@).len() implies #[trigger] string_views(r@)[a]
                        != #[trigger] string_views(r@)[b] by {
                        if b == before.len() {
                            assert(string_views(r@)[a] == before[a]);
                            assert(before.contains(before[a]));
                        } else {
                            assert(string_views(r@)[a] == before[a]);
                            assert(string_views(r@)[b] == before[b]);
                        }
                    }
                }
            } else {
                proof {
                    if !un.contains(x@) {
                        assert(before.contains(x@));
                        assert(before.to_set().contains(x@));
                    }
                    assert(string_views(r@).to_set() =~= start + (xs.take(i + 1).to_set()
                        - un));
                }
            }
            i = i + 1;
        }
        proof {
            assert(string_views(src@).take(src@.len() as int) == src@.map_values(
                |s: String| s@,
            ));
            assert(string_views(r@).to_set() =~= (if which + 1 == 1 {
                string_views(base@).to_set()
            } else if which + 1 == 2 {
                string_views(base@).to_set() + string_views(vault@).to_set()
            } else {
                string_views(base@).to_set() + string_views(vault@).to_set()
                    + string_views(local@).to_set()
            }) - un);
        }
        which = which + 1;
    }
    r
}

/// The path of a vault entry relative to the linked folder: `None` for a
/// hidden entry, one outside the folder, or the folder itself.
pub open spec fn vault_rel_spec(path: Seq<char>, folder: Seq<char>, hidden: bool) -> Option<
    Seq<char>,
> {
    if hidden || !starts_with(path, folder) || path.len() == folder.len() {
        None
    } else {
        Some(path.skip(folder.len() as int))
    }
}

/// Which vault entries a link mirrors, and under what local path.
pub fn vault_rel_path(path: &str, folder: &str, hidden: bool) -> (r: Option<String>)
    ensures
        match r {
            Some(s) => vault_rel_spec(path@, folder@, hidden) == Some(s@),
            None => vault_rel_spec(path@, folder@, hidden) is None,
        },
{
    if hidden {
        return None;
    }
    let p = chars_of(path);
    let f = chars_of(folder);
    if !starts_with_exec(&p, &f) || p.len() == f.len() {
        return None;
    }
    Some(string_of(&slice_vec(&p, f.len(), p.len())))
}

/// The vault key of a mirrored path: the folder prefix followed by it.
pub fn vault_path_of(folder: &str, rel: &str) -> (r: String)
    ensures
        r@ == folder@ + rel@,
{
    concat(folder, rel)
}

// ============================ watching ============================

/// More simultaneous file events than this in one debounced burst is
/// treated as suspicious rather than synced blindly.
pub const LARGE_BURST_THRESHOLD: u32 = 20;

/// What the disk watcher does after a debounced burst of `count` events.
#[derive(Debug, Clone, Copy, PartialEq, Eq)]
pub enum BurstAction {
    /// Sync is suspended for this link: ignore the burst.
    Ignore,
    /// Too many events at once: suspend sync in both directions until the
    /// link is toggled off and on.
    Suspend,
    /// Run a reconciliation pass.
    Reconcile,
}

/// The disk watcher's decision. Once suspended, every later burst —
/// however small — is ignored too, since a pass always diffs full state and
/// would apply the very mass-change the guard holds back.
pub fn burst_action(suspended: bool, count: u32) -> (r: BurstAction)
    ensures
        suspended ==> r == BurstAction::Ignore,
        !suspended && count > LARGE_BURST_THRESHOLD ==> r == BurstAction::Suspend,
        !suspended && count <= LARGE_BURST_THRESHOLD ==> r == BurstAction::Reconcile,
{
    if suspended {
        BurstAction::Ignore
    } else if count > LARGE_BURST_THRESHOLD {
        BurstAction::Suspend
    } else {
        BurstAction::Reconcile
    }
}

/// Whether the vault watcher runs a pass for a change notification: only for
/// this link's vault (or after missed notifications), and never while the
/// link is suspended.
pub fn vault_event_triggers_pass(changed_vault: Option<&str>, link_vault: &str, suspended: bool) -> (r:
    bool)
    ensures
        r == (!suspended && match changed_vault {
            Some(v) => v@ == link_vault@,
            None => true,
        }),
{
    if suspended {
        return false;
    }
    match changed_vault {
        Some(v) => eq_str(v, link_vault),
        None => true,
    }
}


/// The suspension state a link's two watchers share. A (re)start of the link
/// builds it unsuspended; a suspicious disk burst suspends it, and only a
/// restart clears it.
pub struct LinkWatch {
    suspended: bool,
}

/// Whether a link is suspended after a run of debounced disk bursts of the
/// given sizes.
pub open spec fn suspended_after(suspended: bool, bursts: Seq<u32>) -> bool
    decreases bursts.len(),
{
    if bursts.len() == 0 {
        suspended
    } else {
        suspended_after(suspended || bursts[0] > LARGE_BURST_THRESHOLD, bursts.drop_first())
    }
}

impl LinkWatch {
    pub closed spec fn is_suspended(&self) -> bool {
        self.suspended
    }

    /// The state a freshly started link's watchers begin with.
    pub fn start() -> (w: LinkWatch)
        ensures
            !w.is_suspended(),
    {
        LinkWatch { suspended: false }
    }

    pub fn suspended(&self) -> (b: bool)
        ensures
            b == self.is_suspended(),
    {
        self.suspended
    }

    /// The disk watcher after a debounced burst of `count` events: ignored
    /// while suspended; a burst over the threshold suspends the link; any
    /// other burst runs one reconciliation pass.
    pub fn on_burst(&mut self, count: u32) -> (a: BurstAction)
        ensures
            old(self).is_suspended() ==> a == BurstAction::Ignore,
            !old(self).is_suspended() && count > LARGE_BURST_THRESHOLD ==> a == BurstAction::Suspend,
            !old(self).is_suspended() && count <= LARGE_BURST_THRESHOLD ==> a
                == BurstAction::Reconcile,
            final(self).is_suspended() == (old(self).is_suspended() || count > LARGE_BURST_THRESHOLD),
    {
        let a = burst_action(self.suspended, count);
        if count > LARGE_BURST_THRESHOLD {
            self.suspended = true;
        }
        a
    }

    /// The vault watcher's decision for a change notification.
    pub fn on_vault_event(&self, changed_vault: Option<&str>, link_vault: &str) -> (b: bool)
        ensures
            b == (!self.is_suspended() && match changed_vault {
                Some(v) => v@ == link_vault@,
                None => true,
            }),
    {
        vault_event_triggers_pass(changed_vault, link_vault, self.suspended)
    }
}

/// Once suspended, a link stays suspended whatever bursts follow, until it is
/// restarted; and while suspended neither watcher runs a pass.
pub proof fn suspension_lasts_until_restart(bursts: Seq<u32>)
    ensures
        suspended_after(true, bursts),
        forall|count: u32| burst_action_spec(true, count) == BurstAction::Ignore,
    decreases bursts.len(),
{
    if bursts.len() > 0 {
        suspension_lasts_until_restart(bursts.drop_first());
    }
}

/// A burst over the threshold suspends an unsuspended link, and from then on
/// it stays suspended.
pub proof fn a_large_burst_suspends(before: Seq<u32>, count: u32, after: Seq<u32>)
    requires
        count > LARGE_BURST_THRESHOLD,
    ensures
        suspended_after(false, before + seq![count] + after),
    decreases before.len(),
{
    if before.len() == 0 {
        assert((before + seq![count] + after).drop_first() == after);
        suspension_lasts_until_restart(after);
    } else {
        let s = before + seq![count] + after;
        assert(s.drop_first() == before.drop_first() + seq![count] + after);
        if before[0] > LARGE_BURST_THRESHOLD {
            suspension_lasts_until_restart(s.drop_first());
        } else {
            a_large_burst_suspends(before.drop_first(), count, after);
        }
    }
}

/// The disk watcher's decision, as a spec.
pub open spec fn burst_action_spec(suspended: bool, count: u32) -> BurstAction {
    if suspended {
        BurstAction::Ignore
    } else if count > LARGE_BURST_THRESHOLD {
        BurstAction::Suspend
    } else {
        BurstAction::Reconcile
    }
}

} // verus!
