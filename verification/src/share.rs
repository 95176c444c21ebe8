//! Sharing a note as plain text through the platform's share sheet: the title
//! the recipient sees, when a note can be shared at all, and (per platform)
//! what is handed to the OS.
use vstd::prelude::*;
use crate::text::{
    after_last_any, back_while, chars_of, ends_with, lemma_back_while_bounds, not_in_set,
    rfind_any, slice_vec, strip_suffix_all, strip_suffix_all_exec, string_of, trim, trim_chars,
};

pub mod android;

verus! {

/// The title line for a shared note: its file name after the last `/`, with
/// every trailing `.md` trimmed off.
pub open spec fn subject_spec(path: Seq<char>) -> Seq<char> {
    strip_suffix_all(after_last_any(path, seq!['/']), ".md"@)
}

/// The note's name without folders or extension. A bare Markdown body often
/// starts mid-thought and the receiving app shows no file name, so this is
/// what tells the recipient what they were sent.
pub fn subject_from_path(path: &str) -> (r: String)
    ensures
        r@ == subject_spec(path@),
{
    let v = chars_of(path);
    let slash = vec!['/'];
    assert(slash@ == seq!['/']);
    let s = rfind_any(&v, &slash, v.len());
    let last = slice_vec(&v, s, v.len());
    assert(last@ == after_last_any(v@, seq!['/']));
    let md = chars_of(".md");
    let r = strip_suffix_all_exec(&last, &md);
    string_of(&r)
}

proof fn lemma_strip_is_prefix(s: Seq<char>, pat: Seq<char>)
    ensures
        strip_suffix_all(s, pat).len() <= s.len(),
        strip_suffix_all(s, pat) == s.take(strip_suffix_all(s, pat).len() as int),
    decreases s.len(),
{
    if pat.len() > 0 && ends_with(s, pat) {
        let t = s.take(s.len() - pat.len());
        lemma_strip_is_prefix(t, pat);
        let r = strip_suffix_all(t, pat);
        assert(t.take(r.len() as int) == s.take(r.len() as int));
    } else {
        assert(s.take(s.len() as int) == s);
    }
}

/// A subject never names a folder: whatever the path, it holds no `/`.
pub proof fn subject_names_no_folder(path: Seq<char>)
    ensures
        !subject_spec(path).contains('/'),
{
    let p = not_in_set(seq!['/']);
    let j = back_while(path, p, path.len() as int);
    lemma_back_while_bounds(path, p, path.len() as int);
    let last = path.skip(j);
    assert(last == after_last_any(path, seq!['/']));
    assert forall|k: int| 0 <= k < last.len() implies last[k] != '/' by {
        assert(last[k] == path[j + k]);
        assert(p(path[j + k]));
        assert(seq!['/'].contains('/')) by {
            assert(seq!['/'][0] == '/');
        }
    }
    lemma_strip_is_prefix(last, ".md"@);
    let r = strip_suffix_all(last, ".md"@);
    if r.contains('/') {
        let k = choose|k: int| 0 <= k < r.len() && r[k] == '/';
        assert(r[k] == last.take(r.len() as int)[k]);
        assert(last[k] == '/');
    }
}

/// The platforms the app is built for, as far as sharing is concerned.
#[derive(Debug, Clone, Copy, PartialEq, Eq)]
pub enum Platform {
    /// `NSSharingServicePicker`, anchored to the window.
    MacOs,
    /// An `ACTION_SEND` chooser.
    Android,
    /// Anything else: no share sheet.
    Other,
}

/// What a platform share sheet is given: the note's text as the body and a
/// title derived from its path.
#[derive(Debug, Clone)]
pub struct ShareSheet {
    pub subject: String,
    pub text: String,
}

pub open spec fn unsupported_message() -> Seq<char> {
    "Sharing isn't supported on this platform yet"@
}

pub open spec fn empty_note_message() -> Seq<char> {
    "This note is empty — nothing to share"@
}

/// What to hand the share sheet for `text` saved at `path`, or the message
/// shown where this platform has none.
pub fn share_note_text(platform: Platform, path: &str, text: &str) -> (r: Result<ShareSheet, String>)
    ensures
        platform == Platform::Other ==> (r matches Err(e) && e@ == unsupported_message()),
        platform != Platform::Other ==> (r matches Ok(sheet) && sheet.subject@ == subject_spec(
            path@,
        ) && sheet.text@ == text@),
{
    let subject = subject_from_path(path);
    match platform {
        Platform::Other => Err("Sharing isn't supported on this platform yet".to_owned()),
        _ => Ok(ShareSheet { subject, text: text.to_owned() }),
    }
}

/// Share a saved note: refused when it holds nothing but whitespace, else as
/// [`share_note_text`] decides.
pub fn share_note(platform: Platform, path: &str, text: &str) -> (r: Result<ShareSheet, String>)
    ensures
        trim(text@).len() == 0 ==> (r matches Err(e) && e@ == empty_note_message()),
        trim(text@).len() > 0 && platform == Platform::Other ==> (r matches Err(e) && e@
            == unsupported_message()),
        trim(text@).len() > 0 && platform != Platform::Other ==> (r matches Ok(sheet)
            && sheet.subject@ == subject_spec(path@) && sheet.text@ == text@),
{
    let v = chars_of(text);
    let t = trim_chars(&v);
    if t.len() == 0 {
        return Err("This note is empty — nothing to share".to_owned());
    }
    share_note_text(platform, path, text)
}

/// The message shown when the macOS share sheet could not be scheduled on the
/// main thread (AppKit is main-thread-only; commands run on a worker).
pub fn on_main_thread(scheduled: Result<(), String>) -> (r: Result<(), String>)
    ensures
        scheduled is Ok ==> r is Ok,
        scheduled matches Err(e) ==> (r matches Err(m) && m@ == "Couldn't reach the main thread: "@
            + e@),
{
    match scheduled {
        Ok(()) => Ok(()),
        Err(e) => {
            let mut m = "Couldn't reach the main thread: ".to_owned();
            crate::text::push_str(&mut m, e.as_str());
            Err(m)
        },
    }
}

} // verus!
