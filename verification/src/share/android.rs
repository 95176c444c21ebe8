//! Android: the note goes out as an `ACTION_SEND` intent wrapped in a chooser.
//! There is no plugin for this, so the intent is assembled by hand; the app
//! holds an Application context rather than an Activity, which is why the
//! chooser carries `FLAG_ACTIVITY_NEW_TASK`.
use vstd::prelude::*;

verus! {

pub open spec fn action_send() -> Seq<char> {
    "android.intent.action.SEND"@
}

pub open spec fn extra_text() -> Seq<char> {
    "android.intent.extra.TEXT"@
}

pub open spec fn extra_subject() -> Seq<char> {
    "android.intent.extra.SUBJECT"@
}

pub open spec fn plain_text() -> Seq<char> {
    "text/plain"@
}

/// `Intent.FLAG_ACTIVITY_NEW_TASK`: an Application context has no task to
/// place the chooser in.
pub const FLAG_ACTIVITY_NEW_TASK: i32 = 0x1000_0000;

/// A chooser around `new Intent(action).setType(mime)` with string extras,
/// titled `title` and started with `flags`.
#[derive(Debug, Clone)]
pub struct ChooserIntent {
    pub action: String,
    pub mime: String,
    /// `putExtra(key, value)` in this order.
    pub extras: Vec<(String, String)>,
    pub title: String,
    pub flags: i32,
}

/// The chooser for sharing `text` titled `subject`: mail apps read the
/// subject extra, SMS apps send the text alone, and the chooser is always
/// shown rather than reusing a remembered default.
pub fn intent(subject: &str, text: &str) -> (it: ChooserIntent)
    ensures
        it.action@ == action_send(),
        it.mime@ == plain_text(),
        it.extras@.len() == 2,
        it.extras@[0].0@ == extra_subject(),
        it.extras@[0].1@ == subject@,
        it.extras@[1].0@ == extra_text(),
        it.extras@[1].1@ == text@,
        it.title@ == subject@,
        it.flags == FLAG_ACTIVITY_NEW_TASK,
{
    let mut extras: Vec<(String, String)> = Vec::new();
    extras.push(("android.intent.extra.SUBJECT".to_owned(), subject.to_owned()));
    extras.push(("android.intent.extra.TEXT".to_owned(), text.to_owned()));
    ChooserIntent {
        action: "android.intent.action.SEND".to_owned(),
        mime: "text/plain".to_owned(),
        extras,
        title: subject.to_owned(),
        flags: FLAG_ACTIVITY_NEW_TASK,
    }
}

/// How the outcome of starting the chooser is reported: a failure becomes a
/// message for the frontend rather than a panic.
pub fn share(launched: Result<(), String>) -> (r: Result<(), String>)
    ensures
        launched is Ok ==> r is Ok,
        launched matches Err(e) ==> (r matches Err(m) && m@ == "Couldn't open the share sheet: "@
            + e@),
{
    match launched {
        Ok(()) => Ok(()),
        Err(e) => {
            let mut m = "Couldn't open the share sheet: ".to_owned();
            crate::text::push_str(&mut m, e.as_str());
            Err(m)
        },
    }
}

} // verus!
