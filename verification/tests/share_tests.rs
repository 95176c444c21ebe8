use vellum::share::android::{intent, share, FLAG_ACTIVITY_NEW_TASK};
use vellum::share::{on_main_thread, share_note, share_note_text, subject_from_path, Platform};

#[test]
fn subject_is_the_note_name_without_extension() {
    assert_eq!(subject_from_path("ideas.md"), "ideas");
    assert_eq!(subject_from_path("journal/2026-08-09.md"), "2026-08-09");
    assert_eq!(subject_from_path("a/b/c/Deep Note.md"), "Deep Note");
    assert_eq!(subject_from_path("notes/readme"), "readme");
    assert_eq!(subject_from_path("notes/md.md"), "md");
    assert_eq!(subject_from_path(""), "");
}

#[test]
fn repeated_extensions_are_all_trimmed() {
    assert_eq!(subject_from_path("a/x.md.md"), "x");
    assert_eq!(subject_from_path("dir/"), "");
}

#[test]
fn platforms_without_a_share_sheet_say_so() {
    let err = share_note_text(Platform::Other, "a.md", "text").unwrap_err();
    assert_eq!(err, "Sharing isn't supported on this platform yet");
    let sheet = share_note_text(Platform::MacOs, "journal/today.md", "# Today").unwrap();
    assert_eq!(sheet.subject, "today");
    assert_eq!(sheet.text, "# Today");
}

#[test]
fn an_empty_note_is_not_shared() {
    let err = share_note(Platform::Android, "a.md", " \n\t ").unwrap_err();
    assert_eq!(err, "This note is empty — nothing to share");
    let sheet = share_note(Platform::Android, "a.md", " hi ").unwrap();
    assert_eq!(sheet.text, " hi ");
    assert_eq!(share_note(Platform::Other, "a.md", "hi").unwrap_err(), "Sharing isn't supported on this platform yet");
}

#[test]
fn the_android_chooser_carries_subject_and_text() {
    let it = intent("ideas", "body");
    assert_eq!(it.action, "android.intent.action.SEND");
    assert_eq!(it.mime, "text/plain");
    assert_eq!(
        it.extras,
        vec![
            ("android.intent.extra.SUBJECT".to_string(), "ideas".to_string()),
            ("android.intent.extra.TEXT".to_string(), "body".to_string()),
        ]
    );
    assert_eq!(it.title, "ideas");
    assert_eq!(it.flags, 0x1000_0000);
    assert_eq!(FLAG_ACTIVITY_NEW_TASK, 0x1000_0000);
}

#[test]
fn share_failures_become_messages() {
    assert_eq!(share(Ok(())), Ok(()));
    assert_eq!(share(Err("no activity".into())), Err("Couldn't open the share sheet: no activity".to_string()));
    assert_eq!(on_main_thread(Err("closed".into())), Err("Couldn't reach the main thread: closed".to_string()));
    assert_eq!(on_main_thread(Ok(())), Ok(()));
}

#[test]
fn a_subject_never_names_a_folder() {
    for p in ["a/b/c.md", "/x", "a//", "deep/er/note.md.md", "no-slash"] {
        assert!(!subject_from_path(p).contains('/'), "{p}");
    }
}
