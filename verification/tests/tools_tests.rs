use vellum::mcp::ResourceUri;
use vellum::tools::{
    announce_list_change, appended_reply, check_destination, check_query, daily_note_prompt,
    deliveries, folder_reply, found_note, moved_reply, replaced_reply, resource_for,
    resource_note, triage_prompt, vault_review_prompt, wrote_reply, Subscriptions,
};

#[test]
fn tool_results_read_as_sentences() {
    assert_eq!(replaced_reply(2, "a.md"), "replaced 2 occurrence(s) in a.md");
    assert_eq!(appended_reply("a.md"), "appended to a.md");
    assert_eq!(wrote_reply("a.md"), "wrote a.md");
    assert_eq!(moved_reply("a.md", ".trash/a.md"), "moved a.md to .trash/a.md");
    assert_eq!(folder_reply("dir"), "created folder dir");
}

#[test]
fn refusals_come_before_any_vault_work() {
    assert_eq!(check_query("  "), Err("query is empty".to_string()));
    assert_eq!(check_query("beta"), Ok(()));
    assert_eq!(check_destination(true, "b.md"), Err("destination already exists: b.md".to_string()));
    assert_eq!(check_destination(false, "b.md"), Ok(()));
    assert_eq!(found_note(Some("body".into()), "a.md"), Ok("body".to_string()));
    assert_eq!(
        found_note(None, "a.md"),
        Err("note not found (or its content hasn't synced yet): a.md".to_string())
    );
    assert_eq!(resource_note(None, "a.md"), Err("note not found: a.md".to_string()));
    assert_eq!(resource_for("vellum://vaults"), Ok(ResourceUri::Vaults));
    assert_eq!(resource_for("http://x"), Err("unknown resource: http://x".to_string()));
}

#[test]
fn prompts_name_the_vault() {
    assert_eq!(
        daily_note_prompt("v1", Some("2026-08-09")),
        "In Vellum vault `v1`, open the journal note for 2026-08-09 at `journal/2026-08-09.md`. Use list_notes to check whether it exists: create_note it if not, then append_note my entry. Ask me what to record before writing anything."
    );
    assert!(daily_note_prompt("v1", None).contains("journal note for today's date at `journal/today's date.md`"));
    let t = triage_prompt("v1", Some("inbox.md"));
    assert!(t.starts_with("You are on triage duty for Vellum vault `v1`, watching `inbox.md`.\n\nThat note is a work queue"));
    assert!(t.ends_with("say which ones you skipped and why."));
    assert!(triage_prompt("v1", None).contains("watching `the note the user names`"));
    assert!(vault_review_prompt("v1").starts_with("Review Vellum vault `v1`. List the notes"));
}

#[test]
fn subscribers_hear_only_what_they_watch() {
    let uris = vec!["vellum://v/tree".to_string(), "vellum://v/notes/a.md".to_string()];
    let watched = vec!["vellum://v/notes/a.md".to_string(), "vellum://w/tree".to_string()];
    assert_eq!(deliveries(&uris, &watched), vec!["vellum://v/notes/a.md".to_string()]);
    assert!(deliveries(&uris, &vec![]).is_empty());
    assert!(announce_list_change(Some(true), true));
    assert!(!announce_list_change(Some(false), true));
    assert!(!announce_list_change(None, true));
    assert!(!announce_list_change(Some(true), false));
}

#[test]
fn legacy_subscriptions_start_one_pump() {
    let mut subs = Subscriptions::new();
    assert_eq!(subs.subscribe("vellum://v/notes/a.md"), Ok(true), "the first subscription starts the pump");
    assert_eq!(subs.subscribe("vellum://v/tree"), Ok(false));
    assert_eq!(subs.subscribe("vellum://v/tree"), Ok(false));
    assert_eq!(subs.subscribe("http://x"), Err("unknown resource: http://x".to_string()));
    assert!(subs.watches(&"vellum://v/tree".to_string()));
    assert!(!subs.watches(&"http://x".to_string()));
    subs.unsubscribe("vellum://v/tree");
    assert!(!subs.watches(&"vellum://v/tree".to_string()));
    assert!(subs.watches(&"vellum://v/notes/a.md".to_string()));
    subs.unsubscribe("vellum://never");
    assert!(subs.watches(&"vellum://v/notes/a.md".to_string()));
}
