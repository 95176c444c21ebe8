use vellum::mcp::{
    appended, batch_step, bearer_authorized, changed_uris, config_or_fresh, ct_eq, list_notes, ms,
    new_token, note_uri, plan_edit, search_limit, status_of, trash_path, tree_uri, Batch,
    BatchEvent, BatchStep, McpConfig, NoteEntry, ResourceUri, VaultChange,
};
use vellum::paths::{clean_note_path, clean_path, PathError};

#[test]
fn clean_path_normalizes_and_rejects() {
    assert_eq!(clean_path("notes/a.md").unwrap(), "notes/a.md");
    assert_eq!(clean_path("/notes/a.md").unwrap(), "notes/a.md");
    assert_eq!(clean_path("  /a.md  ").unwrap(), "a.md");
    for bad in ["", "/", "../secrets.md", "a/../../b.md", "a//b.md", "a\\b.md", "dir/"] {
        assert!(clean_path(bad).is_err(), "should reject {bad:?}");
    }
    assert!(clean_path("a\0b").is_err());
    assert_eq!(clean_note_path("journal/today").unwrap(), "journal/today.md");
    assert_eq!(clean_note_path("journal/today.md").unwrap(), "journal/today.md");
}

#[test]
fn path_refusals_name_their_reason() {
    assert_eq!(clean_path("   ").unwrap_err(), PathError::Empty);
    assert_eq!(clean_path("dir/").unwrap_err(), PathError::TrailingSlash);
    assert_eq!(clean_path("a\\b").unwrap_err(), PathError::IllegalChar);
    assert_eq!(clean_path("a/./b").unwrap_err(), PathError::BadSegment);
    assert_eq!(PathError::Empty.message(), "path is empty");
    assert_eq!(PathError::TrailingSlash.message(), "path must not end with '/'");
}

#[test]
fn token_comparison_rejects_wrong_and_absent() {
    let token = new_token();
    assert_eq!(token.len(), 64, "32 random bytes, hex encoded");
    assert!(ct_eq(token.as_bytes(), token.as_bytes()));
    assert!(!ct_eq(b"", token.as_bytes()));
    assert!(!ct_eq(b"wrong", token.as_bytes()));
    let mut other = token.clone().into_bytes();
    other[0] ^= 1;
    assert!(!ct_eq(&other, token.as_bytes()));
    assert_ne!(new_token(), new_token(), "tokens must not repeat");
}

#[test]
fn bearer_header_must_carry_the_token() {
    assert!(bearer_authorized(Some("Bearer s3cret"), "s3cret"));
    assert!(!bearer_authorized(Some("Bearer wrong"), "s3cret"));
    assert!(!bearer_authorized(Some("s3cret"), "s3cret"));
    assert!(!bearer_authorized(None, "s3cret"));
}

#[test]
fn resource_uris_round_trip() {
    assert!(matches!(ResourceUri::parse("vellum://vaults"), Some(ResourceUri::Vaults)));
    let uri = note_uri("abc123", "journal/a.md");
    match ResourceUri::parse(&uri) {
        Some(ResourceUri::Note(v, p)) => {
            assert_eq!(v, "abc123");
            assert_eq!(p, "journal/a.md");
        }
        other => panic!("expected a note uri, got {}", other.is_some()),
    }
    match ResourceUri::parse(&tree_uri("abc123")) {
        Some(ResourceUri::Tree(v)) => assert_eq!(v, "abc123"),
        _ => panic!("expected a tree uri"),
    }
    assert!(ResourceUri::parse("http://example.com").is_none());
    assert!(ResourceUri::parse("vellum://abc/notes/").is_none());
}

fn change(path: Option<&str>) -> VaultChange {
    VaultChange { vault: "v".into(), path: path.map(|p| p.to_string()) }
}

#[test]
fn keystrokes_coalesce_into_one_notification_per_uri() {
    let mut batch = Batch::new();
    let mut first = true;
    for _ in 0..10 {
        let step = batch_step(&mut batch, first, &BatchEvent::Change(change(Some("notes/a.md"))));
        assert_eq!(step, BatchStep::Continue);
        first = false;
    }
    assert_eq!(batch_step(&mut batch, false, &BatchEvent::Quiet), BatchStep::Deliver);
    assert_eq!(batch.uris().len(), 2, "one note URI + the vault's tree URI");
    assert!(batch.list_changed(), "an insert changes the listing");

    let mut batch = Batch::new();
    for p in ["notes/a.md", "notes/b.md"] {
        batch_step(&mut batch, false, &BatchEvent::Change(change(Some(p))));
    }
    assert_eq!(batch.uris().len(), 3, "two notes + the tree");

    let mut batch = Batch::new();
    assert_eq!(batch_step(&mut batch, true, &BatchEvent::Closed), BatchStep::End);
    assert_eq!(batch_step(&mut batch, false, &BatchEvent::Closed), BatchStep::Deliver);
    let mut lagged = Batch::new();
    assert_eq!(batch_step(&mut lagged, true, &BatchEvent::Lagged), BatchStep::Deliver);
    assert!(lagged.list_changed());
}

#[test]
fn absorbing_a_change_twice_changes_nothing() {
    let mut batch = Batch::new();
    batch.absorb(&change(Some("notes/a.md")));
    let once = batch.uris();
    batch.absorb(&change(Some("notes/a.md")));
    assert_eq!(batch.uris(), once);
    let uris = changed_uris(&change(None));
    assert_eq!(uris, vec!["vellum://v/tree".to_string()]);
    let mut quiet = Batch::new();
    quiet.absorb(&change(None));
    assert!(!quiet.list_changed());
}

#[test]
fn edits_refuse_missing_and_ambiguous_matches() {
    assert_eq!(
        plan_edit(Some("x\nx\n"), "a.md", "nope", "y", false).unwrap_err(),
        "old_string not found in a.md"
    );
    assert_eq!(
        plan_edit(Some("x\nx\n"), "a.md", "x", "y", false).unwrap_err(),
        "old_string appears 2 times in a.md; pass replace_all or include more context"
    );
    assert_eq!(plan_edit(Some("x\nx\n"), "a.md", "x", "y", true).unwrap(), ("y\ny\n".to_string(), 2));
    assert_eq!(plan_edit(Some("hello"), "a.md", "hello", "goodbye", false).unwrap(), ("goodbye".to_string(), 1));
    assert_eq!(plan_edit(Some("a"), "a.md", "", "y", false).unwrap_err(), "old_string must not be empty");
    assert_eq!(
        plan_edit(None, "ghost.md", "x", "y", false).unwrap_err(),
        "note not found (or its content hasn't synced yet): ghost.md"
    );
}

#[test]
fn appends_start_on_a_new_line() {
    assert_eq!(appended("goodbye", "tail"), "goodbye\ntail");
    assert_eq!(appended("goodbye\n", "tail"), "goodbye\ntail");
    assert_eq!(appended("", "tail"), "tail");
}

fn entry(path: &str, modified_us: u64, hidden: bool) -> NoteEntry {
    NoteEntry { path: path.into(), modified_us, hidden }
}

#[test]
fn listing_filters_by_folder_time_and_markers() {
    let entries = vec![
        entry("top.md", 5_000_000, false),
        entry("sub/a.md", 9_000_000, false),
        entry("empty/.keep", 9_000_000, false),
        entry(".trash/old.md", 9_000_000, true),
    ];
    let all: Vec<String> = list_notes(&entries, None, None).into_iter().map(|n| n.path).collect();
    assert_eq!(all, vec!["sub/a.md".to_string(), "top.md".to_string()], "newest first; .keep markers are not notes");
    let sub = list_notes(&entries, Some("sub"), None);
    assert_eq!(sub.len(), 1);
    assert_eq!(sub[0].modified_ms, 9_000);
    let recent = list_notes(&entries, None, Some(6_000));
    assert_eq!(recent.len(), 1);
    assert_eq!(recent[0].path, "sub/a.md");
    let trash = list_notes(&entries, Some("/.trash"), None);
    assert_eq!(trash.len(), 1);
    assert_eq!(trash[0].path, ".trash/old.md");
}

#[test]
fn small_rules() {
    assert_eq!(trash_path("a.md"), ".trash/a.md");
    assert_eq!(ms(1_234_567), 1_234);
    assert_eq!(search_limit(None), 20);
    assert_eq!(search_limit(Some(0)), 1);
    assert_eq!(search_limit(Some(500)), 100);
    assert_eq!(search_limit(Some(7)), 7);
}

#[test]
fn status_and_config() {
    let s = status_of("tok", Some(4321), "agent");
    assert!(s.enabled);
    assert_eq!(s.url.as_deref(), Some("http://127.0.0.1:4321/mcp"));
    assert_eq!(
        s.command.as_deref(),
        Some("agent mcp add --transport http vellum http://127.0.0.1:4321/mcp --header \"Authorization: Bearer tok\"")
    );
    let off = status_of("tok", None, "agent");
    assert!(!off.enabled && off.url.is_none() && off.command.is_none());
    let (kept, save) = config_or_fresh(Some(McpConfig { enabled: true, port: 9, token: "t".into() }));
    assert!(!save && kept.enabled && kept.port == 9 && kept.token == "t");
    let (fresh, save) = config_or_fresh(None);
    assert!(save && !fresh.enabled && fresh.port == 0 && fresh.token.len() == 64);
    let (fresh, save) = config_or_fresh(Some(McpConfig { enabled: true, port: 9, token: String::new() }));
    assert!(save && fresh.token.len() == 64);
}

#[test]
fn listings_run_newest_first() {
    let entries = vec![
        entry("old.md", 1_000_000, false),
        entry("new.md", 3_000_000, false),
        entry("mid.md", 2_000_000, false),
        entry("tie.md", 2_000_000, false),
    ];
    let order: Vec<String> = list_notes(&entries, None, None).into_iter().map(|n| n.path).collect();
    assert_eq!(order, vec!["new.md", "mid.md", "tie.md", "old.md"]);
}
