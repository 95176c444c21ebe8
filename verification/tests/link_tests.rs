use vellum::link::{
    burst_action, default_slug, enabled_links, friendly_name, info_of, new_id, plan_sync,
    remove_config, set_config_enabled, slugify, vault_event_triggers_pass, vault_name_of,
    vault_path_of, vault_rel_path, base_after, BaseUpdate, BurstAction, LinkConfig, SyncAction,
    VaultName, LARGE_BURST_THRESHOLD,
};
use vellum::paths::clean_folder;
use vellum::link::{after_failed_start, pass_paths, LinkWatch};
use vellum::text::is_whitespace;

#[test]
fn slugs_derive_from_folder_or_vault_name() {
    assert_eq!(default_slug("Hermes Notes", "projects/hermes"), "hermes");
    assert_eq!(default_slug("Hermes Notes", ""), "hermes-notes");
    assert_eq!(slugify("Q3 Goals!!"), "q3-goals");
    assert_eq!(slugify("---"), "notes");
}

#[test]
fn folder_prefix_normalizes_and_rejects() {
    assert_eq!(clean_folder("projects/hermes").unwrap(), "projects/hermes/");
    assert_eq!(clean_folder("/projects/hermes/").unwrap(), "projects/hermes/");
    assert_eq!(clean_folder("").unwrap(), "");
    assert!(clean_folder("../secrets").is_err());
    assert!(clean_folder("a//b").is_err());
}

#[test]
fn folder_errors_say_why() {
    assert_eq!(
        clean_folder("a\\b").unwrap_err(),
        "folder contains an illegal character (NUL or '\\')"
    );
    assert_eq!(
        clean_folder("a/./b").unwrap_err(),
        "folder contains an empty or relative ('.', '..') segment"
    );
    assert_eq!(clean_folder("  //  ").unwrap(), "");
}

#[test]
fn slug_collapses_runs_and_lowercases() {
    assert_eq!(slugify("  Hello,  World  "), "hello-world");
    assert_eq!(slugify("ÄBC"), "Äbc");
    assert_eq!(slugify(""), "notes");
    assert_eq!(default_slug("Vault", "  /a/b/  "), "b");
}

#[test]
fn friendly_name_adds_the_id_only_when_taken() {
    assert_eq!(friendly_name("hermes", "0123456789abcdef", false), "hermes");
    assert_eq!(friendly_name("hermes", "0123456789abcdef", true), "hermes-012345");
    assert_eq!(friendly_name("hermes", "abc", true), "hermes-abc");
}

#[test]
fn ids_are_sixteen_hex_digits_and_fresh() {
    let a = new_id();
    assert_eq!(a.len(), 16);
    assert!(a.chars().all(|c| c.is_ascii_hexdigit() && !c.is_ascii_uppercase()));
    assert_ne!(a, new_id());
}

#[test]
fn reconcile_rules_for_one_path() {
    // Never synced: vault-only pulls, local-only pushes, both merge on the vault text.
    assert_eq!(plan_sync(None, Some("v"), None, false), SyncAction::Pull("v".into()));
    assert_eq!(plan_sync(None, None, Some("l"), false), SyncAction::Push);
    assert_eq!(plan_sync(None, Some("v"), Some("l"), false), SyncAction::Merge("v".into()));
    // Agreeing sides are recorded whatever the base says.
    assert_eq!(plan_sync(Some("old"), Some("x"), Some("x"), false), SyncAction::Record("x".into()));
    // One-sided edits after a sync propagate.
    assert_eq!(plan_sync(Some("b"), Some("b"), Some("l"), false), SyncAction::Push);
    assert_eq!(plan_sync(Some("b"), Some("v"), Some("b"), false), SyncAction::Pull("v".into()));
    // Concurrent edits merge against the base.
    assert_eq!(plan_sync(Some("b"), Some("v"), Some("l"), false), SyncAction::Merge("b".into()));
    // Deletes propagate without resurrecting.
    assert_eq!(plan_sync(Some("b"), Some("v"), None, false), SyncAction::TrashNote);
    assert_eq!(plan_sync(Some("b"), None, Some("l"), false), SyncAction::RemoveFile);
    assert_eq!(plan_sync(Some("b"), None, None, false), SyncAction::Forget);
    assert_eq!(plan_sync(None, None, None, false), SyncAction::Skip);
    // An unreadable local file is never treated as a deletion.
    assert_eq!(plan_sync(Some("b"), Some("v"), None, true), SyncAction::Skip);
}

#[test]
fn base_follows_the_action() {
    assert_eq!(base_after(&SyncAction::Skip, None), BaseUpdate::Keep);
    assert_eq!(base_after(&SyncAction::Pull("v".into()), None), BaseUpdate::Store("v".into()));
    assert_eq!(base_after(&SyncAction::Push, Some("m")), BaseUpdate::Store("m".into()));
    assert_eq!(base_after(&SyncAction::Merge("b".into()), Some("m")), BaseUpdate::Store("m".into()));
    assert_eq!(base_after(&SyncAction::TrashNote, None), BaseUpdate::Remove);
}

#[test]
fn relative_paths_scope_to_the_folder() {
    assert_eq!(vault_rel_path("projects/hermes/a.md", "projects/hermes/", false).as_deref(), Some("a.md"));
    assert_eq!(vault_rel_path("other.md", "projects/hermes/", false), None);
    assert_eq!(vault_rel_path("projects/hermes/", "projects/hermes/", false), None);
    assert_eq!(vault_rel_path("a.md", "", true), None);
    assert_eq!(vault_rel_path("a.md", "", false).as_deref(), Some("a.md"));
    assert_eq!(vault_path_of("projects/hermes/", "a.md"), "projects/hermes/a.md");
}

#[test]
fn large_bursts_suspend_and_stay_suspended() {
    assert_eq!(burst_action(false, LARGE_BURST_THRESHOLD), BurstAction::Reconcile);
    assert_eq!(burst_action(false, LARGE_BURST_THRESHOLD + 1), BurstAction::Suspend);
    assert_eq!(burst_action(true, 1), BurstAction::Ignore);
    assert!(vault_event_triggers_pass(Some("v1"), "v1", false));
    assert!(!vault_event_triggers_pass(Some("v2"), "v1", false));
    assert!(vault_event_triggers_pass(None, "v1", false));
    assert!(!vault_event_triggers_pass(Some("v1"), "v1", true));
}

fn cfg(id: &str, enabled: bool) -> LinkConfig {
    LinkConfig {
        id: id.into(),
        vault: "vault".into(),
        folder: "projects/hermes/".into(),
        local_dir: format!("/data/links/local/{id}"),
        friendly_path: format!("/home/u/.vellum/local/{id}"),
        enabled,
    }
}

#[test]
fn link_list_edits() {
    let mut cfgs = vec![cfg("a", true), cfg("b", false), cfg("c", true)];
    let on: Vec<String> = enabled_links(&cfgs).into_iter().map(|c| c.id).collect();
    assert_eq!(on, vec!["a".to_string(), "c".to_string()]);
    let changed = set_config_enabled(&mut cfgs, "b", true).expect("b exists");
    assert!(changed.enabled);
    assert!(cfgs[1].enabled);
    assert!(set_config_enabled(&mut cfgs, "zzz", true).is_none());
    let gone = remove_config(&mut cfgs, "a").expect("a exists");
    assert_eq!(gone.id, "a");
    assert_eq!(cfgs.len(), 2);
    assert!(remove_config(&mut cfgs, "a").is_none());
    assert_eq!(cfgs.len(), 2);
}

#[test]
fn settings_show_names_and_trimmed_folders() {
    let vaults = vec![VaultName { id: "vault".into(), name: "Hermes".into() }];
    assert_eq!(vault_name_of(&vaults, "vault"), "Hermes");
    assert_eq!(vault_name_of(&vaults, "other"), "other");
    let info = info_of(&cfg("a", true), "Hermes");
    assert_eq!(info.folder, "projects/hermes");
    assert_eq!(info.path, "/home/u/.vellum/local/a");
    assert_eq!(info.vault_name, "Hermes");
}

#[test]
fn a_pass_visits_every_known_path_once() {
    let v = |xs: &[&str]| xs.iter().map(|s| s.to_string()).collect::<Vec<String>>();
    let mut paths = pass_paths(&v(&["a.md", "b.md"]), &v(&["b.md", "c.md"]), &v(&["c.md", "d.md", "x.md"]), &v(&["d.md"]));
    paths.sort();
    assert_eq!(paths, v(&["a.md", "b.md", "c.md", "x.md"]));
    assert!(pass_paths(&vec![], &vec![], &vec![], &vec![]).is_empty());
}

#[test]
fn a_suspended_link_stays_suspended_until_restarted() {
    let mut w = LinkWatch::start();
    assert_eq!(w.on_burst(3), BurstAction::Reconcile);
    assert!(w.on_vault_event(Some("v"), "v"));
    assert_eq!(w.on_burst(LARGE_BURST_THRESHOLD + 1), BurstAction::Suspend);
    assert!(w.suspended());
    for n in [1, 2, 100] {
        assert_eq!(w.on_burst(n), BurstAction::Ignore);
        assert!(!w.on_vault_event(Some("v"), "v"));
    }
    assert!(w.suspended());
    let w = LinkWatch::start();
    assert!(!w.suspended());
}

#[test]
fn whitespace_is_the_unicode_white_space_set() {
    for c in ['\t', '\n', '\u{0B}', '\u{0C}', '\r', ' ', '\u{85}', '\u{A0}', '\u{1680}', '\u{2000}', '\u{200A}', '\u{2028}', '\u{2029}', '\u{202F}', '\u{205F}', '\u{3000}'] {
        assert!(is_whitespace(c), "{:?}", c);
        assert_eq!(is_whitespace(c), c.is_whitespace());
    }
    for c in ['a', '-', '\u{200B}', '\u{FEFF}', '\u{1F600}', '\u{0}'] {
        assert_eq!(is_whitespace(c), c.is_whitespace(), "{:?}", c);
    }
    for u in 0u32..0x3100 {
        if let Some(c) = char::from_u32(u) {
            assert_eq!(is_whitespace(c), c.is_whitespace(), "{u:x}");
        }
    }
}

#[test]
fn a_failed_start_rolls_the_link_back() {
    let cfgs = vec![cfg("a", true), cfg("new", true), cfg("b", false), cfg("new", true)];
    let kept: Vec<String> = after_failed_start(cfgs, "new", true).into_iter().map(|c| c.id).collect();
    assert_eq!(kept, vec!["a".to_string(), "b".to_string()]);
    let cfgs = vec![cfg("a", true), cfg("b", true)];
    let back = after_failed_start(cfgs, "b", false);
    assert_eq!(back.len(), 2);
    assert!(back[0].enabled && !back[1].enabled);
    assert_eq!(back[1].id, "b");
    let untouched = after_failed_start(vec![cfg("a", true)], "zzz", false);
    assert!(untouched[0].enabled);
}

#[test]
fn a_reloaded_base_pulls_a_peer_edit() {
    // After a restart the base read back from disk still says "v1"; the peer
    // rewrote the vault note, the local copy is untouched: the peer's text wins.
    assert_eq!(
        plan_sync(Some("v1"), Some("v2-from-peer"), Some("v1"), false),
        SyncAction::Pull("v2-from-peer".into())
    );
}
