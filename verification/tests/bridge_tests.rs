use vellum::bridge::{dispatch, error_text, lock_name, lock_outcome, Arg, Kind, Refusal};

fn text(s: &str) -> Arg {
    Arg::Text(s.to_string())
}

#[test]
fn a_request_needs_a_command() {
    assert_eq!(dispatch(None, &vec![], true).unwrap_err(),
        Refusal::Message("message had no cmd".into()));
}

#[test]
fn open_comes_first() {
    let req = dispatch(Some("open".into()), &vec![text("vault.db")], false).unwrap();
    assert_eq!(req.kind, Kind::Open);
    assert_eq!(req.strings, vec!["vault.db".to_string()]);
    assert_eq!(dispatch(Some("open".into()), &vec![], false).unwrap_err(),
        Refusal::Message("open is missing string argument 0".into()));
    assert_eq!(
        dispatch(Some("list_vaults".into()), &vec![], false).unwrap_err(),
        Refusal::Message("open a vault database first".into())
    );
    assert_eq!(
        dispatch(Some("no_such".into()), &vec![], false).unwrap_err(),
        Refusal::Message("open a vault database first".into())
    );
}

#[test]
fn commands_read_their_arguments_in_order() {
    let req = dispatch(
        Some("write_note".into()),
        &vec![text("v"), text("a.md"), text("old"), text("new")],
        true,
    )
    .unwrap();
    assert_eq!(req.kind, Kind::WriteNote);
    assert_eq!(req.strings, vec!["v", "a.md", "old", "new"]);
    assert_eq!(
        dispatch(Some("write_note".into()), &vec![text("v"), text("a.md"), Arg::Flag(true)], true)
            .unwrap_err(),
        Refusal::Message("write_note is missing string argument 2".into())
    );
    assert_eq!(
        dispatch(Some("read_note".into()), &vec![Arg::Other, text("a.md")], true).unwrap_err(),
        Refusal::Message("read_note is missing string argument 0".into())
    );
    assert_eq!(dispatch(Some("bogus".into()), &vec![], true).unwrap_err(),
        Refusal::Message("unknown command bogus".into()));
}

#[test]
fn flags_counts_and_bytes() {
    let req = dispatch(Some("delete_path".into()), &vec![text("v"), text("dir"), Arg::Flag(true)], true).unwrap();
    assert!(req.flag);
    let req = dispatch(Some("delete_path".into()), &vec![text("v"), text("dir")], true).unwrap();
    assert!(!req.flag);
    let req = dispatch(Some("rename_path".into()), &vec![text("v"), text("a"), text("b"), Arg::Flag(true)], true).unwrap();
    assert!(req.flag && req.strings.len() == 3);
    let req = dispatch(Some("set_background_sync".into()), &vec![Arg::Flag(true)], true).unwrap();
    assert!(req.flag && req.strings.is_empty());
    let req = dispatch(Some("search_notes".into()), &vec![text("v"), text("q")], true).unwrap();
    assert_eq!(req.max, 50);
    let req = dispatch(Some("search_notes".into()), &vec![text("v"), text("q"), Arg::Number(7)], true).unwrap();
    assert_eq!(req.max, 7);
    let req = dispatch(Some("import_vault".into()), &vec![text("v"), Arg::Bytes(vec![1, 2])], true).unwrap();
    assert_eq!(req.data, Some(vec![1, 2]));
    assert_eq!(
        dispatch(Some("import_vault".into()), &vec![text("v"), text("zip")], true).unwrap_err(),
        Refusal::Thrown(1),
        "data that is not bytes is thrown back as it is"
    );
    assert_eq!(
        dispatch(Some("import_vault".into()), &vec![text("v")], true).unwrap_err(),
        Refusal::Thrown(1)
    );
    assert_eq!(
        dispatch(Some("import_vault".into()), &vec![], true).unwrap_err(),
        Refusal::Message("import_vault is missing string argument 0".into())
    );
    let req = dispatch(Some("list_tags".into()), &vec![text("v"), Arg::Bytes(vec![1])], true).unwrap();
    assert_eq!(req.data, None);
    let req = dispatch(Some("list_vaults".into()), &vec![], true).unwrap();
    assert_eq!(req.kind, Kind::ListVaults);
}

#[test]
fn one_tab_per_vault() {
    assert_eq!(lock_name("vault.db"), "vellum-vault:vault.db");
    assert_eq!(lock_outcome(true), Ok(()));
    assert_eq!(
        lock_outcome(false),
        Err("This vault is already open in another tab. Close it there, or use that tab.".to_string())
    );
}

#[test]
fn errors_report_their_text() {
    assert_eq!(error_text(Some("a".into()), Some("b".into())), Some("a".to_string()));
    assert_eq!(error_text(None, Some("b".into())), Some("b".to_string()));
    assert_eq!(error_text(None, None), None);
}
