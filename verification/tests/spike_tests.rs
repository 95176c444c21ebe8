use vellum::bridge::Arg;
use vellum::spike::{choose_vault, dump_reply, entry_value, spike_dispatch, start_reply, SpikeKind, VaultSource};

#[test]
fn the_experiment_reads_its_commands() {
    let req = spike_dispatch(Some("open".into()), &vec![Arg::Text("f".into()), Arg::Text("ticket".into())]).unwrap();
    assert_eq!(req.kind, SpikeKind::Open);
    assert_eq!(req.strings, vec!["f".to_string()]);
    assert_eq!(req.ticket.as_deref(), Some("ticket"));
    let req = spike_dispatch(Some("open".into()), &vec![Arg::Text("f".into())]).unwrap();
    assert_eq!(req.ticket, None);
    assert_eq!(spike_dispatch(Some("write".into()), &vec![Arg::Text("k".into())]).unwrap_err(), "write is missing argument 1");
    assert_eq!(spike_dispatch(Some("open".into()), &vec![]).unwrap_err(), "open is missing argument 0");
    assert_eq!(spike_dispatch(Some("dump".into()), &vec![]).unwrap().kind, SpikeKind::Dump);
    assert_eq!(spike_dispatch(Some("x".into()), &vec![]).unwrap_err(), "unknown command x");
    assert_eq!(spike_dispatch(None, &vec![]).unwrap_err(), "message had no cmd");
}

#[test]
fn a_ticket_wins_then_an_existing_vault() {
    assert!(matches!(choose_vault(Some("t".into()), Some(3u32)), VaultSource::Join(t) if t == "t"));
    assert!(matches!(choose_vault(None, Some(3u32)), VaultSource::Reopen(3)));
    assert!(matches!(choose_vault::<u32>(None, None), VaultSource::Create));
}

#[test]
fn replies_are_json() {
    assert_eq!(start_reply("abc", "\"addr\"", "tkt"), r#"{"endpoint":"abc","addr":"addr","ticket":"tkt"}"#);
    assert_eq!(dump_reply(&vec![]), "[]");
    let entries = vec![
        ("\"a.md\"".to_string(), "\"x\"".to_string()),
        ("\"b.md\"".to_string(), "\"<pending>\"".to_string()),
    ];
    assert_eq!(dump_reply(&entries), r#"[{"key":"a.md","value":"x"},{"key":"b.md","value":"<pending>"}]"#);
    assert_eq!(entry_value(None), "<pending>");
    assert_eq!(entry_value(Some("x".into())), "x");
}
