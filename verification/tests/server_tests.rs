use vellum::mcp::McpConfig;
use vellum::server::{bind_attempts, bind_error, start_on_launch, BindAddr, Server, StartStep};
use vellum::store::{log_read_outcome, read_outcome, write_outcome};

#[test]
fn a_remembered_port_is_tried_first() {
    let lo = (127, 0, 0, 1);
    assert_eq!(bind_attempts(4321), vec![BindAddr { host: lo, port: 4321 }, BindAddr { host: lo, port: 0 }]);
    assert_eq!(bind_attempts(0), vec![BindAddr { host: lo, port: 0 }]);
}

#[test]
fn toggling_keeps_the_token_and_port() {
    let cfg = McpConfig { enabled: false, port: 0, token: "tok".into() };
    assert!(!start_on_launch(&cfg));
    let mut server = Server::new();
    assert_eq!(server.running(), None);
    let on = server.started(&cfg, 5555);
    assert_eq!(server.running(), Some(5555));
    assert!(on.enabled && on.port == 5555 && on.token == "tok");
    assert!(start_on_launch(&on));
    let off = server.stopped(&on);
    assert_eq!(server.running(), None);
    assert!(!off.enabled && off.port == 5555 && off.token == "tok");
    let ports: Vec<u16> = bind_attempts(off.port).iter().map(|a| a.port).collect();
    assert_eq!(ports, vec![5555, 0]);
}

#[test]
fn short_reads_and_writes_are_errors() {
    assert_eq!(read_outcome(4096, 8192, 4096), Ok(()));
    assert_eq!(read_outcome(4096, 8192, 10), Err("opfs: wanted 4096 bytes at 8192, got 10".to_string()));
    assert_eq!(write_outcome(10, 0, 10), Ok(()));
    assert_eq!(write_outcome(10, 4, 3), Err("opfs: wrote 3 of 10 bytes at 4".to_string()));
    assert_eq!(log_read_outcome(4, 2), Err("opfs: short blob read".to_string()));
    assert_eq!(log_read_outcome(4, 4), Ok(()));
}

#[test]
fn a_start_binds_loopback_only_and_records_what_it_bound() {
    let cfg = McpConfig { enabled: false, port: 4321, token: "tok".into() };
    let mut server = Server::new();
    match server.plan_start(&cfg) {
        StartStep::Bind(addrs) => {
            assert!(addrs.iter().all(|a| a.host == (127, 0, 0, 1)), "listens on 127.0.0.1 only");
            assert_eq!(addrs.iter().map(|a| a.port).collect::<Vec<u16>>(), vec![4321, 0]);
        }
        StartStep::Running(_) => panic!("nothing is running yet"),
    }
    let err = server.finish_start(&cfg, Err(bind_error("address in use"))).unwrap_err();
    assert_eq!(err, "could not bind: address in use");
    assert_eq!(server.running(), None);
    let (port, saved) = server.finish_start(&cfg, Ok(4321)).unwrap();
    assert_eq!(port, 4321);
    assert!(saved.enabled && saved.port == 4321 && saved.token == "tok");
    match server.plan_start(&cfg) {
        StartStep::Running(p) => assert_eq!(p, 4321),
        StartStep::Bind(_) => panic!("a running server binds nothing"),
    }
}

#[test]
fn a_saved_config_is_loaded_back_unchanged() {
    let (fresh, save) = vellum::mcp::config_or_fresh(None);
    assert!(save);
    let (again, save_again) = vellum::mcp::config_or_fresh(Some(fresh.clone()));
    assert!(!save_again);
    assert_eq!(again.token, fresh.token);
    assert_eq!((again.enabled, again.port), (false, 0));
    assert!(fresh.token.chars().all(|c| c.is_ascii_hexdigit() && !c.is_ascii_uppercase()));
}
