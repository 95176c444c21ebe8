//! The local MCP server's lifecycle: which ports a start tries, what a start
//! and a stop record, and whether a launch restarts it. The listener and the
//! sessions themselves belong to the shell.
use vstd::prelude::*;
use crate::mcp::McpConfig;

verus! {

/// An address a start binds: an IPv4 host and a port (0 asks the system for
/// an ephemeral one).
#[derive(Debug, Clone, Copy, PartialEq, Eq)]
pub struct BindAddr {
    pub host: (u8, u8, u8, u8),
    pub port: u16,
}

/// The loopback host, 127.0.0.1: the server is reachable from this machine
/// only.
pub open spec fn loopback() -> (u8, u8, u8, u8) {
    (127u8, 0u8, 0u8, 1u8)
}

/// The addresses a start tries, in order.
pub open spec fn attempts_spec(preferred: u16) -> Seq<BindAddr> {
    if preferred != 0 {
        seq![BindAddr { host: loopback(), port: preferred }, BindAddr { host: loopback(), port: 0 }]
    } else {
        seq![BindAddr { host: loopback(), port: 0 }]
    }
}

/// The addresses a start binds, in order, all on the loopback host: the
/// remembered port first (a copied connect command keeps working), then an
/// ephemeral one, so a stale port never stops the server from starting.
pub fn bind_attempts(preferred: u16) -> (addrs: Vec<BindAddr>)
    ensures
        addrs@ == attempts_spec(preferred),
        forall|i: int| 0 <= i < addrs@.len() ==> (#[trigger] addrs@[i]).host == loopback(),
{
    let mut addrs: Vec<BindAddr> = Vec::new();
    if preferred != 0 {
        addrs.push(BindAddr { host: (127, 0, 0, 1), port: preferred });
    }
    addrs.push(BindAddr { host: (127, 0, 0, 1), port: 0 });
    addrs
}

/// The message a start fails with when no address could be bound.
pub fn bind_error(e: &str) -> (m: String)
    ensures
        m@ == "could not bind: "@ + e@,
{
    let mut m = "could not bind: ".to_owned();
    crate::text::push_str(&mut m, e);
    m
}

/// What a start does first.
#[derive(Debug, Clone)]
pub enum StartStep {
    /// The server is already listening on this port: report it, bind nothing
    /// and write nothing.
    Running(u16),
    /// Bind the first of these addresses that can be bound.
    Bind(Vec<BindAddr>),
}

/// Whether a launch restarts the server: it was left on.
pub fn start_on_launch(cfg: &McpConfig) -> (b: bool)
    ensures
        b == cfg.enabled,
{
    cfg.enabled
}

/// Whether the server is listening, and on which port.
pub struct Server {
    port: Option<u16>,
}

impl Server {
    pub closed spec fn listening(&self) -> Option<u16> {
        self.port
    }

    pub fn new() -> (s: Server)
        ensures
            s.listening() is None,
    {
        Server { port: None }
    }

    /// The port already serving, when a start finds the server running (a
    /// start is then a no-op that reports it).
    pub fn running(&self) -> (p: Option<u16>)
        ensures
            p == self.listening(),
    {
        self.port
    }

    /// Record a start on `port`, and the settings to persist: that port and
    /// `enabled`, so a relaunch restarts the server where a client expects it.
    pub fn started(&mut self, cfg: &McpConfig, port: u16) -> (saved: McpConfig)
        ensures
            final(self).listening() == Some(port),
            saved.enabled,
            saved.port == port,
            saved.token@ == cfg.token@,
    {
        self.port = Some(port);
        McpConfig { enabled: true, port, token: cfg.token.clone() }
    }

    /// The first step of a start with settings `cfg`: a running server
    /// answers with its port; otherwise the loopback addresses to try.
    pub fn plan_start(&self, cfg: &McpConfig) -> (step: StartStep)
        ensures
            self.listening() matches Some(p) ==> (step matches StartStep::Running(q) && q == p),
            self.listening() is None ==> (step matches StartStep::Bind(a) && a@ == attempts_spec(
                cfg.port,
            )),
    {
        match self.port {
            Some(p) => StartStep::Running(p),
            None => StartStep::Bind(bind_attempts(cfg.port)),
        }
    }

    /// The end of a start: with the port bound, the server records it and
    /// hands back the settings to persist (enabled, that port, the same
    /// token); a failure leaves it stopped and is reported as it came.
    pub fn finish_start(&mut self, cfg: &McpConfig, bound: Result<u16, String>) -> (r: Result<
        (u16, McpConfig),
        String,
    >)
        requires
            old(self).listening() is None,
        ensures
            bound matches Ok(p) ==> ((r matches Ok((q, saved)) && q == p && saved.enabled
                && saved.port == p && saved.token@ == cfg.token@) && final(self).listening()
                == Some(p)),
            bound matches Err(e) ==> ((r matches Err(m) && m@ == e@) && final(self).listening()
                is None),
    {
        match bound {
            Ok(p) => {
                let saved = self.started(cfg, p);
                Ok((p, saved))
            },
            Err(e) => Err(e),
        }
    }

    /// Record a stop, and the settings to persist: disabled, with the port
    /// and token kept for the next start.
    pub fn stopped(&mut self, cfg: &McpConfig) -> (saved: McpConfig)
        ensures
            final(self).listening() is None,
            !saved.enabled,
            saved.port == cfg.port,
            saved.token@ == cfg.token@,
    {
        self.port = None;
        McpConfig { enabled: false, port: cfg.port, token: cfg.token.clone() }
    }
}

} // verus!
