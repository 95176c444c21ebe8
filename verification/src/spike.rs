//! The browser sync experiment's own rules: its smaller command surface, which
//! vault a node opens (a ticket to join, the one already in a persistent
//! replica, or a new one), and the JSON its `start` and `dump` answer with.
use vstd::prelude::*;
use crate::bridge::Arg;
use crate::link::eq_str;
use crate::text::{decimal, push_decimal, push_str};

verus! {

/// The experiment's commands.
#[derive(Debug, Clone, Copy, PartialEq, Eq)]
pub enum SpikeKind {
    Open,
    Write,
    Dump,
    BlobsStored,
    Flush,
}

pub open spec fn spike_kind_of(cmd: Seq<char>) -> Option<SpikeKind> {
    if cmd == "open"@ {
        Some(SpikeKind::Open)
    } else if cmd == "write"@ {
        Some(SpikeKind::Write)
    } else if cmd == "dump"@ {
        Some(SpikeKind::Dump)
    } else if cmd == "blobsStored"@ {
        Some(SpikeKind::BlobsStored)
    } else if cmd == "flush"@ {
        Some(SpikeKind::Flush)
    } else {
        None
    }
}

/// How many leading string arguments a command requires.
pub open spec fn spike_arity(k: SpikeKind) -> nat {
    match k {
        SpikeKind::Open => 1,
        SpikeKind::Write => 2,
        _ => 0,
    }
}

pub open spec fn string_at(args: Seq<Arg>, i: int) -> Option<Seq<char>> {
    if 0 <= i < args.len() {
        match args[i] {
            Arg::Text(s) => Some(s@),
            _ => None,
        }
    } else {
        None
    }
}

/// A request read: the command, its required strings, and (for `open`) the
/// ticket to join, when one was passed.
#[derive(Debug, Clone)]
pub struct SpikeRequest {
    pub kind: SpikeKind,
    pub strings: Vec<String>,
    pub ticket: Option<String>,
}

/// What a request is answered with before any work: the command, or the
/// refusal for a missing name, a missing required argument, or an unknown
/// command.
pub open spec fn spike_dispatch_spec(cmd: Option<Seq<char>>, args: Seq<Arg>) -> Result<
    SpikeKind,
    Seq<char>,
> {
    match cmd {
        None => Err("message had no cmd"@),
        Some(c) => match spike_kind_of(c) {
            None => Err("unknown command "@ + c),
            Some(k) => if spike_arity(k) >= 1 && string_at(args, 0) is None {
                Err(c + " is missing argument "@ + decimal(0))
            } else if spike_arity(k) >= 2 && string_at(args, 1) is None {
                Err(c + " is missing argument "@ + decimal(1))
            } else {
                Ok(k)
            },
        },
    }
}

fn text_of(args: &Vec<Arg>, i: usize) -> (r: Option<String>)
    ensures
        match r {
            Some(s) => string_at(args@, i as int) == Some(s@),
            None => string_at(args@, i as int) is None,
        },
{
    if i < args.len() {
        match &args[i] {
            Arg::Text(s) => Some(s.clone()),
            _ => None,
        }
    } else {
        None
    }
}

fn missing(cmd: &String, i: u64) -> (m: String)
    ensures
        m@ == cmd@ + " is missing argument "@ + decimal(i as nat),
{
    let mut m = cmd.clone();
    push_str(&mut m, " is missing argument ");
    push_decimal(&mut m, i);
    m
}

/// Read one of the experiment's requests.
pub fn spike_dispatch(cmd: Option<String>, args: &Vec<Arg>) -> (r: Result<SpikeRequest, String>)
    ensures
        match (r, spike_dispatch_spec(
            match cmd {
                Some(c) => Some(c@),
                None => None,
            },
            args@,
        )) {
            (Ok(req), Ok(k)) => req.kind == k && req.strings@.len() == spike_arity(k) && (forall|
                i: int,
            |
                0 <= i < spike_arity(k) ==> string_at(args@, i) == Some(#[trigger] req.strings@[i]@))
                && (match req.ticket {
                Some(t) => k == SpikeKind::Open && string_at(args@, 1) == Some(t@),
                None => k != SpikeKind::Open || string_at(args@, 1) is None,
            }),
            (Err(m), Err(e)) => m@ == e,
            _ => false,
        },
{
    let c = match cmd {
        None => {
            return Err("message had no cmd".to_owned());
        },
        Some(c) => c,
    };
    let k = if eq_str(c.as_str(), "open") {
        SpikeKind::Open
    } else if eq_str(c.as_str(), "write") {
        SpikeKind::Write
    } else if eq_str(c.as_str(), "dump") {
        SpikeKind::Dump
    } else if eq_str(c.as_str(), "blobsStored") {
        SpikeKind::BlobsStored
    } else if eq_str(c.as_str(), "flush") {
        SpikeKind::Flush
    } else {
        let mut m = "unknown command ".to_owned();
        push_str(&mut m, c.as_str());
        return Err(m);
    };
    let mut strings: Vec<String> = Vec::new();
    let needs = match k {
        SpikeKind::Open => 1usize,
        SpikeKind::Write => 2usize,
        _ => 0usize,
    };
    if needs >= 1 {
        match text_of(args, 0) {
            Some(s) => strings.push(s),
            None => {
                return Err(missing(&c, 0));
            },
        }
    }
    if needs >= 2 {
        match text_of(args, 1) {
            Some(s) => strings.push(s),
            None => {
                return Err(missing(&c, 1));
            },
        }
    }
    let ticket = match k {
        SpikeKind::Open => text_of(args, 1),
        _ => None,
    };
    Ok(SpikeRequest { kind: k, strings, ticket })
}

/// Which vault a starting node opens.
#[derive(Debug, Clone)]
pub enum VaultSource<N> {
    /// Join the vault a share ticket names.
    Join(String),
    /// Reopen the vault already in a persistent replica.
    Reopen(N),
    /// Create a new, empty vault.
    Create,
}

/// A ticket always wins; without one, a persistent replica's existing vault
/// is reopened rather than replaced by an empty one (that reopening is the
/// whole point of persistence); otherwise a new vault is created.
pub fn choose_vault<N>(ticket: Option<String>, existing: Option<N>) -> (s: VaultSource<N>)
    ensures
        ticket matches Some(t) ==> (s matches VaultSource::Join(u) && u@ == t@),
        ticket is None && existing is Some ==> s == VaultSource::Reopen(existing->0),
        ticket is None && existing is None ==> s is Create,
{
    match (ticket, existing) {
        (Some(t), _) => VaultSource::Join(t),
        (None, Some(n)) => VaultSource::Reopen(n),
        (None, None) => VaultSource::Create,
    }
}

/// `start`'s answer: the node's short id, its address (already quoted as a
/// JSON string) and the vault's share ticket.
pub fn start_reply(endpoint: &str, quoted_addr: &str, ticket: &str) -> (r: String)
    ensures
        r@ == "{\"endpoint\":\""@ + endpoint@ + "\",\"addr\":"@ + quoted_addr@ + ",\"ticket\":\""@
            + ticket@ + "\"}"@,
{
    let mut s = "{\"endpoint\":\"".to_owned();
    push_str(&mut s, endpoint);
    push_str(&mut s, "\",\"addr\":");
    push_str(&mut s, quoted_addr);
    push_str(&mut s, ",\"ticket\":\"");
    push_str(&mut s, ticket);
    push_str(&mut s, "\"}");
    s
}

/// The value shown for an entry whose content blob has not landed yet.
pub open spec fn pending() -> Seq<char> {
    "<pending>"@
}

/// The text shown for an entry: its content, or `<pending>` when the entry
/// synced but its content has not.
pub fn entry_value(content: Option<String>) -> (r: String)
    ensures
        content matches Some(c) ==> r@ == c@,
        content is None ==> r@ == pending(),
{
    match content {
        Some(c) => c,
        None => "<pending>".to_owned(),
    }
}

/// One entry of `dump`, with its key and value already quoted.
pub open spec fn dump_item(key: Seq<char>, value: Seq<char>) -> Seq<char> {
    "{\"key\":"@ + key + ",\"value\":"@ + value + "}"@
}

/// The items of a dump joined with `,`.
pub open spec fn joined(items: Seq<Seq<char>>) -> Seq<char>
    decreases items.len(),
{
    if items.len() == 0 {
        Seq::empty()
    } else if items.len() == 1 {
        items[0]
    } else {
        joined(items.drop_last()) + ","@ + items.last()
    }
}

pub open spec fn dump_items(entries: Seq<(String, String)>) -> Seq<Seq<char>> {
    entries.map_values(|e: (String, String)| dump_item(e.0@, e.1@))
}

/// `dump`'s answer: a JSON array with one object per entry, in order.
pub fn dump_reply(entries: &Vec<(String, String)>) -> (r: String)
    ensures
        r@ == "["@ + joined(dump_items(entries@)) + "]"@,
{
    let mut body = String::new();
    let mut i: usize = 0;
    while i < entries.len()
        invariant
            i <= entries@.len(),
            body@ == joined(dump_items(entries@).take(i as int)),
        decreases entries@.len() - i,
    {
        let ghost items = dump_items(entries@).take(i + 1);
        assert(items.drop_last() == dump_items(entries@).take(i as int));
        assert(items.last() == dump_item(entries@[i as int].0@, entries@[i as int].1@));
        if i > 0 {
            push_str(&mut body, ",");
        } else {
            assert(dump_items(entries@).take(0) == Seq::<Seq<char>>::empty());
        }
        push_str(&mut body, "{\"key\":");
        push_str(&mut body, entries[i].0.as_str());
        push_str(&mut body, ",\"value\":");
        push_str(&mut body, entries[i].1.as_str());
        push_str(&mut body, "}");
        i = i + 1;
    }
    assert(dump_items(entries@).take(entries@.len() as int) == dump_items(entries@));
    let mut s = "[".to_owned();
    push_str(&mut s, body.as_str());
    push_str(&mut s, "]");
    s
}

} // verus!
