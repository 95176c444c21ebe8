//! What the local MCP server's tools, prompts and subscriptions say back to
//! an agent: each tool's one-line result, the refusals that come before any
//! vault work, the three prompt texts, and which changes reach a subscriber.
use vstd::prelude::*;
use crate::link::eq_str;
use crate::mcp::{parse_uri_spec, ResourceUri};
use crate::text::{chars_of, decimal, push_decimal, push_str, trim, trim_chars};

verus! {

// ---------------------------------------------------------------- tool results

/// `edit_note`: how many occurrences were replaced, and where.
pub fn replaced_reply(n: usize, path: &str) -> (r: String)
    ensures
        r@ == "replaced "@ + decimal(n as nat) + " occurrence(s) in "@ + path@,
{
    let mut s = "replaced ".to_owned();
    push_decimal(&mut s, n as u64);
    push_str(&mut s, " occurrence(s) in ");
    push_str(&mut s, path);
    s
}

/// `append_note`.
pub fn appended_reply(path: &str) -> (r: String)
    ensures
        r@ == "appended to "@ + path@,
{
    let mut s = "appended to ".to_owned();
    push_str(&mut s, path);
    s
}

/// `write_note`.
pub fn wrote_reply(path: &str) -> (r: String)
    ensures
        r@ == "wrote "@ + path@,
{
    let mut s = "wrote ".to_owned();
    push_str(&mut s, path);
    s
}

/// `move_note`, and `delete_note` (a move into the trash).
pub fn moved_reply(from: &str, to: &str) -> (r: String)
    ensures
        r@ == "moved "@ + from@ + " to "@ + to@,
{
    let mut s = "moved ".to_owned();
    push_str(&mut s, from);
    push_str(&mut s, " to ");
    push_str(&mut s, to);
    s
}

/// `create_folder`.
pub fn folder_reply(path: &str) -> (r: String)
    ensures
        r@ == "created folder "@ + path@,
{
    let mut s = "created folder ".to_owned();
    push_str(&mut s, path);
    s
}

// ---------------------------------------------------------------- refusals

/// A search needs something to look for.
pub fn check_query(query: &str) -> (r: Result<(), String>)
    ensures
        trim(query@).len() == 0 ==> (r matches Err(m) && m@ == "query is empty"@),
        trim(query@).len() > 0 ==> r is Ok,
{
    let v = chars_of(query);
    let t = trim_chars(&v);
    if t.len() == 0 {
        Err("query is empty".to_owned())
    } else {
        Ok(())
    }
}

/// A move never silently overwrites: refused when a note already exists at
/// the destination.
pub fn check_destination(exists: bool, to: &str) -> (r: Result<(), String>)
    ensures
        exists ==> (r matches Err(m) && m@ == "destination already exists: "@ + to@),
        !exists ==> r is Ok,
{
    if exists {
        let mut m = "destination already exists: ".to_owned();
        push_str(&mut m, to);
        Err(m)
    } else {
        Ok(())
    }
}

/// `read_note`: the note's text, or the message for a note that does not
/// exist (or whose content has not synced yet).
pub fn found_note(text: Option<String>, path: &str) -> (r: Result<String, String>)
    ensures
        text matches Some(t) ==> (r matches Ok(s) && s@ == t@),
        text is None ==> (r matches Err(m) && m@ == "note not found (or its content hasn't synced yet): "@
            + path@),
{
    match text {
        Some(t) => Ok(t),
        None => {
            let mut m = "note not found (or its content hasn't synced yet): ".to_owned();
            push_str(&mut m, path);
            Err(m)
        },
    }
}

/// A note read as a resource: its text, or `note not found: {path}`.
pub fn resource_note(text: Option<String>, path: &str) -> (r: Result<String, String>)
    ensures
        text matches Some(t) ==> (r matches Ok(s) && s@ == t@),
        text is None ==> (r matches Err(m) && m@ == "note not found: "@ + path@),
{
    match text {
        Some(t) => Ok(t),
        None => {
            let mut m = "note not found: ".to_owned();
            push_str(&mut m, path);
            Err(m)
        },
    }
}

/// The resource a URI names, or `unknown resource: {uri}` (for reads and
/// subscriptions alike).
pub fn resource_for(uri: &str) -> (r: Result<ResourceUri, String>)
    ensures
        match r {
            Ok(u) => parse_uri_spec(uri@) == Some(u@),
            Err(m) => parse_uri_spec(uri@) is None && m@ == "unknown resource: "@ + uri@,
        },
{
    match ResourceUri::parse(uri) {
        Some(u) => Ok(u),
        None => {
            let mut m = "unknown resource: ".to_owned();
            push_str(&mut m, uri);
            Err(m)
        },
    }
}

// ---------------------------------------------------------------- prompts

pub open spec fn daily_note_text(vault: Seq<char>, date: Seq<char>) -> Seq<char> {
    "In Vellum vault `"@ + vault + "`, open the journal note for "@ + date + " at `journal/"@ + date
        + ".md`. Use list_notes to check whether it exists: create_note it if not, then append_note my entry. Ask me what to record before writing anything."@
}

/// The `daily_note` prompt: today's journal entry, for `date` or, when none
/// is given, for "today's date".
pub fn daily_note_prompt(vault: &str, date: Option<&str>) -> (r: String)
    ensures
        r@ == daily_note_text(
            vault@,
            match date {
                Some(d) => d@,
                None => "today's date"@,
            },
        ),
{
    let d = match date {
        Some(d) => d,
        None => "today's date",
    };
    let mut s = "In Vellum vault `".to_owned();
    push_str(&mut s, vault);
    push_str(&mut s, "`, open the journal note for ");
    push_str(&mut s, d);
    push_str(&mut s, " at `journal/");
    push_str(&mut s, d);
    push_str(
        &mut s,
        ".md`. Use list_notes to check whether it exists: create_note it if not, then append_note my entry. Ask me what to record before writing anything.",
    );
    s
}

pub open spec fn triage_head() -> Seq<char> {
    "You are on triage duty for Vellum vault `"@
}

pub open spec fn triage_middle() -> Seq<char> {
    "`, watching `"@
}

pub open spec fn triage_tail() -> Seq<char> {
    "`.

That note is a work queue: unchecked `- [ ]` items are requests for you, and checked ones are already handled. Subscribe to the note's resource so you are told when it changes.

Judge for yourself when to act. A change notification means the user typed something, NOT that they finished — Vellum saves as you type, so edits arrive while a thought is still half-written. Wait until the note has settled before doing anything, and prefer acting on a whole batch of items over reacting to each keystroke. How long to wait is your call; err toward letting them finish.

Keep the subscription alive. If a request comes back 404 the session is gone — re-initialize and re-subscribe rather than retrying with the old session id. A subscriber that only reconnects the stream goes permanently deaf while still looking healthy, and silently misses everything written after that.

For each unchecked item:
1. Read it in full and work out what is actually being asked. Ask the user if it is ambiguous rather than guessing.
2. Do the work.
3. Tick its checkbox (`- [ ]` -> `- [x]`) with edit_note, so the user can see it was picked up and delete the line. Tick it only once the work is genuinely captured — a tick is a claim that it was handled.

Leave items you did not action unticked, and say which ones you skipped and why."@
}

/// The `triage` prompt: watch `note` (or the note the user names) in `vault`
/// and act on the unchecked items written into it.
pub fn triage_prompt(vault: &str, note: Option<&str>) -> (r: String)
    ensures
        r@ == triage_head() + vault@ + triage_middle() + match note {
            Some(n) => n@,
            None => "the note the user names"@,
        } + triage_tail(),
{
    let n = match note {
        Some(n) => n,
        None => "the note the user names",
    };
    let mut s = "You are on triage duty for Vellum vault `".to_owned();
    push_str(&mut s, vault);
    push_str(&mut s, "`, watching `");
    push_str(&mut s, n);
    push_str(
        &mut s,
        "`.

That note is a work queue: unchecked `- [ ]` items are requests for you, and checked ones are already handled. Subscribe to the note's resource so you are told when it changes.

Judge for yourself when to act. A change notification means the user typed something, NOT that they finished — Vellum saves as you type, so edits arrive while a thought is still half-written. Wait until the note has settled before doing anything, and prefer acting on a whole batch of items over reacting to each keystroke. How long to wait is your call; err toward letting them finish.

Keep the subscription alive. If a request comes back 404 the session is gone — re-initialize and re-subscribe rather than retrying with the old session id. A subscriber that only reconnects the stream goes permanently deaf while still looking healthy, and silently misses everything written after that.

For each unchecked item:
1. Read it in full and work out what is actually being asked. Ask the user if it is ambiguous rather than guessing.
2. Do the work.
3. Tick its checkbox (`- [ ]` -> `- [x]`) with edit_note, so the user can see it was picked up and delete the line. Tick it only once the work is genuinely captured — a tick is a claim that it was handled.

Leave items you did not action unticked, and say which ones you skipped and why.",
    );
    s
}

/// The `vault_review` prompt: summarise recent notes without modifying
/// anything.
pub fn vault_review_prompt(vault: &str) -> (r: String)
    ensures
        r@ == "Review Vellum vault `"@ + vault@
            + "`. List the notes modified most recently, read the top handful, and summarise: what's in progress, what looks abandoned, and any unfinished thoughts or open questions worth revisiting. Don't modify anything."@,
{
    let mut s = "Review Vellum vault `".to_owned();
    push_str(&mut s, vault);
    push_str(
        &mut s,
        "`. List the notes modified most recently, read the top handful, and summarise: what's in progress, what looks abandoned, and any unfinished thoughts or open questions worth revisiting. Don't modify anything.",
    );
    s
}

// ---------------------------------------------------------------- subscriptions

fn contains_string(list: &Vec<String>, x: &String) -> (b: bool)
    ensures
        b == exists|k: int| 0 <= k < list@.len() && #[trigger] list@[k]@ == x@,
{
    let mut i: usize = 0;
    while i < list.len()
        invariant
            i <= list@.len(),
            forall|k: int| 0 <= k < i ==> #[trigger] list@[k]@ != x@,
        decreases list@.len() - i,
    {
        if list[i] == *x {
            return true;
        }
        i = i + 1;
    }
    false
}

/// The URIs of a settled batch that a subscriber watches, in batch order.
pub open spec fn deliveries_spec(uris: Seq<Seq<char>>, watched: Seq<Seq<char>>) -> Seq<Seq<char>>
    decreases uris.len(),
{
    if uris.len() == 0 {
        Seq::empty()
    } else {
        let prev = deliveries_spec(uris.drop_last(), watched);
        if watched.contains(uris.last()) {
            prev.push(uris.last())
        } else {
            prev
        }
    }
}

/// A subscriber is told about exactly the changed resources it watches:
/// nothing it did not subscribe to, and nothing the batch did not change.
pub proof fn subscribers_hear_exactly_what_they_watch(
    uris: Seq<Seq<char>>,
    watched: Seq<Seq<char>>,
    x: Seq<char>,
)
    ensures
        deliveries_spec(uris, watched).contains(x) <==> (uris.contains(x) && watched.contains(x)),
    decreases uris.len(),
{
    if uris.len() > 0 {
        let init = uris.drop_last();
        subscribers_hear_exactly_what_they_watch(init, watched, x);
        let prev = deliveries_spec(init, watched);
        assert(uris == init.push(uris.last()));
        assert(uris.contains(x) <==> (init.contains(x) || x == uris.last())) by {
            if uris.contains(x) {
                let k = choose|k: int| 0 <= k < uris.len() && uris[k] == x;
                if k < init.len() {
                    assert(init[k] == x);
                }
            }
            if init.contains(x) {
                let k = choose|k: int| 0 <= k < init.len() && init[k] == x;
                assert(uris[k] == x);
            }
            if x == uris.last() {
                assert(uris[uris.len() - 1] == x);
            }
        }
        if watched.contains(uris.last()) {
            assert(prev.push(uris.last()).contains(x) <==> (prev.contains(x) || x == uris.last()))
                by {
                if prev.push(uris.last()).contains(x) {
                    let k = choose|k: int| 0 <= k < prev.push(uris.last()).len() && prev.push(
                        uris.last(),
                    )[k] == x;
                    if k < prev.len() {
                        assert(prev[k] == x);
                    }
                }
                if prev.contains(x) {
                    let k = choose|k: int| 0 <= k < prev.len() && prev[k] == x;
                    assert(prev.push(uris.last())[k] == x);
                }
                if x == uris.last() {
                    assert(prev.push(uris.last())[prev.len() as int] == x);
                }
            }
        }
    }
}

pub open spec fn string_views(v: Seq<String>) -> Seq<Seq<char>> {
    v.map_values(|s: String| s@)
}

/// Which of a batch's changed resources a subscriber is told about: those it
/// subscribed to, and nothing else.
pub fn deliveries(uris: &Vec<String>, watched: &Vec<String>) -> (r: Vec<String>)
    ensures
        string_views(r@) == deliveries_spec(string_views(uris@), string_views(watched@)),
{
    let mut out: Vec<String> = Vec::new();
    let mut i: usize = 0;
    while i < uris.len()
        invariant
            i <= uris@.len(),
            string_views(out@) == deliveries_spec(
                string_views(uris@).take(i as int),
                string_views(watched@),
            ),
        decreases uris@.len() - i,
    {
        let ghost cur = string_views(uris@).take(i + 1);
        assert(cur.drop_last() == string_views(uris@).take(i as int));
        assert(cur.last() == uris@[i as int]@);
        let hit = contains_string(watched, &uris[i]);
        assert(hit == string_views(watched@).contains(uris@[i as int]@)) by {
            if hit {
                let k = choose|k: int| 0 <= k < watched@.len() && #[trigger] watched@[k]@
                    == uris@[i as int]@;
                assert(string_views(watched@)[k] == uris@[i as int]@);
            }
            if string_views(watched@).contains(uris@[i as int]@) {
                let k = choose|k: int| 0 <= k < string_views(watched@).len() && string_views(
                    watched@,
                )[k] == uris@[i as int]@;
                assert(watched@[k]@ == uris@[i as int]@);
            }
        }
        if hit {
            let ghost before = out@;
            out.push(uris[i].clone());
            assert(string_views(out@) == string_views(before).push(uris@[i as int]@));
        }
        i = i + 1;
    }
    assert(string_views(uris@).take(uris@.len() as int) == string_views(uris@));
    out
}

/// A session's resource subscriptions on the legacy path: each URI once,
/// and one notification pump, started by the first subscription.
pub struct Subscriptions {
    uris: Vec<String>,
    pumping: bool,
}

impl Subscriptions {
    /// The subscribed URIs.
    pub closed spec fn watched(&self) -> Set<Seq<char>> {
        string_views(self.uris@).to_set()
    }

    pub closed spec fn pump_started(&self) -> bool {
        self.pumping
    }

    pub closed spec fn wf(&self) -> bool {
        forall|i: int, j: int|
            0 <= i < j < self.uris@.len() ==> #[trigger] self.uris@[i]@ != #[trigger] self.uris@[j]@
    }

    pub fn new() -> (s: Subscriptions)
        ensures
            s.wf(),
            s.watched() == Set::<Seq<char>>::empty(),
            !s.pump_started(),
    {
        let s = Subscriptions { uris: Vec::new(), pumping: false };
        assert(string_views(s.uris@).to_set() =~= Set::<Seq<char>>::empty());
        s
    }

    /// Subscribe to `uri`, which must name a resource; the answer says
    /// whether this subscription starts the session's pump (only the first
    /// one does). An unknown resource is refused and changes nothing.
    pub fn subscribe(&mut self, uri: &str) -> (r: Result<bool, String>)
        requires
            old(self).wf(),
        ensures
            final(self).wf(),
            parse_uri_spec(uri@) is None ==> (r matches Err(m) && m@ == "unknown resource: "@ + uri@)
                && final(self).watched() == old(self).watched() && final(self).pump_started()
                == old(self).pump_started(),
            parse_uri_spec(uri@) is Some ==> r == Ok::<bool, String>(!old(self).pump_started())
                && final(self).watched() == old(self).watched().insert(uri@)
                && final(self).pump_started(),
    {
        match resource_for(uri) {
            Err(m) => Err(m),
            Ok(_) => {
                let u = uri.to_owned();
                if !contains_string(&self.uris, &u) {
                    let ghost before = self.uris@;
                    self.uris.push(u);
                    assert(string_views(self.uris@) == string_views(before).push(uri@));
                    proof {
                        string_views(before).lemma_push_to_set_commute(uri@);
                    }
                    assert(string_views(self.uris@).to_set() =~= string_views(before).to_set().insert(
                        uri@,
                    ));
                    assert forall|i: int, j: int| 0 <= i < j < self.uris@.len() implies #[trigger] self.uris@[i]@
                        != #[trigger] self.uris@[j]@ by {
                        if j == self.uris@.len() - 1 {
                            assert(self.uris@[i] == before[i]);
                        }
                    }
                } else {
                    proof {
                        let k = choose|k: int| 0 <= k < self.uris@.len() && #[trigger] self.uris@[k]@
                            == uri@;
                        assert(string_views(self.uris@)[k] == uri@);
                        assert(string_views(self.uris@).to_set() =~= string_views(
                            self.uris@,
                        ).to_set().insert(uri@));
                    }
                }
                let start = !self.pumping;
                self.pumping = true;
                Ok(start)
            },
        }
    }

    /// Stop watching `uri` (a no-op when it was not watched).
    pub fn unsubscribe(&mut self, uri: &str)
        requires
            old(self).wf(),
        ensures
            final(self).wf(),
            final(self).watched() == old(self).watched().remove(uri@),
            final(self).pump_started() == old(self).pump_started(),
    {
        let mut kept: Vec<String> = Vec::new();
        let mut i: usize = 0;
        let ghost old_uris = self.uris@;
        while i < self.uris.len()
            invariant
                self.uris@ == old_uris,
                i <= old_uris.len(),
                forall|a: int, b: int|
                    0 <= a < b < old_uris.len() ==> #[trigger] old_uris[a]@ != #[trigger] old_uris[b]@,
                string_views(kept@).to_set() == string_views(old_uris.take(i as int)).to_set().remove(
                    uri@,
                ),
                forall|a: int| 0 <= a < kept@.len() ==> #[trigger] kept@[a]@ != uri@,
                forall|a: int|
                    0 <= a < kept@.len() ==> exists|b: int|
                        0 <= b < i && #[trigger] old_uris[b]@ == #[trigger] kept@[a]@,
                forall|a: int, b: int|
                    0 <= a < b < kept@.len() ==> #[trigger] kept@[a]@ != #[trigger] kept@[b]@,
            decreases old_uris.len() - i,
        {
            let ghost prev_take = string_views(old_uris.take(i as int));
            assert(string_views(old_uris.take(i + 1)) == prev_take.push(old_uris[i as int]@));
            proof {
                prev_take.lemma_push_to_set_commute(old_uris[i as int]@);
            }
            if !eq_str(self.uris[i].as_str(), uri) {
                let ghost before = kept@;
                kept.push(self.uris[i].clone());
                assert(string_views(kept@) == string_views(before).push(old_uris[i as int]@));
                proof {
                    string_views(before).lemma_push_to_set_commute(old_uris[i as int]@);
                }
                assert(string_views(kept@).to_set() =~= string_views(old_uris.take(i + 1)).to_set().remove(
                    uri@,
                ));
                assert forall|a: int, b: int| 0 <= a < b < kept@.len() implies #[trigger] kept@[a]@
                    != #[trigger] kept@[b]@ by {
                    if b == kept@.len() - 1 {
                        assert(kept@[a] == before[a]);
                    }
                }
                assert forall|a: int| 0 <= a < kept@.len() implies exists|b: int|
                    0 <= b < i + 1 && #[trigger] old_uris[b]@ == #[trigger] kept@[a]@ by {
                    if a == kept@.len() - 1 {
                        assert(old_uris[i as int]@ == kept@[a]@);
                    } else {
                        assert(kept@[a] == before[a]);
                        let c = choose|c: int| 0 <= c < i && #[trigger] old_uris[c]@ == before[a]@;
                        assert(old_uris[c]@ == kept@[a]@);
                    }
                }
            } else {
                assert(string_views(old_uris.take(i + 1)).to_set() =~= string_views(
                    old_uris.take(i as int),
                ).to_set().insert(uri@));
                assert(string_views(kept@).to_set() =~= string_views(old_uris.take(i + 1)).to_set().remove(
                    uri@,
                ));
            }
            i = i + 1;
        }
        assert(old_uris.take(old_uris.len() as int) == old_uris);
        self.uris = kept;
    }

    /// Whether a batch's URI is one this session watches.
    pub fn watches(&self, uri: &String) -> (b: bool)
        ensures
            b == self.watched().contains(uri@),
    {
        let b = contains_string(&self.uris, uri);
        proof {
            if b {
                let k = choose|k: int| 0 <= k < self.uris@.len() && #[trigger] self.uris@[k]@ == uri@;
                assert(string_views(self.uris@)[k] == uri@);
            }
            if string_views(self.uris@).to_set().contains(uri@) {
                let k = choose|k: int| 0 <= k < string_views(self.uris@).len() && string_views(
                    self.uris@,
                )[k] == uri@;
                assert(self.uris@[k]@ == uri@);
            }
        }
        b
    }
}

/// Whether a listing change is announced on a `subscriptions/listen`
/// stream: only when the client accepted that category and the batch
/// changed the listing.
pub fn announce_list_change(accepted: Option<bool>, changed: bool) -> (b: bool)
    ensures
        b == (accepted == Some(true) && changed),
{
    let on = match accepted {
        Some(a) => a,
        None => false,
    };
    on && changed
}

} // verus!
