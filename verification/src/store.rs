//! What a browser vault keeps durably beside its replica: note content as an
//! append-only log of `[u32 little-endian length][bytes]` records, the rule
//! that drops blobs no live entry references, and the 32-byte device keys.
//!
//! The bytes themselves live in the origin's private file system; everything
//! here works on what was read from it or decides what is written to it.
use vstd::prelude::*;
use crate::text::{decimal, push_decimal, push_str};

verus! {

// ---------------------------------------------------------------- record framing

/// The little-endian `u32` in the first four bytes of `b`.
pub open spec fn le32(b: Seq<u8>) -> nat {
    (b[0] as nat) + 256 * (b[1] as nat) + 65536 * (b[2] as nat) + 16777216 * (b[3] as nat)
}

/// `n` as four little-endian bytes.
pub open spec fn header(n: nat) -> Seq<u8> {
    seq![
        (n % 256) as u8,
        ((n / 256) % 256) as u8,
        ((n / 65536) % 256) as u8,
        ((n / 16777216) % 256) as u8,
    ]
}

/// One record of the log: the length of `bytes`, then `bytes`.
pub open spec fn record(bytes: Seq<u8>) -> Seq<u8> {
    header(bytes.len()) + bytes
}

/// The log holding `blobs`, appended in order.
pub open spec fn encode_all(blobs: Seq<Seq<u8>>) -> Seq<u8>
    decreases blobs.len(),
{
    if blobs.len() == 0 {
        Seq::empty()
    } else {
        record(blobs[0]) + encode_all(blobs.drop_first())
    }
}

/// The blobs a log holds: whole records from the start, stopping at the first
/// one that is cut short (a torn final write) or at the end.
pub open spec fn decode(log: Seq<u8>) -> Seq<Seq<u8>>
    decreases log.len(),
{
    if log.len() < 4 {
        Seq::empty()
    } else {
        let n = le32(log) as int;
        if 4 + n > log.len() {
            Seq::empty()
        } else {
            seq![log.subrange(4, 4 + n)] + decode(log.skip(4 + n))
        }
    }
}

/// Whether every blob fits the four-byte length a record carries.
pub open spec fn all_framable(blobs: Seq<Seq<u8>>) -> bool {
    forall|i: int| 0 <= i < blobs.len() ==> #[trigger] blobs[i].len() < 0x1_0000_0000
}

/// The contents of a list of byte vectors.
pub open spec fn views(v: Seq<Vec<u8>>) -> Seq<Seq<u8>> {
    v.map_values(|b: Vec<u8>| b@)
}

proof fn lemma_le32_header(n: nat, rest: Seq<u8>)
    requires
        n < 0x1_0000_0000,
    ensures
        le32(header(n) + rest) == n,
{
    let x: u64 = n as u64;
    assert(x == (x % 256) + 256 * ((x / 256) % 256) + 65536 * ((x / 65536) % 256) + 16777216 * ((
    x / 16777216) % 256)) by (bit_vector)
        requires
            x < 0x1_0000_0000,
    ;
    let s = header(n) + rest;
    assert(s[0] == header(n)[0] && s[1] == header(n)[1] && s[2] == header(n)[2] && s[3] == header(
        n,
    )[3]);
}

proof fn lemma_decode_record(b: Seq<u8>, rest: Seq<u8>)
    requires
        b.len() < 0x1_0000_0000,
    ensures
        decode(record(b) + rest) == seq![b] + decode(rest),
{
    let log = record(b) + rest;
    lemma_le32_header(b.len(), b + rest);
    assert(log == header(b.len()) + (b + rest));
    assert(log.subrange(4, 4 + b.len() as int) == b);
    assert(log.skip(4 + b.len() as int) == rest);
}

/// Reading a log back gives exactly the blobs that were appended to it, in
/// order.
pub proof fn log_round_trip(blobs: Seq<Seq<u8>>)
    requires
        all_framable(blobs),
    ensures
        decode(encode_all(blobs)) == blobs,
    decreases blobs.len(),
{
    if blobs.len() > 0 {
        let rest = blobs.drop_first();
        assert(all_framable(rest)) by {
            assert forall|i: int| 0 <= i < rest.len() implies #[trigger] rest[i].len()
                < 0x1_0000_0000 by {
                assert(rest[i] == blobs[i + 1]);
            }
        }
        log_round_trip(rest);
        assert(blobs[0].len() < 0x1_0000_0000);
        lemma_decode_record(blobs[0], encode_all(rest));
        assert(seq![blobs[0]] + rest == blobs);
    } else {
        assert(decode(Seq::<u8>::empty()) == Seq::<Seq<u8>>::empty());
    }
}

proof fn lemma_encode_push(blobs: Seq<Seq<u8>>, b: Seq<u8>)
    ensures
        encode_all(blobs.push(b)) == encode_all(blobs) + record(b),
    decreases blobs.len(),
{
    if blobs.len() == 0 {
        assert(blobs.push(b).drop_first() == Seq::<Seq<u8>>::empty());
        assert(encode_all(blobs.push(b)) == record(b) + encode_all(Seq::<Seq<u8>>::empty()));
        assert(record(b) + Seq::<u8>::empty() == record(b));
        assert(Seq::<u8>::empty() + record(b) == record(b));
    } else {
        let rest = blobs.drop_first();
        lemma_encode_push(rest, b);
        assert(blobs.push(b).drop_first() == rest.push(b));
        assert(blobs.push(b)[0] == blobs[0]);
        assert(encode_all(blobs.push(b)) == record(blobs[0]) + encode_all(rest.push(b)));
        assert(record(blobs[0]) + (encode_all(rest) + record(b)) == (record(blobs[0])
            + encode_all(rest)) + record(b));
    }
}

/// Appending a record to a log that reads back as `blobs` gives a log that
/// reads back as `blobs` followed by the new blob: what a write appends, a
/// later read returns, after everything written before it.
pub proof fn append_then_read(blobs: Seq<Seq<u8>>, b: Seq<u8>)
    requires
        all_framable(blobs),
        b.len() < 0x1_0000_0000,
    ensures
        decode(encode_all(blobs) + record(b)) == blobs.push(b),
{
    lemma_encode_push(blobs, b);
    assert(all_framable(blobs.push(b))) by {
        assert forall|i: int| 0 <= i < blobs.push(b).len() implies #[trigger] blobs.push(b)[i].len()
            < 0x1_0000_0000 by {
            if i < blobs.len() {
                assert(blobs.push(b)[i] == blobs[i]);
            }
        }
    }
    log_round_trip(blobs.push(b));
}

proof fn lemma_torn_record(b: Seq<u8>, k: int)
    requires
        b.len() < 0x1_0000_0000,
        0 <= k < record(b).len(),
    ensures
        decode(record(b).take(k)) == Seq::<Seq<u8>>::empty(),
{
    let t = record(b).take(k);
    if k >= 4 {
        lemma_le32_header(b.len(), b);
        assert(t[0] == record(b)[0] && t[1] == record(b)[1] && t[2] == record(b)[2] && t[3]
            == record(b)[3]);
    }
}

/// A final record cut short by a torn write costs only that record: every
/// blob appended before it still reads back, and nothing else does.
pub proof fn torn_tail_is_dropped(blobs: Seq<Seq<u8>>, last: Seq<u8>, k: int)
    requires
        all_framable(blobs),
        last.len() < 0x1_0000_0000,
        0 <= k < record(last).len(),
    ensures
        decode(encode_all(blobs) + record(last).take(k)) == blobs,
    decreases blobs.len(),
{
    let tail = record(last).take(k);
    if blobs.len() > 0 {
        let rest = blobs.drop_first();
        assert(all_framable(rest)) by {
            assert forall|i: int| 0 <= i < rest.len() implies #[trigger] rest[i].len()
                < 0x1_0000_0000 by {
                assert(rest[i] == blobs[i + 1]);
            }
        }
        torn_tail_is_dropped(rest, last, k);
        assert(blobs[0].len() < 0x1_0000_0000);
        assert(encode_all(blobs) + tail == record(blobs[0]) + (encode_all(rest) + tail));
        lemma_decode_record(blobs[0], encode_all(rest) + tail);
        assert(seq![blobs[0]] + rest == blobs);
    } else {
        assert(encode_all(blobs) + tail == tail);
        lemma_torn_record(last, k);
    }
}

/// The four-byte header of a record holding `n` bytes.
pub fn encode_header(n: u32) -> (h: Vec<u8>)
    ensures
        h@ == header(n as nat),
{
    let h = vec![(n % 256) as u8, ((n / 256) % 256) as u8, ((n / 65536) % 256) as u8, (n / 16777216) as u8];
    assert(h@ == header(n as nat));
    h
}

/// The blobs held by a log read back whole: each complete record in order,
/// stopping at a record the log ends inside.
pub fn read_all(log: &[u8]) -> (blobs: Vec<Vec<u8>>)
    ensures
        views(blobs@) == decode(log@),
{
    let size = log.len();
    let mut out: Vec<Vec<u8>> = Vec::new();
    let mut at: usize = 0;
    assert(log@.skip(0) == log@);
    loop
        invariant
            at <= size == log@.len(),
            views(out@) + decode(log@.skip(at as int)) == decode(log@),
        ensures
            views(out@) == decode(log@),
        decreases size - at,
    {
        let ghost rest = log@.skip(at as int);
        if size - at < 4 {
            assert(decode(rest) == Seq::<Seq<u8>>::empty());
            assert(views(out@) + Seq::<Seq<u8>>::empty() == views(out@));
            break;
        }
        let len: u64 = log[at] as u64 + 256 * (log[at + 1] as u64) + 65536 * (log[at + 2] as u64)
            + 16777216 * (log[at + 3] as u64);
        assert(rest[0] == log@[at as int] && rest[1] == log@[at + 1] && rest[2] == log@[at + 2]
            && rest[3] == log@[at + 3]);
        assert(len == le32(rest));
        if len > (size - at - 4) as u64 {
            assert(decode(rest) == Seq::<Seq<u8>>::empty());
            assert(views(out@) + Seq::<Seq<u8>>::empty() == views(out@));
            break;
        }
        let n = len as usize;
        let mut bytes: Vec<u8> = Vec::new();
        let mut i: usize = 0;
        while i < n
            invariant
                i <= n,
                at + 4 + n <= size == log@.len(),
                bytes@ == log@.subrange(at + 4, at + 4 + i),
            decreases n - i,
        {
            bytes.push(log[at + 4 + i]);
            i = i + 1;
            assert(log@.subrange(at + 4, at + 4 + i) == log@.subrange(at + 4, at + 4 + i - 1).push(
                log@[at + 4 + i - 1],
            ));
        }
        assert(bytes@ == rest.subrange(4, 4 + n));
        assert(rest.skip(4 + n) == log@.skip(at + 4 + n));
        assert(decode(rest) == seq![bytes@] + decode(log@.skip(at + 4 + n)));
        let ghost before = out@;
        out.push(bytes);
        assert(views(out@) == views(before).push(bytes@));
        assert(views(out@) + decode(log@.skip(at + 4 + n)) == views(before) + decode(rest));
        at = at + 4 + n;
    }
    out
}

// ---------------------------------------------------------------- the log

/// An open blob log: where the next record goes. The log is append-only, so
/// a torn final record costs the last write, never the log.
pub struct BlobLog {
    end: u64,
}

impl BlobLog {
    /// The offset the next record is written at.
    pub closed spec fn end_at(&self) -> nat {
        self.end as nat
    }

    /// A log whose file currently holds `size` bytes.
    pub fn open(size: u64) -> (log: BlobLog)
        ensures
            log.end_at() == size,
    {
        BlobLog { end: size }
    }

    pub fn end(&self) -> (e: u64)
        ensures
            e == self.end_at(),
    {
        self.end
    }

    /// Where to write `bytes`, and the record to write there.
    pub fn append(&self, bytes: &[u8]) -> (w: (u64, Vec<u8>))
        requires
            bytes@.len() < 0x1_0000_0000,
        ensures
            w.0 == self.end_at(),
            w.1@ == record(bytes@),
    {
        let n = bytes.len();
        let mut rec = encode_header(n as u32);
        let mut i: usize = 0;
        while i < n
            invariant
                n == bytes@.len(),
                i <= n,
                rec@ == header(n as nat) + bytes@.take(i as int),
            decreases n - i,
        {
            rec.push(bytes[i]);
            i = i + 1;
            assert(bytes@.take(i as int) == bytes@.take(i - 1).push(bytes@[i - 1]));
        }
        assert(bytes@.take(n as int) == bytes@);
        (self.end, rec)
    }

    /// Account for a write of `written` bytes of a record `expected` bytes
    /// long: a short write is refused and leaves the end where it was.
    pub fn wrote(&mut self, expected: usize, written: usize) -> (r: Result<(), String>)
        requires
            old(self).end_at() + written <= u64::MAX,
        ensures
            written == expected ==> r is Ok && final(self).end_at() == old(self).end_at() + written,
            written != expected ==> (r matches Err(m) && m@ == "opfs: short blob append"@)
                && final(self).end_at() == old(self).end_at(),
    {
        if written != expected {
            return Err("opfs: short blob append".to_owned());
        }
        self.end = self.end + written as u64;
        Ok(())
    }
}

// ---------------------------------------------------------------- positional I/O

/// A positional read of `wanted` bytes at `offset` that returned `got`: the
/// storage engine asks for exact reads, so anything short is an error.
pub fn read_outcome(wanted: usize, offset: u64, got: usize) -> (r: Result<(), String>)
    ensures
        got == wanted ==> r is Ok,
        got != wanted ==> (r matches Err(m) && m@ == "opfs: wanted "@ + decimal(wanted as nat)
            + " bytes at "@ + decimal(offset as nat) + ", got "@ + decimal(got as nat)),
{
    if got == wanted {
        return Ok(());
    }
    let mut m = "opfs: wanted ".to_owned();
    push_decimal(&mut m, wanted as u64);
    push_str(&mut m, " bytes at ");
    push_decimal(&mut m, offset);
    push_str(&mut m, ", got ");
    push_decimal(&mut m, got as u64);
    Err(m)
}

/// A positional write of `len` bytes at `offset` that wrote `written`.
pub fn write_outcome(len: usize, offset: u64, written: usize) -> (r: Result<(), String>)
    ensures
        written == len ==> r is Ok,
        written != len ==> (r matches Err(m) && m@ == "opfs: wrote "@ + decimal(written as nat)
            + " of "@ + decimal(len as nat) + " bytes at "@ + decimal(offset as nat)),
{
    if written == len {
        return Ok(());
    }
    let mut m = "opfs: wrote ".to_owned();
    push_decimal(&mut m, written as u64);
    push_str(&mut m, " of ");
    push_decimal(&mut m, len as u64);
    push_str(&mut m, " bytes at ");
    push_decimal(&mut m, offset);
    Err(m)
}

/// A read of part of the blob log that came back short.
pub fn log_read_outcome(wanted: usize, got: usize) -> (r: Result<(), String>)
    ensures
        got == wanted ==> r is Ok,
        got != wanted ==> (r matches Err(m) && m@ == "opfs: short blob read"@),
{
    if got == wanted {
        Ok(())
    } else {
        Err("opfs: short blob read".to_owned())
    }
}

// ---------------------------------------------------------------- blob garbage

/// Whether `a` and `b` hold the same bytes.
pub fn eq_bytes(a: &[u8], b: &[u8]) -> (r: bool)
    ensures
        r == (a@ == b@),
{
    if a.len() != b.len() {
        return false;
    }
    let mut i: usize = 0;
    while i < a.len()
        invariant
            a@.len() == b@.len(),
            i <= a@.len(),
            forall|k: int| 0 <= k < i ==> a@[k] == b@[k],
        decreases a@.len() - i,
    {
        if a[i] != b[i] {
            return false;
        }
        i = i + 1;
    }
    assert(a@ == b@);
    true
}

fn contains_bytes(list: &Vec<Vec<u8>>, x: &[u8]) -> (r: bool)
    ensures
        r == views(list@).contains(x@),
{
    let mut i: usize = 0;
    while i < list.len()
        invariant
            i <= list@.len(),
            forall|k: int| 0 <= k < i ==> list@[k]@ != x@,
        decreases list@.len() - i,
    {
        if eq_bytes(list[i].as_slice(), x) {
            assert(views(list@)[i as int] == x@);
            return true;
        }
        i = i + 1;
    }
    assert forall|k: int| 0 <= k < views(list@).len() implies views(list@)[k] != x@ by {
        assert(views(list@)[k] == list@[k]@);
    }
    false
}

/// The stored hashes that `keep` does not name, in stored order.
pub open spec fn stale_spec(stored: Seq<Seq<u8>>, keep: Seq<Seq<u8>>) -> Seq<Seq<u8>>
    decreases stored.len(),
{
    if stored.len() == 0 {
        Seq::empty()
    } else {
        let prev = stale_spec(stored.drop_last(), keep);
        if keep.contains(stored.last()) {
            prev
        } else {
            prev.push(stored.last())
        }
    }
}

/// The garbage rule drops exactly the unreferenced blobs: a hash is stale
/// if and only if it is stored and no live entry references it. No hash that
/// `keep` names is ever dropped.
pub proof fn stale_blobs_are_exactly_the_unreferenced(
    stored: Seq<Seq<u8>>,
    keep: Seq<Seq<u8>>,
    h: Seq<u8>,
)
    ensures
        stale_spec(stored, keep).contains(h) <==> (stored.contains(h) && !keep.contains(h)),
    decreases stored.len(),
{
    if stored.len() > 0 {
        let init = stored.drop_last();
        stale_blobs_are_exactly_the_unreferenced(init, keep, h);
        let prev = stale_spec(init, keep);
        assert(stored == init.push(stored.last()));
        assert(stored.contains(h) <==> (init.contains(h) || h == stored.last())) by {
            if stored.contains(h) {
                let k = choose|k: int| 0 <= k < stored.len() && stored[k] == h;
                if k < init.len() {
                    assert(init[k] == h);
                }
            }
            if init.contains(h) {
                let k = choose|k: int| 0 <= k < init.len() && init[k] == h;
                assert(stored[k] == h);
            }
            if h == stored.last() {
                assert(stored[stored.len() - 1] == h);
            }
        }
        if !keep.contains(stored.last()) {
            assert(prev.push(stored.last()).contains(h) <==> (prev.contains(h) || h == stored.last()))
                by {
                if prev.push(stored.last()).contains(h) {
                    let k = choose|k: int| 0 <= k < prev.push(stored.last()).len() && prev.push(
                        stored.last(),
                    )[k] == h;
                    if k < prev.len() {
                        assert(prev[k] == h);
                    }
                }
                if prev.contains(h) {
                    let k = choose|k: int| 0 <= k < prev.len() && prev[k] == h;
                    assert(prev.push(stored.last())[k] == h);
                }
                if h == stored.last() {
                    assert(prev.push(stored.last())[prev.len() as int] == h);
                }
            }
        }
    }
}

/// Of the blob hashes in the store, those to drop because no live entry
/// references them, and how many blobs remain once they are gone.
pub fn retain_blobs(stored: &Vec<Vec<u8>>, keep: &Vec<Vec<u8>>) -> (r: (Vec<Vec<u8>>, usize))
    ensures
        views(r.0@) == stale_spec(views(stored@), views(keep@)),
        r.1 == stored@.len() - r.0@.len(),
{
    let mut stale: Vec<Vec<u8>> = Vec::new();
    let mut i: usize = 0;
    while i < stored.len()
        invariant
            i <= stored@.len(),
            views(stale@) == stale_spec(views(stored@).take(i as int), views(keep@)),
            stale@.len() <= i,
        decreases stored@.len() - i,
    {
        let ghost pre = views(stored@).take(i as int);
        let ghost cur = views(stored@).take(i + 1);
        assert(cur.drop_last() == pre);
        assert(cur.last() == stored@[i as int]@);
        if !contains_bytes(keep, stored[i].as_slice()) {
            let ghost before = stale@;
            stale.push(stored[i].clone());
            assert(views(stale@) == views(before).push(stored@[i as int]@));
        }
        i = i + 1;
    }
    assert(views(stored@).take(stored@.len() as int) == views(stored@));
    let n = stale.len();
    (stale, stored.len() - n)
}

// ---------------------------------------------------------------- device keys

/// A remembered key read back: exactly 32 bytes, or the message saying what
/// was found under `name` instead.
pub fn key_from_bytes(name: &str, bytes: &[u8]) -> (r: Result<Vec<u8>, String>)
    ensures
        bytes@.len() == 32 ==> (r matches Ok(k) && k@ == bytes@),
        bytes@.len() != 32 ==> (r matches Err(m) && m@ == name@ + " is "@ + decimal(
            bytes@.len() as nat,
        ) + " bytes, wanted 32"@),
{
    if bytes.len() == 32 {
        let mut k: Vec<u8> = Vec::new();
        let mut i: usize = 0;
        while i < 32
            invariant
                bytes@.len() == 32,
                i <= 32,
                k@ == bytes@.take(i as int),
            decreases 32 - i,
        {
            k.push(bytes[i]);
            i = i + 1;
            assert(bytes@.take(i as int) == bytes@.take(i - 1).push(bytes@[i - 1]));
        }
        assert(bytes@.take(32) == bytes@);
        return Ok(k);
    }
    let mut m = name.to_owned();
    push_str(&mut m, " is ");
    push_decimal(&mut m, bytes.len() as u64);
    push_str(&mut m, " bytes, wanted 32");
    Err(m)
}

} // verus!
