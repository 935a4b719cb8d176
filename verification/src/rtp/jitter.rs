//! The jitter buffer: packets come in any order and go out in sequence.
use super::packet::{PacketView, RtpPacket};
use std::collections::BTreeMap;
use vstd::prelude::*;

verus! {

/// A buffer of bounded size that puts incoming packets in the order of their
/// sequence numbers.
pub struct JitterBuffer {
    buffer: BTreeMap<u16, RtpPacket>,
    capacity: usize,
    next_playout_seq: Option<u16>,
    packets_received: u64,
    packets_dropped: u64,
}

/// What a `JitterBuffer` holds: the packets by sequence number, the number of
/// the packet that is to be played next, and how many packets came in and were
/// dropped.
pub struct JitterView {
    pub buffer: Map<u16, PacketView>,
    pub capacity: nat,
    pub next: Option<u16>,
    pub received: nat,
    pub dropped: nat,
}

/// What the packets hold.
pub open spec fn packet_map(m: Map<u16, RtpPacket>) -> Map<u16, PacketView> {
    m.map_values(|p: RtpPacket| p@)
}

/// What is put in or taken out of a map of packets is put in or taken out of
/// the map of what they hold.
proof fn lemma_packet_map(m: Map<u16, RtpPacket>, k: u16, p: RtpPacket)
    ensures
        packet_map(m.insert(k, p)) == packet_map(m).insert(k, p@),
        packet_map(m.remove(k)) == packet_map(m).remove(k),
        packet_map(m).dom() == m.dom(),
        packet_map(m).len() == m.len(),
        m.contains_key(k) ==> packet_map(m)[k] == m[k]@,
{
    assert(packet_map(m.insert(k, p)) =~= packet_map(m).insert(k, p@));
    assert(packet_map(m.remove(k)) =~= packet_map(m).remove(k));
    assert(packet_map(m).dom() =~= m.dom());
}

impl View for JitterBuffer {
    type V = JitterView;

    closed spec fn view(&self) -> JitterView {
        JitterView {
            buffer: packet_map(self.buffer@),
            capacity: self.capacity as nat,
            next: self.next_playout_seq,
            received: self.packets_received as nat,
            dropped: self.packets_dropped as nat,
        }
    }
}

/// Whether sequence number `a` comes before `b`, where the numbers wrap around.
pub open spec fn seq_before(a: u16, b: u16) -> bool {
    (a - b) % 65536 >= 32768
}

/// Whether `k` is the least of the numbers.
pub open spec fn is_least(keys: Set<u16>, k: u16) -> bool {
    keys.contains(k) && forall|j: u16| keys.contains(j) ==> k <= j
}

/// The least of the numbers.
pub open spec fn least(keys: Set<u16>) -> u16 {
    choose|k: u16| is_least(keys, k)
}

/// The number of packets that must be there before playing begins: a quarter
/// of the capacity, and at least one.
pub open spec fn min_fill(capacity: nat) -> nat {
    if capacity / 4 < 1 {
        1
    } else {
        capacity / 4
    }
}

/// The buffer with a packet put in, and playing begun if there are enough.
pub open spec fn stored(j: JitterView, p: PacketView) -> JitterView {
    let b = j.buffer.insert(p.sequence_number, p);
    JitterView {
        buffer: b,
        next: if j.next is None && b.len() >= min_fill(j.capacity) {
            Some(least(b.dom()))
        } else {
            j.next
        },
        ..j
    }
}

/// The buffer after a packet has come in. A packet that comes before the one
/// to be played next is dropped. Where the buffer is full, the packet with the
/// least number makes room for one that comes behind it; otherwise the new
/// packet is dropped.
pub open spec fn inserted(j: JitterView, p: PacketView) -> JitterView {
    let seq = p.sequence_number;
    let counted = JitterView { received: j.received + 1, ..j };
    let lost = JitterView { dropped: j.dropped + 1, ..counted };
    let oldest = least(j.buffer.dom());
    if j.next is Some && seq_before(seq, j.next->0) {
        lost
    } else if j.buffer.len() >= j.capacity && j.buffer.len() > 0 {
        if seq_before(oldest, seq) {
            stored(JitterView { buffer: j.buffer.remove(oldest), ..lost }, p)
        } else {
            lost
        }
    } else {
        stored(counted, p)
    }
}

/// The buffer after a packet has been asked for: the packet to be played next
/// is gone, and the one behind it is next, whether it was there or not.
pub open spec fn popped(j: JitterView) -> JitterView {
    match j.next {
        Some(n) => JitterView {
            buffer: j.buffer.remove(n),
            next: Some(n.wrapping_add(1)),
            ..j
        },
        None => j,
    }
}

/// The packet to be played next, if it is there.
pub open spec fn front(j: JitterView) -> Option<PacketView> {
    match j.next {
        Some(n) => if j.buffer.contains_key(n) {
            Some(j.buffer[n])
        } else {
            None
        },
        None => None,
    }
}

impl JitterView {
    /// What holds of every buffer: each packet stands under its own sequence
    /// number, there are no more packets than the capacity allows, though at
    /// least one has room, and no more were dropped than came in.
    pub open spec fn wf(self) -> bool {
        &&& self.buffer.dom().finite()
        &&& forall|k: u16|
            self.buffer.contains_key(k) ==> (#[trigger] self.buffer[k]).sequence_number == k
        &&& self.buffer.len() <= self.capacity || self.buffer.len() <= 1
        &&& self.dropped <= self.received
    }
}

pub proof fn lemma_least_exists(keys: Set<u16>)
    requires
        keys.finite(),
        keys.len() > 0,
    ensures
        is_least(keys, least(keys)),
    decreases keys.len(),
{
    let a = keys.choose();
    assert(keys.contains(a));
    if keys.len() == 1 {
        assert(is_least(keys, a)) by {
            assert forall|j: u16| keys.contains(j) implies a <= j by {
                if j != a {
                    assert(keys.remove(a).len() == 0);
                    assert(keys.remove(a).contains(j));
                }
            }
        }
    } else {
        let rest = keys.remove(a);
        lemma_least_exists(rest);
        let m = least(rest);
        let k = if a <= m {
            a
        } else {
            m
        };
        assert(is_least(keys, k)) by {
            assert forall|j: u16| keys.contains(j) implies k <= j by {
                if j != a {
                    assert(rest.contains(j));
                }
            }
        }
    }
}

proof fn lemma_least_is(keys: Set<u16>, k: u16)
    requires
        is_least(keys, k),
    ensures
        least(keys) == k,
{
    let m = least(keys);
    assert(is_least(keys, m));
}

impl JitterBuffer {
    /// What holds of every buffer.
    pub open spec fn wf(&self) -> bool {
        self@.wf()
    }

    /// An empty buffer.
    pub fn new(capacity: usize) -> (r: Self)
        ensures
            r.wf(),
            r@ == (JitterView {
                buffer: Map::empty(),
                capacity: capacity as nat,
                next: None,
                received: 0,
                dropped: 0,
            }),
    {
        let r = JitterBuffer {
            buffer: BTreeMap::new(),
            capacity,
            next_playout_seq: None,
            packets_received: 0,
            packets_dropped: 0,
        };
        assert(r@.buffer =~= Map::empty());
        r
    }

    fn oldest(&self) -> (r: Option<u16>)
        requires
            self.buffer@.dom().finite(),
        ensures
            match r {
                Some(k) => self.buffer@.len() > 0 && k == least(self.buffer@.dom())
                    && self.buffer@.contains_key(k),
                None => self.buffer@.len() == 0,
            },
    {
        let mut best: Option<u16> = None;
        let ghost dom = self.buffer@.dom();
        for k in it: self.buffer.keys()
            invariant
                dom == self.buffer@.dom(),
                it.seq().unref().to_set() == dom,
                best is None <==> it.index() == 0,
                best is Some ==> dom.contains(best->0),
                forall|i: int|
                    0 <= i < it.index() ==> best is Some && best->0 <= #[trigger] it.seq().unref()[i],
                it.index() == it.seq().len() ==> forall|j: u16|
                    dom.contains(j) ==> best is Some && best->0 <= j,
        {
            let key: u16 = *k;
            proof {
                let i = it.index() as int;
                assert(it.seq().unref()[i] == key);
                assert(it.seq().unref().to_set().contains(key));
            }
            match best {
                Some(b) => {
                    if key < b {
                        best = Some(key);
                    }
                },
                None => {
                    best = Some(key);
                },
            }
            proof {
                assert forall|j: u16| it.index() + 1 == it.seq().len() && dom.contains(j) implies best
                    is Some && best->0 <= j by {
                    assert(it.seq().unref().contains(j));
                    let i = choose|i: int| 0 <= i < it.seq().len() && it.seq().unref()[i] == j;
                    assert(best->0 <= it.seq().unref()[i]);
                }
            }
        }
        proof {
            if best is Some {
                assert(is_least(dom, best->0));
                lemma_least_is(dom, best->0);
                assert(self.buffer@.contains_key(best->0));
                assert(dom.len() > 0) by {
                    if dom.len() == 0 {
                        assert(dom =~= Set::empty());
                    }
                }
            } else {
                assert(dom =~= Set::empty());
            }
        }
        best
    }

    fn store(&mut self, packet: RtpPacket)
        requires
            old(self).buffer@.dom().finite(),
        ensures
            final(self)@ == stored(old(self)@, packet@),
    {
        let seq: u16 = packet.sequence_number;
        proof {
            lemma_packet_map(self.buffer@, seq, packet);
            lemma_packet_map(self.buffer@.insert(seq, packet), seq, packet);
        }
        self.buffer.insert(seq, packet);
        if self.next_playout_seq.is_none() && self.buffer.len() >= self.min_fill_level() {
            self.next_playout_seq = self.oldest();
        }
    }

    /// Takes in a packet.
    pub fn insert(&mut self, packet: RtpPacket)
        requires
            old(self).wf(),
            old(self)@.received < u64::MAX,
        ensures
            final(self).wf(),
            final(self)@ == inserted(old(self)@, packet@),
    {
        let ghost start = self.buffer@;
        proof {
            law_insert_keeps_wf(self@, packet@);
            lemma_packet_map(start, 0, packet);
        }
        self.packets_received = self.packets_received + 1;
        let seq: u16 = packet.sequence_number;
        if let Some(next) = self.next_playout_seq {
            if JitterBuffer::seq_before(seq, next) {
                self.packets_dropped = self.packets_dropped + 1;
                return;
            }
        }
        if self.buffer.len() >= self.capacity {
            if let Some(oldest) = self.oldest() {
                self.packets_dropped = self.packets_dropped + 1;
                if JitterBuffer::seq_before(oldest, seq) {
                    proof {
                        lemma_packet_map(start, oldest, packet);
                    }
                    self.buffer.remove(&oldest);
                } else {
                    return;
                }
            }
        }
        self.store(packet);
    }

    /// The packet to be played next, if it is there; the one behind it is then
    /// next.
    pub fn pop(&mut self) -> (r: Option<RtpPacket>)
        requires
            old(self).wf(),
        ensures
            final(self).wf(),
            final(self)@ == popped(old(self)@),
            match r {
                Some(p) => front(old(self)@) == Some(p@),
                None => front(old(self)@) is None,
            },
    {
        proof {
            law_pop_keeps_wf(self@);
        }
        let ghost start = self.buffer@;
        let next: u16 = match self.next_playout_seq {
            Some(n) => n,
            None => {
                return None;
            },
        };
        let packet = self.buffer.remove(&next);
        proof {
            lemma_packet_map(start, next, start[next]);
        }
        self.next_playout_seq = Some(next.wrapping_add(1));
        packet
    }

    /// The packet to be played next, if it is there.
    pub fn peek(&self) -> (r: Option<&RtpPacket>)
        ensures
            match r {
                Some(p) => front(self@) == Some(p@),
                None => front(self@) is None,
            },
    {
        match self.next_playout_seq {
            Some(n) => {
                proof {
                    lemma_packet_map(self.buffer@, n, self.buffer@[n]);
                }
                self.buffer.get(&n)
            },
            None => None,
        }
    }

    pub fn len(&self) -> (r: usize)
        ensures
            r == self@.buffer.len(),
    {
        proof {
            lemma_packet_map(self.buffer@, 0, self.buffer@[0]);
        }
        self.buffer.len()
    }

    pub fn is_empty(&self) -> (r: bool)
        ensures
            r == (self@.buffer.len() == 0),
    {
        self.len() == 0
    }

    /// Forgets the packets, and where playing was.
    pub fn reset(&mut self)
        requires
            old(self).wf(),
        ensures
            final(self).wf(),
            final(self)@ == (JitterView { buffer: Map::empty(), next: None, ..old(self)@ }),
    {
        self.buffer.clear();
        self.next_playout_seq = None;
        assert(self@.buffer =~= Map::empty());
    }

    pub fn packets_received(&self) -> (r: u64)
        ensures
            r == self@.received,
    {
        self.packets_received
    }

    pub fn packets_dropped(&self) -> (r: u64)
        ensures
            r == self@.dropped,
    {
        self.packets_dropped
    }

    fn min_fill_level(&self) -> (r: usize)
        ensures
            r == min_fill(self@.capacity),
    {
        let q: usize = self.capacity / 4;
        if q < 1 {
            1
        } else {
            q
        }
    }

    fn seq_before(a: u16, b: u16) -> (r: bool)
        ensures
            r == seq_before(a, b),
    {
        a.wrapping_sub(b) >= 32768
    }
}

// ---------------------------------------------------------------------------
// Laws
// ---------------------------------------------------------------------------

proof fn lemma_stored_wf(j: JitterView, p: PacketView)
    requires
        j.wf(),
        j.buffer.len() < j.capacity || j.buffer.len() == 0,
    ensures
        stored(j, p).wf(),
{
    let b = j.buffer.insert(p.sequence_number, p);
    assert(b.dom() =~= j.buffer.dom().insert(p.sequence_number));
    assert forall|k: u16| b.contains_key(k) implies (#[trigger] b[k]).sequence_number == k by {
        if k != p.sequence_number {
            assert(j.buffer.contains_key(k));
        }
    }
}

/// Whatever packet comes in, the buffer stays well formed: in particular it
/// never holds more packets than its capacity, or more than one.
pub proof fn law_insert_keeps_wf(j: JitterView, p: PacketView)
    requires
        j.wf(),
    ensures
        inserted(j, p).wf(),
{
    let oldest = least(j.buffer.dom());
    let counted = JitterView { received: j.received + 1, ..j };
    if j.buffer.len() >= j.capacity && j.buffer.len() > 0 {
        lemma_least_exists(j.buffer.dom());
        let room = JitterView {
            buffer: j.buffer.remove(oldest),
            dropped: j.dropped + 1,
            ..counted
        };
        assert(room.buffer.dom() =~= j.buffer.dom().remove(oldest));
        assert forall|k: u16| room.buffer.contains_key(k) implies (
        #[trigger] room.buffer[k]).sequence_number == k by {
            assert(j.buffer.contains_key(k));
        }
        assert(room.wf());
        lemma_stored_wf(room, p);
    } else {
        assert(counted.wf());
        lemma_stored_wf(counted, p);
    }
}

/// Taking a packet out leaves the buffer well formed.
pub proof fn law_pop_keeps_wf(j: JitterView)
    requires
        j.wf(),
    ensures
        popped(j).wf(),
{
    if j.next is Some {
        let n = j.next->0;
        assert(j.buffer.remove(n).dom() =~= j.buffer.dom().remove(n));
        assert forall|k: u16| j.buffer.remove(n).contains_key(k) implies (
        #[trigger] j.buffer.remove(n)[k]).sequence_number == k by {
            assert(j.buffer.contains_key(k));
        }
    }
}

/// Packets go out in sequence: the packet that is taken out has the number
/// that was due, and the number behind it is due then, also where the packet
/// was missing.
pub proof fn law_pop_in_sequence(j: JitterView)
    requires
        j.wf(),
        j.next is Some,
    ensures
        front(j) is Some ==> (front(j)->0).sequence_number == j.next->0,
        popped(j).next == Some((j.next->0).wrapping_add(1)),
        !popped(j).buffer.contains_key(j.next->0),
{
}

/// A packet that is put in and due is the packet that comes out.
pub proof fn law_insert_then_pop(j: JitterView, p: PacketView)
    requires
        j.next == Some(p.sequence_number),
        j.buffer.len() < j.capacity,
    ensures
        front(inserted(j, p)) == Some(p),
        inserted(j, p).dropped == j.dropped,
{
}

/// A packet that comes too late is dropped and counted; what is buffered stays.
pub proof fn law_late_packet_dropped(j: JitterView, p: PacketView)
    requires
        j.next is Some,
        seq_before(p.sequence_number, j.next->0),
    ensures
        inserted(j, p).buffer == j.buffer,
        inserted(j, p).next == j.next,
        inserted(j, p).dropped == j.dropped + 1,
        inserted(j, p).received == j.received + 1,
{
}

/// Nothing is played before the buffer is filled to a quarter.
pub proof fn law_playing_waits(j: JitterView, p: PacketView)
    requires
        j.wf(),
        j.next is None,
        j.buffer.len() + 1 < min_fill(j.capacity),
    ensures
        inserted(j, p).next is None,
        front(inserted(j, p)) is None,
{
    let b = j.buffer.insert(p.sequence_number, p);
    assert(b.dom() =~= j.buffer.dom().insert(p.sequence_number));
}

/// A buffer into which nothing has come yet.
pub open spec fn fresh(capacity: nat) -> JitterView {
    JitterView { buffer: Map::empty(), capacity, next: None, received: 0, dropped: 0 }
}

/// The buffer after packets have come in, one after the other.
pub open spec fn filled(j: JitterView, ps: Seq<PacketView>) -> JitterView
    decreases ps.len(),
{
    if ps.len() == 0 {
        j
    } else {
        inserted(filled(j, ps.drop_last()), ps.last())
    }
}

/// The buffer after a packet has been asked for `n` times.
pub open spec fn drained(j: JitterView, n: nat) -> JitterView
    decreases n,
{
    if n == 0 {
        j
    } else {
        popped(drained(j, (n - 1) as nat))
    }
}

/// Whether one of the packets has the number `k`.
pub open spec fn has_number(ps: Seq<PacketView>, k: int) -> bool {
    exists|i: int| 0 <= i < ps.len() && (#[trigger] ps[i]).sequence_number == k
}

/// Whether packets have numbers from `s` up to but not including `s + n`, each
/// its own.
pub open spec fn numbered_from(ps: Seq<PacketView>, s: u16, n: nat) -> bool {
    &&& forall|i: int| 0 <= i < ps.len() ==> s <= (#[trigger] ps[i]).sequence_number < s + n
    &&& forall|i: int, k: int|
        0 <= i < k < ps.len() ==> (#[trigger] ps[i]).sequence_number != (
        #[trigger] ps[k]).sequence_number
}

/// Whether a buffer holds these packets and no others.
pub open spec fn holds_all(j: JitterView, ps: Seq<PacketView>) -> bool {
    &&& j.buffer.len() == ps.len()
    &&& forall|i: int|
        0 <= i < ps.len() ==> j.buffer.contains_key((#[trigger] ps[i]).sequence_number)
            && j.buffer[ps[i].sequence_number] == ps[i]
    &&& forall|k: u16| #[trigger] j.buffer.contains_key(k) ==> has_number(ps, k as int)
}

/// While there is room, what comes into a new buffer is kept, and playing is to
/// begin with the first number as soon as there are enough packets.
proof fn lemma_filled(capacity: nat, ps: Seq<PacketView>, s: u16, n: nat)
    requires
        ps.len() <= capacity,
        n <= 32768,
        numbered_from(ps, s, n),
        ps.len() >= min_fill(capacity) ==> has_number(
            ps.take(min_fill(capacity) as int),
            s as int,
        ),
    ensures
        filled(fresh(capacity), ps).wf(),
        holds_all(filled(fresh(capacity), ps), ps),
        filled(fresh(capacity), ps).capacity == capacity,
        filled(fresh(capacity), ps).dropped == 0,
        filled(fresh(capacity), ps).received == ps.len(),
        filled(fresh(capacity), ps).next == (if ps.len() >= min_fill(capacity) {
            Some(s)
        } else {
            None
        }),
    decreases ps.len(),
{
    let least_fill = min_fill(capacity) as int;
    if ps.len() > 0 {
        let init = ps.drop_last();
        let p = ps.last();
        assert(p == ps[ps.len() - 1]);
        assert forall|i: int| 0 <= i < init.len() implies s <= (
        #[trigger] init[i]).sequence_number < s + n by {
            assert(init[i] == ps[i]);
        }
        assert forall|i: int, k: int| 0 <= i < k < init.len() implies (
        #[trigger] init[i]).sequence_number != (#[trigger] init[k]).sequence_number by {
            assert(init[i] == ps[i] && init[k] == ps[k]);
        }
        if init.len() >= least_fill {
            assert(init.take(least_fill) =~= ps.take(least_fill));
        }
        lemma_filled(capacity, init, s, n);
        let j = filled(fresh(capacity), init);
        let after = inserted(j, p);
        law_insert_keeps_wf(j, p);
        let q = p.sequence_number;
        assert(!j.buffer.contains_key(q)) by {
            if j.buffer.contains_key(q) {
                assert(has_number(init, q as int));
                let i = choose|i: int|
                    0 <= i < init.len() && (#[trigger] init[i]).sequence_number == q;
                assert(init[i] == ps[i]);
            }
        }
        assert(!seq_before(q, s));
        let b = j.buffer.insert(q, p);
        assert(b.dom() =~= j.buffer.dom().insert(q));
        assert(after.buffer == b);
        assert(holds_all(after, ps)) by {
            assert forall|i: int| 0 <= i < ps.len() implies b.contains_key(
                (#[trigger] ps[i]).sequence_number,
            ) && b[ps[i].sequence_number] == ps[i] by {
                if i < init.len() {
                    assert(init[i] == ps[i]);
                    assert(j.buffer.contains_key(init[i].sequence_number));
                }
            }
            assert forall|k: u16| #[trigger] b.contains_key(k) implies has_number(
                ps,
                k as int,
            ) by {
                if k == q {
                    assert(ps[ps.len() - 1].sequence_number == k);
                } else {
                    assert(j.buffer.contains_key(k));
                    let i = choose|i: int|
                        0 <= i < init.len() && (#[trigger] init[i]).sequence_number == k;
                    assert(ps[i].sequence_number == k);
                }
            }
        }
        if ps.len() == least_fill {
            assert(ps.take(least_fill) =~= ps);
            let i = choose|i: int| 0 <= i < ps.len() && (#[trigger] ps[i]).sequence_number == s;
            assert(b.contains_key(ps[i].sequence_number));
            assert forall|k: u16| b.dom().contains(k) implies s <= k by {
                assert(b.contains_key(k));
                let i = choose|i: int|
                    0 <= i < ps.len() && (#[trigger] ps[i]).sequence_number == k;
                assert(s <= ps[i].sequence_number);
            }
            lemma_least_is(b.dom(), s);
        }
    }
}

/// What is left after some packets have been asked for: those behind them.
proof fn lemma_drained(j: JitterView, s: u16, k: nat)
    requires
        j.next == Some(s),
        s + k <= 65536,
    ensures
        drained(j, k).next == Some(((s + k) % 65536) as u16),
        forall|q: u16| #[trigger]
            drained(j, k).buffer.contains_key(q) <==> j.buffer.contains_key(q) && !(s <= q < s
                + k),
        forall|q: u16|
            drained(j, k).buffer.contains_key(q) ==> #[trigger] drained(j, k).buffer[q]
                == j.buffer[q],
        drained(j, k).dropped == j.dropped,
    decreases k,
{
    if k > 0 {
        lemma_drained(j, s, (k - 1) as nat);
    }
}

/// What has come in, in whatever order, is played in sequence, each packet once:
/// once playing has begun with the first number, every packet that came in is
/// there when it is due, a packet that is missing is passed over, and in the end
/// nothing is left and nothing was dropped. The first number is among those that
/// came in before playing began, there is room for all, and the numbers do not
/// wrap around.
pub proof fn law_played_in_sequence(capacity: nat, ps: Seq<PacketView>, s: u16, n: nat)
    requires
        min_fill(capacity) <= ps.len() <= capacity,
        n <= 32768,
        s + n <= 65536,
        numbered_from(ps, s, n),
        has_number(ps.take(min_fill(capacity) as int), s as int),
    ensures
        ({
            let full = filled(fresh(capacity), ps);
            &&& forall|i: int|
                0 <= i < ps.len() ==> front(
                    drained(full, ((#[trigger] ps[i]).sequence_number - s) as nat),
                ) == Some(ps[i])
            &&& forall|k: nat|
                k < n && !has_number(ps, s + k) ==> front(#[trigger] drained(full, k)) is None
            &&& drained(full, n).buffer == Map::<u16, PacketView>::empty()
            &&& drained(full, n).dropped == 0
            &&& drained(full, n).received == ps.len()
        }),
{
    let full = filled(fresh(capacity), ps);
    lemma_filled(capacity, ps, s, n);
    assert forall|i: int| 0 <= i < ps.len() implies front(
        drained(full, ((#[trigger] ps[i]).sequence_number - s) as nat),
    ) == Some(ps[i]) by {
        let q = ps[i].sequence_number;
        lemma_drained(full, s, (q - s) as nat);
        assert(full.buffer.contains_key(q));
        assert(drained(full, (q - s) as nat).buffer.contains_key(q));
    }
    assert forall|k: nat| k < n && !has_number(ps, s + k) implies front(
        #[trigger] drained(full, k),
    ) is None by {
        lemma_drained(full, s, k);
        let q = (s + k) as u16;
        assert(!full.buffer.contains_key(q));
        assert(!drained(full, k).buffer.contains_key(q));
    }
    lemma_drained(full, s, n);
    lemma_drained_counts(full, n);
    assert forall|q: u16| !drained(full, n).buffer.contains_key(q) by {
        if full.buffer.contains_key(q) {
            let i = choose|i: int| 0 <= i < ps.len() && (#[trigger] ps[i]).sequence_number == q;
            assert(s <= ps[i].sequence_number < s + n);
        }
    }
    assert(drained(full, n).buffer =~= Map::<u16, PacketView>::empty());
}

/// To ask for packets does not count as any coming in.
proof fn lemma_drained_counts(j: JitterView, n: nat)
    ensures
        drained(j, n).received == j.received,
    decreases n,
{
    if n > 0 {
        lemma_drained_counts(j, (n - 1) as nat);
    }
}

} // verus!
