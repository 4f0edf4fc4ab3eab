//! Which outgoing messages the broker has still to acknowledge.
//!
//! A message is handed to the MQTT client, gets a packet id when it goes out, and is delivered when
//! the broker acknowledges that packet id.
use vstd::prelude::*;

verus! {

// ---------------------------------------------------------------------------
// The model
// ---------------------------------------------------------------------------

/// The messages on their way, each known by its outbox id. A message that is handed over again
/// while it is on its way counts as often as it was handed over.
#[verifier::ext_equal]
pub struct Deliveries {
    /// Handed to the client, in order, without a packet id yet.
    pub queue: Seq<i64>,
    /// Sent under a packet id that the broker has not acknowledged.
    pub awaiting: Map<u16, i64>,
    /// Held back until the broker acknowledges the message that has its packet id.
    pub blocked: Option<(u16, i64)>,
}

impl Deliveries {
    /// No message at all.
    pub open spec fn none() -> Deliveries {
        Deliveries { queue: Seq::empty(), awaiting: Map::empty(), blocked: None }
    }

    /// Whether the message with the given id was sent and not acknowledged.
    pub open spec fn awaits(self, id: i64) -> bool {
        exists|k: u16| #[trigger] self.awaiting.dom().contains(k) && self.awaiting[k] == id
    }

    /// Whether the message with the given id is held back.
    pub open spec fn holds_back(self, id: i64) -> bool {
        self.blocked matches Some(b) && b.1 == id
    }

    /// Whether the message with the given id is on its way.
    pub open spec fn tracks(self, id: i64) -> bool {
        self.queue.contains(id) || self.awaits(id) || self.holds_back(id)
    }

    /// Whether the messages that await an acknowledgement can be counted.
    pub open spec fn valid(self) -> bool {
        self.awaiting.dom().finite()
    }

    /// How often the message with the given id is on its way.
    pub open spec fn copies(self, id: i64) -> nat {
        self.queue.to_multiset().count(id) + packets_of(self.awaiting, id).len()
            + if self.holds_back(id) {
            1nat
        } else {
            0nat
        }
    }

    /// The number of messages on their way.
    pub open spec fn count(self) -> nat {
        self.queue.len() + self.awaiting.dom().len() + if self.blocked is Some {
            1nat
        } else {
            0nat
        }
    }

    /// A message is handed to the client.
    pub open spec fn accepted(self, id: i64) -> Deliveries {
        Deliveries { queue: self.queue.push(id), ..self }
    }

    /// The client did not take the message that was handed over last under this id.
    pub open spec fn withdrawn(self, id: i64) -> Deliveries {
        match self.queue.index_of_last(id) {
            Some(i) => Deliveries { queue: self.queue.remove(i), ..self },
            None => self,
        }
    }

    /// A message went out under a packet id: the first of the queue, unless the packet id is taken
    /// and a message was sent again.
    pub open spec fn sent(self, packet: u16) -> Deliveries {
        if self.awaiting.dom().contains(packet) || self.queue.len() == 0 {
            self
        } else {
            Deliveries {
                queue: self.queue.skip(1),
                awaiting: self.awaiting.insert(packet, self.queue[0]),
                ..self
            }
        }
    }

    /// The first message of the queue is held back until its packet id is free.
    pub open spec fn held_back(self, packet: u16) -> Deliveries {
        if self.blocked is Some || self.queue.len() == 0 {
            self
        } else {
            Deliveries {
                queue: self.queue.skip(1),
                blocked: Some((packet, self.queue[0])),
                ..self
            }
        }
    }

    /// The message that an acknowledgement confirms.
    pub open spec fn confirms(self, packet: u16) -> Option<i64> {
        if self.awaiting.dom().contains(packet) {
            Some(self.awaiting[packet])
        } else {
            None
        }
    }

    /// The broker acknowledges a packet id. A message that was held back for it takes its place.
    pub open spec fn acknowledged(self, packet: u16) -> Deliveries {
        if !self.awaiting.dom().contains(packet) {
            self
        } else {
            match self.blocked {
                Some(b) => if b.0 == packet {
                    Deliveries {
                        awaiting: self.awaiting.insert(packet, b.1),
                        blocked: None,
                        ..self
                    }
                } else {
                    Deliveries { awaiting: self.awaiting.remove(packet), ..self }
                },
                None => Deliveries { awaiting: self.awaiting.remove(packet), ..self },
            }
        }
    }

    /// The message that the client gives up when it refuses one for its size.
    pub open spec fn gives_up(self) -> Option<i64> {
        if self.queue.len() == 0 {
            None
        } else {
            Some(self.queue[0])
        }
    }

    /// The client refuses the first message of the queue.
    pub open spec fn refused(self) -> Deliveries {
        if self.queue.len() == 0 {
            self
        } else {
            Deliveries { queue: self.queue.skip(1), ..self }
        }
    }
}

/// The packet ids under which the message with the given id awaits an acknowledgement.
pub open spec fn packets_of(awaiting: Map<u16, i64>, id: i64) -> Set<u16> {
    awaiting.dom().filter(|k: u16| awaiting[k] == id)
}

// ---------------------------------------------------------------------------
// The ledger
// ---------------------------------------------------------------------------

/// Keeps track of outgoing messages until the broker acknowledges them.
pub struct DeliveryLedger {
    queue: Vec<i64>,
    awaiting: Vec<(u16, i64)>,
    blocked: Option<(u16, i64)>,
}

/// The map that a list of pairs stands for.
pub open spec fn pairs_map(pairs: Seq<(u16, i64)>) -> Map<u16, i64>
    decreases pairs.len(),
{
    if pairs.len() == 0 {
        Map::empty()
    } else {
        pairs_map(pairs.drop_last()).insert(pairs.last().0, pairs.last().1)
    }
}

/// Whether no packet id occurs twice.
pub open spec fn distinct_keys(pairs: Seq<(u16, i64)>) -> bool {
    forall|i: int, j: int|
        0 <= i < j < pairs.len() ==> (#[trigger] pairs[i]).0 != (#[trigger] pairs[j]).0
}

/// The keys and values of the map are those of the list.
proof fn lemma_pairs_map(pairs: Seq<(u16, i64)>)
    requires
        distinct_keys(pairs),
    ensures
        pairs_map(pairs).dom().finite(),
        pairs_map(pairs).dom().len() == pairs.len(),
        forall|i: int|
            0 <= i < pairs.len() ==> pairs_map(pairs).dom().contains((#[trigger] pairs[i]).0)
                && pairs_map(pairs)[pairs[i].0] == pairs[i].1,
        forall|k: u16| #[trigger]
            pairs_map(pairs).dom().contains(k) ==> exists|i: int|
                0 <= i < pairs.len() && (#[trigger] pairs[i]).0 == k,
    decreases pairs.len(),
{
    if pairs.len() > 0 {
        let rest = pairs.drop_last();
        let last = pairs.last();
        assert(distinct_keys(rest)) by {
            assert forall|i: int, j: int| 0 <= i < j < rest.len() implies (#[trigger] rest[i]).0 != (
            #[trigger] rest[j]).0 by {
                assert(pairs[i].0 != pairs[j].0);
            }
        }
        lemma_pairs_map(rest);
        if pairs_map(rest).dom().contains(last.0) {
            let i = choose|i: int| 0 <= i < rest.len() && (#[trigger] rest[i]).0 == last.0;
            assert(pairs[i].0 != pairs[pairs.len() - 1].0);
        }
        assert forall|i: int| 0 <= i < pairs.len() implies pairs_map(pairs).dom().contains(
            (#[trigger] pairs[i]).0,
        ) && pairs_map(pairs)[pairs[i].0] == pairs[i].1 by {
            if i < rest.len() {
                assert(rest[i] == pairs[i]);
                assert(pairs[i].0 != pairs[pairs.len() - 1].0);
            }
        }
        assert forall|k: u16| #[trigger] pairs_map(pairs).dom().contains(k) implies exists|i: int|
            0 <= i < pairs.len() && (#[trigger] pairs[i]).0 == k by {
            if k == last.0 {
                assert(pairs[pairs.len() - 1].0 == k);
            } else {
                assert(pairs_map(rest).dom().contains(k));
                let i = choose|i: int| 0 <= i < rest.len() && (#[trigger] rest[i]).0 == k;
                assert(pairs[i].0 == k);
            }
        }
    }
}

/// Taking a pair out of the list takes its key out of the map.
proof fn lemma_pairs_remove(pairs: Seq<(u16, i64)>, i: int)
    requires
        distinct_keys(pairs),
        0 <= i < pairs.len(),
    ensures
        distinct_keys(pairs.remove(i)),
        pairs_map(pairs.remove(i)) == pairs_map(pairs).remove(pairs[i].0),
{
    let rest = pairs.remove(i);
    assert(distinct_keys(rest)) by {
        assert forall|a: int, b: int| 0 <= a < b < rest.len() implies (#[trigger] rest[a]).0 != (
        #[trigger] rest[b]).0 by {
            let p = if a < i {
                a
            } else {
                a + 1
            };
            let q = if b < i {
                b
            } else {
                b + 1
            };
            assert(rest[a] == pairs[p] && rest[b] == pairs[q]);
        }
    }
    lemma_pairs_map(pairs);
    lemma_pairs_map(rest);
    let m = pairs_map(rest);
    let n = pairs_map(pairs).remove(pairs[i].0);
    assert forall|k: u16| m.dom().contains(k) <==> n.dom().contains(k) by {
        if m.dom().contains(k) {
            let a = choose|a: int| 0 <= a < rest.len() && (#[trigger] rest[a]).0 == k;
            let p = if a < i {
                a
            } else {
                a + 1
            };
            assert(rest[a] == pairs[p]);
            assert(pairs[p].0 != pairs[i].0);
        }
        if n.dom().contains(k) {
            let p = choose|p: int| 0 <= p < pairs.len() && (#[trigger] pairs[p]).0 == k;
            let a = if p < i {
                p
            } else {
                p - 1
            };
            assert(rest[a] == pairs[p]);
        }
    }
    assert forall|k: u16| m.dom().contains(k) implies m[k] == n[k] by {
        let a = choose|a: int| 0 <= a < rest.len() && (#[trigger] rest[a]).0 == k;
        let p = if a < i {
            a
        } else {
            a + 1
        };
        assert(rest[a] == pairs[p]);
    }
    assert(m =~= n);
}

impl DeliveryLedger {
    /// The messages on their way.
    pub closed spec fn view(&self) -> Deliveries {
        Deliveries {
            queue: self.queue@,
            awaiting: pairs_map(self.awaiting@),
            blocked: self.blocked,
        }
    }

    /// Whether the ledger is in order.
    pub closed spec fn wf(&self) -> bool {
        distinct_keys(self.awaiting@) && self@.valid()
    }

    /// An empty ledger.
    pub fn new() -> (r: Self)
        ensures
            r.wf(),
            r@ == Deliveries::none(),
    {
        let r = DeliveryLedger { queue: Vec::new(), awaiting: Vec::new(), blocked: None };
        assert(r@ =~= Deliveries::none());
        r
    }

    /// The place of a packet id among the messages that await an acknowledgement.
    fn find(&self, packet: u16) -> (r: Option<usize>)
        requires
            self.wf(),
        ensures
            match r {
                Some(i) => i < self.awaiting@.len() && self.awaiting@[i as int].0 == packet
                    && self@.awaiting.dom().contains(packet) && self@.awaiting[packet]
                    == self.awaiting@[i as int].1,
                None => !self@.awaiting.dom().contains(packet),
            },
    {
        proof {
            lemma_pairs_map(self.awaiting@);
        }
        for i in 0..self.awaiting.len()
            invariant
                forall|j: int| 0 <= j < i ==> (#[trigger] self.awaiting@[j]).0 != packet,
                self.wf(),
                forall|i: int|
                    0 <= i < self.awaiting@.len() ==> self@.awaiting.dom().contains(
                        (#[trigger] self.awaiting@[i]).0,
                    ) && self@.awaiting[self.awaiting@[i].0] == self.awaiting@[i].1,
        {
            if self.awaiting[i].0 == packet {
                return Some(i);
            }
        }
        None
    }

    /// Whether the message with the given outbox id is on its way.
    pub fn is_tracked(&self, id: i64) -> (r: bool)
        requires
            self.wf(),
        ensures
            r == self@.tracks(id),
    {
        for i in 0..self.queue.len()
            invariant
                forall|j: int| 0 <= j < i ==> self.queue@[j] != id,
        {
            if self.queue[i] == id {
                assert(self@.queue[i as int] == id);
                return true;
            }
        }
        proof {
            lemma_pairs_map(self.awaiting@);
        }
        for i in 0..self.awaiting.len()
            invariant
                forall|j: int| 0 <= j < i ==> (#[trigger] self.awaiting@[j]).1 != id,
                forall|i: int|
                    0 <= i < self.awaiting@.len() ==> self@.awaiting.dom().contains(
                        (#[trigger] self.awaiting@[i]).0,
                    ) && self@.awaiting[self.awaiting@[i].0] == self.awaiting@[i].1,
        {
            if self.awaiting[i].1 == id {
                assert(self@.awaiting.dom().contains(self.awaiting@[i as int].0));
                return true;
            }
        }
        assert(!self@.awaits(id)) by {
            if self@.awaits(id) {
                let k = choose|k: u16| #[trigger]
                    self@.awaiting.dom().contains(k) && self@.awaiting[k] == id;
                let i = choose|i: int|
                    0 <= i < self.awaiting@.len() && (#[trigger] self.awaiting@[i]).0 == k;
                assert(self.awaiting@[i].1 != id);
            }
        }
        match self.blocked {
            Some(b) => b.1 == id,
            None => false,
        }
    }

    /// Takes up a message that is about to be handed to the client.
    pub fn accept(&mut self, id: i64)
        requires
            old(self).wf(),
        ensures
            final(self).wf(),
            final(self)@ == old(self)@.accepted(id),
    {
        self.queue.push(id);
        assert(self@ =~= old(self)@.accepted(id));
    }

    /// Takes up a pending message of the outbox, unless it is on its way already. Returns whether it
    /// is to be handed to the client.
    pub fn accept_pending(&mut self, id: i64) -> (r: bool)
        requires
            old(self).wf(),
        ensures
            final(self).wf(),
            r == !old(self)@.tracks(id),
            final(self)@ == if r {
                old(self)@.accepted(id)
            } else {
                old(self)@
            },
    {
        if self.is_tracked(id) {
            return false;
        }
        self.accept(id);
        true
    }

    /// Forgets a message that the client did not take: the one that was handed over last under this
    /// id.
    pub fn withdraw(&mut self, id: i64)
        requires
            old(self).wf(),
        ensures
            final(self).wf(),
            final(self)@ == old(self)@.withdrawn(id),
    {
        proof {
            self@.queue.index_of_last_ensures(id);
        }
        let mut i: usize = self.queue.len();
        while i > 0
            invariant
                i <= self.queue@.len(),
                *self == *old(self),
                self.wf(),
                forall|j: int| i <= j < self.queue@.len() ==> self.queue@[j] != id,
                match self.queue@.index_of_last(id) {
                    Some(n) => 0 <= n < self.queue@.len() && self.queue@[n] == id && forall|j: int|
                        n < j < self.queue@.len() ==> self.queue@[j] != id,
                    None => !self.queue@.contains(id),
                },
            decreases i,
        {
            i = i - 1;
            if self.queue[i] == id {
                assert(self.queue@.contains(id));
                assert(self@.queue.index_of_last(id) == Some(i as int));
                let _ = self.queue.remove(i);
                assert(self@ =~= old(self)@.withdrawn(id));
                return;
            }
        }
    }

    /// Takes note that a message went out under a packet id.
    pub fn on_sent(&mut self, packet: u16)
        requires
            old(self).wf(),
        ensures
            final(self).wf(),
            final(self)@ == old(self)@.sent(packet),
    {
        match self.find(packet) {
            Some(_) => {},
            None => {
                if self.queue.len() > 0 {
                    proof {
                        lemma_pairs_map(self.awaiting@);
                    }
                    let id: i64 = self.queue.remove(0);
                    self.awaiting.push((packet, id));
                    proof {
                        let before = old(self).awaiting@;
                        assert(self.awaiting@.drop_last() =~= before);
                        assert forall|i: int, j: int|
                            0 <= i < j < self.awaiting@.len() implies (#[trigger] self.awaiting@[i]).0 != (
                        #[trigger] self.awaiting@[j]).0 by {
                            if j == before.len() {
                                assert(old(self)@.awaiting.dom().contains(before[i].0));
                            } else {
                                assert(before[i].0 != before[j].0);
                            }
                        }
                        assert(self@.queue =~= old(self)@.queue.skip(1));
                        assert(self@ =~= old(self)@.sent(packet));
                    }
                }
            },
        }
    }

    /// Takes note that the next message is held back, because its packet id is in use.
    pub fn on_held_back(&mut self, packet: u16)
        requires
            old(self).wf(),
        ensures
            final(self).wf(),
            final(self)@ == old(self)@.held_back(packet),
    {
        if self.blocked.is_none() && self.queue.len() > 0 {
            let id: i64 = self.queue.remove(0);
            self.blocked = Some((packet, id));
            assert(self@.queue =~= old(self)@.queue.skip(1));
            assert(self@ =~= old(self)@.held_back(packet));
        }
    }

    /// Takes note that the broker acknowledged a packet id. Returns the message that is thereby
    /// delivered.
    pub fn on_ack(&mut self, packet: u16) -> (r: Option<i64>)
        requires
            old(self).wf(),
        ensures
            final(self).wf(),
            r == old(self)@.confirms(packet),
            final(self)@ == old(self)@.acknowledged(packet),
    {
        match self.find(packet) {
            None => None,
            Some(i) => {
                proof {
                    lemma_pairs_remove(self.awaiting@, i as int);
                    lemma_pairs_map(self.awaiting@.remove(i as int));
                }
                let (_, id) = self.awaiting.remove(i);
                let ghost rest = self.awaiting@;
                match self.blocked {
                    Some((held, next)) => {
                        if held == packet {
                            self.awaiting.push((packet, next));
                            self.blocked = None;
                            proof {
                                assert(self.awaiting@.drop_last() =~= rest);
                                assert forall|a: int, b: int|
                                    0 <= a < b < self.awaiting@.len() implies (
                                #[trigger] self.awaiting@[a]).0 != (#[trigger] self.awaiting@[b]).0 by {
                                    if b == rest.len() {
                                        assert(pairs_map(rest).dom().contains(rest[a].0));
                                    } else {
                                        assert(rest[a].0 != rest[b].0);
                                    }
                                }
                                assert(old(self)@.awaiting.remove(packet).insert(packet, next)
                                    =~= old(self)@.awaiting.insert(packet, next));
                            }
                        }
                    },
                    None => {},
                }
                assert(self@ =~= old(self)@.acknowledged(packet));
                Some(id)
            },
        }
    }

    /// Takes note that the client refused the next message for its size. Returns that message.
    pub fn on_refused(&mut self) -> (r: Option<i64>)
        requires
            old(self).wf(),
        ensures
            final(self).wf(),
            r == old(self)@.gives_up(),
            final(self)@ == old(self)@.refused(),
    {
        if self.queue.len() == 0 {
            return None;
        }
        let id: i64 = self.queue.remove(0);
        assert(self@.queue =~= old(self)@.queue.skip(1));
        assert(self@ =~= old(self)@.refused());
        Some(id)
    }

    /// Whether no message is on its way.
    pub fn is_idle(&self) -> (r: bool)
        requires
            self.wf(),
        ensures
            r == (self@.count() == 0),
            r == (forall|id: i64| !self@.tracks(id)),
    {
        proof {
            lemma_pairs_map(self.awaiting@);
            if self.queue@.len() > 0 {
                assert(self@.queue.contains(self.queue@[0]));
                assert(self@.tracks(self.queue@[0]));
            } else if self.awaiting@.len() > 0 {
                let p = self.awaiting@[0];
                assert(self@.awaiting.dom().contains(p.0));
                assert(self@.tracks(p.1));
            } else if self.blocked is Some {
                let held = self.blocked->0;
                assert(self@.tracks(held.1));
            }
        }
        self.queue.len() == 0 && self.awaiting.len() == 0 && self.blocked.is_none()
    }
}

// ---------------------------------------------------------------------------
// Laws
// ---------------------------------------------------------------------------

/// A message that goes out under a free packet id awaits one acknowledgement more.
proof fn lemma_packet_taken(awaiting: Map<u16, i64>, packet: u16, id: i64, x: i64)
    requires
        awaiting.dom().finite(),
        !awaiting.dom().contains(packet),
    ensures
        packets_of(awaiting.insert(packet, id), x).len() == packets_of(awaiting, x).len() + if x
            == id {
            1nat
        } else {
            0nat
        },
{
    let more = awaiting.insert(packet, id);
    if x == id {
        assert(packets_of(more, x) =~= packets_of(awaiting, x).insert(packet));
    } else {
        assert(packets_of(more, x) =~= packets_of(awaiting, x));
    }
}

/// A packet id that becomes free leaves its message with one acknowledgement less to await.
proof fn lemma_packet_freed(awaiting: Map<u16, i64>, packet: u16, x: i64)
    requires
        awaiting.dom().finite(),
        awaiting.dom().contains(packet),
    ensures
        packets_of(awaiting, x).len() == packets_of(awaiting.remove(packet), x).len() + if x
            == awaiting[packet] {
            1nat
        } else {
            0nat
        },
{
    assert(awaiting.remove(packet).insert(packet, awaiting[packet]) =~= awaiting);
    lemma_packet_taken(awaiting.remove(packet), packet, awaiting[packet], x);
}

/// Taking a message out of the queue takes out one copy of it and of no other.
proof fn lemma_taken_out(queue: Seq<i64>, i: int, x: i64)
    requires
        0 <= i < queue.len(),
    ensures
        queue.to_multiset().count(x) == queue.remove(i).to_multiset().count(x) + if x == queue[i] {
            1nat
        } else {
            0nat
        },
{
    broadcast use vstd::seq_lib::group_to_multiset_ensures;

    assert(queue.contains(queue[i]));
    assert(queue.to_multiset().count(queue[i]) > 0);
    assert(queue.remove(i).to_multiset() == queue.to_multiset().remove(queue[i]));
}

/// The first message leaves the queue when it is skipped.
proof fn lemma_head_taken(queue: Seq<i64>, x: i64)
    requires
        queue.len() > 0,
    ensures
        queue.to_multiset().count(x) == queue.skip(1).to_multiset().count(x) + if x == queue[0] {
            1nat
        } else {
            0nat
        },
{
    assert(queue.remove(0) =~= queue.skip(1));
    lemma_taken_out(queue, 0, x);
}

/// A message is on its way exactly when there is a copy of it.
pub proof fn law_tracking(d: Deliveries, id: i64)
    requires
        d.valid(),
    ensures
        d.tracks(id) <==> d.copies(id) > 0,
{
    broadcast use vstd::seq_lib::group_to_multiset_ensures;

    let packets = packets_of(d.awaiting, id);
    if d.awaits(id) {
        let k = choose|k: u16| #[trigger] d.awaiting.dom().contains(k) && d.awaiting[k] == id;
        assert(packets.contains(k));
        if packets.len() == 0 {
            vstd::set_lib::lemma_set_empty_equivalency_len(packets);
        }
    }
    if packets.len() > 0 {
        let k = packets.choose();
        if !packets.contains(k) {
            assert(packets =~= Set::empty());
        }
        assert(d.awaiting.dom().contains(k) && d.awaiting[k] == id);
    }
    assert(d.queue.contains(id) <==> d.queue.to_multiset().count(id) > 0);
}

/// A message that is accepted is on its way, besides those that were before.
pub proof fn lemma_accepted_tracks(d: Deliveries, id: i64, x: i64)
    ensures
        d.accepted(id).tracks(x) <==> d.tracks(x) || x == id,
{
    let e = d.accepted(id);
    if d.queue.contains(x) {
        assert(e.queue[d.queue.index_of(x)] == x);
    }
    if x == id {
        assert(e.queue[d.queue.len() as int] == x);
    }
    if e.queue.contains(x) && x != id {
        assert(d.queue[e.queue.index_of(x)] == x);
    }
    if d.awaits(x) {
        let k = choose|k: u16| #[trigger] d.awaiting.dom().contains(k) && d.awaiting[k] == x;
        assert(e.awaiting.dom().contains(k));
    }
    if e.awaits(x) {
        let k = choose|k: u16| #[trigger] e.awaiting.dom().contains(k) && e.awaiting[k] == x;
        assert(d.awaiting.dom().contains(k));
    }
}

/// A message that is accepted is on its way once more, and all others stay as they are.
pub proof fn law_accepting(d: Deliveries, id: i64, x: i64)
    requires
        d.valid(),
    ensures
        d.accepted(id).valid(),
        d.accepted(id).queue.len() == d.queue.len() + 1,
        d.accepted(id).queue.last() == id,
        d.accepted(id).queue.drop_last() == d.queue,
        d.accepted(id).awaiting == d.awaiting,
        d.accepted(id).blocked == d.blocked,
        d.accepted(id).copies(x) == d.copies(x) + if x == id {
            1nat
        } else {
            0nat
        },
{
    broadcast use vstd::seq_lib::group_to_multiset_ensures;

    assert(d.queue.push(id).to_multiset() == d.queue.to_multiset().insert(id));
    assert(d.queue.push(id).drop_last() =~= d.queue);
}

/// A message that is withdrawn before it got a packet id is on its way once less, and all others stay
/// as they are.
pub proof fn law_withdrawing(d: Deliveries, id: i64, x: i64)
    requires
        d.valid(),
    ensures
        d.withdrawn(id).valid(),
        d.queue.contains(id) ==> d.copies(x) == d.withdrawn(id).copies(x) + if x == id {
            1nat
        } else {
            0nat
        },
        !d.queue.contains(id) ==> d.withdrawn(id) == d,
{
    d.queue.index_of_last_ensures(id);
    if let Some(i) = d.queue.index_of_last(id) {
        lemma_taken_out(d.queue, i, x);
    }
}

/// Handing a message over and withdrawing it leaves everything as it was.
pub proof fn law_withdrawing_undoes_accepting(d: Deliveries, id: i64)
    ensures
        d.accepted(id).withdrawn(id) == d,
{
    let more = d.queue.push(id);
    more.index_of_last_ensures(id);
    assert(more[d.queue.len() as int] == id);
    assert(more.contains(id));
    assert(more.index_of_last(id) == Some(d.queue.len() as int));
    assert(more.remove(d.queue.len() as int) =~= d.queue);
}

/// A message that goes out stays on its way, and so do all others: it leaves the head of the queue
/// and awaits its acknowledgement.
pub proof fn law_sending(d: Deliveries, packet: u16, x: i64)
    requires
        d.valid(),
    ensures
        d.sent(packet).valid(),
        d.sent(packet).copies(x) == d.copies(x),
        d.awaiting.dom().contains(packet) ==> d.sent(packet) == d,
        d.queue.len() > 0 && !d.awaiting.dom().contains(packet) ==> d.sent(packet).queue
            == d.queue.skip(1),
        d.queue.len() > 0 && !d.awaiting.dom().contains(packet) ==> d.sent(packet).confirms(packet)
            == Some(d.queue[0]),
{
    if !d.awaiting.dom().contains(packet) && d.queue.len() > 0 {
        lemma_head_taken(d.queue, x);
        lemma_packet_taken(d.awaiting, packet, d.queue[0], x);
    }
}

/// A message that is held back stays on its way, and so do all others.
pub proof fn law_holding_back(d: Deliveries, packet: u16, x: i64)
    requires
        d.valid(),
    ensures
        d.held_back(packet).valid(),
        d.held_back(packet).copies(x) == d.copies(x),
        d.blocked is None && d.queue.len() > 0 ==> d.held_back(packet).blocked == Some(
            (packet, d.queue[0]),
        ) && d.held_back(packet).queue == d.queue.skip(1),
        d.blocked is Some ==> d.held_back(packet) == d,
{
    if d.blocked is None && d.queue.len() > 0 {
        lemma_head_taken(d.queue, x);
    }
}

/// An acknowledgement ends exactly the message that was sent under its packet id: that one is on its
/// way once less, and all others stay as they are. Without such a message nothing changes.
pub proof fn law_acknowledging(d: Deliveries, packet: u16, x: i64)
    requires
        d.valid(),
    ensures
        d.acknowledged(packet).valid(),
        d.acknowledged(packet).queue == d.queue,
        forall|k: u16|
            k != packet ==> (d.acknowledged(packet).awaiting.dom().contains(k)
                <==> #[trigger] d.awaiting.dom().contains(k)) && d.acknowledged(packet).confirms(k)
                == d.confirms(k),
        d.confirms(packet) is Some <==> d.awaiting.dom().contains(packet),
        match d.confirms(packet) {
            Some(id) => d.awaits(id) && d.copies(x) == d.acknowledged(packet).copies(x) + if x
                == id {
                1nat
            } else {
                0nat
            },
            None => d.acknowledged(packet) == d,
        },
{
    if d.awaiting.dom().contains(packet) {
        lemma_packet_freed(d.awaiting, packet, x);
        if let Some(b) = d.blocked {
            if b.0 == packet {
                lemma_packet_taken(d.awaiting.remove(packet), packet, b.1, x);
                assert(d.awaiting.remove(packet).insert(packet, b.1) =~= d.awaiting.insert(
                    packet,
                    b.1,
                ));
            }
        }
    }
}

/// A message that the client refuses is on its way once less, and all others stay as they are.
pub proof fn law_refusing(d: Deliveries, x: i64)
    requires
        d.valid(),
    ensures
        d.refused().valid(),
        d.gives_up() is None <==> d.queue.len() == 0,
        d.gives_up() matches Some(id) ==> id == d.queue[0] && d.refused().queue == d.queue.skip(1)
            && d.refused().awaiting == d.awaiting && d.refused().blocked == d.blocked,
        match d.gives_up() {
            Some(id) => d.copies(x) == d.refused().copies(x) + if x == id {
                1nat
            } else {
                0nat
            },
            None => d.refused() == d,
        },
{
    if d.queue.len() > 0 {
        lemma_head_taken(d.queue, x);
    }
}

/// Messages get their acknowledgements in the order in which they were handed over: of a queue
/// the first message is confirmed by the packet id that goes out first, and a packet id that was
/// acknowledged does not confirm anything a second time.
pub proof fn law_first_in_first_confirmed(d: Deliveries, packet: u16)
    requires
        d.valid(),
        d.queue.len() > 0,
        d.blocked is None,
        !d.awaiting.dom().contains(packet),
    ensures
        d.sent(packet).confirms(packet) == Some(d.queue[0]),
        d.sent(packet).acknowledged(packet).confirms(packet) is None,
        d.sent(packet).acknowledged(packet) == (Deliveries { queue: d.queue.skip(1), ..d }),
{
    assert(d.awaiting.insert(packet, d.queue[0]).remove(packet) =~= d.awaiting);
}

/// A message that is held back for a packet id is confirmed by the second acknowledgement of that
/// packet id: the first is for the message that was sent under it before.
pub proof fn law_held_back_is_confirmed_next(d: Deliveries, packet: u16)
    requires
        d.valid(),
        d.queue.len() > 0,
        d.blocked is None,
        d.awaiting.dom().contains(packet),
    ensures
        d.held_back(packet).sent(packet) == d.held_back(packet),
        d.held_back(packet).confirms(packet) == d.confirms(packet),
        d.held_back(packet).acknowledged(packet).confirms(packet) == Some(d.queue[0]),
{
}

}
