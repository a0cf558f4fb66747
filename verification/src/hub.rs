//! The topic registry and connection hub: topics are created lazily per
//! session, fan events out to every subscriber through a bounded buffer that
//! drops its oldest events rather than block a publisher, and are reclaimed
//! opportunistically once nobody subscribes to them.

use vstd::prelude::*;

use std::collections::HashMap;

use crate::messages::ServerMessage;
use crate::uid::Uid;

verus! {

broadcast use vstd::std_specs::hash::group_hash_axioms;

/// Bound on each topic's event buffer: a subscriber that falls further
/// behind than this skips its oldest events.
pub const CHANNEL_CAPACITY: usize = 256;

/// The mathematical state of one topic: the retained window of events, and
/// each subscriber's cursor into that window.
#[verifier::ext_equal]
pub ghost struct TopicView {
    pub events: Seq<ServerMessage>,
    pub cursors: Map<u128, nat>,
}

impl TopicView {
    /// Well-formedness: the window is bounded and every cursor lies inside
    /// it (a cursor at the end has nothing pending).
    pub open spec fn wf(self) -> bool {
        &&& self.events.len() <= CHANNEL_CAPACITY
        &&& forall|c: u128|
            self.cursors.contains_key(c) ==> (#[trigger] self.cursors[c]) <= self.events.len()
        &&& self.cursors.dom().finite()
    }

    /// The events a subscriber has not yet received, oldest first.
    pub open spec fn pending(self, c: u128) -> Seq<ServerMessage> {
        self.events.skip(self.cursors[c] as int)
    }
}

/// A topic with no events and no subscribers, as created on first use.
pub open spec fn empty_topic() -> TopicView {
    TopicView { events: Seq::empty(), cursors: Map::empty() }
}

/// A new subscriber starts at the end of the window: only events published
/// after the subscription are received. Subscribing twice changes nothing.
pub open spec fn topic_subscribe(t: TopicView, c: u128) -> TopicView {
    if t.cursors.contains_key(c) {
        t
    } else {
        TopicView { events: t.events, cursors: t.cursors.insert(c, t.events.len()) }
    }
}

/// A cursor moved one event back, stopping at the start of the window.
pub open spec fn dec1(k: nat) -> nat {
    if k > 0 {
        (k - 1) as nat
    } else {
        0
    }
}

/// Publishing appends to the window; a full window first drops its oldest
/// event, and every cursor moves back with it, so that only a subscriber
/// already at the start of the window (one lagging by the whole buffer)
/// loses that event.
pub open spec fn topic_publish(t: TopicView, m: ServerMessage) -> TopicView {
    if t.events.len() < CHANNEL_CAPACITY {
        TopicView { events: t.events.push(m), cursors: t.cursors }
    } else {
        TopicView {
            events: t.events.drop_first().push(m),
            cursors: t.cursors.map_values(|k: nat| dec1(k)),
        }
    }
}

/// A subscriber's handle closed: its cursor leaves the topic.
pub open spec fn strip_topic(t: TopicView, c: u128) -> TopicView {
    TopicView { events: t.events, cursors: t.cursors.remove(c) }
}

/// One receive step: the next pending event for the subscriber, if any,
/// and its cursor moved past it.
pub open spec fn topic_recv(t: TopicView, c: u128) -> (TopicView, Option<ServerMessage>) {
    if t.cursors.contains_key(c) && t.cursors[c] < t.events.len() {
        (
            TopicView {
                events: t.events,
                cursors: t.cursors.insert(c, (t.cursors[c] + 1) as nat),
            },
            Some(t.events[t.cursors[c] as int]),
        )
    } else {
        (t, None)
    }
}

/// One subscriber's state inside a topic.
#[derive(Clone, Copy)]
struct Sub {
    conn_id: Uid,
    cursor: usize,
}

/// Whether some subscriber entry carries this connection id.
spec fn subs_contains(s: Seq<Sub>, c: u128) -> bool {
    exists|i: int| 0 <= i < s.len() && s[i].conn_id.value == c
}

/// The index of the subscriber entry that carries this connection id.
spec fn subs_index(s: Seq<Sub>, c: u128) -> int {
    choose|i: int| 0 <= i < s.len() && s[i].conn_id.value == c
}

/// No two subscriber entries carry the same connection id.
spec fn subs_unique(s: Seq<Sub>) -> bool {
    forall|i: int, j: int|
        0 <= i < j < s.len() ==> s[i].conn_id.value != s[j].conn_id.value
}

/// The cursor map that a subscriber list denotes.
spec fn cursors_of(s: Seq<Sub>) -> Map<u128, nat> {
    Map::new(|c: u128| subs_contains(s, c), |c: u128| s[subs_index(s, c)].cursor as nat)
}

proof fn lemma_subs_at(s: Seq<Sub>, i: int)
    requires
        subs_unique(s),
        0 <= i < s.len(),
    ensures
        subs_contains(s, s[i].conn_id.value),
        subs_index(s, s[i].conn_id.value) == i,
        cursors_of(s)[s[i].conn_id.value] == s[i].cursor as nat,
{
    let c = s[i].conn_id.value;
    assert(subs_contains(s, c));
    let j = subs_index(s, c);
    assert(0 <= j < s.len() && s[j].conn_id.value == c);
    if i < j {
        assert(false);
    } else if j < i {
        assert(false);
    }
}

proof fn lemma_cursors_push(s: Seq<Sub>, x: Sub)
    requires
        subs_unique(s),
        !subs_contains(s, x.conn_id.value),
    ensures
        subs_unique(s.push(x)),
        cursors_of(s.push(x)) =~= cursors_of(s).insert(x.conn_id.value, x.cursor as nat),
{
    let s2 = s.push(x);
    assert forall|i: int, j: int|
        0 <= i < j < s2.len() implies s2[i].conn_id.value != s2[j].conn_id.value by {
        if j < s.len() {
        } else {
            assert(s2[i] == s[i]);
            if s[i].conn_id.value == x.conn_id.value {
                assert(subs_contains(s, x.conn_id.value));
            }
        }
    }
    assert forall|c: u128| #[trigger] subs_contains(s2, c) implies subs_contains(s, c) || c
        == x.conn_id.value by {
        let i = choose|i: int| 0 <= i < s2.len() && s2[i].conn_id.value == c;
        if i < s.len() {
            assert(s[i].conn_id.value == c);
        }
    }
    assert forall|c: u128| subs_contains(s, c) implies subs_contains(s2, c) by {
        let i = choose|i: int| 0 <= i < s.len() && s[i].conn_id.value == c;
        assert(s2[i].conn_id.value == c);
    }
    assert(s2[s.len() as int] == x);
    lemma_subs_at(s2, s.len() as int);
    assert forall|c: u128| subs_contains(s, c) implies #[trigger] cursors_of(s2)[c]
        == cursors_of(s)[c] by {
        let i = choose|i: int| 0 <= i < s.len() && s[i].conn_id.value == c;
        lemma_subs_at(s, i);
        assert(s2[i].conn_id.value == c);
        lemma_subs_at(s2, i);
    }
}

proof fn lemma_cursors_update(s: Seq<Sub>, i: int, x: Sub)
    requires
        subs_unique(s),
        0 <= i < s.len(),
        x.conn_id.value == s[i].conn_id.value,
    ensures
        subs_unique(s.update(i, x)),
        cursors_of(s.update(i, x)) =~= cursors_of(s).insert(x.conn_id.value, x.cursor as nat),
{
    let s2 = s.update(i, x);
    assert forall|a: int, b: int|
        0 <= a < b < s2.len() implies s2[a].conn_id.value != s2[b].conn_id.value by {
        assert(s[a].conn_id.value != s[b].conn_id.value);
    }
    assert forall|c: u128| #[trigger] subs_contains(s2, c) implies subs_contains(s, c) by {
        let k = choose|k: int| 0 <= k < s2.len() && s2[k].conn_id.value == c;
        assert(s[k].conn_id.value == c);
    }
    assert forall|c: u128| #[trigger] subs_contains(s, c) implies subs_contains(s2, c) by {
        let k = choose|k: int| 0 <= k < s.len() && s[k].conn_id.value == c;
        assert(s2[k].conn_id.value == c);
    }
    lemma_subs_at(s2, i);
    assert forall|c: u128| subs_contains(s, c) && c != x.conn_id.value implies #[trigger] cursors_of(
        s2,
    )[c] == cursors_of(s)[c] by {
        let k = choose|k: int| 0 <= k < s.len() && s[k].conn_id.value == c;
        lemma_subs_at(s, k);
        assert(k != i);
        assert(s2[k].conn_id.value == c);
        lemma_subs_at(s2, k);
    }
}

proof fn lemma_cursors_remove(s: Seq<Sub>, i: int)
    requires
        subs_unique(s),
        0 <= i < s.len(),
    ensures
        subs_unique(s.remove(i)),
        cursors_of(s.remove(i)) =~= cursors_of(s).remove(s[i].conn_id.value),
{
    let s2 = s.remove(i);
    assert forall|a: int, b: int|
        0 <= a < b < s2.len() implies s2[a].conn_id.value != s2[b].conn_id.value by {
        let a0 = if a < i {
            a
        } else {
            a + 1
        };
        let b0 = if b < i {
            b
        } else {
            b + 1
        };
        assert(s2[a] == s[a0]);
        assert(s2[b] == s[b0]);
        assert(s[a0].conn_id.value != s[b0].conn_id.value);
    }
    assert forall|c: u128| #[trigger] subs_contains(s2, c) implies subs_contains(s, c) && c
        != s[i].conn_id.value by {
        let k = choose|k: int| 0 <= k < s2.len() && s2[k].conn_id.value == c;
        let k0 = if k < i {
            k
        } else {
            k + 1
        };
        assert(s2[k] == s[k0]);
        assert(s[k0].conn_id.value == c);
        if c == s[i].conn_id.value {
            assert(k0 != i);
            if k0 < i {
                assert(s[k0].conn_id.value != s[i].conn_id.value);
            } else {
                assert(s[i].conn_id.value != s[k0].conn_id.value);
            }
        }
    }
    assert forall|c: u128| subs_contains(s, c) && c != s[i].conn_id.value implies #[trigger]
    subs_contains(s2, c) by {
        let k = choose|k: int| 0 <= k < s.len() && s[k].conn_id.value == c;
        assert(k != i);
        if k < i {
            assert(s2[k] == s[k]);
        } else {
            assert(s2[k - 1] == s[k]);
        }
    }
    assert forall|c: u128| subs_contains(s2, c) implies #[trigger] cursors_of(s2)[c]
        == cursors_of(s)[c] by {
        let k = choose|k: int| 0 <= k < s2.len() && s2[k].conn_id.value == c;
        let k0 = if k < i {
            k
        } else {
            k + 1
        };
        assert(s2[k] == s[k0]);
        lemma_subs_at(s2, k);
        lemma_subs_at(s, k0);
    }
}

proof fn lemma_cursors_dom(s: Seq<Sub>)
    requires
        subs_unique(s),
    ensures
        cursors_of(s).dom().finite(),
        cursors_of(s).dom().len() == s.len(),
    decreases s.len(),
{
    if s.len() == 0 {
        assert(cursors_of(s).dom() =~= Set::<u128>::empty());
    } else {
        let s0 = s.drop_last();
        let x = s.last();
        assert(subs_unique(s0)) by {
            assert forall|i: int, j: int|
                0 <= i < j < s0.len() implies s0[i].conn_id.value != s0[j].conn_id.value by {
                assert(s[i].conn_id.value != s[j].conn_id.value);
            }
        }
        lemma_cursors_dom(s0);
        assert(!subs_contains(s0, x.conn_id.value)) by {
            if subs_contains(s0, x.conn_id.value) {
                let i = choose|i: int|
                    0 <= i < s0.len() && s0[i].conn_id.value == x.conn_id.value;
                assert(s[i].conn_id.value == s[s.len() - 1].conn_id.value);
                assert(false);
            }
        }
        assert(cursors_of(s).dom() =~= cursors_of(s0).dom().insert(x.conn_id.value)) by {
            assert forall|c: u128| #[trigger] subs_contains(s, c) implies subs_contains(s0, c) || c
                == x.conn_id.value by {
                let i = choose|i: int| 0 <= i < s.len() && s[i].conn_id.value == c;
                if i < s.len() - 1 {
                    assert(s0[i].conn_id.value == c);
                }
            }
            assert forall|c: u128| subs_contains(s0, c) implies #[trigger] subs_contains(s, c) by {
                let i = choose|i: int| 0 <= i < s0.len() && s0[i].conn_id.value == c;
                assert(s[i].conn_id.value == c);
            }
            assert(s[s.len() - 1] == x);
            assert(subs_contains(s, x.conn_id.value));
        }
        assert(cursors_of(s0).dom().insert(x.conn_id.value).len() == s0.len() + 1) by {
            vstd::set::axiom_set_insert_len(cursors_of(s0).dom(), x.conn_id.value);
        }
    }
}

/// One topic: the retained events and the subscriber cursors.
struct Topic {
    buffer: Vec<ServerMessage>,
    subs: Vec<Sub>,
}

impl View for Topic {
    type V = TopicView;

    closed spec fn view(&self) -> TopicView {
        TopicView { events: self.buffer@, cursors: cursors_of(self.subs@) }
    }
}

impl Topic {
    spec fn inv(self) -> bool {
        &&& self.buffer@.len() <= CHANNEL_CAPACITY
        &&& subs_unique(self.subs@)
        &&& forall|i: int|
            0 <= i < self.subs@.len() ==> (#[trigger] self.subs@[i]).cursor <= self.buffer@.len()
    }

    proof fn lemma_inv_wf(self)
        requires
            self.inv(),
        ensures
            self@.wf(),
    {
        assert forall|c: u128| self@.cursors.contains_key(c) implies (#[trigger] self@.cursors[c])
            <= self@.events.len() by {
            let i = subs_index(self.subs@, c);
            assert(self.subs@[i].cursor <= self.buffer@.len());
        }
        lemma_cursors_dom(self.subs@);
    }

    fn new() -> (t: Topic)
        ensures
            t.inv(),
            t@ == empty_topic(),
    {
        let t = Topic { buffer: Vec::new(), subs: Vec::new() };
        proof {
            assert(cursors_of(t.subs@) =~= Map::<u128, nat>::empty());
            assert(t@ =~= empty_topic());
        }
        t
    }

    /// The index of this connection's subscriber entry, if it has one.
    fn find_sub(&self, c: &Uid) -> (r: Option<usize>)
        requires
            self.inv(),
        ensures
            match r {
                Some(i) => i < self.subs@.len() && self.subs@[i as int].conn_id.value == c.value
                    && self@.cursors.contains_key(c.value),
                None => !self@.cursors.contains_key(c.value),
            },
    {
        let mut i: usize = 0;
        while i < self.subs.len()
            invariant
                i <= self.subs@.len(),
                forall|k: int| 0 <= k < i ==> (#[trigger] self.subs@[k]).conn_id.value != c.value,
            decreases self.subs@.len() - i,
        {
            if self.subs[i].conn_id.value == c.value {
                return Some(i);
            }
            i = i + 1;
        }
        proof {
            if subs_contains(self.subs@, c.value) {
                let k = choose|k: int|
                    0 <= k < self.subs@.len() && self.subs@[k].conn_id.value == c.value;
                assert(false);
            }
        }
        None
    }

    fn subscribe(&mut self, c: Uid)
        requires
            old(self).inv(),
        ensures
            final(self).inv(),
            final(self)@ == topic_subscribe(old(self)@, c.value),
    {
        match self.find_sub(&c) {
            Some(_) => {
            },
            None => {
                let cur = self.buffer.len();
                proof {
                    lemma_cursors_push(self.subs@, Sub { conn_id: c, cursor: cur });
                }
                self.subs.push(Sub { conn_id: c, cursor: cur });
                proof {
                    assert(self@ =~= topic_subscribe(old(self)@, c.value));
                }
            },
        }
    }

    fn publish(&mut self, m: ServerMessage)
        requires
            old(self).inv(),
        ensures
            final(self).inv(),
            final(self)@ == topic_publish(old(self)@, m),
    {
        if self.buffer.len() == CHANNEL_CAPACITY {
            self.buffer.remove(0);
            proof {
                assert(self.buffer@ =~= old(self).buffer@.drop_first());
            }
            let ghost mid = self.subs@;
            let mut i: usize = 0;
            while i < self.subs.len()
                invariant
                    i <= self.subs@.len(),
                    self.subs@.len() == mid.len(),
                    subs_unique(mid),
                    old(self).inv(),
                    mid == old(self).subs@,
                    old(self).buffer@.len() == CHANNEL_CAPACITY,
                    self.buffer@ == old(self).buffer@.drop_first(),
                    forall|k: int|
                        0 <= k < i ==> (#[trigger] self.subs@[k]) == (Sub {
                            conn_id: mid[k].conn_id,
                            cursor: dec1(mid[k].cursor as nat) as usize,
                        }),
                    forall|k: int| i <= k < mid.len() ==> (#[trigger] self.subs@[k]) == mid[k],
                decreases self.subs@.len() - i,
            {
                let cur = self.subs[i].cursor;
                if cur > 0 {
                    self.subs[i].cursor = cur - 1;
                }
                i = i + 1;
            }
            self.buffer.push(m);
            proof {
                assert(subs_unique(self.subs@)) by {
                    assert forall|a: int, b: int|
                        0 <= a < b < self.subs@.len() implies self.subs@[a].conn_id.value
                        != self.subs@[b].conn_id.value by {
                        assert(mid[a].conn_id.value != mid[b].conn_id.value);
                    }
                }
                assert(cursors_of(self.subs@) =~= cursors_of(mid).map_values(
                    |k: nat| dec1(k),
                )) by {
                    assert forall|c: u128| #[trigger] subs_contains(self.subs@, c) implies
                    subs_contains(mid, c) by {
                        let k = choose|k: int|
                            0 <= k < self.subs@.len() && self.subs@[k].conn_id.value == c;
                        assert(mid[k].conn_id.value == c);
                    }
                    assert forall|c: u128| #[trigger] subs_contains(mid, c) implies subs_contains(
                        self.subs@,
                        c,
                    ) by {
                        let k = choose|k: int| 0 <= k < mid.len() && mid[k].conn_id.value == c;
                        assert(self.subs@[k].conn_id.value == c);
                    }
                    assert forall|c: u128| subs_contains(mid, c) implies #[trigger] cursors_of(
                        self.subs@,
                    )[c] == dec1(cursors_of(mid)[c]) by {
                        let k = choose|k: int| 0 <= k < mid.len() && mid[k].conn_id.value == c;
                        lemma_subs_at(mid, k);
                        assert(self.subs@[k].conn_id.value == c);
                        lemma_subs_at(self.subs@, k);
                    }
                }
                assert(cursors_of(mid) == old(self)@.cursors);
                let ghost tp = topic_publish(old(self)@, m);
                assert(self@.events =~= tp.events);
                assert(self@.cursors =~= tp.cursors);
                assert(self@ =~= tp);
            }
        } else {
            self.buffer.push(m);
            proof {
                assert(self@ =~= topic_publish(old(self)@, m));
            }
        }
    }

    /// Closes this connection's handle: its cursor leaves the topic.
    fn remove_sub(&mut self, c: Uid)
        requires
            old(self).inv(),
        ensures
            final(self).inv(),
            final(self)@ == strip_topic(old(self)@, c.value),
    {
        match self.find_sub(&c) {
            Some(i) => {
                proof {
                    lemma_cursors_remove(self.subs@, i as int);
                }
                self.subs.remove(i);
                proof {
                    assert(self@ =~= strip_topic(old(self)@, c.value));
                }
            },
            None => {
                proof {
                    assert(self@.cursors.remove(c.value) =~= self@.cursors);
                    assert(self@ =~= strip_topic(old(self)@, c.value));
                }
            },
        }
    }

    /// The next pending event for this subscriber, if any.
    fn recv_next(&mut self, c: Uid) -> (r: Option<ServerMessage>)
        requires
            old(self).inv(),
        ensures
            final(self).inv(),
            final(self)@ == topic_recv(old(self)@, c.value).0,
            r == topic_recv(old(self)@, c.value).1,
    {
        match self.find_sub(&c) {
            Some(i) => {
                let cur = self.subs[i].cursor;
                proof {
                    lemma_subs_at(self.subs@, i as int);
                }
                if cur < self.buffer.len() {
                    let m = self.buffer[cur].duplicate();
                    proof {
                        lemma_cursors_update(
                            self.subs@,
                            i as int,
                            Sub { conn_id: self.subs@[i as int].conn_id, cursor: (cur + 1) as usize },
                        );
                    }
                    self.subs[i].cursor = cur + 1;
                    proof {
                        assert(self@ =~= topic_recv(old(self)@, c.value).0);
                    }
                    Some(m)
                } else {
                    None
                }
            },
            None => None,
        }
    }

    /// How many subscribers the topic has.
    fn sub_count(&self) -> (n: usize)
        requires
            self.inv(),
        ensures
            n == self@.cursors.dom().len(),
    {
        proof {
            lemma_cursors_dom(self.subs@);
        }
        self.subs.len()
    }
}


// ---------------------------------------------------------------------------
// Connection records and the hub.
// ---------------------------------------------------------------------------
/// The mathematical state of one connection record: the sessions it is
/// subscribed to, and the sessions it still holds a live handle to. An
/// unsubscribe leaves the handle open (already-buffered events may still be
/// delivered); only unregistering closes every handle.
#[verifier::ext_equal]
pub ghost struct ConnView {
    pub subs: Set<u128>,
    pub handles: Set<u128>,
}

/// The mathematical state of the whole hub.
#[verifier::ext_equal]
pub ghost struct HubView {
    pub topics: Map<u128, TopicView>,
    pub conns: Map<u128, ConnView>,
}

impl HubView {
    /// Well-formedness: every topic is well formed.
    pub open spec fn wf(self) -> bool {
        forall|s: u128| self.topics.contains_key(s) ==> (#[trigger] self.topics[s]).wf()
    }
}

/// The hub with no topics and no connections.
pub open spec fn empty_hub() -> HubView {
    HubView { topics: Map::empty(), conns: Map::empty() }
}

/// A freshly registered connection.
pub open spec fn empty_conn() -> ConnView {
    ConnView { subs: Set::empty(), handles: Set::empty() }
}

/// Registering creates an empty record, overwriting any existing one.
pub open spec fn spec_register(h: HubView, c: u128) -> HubView {
    HubView { topics: h.topics, conns: h.conns.insert(c, empty_conn()) }
}

/// Subscribing records the session on the connection (when it is
/// registered), creates the topic on first use, and adds the connection as
/// a subscriber at the end of the window; a second subscribe by the same
/// connection changes nothing.
pub open spec fn spec_subscribe(h: HubView, c: u128, s: u128) -> HubView {
    let t0 = if h.topics.contains_key(s) {
        h.topics[s]
    } else {
        empty_topic()
    };
    let conns = if h.conns.contains_key(c) {
        h.conns.insert(
            c,
            ConnView { subs: h.conns[c].subs.insert(s), handles: h.conns[c].handles.insert(s) },
        )
    } else {
        h.conns
    };
    HubView { topics: h.topics.insert(s, topic_subscribe(t0, c)), conns }
}

/// Unsubscribing only takes the session out of the connection's set; the
/// handle, and with it the subscriber cursor, stays open.
pub open spec fn spec_unsubscribe(h: HubView, c: u128, s: u128) -> HubView {
    if h.conns.contains_key(c) {
        HubView {
            topics: h.topics,
            conns: h.conns.insert(
                c,
                ConnView { subs: h.conns[c].subs.remove(s), handles: h.conns[c].handles },
            ),
        }
    } else {
        h
    }
}

/// Publishing delivers to the session's topic, creating it on first use;
/// it never fails, also with no subscriber present.
pub open spec fn spec_publish(h: HubView, s: u128, m: ServerMessage) -> HubView {
    let t0 = if h.topics.contains_key(s) {
        h.topics[s]
    } else {
        empty_topic()
    };
    HubView { topics: h.topics.insert(s, topic_publish(t0, m)), conns: h.conns }
}

/// Broadcasting delivers only to an existing topic and creates none.
pub open spec fn spec_broadcast(h: HubView, s: u128, m: ServerMessage) -> HubView {
    if h.topics.contains_key(s) {
        HubView { topics: h.topics.insert(s, topic_publish(h.topics[s], m)), conns: h.conns }
    } else {
        h
    }
}

/// The registry entry for a session, created if it is not there yet.
pub open spec fn spec_get_or_create_topic(h: HubView, s: u128) -> HubView {
    if h.topics.contains_key(s) {
        h
    } else {
        HubView { topics: h.topics.insert(s, empty_topic()), conns: h.conns }
    }
}

/// How many subscribers a session's topic has; zero without a topic.
pub open spec fn spec_subscriber_count(h: HubView, s: u128) -> nat {
    if h.topics.contains_key(s) {
        h.topics[s].cursors.dom().len()
    } else {
        0
    }
}

/// Whether a session currently has any subscriber.
pub open spec fn spec_has_subscribers(h: HubView, s: u128) -> bool {
    spec_subscriber_count(h, s) > 0
}

/// A topic with no subscribers leaves the registry; any other stays.
pub open spec fn spec_remove_if_orphaned(h: HubView, s: u128) -> HubView {
    if h.topics.contains_key(s) && h.topics[s].cursors.dom().len() == 0 {
        HubView { topics: h.topics.remove(s), conns: h.conns }
    } else {
        h
    }
}

/// Unregistering removes the record, closes every handle the connection
/// held, and then reclaims each session of its subscription set that was
/// left without subscribers.
pub open spec fn spec_unregister(h: HubView, c: u128) -> HubView {
    if !h.conns.contains_key(c) {
        h
    } else {
        let r = h.conns[c];
        let stripped = Map::<u128, TopicView>::new(
            |x: u128| h.topics.contains_key(x),
            |x: u128|
                if r.handles.contains(x) {
                    strip_topic(h.topics[x], c)
                } else {
                    h.topics[x]
                },
        );
        let topics = Map::<u128, TopicView>::new(
            |x: u128|
                stripped.contains_key(x) && !(r.subs.contains(x) && stripped[x].cursors.dom().len()
                    == 0),
            |x: u128| stripped[x],
        );
        HubView { topics, conns: h.conns.remove(c) }
    }
}

/// One receive step on a session's topic for one connection: the next
/// pending event, if any.
pub open spec fn spec_recv(h: HubView, c: u128, s: u128) -> (HubView, Option<ServerMessage>) {
    if h.topics.contains_key(s) {
        let step = topic_recv(h.topics[s], c);
        (HubView { topics: h.topics.insert(s, step.0), conns: h.conns }, step.1)
    } else {
        (h, None)
    }
}

/// Whether some entry of a session list carries this session id.
spec fn uid_contains(s: Seq<Uid>, c: u128) -> bool {
    exists|i: int| 0 <= i < s.len() && s[i].value == c
}

/// The set of session ids a list denotes.
spec fn uid_set(s: Seq<Uid>) -> Set<u128> {
    Set::new(|c: u128| uid_contains(s, c))
}

/// Whether one of the first `n` entries of a session list carries this id.
spec fn hit(hs: Seq<Uid>, n: int, x: u128) -> bool {
    exists|k: int| 0 <= k < n && hs[k].value == x
}

/// No session id appears twice in the list.
spec fn uid_unique(s: Seq<Uid>) -> bool {
    forall|i: int, j: int| 0 <= i < j < s.len() ==> s[i].value != s[j].value
}

proof fn lemma_uid_set_push(s: Seq<Uid>, x: Uid)
    ensures
        uid_set(s.push(x)) =~= uid_set(s).insert(x.value),
        uid_unique(s) && !uid_contains(s, x.value) ==> uid_unique(s.push(x)),
{
    let s2 = s.push(x);
    assert forall|c: u128| #[trigger] uid_contains(s2, c) implies uid_contains(s, c) || c
        == x.value by {
        let i = choose|i: int| 0 <= i < s2.len() && s2[i].value == c;
        if i < s.len() {
            assert(s[i].value == c);
        }
    }
    assert forall|c: u128| uid_contains(s, c) implies uid_contains(s2, c) by {
        let i = choose|i: int| 0 <= i < s.len() && s[i].value == c;
        assert(s2[i].value == c);
    }
    assert(s2[s.len() as int].value == x.value);
    if uid_unique(s) && !uid_contains(s, x.value) {
        assert forall|i: int, j: int| 0 <= i < j < s2.len() implies s2[i].value != s2[j].value by {
            if j < s.len() {
            } else {
                assert(s2[i] == s[i]);
                if s[i].value == x.value {
                    assert(uid_contains(s, x.value));
                }
            }
        }
    }
}

/// One connection's record: the subscription set and the open handles.
struct ConnRecord {
    subs: Vec<Uid>,
    handles: Vec<Uid>,
}

impl View for ConnRecord {
    type V = ConnView;

    closed spec fn view(&self) -> ConnView {
        ConnView { subs: uid_set(self.subs@), handles: uid_set(self.handles@) }
    }
}

impl ConnRecord {
    spec fn inv(self) -> bool {
        &&& uid_unique(self.subs@)
        &&& uid_unique(self.handles@)
        &&& forall|i: int|
            0 <= i < self.subs@.len() ==> uid_contains(
                self.handles@,
                (#[trigger] self.subs@[i]).value,
            )
    }
}

/// Whether a session list carries this session id.
fn uid_vec_contains(v: &Vec<Uid>, x: &Uid) -> (r: bool)
    ensures
        r == uid_contains(v@, x.value),
{
    let mut i: usize = 0;
    while i < v.len()
        invariant
            i <= v@.len(),
            forall|k: int| 0 <= k < i ==> (#[trigger] v@[k]).value != x.value,
        decreases v@.len() - i,
    {
        if v[i].value == x.value {
            return true;
        }
        i = i + 1;
    }
    proof {
        if uid_contains(v@, x.value) {
            let k = choose|k: int| 0 <= k < v@.len() && v@[k].value == x.value;
            assert(false);
        }
    }
    false
}

proof fn lemma_map_values_insert<V, W>(m: Map<u128, V>, f: spec_fn(V) -> W, k: u128, v: V)
    ensures
        m.insert(k, v).map_values(f) =~= m.map_values(f).insert(k, f(v)),
{
}

proof fn lemma_map_values_remove<V, W>(m: Map<u128, V>, f: spec_fn(V) -> W, k: u128)
    ensures
        m.remove(k).map_values(f) =~= m.map_values(f).remove(k),
{
}

/// The connection hub: the topic registry and the connection records, safe
/// to share behind one exclusive section.
pub struct ConnectionManager {
    topics: HashMap<u128, Topic>,
    connections: HashMap<u128, ConnRecord>,
}

impl View for ConnectionManager {
    type V = HubView;

    closed spec fn view(&self) -> HubView {
        HubView {
            topics: self.topics@.map_values(|t: Topic| t@),
            conns: self.connections@.map_values(|r: ConnRecord| r@),
        }
    }
}

impl ConnectionManager {
    /// The representation invariant; every public method keeps it.
    pub closed spec fn inv(self) -> bool {
        &&& forall|s: u128|
            self.topics@.contains_key(s) ==> (#[trigger] self.topics@[s]).inv()
        &&& forall|c: u128|
            self.connections@.contains_key(c) ==> (#[trigger] self.connections@[c]).inv()
    }

    /// A hub with no topics and no connections.
    pub fn new() -> (r: Self)
        ensures
            r.inv(),
            r@ == empty_hub(),
    {
        let r = ConnectionManager { topics: HashMap::new(), connections: HashMap::new() };
        proof {
            assert(r@.topics =~= Map::<u128, TopicView>::empty());
            assert(r@.conns =~= Map::<u128, ConnView>::empty());
            assert(r@ =~= empty_hub());
        }
        r
    }

    /// Registers a connection with an empty subscription set; registering
    /// the same id again resets its record.
    pub fn register_connection(&mut self, connection_id: Uid)
        requires
            old(self).inv(),
        ensures
            final(self).inv(),
            final(self)@ == spec_register(old(self)@, connection_id.value),
    {
        let r = ConnRecord { subs: Vec::new(), handles: Vec::new() };
        proof {
            assert(r@.subs =~= Set::<u128>::empty());
            assert(r@.handles =~= Set::<u128>::empty());
            lemma_map_values_insert(
                self.connections@,
                |rec: ConnRecord| rec@,
                connection_id.value,
                r,
            );
        }
        self.connections.insert(connection_id.value, r);
        proof {
            assert(self@.conns =~= spec_register(old(self)@, connection_id.value).conns);
            assert(self@ =~= spec_register(old(self)@, connection_id.value));
        }
    }

    /// Subscribes a connection to a session: the session joins the
    /// connection's record (when it is registered), the topic is created on
    /// first use, and the connection receives every event published to the
    /// session after this call. Subscribing twice changes nothing.
    pub fn subscribe(&mut self, connection_id: Uid, session_id: Uid)
        requires
            old(self).inv(),
        ensures
            final(self).inv(),
            final(self)@ == spec_subscribe(old(self)@, connection_id.value, session_id.value),
    {
        let ghost h0 = self@;
        proof {
            lemma_map_values_remove(self.connections@, |rec: ConnRecord| rec@, connection_id.value);
        }
        match self.connections.remove(&connection_id.value) {
            Some(mut r) => {
                let ghost r0 = r@;
                if !uid_vec_contains(&r.subs, &session_id) {
                    proof {
                        lemma_uid_set_push(r.subs@, session_id);
                    }
                    r.subs.push(session_id);
                }
                if !uid_vec_contains(&r.handles, &session_id) {
                    proof {
                        lemma_uid_set_push(r.handles@, session_id);
                    }
                    r.handles.push(session_id);
                }
                proof {
                    assert(r@.subs =~= r0.subs.insert(session_id.value));
                    assert(r@.handles =~= r0.handles.insert(session_id.value));
                    assert(r.inv()) by {
                        assert forall|i: int| 0 <= i < r.subs@.len() implies uid_contains(
                            r.handles@,
                            (#[trigger] r.subs@[i]).value,
                        ) by {
                            assert(r@.handles.contains(r.subs@[i].value));
                        }
                    }
                    lemma_map_values_insert(
                        self.connections@,
                        |rec: ConnRecord| rec@,
                        connection_id.value,
                        r,
                    );
                }
                self.connections.insert(connection_id.value, r);
                proof {
                    assert(self@.conns =~= spec_subscribe(
                        h0,
                        connection_id.value,
                        session_id.value,
                    ).conns);
                }
            },
            None => {
                proof {
                    assert(self@.conns =~= h0.conns);
                }
            },
        }
        proof {
            lemma_map_values_remove(self.topics@, |t: Topic| t@, session_id.value);
        }
        let mut t = match self.topics.remove(&session_id.value) {
            Some(t) => t,
            None => Topic::new(),
        };
        t.subscribe(connection_id);
        proof {
            lemma_map_values_insert(self.topics@, |t2: Topic| t2@, session_id.value, t);
        }
        self.topics.insert(session_id.value, t);
        proof {
            assert(self@.topics =~= spec_subscribe(
                h0,
                connection_id.value,
                session_id.value,
            ).topics);
            assert(self@ =~= spec_subscribe(h0, connection_id.value, session_id.value));
        }
    }

    /// Unsubscribes a connection from a session: only the record changes;
    /// the handle stays open, so already-buffered events may still be
    /// delivered until the connection unregisters.
    pub fn unsubscribe(&mut self, connection_id: Uid, session_id: Uid)
        requires
            old(self).inv(),
        ensures
            final(self).inv(),
            final(self)@ == spec_unsubscribe(old(self)@, connection_id.value, session_id.value),
    {
        let ghost h0 = self@;
        proof {
            lemma_map_values_remove(self.connections@, |rec: ConnRecord| rec@, connection_id.value);
        }
        match self.connections.remove(&connection_id.value) {
            Some(mut r) => {
                let ghost r0 = r@;
                let mut i: usize = 0;
                let mut found: bool = false;
                while i < r.subs.len() && !found
                    invariant
                        i <= r.subs@.len(),
                        uid_unique(r.subs@),
                        !found ==> forall|k: int|
                            0 <= k < i ==> (#[trigger] r.subs@[k]).value != session_id.value,
                        found ==> uid_set(r.subs@) =~= r0.subs.remove(session_id.value),
                        !found ==> r@ == r0,
                        r.inv(),
                        r@.handles == r0.handles,
                    decreases r.subs@.len() - i,
                {
                    if r.subs[i].value == session_id.value {
                        proof {
                            assert forall|a: int, b: int|
                                0 <= a < b < r.subs@.remove(i as int).len() implies r.subs@.remove(
                                i as int,
                            )[a].value != r.subs@.remove(i as int)[b].value by {
                                let a0 = if a < i as int { a } else { a + 1 };
                                let b0 = if b < i as int { b } else { b + 1 };
                                assert(r.subs@.remove(i as int)[a] == r.subs@[a0]);
                                assert(r.subs@.remove(i as int)[b] == r.subs@[b0]);
                            }
                            assert forall|c: u128| #[trigger] uid_contains(
                                r.subs@.remove(i as int),
                                c,
                            ) implies uid_contains(r.subs@, c) && c != session_id.value by {
                                let k = choose|k: int|
                                    0 <= k < r.subs@.remove(i as int).len() && r.subs@.remove(
                                        i as int,
                                    )[k].value == c;
                                let k0 = if k < i as int { k } else { k + 1 };
                                assert(r.subs@.remove(i as int)[k] == r.subs@[k0]);
                                if c == session_id.value {
                                    assert(r.subs@[i as int].value == session_id.value);
                                    assert(k0 != i as int);
                                }
                            }
                            assert forall|c: u128|
                                uid_contains(r.subs@, c) && c != session_id.value implies #[trigger]
                            uid_contains(r.subs@.remove(i as int), c) by {
                                let k = choose|k: int|
                                    0 <= k < r.subs@.len() && r.subs@[k].value == c;
                                assert(k != i as int);
                                if k < i as int {
                                    assert(r.subs@.remove(i as int)[k] == r.subs@[k]);
                                } else {
                                    assert(r.subs@.remove(i as int)[k - 1] == r.subs@[k]);
                                }
                            }
                        }
                        r.subs.remove(i);
                        found = true;
                        proof {
                            assert(uid_set(r.subs@) =~= r0.subs.remove(session_id.value));
                        }
                    } else {
                        i = i + 1;
                    }
                }
                proof {
                    if !found {
                        assert(!uid_contains(r.subs@, session_id.value));
                        assert(uid_set(r.subs@) =~= r0.subs.remove(session_id.value));
                    }
                    lemma_map_values_insert(
                        self.connections@,
                        |rec: ConnRecord| rec@,
                        connection_id.value,
                        r,
                    );
                }
                self.connections.insert(connection_id.value, r);
                proof {
                    assert(r@ =~= (ConnView {
                        subs: r0.subs.remove(session_id.value),
                        handles: r0.handles,
                    }));
                    assert(self@.conns =~= spec_unsubscribe(
                        h0,
                        connection_id.value,
                        session_id.value,
                    ).conns);
                    assert(self@ =~= spec_unsubscribe(h0, connection_id.value, session_id.value));
                }
            },
            None => {
                proof {
                    assert(self@.conns =~= h0.conns);
                    assert(self@ =~= spec_unsubscribe(h0, connection_id.value, session_id.value));
                }
            },
        }
    }

    /// Publishes an event to a session's topic, creating the topic on first
    /// use; never blocks and never fails, also with no subscriber present.
    pub fn publish(&mut self, session_id: Uid, message: ServerMessage)
        requires
            old(self).inv(),
        ensures
            final(self).inv(),
            final(self)@ == spec_publish(old(self)@, session_id.value, message),
    {
        let ghost h0 = self@;
        proof {
            lemma_map_values_remove(self.topics@, |t: Topic| t@, session_id.value);
        }
        let mut t = match self.topics.remove(&session_id.value) {
            Some(t) => t,
            None => Topic::new(),
        };
        t.publish(message);
        proof {
            lemma_map_values_insert(self.topics@, |t2: Topic| t2@, session_id.value, t);
        }
        self.topics.insert(session_id.value, t);
        proof {
            assert(self@.topics =~= spec_publish(h0, session_id.value, message).topics);
            assert(self@ =~= spec_publish(h0, session_id.value, message));
        }
    }

    /// Delivers an event to a session's topic only if the topic exists; a
    /// session nobody ever subscribed to or published to gets none.
    pub fn broadcast(&mut self, session_id: Uid, message: ServerMessage)
        requires
            old(self).inv(),
        ensures
            final(self).inv(),
            final(self)@ == spec_broadcast(old(self)@, session_id.value, message),
    {
        let ghost h0 = self@;
        proof {
            lemma_map_values_remove(self.topics@, |t: Topic| t@, session_id.value);
        }
        match self.topics.remove(&session_id.value) {
            Some(mut t) => {
                t.publish(message);
                proof {
                    lemma_map_values_insert(self.topics@, |t2: Topic| t2@, session_id.value, t);
                }
                self.topics.insert(session_id.value, t);
                proof {
                    assert(self@.topics =~= spec_broadcast(h0, session_id.value, message).topics);
                    assert(self@ =~= spec_broadcast(h0, session_id.value, message));
                }
            },
            None => {
                proof {
                    assert(self@.topics =~= h0.topics);
                    assert(self@ =~= spec_broadcast(h0, session_id.value, message));
                }
            },
        }
    }

    /// Makes sure a session has a registry entry: the existing topic, or a
    /// fresh empty one. Idempotent, for the external producer's use.
    pub fn get_or_create_topic(&mut self, session_id: Uid)
        requires
            old(self).inv(),
        ensures
            final(self).inv(),
            final(self)@ == spec_get_or_create_topic(old(self)@, session_id.value),
    {
        let ghost h0 = self@;
        if !self.topics.contains_key(&session_id.value) {
            let t = Topic::new();
            proof {
                lemma_map_values_insert(self.topics@, |t2: Topic| t2@, session_id.value, t);
            }
            self.topics.insert(session_id.value, t);
            proof {
                assert(self@.topics =~= spec_get_or_create_topic(h0, session_id.value).topics);
                assert(self@ =~= spec_get_or_create_topic(h0, session_id.value));
            }
        }
    }

    /// How many subscribers a session's topic has; advisory, may be stale
    /// by the time the caller acts on it.
    pub fn subscriber_count(&self, session_id: Uid) -> (n: usize)
        requires
            self.inv(),
        ensures
            n == spec_subscriber_count(self@, session_id.value),
    {
        match self.topics.get(&session_id.value) {
            Some(t) => t.sub_count(),
            None => 0,
        }
    }

    /// Whether a session currently has any subscriber; advisory, usable by
    /// a producer to skip output nobody watches.
    pub fn has_subscribers(&self, session_id: Uid) -> (r: bool)
        requires
            self.inv(),
        ensures
            r == spec_has_subscribers(self@, session_id.value),
    {
        self.subscriber_count(session_id) > 0
    }

    /// Removes the registry entry for a session if its subscriber count is
    /// zero; safe to call redundantly.
    pub fn remove_if_orphaned(&mut self, session_id: Uid)
        requires
            old(self).inv(),
        ensures
            final(self).inv(),
            final(self)@ == spec_remove_if_orphaned(old(self)@, session_id.value),
    {
        let ghost h0 = self@;
        let orphaned = match self.topics.get(&session_id.value) {
            Some(t) => t.sub_count() == 0,
            None => false,
        };
        if orphaned {
            proof {
                lemma_map_values_remove(self.topics@, |t: Topic| t@, session_id.value);
            }
            self.topics.remove(&session_id.value);
            proof {
                assert(self@.topics =~= spec_remove_if_orphaned(h0, session_id.value).topics);
                assert(self@ =~= spec_remove_if_orphaned(h0, session_id.value));
            }
        }
    }

    /// The next pending event of a session's topic for one connection, or
    /// nothing when the connection has nothing pending there.
    pub fn recv_next(&mut self, connection_id: Uid, session_id: Uid) -> (r: Option<ServerMessage>)
        requires
            old(self).inv(),
        ensures
            final(self).inv(),
            final(self)@ == spec_recv(old(self)@, connection_id.value, session_id.value).0,
            r == spec_recv(old(self)@, connection_id.value, session_id.value).1,
    {
        let ghost h0 = self@;
        proof {
            lemma_map_values_remove(self.topics@, |t: Topic| t@, session_id.value);
        }
        match self.topics.remove(&session_id.value) {
            Some(mut t) => {
                let r = t.recv_next(connection_id);
                proof {
                    lemma_map_values_insert(self.topics@, |t2: Topic| t2@, session_id.value, t);
                }
                self.topics.insert(session_id.value, t);
                proof {
                    assert(self@.topics =~= spec_recv(
                        h0,
                        connection_id.value,
                        session_id.value,
                    ).0.topics);
                    assert(self@ =~= spec_recv(h0, connection_id.value, session_id.value).0);
                }
                r
            },
            None => {
                proof {
                    assert(self@.topics =~= h0.topics);
                }
                None
            },
        }
    }
}

impl ConnectionManager {
    /// The invariant that every method maintains makes the view well
    /// formed, so the laws stated over views apply to every hub state a
    /// caller can reach.
    pub proof fn lemma_inv_wf(&self)
        requires
            self.inv(),
        ensures
            self@.wf(),
    {
        assert forall|s: u128| self@.topics.contains_key(s) implies (
        #[trigger] self@.topics[s]).wf() by {
            assert(self.topics@.contains_key(s));
            assert(self@.topics[s] == self.topics@[s]@);
            self.topics@[s].lemma_inv_wf();
        }
    }

    /// Unregisters a connection: its record is removed, every handle it
    /// held is closed, and each session of its subscription set that is
    /// left without subscribers is reclaimed. Other connections'
    /// subscriptions to the same sessions are untouched.
    pub fn unregister_connection(&mut self, connection_id: Uid)
        requires
            old(self).inv(),
        ensures
            final(self).inv(),
            final(self)@ == spec_unregister(old(self)@, connection_id.value),
    {
        let ghost h0 = self@;
        let ghost c = connection_id.value;
        proof {
            lemma_map_values_remove(self.connections@, |rec: ConnRecord| rec@, connection_id.value);
        }
        let r = match self.connections.remove(&connection_id.value) {
            Some(r) => r,
            None => {
                proof {
                    assert(self@.conns =~= h0.conns);
                    assert(self@ =~= spec_unregister(h0, c));
                }
                return ;
            },
        };
        let ghost r0 = r@;
        proof {
            assert(h0.conns.contains_key(c));
            assert(h0.conns[c] == r0);
            assert(self@.conns =~= h0.conns.remove(c));
        }
        let ghost stripped = Map::<u128, TopicView>::new(
            |x: u128| h0.topics.contains_key(x),
            |x: u128|
                if r0.handles.contains(x) {
                    strip_topic(h0.topics[x], c)
                } else {
                    h0.topics[x]
                },
        );
        let mut i: usize = 0;
        while i < r.handles.len()
            invariant
                i <= r.handles@.len(),
                c == connection_id.value,
                self.inv(),
                r.inv(),
                r@ == r0,
                self@.conns =~= h0.conns.remove(c),
                self@.topics.dom() =~= h0.topics.dom(),
                forall|x: u128|
                    h0.topics.contains_key(x) ==> #[trigger] self@.topics[x] == (if hit(
                        r.handles@,
                        i as int,
                        x,
                    ) {
                        strip_topic(h0.topics[x], c)
                    } else {
                        h0.topics[x]
                    }),
            decreases r.handles@.len() - i,
        {
            let ghost prev = self@.topics;
            let s = r.handles[i];
            proof {
                lemma_map_values_remove(self.topics@, |t: Topic| t@, s.value);
            }
            match self.topics.remove(&s.value) {
                Some(mut t) => {
                    proof {
                        assert(prev.contains_key(s.value));
                        assert(t@ == prev[s.value]);
                        assert(self@.topics =~= prev.remove(s.value));
                    }
                    let ghost tv0 = t@;
                    t.remove_sub(connection_id);
                    proof {
                        assert(t@ == strip_topic(tv0, c));
                        lemma_map_values_insert(self.topics@, |t2: Topic| t2@, s.value, t);
                    }
                    self.topics.insert(s.value, t);
                    proof {
                        assert(self@.topics =~= prev.remove(s.value).insert(s.value, t@));
                        assert(self@.topics =~= prev.insert(
                            s.value,
                            strip_topic(prev[s.value], c),
                        ));
                    }
                },
                None => {
                    proof {
                        assert(self@.topics =~= prev);
                    }
                },
            }
            proof {
                assert(!hit(r.handles@, i as int, s.value)) by {
                    if hit(r.handles@, i as int, s.value) {
                        let k = choose|k: int|
                            0 <= k < i && r.handles@[k].value == s.value;
                        assert(r.handles@[k].value == r.handles@[i as int].value);
                        assert(false);
                    }
                }
                assert forall|x: u128| h0.topics.contains_key(x) implies #[trigger] self@.topics[x]
                    == (if hit(r.handles@, i + 1, x) {
                    strip_topic(h0.topics[x], c)
                } else {
                    h0.topics[x]
                }) by {
                    if x == s.value {
                        assert(hit(r.handles@, i + 1, x)) by {
                            assert(r.handles@[i as int].value == x);
                        }
                        if prev.contains_key(x) {
                            assert(prev[x] == h0.topics[x]);
                            assert(strip_topic(strip_topic(h0.topics[x], c), c) == strip_topic(
                                h0.topics[x],
                                c,
                            )) by {
                                assert(h0.topics[x].cursors.remove(c).remove(c)
                                    =~= h0.topics[x].cursors.remove(c));
                            }
                        }
                    } else {
                        assert(hit(r.handles@, i + 1, x) == hit(r.handles@, i as int, x)) by {
                            if hit(r.handles@, i + 1, x) {
                                let k = choose|k: int|
                                    0 <= k < i + 1 && r.handles@[k].value == x;
                                assert(k < i);
                            }
                            if hit(r.handles@, i as int, x) {
                                let k = choose|k: int|
                                    0 <= k < i && r.handles@[k].value == x;
                                assert(0 <= k < i + 1 && r.handles@[k].value == x);
                            }
                        }
                    }
                }
            }
            i = i + 1;
        }
        proof {
            assert(self@.topics =~= stripped) by {
                assert forall|x: u128| h0.topics.contains_key(x) implies #[trigger] self@.topics[x]
                    == stripped[x] by {
                    assert(hit(r.handles@, r.handles@.len() as int, x) == r0.handles.contains(
                        x,
                    )) by {
                        if r0.handles.contains(x) {
                            let k = choose|k: int|
                                0 <= k < r.handles@.len() && r.handles@[k].value == x;
                            assert(hit(r.handles@, r.handles@.len() as int, x));
                        }
                    }
                }
            }
        }
        let ghost t1 = self@.topics;
        let mut j: usize = 0;
        while j < r.subs.len()
            invariant
                j <= r.subs@.len(),
                c == connection_id.value,
                self.inv(),
                r.inv(),
                r@ == r0,
                self@.conns =~= h0.conns.remove(c),
                forall|x: u128|
                    #[trigger] self@.topics.contains_key(x) <==> (t1.contains_key(x) && !(hit(
                        r.subs@,
                        j as int,
                        x,
                    ) && t1[x].cursors.dom().len() == 0)),
                forall|x: u128|
                    self@.topics.contains_key(x) ==> #[trigger] self@.topics[x] == t1[x],
            decreases r.subs@.len() - j,
        {
            let ghost prev = self@;
            let s = r.subs[j];
            self.remove_if_orphaned(s);
            proof {
                assert(!hit(r.subs@, j as int, s.value)) by {
                    if hit(r.subs@, j as int, s.value) {
                        let k = choose|k: int| 0 <= k < j && r.subs@[k].value == s.value;
                        assert(r.subs@[k].value == r.subs@[j as int].value);
                        assert(false);
                    }
                }
                assert forall|x: u128| #[trigger] self@.topics.contains_key(x) <==> (
                t1.contains_key(x) && !(hit(r.subs@, j + 1, x) && t1[x].cursors.dom().len()
                    == 0)) by {
                    if x == s.value {
                        assert(hit(r.subs@, j + 1, x)) by {
                            assert(r.subs@[j as int].value == x);
                        }
                    } else {
                        assert(hit(r.subs@, j + 1, x) == hit(r.subs@, j as int, x)) by {
                            if hit(r.subs@, j + 1, x) {
                                let k = choose|k: int| 0 <= k < j + 1 && r.subs@[k].value == x;
                                assert(k < j);
                            }
                            if hit(r.subs@, j as int, x) {
                                let k = choose|k: int| 0 <= k < j && r.subs@[k].value == x;
                                assert(0 <= k < j + 1 && r.subs@[k].value == x);
                            }
                        }
                    }
                }
            }
            j = j + 1;
        }
        proof {
            let fin = spec_unregister(h0, c);
            assert forall|x: u128| #[trigger] self@.topics.contains_key(x) <==> fin.topics.contains_key(x) by {
                assert(hit(r.subs@, r.subs@.len() as int, x) == r0.subs.contains(x)) by {
                    if r0.subs.contains(x) {
                        let k = choose|k: int| 0 <= k < r.subs@.len() && r.subs@[k].value == x;
                        assert(hit(r.subs@, r.subs@.len() as int, x));
                    }
                }
            }
            assert(self@.topics =~= fin.topics);
            assert(self@.conns =~= fin.conns);
            assert(self@ =~= fin);
        }
    }
}

impl Default for ConnectionManager {
    /// The same hub as `new` returns.
    fn default() -> (r: Self)
        ensures
            r.inv(),
            r@ == empty_hub(),
    {
        ConnectionManager::new()
    }
}

} // verus!
