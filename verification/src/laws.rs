//! The hub's guarantees, stated and proved over the mathematical views:
//! ordering of delivery, fan-out, tolerance of subscriber-less publishes,
//! and cleanup after a connection unregisters.

use vstd::prelude::*;

use crate::hub::{
    spec_has_subscribers, spec_publish, spec_recv, spec_remove_if_orphaned, spec_subscribe,
    spec_subscriber_count, spec_unregister, strip_topic, topic_publish, topic_recv, HubView,
    TopicView, CHANNEL_CAPACITY,
};
use crate::messages::ServerMessage;

verus! {

/// Publishing never disturbs the order of what a subscriber has yet to
/// receive: the new event is appended to its pending sequence, and only a
/// subscriber lagging by the whole window loses the oldest pending event.
pub proof fn lemma_publish_preserves_order(t: TopicView, c: u128, m: ServerMessage)
    requires
        t.wf(),
        t.cursors.contains_key(c),
    ensures
        topic_publish(t, m).cursors.dom() == t.cursors.dom(),
        t.pending(c).len() == CHANNEL_CAPACITY ==> topic_publish(t, m).pending(c) == t.pending(
            c,
        ).drop_first().push(m),
        t.pending(c).len() < CHANNEL_CAPACITY ==> topic_publish(t, m).pending(c) == t.pending(
            c,
        ).push(m),
{
    let t2 = topic_publish(t, m);
    let cur = t.cursors[c] as int;
    if t.events.len() < CHANNEL_CAPACITY {
        assert(t2.pending(c) =~= t.pending(c).push(m));
    } else {
        assert(t2.cursors.dom() =~= t.cursors.dom());
        if cur > 0 {
            assert(t2.pending(c) =~= t.pending(c).push(m));
            assert(t.pending(c).len() < CHANNEL_CAPACITY);
        } else {
            assert(t.pending(c).len() == CHANNEL_CAPACITY);
            assert(t2.pending(c) =~= t.pending(c).drop_first().push(m));
        }
    }
}

/// Receiving returns the oldest pending event and leaves exactly the rest:
/// together with `lemma_publish_preserves_order`, events published to one
/// session reach a subscriber in the exact order published.
pub proof fn lemma_recv_in_order(t: TopicView, c: u128)
    requires
        t.wf(),
        t.cursors.contains_key(c),
        t.pending(c).len() > 0,
    ensures
        topic_recv(t, c).1 == Some(t.pending(c)[0]),
        topic_recv(t, c).0.pending(c) == t.pending(c).drop_first(),
        topic_recv(t, c).0.events == t.events,
        topic_recv(t, c).0.cursors.dom() == t.cursors.dom(),
{
    let cur = t.cursors[c] as int;
    let (t2, r) = topic_recv(t, c);
    assert(t.pending(c)[0] == t.events[cur]);
    assert(t2.pending(c) =~= t.pending(c).drop_first());
    assert(t2.cursors.dom() =~= t.cursors.dom());
}

/// A subscriber that is caught up receives two subsequently published
/// events in publish order.
pub proof fn lemma_two_publishes_received_in_order(
    t: TopicView,
    c: u128,
    m1: ServerMessage,
    m2: ServerMessage,
)
    requires
        t.wf(),
        t.cursors.contains_key(c),
        t.pending(c).len() == 0,
    ensures
        ({
            let t2 = topic_publish(topic_publish(t, m1), m2);
            let first = topic_recv(t2, c);
            let second = topic_recv(first.0, c);
            &&& first.1 == Some(m1)
            &&& second.1 == Some(m2)
        }),
{
    let t1 = topic_publish(t, m1);
    lemma_publish_preserves_order(t, c, m1);
    lemma_topic_publish_wf(t, m1);
    let t2 = topic_publish(t1, m2);
    lemma_publish_preserves_order(t1, c, m2);
    lemma_topic_publish_wf(t1, m2);
    assert(t2.pending(c) =~= seq![m1, m2]);
    lemma_recv_in_order(t2, c);
    let t3 = topic_recv(t2, c).0;
    assert(t3.wf());
    assert(t3.pending(c) =~= seq![m2]);
    lemma_recv_in_order(t3, c);
}

/// Publishing keeps a topic well formed.
pub proof fn lemma_topic_publish_wf(t: TopicView, m: ServerMessage)
    requires
        t.wf(),
    ensures
        topic_publish(t, m).wf(),
{
    let t2 = topic_publish(t, m);
    if t.events.len() < CHANNEL_CAPACITY {
    } else {
        assert(t2.cursors.dom() =~= t.cursors.dom());
        assert forall|c: u128| t2.cursors.contains_key(c) implies (#[trigger] t2.cursors[c])
            <= t2.events.len() by {
            assert(t.cursors[c] <= t.events.len());
        }
    }
}

/// The hub-level form of the ordering guarantee: a caught-up subscriber
/// of a session receives two subsequently published events in publish
/// order.
pub proof fn lemma_hub_delivery_in_publish_order(
    h: HubView,
    c: u128,
    s: u128,
    m1: ServerMessage,
    m2: ServerMessage,
)
    requires
        h.wf(),
        h.topics.contains_key(s),
        h.topics[s].cursors.contains_key(c),
        h.topics[s].pending(c).len() == 0,
    ensures
        ({
            let h2 = spec_publish(spec_publish(h, s, m1), s, m2);
            let first = spec_recv(h2, c, s);
            let second = spec_recv(first.0, c, s);
            &&& first.1 == Some(m1)
            &&& second.1 == Some(m2)
        }),
{
    let t = h.topics[s];
    lemma_two_publishes_received_in_order(t, c, m1, m2);
    let h1 = spec_publish(h, s, m1);
    let h2 = spec_publish(h1, s, m2);
    assert(h2.topics[s] == topic_publish(topic_publish(t, m1), m2));
    let first = spec_recv(h2, c, s);
    assert(first.0.topics[s] == topic_recv(topic_publish(topic_publish(t, m1), m2), c).0);
}

/// A publish to a session with no subscribers is still a publish (it never
/// fails), and the registry keeps no topic for the session once the orphan
/// reclaim runs afterward.
pub proof fn lemma_publish_without_subscribers_leaves_nothing(h: HubView, s: u128, m: ServerMessage)
    requires
        h.wf(),
        spec_subscriber_count(h, s) == 0,
    ensures
        !spec_remove_if_orphaned(spec_publish(h, s, m), s).topics.contains_key(s),
        !spec_has_subscribers(spec_remove_if_orphaned(spec_publish(h, s, m), s), s),
{
    let h2 = spec_publish(h, s, m);
    if h.topics.contains_key(s) {
        lemma_publish_preserves_count(h.topics[s], m);
    } else {
        assert(h2.topics[s].cursors.dom() =~= Set::<u128>::empty());
    }
    assert(h2.topics[s].cursors.dom().len() == 0);
}

proof fn lemma_publish_preserves_count(t: TopicView, m: ServerMessage)
    ensures
        topic_publish(t, m).cursors.dom() == t.cursors.dom(),
{
    assert(topic_publish(t, m).cursors.dom() =~= t.cursors.dom());
}

/// One publish delivers exactly one copy of the event to every subscriber:
/// each subscriber that was caught up has exactly that event pending, and
/// the set of subscribers does not change. With several independent
/// connections subscribed, each one therefore receives one copy.
pub proof fn lemma_publish_fans_out(h: HubView, s: u128, m: ServerMessage, c: u128)
    requires
        h.wf(),
        h.topics.contains_key(s),
        h.topics[s].cursors.contains_key(c),
        h.topics[s].pending(c).len() == 0,
    ensures
        spec_publish(h, s, m).topics[s].cursors.dom() == h.topics[s].cursors.dom(),
        spec_publish(h, s, m).topics[s].pending(c) == seq![m],
{
    lemma_publish_preserves_order(h.topics[s], c, m);
    assert(spec_publish(h, s, m).topics[s].pending(c) =~= seq![m]);
}

/// A published event is what a caught-up subscriber receives next: with
/// two connections subscribed, both receive that exact envelope.
pub proof fn lemma_publish_then_recv_delivers(h: HubView, s: u128, m: ServerMessage, c: u128)
    requires
        h.wf(),
        h.topics.contains_key(s),
        h.topics[s].cursors.contains_key(c),
        h.topics[s].pending(c).len() == 0,
    ensures
        spec_recv(spec_publish(h, s, m), c, s).1 == Some(m),
{
    lemma_publish_fans_out(h, s, m, c);
    lemma_topic_publish_wf(h.topics[s], m);
    let h2 = spec_publish(h, s, m);
    lemma_recv_in_order(h2.topics[s], c);
}

/// After a connection unregisters, a session it held the only handle to
/// reports no subscribers: its cursor is gone, and the topic itself is
/// reclaimed when the session was still in the connection's subscription
/// set.
pub proof fn lemma_unregister_clears_sole_subscriber(h: HubView, c: u128, s: u128)
    requires
        h.wf(),
        h.conns.contains_key(c),
        h.conns[c].handles.contains(s),
        h.topics.contains_key(s),
        h.topics[s].cursors.dom() == Set::<u128>::empty().insert(c),
    ensures
        !spec_has_subscribers(spec_unregister(h, c), s),
{
    let h2 = spec_unregister(h, c);
    let stripped = strip_topic(h.topics[s], c);
    assert(stripped.cursors.dom() =~= Set::<u128>::empty());
    vstd::set::axiom_set_insert_len(Set::<u128>::empty().remove(c), c);
    if h2.topics.contains_key(s) {
        assert(h2.topics[s] == stripped);
        assert(h2.topics[s].cursors.dom().len() == 0);
    }
}

/// A connection that subscribes to a fresh session and then disconnects
/// leaves the session without subscribers.
pub proof fn lemma_subscribe_then_unregister(h: HubView, c: u128, s: u128)
    requires
        h.wf(),
        h.conns.contains_key(c),
        !h.topics.contains_key(s),
    ensures
        !spec_has_subscribers(spec_unregister(spec_subscribe(h, c, s), c), s),
{
    let h1 = spec_subscribe(h, c, s);
    assert(h1.topics[s].cursors.dom() =~= Set::<u128>::empty().insert(c));
    assert(h1.conns.contains_key(c));
    assert(h1.conns[c].handles.contains(s));
    assert(h1.wf()) by {
        assert forall|x: u128| h1.topics.contains_key(x) implies (#[trigger] h1.topics[x]).wf() by {
            if x == s {
                assert(h1.topics[s].cursors.dom() =~= Set::<u128>::empty().insert(c));
                vstd::set::axiom_set_insert_len(Set::<u128>::empty(), c);
                assert forall|y: u128| h1.topics[s].cursors.contains_key(y) implies (
                #[trigger] h1.topics[s].cursors[y]) <= h1.topics[s].events.len() by {
                    assert(y == c);
                }
            } else {
                assert(h.topics.contains_key(x));
                assert(h1.topics[x] == h.topics[x]);
            }
        }
    }
    lemma_unregister_clears_sole_subscriber(h1, c, s);
}

} // verus!
