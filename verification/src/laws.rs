//! The delivery model of one publisher session, and the laws that hold of
//! it.
//!
//! One publish with target list `targets` writes the payload once to each
//! entry of `targets`, in list order; a handle registered more than once
//! receives the payload once per occurrence. A session is a sequence of
//! publishes to the same target list. The proof functions below state what
//! the relay guarantees a subscriber: delivery of every message, verbatim
//! and in order; nothing at all on an empty topic; and exclusion, once
//! pruned, until a new subscribe.

use vstd::prelude::*;
use crate::registry::kept_ids;

verus! {

/// How often `sub` occurs in `targets`: how many copies of each payload one
/// publish hands it.
pub open spec fn occurrences(targets: Seq<u64>, sub: u64) -> nat
    decreases targets.len(),
{
    if targets.len() == 0 {
        0
    } else {
        occurrences(targets.drop_last(), sub) + (if targets.last() == sub {
            1nat
        } else {
            0nat
        })
    }
}

/// What one publish of `payload` over `targets` delivers to `sub`: one copy
/// of the payload per occurrence.
pub open spec fn deliveries_to(sub: u64, targets: Seq<u64>, payload: Seq<char>) -> Seq<Seq<char>> {
    Seq::new(occurrences(targets, sub), |i: int| payload)
}

/// Everything `sub` receives over a session publishing `msgs`, one after
/// the other, to the target list `targets`.
pub open spec fn received_in_session(sub: u64, targets: Seq<u64>, msgs: Seq<Seq<char>>) -> Seq<
    Seq<char>,
>
    decreases msgs.len(),
{
    if msgs.len() == 0 {
        Seq::empty()
    } else {
        received_in_session(sub, targets, msgs.drop_last()) + deliveries_to(
            sub,
            targets,
            msgs.last(),
        )
    }
}

/// A handle that stands in `targets` occurs there at least once.
pub proof fn lemma_contains_occurs(targets: Seq<u64>, sub: u64)
    requires
        targets.contains(sub),
    ensures
        occurrences(targets, sub) >= 1,
    decreases targets.len(),
{
    if targets.last() == sub {
    } else {
        let i = choose|i: int| 0 <= i < targets.len() && targets[i] == sub;
        assert(targets.drop_last()[i] == sub);
        lemma_contains_occurs(targets.drop_last(), sub);
    }
}

/// A handle that does not stand in `targets` occurs there not at all.
pub proof fn lemma_absent_occurs_not(targets: Seq<u64>, sub: u64)
    requires
        !targets.contains(sub),
    ensures
        occurrences(targets, sub) == 0,
    decreases targets.len(),
{
    if targets.len() > 0 {
        assert forall|i: int| 0 <= i < targets.len() - 1 implies targets.drop_last()[i]
            != sub by {
            assert(targets[i] == targets.drop_last()[i]);
        }
        lemma_absent_occurs_not(targets.drop_last(), sub);
        assert(targets[targets.len() - 1] != sub);
    }
}

/// Appending a handle to a list raises its occurrence count by one.
pub proof fn lemma_subscribe_occurs(targets: Seq<u64>, sub: u64)
    ensures
        occurrences(targets.push(sub), sub) == occurrences(targets, sub) + 1,
{
    assert(targets.push(sub).drop_last() =~= targets);
    assert(targets.push(sub).last() == sub);
}

/// A subscriber registered exactly once receives, over a whole session,
/// exactly the messages the publisher sent: each verbatim, in the order
/// they were sent, with nothing added, lost or repeated.
pub proof fn lemma_session_delivers_in_order(sub: u64, targets: Seq<u64>, msgs: Seq<Seq<char>>)
    requires
        occurrences(targets, sub) == 1,
    ensures
        received_in_session(sub, targets, msgs) == msgs,
    decreases msgs.len(),
{
    if msgs.len() == 0 {
        assert(received_in_session(sub, targets, msgs) =~= msgs);
    } else {
        lemma_session_delivers_in_order(sub, targets, msgs.drop_last());
        assert(deliveries_to(sub, targets, msgs.last()) =~= seq![msgs.last()]);
        assert(msgs.drop_last() + seq![msgs.last()] =~= msgs);
    }
}

/// A subscribe handshake for a topic, by a connection not yet on that
/// topic's list, followed by any number of relay messages to the topic,
/// has every message delivered to that connection verbatim, in the order
/// the publisher sent them. The subscriber list is written exactly as
/// `Registry::subscribe` leaves it in the registry's view.
pub proof fn lemma_subscribe_then_session(
    reg: Map<Seq<char>, Seq<u64>>,
    topic: Seq<char>,
    conn: u64,
    msgs: Seq<Seq<char>>,
)
    requires
        reg.contains_key(topic) ==> !reg[topic].contains(conn),
    ensures
        ({
            let subs = if reg.contains_key(topic) {
                reg[topic].push(conn)
            } else {
                seq![conn]
            };
            received_in_session(conn, subs, msgs) == msgs
        }),
{
    if reg.contains_key(topic) {
        lemma_absent_occurs_not(reg[topic], conn);
        lemma_subscribe_occurs(reg[topic], conn);
        lemma_session_delivers_in_order(conn, reg[topic].push(conn), msgs);
    } else {
        assert(seq![conn] =~= Seq::<u64>::empty().push(conn));
        lemma_subscribe_occurs(Seq::<u64>::empty(), conn);
        assert(occurrences(Seq::<u64>::empty(), conn) == 0);
        assert(occurrences(seq![conn], conn) == 1);
        lemma_session_delivers_in_order(conn, seq![conn], msgs);
    }
}

/// A publish to a topic with no subscribers delivers to nobody: with an
/// empty target list, nobody receives anything.
pub proof fn lemma_empty_topic_delivers_nothing(sub: u64, payload: Seq<char>)
    ensures
        deliveries_to(sub, Seq::<u64>::empty(), payload) == Seq::<Seq<char>>::empty(),
{
    assert(deliveries_to(sub, Seq::<u64>::empty(), payload) =~= Seq::<Seq<char>>::empty());
}

/// Every subscriber on the target list receives each published payload,
/// verbatim, at least once — fan-out, not point-to-point. Stated for any
/// two registered subscribers at once.
pub proof fn lemma_fanout_reaches_both(s1: u64, s2: u64, targets: Seq<u64>, payload: Seq<char>)
    requires
        targets.contains(s1),
        targets.contains(s2),
    ensures
        deliveries_to(s1, targets, payload).len() >= 1,
        deliveries_to(s2, targets, payload).len() >= 1,
        forall|k: int|
            0 <= k < deliveries_to(s1, targets, payload).len() ==> deliveries_to(
                s1,
                targets,
                payload,
            )[k] == payload,
        forall|k: int|
            0 <= k < deliveries_to(s2, targets, payload).len() ==> deliveries_to(
                s2,
                targets,
                payload,
            )[k] == payload,
{
    lemma_contains_occurs(targets, s1);
    lemma_contains_occurs(targets, s2);
}

/// Pruning keeps only handles that were on the list before: a fan-out pass
/// never adds a subscriber.
pub proof fn lemma_prune_adds_nobody(subs: Seq<u64>, keep: Seq<bool>, sub: u64)
    requires
        !subs.contains(sub),
    ensures
        !kept_ids(subs, keep).contains(sub),
    decreases subs.len(),
{
    if subs.len() == 0 || keep.len() == 0 {
    } else {
        assert forall|i: int| 0 <= i < subs.len() - 1 implies subs.drop_last()[i] != sub by {
            assert(subs[i] == subs.drop_last()[i]);
        }
        lemma_prune_adds_nobody(subs.drop_last(), keep.drop_last(), sub);
        if kept_ids(subs, keep).contains(sub) {
            let i = choose|i: int|
                0 <= i < kept_ids(subs, keep).len() && kept_ids(subs, keep)[i] == sub;
            let prefix = kept_ids(subs.drop_last(), keep.drop_last());
            if i < prefix.len() {
                assert(prefix[i] == sub);
            } else {
                assert(keep.last() && subs.last() == sub);
            }
        }
    }
}

/// A subscriber whose connection was found dead is excluded from the prune:
/// when every occurrence of `sub` is flagged for removal, the surviving
/// list holds no occurrence of `sub`. Together with `lemma_prune_adds_nobody`
/// and the step contracts — a publish never changes the registry, a prune
/// only replaces the one list with `kept_ids` of it — the exclusion is
/// sticky: `sub` stays off the topic's list through every later publish and
/// prune, until a new subscribe handshake appends it again.
pub proof fn lemma_pruned_subscriber_excluded(subs: Seq<u64>, keep: Seq<bool>, sub: u64)
    requires
        keep.len() == subs.len(),
        forall|i: int| 0 <= i < subs.len() && subs[i] == sub ==> !keep[i],
    ensures
        !kept_ids(subs, keep).contains(sub),
    decreases subs.len(),
{
    if subs.len() == 0 {
    } else {
        assert forall|i: int|
            0 <= i < subs.len() - 1 && subs.drop_last()[i] == sub implies !keep.drop_last()[i] by {
            assert(subs[i] == subs.drop_last()[i]);
            assert(keep[i] == keep.drop_last()[i]);
        }
        lemma_pruned_subscriber_excluded(subs.drop_last(), keep.drop_last(), sub);
        if kept_ids(subs, keep).contains(sub) {
            let i = choose|i: int|
                0 <= i < kept_ids(subs, keep).len() && kept_ids(subs, keep)[i] == sub;
            let prefix = kept_ids(subs.drop_last(), keep.drop_last());
            if i < prefix.len() {
                assert(prefix[i] == sub);
            } else {
                assert(keep.last() && subs.last() == sub);
                assert(subs[subs.len() - 1] == sub);
            }
        }
    }
}

/// Once every occurrence of a subscriber is pruned, fan-out over the
/// surviving list delivers it nothing, whatever is published.
pub proof fn lemma_pruned_subscriber_receives_nothing(
    subs: Seq<u64>,
    keep: Seq<bool>,
    sub: u64,
    payload: Seq<char>,
)
    requires
        keep.len() == subs.len(),
        forall|i: int| 0 <= i < subs.len() && subs[i] == sub ==> !keep[i],
    ensures
        deliveries_to(sub, kept_ids(subs, keep), payload) == Seq::<Seq<char>>::empty(),
{
    lemma_pruned_subscriber_excluded(subs, keep, sub);
    lemma_absent_occurs_not(kept_ids(subs, keep), sub);
    assert(deliveries_to(sub, kept_ids(subs, keep), payload) =~= Seq::<Seq<char>>::empty());
}

} // verus!
