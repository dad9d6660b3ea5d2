//! What holds of MQTT sessions as a whole.

use crate::mqtt::{all_published, law_waiting_messages_keep_order, HubView};
use crate::packet::InView;
use crate::push_log::last_n;
use crate::session::{
    deliveries, done_step, granted, joins, leaves, next_granted, packet_step, session_step,
    EventView, NextView, PhaseView, SessionView,
};
use vstd::prelude::*;

verus! {

// ---- the count of subscribers ----

/// How many of the sessions are subscribed to a topic.
pub open spec fn holders(sessions: Seq<SessionView>, topic: Seq<char>) -> nat
    decreases sessions.len(),
{
    if sessions.len() == 0 {
        0
    } else {
        holders(sessions.drop_last(), topic) + if sessions.last().subscribed.contains(topic) {
            1nat
        } else {
            0
        }
    }
}

/// The hub counts for each topic the sessions that are subscribed to it.
pub open spec fn counts_match(hub: HubView, sessions: Seq<SessionView>) -> bool {
    forall|t: Seq<char>| #[trigger] hub.count(t) == holders(sessions, t)
}

proof fn lemma_holders_update(sessions: Seq<SessionView>, i: int, s: SessionView, t: Seq<char>)
    requires
        0 <= i < sessions.len(),
    ensures
        holders(sessions.update(i, s), t) == holders(sessions, t) - (
        if sessions[i].subscribed.contains(t) {
            1int
        } else {
            0
        }) + (if s.subscribed.contains(t) {
            1int
        } else {
            0
        }),
    decreases sessions.len(),
{
    let changed = sessions.update(i, s);
    if i == sessions.len() - 1 {
        assert(changed.drop_last() =~= sessions.drop_last());
    } else {
        lemma_holders_update(sessions.drop_last(), i, s, t);
        assert(changed.drop_last() =~= sessions.drop_last().update(i, s));
        assert(changed.last() == sessions.last());
    }
}

proof fn lemma_holders_remove(sessions: Seq<SessionView>, i: int, t: Seq<char>)
    requires
        0 <= i < sessions.len(),
    ensures
        holders(sessions.remove(i), t) == holders(sessions, t) - (
        if sessions[i].subscribed.contains(t) {
            1int
        } else {
            0
        }),
    decreases sessions.len(),
{
    let fewer = sessions.remove(i);
    if i == sessions.len() - 1 {
        assert(fewer =~= sessions.drop_last());
    } else {
        lemma_holders_remove(sessions.drop_last(), i, t);
        assert(fewer.drop_last() =~= sessions.drop_last().remove(i));
        assert(fewer.last() == sessions.last());
    }
}

proof fn lemma_holder_counts(sessions: Seq<SessionView>, i: int, t: Seq<char>)
    requires
        0 <= i < sessions.len(),
        sessions[i].subscribed.contains(t),
    ensures
        holders(sessions, t) > 0,
    decreases sessions.len(),
{
    if i < sessions.len() - 1 {
        lemma_holder_counts(sessions.drop_last(), i, t);
    }
}

proof fn lemma_leaves_counts(hub: HubView, gone: Set<Seq<char>>, t: Seq<char>)
    requires
        gone.contains(t) ==> hub.count(t) > 0,
    ensures
        leaves(hub, gone).count(t) == hub.count(t) - (if gone.contains(t) {
            1int
        } else {
            0
        }),
{
}

/// A session that begins changes no count.
pub proof fn law_new_session_counts_nothing(hub: HubView, sessions: Seq<SessionView>)
    requires
        counts_match(hub, sessions),
    ensures
        counts_match(hub, sessions.push(SessionView::fresh())),
{
    let more = sessions.push(SessionView::fresh());
    assert(more.drop_last() =~= sessions);
    assert forall|t: Seq<char>| #[trigger] hub.count(t) == holders(more, t) by {
        assert(hub.count(t) == holders(sessions, t));
    }
}

/// Whatever happens to a session, the hub goes on counting for each topic the
/// sessions that are subscribed to it.
pub proof fn law_steps_keep_counts(
    sessions: Seq<SessionView>,
    i: int,
    event: EventView,
    keys: Set<Seq<char>>,
    hub: HubView,
)
    requires
        0 <= i < sessions.len(),
        sessions[i].wf(),
        sessions[i].phase.takes(event),
        hub.has_room(),
        counts_match(hub, sessions),
    ensures
        counts_match(
            session_step(sessions[i], event, keys, hub).hub,
            sessions.update(i, session_step(sessions[i], event, keys, hub).session),
        ),
{
    let s = sessions[i];
    let step = session_step(s, event, keys, hub);
    let after = sessions.update(i, step.session);
    assert forall|t: Seq<char>| #[trigger] step.hub.count(t) == holders(after, t) by {
        assert(hub.count(t) == holders(sessions, t));
        lemma_holders_update(sessions, i, step.session, t);
        if s.subscribed.contains(t) {
            lemma_holder_counts(sessions, i, t);
        }
        match event {
            EventView::Packet(InView::Unsubscribe(_, topics)) => {
                if s.phase is Ready {
                    let gone = s.subscribed.intersect(crate::session::text_set(topics));
                    lemma_leaves_counts(hub, gone, t);
                }
            },
            EventView::Done(Ok(_)) => {
                if let PhaseView::Subscribing(pkid, filters, granted_keys, at) = s.phase {
                    let topic = filters[at as int].0;
                    assert(hub.counts.contains_key(topic) ==> hub.counts[topic] < usize::MAX);
                    assert(joins(hub, s.subscribed, topic).taken(topic).count(t) == joins(
                        hub,
                        s.subscribed,
                        topic,
                    ).count(t));
                }
            },
            _ => {},
        }
    }
}

/// A session that ends is counted nowhere any more, however it ended.
pub proof fn law_close_keeps_counts(sessions: Seq<SessionView>, i: int, hub: HubView)
    requires
        0 <= i < sessions.len(),
        counts_match(hub, sessions),
    ensures
        counts_match(leaves(hub, sessions[i].subscribed), sessions.remove(i)),
{
    let left = leaves(hub, sessions[i].subscribed);
    assert forall|t: Seq<char>| #[trigger] left.count(t) == holders(sessions.remove(i), t) by {
        assert(hub.count(t) == holders(sessions, t));
        lemma_holders_remove(sessions, i, t);
        if sessions[i].subscribed.contains(t) {
            lemma_holder_counts(sessions, i, t);
        }
        lemma_leaves_counts(hub, sessions[i].subscribed, t);
    }
}

/// When the last session has ended, nobody counts as subscribed to anything.
pub proof fn law_no_session_no_count(hub: HubView, topic: Seq<char>)
    requires
        counts_match(hub, Seq::empty()),
    ensures
        hub.count(topic) == 0,
{
    assert(hub.count(topic) == holders(Seq::empty(), topic));
}

proof fn lemma_holders_bounded(sessions: Seq<SessionView>, t: Seq<char>)
    ensures
        holders(sessions, t) <= sessions.len(),
    decreases sessions.len(),
{
    if sessions.len() > 0 {
        lemma_holders_bounded(sessions.drop_last(), t);
    }
}

/// As long as the sessions can be counted, one more can subscribe to any topic.
pub proof fn law_countable_sessions_leave_room(hub: HubView, sessions: Seq<SessionView>)
    requires
        counts_match(hub, sessions),
        sessions.len() < usize::MAX,
    ensures
        hub.has_room(),
{
    assert forall|t: Seq<char>| hub.counts.contains_key(t) implies #[trigger] hub.counts[t]
        < usize::MAX by {
        assert(hub.count(t) == holders(sessions, t));
        lemma_holders_bounded(sessions, t);
    }
}

// ---- what a client may do ----

proof fn lemma_next_granted(filters: Seq<(Seq<char>, u8)>, keys: Set<Seq<char>>, at: nat)
    ensures
        next_granted(filters, keys, at) < filters.len() ==> granted(
            filters[next_granted(filters, keys, at) as int].0,
            keys,
        ),
    decreases filters.len() - at,
{
    if at < filters.len() && !granted(filters[at as int].0, keys) {
        lemma_next_granted(filters, keys, at + 1);
    }
}

/// The router is asked to subscribe to configured keys only, and to publish to
/// them only.
pub proof fn law_router_is_asked_for_configured_keys(
    session: SessionView,
    p: InView,
    keys: Set<Seq<char>>,
    hub: HubView,
)
    ensures
        packet_step(session, p, keys, hub).next matches NextView::Subscribe(t) ==> keys.contains(t),
        packet_step(session, p, keys, hub).next matches NextView::Publish(t, _) ==> keys.contains(t),
{
    if let InView::Subscribe(_, filters) = p {
        lemma_next_granted(filters, keys, 0);
    }
}

/// A client that publishes to anything but a configured key is disconnected,
/// and nothing is published.
pub proof fn law_stray_publish_ends_session(
    session: SessionView,
    qos: u8,
    topic: Seq<char>,
    pkid: u16,
    payload: Seq<u8>,
    keys: Set<Seq<char>>,
    hub: HubView,
)
    requires
        !keys.contains(topic),
    ensures
        packet_step(session, InView::Publish(qos, topic, pkid, payload), keys, hub).next
            == NextView::End(Ok(())),
        packet_step(session, InView::Publish(qos, topic, pkid, payload), keys, hub).hub == hub,
{
}

/// Subscriptions are filled one by one: as long as the router is asked for
/// one, it is one that was granted when the packet came.
pub proof fn law_steps_keep_sessions_well_formed(
    session: SessionView,
    event: EventView,
    keys: Set<Seq<char>>,
    hub: HubView,
)
    requires
        session.wf(),
        session.phase.takes(event),
    ensures
        session_step(session, event, keys, hub).session.wf(),
{
    match event {
        EventView::Packet(InView::Subscribe(_, filters)) => {
            lemma_next_granted(filters, keys, 0);
        },
        EventView::Done(Ok(_)) => {
            if let PhaseView::Subscribing(pkid, filters, granted_keys, at) = session.phase {
                lemma_next_granted(filters, granted_keys, at + 1);
            }
        },
        _ => {},
    }
}

// ---- messages that waited ----

/// A new subscriber is sent what waits for the topic, in order, and it waits
/// no more.
pub proof fn law_subscriber_gets_what_waits(
    session: SessionView,
    hub: HubView,
    pkid: u16,
    filters: Seq<(Seq<char>, u8)>,
    keys: Set<Seq<char>>,
    at: nat,
)
    requires
        session.phase == PhaseView::Subscribing(pkid, filters, keys, at),
        at < filters.len(),
    ensures
        ({
            let topic = filters[at as int].0;
            let step = done_step(session, Ok(()), hub);
            let sent = deliveries(topic, hub.queue(topic), session.pkid);
            &&& step.writes.len() >= sent.len()
            &&& step.writes.take(sent.len() as int) == sent
            &&& step.hub.queue(topic) == Seq::<Seq<u8>>::empty()
        }),
{
    let topic = filters[at as int].0;
    let step = done_step(session, Ok(()), hub);
    let sent = deliveries(topic, hub.queue(topic), session.pkid);
    assert(step.writes.take(sent.len() as int) =~= sent);
}

/// Messages published while nobody was subscribed reach the next subscriber in
/// order; of more than the limit, the last.
pub proof fn law_missed_messages_are_delivered(
    session: SessionView,
    hub: HubView,
    pkid: u16,
    filters: Seq<(Seq<char>, u8)>,
    keys: Set<Seq<char>>,
    at: nat,
    messages: Seq<Seq<u8>>,
    limit: nat,
)
    requires
        session.phase == PhaseView::Subscribing(pkid, filters, keys, at),
        at < filters.len(),
        limit > 0,
        hub.count(filters[at as int].0) == 0,
        hub.queue(filters[at as int].0).len() == 0,
    ensures
        ({
            let topic = filters[at as int].0;
            let missed = last_n(messages, limit);
            let step = done_step(session, Ok(()), all_published(hub, topic, messages, limit));
            &&& step.writes.len() >= missed.len()
            &&& step.writes.take(missed.len() as int) == deliveries(topic, missed, session.pkid)
        }),
{
    let topic = filters[at as int].0;
    law_waiting_messages_keep_order(hub, topic, messages, limit);
    assert(hub.queue(topic) + messages =~= messages);
    law_subscriber_gets_what_waits(
        session,
        all_published(hub, topic, messages, limit),
        pkid,
        filters,
        keys,
        at,
    );
}

} // verus!
