//! What a session does about each thing that can happen, in terms of what goes
//! in and what comes out.

use crate::mqtt::HubView;
use crate::packet::{Control, InView, OutView, Outbound};
use crate::session::{
    all_wf, leaves, out_views, outcome_view, session_step, Event, EventView, Next, NextView, PhaseView, SessionView,
    StepView,
};
use crate::text::utf8_lossy;
use vstd::prelude::*;

verus! {

broadcast use vstd::string::group_string_axioms;

// ---- packets of a connected client ----

/// A message that a client publishes to a configured key goes to the router as
/// it came, topic and payload, whatever its quality of service; nothing else
/// changes.
pub proof fn law_publication_reaches_the_router(
    session: SessionView,
    qos: u8,
    topic: Seq<char>,
    pkid: u16,
    payload: Seq<u8>,
    keys: Set<Seq<char>>,
    hub: HubView,
)
    requires
        !(session.phase is Greeting),
        topic.len() > 0,
        keys.contains(topic),
    ensures
        ({
            let step = session_step(
                session,
                EventView::Packet(InView::Publish(qos, topic, pkid, payload)),
                keys,
                hub,
            );
            &&& step.next == NextView::Publish(topic, payload)
            &&& step.writes == Seq::<OutView>::empty()
            &&& step.hub == hub
            &&& step.session.keep_alive == session.keep_alive
            &&& step.session.pkid == session.pkid
            &&& step.session.subscribed == session.subscribed
        }),
{
}

/// A publication is acknowledged once the router has it, with its own packet
/// id, where it was sent above quality of service 0, and not otherwise.
pub proof fn law_publications_are_acknowledged(
    session: SessionView,
    qos: u8,
    topic: Seq<char>,
    pkid: u16,
    payload: Seq<u8>,
    keys: Set<Seq<char>>,
    later: Set<Seq<char>>,
    hub: HubView,
)
    requires
        session.phase is Ready,
        topic.len() > 0,
        keys.contains(topic),
    ensures
        ({
            let asked = session_step(
                session,
                EventView::Packet(InView::Publish(qos, topic, pkid, payload)),
                keys,
                hub,
            );
            let done = session_step(asked.session, EventView::Done(Ok(())), later, asked.hub);
            &&& done.session == session
            &&& done.hub == hub
            &&& done.next == NextView::Wait
            &&& done.writes == if qos == 0 {
                Seq::<OutView>::empty()
            } else {
                seq![OutView::Control(Control::PubAck(pkid))]
            }
        }),
{
}

/// A publication that the router refuses ends the session with the reason.
pub proof fn law_refused_publications_end_the_session(
    session: SessionView,
    qos: u8,
    topic: Seq<char>,
    pkid: u16,
    payload: Seq<u8>,
    keys: Set<Seq<char>>,
    hub: HubView,
    e: Seq<char>,
)
    requires
        session.phase is Ready,
        topic.len() > 0,
        keys.contains(topic),
    ensures
        ({
            let asked = session_step(
                session,
                EventView::Packet(InView::Publish(qos, topic, pkid, payload)),
                keys,
                hub,
            );
            let done = session_step(asked.session, EventView::Done(Err(e)), keys, asked.hub);
            &&& done.next == NextView::End(Err("publish: "@ + e))
            &&& done.writes == Seq::<OutView>::empty()
            &&& done.hub == hub
            &&& done.session.phase is Ended
            &&& done.session.subscribed == session.subscribed
        }),
{
}

/// A client that publishes to an empty topic, or to one that is not a
/// configured key, is disconnected; nothing is published, written or changed.
pub proof fn law_other_publications_disconnect(
    session: SessionView,
    qos: u8,
    topic: Seq<char>,
    pkid: u16,
    payload: Seq<u8>,
    keys: Set<Seq<char>>,
    hub: HubView,
)
    requires
        !(session.phase is Greeting),
        topic.len() == 0 || !keys.contains(topic),
    ensures
        ({
            let step = session_step(
                session,
                EventView::Packet(InView::Publish(qos, topic, pkid, payload)),
                keys,
                hub,
            );
            &&& step.next == NextView::End(Ok(()))
            &&& step.writes == Seq::<OutView>::empty()
            &&& step.hub == hub
            &&& step.session.phase is Ended
            &&& step.session.subscribed == session.subscribed
        }),
{
}

/// A step that only writes: the session waits on, and nothing else changes.
pub open spec fn only_writes(session: SessionView, hub: HubView, step: StepView) -> bool {
    &&& step.next == NextView::Wait
    &&& step.hub == hub
    &&& step.session.phase is Ready
    &&& step.session.keep_alive == session.keep_alive
    &&& step.session.pkid == session.pkid
    &&& step.session.subscribed == session.subscribed
}

/// A ping is answered, the release of a packet id is completed with that id,
/// and a packet that asks for nothing gets nothing.
pub proof fn law_pings_and_releases_are_answered(
    session: SessionView,
    pkid: u16,
    keys: Set<Seq<char>>,
    hub: HubView,
)
    requires
        !(session.phase is Greeting),
    ensures
        ({
            let ping = session_step(session, EventView::Packet(InView::PingReq), keys, hub);
            let release = session_step(session, EventView::Packet(InView::PubRel(pkid)), keys, hub);
            let other = session_step(session, EventView::Packet(InView::Other), keys, hub);
            &&& only_writes(session, hub, ping)
            &&& ping.writes == seq![OutView::Control(Control::PingResp)]
            &&& only_writes(session, hub, release)
            &&& release.writes == seq![OutView::Control(Control::PubComp(pkid))]
            &&& only_writes(session, hub, other)
            &&& other.writes == Seq::<OutView>::empty()
        }),
{
}

/// A step that ends the session with the outcome given, and changes nothing
/// else.
pub open spec fn only_ends(
    session: SessionView,
    hub: HubView,
    step: StepView,
    outcome: Result<(), Seq<char>>,
) -> bool {
    &&& step.next == NextView::End(outcome)
    &&& step.hub == hub
    &&& step.session.phase is Ended
    &&& step.session.keep_alive == session.keep_alive
    &&& step.session.pkid == session.pkid
    &&& step.session.subscribed == session.subscribed
}

/// A client that says goodbye ends well; one that connects twice, or whose
/// connection or router fails, ends with the reason.
pub proof fn law_sessions_end_with_their_reason(
    session: SessionView,
    v4: bool,
    keep_alive: u16,
    id: Seq<char>,
    e: Seq<char>,
    keys: Set<Seq<char>>,
    hub: HubView,
)
    requires
        session.phase is Ready,
    ensures
        ({
            let bye = session_step(session, EventView::Packet(InView::Disconnect), keys, hub);
            let twice = session_step(
                session,
                EventView::Packet(InView::Connect(v4, keep_alive, id)),
                keys,
                hub,
            );
            let silence = session_step(session, EventView::Silence, keys, hub);
            let unread = session_step(session, EventView::ReadFailed(e), keys, hub);
            let closed = session_step(session, EventView::RouterClosed, keys, hub);
            let failed = session_step(session, EventView::RouterFailed(e), keys, hub);
            &&& only_ends(session, hub, bye, Ok(()))
            &&& bye.writes == Seq::<OutView>::empty()
            &&& only_ends(session, hub, twice, Err("duplicate CONNECT"@))
            &&& twice.writes == Seq::<OutView>::empty()
            &&& only_ends(session, hub, silence, Err("read timeout (keepalive)"@))
            &&& silence.writes == Seq::<OutView>::empty()
            &&& only_ends(session, hub, unread, Err(e))
            &&& unread.writes == Seq::<OutView>::empty()
            &&& only_ends(session, hub, closed, Err("router closed link"@))
            &&& closed.writes == Seq::<OutView>::empty()
            &&& only_ends(session, hub, failed, Err("router: "@ + e))
            &&& failed.writes == Seq::<OutView>::empty()
        }),
{
}

// ---- connecting ----

/// A client that speaks MQTT 3.1.1 is registered under the id it gives, and
/// accepted once that is done. Its keep-alive is the one it asks for, but an
/// hour where it asks for one, five or ten minutes.
pub proof fn law_clients_are_registered_and_accepted(
    session: SessionView,
    keep_alive: u16,
    id: Seq<char>,
    keys: Set<Seq<char>>,
    hub: HubView,
)
    requires
        session.phase is Greeting,
    ensures
        ({
            let asked = session_step(
                session,
                EventView::Packet(InView::Connect(true, keep_alive, id)),
                keys,
                hub,
            );
            let done = session_step(asked.session, EventView::Done(Ok(())), keys, asked.hub);
            &&& asked.next == NextView::Register(id)
            &&& asked.writes == Seq::<OutView>::empty()
            &&& asked.hub == hub
            &&& done.next == NextView::Wait
            &&& done.writes == seq![OutView::Control(Control::Accepted)]
            &&& done.hub == hub
            &&& done.session.phase is Ready
            &&& done.session.pkid == session.pkid
            &&& done.session.subscribed == session.subscribed
            &&& done.session.keep_alive == if keep_alive == 60 || keep_alive == 300 || keep_alive
                == 600 {
                3600u16
            } else {
                keep_alive
            }
        }),
{
}

/// A client of another version is told so and goes; one that does not begin
/// with CONNECT goes without a word; so does one that cannot be registered.
pub proof fn law_other_beginnings_end_the_session(
    session: SessionView,
    p: InView,
    keep_alive: u16,
    id: Seq<char>,
    e: Seq<char>,
    keys: Set<Seq<char>>,
    hub: HubView,
)
    requires
        session.phase is Greeting,
        !(p is Connect),
    ensures
        ({
            let version = session_step(
                session,
                EventView::Packet(InView::Connect(false, keep_alive, id)),
                keys,
                hub,
            );
            let other = session_step(session, EventView::Packet(p), keys, hub);
            let asked = session_step(
                session,
                EventView::Packet(InView::Connect(true, keep_alive, id)),
                keys,
                hub,
            );
            let failed = session_step(asked.session, EventView::Done(Err(e)), keys, hub);
            let unread = session_step(session, EventView::ReadFailed(e), keys, hub);
            &&& only_ends(session, hub, version, Err("unsupported protocol version"@))
            &&& version.writes == seq![OutView::Control(Control::Refused)]
            &&& only_ends(session, hub, other, Err("first packet must be CONNECT"@))
            &&& other.writes == Seq::<OutView>::empty()
            &&& only_ends(session, hub, unread, Err(e))
            &&& unread.writes == Seq::<OutView>::empty()
            &&& only_ends(asked.session, hub, failed, Err("broker link: "@ + e))
            &&& failed.writes == Seq::<OutView>::empty()
        }),
{
}

// ---- subscribing ----

proof fn lemma_first_granted(
    session: SessionView,
    hub: HubView,
    writes: Seq<OutView>,
    pkid: u16,
    filters: Seq<(Seq<char>, u8)>,
    keys: Set<Seq<char>>,
    at: nat,
)
    requires
        at <= filters.len(),
    ensures
        goes_on(
            session,
            hub,
            writes,
            pkid,
            filters,
            keys,
            at,
            crate::session::resumes(session, hub, writes, pkid, filters, keys, at),
        ),
    decreases filters.len() - at,
{
    let step = crate::session::resumes(session, hub, writes, pkid, filters, keys, at);
    if at < filters.len() && !(filters[at as int].0.len() > 0 && keys.contains(
        filters[at as int].0,
    )) {
        lemma_first_granted(session, hub, writes, pkid, filters, keys, at + 1);
    }
    if step.next is Wait {
        assert(step.writes.drop_last() =~= writes);
    }
}

/// How a subscription goes on from the filter `at`: filters that are empty or
/// no configured key are passed over; the router is asked for the first other
/// one; and where there is none, the client gets a code for each filter, the
/// quality of service it asked for or 128.
pub open spec fn goes_on(
    session: SessionView,
    hub: HubView,
    writes: Seq<OutView>,
    pkid: u16,
    filters: Seq<(Seq<char>, u8)>,
    keys: Set<Seq<char>>,
    at: nat,
    step: StepView,
) -> bool {
    &&& step.hub == hub
    &&& step.session.keep_alive == session.keep_alive
    &&& step.session.pkid == session.pkid
    &&& step.session.subscribed == session.subscribed
    &&& match step.next {
        NextView::Subscribe(topic) => {
            &&& step.writes == writes
            &&& topic.len() > 0
            &&& keys.contains(topic)
            &&& step.session.phase is Subscribing
            &&& step.session.phase->Subscribing_0 == pkid
            &&& step.session.phase->Subscribing_1 == filters
            &&& step.session.phase->Subscribing_2 == keys
            &&& at <= step.session.phase->Subscribing_3 < filters.len()
            &&& filters[step.session.phase->Subscribing_3 as int].0 == topic
            &&& forall|i: int|
                at <= i < step.session.phase->Subscribing_3 ==> (#[trigger] filters[i]).0.len() == 0
                    || !keys.contains(filters[i].0)
        },
        NextView::Wait => {
            &&& step.session.phase is Ready
            &&& forall|i: int|
                at <= i < filters.len() ==> (#[trigger] filters[i]).0.len() == 0 || !keys.contains(
                    filters[i].0,
                )
            &&& step.writes.len() == writes.len() + 1
            &&& step.writes.drop_last() == writes
            &&& step.writes.last() is SubAck
            &&& step.writes.last()->SubAck_0 == pkid
            &&& step.writes.last()->SubAck_1.len() == filters.len()
            &&& forall|i: int|
                0 <= i < filters.len() ==> (#[trigger] step.writes.last()->SubAck_1[i]) == if filters[i].0.len()
                    > 0 && keys.contains(filters[i].0) {
                    filters[i].1
                } else {
                    128u8
                }
        },
        _ => false,
    }
}

/// A SUBSCRIBE asks the router for the first filter that is a configured key,
/// and is answered at once where there is none.
pub proof fn law_subscriptions_begin_at_the_first_key(
    session: SessionView,
    pkid: u16,
    filters: Seq<(Seq<char>, u8)>,
    keys: Set<Seq<char>>,
    hub: HubView,
)
    requires
        session.phase is Ready,
    ensures
        goes_on(
            session,
            hub,
            Seq::empty(),
            pkid,
            filters,
            keys,
            0,
            session_step(session, EventView::Packet(InView::Subscribe(pkid, filters)), keys, hub),
        ),
{
    lemma_first_granted(session, hub, Seq::empty(), pkid, filters, keys, 0);
}

/// Packets that deliver messages to a topic in order, each with the packet id
/// after the one before it, where 1 follows 65535.
pub open spec fn delivers(
    topic: Seq<char>,
    messages: Seq<Seq<u8>>,
    pkid: u16,
    packets: Seq<OutView>,
) -> bool {
    &&& packets.len() == messages.len()
    &&& forall|i: int|
        0 <= i < packets.len() ==> {
            &&& (#[trigger] packets[i]) is Deliver
            &&& packets[i]->Deliver_0 == topic
            &&& packets[i]->Deliver_2 == messages[i]
            &&& packets[i]->Deliver_1 as int == {
                let before = if i == 0 {
                    pkid as int
                } else {
                    packets[i - 1]->Deliver_1 as int
                };
                if before == 65535 {
                    1
                } else {
                    before + 1
                }
            }
        }
}

proof fn lemma_deliveries(topic: Seq<char>, messages: Seq<Seq<u8>>, pkid: u16)
    ensures
        delivers(topic, messages, pkid, crate::session::deliveries(topic, messages, pkid)),
        crate::session::pkid_after(pkid, messages.len()) == if messages.len() == 0 {
            pkid
        } else {
            crate::session::deliveries(topic, messages, pkid).last()->Deliver_1
        },
{
    let packets = crate::session::deliveries(topic, messages, pkid);
    assert forall|i: int| 0 <= i < packets.len() implies {
        &&& (#[trigger] packets[i]) is Deliver
        &&& packets[i]->Deliver_1 as int == {
            let before = if i == 0 {
                pkid as int
            } else {
                packets[i - 1]->Deliver_1 as int
            };
            if before == 65535 {
                1
            } else {
                before + 1
            }
        }
    } by {
        reveal_with_fuel(crate::session::pkid_after, 2);
        if i > 0 {
            assert(packets[i - 1]->Deliver_1 == crate::session::pkid_after(pkid, i as nat));
        }
    }
}

/// Once the router has a subscription, the client gets what waited for the
/// topic, in order, and counts as one more subscriber unless it did already;
/// then the subscription goes on with the next filter.
pub proof fn law_subscribed_topics_count_and_deliver(
    session: SessionView,
    pkid: u16,
    filters: Seq<(Seq<char>, u8)>,
    keys: Set<Seq<char>>,
    at: nat,
    later: Set<Seq<char>>,
    hub: HubView,
)
    requires
        session.phase == PhaseView::Subscribing(pkid, filters, keys, at),
        at < filters.len(),
        hub.has_room(),
    ensures
        ({
            let topic = filters[at as int].0;
            let waiting = hub.queue(topic);
            let step = session_step(session, EventView::Done(Ok(())), later, hub);
            let sent = step.writes.take(waiting.len() as int);
            &&& step.writes.len() >= waiting.len()
            &&& delivers(topic, waiting, session.pkid, sent)
            &&& step.session.subscribed == session.subscribed.insert(topic)
            &&& step.session.pkid == if waiting.len() == 0 {
                session.pkid
            } else {
                sent.last()->Deliver_1
            }
            &&& forall|t: Seq<char>|
                #![trigger step.hub.count(t)]
                #![trigger step.hub.queue(t)]
                {
                    &&& step.hub.count(t) == hub.count(t) + if t == topic
                        && !session.subscribed.contains(topic) {
                        1nat
                    } else {
                        0
                    }
                    &&& step.hub.queue(t) == if t == topic {
                        Seq::<Seq<u8>>::empty()
                    } else {
                        hub.queue(t)
                    }
                }
            &&& step.hub.connections == hub.connections
            &&& goes_on(
                SessionView {
                    pkid: step.session.pkid,
                    subscribed: step.session.subscribed,
                    ..session
                },
                step.hub,
                sent,
                pkid,
                filters,
                keys,
                at + 1,
                step,
            )
        }),
{
    let topic = filters[at as int].0;
    let waiting = hub.queue(topic);
    let step = session_step(session, EventView::Done(Ok(())), later, hub);
    let sent = crate::session::deliveries(topic, waiting, session.pkid);
    lemma_deliveries(topic, waiting, session.pkid);
    let next = SessionView {
        pkid: crate::session::pkid_after(session.pkid, waiting.len()),
        subscribed: session.subscribed.insert(topic),
        ..session
    };
    let after = crate::session::joins(hub, session.subscribed, topic).taken(topic);
    lemma_first_granted(next, after, sent, pkid, filters, keys, at + 1);
    assert(step.writes.take(waiting.len() as int) =~= sent);
    assert(hub.counts.contains_key(topic) ==> hub.counts[topic] < usize::MAX);
}

/// A subscription that the router refuses ends the session with the reason,
/// and nobody counts as subscribed for it.
pub proof fn law_refused_subscriptions_end_the_session(
    session: SessionView,
    pkid: u16,
    filters: Seq<(Seq<char>, u8)>,
    keys: Set<Seq<char>>,
    at: nat,
    hub: HubView,
    e: Seq<char>,
)
    requires
        session.phase == PhaseView::Subscribing(pkid, filters, keys, at),
    ensures
        ({
            let step = session_step(session, EventView::Done(Err(e)), keys, hub);
            &&& only_ends(session, hub, step, Err("subscribe: "@ + e))
            &&& step.writes == Seq::<OutView>::empty()
        }),
{
}

/// An UNSUBSCRIBE goes to the router as it came; the session holds its topics
/// no more, and each that it held counts one less. It is acknowledged with its
/// packet id, whatever the router says.
pub proof fn law_unsubscribed_topics_count_no_more(
    session: SessionView,
    pkid: u16,
    topics: Seq<Seq<char>>,
    keys: Set<Seq<char>>,
    hub: HubView,
    outcome: Result<(), Seq<char>>,
)
    requires
        session.phase is Ready,
        forall|t: Seq<char>| session.subscribed.contains(t) ==> #[trigger] hub.count(t) > 0,
    ensures
        ({
            let asked = session_step(
                session,
                EventView::Packet(InView::Unsubscribe(pkid, topics)),
                keys,
                hub,
            );
            let done = session_step(asked.session, EventView::Done(outcome), keys, asked.hub);
            &&& asked.next == NextView::Unsubscribe(topics)
            &&& asked.writes == Seq::<OutView>::empty()
            &&& asked.hub.queues == hub.queues
            &&& asked.hub.connections == hub.connections
            &&& forall|t: Seq<char>| #[trigger]
                asked.session.subscribed.contains(t) <==> session.subscribed.contains(t)
                    && !topics.contains(t)
            &&& forall|t: Seq<char>| #[trigger]
                asked.hub.count(t) == hub.count(t) - if session.subscribed.contains(t)
                    && topics.contains(t) {
                    1int
                } else {
                    0
                }
            &&& only_writes(asked.session, asked.hub, done)
            &&& done.writes == seq![OutView::Control(Control::UnsubAck(pkid))]
        }),
{
}

/// A session that is over counts for none of its topics; nothing else changes.
pub proof fn law_closing_gives_topics_back(session: SessionView, hub: HubView)
    requires
        forall|t: Seq<char>| session.subscribed.contains(t) ==> #[trigger] hub.count(t) > 0,
    ensures
        forall|t: Seq<char>| #[trigger]
            leaves(hub, session.subscribed).count(t) == hub.count(t)
                - if session.subscribed.contains(t) {
                1int
            } else {
                0
            },
        leaves(hub, session.subscribed).queues == hub.queues,
        leaves(hub, session.subscribed).connections == hub.connections,
{
}

// ---- messages of the router ----

/// A message of the router is delivered as it is, with the next packet id;
/// nothing else changes.
pub proof fn law_forwarded_messages_are_delivered(
    session: SessionView,
    topic: Seq<u8>,
    payload: Seq<u8>,
    keys: Set<Seq<char>>,
    hub: HubView,
)
    ensures
        ({
            let step = session_step(session, EventView::Forward(topic, payload), keys, hub);
            &&& step.next == NextView::Wait
            &&& step.hub == hub
            &&& delivers(utf8_lossy(topic), seq![payload], session.pkid, step.writes)
            &&& step.session.pkid == step.writes[0]->Deliver_1
            &&& step.session.phase is Ready
            &&& step.session.keep_alive == session.keep_alive
            &&& step.session.subscribed == session.subscribed
        }),
{
    lemma_deliveries(utf8_lossy(topic), seq![payload], session.pkid);
    reveal_with_fuel(crate::session::pkid_after, 2);
}

// ---- when what can happen ----

/// A client's packet counts while the session greets it or waits; what the
/// router does counts once the session waits, and an outcome where one is
/// awaited. A subscription asks for a quality of service up to 2.
pub proof fn law_sessions_take_what_can_happen(p: InView, topic: Seq<u8>, payload: Seq<u8>, e: Seq<char>)
    ensures
        PhaseView::Greeting.takes(EventView::Packet(p)) == PhaseView::Ready.takes(
            EventView::Packet(p),
        ),
        PhaseView::Ready.takes(EventView::Packet(p)) <==> (p matches InView::Subscribe(_, filters)
            ==> forall|i: int| 0 <= i < filters.len() ==> (#[trigger] filters[i]).1 <= 2),
        PhaseView::Ready.takes(EventView::Forward(topic, payload)),
        PhaseView::Ready.takes(EventView::Silence),
        PhaseView::Ready.takes(EventView::ReadFailed(e)),
        PhaseView::Greeting.takes(EventView::ReadFailed(e)),
        PhaseView::Ready.takes(EventView::RouterClosed),
        PhaseView::Ready.takes(EventView::RouterFailed(e)),
        PhaseView::Registering.takes(EventView::Done(Ok(()))),
        PhaseView::Registering.takes(EventView::Done(Err(e))),
        PhaseView::Unsubscribing(0).takes(EventView::Done(Err(e))),
        PhaseView::Publishing(None).takes(EventView::Done(Err(e))),
        forall|phase: PhaseView|
            #![trigger phase.takes(EventView::Done(Ok(())))]
            phase.takes(EventView::Done(Ok(()))) <==> phase is Registering || phase is Subscribing
                || phase is Unsubscribing || phase is Publishing,
        SessionView::fresh().phase is Greeting,
        SessionView::fresh().pkid == 0,
        SessionView::fresh().subscribed == Set::<Seq<char>>::empty(),
        SessionView::fresh().wf(),
        !PhaseView::Ready.takes(EventView::Done(Ok(()))),
        !PhaseView::Ended.takes(EventView::Packet(p)),
{
}

// ---- what is seen of a session from outside ----

/// What is to be done is seen as it is.
pub proof fn law_next_is_seen_as_it_is(next: Next)
    ensures
        match next {
            Next::Wait => next@ == NextView::Wait,
            Next::Register(id) => next@ == NextView::Register(id@),
            Next::Subscribe(topic) => next@ == NextView::Subscribe(topic@),
            Next::Unsubscribe(topics) => {
                &&& next@ is Unsubscribe
                &&& next@->Unsubscribe_0.len() == topics@.len()
                &&& forall|i: int|
                    0 <= i < topics@.len() ==> (#[trigger] next@->Unsubscribe_0[i]) == topics@[i]@
            },
            Next::Publish(topic, payload) => next@ == NextView::Publish(topic@, payload@),
            Next::End(Ok(_)) => next@ == NextView::End(Ok(())),
            Next::End(Err(e)) => next@ == NextView::End(Err(e@)),
        },
{
}

/// What happens is seen as it is.
pub proof fn law_events_are_seen_as_they_are(event: Event)
    ensures
        match event {
            Event::Packet(p) => event@ == EventView::Packet(p@),
            Event::Done(Ok(_)) => event@ == EventView::Done(Ok(())),
            Event::Done(Err(e)) => event@ == EventView::Done(Err(e@)),
            Event::Forward(topic, payload) => event@ == EventView::Forward(topic@, payload@),
            Event::Silence => event@ == EventView::Silence,
            Event::ReadFailed(e) => event@ == EventView::ReadFailed(e@),
            Event::RouterClosed => event@ == EventView::RouterClosed,
            Event::RouterFailed(e) => event@ == EventView::RouterFailed(e@),
        },
{
}

/// The packets of a step are seen as they are, in order.
pub proof fn law_writes_are_seen_as_they_are(list: Seq<Outbound>, e: String)
    ensures
        out_views(list).len() == list.len(),
        forall|i: int| 0 <= i < list.len() ==> (#[trigger] out_views(list)[i]) == list[i]@,
        all_wf(out_views(list)) <==> forall|i: int| 0 <= i < list.len() ==> (#[trigger] list[i])@.wf(),
        outcome_view(Ok(())) == Ok::<(), Seq<char>>(()),
        outcome_view(Err(e)) == Err::<(), Seq<char>>(e@),
{
    if all_wf(out_views(list)) {
        assert forall|i: int| 0 <= i < list.len() implies (#[trigger] list[i])@.wf() by {
            assert(out_views(list)[i].wf());
        }
    }
}

} // verus!
