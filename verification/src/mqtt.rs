//! The hub that MQTT sessions share: who is subscribed to what, and which
//! messages wait for a subscriber.

use crate::push_log::last_n;
use crate::topic_map::TopicMap;
use rumqttd::local::LinkTx;
use std::collections::VecDeque;
use vstd::prelude::*;
use vstd::slice::slice_to_vec;

verus! {

/// `rumqttd::local::LinkTx`, a connection to the router; opaque here.
#[verifier::external_type_specification]
#[verifier::external_body]
pub struct ExLinkTx(LinkTx);

/// The messages that were handed over through a link since it was made, oldest
/// first: the topic and the payload of each, and whether the router was there.
pub uninterp spec fn handed_over(link: LinkTx) -> Seq<(Seq<char>, Seq<u8>, bool)>;

/// What is told of a message that no router was there for.
pub open spec fn is_send_error(e: Seq<char>) -> bool {
    e == "Channel send error"@
}

/// `LinkTx::publish` puts a message with this topic and payload at the end of
/// the link's queue, and then wakes the router, which runs on a thread of its
/// own and empties the queue. Waking fails where the router is gone, with
/// `LinkError::Send`, whose `Display` text is always the same; whether it fails
/// is left open.
#[verifier::external_body]
fn link_publish(link: &mut LinkTx, topic: &str, payload: &[u8]) -> (r: Result<(), String>)
    ensures
        handed_over(*final(link)) == handed_over(*old(link)).push((topic@, payload@, r is Ok)),
        r matches Err(e) ==> is_send_error(e@),
{
    link.publish(topic.to_string(), payload.to_vec()).map(|_| ()).map_err(|e| e.to_string())
}

/// A message that waits for a subscriber.
pub struct OfflineMsg {
    pub payload: Vec<u8>,
}

/// What a list of messages holds.
pub open spec fn payloads(list: Seq<OfflineMsg>) -> Seq<Seq<u8>> {
    Seq::new(list.len(), |i: int| list[i].payload@)
}

/// The hub.
pub struct MqttHub {
    /// How many connections are subscribed to a topic.
    subscriptions: TopicMap<usize>,
    /// The messages that wait, by topic.
    offline: TopicMap<VecDeque<OfflineMsg>>,
    /// How many connections there are.
    pub connections: i64,
}

/// What an `MqttHub` holds.
#[verifier::ext_equal]
pub struct HubView {
    pub counts: Map<Seq<char>, usize>,
    pub queues: Map<Seq<char>, Seq<Seq<u8>>>,
    pub connections: i64,
}

impl View for MqttHub {
    type V = HubView;

    closed spec fn view(&self) -> HubView {
        HubView {
            counts: self.subscriptions@,
            queues: Map::new(
                |t: Seq<char>| self.offline@.contains_key(t),
                |t: Seq<char>| payloads(self.offline@[t]@),
            ),
            connections: self.connections,
        }
    }
}

impl HubView {
    /// How many connections are subscribed to a topic.
    pub open spec fn count(self, topic: Seq<char>) -> nat {
        if self.counts.contains_key(topic) {
            self.counts[topic] as nat
        } else {
            0
        }
    }

    /// The messages that wait for a subscriber of a topic, oldest first.
    pub open spec fn queue(self, topic: Seq<char>) -> Seq<Seq<u8>> {
        if self.queues.contains_key(topic) {
            self.queues[topic]
        } else {
            Seq::empty()
        }
    }

    /// One more connection can subscribe to any topic.
    pub open spec fn has_room(self) -> bool {
        forall|t: Seq<char>| self.counts.contains_key(t) ==> #[trigger] self.counts[t] < usize::MAX
    }

    /// One more connection is subscribed.
    pub open spec fn subscribed(self, topic: Seq<char>) -> HubView {
        HubView { counts: self.counts.insert(topic, (self.count(topic) + 1) as usize), ..self }
    }

    /// One connection less is subscribed.
    pub open spec fn unsubscribed(self, topic: Seq<char>) -> HubView {
        HubView {
            counts: if self.count(topic) <= 1 {
                self.counts.remove(topic)
            } else {
                self.counts.insert(topic, (self.count(topic) - 1) as usize)
            },
            ..self
        }
    }

    /// The messages for a topic are taken out.
    pub open spec fn taken(self, topic: Seq<char>) -> HubView {
        HubView { queues: self.queues.remove(topic), ..self }
    }

    /// A message is published: where messages are kept and nobody is
    /// subscribed, it waits, and the oldest beyond the limit are dropped.
    pub open spec fn published(
        self,
        topic: Seq<char>,
        payload: Seq<u8>,
        enabled: bool,
        limit: nat,
    ) -> HubView {
        if enabled && limit > 0 && self.count(topic) == 0 {
            HubView {
                queues: self.queues.insert(topic, last_n(self.queue(topic).push(payload), limit)),
                ..self
            }
        } else {
            self
        }
    }
}

impl MqttHub {
    /// The hub keeps one count and one queue for a topic.
    pub closed spec fn wf(&self) -> bool {
        self.subscriptions.wf() && self.offline.wf()
    }

    /// A hub without connections.
    pub fn new() -> (r: MqttHub)
        ensures
            r.wf(),
            r@ == (HubView { counts: Map::empty(), queues: Map::empty(), connections: 0 }),
    {
        let r = MqttHub { subscriptions: TopicMap::new(), offline: TopicMap::new(), connections: 0 };
        assert(r@ =~= (HubView { counts: Map::empty(), queues: Map::empty(), connections: 0 }));
        r
    }

    /// Whether one more connection can subscribe to any topic.
    pub fn has_room(&self) -> (r: bool)
        requires
            self.wf(),
        ensures
            r == self@.has_room(),
    {
        assert(self@.counts == self.subscriptions@);
        self.subscriptions.all_below_max()
    }

    /// How many connections are subscribed to a topic.
    pub fn online(&self, topic: &str) -> (r: usize)
        requires
            self.wf(),
        ensures
            r == self@.count(topic@),
    {
        match self.subscriptions.get(topic) {
            Some(n) => *n,
            None => 0,
        }
    }

    /// Keeps a message for later, where that is wanted and nobody is subscribed
    /// to its topic.
    pub fn keep_offline(
        &mut self,
        topic: &str,
        payload: &[u8],
        offline_enabled: bool,
        offline_limit: usize,
    )
        requires
            old(self).wf(),
        ensures
            final(self).wf(),
            final(self)@ == old(self)@.published(
                topic@,
                payload@,
                offline_enabled,
                offline_limit as nat,
            ),
    {
        if !offline_enabled || offline_limit == 0 || self.online(topic) > 0 {
            return;
        }
        let mut queue = match self.offline.remove(topic) {
            Some(q) => q,
            None => VecDeque::new(),
        };
        assert(payloads(queue@) =~= old(self)@.queue(topic@));
        let ghost before = queue@;
        queue.push_back(OfflineMsg { payload: slice_to_vec(payload) });
        let ghost all = queue@;
        assert(payloads(all) =~= payloads(before).push(payload@));
        while queue.len() > offline_limit
            invariant
                queue@.len() <= all.len(),
                queue@ == all.skip(all.len() - queue@.len()),
                all.len() <= offline_limit ==> queue@ == all,
                all.len() > offline_limit ==> queue@.len() >= offline_limit,
            decreases queue@.len(),
        {
            let _ = queue.pop_front();
        }
        assert(payloads(queue@) =~= last_n(payloads(all), offline_limit as nat));
        self.offline.insert(topic, queue);
        assert(self@ =~= old(self)@.published(topic@, payload@, true, offline_limit as nat));
    }

    /// Publishes a message through the router; it is kept for later where that
    /// is wanted and nobody is subscribed to its topic, whether or not the
    /// router takes it.
    pub fn publish(
        &mut self,
        link: &mut LinkTx,
        topic: &str,
        payload: &[u8],
        offline_enabled: bool,
        offline_limit: usize,
    ) -> (r: Result<(), String>)
        requires
            old(self).wf(),
        ensures
            final(self).wf(),
            final(self)@ == old(self)@.published(
                topic@,
                payload@,
                offline_enabled,
                offline_limit as nat,
            ),
            handed_over(*final(link)) == handed_over(*old(link)).push((topic@, payload@, r is Ok)),
            r matches Err(e) ==> is_send_error(e@),
    {
        self.keep_offline(topic, payload, offline_enabled, offline_limit);
        link_publish(link, topic, payload)
    }

    /// Counts one more connection as subscribed to a topic.
    pub fn subscribe_topic(&mut self, topic: &str)
        requires
            old(self).wf(),
            old(self)@.count(topic@) < usize::MAX,
        ensures
            final(self).wf(),
            final(self)@ == old(self)@.subscribed(topic@),
    {
        let n = self.online(topic);
        self.subscriptions.insert(topic, n + 1);
    }

    /// Counts one connection less as subscribed to a topic.
    pub fn unsubscribe_topic(&mut self, topic: &str)
        requires
            old(self).wf(),
        ensures
            final(self).wf(),
            final(self)@ == old(self)@.unsubscribed(topic@),
    {
        let n = self.online(topic);
        if n <= 1 {
            let _ = self.subscriptions.remove(topic);
        } else {
            self.subscriptions.insert(topic, n - 1);
        }
    }

    /// Takes all messages out that wait for a subscriber of a topic.
    pub fn take_offline(&mut self, topic: &str) -> (r: Vec<OfflineMsg>)
        requires
            old(self).wf(),
        ensures
            final(self).wf(),
            final(self)@ == old(self)@.taken(topic@),
            payloads(r@) == old(self)@.queue(topic@),
    {
        let mut out: Vec<OfflineMsg> = Vec::new();
        match self.offline.remove(topic) {
            Some(q) => {
                let mut queue = q;
                let ghost all = queue@;
                while queue.len() > 0
                    invariant
                        out@ + queue@ == all,
                    decreases queue@.len(),
                {
                    match queue.pop_front() {
                        Some(m) => {
                            out.push(m);
                        },
                        None => {},
                    }
                    assert(out@ + queue@ =~= all);
                }
                assert(out@ =~= all);
            },
            None => {},
        }
        assert(payloads(out@) =~= old(self)@.queue(topic@));
        assert(self@ =~= old(self)@.taken(topic@));
        out
    }

    /// Counts a connection that has come; the count wraps around.
    pub fn connected(&mut self)
        requires
            old(self).wf(),
        ensures
            final(self).wf(),
            final(self)@ == (HubView {
                connections: old(self)@.connections.wrapping_add(1),
                ..old(self)@
            }),
    {
        self.connections = self.connections.wrapping_add(1);
    }

    /// Counts a connection that has gone; the count wraps around.
    pub fn disconnected(&mut self)
        requires
            old(self).wf(),
        ensures
            final(self).wf(),
            final(self)@ == (HubView {
                connections: old(self)@.connections.wrapping_sub(1),
                ..old(self)@
            }),
    {
        self.connections = self.connections.wrapping_sub(1);
    }
}

// ---- laws ----

/// Messages published one after the other to one topic.
pub open spec fn all_published(
    hub: HubView,
    topic: Seq<char>,
    messages: Seq<Seq<u8>>,
    limit: nat,
) -> HubView
    decreases messages.len(),
{
    if messages.len() == 0 {
        hub
    } else {
        all_published(hub, topic, messages.drop_last(), limit).published(
            topic,
            messages.last(),
            true,
            limit,
        )
    }
}

/// Messages for a topic that nobody is subscribed to wait in the order in which
/// they were published; beyond the limit the oldest are dropped, and no other.
pub proof fn law_waiting_messages_keep_order(
    hub: HubView,
    topic: Seq<char>,
    messages: Seq<Seq<u8>>,
    limit: nat,
)
    requires
        limit > 0,
        hub.count(topic) == 0,
        hub.queue(topic).len() <= limit,
    ensures
        all_published(hub, topic, messages, limit).queue(topic) == last_n(
            hub.queue(topic) + messages,
            limit,
        ),
        all_published(hub, topic, messages, limit).counts == hub.counts,
    decreases messages.len(),
{
    if messages.len() == 0 {
        assert(hub.queue(topic) + messages == hub.queue(topic));
    } else {
        law_waiting_messages_keep_order(hub, topic, messages.drop_last(), limit);
        let all = hub.queue(topic) + messages.drop_last();
        assert(all.push(messages.last()) == hub.queue(topic) + messages);
        assert(last_n(last_n(all, limit).push(messages.last()), limit) =~= last_n(
            all.push(messages.last()),
            limit,
        ));
    }
}

/// However many messages waited before, after one more no more than the limit
/// do, and the newest is among them.
pub proof fn law_limit_holds(hub: HubView, topic: Seq<char>, payload: Seq<u8>, limit: nat)
    requires
        limit > 0,
        hub.count(topic) == 0,
    ensures
        1 <= hub.published(topic, payload, true, limit).queue(topic).len() <= limit,
        hub.published(topic, payload, true, limit).queue(topic).last() == payload,
{
}

/// A message that somebody is subscribed to does not wait.
pub proof fn law_no_waiting_while_online(
    hub: HubView,
    topic: Seq<char>,
    payload: Seq<u8>,
    enabled: bool,
    limit: nat,
)
    requires
        hub.count(topic) > 0,
    ensures
        hub.published(topic, payload, enabled, limit) == hub,
{
}

/// What is taken is gone: it is handed out once.
pub proof fn law_waiting_messages_leave_once(hub: HubView, topic: Seq<char>)
    ensures
        hub.taken(topic).queue(topic) == Seq::<Seq<u8>>::empty(),
        hub.taken(topic).counts == hub.counts,
{
}

/// Topics do not touch each other.
pub proof fn law_topics_are_apart(
    hub: HubView,
    topic: Seq<char>,
    other: Seq<char>,
    payload: Seq<u8>,
    enabled: bool,
    limit: nat,
)
    requires
        topic != other,
    ensures
        hub.published(topic, payload, enabled, limit).queue(other) == hub.queue(other),
        hub.published(topic, payload, enabled, limit).count(other) == hub.count(other),
        hub.taken(topic).queue(other) == hub.queue(other),
        hub.taken(topic).count(other) == hub.count(other),
        hub.subscribed(topic).queue(other) == hub.queue(other),
        hub.subscribed(topic).count(other) == hub.count(other),
        hub.unsubscribed(topic).queue(other) == hub.queue(other),
        hub.unsubscribed(topic).count(other) == hub.count(other),
{
}

} // verus!
