//! An MQTT session: what is done about each packet and event, step by step.

use crate::clock::time_label;
use crate::config::{has_text_in, AppConfig};
use crate::mqtt::{payloads, HubView, MqttHub, OfflineMsg};
use crate::packet::{
    codes_wf, filter_views, filters_wf, Control, InView, Inbound, OutView, Outbound, REFUSED_CODE,
};
use crate::text::{after_prefix, lossy_text, texts, utf8_lossy};
use crate::topic_map::TopicMap;
use vstd::prelude::*;
use vstd::string::*;
use vstd::utf8::*;

verus! {

broadcast use vstd::string::group_string_axioms;

// ---- what happens ----

/// What happens to a session.
pub enum Event {
    /// A packet has come.
    Packet(Inbound),
    /// What the last step asked of the router is done, or has failed.
    Done(Result<(), String>),
    /// The router has a message: its topic and payload.
    Forward(Vec<u8>, Vec<u8>),
    /// No packet has come for too long.
    Silence,
    /// No packet could be read.
    ReadFailed(String),
    /// The router has closed its side.
    RouterClosed,
    /// The router has failed.
    RouterFailed(String),
}

/// What an `Event` holds.
pub enum EventView {
    Packet(InView),
    Done(Result<(), Seq<char>>),
    Forward(Seq<u8>, Seq<u8>),
    Silence,
    ReadFailed(Seq<char>),
    RouterClosed,
    RouterFailed(Seq<char>),
}

/// What the outcome of an operation holds.
pub open spec fn outcome_view(r: Result<(), String>) -> Result<(), Seq<char>> {
    match r {
        Ok(_) => Ok(()),
        Err(e) => Err(e@),
    }
}

impl View for Event {
    type V = EventView;

    open spec fn view(&self) -> EventView {
        match *self {
            Event::Packet(p) => EventView::Packet(p@),
            Event::Done(r) => EventView::Done(outcome_view(r)),
            Event::Forward(topic, payload) => EventView::Forward(topic@, payload@),
            Event::Silence => EventView::Silence,
            Event::ReadFailed(e) => EventView::ReadFailed(e@),
            Event::RouterClosed => EventView::RouterClosed,
            Event::RouterFailed(e) => EventView::RouterFailed(e@),
        }
    }
}

/// What is to be done after the packets of a step were written.
pub enum Next {
    /// Wait for what happens next.
    Wait,
    /// Register with the router under the client id.
    Register(String),
    /// Subscribe to a topic at the router.
    Subscribe(String),
    /// Unsubscribe from topics at the router.
    Unsubscribe(Vec<String>),
    /// Publish a payload to a topic through the router.
    Publish(String, Vec<u8>),
    /// End the session; a packet of this step that cannot be written is no
    /// matter.
    End(Result<(), String>),
}

/// What a `Next` holds.
#[verifier::ext_equal]
pub enum NextView {
    Wait,
    Register(Seq<char>),
    Subscribe(Seq<char>),
    Unsubscribe(Seq<Seq<char>>),
    Publish(Seq<char>, Seq<u8>),
    End(Result<(), Seq<char>>),
}

impl View for Next {
    type V = NextView;

    open spec fn view(&self) -> NextView {
        match *self {
            Next::Wait => NextView::Wait,
            Next::Register(id) => NextView::Register(id@),
            Next::Subscribe(topic) => NextView::Subscribe(topic@),
            Next::Unsubscribe(topics) => NextView::Unsubscribe(texts(topics@)),
            Next::Publish(topic, payload) => NextView::Publish(topic@, payload@),
            Next::End(r) => NextView::End(outcome_view(r)),
        }
    }
}

/// What a session does about an event: packets to write, in order, and what
/// comes after.
pub struct Step {
    pub writes: Vec<Outbound>,
    pub next: Next,
}

/// What a list of packets holds.
pub open spec fn out_views(list: Seq<Outbound>) -> Seq<OutView> {
    Seq::new(list.len(), |i: int| list[i]@)
}

/// Every packet of a list can be written.
pub open spec fn all_wf(list: Seq<OutView>) -> bool {
    forall|i: int| 0 <= i < list.len() ==> (#[trigger] list[i]).wf()
}

// ---- where a session stands ----

enum Phase {
    Greeting,
    Registering,
    Ready,
    /// Packet id, filters, the keys at the time, and the filter that the
    /// router is being asked for.
    Subscribing(u16, Vec<(String, u8)>, Vec<String>, usize),
    /// Packet id.
    Unsubscribing(u16),
    /// Packet id, where the client waits for an answer.
    Publishing(Option<u16>),
    Ended,
}

/// Where a session stands.
#[verifier::ext_equal]
pub enum PhaseView {
    /// Waiting for the first packet.
    Greeting,
    /// Registering with the router.
    Registering,
    /// Waiting for what happens.
    Ready,
    /// Asking the router for one of several filters.
    Subscribing(u16, Seq<(Seq<char>, u8)>, Set<Seq<char>>, nat),
    /// Unsubscribing at the router.
    Unsubscribing(u16),
    /// Publishing through the router.
    Publishing(Option<u16>),
    /// Over.
    Ended,
}

/// A session.
pub struct Session {
    phase: Phase,
    keep_alive: u16,
    pkid: u16,
    subscribed: TopicMap<()>,
}

/// What a `Session` holds.
#[verifier::ext_equal]
pub struct SessionView {
    pub phase: PhaseView,
    pub keep_alive: u16,
    /// The last packet id that was given to a message.
    pub pkid: u16,
    /// The topics that this session is subscribed to.
    pub subscribed: Set<Seq<char>>,
}

/// The set of the texts in a list.
pub open spec fn text_set(list: Seq<Seq<char>>) -> Set<Seq<char>> {
    Set::new(|t: Seq<char>| list.contains(t))
}

impl Phase {
    closed spec fn content(self) -> PhaseView {
        match self {
            Phase::Greeting => PhaseView::Greeting,
            Phase::Registering => PhaseView::Registering,
            Phase::Ready => PhaseView::Ready,
            Phase::Subscribing(pkid, filters, keys, at) => PhaseView::Subscribing(
                pkid,
                filter_views(filters@),
                text_set(texts(keys@)),
                at as nat,
            ),
            Phase::Unsubscribing(pkid) => PhaseView::Unsubscribing(pkid),
            Phase::Publishing(ack) => PhaseView::Publishing(ack),
            Phase::Ended => PhaseView::Ended,
        }
    }
}

impl View for Session {
    type V = SessionView;

    closed spec fn view(&self) -> SessionView {
        SessionView {
            phase: self.phase.content(),
            keep_alive: self.keep_alive,
            pkid: self.pkid,
            subscribed: self.subscribed@.dom(),
        }
    }
}

impl PhaseView {
    /// Whether an event can happen here.
    pub open spec fn takes(self, event: EventView) -> bool {
        match event {
            EventView::Packet(p) => (self is Greeting || self is Ready) && p.wf(),
            EventView::ReadFailed(_) => self is Greeting || self is Ready,
            EventView::Done(_) => self is Registering || self is Subscribing || self is Unsubscribing
                || self is Publishing,
            _ => self is Ready,
        }
    }
}

impl SessionView {
    /// A session that has just begun.
    pub open spec fn fresh() -> SessionView {
        SessionView {
            phase: PhaseView::Greeting,
            keep_alive: 0,
            pkid: 0,
            subscribed: Set::empty(),
        }
    }

    /// The router is asked for a filter of the packet, and one that is granted.
    pub open spec fn wf(self) -> bool {
        self.phase matches PhaseView::Subscribing(_, filters, keys, at) ==> {
            &&& at < filters.len()
            &&& granted(filters[at as int].0, keys)
            &&& filters_wf(filters)
        }
    }
}

// ---- the steps ----

/// Whether a topic may be subscribed to and published to.
pub open spec fn granted(topic: Seq<char>, keys: Set<Seq<char>>) -> bool {
    topic.len() > 0 && keys.contains(topic)
}

/// The keep-alive that is used for the one that a client asks for.
pub open spec fn kept_alive(asked: u16) -> u16 {
    if asked == 60 || asked == 300 || asked == 600 {
        3600
    } else {
        asked
    }
}

/// The packet id after `pkid`; zero is no packet id.
pub open spec fn advance(pkid: u16) -> u16 {
    if pkid == 65535 {
        1
    } else {
        (pkid + 1) as u16
    }
}

/// The packet id `n` messages after `pkid`.
pub open spec fn pkid_after(pkid: u16, n: nat) -> u16
    decreases n,
{
    if n == 0 {
        pkid
    } else {
        advance(pkid_after(pkid, (n - 1) as nat))
    }
}

/// Messages delivered one after the other.
pub open spec fn deliveries(topic: Seq<char>, messages: Seq<Seq<u8>>, pkid: u16) -> Seq<OutView> {
    Seq::new(
        messages.len(),
        |i: int| OutView::Deliver(topic, pkid_after(pkid, (i + 1) as nat), messages[i]),
    )
}

/// The answer to each filter: the quality of service asked for, or a refusal.
pub open spec fn ack_codes(filters: Seq<(Seq<char>, u8)>, keys: Set<Seq<char>>) -> Seq<u8> {
    Seq::new(
        filters.len(),
        |i: int|
            if granted(filters[i].0, keys) {
                filters[i].1
            } else {
                REFUSED_CODE
            },
    )
}

/// The first filter from `at` on that is granted, or the number of filters.
pub open spec fn next_granted(filters: Seq<(Seq<char>, u8)>, keys: Set<Seq<char>>, at: nat) -> nat
    decreases filters.len() - at,
{
    if at >= filters.len() {
        filters.len()
    } else if granted(filters[at as int].0, keys) {
        at
    } else {
        next_granted(filters, keys, at + 1)
    }
}

/// A step and what it leaves behind.
#[verifier::ext_equal]
pub struct StepView {
    pub session: SessionView,
    pub hub: HubView,
    pub writes: Seq<OutView>,
    pub next: NextView,
}

/// Nothing is written, and the session waits.
pub open spec fn waits(session: SessionView, hub: HubView, writes: Seq<OutView>) -> StepView {
    StepView {
        session: SessionView { phase: PhaseView::Ready, ..session },
        hub,
        writes,
        next: NextView::Wait,
    }
}

/// The session ends.
pub open spec fn ends(
    session: SessionView,
    hub: HubView,
    writes: Seq<OutView>,
    outcome: Result<(), Seq<char>>,
) -> StepView {
    StepView {
        session: SessionView { phase: PhaseView::Ended, ..session },
        hub,
        writes,
        next: NextView::End(outcome),
    }
}

/// The filters from `at` on: the router is asked for the next that is granted,
/// and after the last the client is answered.
pub open spec fn resumes(
    session: SessionView,
    hub: HubView,
    writes: Seq<OutView>,
    pkid: u16,
    filters: Seq<(Seq<char>, u8)>,
    keys: Set<Seq<char>>,
    at: nat,
) -> StepView {
    let n = next_granted(filters, keys, at);
    if n < filters.len() {
        StepView {
            session: SessionView {
                phase: PhaseView::Subscribing(pkid, filters, keys, n),
                ..session
            },
            hub,
            writes,
            next: NextView::Subscribe(filters[n as int].0),
        }
    } else {
        waits(session, hub, writes.push(OutView::SubAck(pkid, ack_codes(filters, keys))))
    }
}

/// A topic is subscribed to: a session counts once for it.
pub open spec fn joins(hub: HubView, subscribed: Set<Seq<char>>, topic: Seq<char>) -> HubView {
    if subscribed.contains(topic) {
        hub
    } else {
        hub.subscribed(topic)
    }
}

/// A session leaves topics: each that it was subscribed to counts one less.
pub open spec fn leaves(hub: HubView, topics: Set<Seq<char>>) -> HubView {
    HubView {
        counts: Map::new(
            |t: Seq<char>| hub.counts.contains_key(t) && !(topics.contains(t) && hub.count(t) <= 1),
            |t: Seq<char>|
                if topics.contains(t) {
                    (hub.counts[t] - 1) as usize
                } else {
                    hub.counts[t]
                },
        ),
        ..hub
    }
}

/// What a session does about a packet once it is connected.
pub open spec fn packet_step(
    session: SessionView,
    p: InView,
    keys: Set<Seq<char>>,
    hub: HubView,
) -> StepView {
    match p {
        InView::PingReq => waits(session, hub, seq![OutView::Control(Control::PingResp)]),
        InView::PubRel(pkid) => waits(session, hub, seq![OutView::Control(Control::PubComp(pkid))]),
        InView::Other => waits(session, hub, Seq::empty()),
        InView::Disconnect => ends(session, hub, Seq::empty(), Ok(())),
        InView::Connect(..) => ends(session, hub, Seq::empty(), Err("duplicate CONNECT"@)),
        InView::Subscribe(pkid, filters) => resumes(
            session,
            hub,
            Seq::empty(),
            pkid,
            filters,
            keys,
            0,
        ),
        InView::Unsubscribe(pkid, topics) => {
            let gone = session.subscribed.intersect(text_set(topics));
            StepView {
                session: SessionView {
                    phase: PhaseView::Unsubscribing(pkid),
                    subscribed: session.subscribed.difference(text_set(topics)),
                    ..session
                },
                hub: leaves(hub, gone),
                writes: Seq::empty(),
                next: NextView::Unsubscribe(topics),
            }
        },
        InView::Publish(qos, topic, pkid, payload) => if granted(topic, keys) {
            StepView {
                session: SessionView {
                    phase: PhaseView::Publishing(
                        if qos > 0 {
                            Some(pkid)
                        } else {
                            None
                        },
                    ),
                    ..session
                },
                hub,
                writes: Seq::empty(),
                next: NextView::Publish(topic, payload),
            }
        } else {
            ends(session, hub, Seq::empty(), Ok(()))
        },
    }
}

/// What a session does about its first packet.
pub open spec fn greeting_step(session: SessionView, p: InView, hub: HubView) -> StepView {
    match p {
        InView::Connect(v4, keep_alive, id) => if v4 {
            StepView {
                session: SessionView {
                    phase: PhaseView::Registering,
                    keep_alive: kept_alive(keep_alive),
                    ..session
                },
                hub,
                writes: Seq::empty(),
                next: NextView::Register(id),
            }
        } else {
            ends(
                session,
                hub,
                seq![OutView::Control(Control::Refused)],
                Err("unsupported protocol version"@),
            )
        },
        _ => ends(session, hub, Seq::empty(), Err("first packet must be CONNECT"@)),
    }
}

/// What a session does once the router has done what it was asked for.
pub open spec fn done_step(
    session: SessionView,
    outcome: Result<(), Seq<char>>,
    hub: HubView,
) -> StepView {
    match session.phase {
        PhaseView::Registering => match outcome {
            Ok(_) => waits(session, hub, seq![OutView::Control(Control::Accepted)]),
            Err(e) => ends(session, hub, Seq::empty(), Err("broker link: "@ + e)),
        },
        PhaseView::Subscribing(pkid, filters, keys, at) => match outcome {
            Ok(_) => {
                let topic = filters[at as int].0;
                let waiting = hub.queue(topic);
                resumes(
                    SessionView {
                        pkid: pkid_after(session.pkid, waiting.len()),
                        subscribed: session.subscribed.insert(topic),
                        ..session
                    },
                    joins(hub, session.subscribed, topic).taken(topic),
                    deliveries(topic, waiting, session.pkid),
                    pkid,
                    filters,
                    keys,
                    at + 1,
                )
            },
            Err(e) => ends(session, hub, Seq::empty(), Err("subscribe: "@ + e)),
        },
        PhaseView::Unsubscribing(pkid) => waits(
            session,
            hub,
            seq![OutView::Control(Control::UnsubAck(pkid))],
        ),
        PhaseView::Publishing(ack) => match outcome {
            Ok(_) => waits(
                session,
                hub,
                match ack {
                    Some(pkid) => seq![OutView::Control(Control::PubAck(pkid))],
                    None => Seq::empty(),
                },
            ),
            Err(e) => ends(session, hub, Seq::empty(), Err("publish: "@ + e)),
        },
        _ => waits(session, hub, Seq::empty()),
    }
}

/// What a session does about an event.
pub open spec fn session_step(
    session: SessionView,
    event: EventView,
    keys: Set<Seq<char>>,
    hub: HubView,
) -> StepView {
    match event {
        EventView::Packet(p) => if session.phase is Greeting {
            greeting_step(session, p, hub)
        } else {
            packet_step(session, p, keys, hub)
        },
        EventView::Done(outcome) => done_step(session, outcome, hub),
        EventView::Forward(topic, payload) => waits(
            SessionView { pkid: advance(session.pkid), ..session },
            hub,
            deliveries(utf8_lossy(topic), seq![payload], session.pkid),
        ),
        EventView::Silence => ends(session, hub, Seq::empty(), Err("read timeout (keepalive)"@)),
        EventView::ReadFailed(e) => ends(session, hub, Seq::empty(), Err(e)),
        EventView::RouterClosed => ends(session, hub, Seq::empty(), Err("router closed link"@)),
        EventView::RouterFailed(e) => ends(session, hub, Seq::empty(), Err("router: "@ + e)),
    }
}

proof fn lemma_leave_one(hub: HubView, gone: Set<Seq<char>>, topic: Seq<char>)
    requires
        !gone.contains(topic),
    ensures
        leaves(hub, gone).unsubscribed(topic) == leaves(hub, gone.insert(topic)),
{
    let a = leaves(hub, gone).unsubscribed(topic);
    let b = leaves(hub, gone.insert(topic));
    assert(leaves(hub, gone).count(topic) == hub.count(topic));
    assert(a.counts =~= b.counts);
}

proof fn lemma_leave_none(hub: HubView)
    ensures
        leaves(hub, Set::empty()) == hub,
{
    assert(leaves(hub, Set::empty()).counts =~= hub.counts);
}

proof fn lemma_pkid_after(pkid: u16, n: nat)
    ensures
        n > 0 ==> pkid_after(pkid, n) > 0,
{
}

proof fn lemma_text_set_push(list: Seq<Seq<char>>, t: Seq<char>)
    ensures
        text_set(list.push(t)) == text_set(list).insert(t),
{
    let more = list.push(t);
    assert forall|u: Seq<char>| more.contains(u) == (list.contains(u) || u == t) by {
        if list.contains(u) {
            let k = choose|k: int| 0 <= k < list.len() && list[k] == u;
            assert(more[k] == u);
        }
        assert(more[list.len() as int] == t);
        if more.contains(u) {
            let k = choose|k: int| 0 <= k < more.len() && more[k] == u;
            assert(k < list.len() ==> list[k] == u);
        }
    }
    assert(text_set(more) =~= text_set(list).insert(t));
}

fn next_pkid(pkid: u16) -> (r: u16)
    ensures
        r == advance(pkid),
        r > 0,
{
    if pkid == 65535 {
        1
    } else {
        pkid + 1
    }
}

/// The keep-alive that is used for the one that a client asks for.
pub fn keep_alive_for(asked: u16) -> (r: u16)
    ensures
        r == kept_alive(asked),
{
    if asked == 60 || asked == 300 || asked == 600 {
        3600
    } else {
        asked
    }
}

fn joined(label: &str, e: &str) -> (r: String)
    ensures
        r@ == label@ + e@,
{
    let mut text = label.to_string();
    text.append(e);
    text
}

fn is_granted(topic: &str, keys: &Vec<String>) -> (r: bool)
    ensures
        r == granted(topic@, text_set(texts(keys@))),
{
    !topic.is_empty() && has_text_in(keys, topic)
}

fn one(c: Control) -> (r: Vec<Outbound>)
    ensures
        out_views(r@) == seq![OutView::Control(c)],
        all_wf(out_views(r@)),
{
    let mut writes: Vec<Outbound> = Vec::new();
    writes.push(Outbound::Control(c));
    assert(out_views(writes@) =~= seq![OutView::Control(c)]);
    writes
}

fn none() -> (r: Vec<Outbound>)
    ensures
        out_views(r@) == Seq::<OutView>::empty(),
{
    let writes: Vec<Outbound> = Vec::new();
    assert(out_views(writes@) =~= Seq::<OutView>::empty());
    writes
}

fn deliver_all(topic: &str, messages: Vec<OfflineMsg>, pkid: u16) -> (r: (Vec<Outbound>, u16))
    ensures
        out_views(r.0@) == deliveries(topic@, payloads(messages@), pkid),
        all_wf(out_views(r.0@)),
        r.1 == pkid_after(pkid, messages@.len()),
{
    let ghost all = messages@;
    let mut writes: Vec<Outbound> = Vec::new();
    let mut id: u16 = pkid;
    for m in it: messages
        invariant
            it.seq() == all,
            writes@.len() == it.index(),
            id == pkid_after(pkid, writes@.len()),
            forall|k: int|
                0 <= k < writes@.len() ==> (#[trigger] writes@[k])@ == OutView::Deliver(
                    topic@,
                    pkid_after(pkid, (k + 1) as nat),
                    all[k].payload@,
                ),
    {
        id = next_pkid(id);
        writes.push(Outbound::Deliver(topic.to_string(), id, m.payload));
    }
    proof {
        assert(out_views(writes@) =~= deliveries(topic@, payloads(all), pkid));
        assert forall|i: int| 0 <= i < out_views(writes@).len() implies (
        #[trigger] out_views(writes@)[i]).wf() by {
            assert(writes@[i]@ == out_views(writes@)[i]);
            lemma_pkid_after(pkid, (i + 1) as nat);
        }
    }
    (writes, id)
}

fn codes_for(filters: &Vec<(String, u8)>, keys: &Vec<String>) -> (r: Vec<u8>)
    ensures
        r@ == ack_codes(filter_views(filters@), text_set(texts(keys@))),
        filters_wf(filter_views(filters@)) ==> codes_wf(r@),
{
    let ghost fs = filter_views(filters@);
    let ghost ks = text_set(texts(keys@));
    let mut codes: Vec<u8> = Vec::new();
    let mut i: usize = 0;
    while i < filters.len()
        invariant
            fs == filter_views(filters@),
            ks == text_set(texts(keys@)),
            i <= filters@.len(),
            codes@ == ack_codes(fs, ks).take(i as int),
        decreases filters@.len() - i,
    {
        assert(fs[i as int] == (filters@[i as int].0@, filters@[i as int].1));
        if is_granted(filters[i].0.as_str(), keys) {
            codes.push(filters[i].1);
        } else {
            codes.push(REFUSED_CODE);
        }
        i = i + 1;
        assert(codes@ =~= ack_codes(fs, ks).take(i as int));
    }
    assert(codes@ =~= ack_codes(fs, ks));
    assert(filters_wf(fs) ==> codes_wf(codes@)) by {
        if filters_wf(fs) {
            assert forall|k: int| 0 <= k < codes@.len() implies (#[trigger] codes@[k]) <= 2 || codes@[k]
                == REFUSED_CODE by {
                assert(fs[k].1 <= 2);
            }
        }
    }
    codes
}

impl Session {
    /// The session can go on from where it stands.
    pub closed spec fn wf(&self) -> bool {
        self@.wf() && self.subscribed.wf()
    }

    /// Begins a session.
    pub fn new() -> (r: Session)
        ensures
            r.wf(),
            r@ == SessionView::fresh(),
    {
        let r = Session {
            phase: Phase::Greeting,
            keep_alive: 0,
            pkid: 0,
            subscribed: TopicMap::new(),
        };
        assert(r@ =~= SessionView::fresh());
        r
    }

    /// How many seconds may pass without a packet, once the client has said how
    /// often it sends one.
    pub fn idle_seconds(&self) -> (r: Option<u64>)
        ensures
            r == if self@.phase is Greeting {
                None
            } else {
                Some((self@.keep_alive * 2 + 10) as u64)
            },
    {
        match self.phase {
            Phase::Greeting => None,
            _ => Some(self.keep_alive as u64 * 2 + 10),
        }
    }

    /// Whether an event can happen where the session stands.
    pub fn takes(&self, event: &Event) -> (r: bool)
        ensures
            r == self@.phase.takes(event@),
    {
        match event {
            Event::Packet(p) => match self.phase {
                Phase::Greeting | Phase::Ready => is_wf(p),
                _ => false,
            },
            Event::ReadFailed(_) => match self.phase {
                Phase::Greeting | Phase::Ready => true,
                _ => false,
            },
            Event::Done(_) => match self.phase {
                Phase::Registering
                | Phase::Subscribing(..)
                | Phase::Unsubscribing(_)
                | Phase::Publishing(_) => true,
                _ => false,
            },
            _ => match self.phase {
                Phase::Ready => true,
                _ => false,
            },
        }
    }

    fn wait(&mut self, writes: Vec<Outbound>) -> (r: Step)
        requires
            old(self).subscribed.wf(),
            all_wf(out_views(writes@)),
        ensures
            final(self).wf(),
            final(self)@ == (SessionView { phase: PhaseView::Ready, ..old(self)@ }),
            r.writes == writes,
            r.next@ == NextView::Wait,
    {
        self.phase = Phase::Ready;
        Step { writes, next: Next::Wait }
    }

    fn end(&mut self, writes: Vec<Outbound>, outcome: Result<(), String>) -> (r: Step)
        requires
            old(self).subscribed.wf(),
            all_wf(out_views(writes@)),
        ensures
            final(self).wf(),
            final(self)@ == (SessionView { phase: PhaseView::Ended, ..old(self)@ }),
            r.writes == writes,
            r.next@ == NextView::End(outcome_view(outcome)),
    {
        self.phase = Phase::Ended;
        Step { writes, next: Next::End(outcome) }
    }

    fn resume(
        &mut self,
        writes: Vec<Outbound>,
        pkid: u16,
        filters: Vec<(String, u8)>,
        keys: Vec<String>,
        at: usize,
    ) -> (r: Step)
        requires
            old(self).subscribed.wf(),
            at <= filters@.len(),
            filters_wf(filter_views(filters@)),
            all_wf(out_views(writes@)),
        ensures
            final(self).wf(),
            all_wf(out_views(r.writes@)),
            forall|hub: HubView| #[trigger]
                resumes(
                    old(self)@,
                    hub,
                    out_views(writes@),
                    pkid,
                    filter_views(filters@),
                    text_set(texts(keys@)),
                    at as nat,
                ) == (StepView {
                    session: final(self)@,
                    hub,
                    writes: out_views(r.writes@),
                    next: r.next@,
                }),
    {
        let ghost fs = filter_views(filters@);
        let ghost ks = text_set(texts(keys@));
        let mut i: usize = at;
        while i < filters.len() && !is_granted(filters[i].0.as_str(), &keys)
            invariant
                fs == filter_views(filters@),
                ks == text_set(texts(keys@)),
                i <= filters@.len(),
                next_granted(fs, ks, i as nat) == next_granted(fs, ks, at as nat),
            decreases filters@.len() - i,
        {
            i = i + 1;
        }
        assert(next_granted(fs, ks, i as nat) == i);
        if i < filters.len() {
            let topic = filters[i].0.clone();
            assert(fs[i as int].0 == topic@);
            self.phase = Phase::Subscribing(pkid, filters, keys, i);
            Step { writes, next: Next::Subscribe(topic) }
        } else {
            let codes = codes_for(&filters, &keys);
            let mut writes = writes;
            let ghost before = out_views(writes@);
            let ack = Outbound::SubAck(pkid, codes);
            let ghost a = ack@;
            writes.push(ack);
            assert(out_views(writes@) =~= before.push(a));
            self.wait(writes)
        }
    }

    fn greet(&mut self, p: Inbound) -> (r: Step)
        requires
            old(self).wf(),
            old(self)@.phase is Greeting,
        ensures
            final(self).wf(),
            all_wf(out_views(r.writes@)),
            forall|hub: HubView| #[trigger]
                greeting_step(old(self)@, p@, hub) == (StepView {
                    session: final(self)@,
                    hub,
                    writes: out_views(r.writes@),
                    next: r.next@,
                }),
    {
        match p {
            Inbound::Connect(v4, keep_alive, id) => {
                if v4 {
                    self.phase = Phase::Registering;
                    self.keep_alive = keep_alive_for(keep_alive);
                    Step { writes: none(), next: Next::Register(id) }
                } else {
                    self.end(one(Control::Refused), Err("unsupported protocol version".to_string()))
                }
            },
            _ => self.end(none(), Err("first packet must be CONNECT".to_string())),
        }
    }

    fn drop_topics(&mut self, topics: &Vec<String>, hub: &mut MqttHub)
        requires
            old(self).subscribed.wf(),
            old(hub).wf(),
        ensures
            final(self).subscribed.wf(),
            final(hub).wf(),
            final(hub)@ == leaves(
                old(hub)@,
                old(self)@.subscribed.intersect(text_set(texts(topics@))),
            ),
            final(self)@ == (SessionView {
                subscribed: old(self)@.subscribed.difference(text_set(texts(topics@))),
                ..old(self)@
            }),
    {
        let ghost all = texts(topics@);
        let ghost mine = self@.subscribed;
        let mut i: usize = 0;
        proof {
            lemma_leave_none(hub@);
            assert(mine.intersect(text_set(all.take(0))) =~= Set::<Seq<char>>::empty());
            assert(self@.subscribed =~= mine.difference(text_set(all.take(0))));
        }
        while i < topics.len()
            invariant
                all == texts(topics@),
                mine == old(self)@.subscribed,
                i <= topics@.len(),
                self.subscribed.wf(),
                hub.wf(),
                hub@ == leaves(old(hub)@, mine.intersect(text_set(all.take(i as int)))),
                self@.subscribed == mine.difference(text_set(all.take(i as int))),
                self.phase == old(self).phase,
                self.keep_alive == old(self).keep_alive,
                self.pkid == old(self).pkid,
            decreases topics@.len() - i,
        {
            let topic = topics[i].as_str();
            let ghost so_far = text_set(all.take(i as int));
            let ghost then_on = text_set(all.take(i + 1));
            proof {
                assert(all[i as int] == topic@);
                assert(all.take(i + 1) =~= all.take(i as int).push(topic@));
                lemma_text_set_push(all.take(i as int), topic@);
            }
            match self.subscribed.remove(topic) {
                Some(_) => {
                    proof {
                        lemma_leave_one(old(hub)@, mine.intersect(so_far), topic@);
                        assert(mine.intersect(then_on) =~= mine.intersect(so_far).insert(topic@));
                    }
                    hub.unsubscribe_topic(topic);
                },
                None => {
                    assert(mine.intersect(then_on) =~= mine.intersect(so_far));
                },
            }
            assert(self@.subscribed =~= mine.difference(then_on));
            i = i + 1;
        }
        assert(all.take(i as int) =~= all);
        assert(self@ =~= (SessionView {
            subscribed: old(self)@.subscribed.difference(text_set(texts(topics@))),
            ..old(self)@
        }));
    }

    fn take(&mut self, p: Inbound, cfg: &AppConfig, hub: &mut MqttHub) -> (r: Step)
        requires
            old(self).wf(),
            old(hub).wf(),
            old(self)@.phase is Ready,
            p@.wf(),
        ensures
            final(self).wf(),
            final(hub).wf(),
            all_wf(out_views(r.writes@)),
            packet_step(old(self)@, p@, cfg@.key_set(), old(hub)@) == (StepView {
                session: final(self)@,
                hub: final(hub)@,
                writes: out_views(r.writes@),
                next: r.next@,
            }),
    {
        match p {
            Inbound::PingReq => self.wait(one(Control::PingResp)),
            Inbound::PubRel(pkid) => self.wait(one(Control::PubComp(pkid))),
            Inbound::Other => self.wait(none()),
            Inbound::Disconnect => self.end(none(), Ok(())),
            Inbound::Connect(..) => self.end(none(), Err("duplicate CONNECT".to_string())),
            Inbound::Subscribe(pkid, filters) => {
                let keys = cfg.key_set();
                assert(text_set(texts(keys@)) =~= cfg@.key_set());
                self.resume(none(), pkid, filters, keys, 0)
            },
            Inbound::Unsubscribe(pkid, topics) => {
                self.drop_topics(&topics, hub);
                self.phase = Phase::Unsubscribing(pkid);
                Step { writes: none(), next: Next::Unsubscribe(topics) }
            },
            Inbound::Publish(qos, topic, pkid, payload) => {
                let keys = cfg.key_set();
                assert(text_set(texts(keys@)) =~= cfg@.key_set());
                if is_granted(topic.as_str(), &keys) {
                    self.phase = Phase::Publishing(
                        if qos > 0 {
                            Some(pkid)
                        } else {
                            None
                        },
                    );
                    Step { writes: none(), next: Next::Publish(topic, payload) }
                } else {
                    self.end(none(), Ok(()))
                }
            },
        }
    }

    fn join(&mut self, topic: &str, hub: &mut MqttHub)
        requires
            old(self).subscribed.wf(),
            old(hub).wf(),
            old(hub)@.has_room(),
        ensures
            final(self).subscribed.wf(),
            final(hub).wf(),
            final(hub)@ == joins(old(hub)@, old(self)@.subscribed, topic@),
            final(self)@ == (SessionView {
                subscribed: old(self)@.subscribed.insert(topic@),
                ..old(self)@
            }),
    {
        if self.subscribed.get(topic).is_none() {
            assert(hub@.counts.contains_key(topic@) ==> hub@.counts[topic@] < usize::MAX);
            hub.subscribe_topic(topic);
        }
        self.subscribed.insert(topic, ());
        assert(self@.subscribed =~= old(self)@.subscribed.insert(topic@));
    }

    fn finish(&mut self, outcome: Result<(), String>, hub: &mut MqttHub) -> (r: Step)
        requires
            old(self).wf(),
            old(hub).wf(),
            old(hub)@.has_room(),
            old(self)@.phase.takes(EventView::Done(outcome_view(outcome))),
        ensures
            final(self).wf(),
            final(hub).wf(),
            all_wf(out_views(r.writes@)),
            done_step(old(self)@, outcome_view(outcome), old(hub)@) == (StepView {
                session: final(self)@,
                hub: final(hub)@,
                writes: out_views(r.writes@),
                next: r.next@,
            }),
    {
        let mut phase = Phase::Ended;
        std::mem::swap(&mut phase, &mut self.phase);
        match phase {
            Phase::Registering => match outcome {
                Ok(_) => self.wait(one(Control::Accepted)),
                Err(e) => self.end(none(), Err(joined("broker link: ", e.as_str()))),
            },
            Phase::Subscribing(pkid, filters, keys, at) => match outcome {
                Ok(_) => {
                    let topic = filters[at].0.clone();
                    assert(filter_views(filters@)[at as int].0 == topic@);
                    self.join(topic.as_str(), hub);
                    let waiting = hub.take_offline(topic.as_str());
                    let (writes, last) = deliver_all(topic.as_str(), waiting, self.pkid);
                    self.pkid = last;
                    assert(at < filter_views(filters@).len());
                    assert(at < filters.len());
                    let ghost mid = self@;
                    let ghost sent = out_views(writes@);
                    let ghost fs = filter_views(filters@);
                    let ghost ks = text_set(texts(keys@));
                    let r = self.resume(writes, pkid, filters, keys, at + 1);
                    assert(resumes(mid, hub@, sent, pkid, fs, ks, (at + 1) as nat) == (StepView {
                        session: self@,
                        hub: hub@,
                        writes: out_views(r.writes@),
                        next: r.next@,
                    }));
                    r
                },
                Err(e) => self.end(none(), Err(joined("subscribe: ", e.as_str()))),
            },
            Phase::Unsubscribing(pkid) => self.wait(one(Control::UnsubAck(pkid))),
            Phase::Publishing(ack) => match outcome {
                Ok(_) => match ack {
                    Some(pkid) => self.wait(one(Control::PubAck(pkid))),
                    None => self.wait(none()),
                },
                Err(e) => self.end(none(), Err(joined("publish: ", e.as_str()))),
            },
            _ => self.wait(none()),
        }
    }

    /// Takes an event in; the keys that may be subscribed and published to are
    /// those of the configuration.
    pub fn step(&mut self, event: Event, cfg: &AppConfig, hub: &mut MqttHub) -> (r: Step)
        requires
            old(self).wf(),
            old(hub).wf(),
            old(hub)@.has_room(),
            old(self)@.phase.takes(event@),
        ensures
            final(self).wf(),
            final(hub).wf(),
            all_wf(out_views(r.writes@)),
            session_step(old(self)@, event@, cfg@.key_set(), old(hub)@) == (StepView {
                session: final(self)@,
                hub: final(hub)@,
                writes: out_views(r.writes@),
                next: r.next@,
            }),
            event@ matches EventView::Forward(topic, _) ==> valid_utf8(topic) ==> utf8_lossy(topic)
                == decode_utf8(topic),
            event@ matches EventView::Packet(InView::Publish(_, topic, _, payload)) ==> old(
                self,
            )@.phase is Ready ==> r.next@ == if topic.len() > 0 && cfg@.key_set().contains(topic) {
                NextView::Publish(topic, payload)
            } else {
                NextView::End(Ok(()))
            },
    {
        match event {
            Event::Packet(p) => match self.phase {
                Phase::Greeting => self.greet(p),
                _ => self.take(p, cfg, hub),
            },
            Event::Done(outcome) => self.finish(outcome, hub),
            Event::Forward(topic, payload) => {
                let topic = lossy_text(topic.as_slice());
                let mut messages: Vec<OfflineMsg> = Vec::new();
                let ghost text = payload@;
                messages.push(OfflineMsg { payload });
                assert(payloads(messages@) =~= seq![text]);
                assert(pkid_after(self.pkid, 1) == advance(self.pkid)) by {
                    reveal_with_fuel(pkid_after, 2);
                }
                let (writes, last) = deliver_all(topic.as_str(), messages, self.pkid);
                self.pkid = last;
                self.wait(writes)
            },
            Event::Silence => self.end(none(), Err("read timeout (keepalive)".to_string())),
            Event::ReadFailed(e) => self.end(none(), Err(e)),
            Event::RouterClosed => self.end(none(), Err("router closed link".to_string())),
            Event::RouterFailed(e) => self.end(none(), Err(joined("router: ", e.as_str()))),
        }
    }

    /// Ends a session, whatever ended it: it counts nowhere any more.
    pub fn close(self, hub: &mut MqttHub)
        requires
            self.wf(),
            old(hub).wf(),
        ensures
            final(hub).wf(),
            final(hub)@ == leaves(old(hub)@, self@.subscribed),
    {
        let mut session = self;
        let topics = session.subscribed.topics();
        session.drop_topics(&topics, hub);
        assert(self@.subscribed.intersect(text_set(texts(topics@))) =~= self@.subscribed);
    }
}

/// The client id under which a client registers: its own, or one made of the
/// given label where it has none.
pub fn client_id_or(id: &str, label: &str) -> (r: String)
    ensures
        r@ == if id@.len() > 0 {
            id@
        } else {
            "anon-"@ + label@
        },
{
    if id.is_empty() {
        let mut out = "anon-".to_string();
        out.append(label);
        out
    } else {
        id.to_string()
    }
}

/// The client id under which a client registers: its own, or one made of the
/// current time where it has none.
pub fn client_id(id: &str) -> (r: String)
    ensures
        id@.len() > 0 ==> r@ == id@,
        id@.len() == 0 ==> after_prefix(r@, "anon-"@) is Some,
{
    if !id.is_empty() {
        return id.to_string();
    }
    let r = client_id_or(id, time_label().as_str());
    assert(r@.take("anon-"@.len() as int) =~= "anon-"@);
    r
}

fn are_filters_wf(filters: &Vec<(String, u8)>) -> (r: bool)
    ensures
        r == filters_wf(filter_views(filters@)),
{
    let mut i: usize = 0;
    while i < filters.len()
        invariant
            i <= filters@.len(),
            forall|k: int| 0 <= k < i ==> (#[trigger] filter_views(filters@)[k]).1 <= 2,
        decreases filters@.len() - i,
    {
        assert(filter_views(filters@)[i as int].1 == filters@[i as int].1);
        if filters[i].1 > 2 {
            return false;
        }
        i = i + 1;
    }
    true
}

fn is_wf(p: &Inbound) -> (r: bool)
    ensures
        r == p@.wf(),
{
    match p {
        Inbound::Subscribe(_, filters) => are_filters_wf(filters),
        _ => true,
    }
}

} // verus!
