//! Messages on their way: a push and a test message from the request to the
//! answer.

use crate::clock::{is_timestamp, now_str};
use crate::config::{ConfigStore, ConfigView};
use crate::json::{json_text, JsonTree};
use crate::mqtt::{handed_over, is_send_error, HubView, MqttHub};
use crate::panel::{failure_of, given, refusal, told};
use crate::push_api::{
    law_published_keys_are_configured, outcome_text, push_answer, push_api, push_reply, push_step,
    record_publish, JobView, PushJob, PushStep, StepView,
};
use crate::push_log::{last_n, log_entry, LogView, PushLog};
use crate::reply::{json_reply_of, text_reply, text_reply_of, Reply, ReplyView};
use crate::settings::{api_test, record_test, test_tree};
use crate::text::texts;
use crate::third::Params;
use rumqttd::local::LinkTx;
use vstd::prelude::*;
use vstd::utf8::*;

verus! {

broadcast use vstd::string::group_string_axioms;

/// What publishing works on.
#[verifier::ext_equal]
pub struct ServiceView {
    pub cfg: ConfigView,
    /// How many messages were published.
    pub count: i64,
    pub hub: HubView,
    /// What the router was handed, and whether it was there.
    pub handed: Seq<(Seq<char>, Seq<u8>, bool)>,
    pub log: Seq<LogView>,
    /// How many entries the log holds at most.
    pub room: nat,
}

/// The state of the parts that publishing works on.
pub open spec fn service(
    hub: MqttHub,
    link: LinkTx,
    store: ConfigStore,
    log: PushLog,
) -> ServiceView {
    ServiceView {
        cfg: store.config(),
        count: store.count(),
        hub: hub@,
        handed: handed_over(link),
        log: log.entries(),
        room: log.room(),
    }
}

/// What became of one publication: when it was, and how it went.
pub struct Outcome {
    pub time: Seq<char>,
    pub result: Result<(), String>,
}

impl Outcome {
    /// At a time of the clock, and with the one error that the router gives.
    pub open spec fn wf(self) -> bool {
        &&& is_timestamp(self.time)
        &&& self.result matches Err(e) ==> is_send_error(e@)
    }
}

impl ServiceView {
    /// A message was published to a key: the router was handed it, the hub
    /// kept it where nobody was subscribed, it counts where that went well, and
    /// the log says how it went.
    pub open spec fn published(
        self,
        key: Seq<char>,
        title: Seq<char>,
        payload: Seq<u8>,
        keep: bool,
        limit: nat,
        o: Outcome,
        note: Seq<char>,
    ) -> ServiceView {
        ServiceView {
            count: if o.result is Ok {
                self.count.wrapping_add(1)
            } else {
                self.count
            },
            hub: self.hub.published(key, payload, keep, limit),
            handed: self.handed.push((key, payload, o.result is Ok)),
            log: last_n(self.log.push(log_entry(o.time, key, title, note)), self.room),
            ..self
        }
    }
}

/// A message was published to each of several keys, in turn.
pub open spec fn published_all(
    before: ServiceView,
    job: JobView,
    keys: Seq<Seq<char>>,
    outcomes: Seq<Outcome>,
) -> ServiceView
    decreases keys.len(),
{
    if keys.len() == 0 || outcomes.len() == 0 {
        before
    } else {
        published_all(before, job, keys.drop_last(), outcomes.drop_last()).published(
            keys.last(),
            job.title,
            job.payload,
            job.offline_messages,
            job.offline_limit as nat,
            outcomes.last(),
            outcome_text(outcomes.last().result),
        )
    }
}

/// How publications went.
pub open spec fn results(outcomes: Seq<Outcome>) -> Seq<Result<(), String>> {
    Seq::new(outcomes.len(), |i: int| outcomes[i].result)
}

/// A message was published to its keys, and the request was answered.
pub open spec fn job_done(
    job: JobView,
    before: ServiceView,
    outcomes: Seq<Outcome>,
    after: ServiceView,
    reply: ReplyView,
) -> bool {
    &&& outcomes.len() == job.keys.len()
    &&& forall|i: int| 0 <= i < outcomes.len() ==> (#[trigger] outcomes[i]).wf()
    &&& after == published_all(before, job, job.keys, outcomes)
    &&& reply == push_answer(job, results(outcomes))
}

/// Publishes a message to each of its keys, counts and logs every publication,
/// and answers the request.
pub fn publish_job(
    job: &PushJob,
    hub: &mut MqttHub,
    link: &mut LinkTx,
    store: &mut ConfigStore,
    log: &mut PushLog,
) -> (r: Reply)
    requires
        old(hub).wf(),
        old(log).wf(),
    ensures
        final(hub).wf(),
        final(log).wf(),
        exists|outcomes: Seq<Outcome>| #[trigger]
            job_done(
                job@,
                service(*old(hub), *old(link), *old(store), *old(log)),
                outcomes,
                service(*final(hub), *final(link), *final(store), *final(log)),
                r@,
            ),
{
    let ghost keys = job@.keys;
    let ghost before = service(*hub, *link, *store, *log);
    let ghost mut done: Seq<Outcome> = Seq::empty();
    let mut outcomes: Vec<Result<(), String>> = Vec::new();
    let mut i: usize = 0;
    assert(keys.take(0) =~= Seq::<Seq<char>>::empty());
    while i < job.keys.len()
        invariant
            keys == texts(job.keys@),
            keys == job@.keys,
            i <= job.keys@.len(),
            hub.wf(),
            log.wf(),
            done.len() == i,
            forall|j: int| 0 <= j < done.len() ==> (#[trigger] done[j]).wf(),
            outcomes@ =~= results(done),
            service(*hub, *link, *store, *log) == published_all(
                before,
                job@,
                keys.take(i as int),
                done,
            ),
        decreases job.keys@.len() - i,
    {
        let key = job.keys[i].as_str();
        let ghost next = keys.take(i + 1);
        assert(next.drop_last() =~= keys.take(i as int));
        assert(next.last() == key@);
        let outcome = hub.publish(
            link,
            key,
            job.payload.as_slice(),
            job.offline_messages,
            job.offline_limit,
        );
        let time = now_str();
        let ghost o = Outcome { time: time@, result: outcome };
        record_publish(store, log, time, key, job.title.as_str(), &outcome);
        outcomes.push(outcome);
        proof {
            let earlier = done;
            done = done.push(o);
            assert(done.drop_last() =~= earlier);
            assert(results(done) =~= results(earlier).push(o.result));
        }
        i = i + 1;
    }
    assert(keys.take(i as int) =~= keys);
    let r = push_reply(job, &outcomes);
    assert(job_done(job@, before, done, service(*hub, *link, *store, *log), r@));
    r
}

/// A push request was carried out as was decided: answered alone, with nothing
/// changed, or published.
pub open spec fn push_done(
    step: StepView,
    before: ServiceView,
    outcomes: Seq<Outcome>,
    after: ServiceView,
    reply: ReplyView,
    logged: nat,
) -> bool {
    match step {
        StepView::Answer(text) => {
            &&& after == before
            &&& reply == text_reply_of(200, text)
            &&& logged == 0
        },
        StepView::Publish(job) => {
            &&& job_done(job, before, outcomes, after, reply)
            &&& logged == job.keys.len()
        },
    }
}

/// The answer to a request, and how many entries it added to the log.
pub struct Pushed {
    pub reply: Reply,
    pub logged: usize,
}

/// Carries a push request out.
pub fn push(
    params: &Params,
    hub: &mut MqttHub,
    link: &mut LinkTx,
    store: &mut ConfigStore,
    log: &mut PushLog,
) -> (r: Pushed)
    requires
        old(hub).wf(),
        old(log).wf(),
    ensures
        final(hub).wf(),
        final(log).wf(),
        exists|now: Seq<char>, outcomes: Seq<Outcome>|
            is_timestamp(now) && #[trigger] push_done(
                push_step(params@, old(store).config(), now),
                service(*old(hub), *old(link), *old(store), *old(log)),
                outcomes,
                service(*final(hub), *final(link), *final(store), *final(log)),
                r.reply@,
                r.logged as nat,
            ),
{
    let ghost before = service(*hub, *link, *store, *log);
    let step = push_api(params, store.get());
    let ghost decided = step@;
    let ghost now = choose|now: Seq<char>| #[trigger]
        is_timestamp(now) && decided == push_step(params@, before.cfg, now);
    let ghost mut outcomes: Seq<Outcome> = Seq::empty();
    let r = match step {
        PushStep::Answer(text) => Pushed { reply: text_reply(200, text.as_str()), logged: 0 },
        PushStep::Publish(job) => {
            let logged = job.keys.len();
            let reply = publish_job(&job, hub, link, store, log);
            proof {
                outcomes = choose|outcomes: Seq<Outcome>| #[trigger]
                    job_done(
                        job@,
                        before,
                        outcomes,
                        service(*hub, *link, *store, *log),
                        reply@,
                    );
            }
            Pushed { reply, logged }
        },
    };
    assert(push_done(
        push_step(params@, before.cfg, now),
        before,
        outcomes,
        service(*hub, *link, *store, *log),
        r.reply@,
        r.logged as nat,
    ));
    r
}

/// Publishing to several keys hands the router one message for each, in order,
/// with the same payload, and what is told of each is whether the router was
/// there; the configuration stays.
pub proof fn law_every_key_gets_the_message(
    before: ServiceView,
    job: JobView,
    keys: Seq<Seq<char>>,
    outcomes: Seq<Outcome>,
)
    requires
        outcomes.len() == keys.len(),
    ensures
        published_all(before, job, keys, outcomes).handed == before.handed + Seq::new(
            keys.len(),
            |i: int| (keys[i], job.payload, outcomes[i].result is Ok),
        ),
        published_all(before, job, keys, outcomes).cfg == before.cfg,
    decreases keys.len(),
{
    if keys.len() > 0 {
        let k = keys.drop_last();
        let o = outcomes.drop_last();
        law_every_key_gets_the_message(before, job, k, o);
        assert(Seq::new(
            keys.len(),
            |i: int| (keys[i], job.payload, outcomes[i].result is Ok),
        ) =~= Seq::new(k.len(), |i: int| (k[i], job.payload, o[i].result is Ok)).push(
            (keys.last(), job.payload, outcomes.last().result is Ok),
        ));
    }
    assert(published_all(before, job, keys, outcomes).handed =~= before.handed + Seq::new(
        keys.len(),
        |i: int| (keys[i], job.payload, outcomes[i].result is Ok),
    ));
}

/// Whatever a push request asks, the router is handed messages for configured
/// keys alone.
pub proof fn law_pushes_reach_configured_keys_alone(
    params: Map<Seq<char>, JsonTree>,
    now: Seq<char>,
    before: ServiceView,
    outcomes: Seq<Outcome>,
    after: ServiceView,
    reply: ReplyView,
    logged: nat,
    i: int,
)
    requires
        push_done(
            push_step(params, before.cfg, now),
            before,
            outcomes,
            after,
            reply,
            logged,
        ),
        before.handed.len() <= i < after.handed.len(),
    ensures
        before.cfg.key_set().contains(after.handed[i].0),
{
    match push_step(params, before.cfg, now) {
        StepView::Answer(_) => {},
        StepView::Publish(job) => {
            law_every_key_gets_the_message(before, job, job.keys, outcomes);
            law_published_keys_are_configured(params, before.cfg, now);
            assert(after.handed[i].0 == job.keys[i - before.handed.len()]);
        },
    }
}

/// A request for a test message was carried out: refused, with nothing
/// changed, or published.
pub open spec fn test_done(
    user: bool,
    params: Map<Seq<char>, JsonTree>,
    before: ServiceView,
    now: Seq<char>,
    o: Outcome,
    after: ServiceView,
    reply: ReplyView,
    logged: nat,
) -> bool {
    let key = given(params, "key"@);
    let title = given(params, "title"@);
    if !user || key.len() == 0 || !before.cfg.key_set().contains(key) {
        &&& after == before
        &&& reply == if !user {
            refusal()
        } else if key.len() == 0 {
            failure_of(400, "缺少 key"@)
        } else {
            failure_of(400, "key 不存在"@)
        }
        &&& logged == 0
    } else {
        &&& is_timestamp(now)
        &&& o.wf()
        &&& after == before.published(
            key,
            title,
            encode_utf8(json_text(test_tree(title, given(params, "content"@), now))),
            before.cfg.offline_messages,
            before.cfg.offline_limit as nat,
            o,
            if o.result is Ok {
                "test-success"@
            } else {
                "test-failed"@
            },
        )
        &&& reply == json_reply_of(
            200,
            match o.result {
                Ok(_) => told(true, "已发送"@),
                Err(e) => told(false, e@),
            },
        )
        &&& logged == 1
    }
}

/// Carries a request for a test message out.
pub fn send_test(
    user: &Option<String>,
    params: &Params,
    hub: &mut MqttHub,
    link: &mut LinkTx,
    store: &mut ConfigStore,
    log: &mut PushLog,
) -> (r: Pushed)
    requires
        old(hub).wf(),
        old(log).wf(),
    ensures
        final(hub).wf(),
        final(log).wf(),
        exists|now: Seq<char>, o: Outcome| #[trigger]
            test_done(
                *user is Some,
                params@,
                service(*old(hub), *old(link), *old(store), *old(log)),
                now,
                o,
                service(*final(hub), *final(link), *final(store), *final(log)),
                r.reply@,
                r.logged as nat,
            ),
{
    let ghost before = service(*hub, *link, *store, *log);
    let ghost mut now: Seq<char> = Seq::empty();
    let ghost mut o = Outcome { time: Seq::empty(), result: Ok(()) };
    let r = match api_test(user, params, store.get()) {
        Ok(job) => {
            proof {
                now = choose|now: Seq<char>| #[trigger]
                    is_timestamp(now) && job.payload@ == encode_utf8(
                        json_text(test_tree(job.title@, given(params@, "content"@), now)),
                    );
            }
            let outcome = hub.publish(
                link,
                job.key.as_str(),
                job.payload.as_slice(),
                job.offline_messages,
                job.offline_limit,
            );
            let time = now_str();
            proof {
                o = Outcome { time: time@, result: outcome };
            }
            let reply = record_test(store, log, time, &job, &outcome);
            Pushed { reply, logged: 1 }
        },
        Err(reply) => Pushed { reply, logged: 0 },
    };
    assert(test_done(
        *user is Some,
        params@,
        before,
        now,
        o,
        service(*hub, *link, *store, *log),
        r.reply@,
        r.logged as nat,
    ));
    r
}

} // verus!
