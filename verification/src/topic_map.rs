//! Values kept by topic.

use crate::text::{same_text, texts};
use vstd::prelude::*;

verus! {

broadcast use vstd::string::group_string_axioms;

/// Values kept by topic, one for each.
pub struct TopicMap<V> {
    entries: Vec<(String, V)>,
}

spec fn has_topic<V>(entries: Seq<(String, V)>, topic: Seq<char>) -> bool {
    exists|i: int| 0 <= i < entries.len() && (#[trigger] entries[i]).0@ == topic
}

spec fn topic_value<V>(entries: Seq<(String, V)>, topic: Seq<char>) -> V {
    entries[choose|i: int| 0 <= i < entries.len() && (#[trigger] entries[i]).0@ == topic].1
}

impl<V> View for TopicMap<V> {
    type V = Map<Seq<char>, V>;

    closed spec fn view(&self) -> Map<Seq<char>, V> {
        Map::new(
            |t: Seq<char>| has_topic(self.entries@, t),
            |t: Seq<char>| topic_value(self.entries@, t),
        )
    }
}

impl<V> TopicMap<V> {
    /// No topic stands twice.
    pub closed spec fn wf(&self) -> bool {
        forall|i: int, j: int|
            0 <= i < j < self.entries@.len() ==> (#[trigger] self.entries@[i]).0@ != (
            #[trigger] self.entries@[j]).0@
    }

    proof fn lemma_at(&self, i: int)
        requires
            self.wf(),
            0 <= i < self.entries@.len(),
        ensures
            self@.contains_key(self.entries@[i].0@),
            self@[self.entries@[i].0@] == self.entries@[i].1,
    {
        let topic = self.entries@[i].0@;
        assert(has_topic(self.entries@, topic));
        let j = choose|j: int|
            0 <= j < self.entries@.len() && (#[trigger] self.entries@[j]).0@ == topic;
        assert(i == j);
    }

    proof fn lemma_some(&self, topic: Seq<char>) -> (i: int)
        requires
            self.wf(),
            self@.contains_key(topic),
        ensures
            0 <= i < self.entries@.len(),
            self.entries@[i].0@ == topic,
            self@[topic] == self.entries@[i].1,
    {
        let i = choose|i: int|
            0 <= i < self.entries@.len() && (#[trigger] self.entries@[i]).0@ == topic;
        self.lemma_at(i);
        i
    }

    /// Nothing kept.
    pub fn new() -> (r: TopicMap<V>)
        ensures
            r.wf(),
            r@ == Map::<Seq<char>, V>::empty(),
    {
        let r = TopicMap { entries: Vec::new() };
        assert(r@ =~= Map::<Seq<char>, V>::empty());
        r
    }

    fn position(&self, topic: &str) -> (r: Option<usize>)
        ensures
            match r {
                Some(i) => i < self.entries@.len() && self.entries@[i as int].0@ == topic@,
                None => !self@.contains_key(topic@),
            },
    {
        let mut i: usize = 0;
        while i < self.entries.len()
            invariant
                i <= self.entries@.len(),
                forall|k: int| 0 <= k < i ==> (#[trigger] self.entries@[k]).0@ != topic@,
            decreases self.entries@.len() - i,
        {
            if same_text(self.entries[i].0.as_str(), topic) {
                return Some(i);
            }
            i = i + 1;
        }
        None
    }

    /// The value of a topic.
    pub fn get(&self, topic: &str) -> (r: Option<&V>)
        requires
            self.wf(),
        ensures
            match r {
                Some(v) => self@.contains_key(topic@) && self@[topic@] == *v,
                None => !self@.contains_key(topic@),
            },
    {
        match self.position(topic) {
            Some(i) => {
                proof {
                    self.lemma_at(i as int);
                }
                Some(&self.entries[i].1)
            },
            None => None,
        }
    }

    /// Takes the value of a topic out.
    pub fn remove(&mut self, topic: &str) -> (r: Option<V>)
        requires
            old(self).wf(),
        ensures
            final(self).wf(),
            final(self)@ == old(self)@.remove(topic@),
            match r {
                Some(v) => old(self)@.contains_key(topic@) && old(self)@[topic@] == v,
                None => !old(self)@.contains_key(topic@),
            },
    {
        match self.position(topic) {
            Some(i) => {
                let ghost before = *self;
                proof {
                    before.lemma_at(i as int);
                }
                let (_, v) = self.entries.remove(i);
                proof {
                    let n = before.entries@.len();
                    assert forall|a: int, b: int| 0 <= a < b < self.entries@.len() implies (
                    #[trigger] self.entries@[a]).0@ != (#[trigger] self.entries@[b]).0@ by {
                        let a2 = if a < i { a } else { a + 1 };
                        let b2 = if b < i { b } else { b + 1 };
                        assert(self.entries@[a] == before.entries@[a2]);
                        assert(self.entries@[b] == before.entries@[b2]);
                    }
                    assert(self.wf());
                    let after = before@.remove(topic@);
                    assert forall|t: Seq<char>|
                        #![trigger self@.dom().contains(t)]
                        #![trigger after.dom().contains(t)]
                        self@.dom().contains(t) == after.dom().contains(t) && (self@.dom().contains(t)
                            ==> self@[t] == after[t]) by {
                        if self@.contains_key(t) {
                            let k = self.lemma_some(t);
                            let k2 = if k < i { k } else { k + 1 };
                            assert(self.entries@[k] == before.entries@[k2]);
                            before.lemma_at(k2);
                            assert(before.entries@[k2].0@ != before.entries@[i as int].0@);
                        }
                        if before@.contains_key(t) && t != topic@ {
                            let k = before.lemma_some(t);
                            let k2 = if k < i { k } else { k - 1 };
                            assert(self.entries@[k2] == before.entries@[k]);
                            self.lemma_at(k2);
                        }
                    }
                    assert(self@ =~= after);
                }
                Some(v)
            },
            None => {
                assert(self@ =~= self@.remove(topic@));
                None
            },
        }
    }

    /// Keeps a value for a topic, in place of any other.
    pub fn insert(&mut self, topic: &str, v: V)
        requires
            old(self).wf(),
        ensures
            final(self).wf(),
            final(self)@ == old(self)@.insert(topic@, v),
    {
        let _ = self.remove(topic);
        let ghost before = *self;
        proof {
            assert forall|k: int| 0 <= k < before.entries@.len() implies (
            #[trigger] before.entries@[k]).0@ != topic@ by {
                before.lemma_at(k);
            }
        }
        self.entries.push((topic.to_string(), v));
        proof {
            let n = before.entries@.len() as int;
            assert(self.entries@[n].0@ == topic@);
            assert(self.wf());
            self.lemma_at(n);
            let after = before@.insert(topic@, v);
            assert forall|t: Seq<char>|
                #![trigger self@.dom().contains(t)]
                #![trigger after.dom().contains(t)]
                self@.dom().contains(t) == after.dom().contains(t) && (self@.dom().contains(t)
                    ==> self@[t] == after[t]) by {
                if self@.contains_key(t) {
                    let k = self.lemma_some(t);
                    if k < n {
                        assert(self.entries@[k] == before.entries@[k]);
                        before.lemma_at(k);
                    }
                }
                if before@.contains_key(t) {
                    let k = before.lemma_some(t);
                    assert(self.entries@[k] == before.entries@[k]);
                    self.lemma_at(k);
                }
            }
            assert(self@ =~= after);
            assert(self@ =~= old(self)@.insert(topic@, v));
        }
    }
}

impl<V> TopicMap<V> {
    /// The topics, each of them once.
    pub fn topics(&self) -> (r: Vec<String>)
        requires
            self.wf(),
        ensures
            texts(r@).no_duplicates(),
            forall|t: Seq<char>| #[trigger] texts(r@).contains(t) <==> self@.contains_key(t),
    {
        let mut out: Vec<String> = Vec::new();
        let mut i: usize = 0;
        while i < self.entries.len()
            invariant
                i <= self.entries@.len(),
                out@.len() == i,
                forall|k: int| 0 <= k < i ==> (#[trigger] out@[k])@ == self.entries@[k].0@,
            decreases self.entries@.len() - i,
        {
            out.push(self.entries[i].0.clone());
            i = i + 1;
        }
        proof {
            assert forall|a: int, b: int| 0 <= a < b < out@.len() implies texts(out@)[a] != texts(
                out@,
            )[b] by {
                assert(texts(out@)[a] == self.entries@[a].0@);
                assert(texts(out@)[b] == self.entries@[b].0@);
            }
            assert forall|t: Seq<char>| #[trigger]
                texts(out@).contains(t) <==> self@.contains_key(t) by {
                if texts(out@).contains(t) {
                    let k = choose|k: int| 0 <= k < texts(out@).len() && texts(out@)[k] == t;
                    assert(out@[k]@ == t);
                    self.lemma_at(k);
                }
                if self@.contains_key(t) {
                    let k = self.lemma_some(t);
                    assert(texts(out@)[k] == t);
                }
            }
        }
        out
    }
}

impl TopicMap<usize> {
    /// Whether every number is below the largest there is.
    pub fn all_below_max(&self) -> (r: bool)
        requires
            self.wf(),
        ensures
            r == (forall|t: Seq<char>|
                self@.contains_key(t) ==> #[trigger] self@[t] < usize::MAX),
    {
        let mut i: usize = 0;
        while i < self.entries.len()
            invariant
                self.wf(),
                i <= self.entries@.len(),
                forall|k: int| 0 <= k < i ==> (#[trigger] self.entries@[k]).1 < usize::MAX,
            decreases self.entries@.len() - i,
        {
            if self.entries[i].1 == usize::MAX {
                proof {
                    self.lemma_at(i as int);
                    assert(self@[self.entries@[i as int].0@] == usize::MAX);
                }
                return false;
            }
            i = i + 1;
        }
        assert forall|t: Seq<char>| self@.contains_key(t) implies #[trigger] self@[t] < usize::MAX by {
            let k = self.lemma_some(t);
            assert(self.entries@[k].1 < usize::MAX);
        }
        true
    }
}

} // verus!
