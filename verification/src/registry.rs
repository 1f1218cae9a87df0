//! The topic registry: the process-wide map from topic name to the ordered
//! list of subscriber connection handles.
//!
//! The surrounding process wraps one `Registry` in its lock and calls these
//! methods while holding it; the registry itself is plain verified data.
//! Subscribers are held as opaque connection identifiers; the registry never
//! owns or closes a connection, it only records which handles a publish
//! fans out to and drops the ones whose writes failed.

use vstd::prelude::*;

verus! {

/// One topic: a name and its subscribers in registration order.
pub struct Topic {
    pub name: String,
    pub subs: Vec<u64>,
}

/// The registry, viewed as a `Map<Seq<char>, Seq<u64>>` from topic name to
/// subscriber handles in order.
pub struct Registry {
    topics: Vec<Topic>,
}

spec fn has_topic(ts: Seq<Topic>, k: Seq<char>) -> bool {
    exists|i: int| 0 <= i < ts.len() && ts[i].name@ == k
}

spec fn topic_index(ts: Seq<Topic>, k: Seq<char>) -> int {
    choose|i: int| 0 <= i < ts.len() && ts[i].name@ == k
}

spec fn subs_for(ts: Seq<Topic>, k: Seq<char>) -> Seq<u64> {
    ts[topic_index(ts, k)].subs@
}

/// No two entries share a name: at most one logical topic per name.
spec fn names_unique(ts: Seq<Topic>) -> bool {
    forall|i: int, j: int|
        0 <= i < j < ts.len() ==> ts[i].name@ != ts[j].name@
}

/// With unique names, the entry holding name `k` is the only one, so the
/// chosen index is exactly `i`.
proof fn lemma_unique_index(ts: Seq<Topic>, k: Seq<char>, i: int)
    requires
        names_unique(ts),
        0 <= i < ts.len(),
        ts[i].name@ == k,
    ensures
        has_topic(ts, k),
        topic_index(ts, k) == i,
{
    assert(has_topic(ts, k));
    let j = topic_index(ts, k);
    if i < j {
        assert(ts[i].name@ != ts[j].name@);
    } else if j < i {
        assert(ts[j].name@ != ts[i].name@);
    }
}

impl View for Registry {
    type V = Map<Seq<char>, Seq<u64>>;

    closed spec fn view(&self) -> Map<Seq<char>, Seq<u64>> {
        Map::new(
            |k: Seq<char>| has_topic(self.topics@, k),
            |k: Seq<char>| subs_for(self.topics@, k),
        )
    }
}

impl Registry {
    /// The registry's invariant: topic names are unique, so each name maps
    /// to one subscriber list.
    pub closed spec fn wf(&self) -> bool {
        names_unique(self.topics@)
    }

    /// An empty registry: no topics at all.
    pub fn new() -> (r: Registry)
        ensures
            r.wf(),
            r@ == Map::<Seq<char>, Seq<u64>>::empty(),
    {
        let r = Registry { topics: Vec::new() };
        proof {
            assert(r@ =~= Map::<Seq<char>, Seq<u64>>::empty());
        }
        r
    }

    fn find_topic(&self, name: &String) -> (r: Option<usize>)
        requires
            self.wf(),
        ensures
            match r {
                Some(i) => i < self.topics@.len() && self.topics@[i as int].name@ == name@
                    && self@.contains_key(name@),
                None => !self@.contains_key(name@),
            },
    {
        let n = self.topics.len();
        let mut i: usize = 0;
        while i < n
            invariant
                self.wf(),
                n == self.topics@.len(),
                i <= n,
                forall|j: int| 0 <= j < i ==> self.topics@[j].name@ != name@,
            decreases n - i,
        {
            if self.topics[i].name == *name {
                proof {
                    lemma_unique_index(self.topics@, name@, i as int);
                }
                return Some(i);
            }
            i = i + 1;
        }
        proof {
            assert(!has_topic(self.topics@, name@));
        }
        None
    }

    /// Registers `conn` as a subscriber of `topic`: the topic is created on
    /// first use, and the handle is appended to the end of its list. The
    /// same handle may be appended more than once; no other topic changes.
    pub fn subscribe(&mut self, topic: &String, conn: u64)
        requires
            old(self).wf(),
        ensures
            final(self).wf(),
            final(self)@ == old(self)@.insert(
                topic@,
                (if old(self)@.contains_key(topic@) {
                    old(self)@[topic@].push(conn)
                } else {
                    seq![conn]
                }),
            ),
    {
        let found = self.find_topic(topic);
        match found {
            Some(i) => {
                let ghost ts0 = self.topics@;
                proof {
                    lemma_unique_index(ts0, topic@, i as int);
                }
                self.topics[i].subs.push(conn);
                proof {
                    let ts1 = self.topics@;
                    assert(ts1 =~= ts0.update(
                        i as int,
                        Topic { name: ts0[i as int].name, subs: ts1[i as int].subs },
                    ));
                    assert forall|k: Seq<char>| has_topic(ts1, k) == has_topic(ts0, k) by {
                        assert forall|j: int| 0 <= j < ts1.len() implies ts1[j].name@
                            == ts0[j].name@ by {}
                        if has_topic(ts0, k) {
                            let j = topic_index(ts0, k);
                            assert(ts1[j].name@ == k);
                        }
                        if has_topic(ts1, k) {
                            let j = topic_index(ts1, k);
                            assert(ts0[j].name@ == k);
                        }
                    }
                    assert forall|k: Seq<char>| has_topic(ts0, k) implies subs_for(ts1, k) == (
                    if k == topic@ {
                        subs_for(ts0, k).push(conn)
                    } else {
                        subs_for(ts0, k)
                    }) by {
                        let j = topic_index(ts0, k);
                        lemma_unique_index(ts1, k, j);
                        if k == topic@ {
                            lemma_unique_index(ts0, topic@, i as int);
                        }
                    }
                    assert(self@ =~= old(self)@.insert(topic@, old(self)@[topic@].push(conn)));
                }
            },
            None => {
                let ghost ts0 = self.topics@;
                let mut subs: Vec<u64> = Vec::new();
                subs.push(conn);
                let name = topic.clone();
                self.topics.push(Topic { name, subs });
                proof {
                    let ts1 = self.topics@;
                    assert(ts1 =~= ts0.push(ts1.last()));
                    assert(ts1.last().name@ == topic@);
                    assert(ts1.last().subs@ =~= seq![conn]);
                    assert(names_unique(ts1)) by {
                        assert forall|a: int, b: int| 0 <= a < b < ts1.len() implies ts1[a].name@
                            != ts1[b].name@ by {
                            if b == ts1.len() - 1 {
                                assert(!has_topic(ts0, topic@));
                                assert(ts0[a].name@ != topic@);
                            }
                        }
                    }
                    assert forall|k: Seq<char>| #![auto] has_topic(ts1, k) == (has_topic(ts0, k)
                        || k == topic@) by {
                        if has_topic(ts0, k) {
                            let j = topic_index(ts0, k);
                            assert(ts1[j].name@ == k);
                        }
                        if k == topic@ {
                            assert(ts1[ts1.len() - 1].name@ == k);
                        }
                        if has_topic(ts1, k) {
                            let j = topic_index(ts1, k);
                            if j < ts0.len() {
                                assert(ts0[j].name@ == k);
                            }
                        }
                    }
                    assert(subs_for(ts1, topic@) =~= seq![conn]) by {
                        lemma_unique_index(ts1, topic@, ts1.len() - 1);
                    }
                    assert forall|k: Seq<char>| has_topic(ts0, k) implies subs_for(ts1, k)
                        == subs_for(ts0, k) by {
                        let j = topic_index(ts0, k);
                        lemma_unique_index(ts1, k, j);
                    }
                    assert(self@ =~= old(self)@.insert(topic@, seq![conn]));
                }
            },
        }
    }

    /// The fan-out plan for one publish: the current subscribers of `topic`
    /// in list order, and whether the topic exists at all. Publishing to an
    /// absent or empty topic is not an error; the plan is just empty.
    pub fn publish_targets(&self, topic: &String) -> (r: (Vec<u64>, bool))
        requires
            self.wf(),
        ensures
            r.1 == self@.contains_key(topic@),
            r.0@ == (if self@.contains_key(topic@) {
                self@[topic@]
            } else {
                Seq::<u64>::empty()
            }),
    {
        let found = self.find_topic(topic);
        match found {
            Some(i) => {
                proof {
                    lemma_unique_index(self.topics@, topic@, i as int);
                }
                let targets = copy_ids(&self.topics[i].subs);
                (targets, true)
            },
            None => (Vec::new(), false),
        }
    }

    /// Replaces the subscriber list of `topic` with the handles whose flag
    /// in `keep` is true, in the same order: the once-per-publish prune of
    /// subscribers whose writes failed. No other topic changes.
    pub fn prune_topic(&mut self, topic: &String, keep: &Vec<bool>)
        requires
            old(self).wf(),
            old(self)@.contains_key(topic@),
            keep@.len() == old(self)@[topic@].len(),
        ensures
            final(self).wf(),
            final(self)@ == old(self)@.insert(topic@, kept_ids(old(self)@[topic@], keep@)),
    {
        let found = self.find_topic(topic);
        match found {
            Some(i) => {
                let ghost ts0 = self.topics@;
                proof {
                    lemma_unique_index(ts0, topic@, i as int);
                }
                let old_subs_len = self.topics[i].subs.len();
                let mut new_subs: Vec<u64> = Vec::new();
                let mut j: usize = 0;
                while j < old_subs_len
                    invariant
                        self.wf(),
                        self.topics@ == ts0,
                        i < ts0.len(),
                        old_subs_len == ts0[i as int].subs@.len(),
                        keep@.len() == old_subs_len,
                        j <= old_subs_len,
                        new_subs@ == kept_ids(
                            ts0[i as int].subs@.subrange(0, j as int),
                            keep@.subrange(0, j as int),
                        ),
                    decreases old_subs_len - j,
                {
                    let ghost prefix_s = ts0[i as int].subs@.subrange(0, j as int);
                    let ghost prefix_k = keep@.subrange(0, j as int);
                    if keep[j] {
                        new_subs.push(self.topics[i].subs[j]);
                    }
                    proof {
                        assert(ts0[i as int].subs@.subrange(0, j as int + 1) =~= prefix_s.push(
                            ts0[i as int].subs@[j as int],
                        ));
                        assert(keep@.subrange(0, j as int + 1) =~= prefix_k.push(keep@[j as int]));
                        lemma_kept_ids_push(prefix_s, prefix_k, ts0[i as int].subs@[j as int],
                            keep@[j as int]);
                    }
                    j = j + 1;
                }
                proof {
                    assert(ts0[i as int].subs@.subrange(0, old_subs_len as int) =~= ts0[
                        i as int].subs@);
                    assert(keep@.subrange(0, old_subs_len as int) =~= keep@);
                }
                self.topics[i].subs = new_subs;
                proof {
                    let ts1 = self.topics@;
                    assert(ts1 =~= ts0.update(
                        i as int,
                        Topic { name: ts0[i as int].name, subs: ts1[i as int].subs },
                    ));
                    assert forall|k: Seq<char>| has_topic(ts1, k) == has_topic(ts0, k) by {
                        if has_topic(ts0, k) {
                            let j2 = topic_index(ts0, k);
                            assert(ts1[j2].name@ == k);
                        }
                        if has_topic(ts1, k) {
                            let j2 = topic_index(ts1, k);
                            assert(ts0[j2].name@ == k);
                        }
                    }
                    assert forall|k: Seq<char>| has_topic(ts0, k) implies subs_for(ts1, k) == (
                    if k == topic@ {
                        kept_ids(subs_for(ts0, topic@), keep@)
                    } else {
                        subs_for(ts0, k)
                    }) by {
                        let j2 = topic_index(ts0, k);
                        lemma_unique_index(ts1, k, j2);
                        if k == topic@ {
                            lemma_unique_index(ts0, topic@, i as int);
                        }
                    }
                    assert(self@ =~= old(self)@.insert(
                        topic@,
                        kept_ids(old(self)@[topic@], keep@),
                    ));
                }
            },
            None => {
                proof {
                    assert(false);
                }
            },
        }
    }
}

/// The subsequence of `subs` whose flag in `keep` is true, order kept: the
/// survivors of one fan-out pass.
pub open spec fn kept_ids(subs: Seq<u64>, keep: Seq<bool>) -> Seq<u64>
    decreases subs.len(),
{
    if subs.len() == 0 || keep.len() == 0 {
        Seq::empty()
    } else {
        kept_ids(subs.drop_last(), keep.drop_last()) + (if keep.last() {
            seq![subs.last()]
        } else {
            Seq::empty()
        })
    }
}

proof fn lemma_kept_ids_push(subs: Seq<u64>, keep: Seq<bool>, s: u64, k: bool)
    ensures
        kept_ids(subs.push(s), keep.push(k)) == kept_ids(subs, keep) + (if k {
            seq![s]
        } else {
            Seq::<u64>::empty()
        }),
{
    assert(subs.push(s).drop_last() =~= subs);
    assert(keep.push(k).drop_last() =~= keep);
    assert(subs.push(s).last() == s);
    assert(keep.push(k).last() == k);
}

fn copy_ids(v: &Vec<u64>) -> (r: Vec<u64>)
    ensures
        r@ == v@,
{
    let n = v.len();
    let mut r: Vec<u64> = Vec::new();
    let mut i: usize = 0;
    while i < n
        invariant
            n == v@.len(),
            i <= n,
            r@ == v@.subrange(0, i as int),
        decreases n - i,
    {
        r.push(v[i]);
        proof {
            assert(v@.subrange(0, i as int).push(v@[i as int]) =~= v@.subrange(0, i as int + 1));
        }
        i = i + 1;
    }
    proof {
        assert(v@.subrange(0, n as int) =~= v@);
    }
    r
}

} // verus!
