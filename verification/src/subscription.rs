//! The subscriptions that the broker has granted.

use vstd::prelude::*;
use crate::proto::{PacketIdentifier, QoS, SubscribeTopic, SubscribeTopicView};
use crate::topic::{TopicPath, TopicPathView};

verus! {

/// A granted subscription: the identifier of the SUBSCRIBE packet that asked
/// for it, the topic filter, and the level that the broker granted.
#[derive(Debug, Clone, PartialEq, Eq)]
pub struct Subscription {
    pub pid: PacketIdentifier,
    pub topic_path: TopicPath,
    pub qos: QoS,
}

/// What a [`Subscription`] holds.
pub struct SubscriptionView {
    pub pid: PacketIdentifier,
    pub topic_path: TopicPathView,
    pub qos: QoS,
}

impl View for Subscription {
    type V = SubscriptionView;

    open spec fn view(&self) -> SubscriptionView {
        SubscriptionView { pid: self.pid, topic_path: self.topic_path@, qos: self.qos }
    }
}

impl SubscriptionView {
    /// The entry of a SUBSCRIBE packet that asks for this subscription again.
    pub open spec fn request(self) -> SubscribeTopicView {
        SubscribeTopicView { topic_path: self.topic_path.path, qos: self.qos }
    }
}

impl Subscription {
    /// The entry of a SUBSCRIBE packet that asks for this subscription again.
    pub fn to_subscribe_topic(&self) -> (r: SubscribeTopic)
        ensures
            r@ == self@.request(),
    {
        SubscribeTopic { topic_path: self.topic_path.path(), qos: self.qos }
    }
}

/// Whether the subscription at index `i` is the first for the filter `path`.
pub open spec fn first_for(subs: Seq<SubscriptionView>, path: Seq<char>, i: int) -> bool {
    &&& 0 <= i < subs.len()
    &&& subs[i].topic_path.path == path
    &&& forall|j: int| 0 <= j < i ==> (#[trigger] subs[j]).topic_path.path != path
}

/// Whether there is a subscription for the filter `path`.
pub open spec fn subscribed(subs: Seq<SubscriptionView>, path: Seq<char>) -> bool {
    exists|i: int| first_for(subs, path, i)
}

/// Whether no filter occurs twice.
pub open spec fn distinct(subs: Seq<SubscriptionView>) -> bool {
    forall|i: int, j: int|
        0 <= i < j < subs.len() ==> (#[trigger] subs[i]).topic_path.path != (
        #[trigger] subs[j]).topic_path.path
}

/// The subscriptions after `sub` has been granted: it takes the place of the
/// one for the same filter, or comes last if there is none.
pub open spec fn granted(subs: Seq<SubscriptionView>, sub: SubscriptionView) -> Seq<
    SubscriptionView,
> {
    if subscribed(subs, sub.topic_path.path) {
        subs.update(choose|i: int| first_for(subs, sub.topic_path.path, i), sub)
    } else {
        subs.push(sub)
    }
}

/// The subscriptions after the filter `path` has been given up.
pub open spec fn withdrawn(subs: Seq<SubscriptionView>, path: Seq<char>) -> Seq<
    SubscriptionView,
>
    decreases subs.len(),
{
    if subs.len() == 0 {
        subs
    } else if subs.last().topic_path.path == path {
        withdrawn(subs.drop_last(), path)
    } else {
        withdrawn(subs.drop_last(), path).push(subs.last())
    }
}

/// What is left after a filter has been given up was there before, in the
/// same order, and the filter is not among it.
pub proof fn lemma_withdrawn(subs: Seq<SubscriptionView>, path: Seq<char>)
    requires
        distinct(subs),
    ensures
        distinct(withdrawn(subs, path)),
        !subscribed(withdrawn(subs, path), path),
        withdrawn(subs, path).len() <= subs.len(),
        forall|i: int|
            0 <= i < withdrawn(subs, path).len() ==> subs.contains(
                #[trigger] withdrawn(subs, path)[i],
            ),
    decreases subs.len(),
{
    if subs.len() > 0 {
        let front = subs.drop_last();
        lemma_withdrawn(front, path);
        let w = withdrawn(front, path);
        let out = withdrawn(subs, path);
        assert forall|i: int| 0 <= i < out.len() implies subs.contains(#[trigger] out[i]) by {
            if i < w.len() {
                let j = choose|j: int| 0 <= j < front.len() && front[j] == w[i];
                assert(subs[j] == out[i]);
            }
        }
        if subs.last().topic_path.path != path {
            assert forall|i: int, j: int| 0 <= i < j < out.len() implies (
            #[trigger] out[i]).topic_path.path != (#[trigger] out[j]).topic_path.path by {
                if j == w.len() {
                    let k = choose|k: int| 0 <= k < front.len() && front[k] == w[i];
                }
            }
            if subscribed(out, path) {
                let i = choose|i: int| first_for(out, path, i);
                assert(first_for(w, path, i));
            }
        }
    }
}

/// The entries of a SUBSCRIBE packet that ask for all the subscriptions
/// again.
pub open spec fn requests(subs: Seq<SubscriptionView>) -> Seq<SubscribeTopicView> {
    Seq::new(subs.len(), |i: int| subs[i].request())
}

/// The subscriptions of a session, in the order in which they were first
/// granted. No topic filter occurs twice.
pub struct Subscriptions {
    items: Vec<Subscription>,
}

impl View for Subscriptions {
    type V = Seq<SubscriptionView>;

    closed spec fn view(&self) -> Seq<SubscriptionView> {
        Seq::new(self.items@.len(), |i: int| self.items@[i]@)
    }
}

impl Subscriptions {
    #[verifier::type_invariant]
    spec fn no_filter_twice(self) -> bool {
        distinct(self@)
    }

    /// No subscriptions.
    pub fn new() -> (r: Subscriptions)
        ensures
            r@ == Seq::<SubscriptionView>::empty(),
    {
        let r = Subscriptions { items: Vec::new() };
        r
    }

    /// The number of subscriptions.
    pub fn len(&self) -> (r: usize)
        ensures
            r == self@.len(),
    {
        self.items.len()
    }

    /// The index of the subscription for the filter `path`.
    fn find(&self, path: &String) -> (r: Option<usize>)
        ensures
            match r {
                Some(i) => first_for(self@, path@, i as int),
                None => !subscribed(self@, path@),
            },
    {
        let mut i: usize = 0;
        while i < self.items.len()
            invariant
                i <= self.items@.len(),
                forall|j: int| 0 <= j < i ==> (#[trigger] self@[j]).topic_path.path != path@,
            decreases self.items@.len() - i,
        {
            if self.items[i].topic_path.path == *path {
                return Some(i);
            }
            i += 1;
        }
        assert(!subscribed(self@, path@)) by {
            if subscribed(self@, path@) {
                let k = choose|k: int| first_for(self@, path@, k);
            }
        }
        None
    }

    /// Whether there is a subscription for the filter `path`.
    pub fn contains(&self, path: &String) -> (r: bool)
        ensures
            r == subscribed(self@, path@),
    {
        self.find(path).is_some()
    }

    /// Notes a granted subscription: it takes the place of the one for the
    /// same filter, or comes last if there is none.
    pub fn insert(&mut self, sub: Subscription)
        ensures
            final(self)@ == granted(old(self)@, sub@),
            distinct(final(self)@),
    {
        proof {
            use_type_invariant(&*self);
        }
        let ghost before = self@;
        let ghost path = sub@.topic_path.path;
        match self.find(&sub.topic_path.path) {
            Some(i) => {
                proof {
                    let k = choose|k: int| first_for(before, path, k);
                    assert(k == i);
                }
                let mut items: Vec<Subscription> = Vec::new();
                std::mem::swap(&mut items, &mut self.items);
                items.set(i, sub);
                let ghost after = Seq::new(items@.len(), |j: int| items@[j]@);
                proof {
                    assert(after =~= before.update(i as int, sub@));
                    assert forall|a: int, b: int| 0 <= a < b < after.len() implies (
                    #[trigger] after[a]).topic_path.path != (
                    #[trigger] after[b]).topic_path.path by {
                    }
                }
                self.items = items;
            },
            None => {
                let mut items: Vec<Subscription> = Vec::new();
                std::mem::swap(&mut items, &mut self.items);
                items.push(sub);
                let ghost after = Seq::new(items@.len(), |j: int| items@[j]@);
                proof {
                    assert(after =~= before.push(sub@));
                    assert forall|a: int, b: int| 0 <= a < b < after.len() implies (
                    #[trigger] after[a]).topic_path.path != (
                    #[trigger] after[b]).topic_path.path by {
                        if b == before.len() {
                            if before[a].topic_path.path == path {
                                assert(exists|k: int|
                                    0 <= k <= a && first_for(before, path, k)) by {
                                    lemma_first_exists(before, path, a);
                                }
                            }
                        }
                    }
                }
                self.items = items;
            },
        }
    }

    /// Drops the subscription for the filter `path`, if there is one.
    pub fn remove(&mut self, path: &String)
        ensures
            final(self)@ == withdrawn(old(self)@, path@),
            distinct(final(self)@),
    {
        proof {
            use_type_invariant(&*self);
        }
        let ghost before = self@;
        let mut items: Vec<Subscription> = Vec::new();
        std::mem::swap(&mut items, &mut self.items);
        let mut kept: Vec<Subscription> = Vec::new();
        let n = items.len();
        let mut i: usize = 0;
        while i < n
            invariant
                i <= n,
                n == items@.len(),
                before == Seq::new(items@.len(), |j: int| items@[j]@),
                Seq::new(kept@.len(), |j: int| kept@[j]@) == withdrawn(
                    before.take(i as int),
                    path@,
                ),
            decreases n - i,
        {
            assert(before.take(i + 1).drop_last() =~= before.take(i as int));
            if items[i].topic_path.path != *path {
                let item = Subscription {
                    pid: items[i].pid,
                    topic_path: items[i].topic_path.duplicate(),
                    qos: items[i].qos,
                };
                kept.push(item);
            }
            i += 1;
        }
        assert(before.take(n as int) =~= before);
        proof {
            lemma_withdrawn(before, path@);
        }
        self.items = kept;
    }

    /// The entries of a SUBSCRIBE packet that ask for all the subscriptions
    /// again.
    pub fn values(&self) -> (r: Vec<SubscribeTopic>)
        ensures
            crate::mqtt::filters_view(r@) == requests(self@),
    {
        let mut out: Vec<SubscribeTopic> = Vec::new();
        let mut i: usize = 0;
        while i < self.items.len()
            invariant
                i <= self.items@.len(),
                out@.len() == i,
                forall|j: int| 0 <= j < i ==> (#[trigger] out@[j])@ == self@[j].request(),
            decreases self.items@.len() - i,
        {
            out.push(self.items[i].to_subscribe_topic());
            i += 1;
        }
        out
    }
}

/// If the subscription at index `at` is for the filter `path`, there is a
/// first one for it, at `at` or before.
proof fn lemma_first_exists(subs: Seq<SubscriptionView>, path: Seq<char>, at: int)
    requires
        0 <= at < subs.len(),
        subs[at].topic_path.path == path,
    ensures
        exists|k: int| 0 <= k <= at && first_for(subs, path, k),
    decreases at,
{
    if forall|j: int| 0 <= j < at ==> (#[trigger] subs[j]).topic_path.path != path {
        assert(first_for(subs, path, at));
    } else {
        let j = choose|j: int| 0 <= j < at && (#[trigger] subs[j]).topic_path.path == path;
        lemma_first_exists(subs, path, j);
    }
}

} // verus!
