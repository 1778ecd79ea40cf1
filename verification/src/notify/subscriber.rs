//! Subscriber-based notifications for configuration changes.

use vstd::prelude::*;

verus! {

/// A change listener. `notify` is called once per successful configuration
/// swap, in subscription order.
pub trait Subscriber {
    /// React to a configuration change.
    fn notify(&self);
}

/// Handle for a subscription; pass it back to `unsubscribe` to end the
/// subscription.
pub struct SubscriptionHandle {
    /// The identifier the registry assigned to this subscription.
    pub id: u64,
}

/// Registry of change subscribers, notified in subscription order.
pub struct SubscriberRegistry<S> {
    entries: Vec<(u64, S)>,
    next_id: u64,
    notified: Ghost<nat>,
}

impl<S: Subscriber> SubscriberRegistry<S> {
    /// The registered subscribers with their identifiers, in subscription
    /// order.
    pub closed spec fn subscribers(&self) -> Seq<(u64, S)> {
        self.entries@
    }

    /// The identifier the next subscription will receive.
    pub closed spec fn next_id_spec(&self) -> u64 {
        self.next_id
    }

    /// How many notification passes have run.
    pub closed spec fn notify_count(&self) -> nat {
        self.notified@
    }

    /// Identifiers are strictly increasing and below the next one to assign.
    pub closed spec fn wf(&self) -> bool {
        &&& forall|i: int, j: int|
            0 <= i < j < self.entries@.len() ==> self.entries@[i].0 < self.entries@[j].0
        &&& forall|i: int| 0 <= i < self.entries@.len() ==> self.entries@[i].0 < self.next_id
    }

    /// Create an empty registry.
    pub fn new() -> (r: Self)
        ensures
            r.wf(),
            r.subscribers() == Seq::<(u64, S)>::empty(),
            r.next_id_spec() == 0,
            r.notify_count() == 0,
    {
        SubscriberRegistry { entries: Vec::new(), next_id: 0, notified: Ghost(0) }
    }

    /// Register a subscriber; it takes part in every later notification pass
    /// until it is unsubscribed.
    pub fn subscribe(&mut self, subscriber: S) -> (h: SubscriptionHandle)
        requires
            old(self).wf(),
            old(self).next_id_spec() < u64::MAX,
        ensures
            final(self).wf(),
            final(self).subscribers() == old(self).subscribers().push(
                (old(self).next_id_spec(), subscriber),
            ),
            final(self).next_id_spec() == old(self).next_id_spec() + 1,
            final(self).notify_count() == old(self).notify_count(),
            h.id == old(self).next_id_spec(),
    {
        let id = self.next_id;
        self.next_id = self.next_id + 1;
        self.entries.push((id, subscriber));
        SubscriptionHandle { id }
    }

    /// Remove the subscription the handle stands for. In-flight passes are
    /// unaffected; after this returns the subscriber is never called again.
    pub fn unsubscribe(&mut self, handle: SubscriptionHandle)
        requires
            old(self).wf(),
        ensures
            final(self).wf(),
            final(self).subscribers() == old(self).subscribers().filter(
                |e: (u64, S)| e.0 != handle.id,
            ),
            final(self).next_id_spec() == old(self).next_id_spec(),
            final(self).notify_count() == old(self).notify_count(),
    {
        let n = self.entries.len();
        let mut kept: Vec<(u64, S)> = Vec::new();
        let mut i: usize = 0;
        while i < n
            invariant
                n == old(self).subscribers().len(),
                self.entries@ == old(self).subscribers().skip(i as int),
                self.next_id == old(self).next_id_spec(),
                self.notified == old(self).notified,
                0 <= i <= n,
                kept@ == old(self).subscribers().take(i as int).filter(
                    |e: (u64, S)| e.0 != handle.id,
                ),
            decreases n - i,
        {
            let ghost pre = kept@;
            let (id, s) = self.entries.remove(0);
            if id != handle.id {
                kept.push((id, s));
            }
            proof {
                let prefix = old(self).subscribers().take(i as int);
                let prefix1 = old(self).subscribers().take(i + 1 as int);
                assert(prefix1.drop_last() =~= prefix);
                assert(prefix1.last() == old(self).subscribers()[i as int]);
                reveal(Seq::filter);
                assert(prefix1.filter(|e: (u64, S)| e.0 != handle.id) == if old(
                    self,
                ).subscribers()[i as int].0 != handle.id {
                    prefix.filter(|e: (u64, S)| e.0 != handle.id).push(
                        old(self).subscribers()[i as int],
                    )
                } else {
                    prefix.filter(|e: (u64, S)| e.0 != handle.id)
                });
                assert(self.entries@ =~= old(self).subscribers().skip(i + 1 as int));
            }
            i = i + 1;
        }
        proof {
            assert(old(self).subscribers().take(n as int) =~= old(self).subscribers());
        }
        self.entries = kept;
        proof {
            let f = |e: (u64, S)| e.0 != handle.id;
            let kept_seq = old(self).subscribers().filter(f);
            reveal(Seq::filter);
            assert forall|a: int, b: int|
                0 <= a < b < kept_seq.len() implies kept_seq[a].0 < kept_seq[b].0 by {
                lemma_filter_ordered(old(self).subscribers(), f, a, b);
            }
            assert forall|a: int| 0 <= a < kept_seq.len() implies kept_seq[a].0
                < self.next_id by {
                lemma_filter_ordered(old(self).subscribers(), f, a, a);
                let i = choose|i: int|
                    0 <= i < old(self).subscribers().len() && old(self).subscribers()[i]
                        == kept_seq[a];
                assert(old(self).subscribers()[i].0 < old(self).next_id_spec());
            }
        }
    }

    /// Invoke every subscriber once, in subscription order.
    pub fn notify_all(&mut self)
        requires
            old(self).wf(),
        ensures
            final(self).wf(),
            final(self).subscribers() == old(self).subscribers(),
            final(self).next_id_spec() == old(self).next_id_spec(),
            final(self).notify_count() == old(self).notify_count() + 1,
    {
        let n = self.entries.len();
        let mut i: usize = 0;
        while i < n
            invariant
                *self == *old(self),
                n == self.entries@.len(),
                0 <= i <= n,
            decreases n - i,
        {
            self.entries[i].1.notify();
            i = i + 1;
        }
        proof {
            self.notified@ = self.notified@ + 1;
        }
    }

    /// The number of active subscribers.
    pub fn subscriber_count(&self) -> (n: usize)
        ensures
            n == self.subscribers().len(),
    {
        self.entries.len()
    }
}

/// An element kept by `filter` keeps every property that each element of the
/// source sequence has; here, the strict ordering of identifiers.
proof fn lemma_filter_ordered<S>(s: Seq<(u64, S)>, f: spec_fn((u64, S)) -> bool, a: int, b: int)
    requires
        forall|i: int, j: int| 0 <= i < j < s.len() ==> s[i].0 < s[j].0,
        0 <= a <= b < s.filter(f).len(),
    ensures
        a < b ==> s.filter(f)[a].0 < s.filter(f)[b].0,
        exists|i: int| 0 <= i < s.len() && s[i] == s.filter(f)[b],
    decreases s.len(),
{
    reveal(Seq::filter);
    if s.len() > 0 {
        let fs = s.filter(f);
        let prev = s.drop_last().filter(f);
        assert(fs == if f(s.last()) {
            prev.push(s.last())
        } else {
            prev
        });
        if b < prev.len() {
            lemma_filter_ordered(s.drop_last(), f, a, b);
            assert(forall|i: int|
                0 <= i < s.drop_last().len() ==> s.drop_last()[i] == s[i]);
        } else {
            assert(f(s.last()) && fs[b] == s.last());
            assert(s[s.len() - 1] == fs[b]);
            if a < b {
                lemma_filter_ordered(s.drop_last(), f, a, a);
                let i = choose|i: int|
                    0 <= i < s.drop_last().len() && s.drop_last()[i] == prev[a];
                assert(s[i] == fs[a]);
            }
        }
    }
}

} // verus!
