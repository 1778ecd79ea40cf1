//! The main configuration handle: one current generation behind an atomic
//! replace, a validation gate in front of every mutation, and change
//! notification after every successful swap.

use crate::store::validation::Validate;
use crate::error::ConfigError;
use crate::notify::subscriber::Subscriber;
use crate::notify::subscriber::SubscriberRegistry;
use crate::notify::subscriber::SubscriptionHandle;
use vstd::prelude::*;

verus! {

/// The configuration handle. It always holds exactly one fully-formed
/// current generation; a failed update is indistinguishable, to a reader,
/// from the update never having happened.
///
/// `T` is the configuration type; `S` the subscriber type notified on
/// changes.
pub struct HotswapConfig<T, S> {
    current: T,
    validation: bool,
    subscribers: SubscriberRegistry<S>,
    watching: bool,
}

impl<T, S: Subscriber> HotswapConfig<T, S> {
    /// The current generation.
    pub closed spec fn spec_current(&self) -> T {
        self.current
    }

    /// Whether the validation gate is enabled.
    pub closed spec fn validation_enabled(&self) -> bool {
        self.validation
    }

    /// Whether a file watcher drives reloads of this configuration.
    pub closed spec fn spec_watching(&self) -> bool {
        self.watching
    }

    /// The subscriber registry.
    pub closed spec fn registry(&self) -> SubscriberRegistry<S> {
        self.subscribers
    }

    /// How many notification passes have run; one per successful swap.
    pub open spec fn notify_count(&self) -> nat {
        self.registry().notify_count()
    }

    /// The registry is well-formed.
    pub open spec fn wf(&self) -> bool {
        self.registry().wf()
    }

    /// Create a handle with an initial value, no validation gate, and no
    /// subscribers.
    pub fn new(initial: T) -> (r: Self)
        ensures
            r.wf(),
            r.spec_current() == initial,
            !r.validation_enabled(),
            !r.spec_watching(),
            r.registry().subscribers() == Seq::<(u64, S)>::empty(),
            r.notify_count() == 0,
    {
        HotswapConfig {
            current: initial,
            validation: false,
            subscribers: SubscriberRegistry::new(),
            watching: false,
        }
    }

    /// Create a handle with an initial value and the given gate and watch
    /// settings; used by the builder.
    pub fn with_options(initial: T, validation: bool, watching: bool) -> (r: Self)
        ensures
            r.wf(),
            r.spec_current() == initial,
            r.validation_enabled() == validation,
            r.spec_watching() == watching,
            r.registry().subscribers() == Seq::<(u64, S)>::empty(),
            r.notify_count() == 0,
    {
        HotswapConfig {
            current: initial,
            validation,
            subscribers: SubscriberRegistry::new(),
            watching,
        }
    }

    /// Read the current generation. Repeated calls with no intervening
    /// mutation observe the same generation, and a read never observes a
    /// partially applied update.
    pub fn get(&self) -> (r: &T)
        ensures
            *r == self.spec_current(),
    {
        &self.current
    }

    /// Whether a file watcher drives reloads of this configuration.
    pub fn is_watching(&self) -> (r: bool)
        ensures
            r == self.spec_watching(),
    {
        self.watching
    }

    /// Subscribe to configuration changes. The callback is invoked on every
    /// successful update until `unsubscribe` is called with the returned
    /// handle.
    pub fn subscribe(&mut self, subscriber: S) -> (h: SubscriptionHandle)
        requires
            old(self).wf(),
            old(self).registry().next_id_spec() < u64::MAX,
        ensures
            final(self).wf(),
            final(self).spec_current() == old(self).spec_current(),
            final(self).validation_enabled() == old(self).validation_enabled(),
            final(self).spec_watching() == old(self).spec_watching(),
            final(self).registry().subscribers() == old(self).registry().subscribers().push(
                (old(self).registry().next_id_spec(), subscriber),
            ),
            final(self).notify_count() == old(self).notify_count(),
            h.id == old(self).registry().next_id_spec(),
    {
        self.subscribers.subscribe(subscriber)
    }

    /// End a subscription; the subscriber is not called after this returns.
    pub fn unsubscribe(&mut self, handle: SubscriptionHandle)
        requires
            old(self).wf(),
        ensures
            final(self).wf(),
            final(self).spec_current() == old(self).spec_current(),
            final(self).validation_enabled() == old(self).validation_enabled(),
            final(self).spec_watching() == old(self).spec_watching(),
            final(self).registry().subscribers() == old(self).registry().subscribers().filter(
                |e: (u64, S)| e.0 != handle.id,
            ),
            final(self).notify_count() == old(self).notify_count(),
    {
        self.subscribers.unsubscribe(handle)
    }

    /// The number of active subscribers.
    pub fn subscriber_count(&self) -> (n: usize)
        ensures
            n == self.registry().subscribers().len(),
    {
        self.subscribers.subscriber_count()
    }
}

impl<T: Validate, S: Subscriber> HotswapConfig<T, S> {
    /// Update the configuration with a new value directly.
    ///
    /// If the validation gate is enabled and rejects the candidate, the
    /// candidate is discarded, the current generation is untouched, and no
    /// notification runs. On success the new generation is visible before
    /// subscribers are notified, and exactly one notification pass runs.
    pub fn update(&mut self, new_config: T) -> (r: Result<(), ConfigError>)
        requires
            old(self).wf(),
        ensures
            final(self).wf(),
            final(self).validation_enabled() == old(self).validation_enabled(),
            final(self).spec_watching() == old(self).spec_watching(),
            final(self).registry().subscribers() == old(self).registry().subscribers(),
            final(self).registry().next_id_spec() == old(self).registry().next_id_spec(),
            r is Ok <==> (!old(self).validation_enabled() || new_config.valid()),
            r is Ok ==> final(self).spec_current() == new_config && final(self).notify_count()
                == old(self).notify_count() + 1,
            r is Err ==> *final(self) == *old(self) && (r matches Err(
                ConfigError::ValidationError(_),
            )),
    {
        if self.validation {
            match new_config.validate() {
                Ok(()) => {},
                Err(e) => {
                    return Err(ConfigError::ValidationError(e.message()));
                },
            }
        }
        self.current = new_config;
        self.subscribers.notify_all();
        Ok(())
    }
}

/// Read idempotence: with no intervening mutation the store holds one fixed
/// current generation, so repeated reads observe equal generations.
pub proof fn lemma_get_idempotent<T, S: Subscriber>(c: HotswapConfig<T, S>, r1: T, r2: T)
    requires
        r1 == c.spec_current(),
        r2 == c.spec_current(),
    ensures
        r1 == r2,
{
}

} // verus!
