//! Configuration rollback support with bounded version history.
//!
//! History is append-only: rolling back does not rewrite or truncate prior
//! entries, it adds a new entry pointing at old data.

use crate::error::ConfigError;
use crate::notify::subscriber::Subscriber;
use crate::store::config_handle::HotswapConfig;
use crate::store::validation::Validate;
use vstd::prelude::*;

verus! {

/// A versioned configuration snapshot.
pub struct ConfigVersion<T> {
    /// Sequence number: monotonically increasing, gapless per history, never
    /// reused even across evictions.
    pub version: u64,
    /// When this version was recorded, in milliseconds since the epoch.
    pub timestamp: i64,
    /// The configuration data.
    pub config: T,
    /// Optional description of why this version was created.
    pub source: Option<String>,
}

/// Bounded history of configuration versions: `record` appends, and once the
/// log exceeds its capacity the oldest entry is evicted from the front.
pub struct ConfigHistory<T> {
    versions: Vec<ConfigVersion<T>>,
    max_size: usize,
    next_version: u64,
}

impl<T> ConfigHistory<T> {
    /// The retained versions, oldest first.
    pub closed spec fn spec_versions(&self) -> Seq<ConfigVersion<T>> {
        self.versions@
    }

    /// The capacity: how many versions are retained.
    pub closed spec fn spec_max_size(&self) -> usize {
        self.max_size
    }

    /// The sequence number the next `record` will assign.
    pub closed spec fn spec_next_version(&self) -> u64 {
        self.next_version
    }

    /// Retained entries stay within capacity and carry consecutive sequence
    /// numbers ending just below the next one.
    pub open spec fn wf(&self) -> bool {
        &&& self.spec_versions().len() <= self.spec_max_size()
        &&& self.spec_versions().len() <= self.spec_next_version()
        &&& forall|i: int|
            0 <= i < self.spec_versions().len() ==> (#[trigger] self.spec_versions()[i].version)
                == self.spec_next_version() - self.spec_versions().len() + i
    }

    /// Create a history that retains at most `max_size` versions.
    pub fn new(max_size: usize) -> (r: Self)
        ensures
            r.wf(),
            r.spec_versions() == Seq::<ConfigVersion<T>>::empty(),
            r.spec_max_size() == max_size,
            r.spec_next_version() == 0,
    {
        ConfigHistory { versions: Vec::new(), max_size, next_version: 0 }
    }

    /// Record a new configuration version. It receives the next sequence
    /// number; if the log then exceeds its capacity, the oldest entry is
    /// evicted.
    pub fn record(&mut self, config: T, source: Option<String>)
        requires
            old(self).wf(),
            old(self).spec_next_version() < u64::MAX,
        ensures
            final(self).wf(),
            final(self).spec_max_size() == old(self).spec_max_size(),
            final(self).spec_next_version() == old(self).spec_next_version() + 1,
            final(self).spec_versions().len() == if old(self).spec_versions().len() < old(self).spec_max_size() {
                old(self).spec_versions().len() + 1int
            } else {
                old(self).spec_max_size() as int
            },
            forall|i: int|
                0 <= i < final(self).spec_versions().len() - 1 ==> (#[trigger] final(self).spec_versions()[i]) == old(self).spec_versions()[i + (old(self).spec_versions().len() + 1 - final(self).spec_versions().len())],
            final(self).spec_versions().len() > 0 ==> {
                let last = final(self).spec_versions().last();
                last.version == old(self).spec_next_version() && last.config == config
                    && last.source == source
            },
    {
        let entry = ConfigVersion {
            version: self.next_version,
            timestamp: now_millis(),
            config,
            source,
        };
        self.versions.push(entry);
        self.next_version = self.next_version + 1;
        proof {
            assert(self.versions@ =~= old(self).spec_versions().push(entry).skip(0));
        }
        while self.versions.len() > self.max_size
            invariant
                old(self).spec_versions().len() + 1 - self.versions@.len() >= 0,
                self.versions@ == old(self).spec_versions().push(entry).skip(
                    old(self).spec_versions().len() + 1 - self.versions@.len(),
                ),
                self.versions@.len() <= old(self).spec_versions().len() + 1,
                self.versions@.len() >= self.max_size || self.versions@.len() == old(self).spec_versions().len() + 1,
                self.max_size == old(self).spec_max_size(),
                self.next_version == old(self).spec_next_version() + 1,
            decreases self.versions@.len(),
        {
            let _evicted = self.versions.remove(0);
            proof {
                let k = old(self).spec_versions().len() + 1 - self.versions@.len();
                assert(self.versions@ =~= old(self).spec_versions().push(entry).skip(k));
            }
        }
        proof {
            let full = old(self).spec_versions().push(entry);
            let k = old(self).spec_versions().len() + 1 - self.versions@.len();
            if self.versions@.len() > 0 {
                assert(self.versions@.last() == full[full.len() - 1]);
            }
            assert(forall|i: int|
                0 <= i < self.versions@.len() ==> (#[trigger] self.versions@[i]) == full[i + k]);
        }
    }

    /// The sequence number of the most recently recorded version, or 0 if
    /// nothing has been recorded.
    pub fn current_version(&self) -> (r: u64)
        ensures
            r == if self.spec_next_version() == 0 {
                0u64
            } else {
                (self.spec_next_version() - 1) as u64
            },
    {
        if self.next_version == 0 {
            0
        } else {
            self.next_version - 1
        }
    }

    /// The number of retained versions.
    pub fn len(&self) -> (n: usize)
        ensures
            n == self.spec_versions().len(),
    {
        self.versions.len()
    }

    /// Whether the history holds no versions.
    pub fn is_empty(&self) -> (r: bool)
        ensures
            r == (self.spec_versions().len() == 0),
    {
        self.versions.len() == 0
    }

    /// Get the retained version with the given sequence number; an evicted or
    /// never-assigned number yields nothing.
    pub fn get_version(&self, version: u64) -> (r: Option<&ConfigVersion<T>>)
        requires
            self.wf(),
        ensures
            match r {
                Some(v) => {
                    &&& self.spec_next_version() - self.spec_versions().len() <= version
                        < self.spec_next_version()
                    &&& *v == self.spec_versions()[version - (self.spec_next_version()
                        - self.spec_versions().len())]
                    &&& v.version == version
                },
                None => !(self.spec_next_version() - self.spec_versions().len() <= version
                    < self.spec_next_version()),
            },
    {
        let n = self.versions.len();
        let mut i: usize = 0;
        while i < n
            invariant
                self.wf(),
                n == self.spec_versions().len(),
                0 <= i <= n,
                forall|j: int| 0 <= j < i ==> (#[trigger] self.spec_versions()[j].version)
                    != version,
            decreases n - i,
        {
            if self.versions[i].version == version {
                proof {
                    assert(self.spec_versions()[i as int].version == self.spec_next_version()
                        - self.spec_versions().len() + i);
                }
                return Some(&self.versions[i]);
            }
            i = i + 1;
        }
        proof {
            let base = self.spec_next_version() - self.spec_versions().len();
            if base <= version < self.spec_next_version() {
                let j = version - base;
                assert(self.spec_versions()[j].version == base + j);
            }
        }
        None
    }

    /// The `count` most recent versions, newest first.
    pub fn get_recent(&self, count: usize) -> (r: Vec<&ConfigVersion<T>>)
        ensures
            r@.len() == if count < self.spec_versions().len() {
                count as int
            } else {
                self.spec_versions().len() as int
            },
            forall|i: int|
                0 <= i < r@.len() ==> *(#[trigger] r@[i]) == self.spec_versions()[self.spec_versions().len()
                    - 1 - i],
    {
        let n = self.versions.len();
        let take = if count < n {
            count
        } else {
            n
        };
        let mut out: Vec<&ConfigVersion<T>> = Vec::new();
        let mut i: usize = 0;
        while i < take
            invariant
                n == self.spec_versions().len(),
                take <= n,
                0 <= i <= take,
                out@.len() == i,
                forall|j: int|
                    0 <= j < i ==> *(#[trigger] out@[j]) == self.spec_versions()[n - 1 - j],
            decreases take - i,
        {
            out.push(&self.versions[n - 1 - i]);
            i = i + 1;
        }
        out
    }

    /// All retained versions in chronological order.
    pub fn get_all(&self) -> (r: Vec<&ConfigVersion<T>>)
        ensures
            r@.len() == self.spec_versions().len(),
            forall|i: int| 0 <= i < r@.len() ==> *(#[trigger] r@[i]) == self.spec_versions()[i],
    {
        let n = self.versions.len();
        let mut out: Vec<&ConfigVersion<T>> = Vec::new();
        let mut i: usize = 0;
        while i < n
            invariant
                n == self.spec_versions().len(),
                0 <= i <= n,
                out@.len() == i,
                forall|j: int| 0 <= j < i ==> *(#[trigger] out@[j]) == self.spec_versions()[j],
            decreases n - i,
        {
            out.push(&self.versions[i]);
            i = i + 1;
        }
        out
    }

    /// The configuration recorded under the given sequence number, if it is
    /// still retained.
    pub fn rollback_to_version(&self, version: u64) -> (r: Option<&T>)
        requires
            self.wf(),
        ensures
            match r {
                Some(c) => {
                    &&& self.spec_next_version() - self.spec_versions().len() <= version
                        < self.spec_next_version()
                    &&& *c == self.spec_versions()[version - (self.spec_next_version()
                        - self.spec_versions().len())].config
                },
                None => !(self.spec_next_version() - self.spec_versions().len() <= version
                    < self.spec_next_version()),
            },
    {
        match self.get_version(version) {
            Some(v) => Some(&v.config),
            None => None,
        }
    }

    /// The configuration `steps` versions behind the most recently recorded
    /// one; fails if that many versions are not retained.
    pub fn rollback_steps(&self, steps: usize) -> (r: Option<&T>)
        ensures
            match r {
                Some(c) => steps < self.spec_versions().len() && *c
                    == self.spec_versions()[self.spec_versions().len() - 1 - steps].config,
                None => steps >= self.spec_versions().len(),
            },
    {
        let n = self.versions.len();
        if n <= steps {
            return None;
        }
        let index = n - steps - 1;
        Some(&self.versions[index].config)
    }
}

impl<T: Validate + Clone, S: Subscriber> HotswapConfig<T, S> {
    /// Enable rollback support: create a history with the given capacity and
    /// record the current generation as its first version.
    pub fn enable_history(&self, max_size: usize) -> (h: ConfigHistory<T>)
        ensures
            h.wf(),
            h.spec_max_size() == max_size,
            h.spec_next_version() == 1,
            max_size > 0 ==> h.spec_versions().len() == 1 && cloned::<T>(
                self.spec_current(),
                h.spec_versions()[0].config,
            ) && h.spec_versions()[0].version == 0,
            max_size == 0 ==> h.spec_versions().len() == 0,
    {
        let mut history = ConfigHistory::new(max_size);
        let current = self.get().clone();
        history.record(current, Some(String::from_str("Initial version")));
        history
    }

    /// Roll back `steps` versions: fetch that generation from history, run it
    /// through the validation gate, and on success record the rollback as a
    /// new version, leaving prior entries untouched.
    ///
    /// Fails with `InsufficientHistory` exactly when the history does not
    /// retain that many versions; a validation failure leaves both the store
    /// and the history unchanged.
    pub fn rollback(&mut self, history: &mut ConfigHistory<T>, steps: usize) -> (r: Result<
        (),
        ConfigError,
    >)
        requires
            old(self).wf(),
            old(history).wf(),
            old(history).spec_next_version() < u64::MAX,
        ensures
            final(self).wf(),
            final(history).wf(),
            final(self).validation_enabled() == old(self).validation_enabled(),
            (r matches Err(ConfigError::InsufficientHistory { requested, available })
                && requested == steps && available == old(history).spec_versions().len()) <==> steps
                >= old(history).spec_versions().len(),
            steps >= old(history).spec_versions().len() ==> *final(self) == *old(self) && *final(history) == *old(history),
            !old(self).validation_enabled() && steps < old(history).spec_versions().len() ==> r
                is Ok,
            r is Ok ==> rollback_applied(
                *old(self),
                *final(self),
                *old(history),
                *final(history),
                old(history).spec_versions()[old(history).spec_versions().len() - 1 - steps].config,
            ),
            r is Err && steps < old(history).spec_versions().len() ==> (r matches Err(
                ConfigError::ValidationError(_),
            )) && old(self).validation_enabled() && *final(self) == *old(self) && *final(history)
                == *old(history),
    {
        let ghost st = old(history).spec_versions()[old(history).spec_versions().len() - 1
            - steps].config;
        let target = match history.rollback_steps(steps) {
            None => {
                let available = history.len();
                return Err(ConfigError::InsufficientHistory { requested: steps, available });
            },
            Some(t) => t.clone(),
        };
        let ghost c1 = target;
        match self.update(target) {
            Ok(()) => {},
            Err(e) => {
                return Err(e);
            },
        }
        let again = match history.rollback_steps(steps) {
            None => {
                proof {
                    assert(false);
                }
                return Ok(());
            },
            Some(t) => t.clone(),
        };
        let ghost c2 = again;
        history.record(again, Some(String::from_str("Rollback")));
        proof {
            assert(cloned::<T>(st, c1) && self.spec_current() == c1 && (!old(self).validation_enabled() || c1.valid()));
            assert(cloned::<T>(st, c2));
            if history.spec_versions().len() > 0 {
                assert(history.spec_versions().last().config == c2);
            }
        }
        Ok(())
    }

    /// Roll back to the generation recorded under an exact sequence number:
    /// run it through the validation gate and on success record the rollback
    /// as a new version.
    ///
    /// Fails exactly when that sequence number is evicted or was never
    /// assigned; a validation failure leaves both the store and the history
    /// unchanged.
    pub fn rollback_to_version(&mut self, history: &mut ConfigHistory<T>, version: u64) -> (r:
        Result<(), ConfigError>)
        requires
            old(self).wf(),
            old(history).wf(),
            old(history).spec_next_version() < u64::MAX,
        ensures
            final(self).wf(),
            final(history).wf(),
            final(self).validation_enabled() == old(self).validation_enabled(),
            (r matches Err(ConfigError::Other(_))) <==> !(old(history).spec_next_version() - old(history).spec_versions().len() <= version < old(history).spec_next_version()),
            (r matches Err(ConfigError::Other(_))) ==> *final(self) == *old(self) && *final(history) == *old(history),
            !old(self).validation_enabled() && (old(history).spec_next_version() - old(history).spec_versions().len() <= version < old(history).spec_next_version()) ==> r is Ok,
            r is Ok ==> rollback_applied(
                *old(self),
                *final(self),
                *old(history),
                *final(history),
                old(history).spec_versions()[version - (old(history).spec_next_version() - old(history).spec_versions().len())].config,
            ),
            r is Err && (old(history).spec_next_version() - old(history).spec_versions().len()
                <= version < old(history).spec_next_version()) ==> (r matches Err(
                ConfigError::ValidationError(_),
            )) && old(self).validation_enabled() && *final(self) == *old(self) && *final(history)
                == *old(history),
    {
        let ghost st = old(history).spec_versions()[version - (old(history).spec_next_version() - old(history).spec_versions().len())].config;
        let target = match history.rollback_to_version(version) {
            None => {
                return Err(ConfigError::Other(String::from_str("Version not found in history")));
            },
            Some(t) => t.clone(),
        };
        let ghost c1 = target;
        match self.update(target) {
            Ok(()) => {},
            Err(e) => {
                return Err(e);
            },
        }
        let again = match history.rollback_to_version(version) {
            None => {
                proof {
                    assert(false);
                }
                return Ok(());
            },
            Some(t) => t.clone(),
        };
        let ghost c2 = again;
        history.record(again, Some(String::from_str("Rollback")));
        proof {
            assert(cloned::<T>(st, c1) && self.spec_current() == c1 && (!old(self).validation_enabled() || c1.valid()));
            assert(cloned::<T>(st, c2));
            if history.spec_versions().len() > 0 {
                assert(history.spec_versions().last().config == c2);
            }
        }
        Ok(())
    }
}

/// What a successful rollback leaves behind: the store holds a clone of the
/// target generation, exactly one notification pass ran, and the history
/// gained exactly one entry, recording another clone of the target under the
/// next sequence number, with prior retained entries untouched apart from
/// bounded eviction.
pub open spec fn rollback_applied<T: Validate + Clone, S: Subscriber>(
    s0: HotswapConfig<T, S>,
    s1: HotswapConfig<T, S>,
    h0: ConfigHistory<T>,
    h1: ConfigHistory<T>,
    target: T,
) -> bool {
    &&& exists|c: T| #[trigger] cloned::<T>(target, c) && s1.spec_current() == c && (
    !s0.validation_enabled() || c.valid())
    &&& s1.notify_count() == s0.notify_count() + 1
    &&& h1.spec_max_size() == h0.spec_max_size()
    &&& h1.spec_next_version() == h0.spec_next_version() + 1
    &&& h1.spec_versions().len() == if h0.spec_versions().len() < h0.spec_max_size() {
        h0.spec_versions().len() + 1int
    } else {
        h0.spec_max_size() as int
    }
    &&& forall|i: int|
        0 <= i < h1.spec_versions().len() - 1 ==> (#[trigger] h1.spec_versions()[i])
            == h0.spec_versions()[i + (h0.spec_versions().len() + 1 - h1.spec_versions().len())]
    &&& h1.spec_versions().len() > 0 ==> h1.spec_versions().last().version
        == h0.spec_next_version() && (exists|c: T| #[trigger] cloned::<T>(target, c)
        && h1.spec_versions().last().config == c)
}

/// Bounded eviction: a history never retains more than its capacity, and
/// recording `capacity + k` versions leaves exactly `capacity` retained,
/// every sequence number below the retained window being unrecoverable.
pub proof fn lemma_bounded_eviction<T>(h: ConfigHistory<T>)
    requires
        h.wf(),
    ensures
        h.spec_versions().len() <= h.spec_max_size(),
        forall|i: int|
            0 <= i < h.spec_versions().len() ==> (#[trigger] h.spec_versions()[i].version)
                >= h.spec_next_version() - h.spec_versions().len(),
{
}

/// Relies on `chrono::Utc::now` and `timestamp_millis`: the current time,
/// which no contract can pin down.
#[verifier::external_body]
fn now_millis() -> i64 {
    chrono::Utc::now().timestamp_millis()
}

} // verus!
