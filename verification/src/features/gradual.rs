//! Gradual configuration rollout for A/B testing.
//!
//! Keeps a stable and an optional canary configuration with a rollout
//! percentage; selection happens at query time, keyed for per-user
//! stickiness or random for aggregate sampling.

use crate::error::ConfigError;
use crate::notify::subscriber::Subscriber;
use crate::store::config_handle::HotswapConfig;
use vstd::prelude::*;

verus! {

/// The hash a routing key maps to: a deterministic function of the key's
/// characters alone, so the same key always lands on the same side.
pub open spec fn key_hash(s: Seq<char>) -> u64
    decreases s.len(),
{
    if s.len() == 0 {
        0u64
    } else {
        key_hash(s.drop_last()).wrapping_mul(31).wrapping_add((s.last() as u32) as u64)
    }
}

/// Gradual rollout state: a stable configuration, an optional canary, and a
/// rollout percentage clamped to 0..=100.
pub struct GradualRollout<T> {
    stable: T,
    canary: Option<T>,
    percentage: u8,
}

impl<T> GradualRollout<T> {
    /// The stable configuration.
    pub closed spec fn spec_stable(&self) -> T {
        self.stable
    }

    /// The canary configuration, if one is set.
    pub closed spec fn spec_canary(&self) -> Option<T> {
        self.canary
    }

    /// The rollout percentage.
    pub closed spec fn spec_percentage(&self) -> u8 {
        self.percentage
    }

    /// The percentage never exceeds 100.
    pub open spec fn wf(&self) -> bool {
        self.spec_percentage() <= 100
    }

    /// The configuration a keyed lookup selects: the canary exactly when one
    /// is set and the key hashes below the rollout percentage (or the rollout
    /// is at 100); otherwise the stable configuration.
    pub open spec fn selection(&self, key: Seq<char>) -> T {
        match self.spec_canary() {
            Some(c) => {
                if self.spec_percentage() == 100 {
                    c
                } else if key_hash(key) % 100 < self.spec_percentage() as u64 {
                    c
                } else {
                    self.spec_stable()
                }
            },
            None => self.spec_stable(),
        }
    }

    /// Create a rollout with a stable configuration, no canary, and a zero
    /// percentage.
    pub fn new(stable: T) -> (r: Self)
        ensures
            r.wf(),
            r.spec_stable() == stable,
            r.spec_canary() is None,
            r.spec_percentage() == 0,
    {
        GradualRollout { stable, canary: None, percentage: 0 }
    }

    /// Set the canary configuration and rollout percentage; the percentage is
    /// clamped to at most 100. No validation gate runs in this mode.
    pub fn set_canary(&mut self, canary: T, percentage: u8)
        ensures
            final(self).wf(),
            final(self).spec_stable() == old(self).spec_stable(),
            final(self).spec_canary() == Some(canary),
            final(self).spec_percentage() == if percentage <= 100 {
                percentage
            } else {
                100u8
            },
    {
        let percentage = if percentage <= 100 {
            percentage
        } else {
            100
        };
        self.canary = Some(canary);
        self.percentage = percentage;
    }

    /// Increase the rollout percentage by `delta`, clamping the result to
    /// 100. Returns the new percentage.
    pub fn increase_percentage(&mut self, delta: u8) -> (r: u8)
        requires
            old(self).wf(),
        ensures
            final(self).wf(),
            final(self).spec_stable() == old(self).spec_stable(),
            final(self).spec_canary() == old(self).spec_canary(),
            r == final(self).spec_percentage(),
            final(self).spec_percentage() == if old(self).spec_percentage() + delta <= 100 {
                (old(self).spec_percentage() + delta) as u8
            } else {
                100u8
            },
    {
        let sum: u16 = self.percentage as u16 + delta as u16;
        self.percentage = if sum <= 100 {
            sum as u8
        } else {
            100
        };
        self.percentage
    }

    /// Promote the canary to stable: the canary becomes the stable
    /// configuration, the canary is cleared, and the percentage resets to 0,
    /// as one transition. Fails exactly when no canary is set, changing
    /// nothing.
    pub fn promote(&mut self) -> (r: Result<(), ConfigError>)
        requires
            old(self).wf(),
        ensures
            final(self).wf(),
            r is Ok <==> old(self).spec_canary() is Some,
            r is Err ==> *final(self) == *old(self) && (r matches Err(ConfigError::Other(_))),
            r is Ok ==> final(self).spec_stable() == old(self).spec_canary()->0 && final(self).spec_canary() is None && final(self).spec_percentage() == 0,
    {
        let taken = self.canary.take();
        match taken {
            None => Err(
                ConfigError::Other(String::from_str("No canary configuration to promote")),
            ),
            Some(c) => {
                self.stable = c;
                self.percentage = 0;
                Ok(())
            },
        }
    }

    /// Discard the canary and reset the percentage to 0, leaving the stable
    /// configuration untouched.
    pub fn rollback_canary(&mut self)
        ensures
            final(self).wf(),
            final(self).spec_stable() == old(self).spec_stable(),
            final(self).spec_canary() is None,
            final(self).spec_percentage() == 0,
    {
        self.canary = None;
        self.percentage = 0;
    }

    /// Select a configuration.
    ///
    /// With no canary or a zero percentage this is always the stable
    /// configuration; at 100 percent it is always the canary. In between, a
    /// routing key selects deterministically by its hash — the same key maps
    /// to the same side as long as the percentage and canary are unchanged —
    /// while no key draws uniformly at random, independently per call.
    pub fn get(&self, key: Option<&str>) -> (r: &T)
        requires
            self.wf(),
        ensures
            self.spec_canary() is None || self.spec_percentage() == 0 ==> *r
                == self.spec_stable(),
            self.spec_canary() is Some && self.spec_percentage() == 100 ==> *r
                == self.spec_canary()->0,
            self.spec_canary() is Some && self.spec_percentage() > 0 ==> (key matches Some(k)
                ==> *r == self.selection(k@)),
            *r == self.spec_stable() || (self.spec_canary() is Some && *r
                == self.spec_canary()->0),
    {
        let percentage = self.percentage;
        match &self.canary {
            None => &self.stable,
            Some(c) => {
                if percentage == 0 {
                    &self.stable
                } else if percentage == 100 {
                    c
                } else {
                    let use_canary = match key {
                        Some(k) => {
                            let h = hash_key(k);
                            h % 100 < percentage as u64
                        },
                        None => random_percent() < percentage,
                    };
                    if use_canary {
                        c
                    } else {
                        &self.stable
                    }
                }
            },
        }
    }

    /// The current rollout percentage.
    pub fn get_percentage(&self) -> (r: u8)
        ensures
            r == self.spec_percentage(),
    {
        self.percentage
    }

    /// Whether a canary configuration is currently set.
    pub fn has_canary(&self) -> (r: bool)
        ensures
            r == (self.spec_canary() is Some),
    {
        match &self.canary {
            Some(_) => true,
            None => false,
        }
    }

    /// The stable configuration.
    pub fn get_stable(&self) -> (r: &T)
        ensures
            *r == self.spec_stable(),
    {
        &self.stable
    }

    /// The canary configuration, if one is set.
    pub fn get_canary(&self) -> (r: Option<&T>)
        ensures
            match r {
                Some(c) => self.spec_canary() == Some(*c),
                None => self.spec_canary() is None,
            },
    {
        match &self.canary {
            Some(c) => Some(c),
            None => None,
        }
    }
}

/// Consistent hashing: with the stable, canary, and percentage unchanged,
/// keyed selection is a function of the key alone, so the same key always
/// returns the same side across any number of lookups.
pub proof fn lemma_consistent_hashing<T>(
    g1: GradualRollout<T>,
    g2: GradualRollout<T>,
    key: Seq<char>,
)
    requires
        g1.spec_stable() == g2.spec_stable(),
        g1.spec_canary() == g2.spec_canary(),
        g1.spec_percentage() == g2.spec_percentage(),
    ensures
        g1.selection(key) == g2.selection(key),
{
}

impl<T: Clone, S: Subscriber> HotswapConfig<T, S> {
    /// Enable gradual rollout, with a clone of the current generation as the
    /// stable configuration.
    pub fn enable_gradual_rollout(&self) -> (r: GradualRollout<T>)
        ensures
            r.wf(),
            cloned::<T>(self.spec_current(), r.spec_stable()),
            r.spec_canary() is None,
            r.spec_percentage() == 0,
    {
        GradualRollout::new(self.get().clone())
    }
}

/// Hash a routing key to the value `key_hash` defines.
fn hash_key(s: &str) -> (h: u64)
    ensures
        h == key_hash(s@),
{
    let n = s.unicode_len();
    let mut h: u64 = 0;
    let mut i: usize = 0;
    while i < n
        invariant
            n == s@.len(),
            0 <= i <= n,
            h == key_hash(s@.take(i as int)),
        decreases n - i,
    {
        let c = s.get_char(i);
        h = h.wrapping_mul(31).wrapping_add((c as u32) as u64);
        proof {
            assert(s@.take(i + 1 as int).drop_last() =~= s@.take(i as int));
            assert(s@.take(i + 1 as int).last() == s@[i as int]);
        }
        i = i + 1;
    }
    proof {
        assert(s@.take(n as int) =~= s@);
    }
    h
}

/// Relies on `fastrand::u8` over the range `0..100`: a draw from a non-empty
/// range, so the result is below 100; which value comes back is random and
/// promised by nothing.
#[verifier::external_body]
fn random_percent() -> (r: u8)
    ensures
        r < 100,
{
    fastrand::u8(0..100)
}

} // verus!
