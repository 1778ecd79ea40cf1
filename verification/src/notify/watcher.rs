//! Watcher state for file-triggered reloads: which paths are watched, and
//! the debounce decision that coalesces bursts of change events into single
//! reload pulses.
//!
//! Observing the file system is outside this library: whatever watches the
//! paths feeds each raw change event's time into `on_event` and performs the
//! action it decides.

use vstd::prelude::*;

verus! {

/// What to do with a change event: trigger a reload now, or check again
/// after a delay because one fired too recently.
pub enum DebounceAction {
    /// Trigger a reload immediately.
    TriggerNow,
    /// Wait this many milliseconds, then offer the event again.
    DelayFor(u64),
}

/// Watch state: the watched paths, the debounce interval, and when the last
/// reload was triggered.
pub struct ConfigWatcher {
    debounce_ms: u64,
    watched: Vec<String>,
    last_trigger: Option<u64>,
}

impl ConfigWatcher {
    /// The watched paths.
    pub closed spec fn spec_watched(&self) -> Seq<String> {
        self.watched@
    }

    /// The debounce interval, in milliseconds.
    pub closed spec fn spec_debounce_ms(&self) -> u64 {
        self.debounce_ms
    }

    /// When the last reload was triggered, if one was.
    pub closed spec fn spec_last_trigger(&self) -> Option<u64> {
        self.last_trigger
    }

    /// Create a watcher with the given debounce interval and no watched
    /// paths.
    pub fn new(debounce_ms: u64) -> (r: Self)
        ensures
            r.spec_debounce_ms() == debounce_ms,
            r.spec_watched() == Seq::<String>::empty(),
            r.spec_last_trigger() is None,
    {
        ConfigWatcher { debounce_ms, watched: Vec::new(), last_trigger: None }
    }

    /// Add a path to watch; a path already watched is not added twice.
    pub fn watch(&mut self, path: &str)
        ensures
            final(self).spec_debounce_ms() == old(self).spec_debounce_ms(),
            final(self).spec_last_trigger() == old(self).spec_last_trigger(),
            (exists|i: int|
                0 <= i < old(self).spec_watched().len() && (#[trigger] old(
                    self,
                ).spec_watched()[i])@ == path@) ==> final(self).spec_watched() == old(
                self,
            ).spec_watched(),
            !(exists|i: int|
                0 <= i < old(self).spec_watched().len() && (#[trigger] old(
                    self,
                ).spec_watched()[i])@ == path@) ==> final(self).spec_watched().len() == old(
                self,
            ).spec_watched().len() + 1 && final(self).spec_watched().last()@ == path@ && (forall|
                i: int,
            |
                0 <= i < old(self).spec_watched().len() ==> final(self).spec_watched()[i] == old(
                    self,
                ).spec_watched()[i]),
    {
        let n = self.watched.len();
        let mut i: usize = 0;
        while i < n
            invariant
                *self == *old(self),
                n == self.watched@.len(),
                0 <= i <= n,
                forall|j: int| 0 <= j < i ==> (#[trigger] self.watched@[j])@ != path@,
            decreases n - i,
        {
            if crate::values::str_eq(self.watched[i].as_str(), path) {
                return ;
            }
            i = i + 1;
        }
        self.watched.push(path.to_owned());
    }

    /// Stop watching a path: every entry equal to it is removed.
    pub fn unwatch(&mut self, path: &str)
        ensures
            final(self).spec_debounce_ms() == old(self).spec_debounce_ms(),
            final(self).spec_last_trigger() == old(self).spec_last_trigger(),
            final(self).spec_watched() == old(self).spec_watched().filter(
                |p: String| p@ != path@,
            ),
    {
        let n = self.watched.len();
        let mut kept: Vec<String> = Vec::new();
        let mut i: usize = 0;
        while i < n
            invariant
                n == old(self).spec_watched().len(),
                self.watched@ == old(self).spec_watched(),
                self.debounce_ms == old(self).spec_debounce_ms(),
                self.last_trigger == old(self).spec_last_trigger(),
                0 <= i <= n,
                kept@ == old(self).spec_watched().take(i as int).filter(|p: String| p@ != path@),
            decreases n - i,
        {
            let entry = &self.watched[i];
            proof {
                let prefix = old(self).spec_watched().take(i as int);
                let prefix1 = old(self).spec_watched().take(i + 1 as int);
                assert(prefix1.drop_last() =~= prefix);
                assert(prefix1.last() == old(self).spec_watched()[i as int]);
                reveal(Seq::filter);
            }
            if !crate::values::str_eq(entry.as_str(), path) {
                let copy = entry.clone();
                kept.push(copy);
                proof {
                    assert(kept@.last() == old(self).spec_watched()[i as int]);
                }
            }
            i = i + 1;
        }
        proof {
            assert(old(self).spec_watched().take(n as int) =~= old(self).spec_watched());
        }
        self.watched = kept;
    }

    /// The debounce interval, in milliseconds.
    pub fn debounce_duration(&self) -> (r: u64)
        ensures
            r == self.spec_debounce_ms(),
    {
        self.debounce_ms
    }

    /// The currently watched paths.
    pub fn watched_paths(&self) -> (r: Vec<String>)
        ensures
            r@.len() == self.spec_watched().len(),
            forall|i: int| 0 <= i < r@.len() ==> (#[trigger] r@[i])@ == self.spec_watched()[i]@,
    {
        let n = self.watched.len();
        let mut out: Vec<String> = Vec::new();
        let mut i: usize = 0;
        while i < n
            invariant
                n == self.watched@.len(),
                0 <= i <= n,
                out@.len() == i,
                forall|j: int| 0 <= j < i ==> (#[trigger] out@[j])@ == self.watched@[j]@,
            decreases n - i,
        {
            out.push(self.watched[i].clone());
            i = i + 1;
        }
        out
    }

    /// Decide what to do with a change event observed at `now_ms`: trigger a
    /// reload if none has fired within the debounce interval, else delay for
    /// the remainder of the interval.
    pub fn on_event(&mut self, now_ms: u64) -> (r: DebounceAction)
        ensures
            final(self).spec_debounce_ms() == old(self).spec_debounce_ms(),
            final(self).spec_watched() == old(self).spec_watched(),
            match old(self).spec_last_trigger() {
                Option::None => r == DebounceAction::TriggerNow,
                Option::Some(last) => {
                    if now_ms >= last && now_ms - last >= old(self).spec_debounce_ms() {
                        r == DebounceAction::TriggerNow
                    } else if now_ms >= last {
                        r == DebounceAction::DelayFor(
                            (old(self).spec_debounce_ms() - (now_ms - last)) as u64,
                        )
                    } else {
                        r == DebounceAction::DelayFor(old(self).spec_debounce_ms())
                    }
                },
            },
            r is TriggerNow ==> final(self).spec_last_trigger() == Some(now_ms),
            r is DelayFor ==> final(self).spec_last_trigger() == old(self).spec_last_trigger(),
    {
        match self.last_trigger {
            None => {
                self.last_trigger = Some(now_ms);
                DebounceAction::TriggerNow
            },
            Some(last) => {
                if now_ms >= last {
                    let elapsed = now_ms - last;
                    if elapsed >= self.debounce_ms {
                        self.last_trigger = Some(now_ms);
                        DebounceAction::TriggerNow
                    } else {
                        DebounceAction::DelayFor(self.debounce_ms - elapsed)
                    }
                } else {
                    DebounceAction::DelayFor(self.debounce_ms)
                }
            },
        }
    }
}

} // verus!
