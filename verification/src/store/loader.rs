//! The merger: loads configuration from multiple sources and combines them by
//! ascending priority, so that a higher-priority source overrides a lower one
//! key by key (flat overwrite, not a deep merge). Priority ties keep
//! declaration order, so of two equal-priority sources the later-declared one
//! wins.

use crate::error::ConfigError;
use crate::notify::subscriber::Subscriber;
use crate::sources::config_source::ConfigSource;
use crate::store::config_handle::HotswapConfig;
use crate::store::validation::Validate;
use crate::values::ConfigDocument;
use crate::values::ConfigMap;
use crate::values::ConfigValue;
use crate::values::ValueModel;
use vstd::prelude::*;

verus! {

/// Source `a` comes strictly before source `b` in load order: its priority
/// is lower, or equal with `a` declared earlier.
pub open spec fn loads_before(priorities: Seq<i32>, a: int, b: int) -> bool {
    ||| priorities[a] < priorities[b]
    ||| (priorities[a] == priorities[b] && a < b)
}

/// Index `i` occurs somewhere in `ord`.
pub open spec fn order_contains(ord: Seq<usize>, i: int) -> bool {
    exists|k: int| 0 <= k < ord.len() && ((#[trigger] ord[k]) as int) == i
}

/// `ord` lists every index exactly once, in load order: ascending priority,
/// ties in declaration order.
pub open spec fn stable_priority_order(priorities: Seq<i32>, ord: Seq<usize>) -> bool {
    &&& ord.len() == priorities.len()
    &&& (forall|k: int| 0 <= k < ord.len() ==> (#[trigger] ord[k]) < priorities.len())
    &&& (forall|a: int, b: int|
        0 <= a < b < ord.len() ==> loads_before(priorities, ord[a] as int, ord[b] as int))
    &&& (forall|i: int| 0 <= i < priorities.len() ==> #[trigger] order_contains(ord, i))
}

/// The map that merging a sequence of maps in order denotes: each later map's
/// keys overwrite the earlier bindings.
pub open spec fn merged_model(ms: Seq<Map<Seq<char>, ValueModel>>) -> Map<Seq<char>, ValueModel>
    decreases ms.len(),
{
    if ms.len() == 0 {
        Map::empty()
    } else {
        merged_model(ms.drop_last()).union_prefer_right(ms.last())
    }
}

/// Precedence: the last map in the merge order that binds a key decides its
/// value in the merged result.
pub proof fn lemma_merge_precedence(ms: Seq<Map<Seq<char>, ValueModel>>, i: int, k: Seq<char>)
    requires
        0 <= i < ms.len(),
        ms[i].contains_key(k),
        forall|j: int| i < j < ms.len() ==> !(#[trigger] ms[j]).contains_key(k),
    ensures
        merged_model(ms).contains_key(k),
        merged_model(ms)[k] == ms[i][k],
    decreases ms.len(),
{
    if i < ms.len() - 1 {
        assert(ms.drop_last()[i] == ms[i]);
        assert(forall|j: int| i < j < ms.drop_last().len() ==> ms.drop_last()[j] == ms[j]);
        lemma_merge_precedence(ms.drop_last(), i, k);
    }
}

/// A key that no map binds is absent from the merged result.
pub proof fn lemma_merge_absent(ms: Seq<Map<Seq<char>, ValueModel>>, k: Seq<char>)
    requires
        forall|j: int| 0 <= j < ms.len() ==> !(#[trigger] ms[j]).contains_key(k),
    ensures
        !merged_model(ms).contains_key(k),
    decreases ms.len(),
{
    if ms.len() > 0 {
        assert(forall|j: int| 0 <= j < ms.drop_last().len() ==> ms.drop_last()[j] == ms[j]);
        lemma_merge_absent(ms.drop_last(), k);
    }
}

/// Merge a sequence of well-formed maps, in order: flat key overwrite, the
/// later map winning on every key both bind.
pub fn merge_maps(maps: &Vec<ConfigMap>) -> (r: ConfigMap)
    requires
        forall|i: int| 0 <= i < maps@.len() ==> (#[trigger] maps@[i]).wf(),
    ensures
        r.wf(),
        r@ == merged_model(maps@.map_values(|m: ConfigMap| m@)),
    {
    let ghost views = maps@.map_values(|m: ConfigMap| m@);
    let n = maps.len();
    let mut acc = ConfigMap::new();
    let mut i: usize = 0;
    while i < n
        invariant
            n == maps@.len(),
            0 <= i <= n,
            forall|j: int| 0 <= j < maps@.len() ==> (#[trigger] maps@[j]).wf(),
            views == maps@.map_values(|m: ConfigMap| m@),
            acc.wf(),
            acc@ == merged_model(views.take(i as int)),
        decreases n - i,
    {
        acc.merge_from(&maps[i]);
        proof {
            assert(views.take(i + 1 as int).drop_last() =~= views.take(i as int));
            assert(views.take(i + 1 as int).last() == maps@[i as int]@);
        }
        i = i + 1;
    }
    proof {
        assert(views.take(n as int) =~= views);
    }
    acc
}

/// The indices of the given priorities in load order: ascending priority,
/// ties in declaration order (a stable sort of the indices).
pub fn sort_by_priority(priorities: &Vec<i32>) -> (ord: Vec<usize>)
    ensures
        stable_priority_order(priorities@, ord@),
{
    let ghost src = priorities@;
    let n = priorities.len();
    let mut ord: Vec<usize> = Vec::new();
    let mut i: usize = 0;
    while i < n
        invariant
            src == priorities@,
            n == src.len(),
            0 <= i <= n,
            ord@.len() == i,
            forall|k: int| 0 <= k < ord@.len() ==> #[trigger] ord@[k] < i,
            forall|a: int, b: int|
                0 <= a < b < ord@.len() ==> loads_before(src, ord@[a] as int, ord@[b] as int),
            forall|d: int| 0 <= d < i ==> #[trigger] order_contains(ord@, d),
        decreases n - i,
    {
        let pi = priorities[i];
        let mut p: usize = 0;
        while p < ord.len() && priorities[ord[p]] <= pi
            invariant
                src == priorities@,
                n == src.len(),
                i < n,
                forall|k: int| 0 <= k < ord@.len() ==> #[trigger] ord@[k] < i,
                0 <= p <= ord@.len(),
                pi == src[i as int],
                forall|q: int| 0 <= q < p ==> (#[trigger] src[ord@[q] as int]) <= pi,
            decreases ord@.len() - p,
        {
            p = p + 1;
        }
        let ghost before = ord@;
        ord.insert(p, i);
        proof {
            let now = ord@;
            assert(now =~= before.insert(p as int, i));
            assert forall|a: int, b: int|
                0 <= a < b < now.len() implies loads_before(
                src,
                now[a] as int,
                now[b] as int,
            ) by {
                if a < p && b == p {
                    assert(now[a] == before[a]);
                    assert(src[before[a] as int] <= pi);
                } else if a == p && b > p {
                    assert(now[b] == before[b - 1]);
                    if b - 1 > p {
                        assert(loads_before(src, before[p as int] as int, before[b - 1] as int));
                    }
                    assert(src[before[p as int] as int] > pi);
                } else if a < p && b > p {
                    assert(now[a] == before[a] && now[b] == before[b - 1]);
                } else if a > p && b > p {
                    assert(now[a] == before[a - 1] && now[b] == before[b - 1]);
                }
            }
            assert forall|d: int| 0 <= d < i + 1 implies #[trigger] order_contains(
                now,
                d,
            ) by {
                if d == i {
                    assert((now[p as int] as int) == d);
                } else {
                    assert(order_contains(before, d));
                    let k = choose|k: int|
                        0 <= k < before.len() && ((#[trigger] before[k]) as int) == d;
                    if k < p {
                        assert((now[k] as int) == d);
                    } else {
                        assert((now[k + 1] as int) == d);
                    }
                }
            }
        }
        i = i + 1;
    }
    ord
}

/// Arrange names in load order: the name of the lowest-priority source
/// first, ties keeping declaration order.
pub fn order_names(names: &Vec<String>, priorities: &Vec<i32>) -> (r: Vec<String>)
    requires
        names@.len() == priorities@.len(),
    ensures
        exists|ord: Seq<usize>|
            #[trigger] stable_priority_order(priorities@, ord) && r@.len() == names@.len() && (
            forall|k: int| 0 <= k < r@.len() ==> (#[trigger] r@[k])@ == names@[ord[k] as int]@),
{
    let ord = sort_by_priority(priorities);
    let n = ord.len();
    let mut out: Vec<String> = Vec::new();
    let mut k: usize = 0;
    while k < n
        invariant
            n == ord@.len(),
            names@.len() == priorities@.len(),
            stable_priority_order(priorities@, ord@),
            0 <= k <= n,
            out@.len() == k,
            forall|j: int| 0 <= j < k ==> (#[trigger] out@[j])@ == names@[ord@[j] as int]@,
        decreases n - k,
    {
        out.push(names[ord[k]].clone());
        k = k + 1;
    }
    out
}

/// Loads and merges configuration from multiple sources.
pub struct ConfigLoader<S> {
    sources: Vec<S>,
}

impl<S: ConfigSource> ConfigLoader<S> {
    /// The sources, in declaration order.
    pub closed spec fn spec_sources(&self) -> Seq<S> {
        self.sources@
    }

    /// Create a loader with no sources.
    pub fn new() -> (r: Self)
        ensures
            r.spec_sources() == Seq::<S>::empty(),
    {
        ConfigLoader { sources: Vec::new() }
    }

    /// Add a configuration source.
    pub fn add_source(&mut self, source: S)
        ensures
            final(self).spec_sources() == old(self).spec_sources().push(source),
    {
        self.sources.push(source);
    }

    /// Load every source in priority order and merge the results.
    ///
    /// With no sources configured this is a load error. Any single source
    /// failing to load aborts the whole merge, naming the source that failed;
    /// no partial merge is ever returned.
    pub fn load(&self) -> (r: Result<ConfigMap, ConfigError>)
        ensures
            self.spec_sources().len() == 0 <==> (r matches Err(ConfigError::LoadError(m))
                && m@ == "No configuration sources specified"@),
            r matches Ok(m) ==> m.wf(),
            r is Err ==> (r matches Err(ConfigError::LoadError(_))),
    {
        if self.sources.len() == 0 {
            return Err(ConfigError::LoadError(
                String::from_str("No configuration sources specified"),
            ));
        }
        let ord = self.source_order();
        let mut maps: Vec<ConfigMap> = Vec::new();
        let mut k: usize = 0;
        let n = ord.len();
        while k < n
            invariant
                n == ord@.len(),
                0 <= k <= n,
                forall|j: int| 0 <= j < ord@.len() ==> (#[trigger] ord@[j]) < self.spec_sources().len(),
                forall|j: int| 0 <= j < maps@.len() ==> (#[trigger] maps@[j]).wf(),
            decreases n - k,
        {
            let idx = ord[k];
            match self.sources[idx].load() {
                Ok(m) => {
                    maps.push(m);
                },
                Err(e) => {
                    let mut msg = String::from_str("Failed to load source '");
                    let name = self.sources[idx].name();
                    msg.append(name.as_str());
                    msg.append("': ");
                    let detail = e.message();
                    msg.append(detail.as_str());
                    proof {
                        reveal_strlit("Failed to load source '");
                        reveal_strlit("No configuration sources specified");
                        assert(msg@[0] == 'F');
                        assert("No configuration sources specified"@[0] == 'N');
                    }
                    return Err(ConfigError::LoadError(msg));
                },
            }
            k = k + 1;
        }
        Ok(merge_maps(&maps))
    }

    /// The indices of this loader's sources in load order: ascending
    /// priority as the sources report it, ties in declaration order.
    pub fn source_order(&self) -> (ord: Vec<usize>)
        ensures
            ord@.len() == self.spec_sources().len(),
            forall|k: int| 0 <= k < ord@.len() ==> (#[trigger] ord@[k]) < self.spec_sources().len(),
            forall|i: int| 0 <= i < self.spec_sources().len() ==> #[trigger] order_contains(
                ord@,
                i,
            ),
    {
        let n = self.sources.len();
        let mut priorities: Vec<i32> = Vec::new();
        let mut i: usize = 0;
        while i < n
            invariant
                n == self.spec_sources().len(),
                0 <= i <= n,
                priorities@.len() == i,
            decreases n - i,
        {
            priorities.push(self.sources[i].priority());
            i = i + 1;
        }
        sort_by_priority(&priorities)
    }

    /// The source names, in load order as `order_names` arranges it, using
    /// the names and priorities the sources report.
    pub fn source_names(&self) -> (r: Vec<String>)
        ensures
            r@.len() == self.spec_sources().len(),
    {
        let n = self.sources.len();
        let mut names: Vec<String> = Vec::new();
        let mut priorities: Vec<i32> = Vec::new();
        let mut i: usize = 0;
        while i < n
            invariant
                n == self.spec_sources().len(),
                0 <= i <= n,
                names@.len() == i,
                priorities@.len() == i,
            decreases n - i,
        {
            names.push(self.sources[i].name());
            priorities.push(self.sources[i].priority());
            i = i + 1;
        }
        order_names(&names, &priorities)
    }
}

impl<T: ConfigDocument + Validate, S: Subscriber> HotswapConfig<T, S> {
    /// Manually reload the configuration: load and merge all of the loader's
    /// sources by precedence, rebuild the configuration, run it through the
    /// validation gate, swap it in, and notify subscribers.
    ///
    /// Any failure — a source that fails to load, a merged document that
    /// does not deserialize, or a rejected candidate — leaves the current
    /// generation untouched and runs no notification.
    pub fn reload<Src: ConfigSource>(&mut self, loader: &ConfigLoader<Src>) -> (r: Result<
        (),
        ConfigError,
    >)
        requires
            old(self).wf(),
        ensures
            final(self).wf(),
            final(self).validation_enabled() == old(self).validation_enabled(),
            final(self).spec_watching() == old(self).spec_watching(),
            final(self).registry().subscribers() == old(self).registry().subscribers(),
            loader.spec_sources().len() == 0 ==> r is Err,
            r is Err ==> *final(self) == *old(self),
            r is Ok ==> final(self).notify_count() == old(self).notify_count() + 1 && (old(
                self,
            ).validation_enabled() ==> final(self).spec_current().valid()),
    {
        let map = match loader.load() {
            Ok(m) => m,
            Err(e) => {
                return Err(e);
            },
        };
        let doc = ConfigValue::Table(map);
        let candidate = match T::from_document(&doc) {
            Ok(c) => c,
            Err(e) => {
                return Err(e);
            },
        };
        self.update(candidate)
    }
}

} // verus!
