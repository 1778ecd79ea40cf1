//! The structured configuration value model: a tree of values and the flat
//! key-to-value map that sources produce and the merger combines.

use crate::error::ConfigError;
use vstd::prelude::*;

verus! {

/// Mathematical model of a configuration value: what a [`ConfigValue`] means,
/// with strings as character sequences and tables as maps.
pub enum ValueModel {
    /// Absence of a value.
    Null,
    /// A boolean.
    Bool(bool),
    /// An integer.
    Int(int),
    /// A character string.
    Str(Seq<char>),
    /// An ordered list of values.
    Arr(Seq<ValueModel>),
    /// A table from keys to values.
    Table(Map<Seq<char>, ValueModel>),
}

/// A configuration value: the leaf and branch data that sources produce,
/// patches rewrite, and the merger combines.
#[derive(Debug, PartialEq)]
pub enum ConfigValue {
    /// Absence of a value.
    Null,
    /// A boolean.
    Bool(bool),
    /// A signed integer.
    Int(i64),
    /// A character string.
    Str(String),
    /// An ordered list of values.
    Arr(Vec<ConfigValue>),
    /// A nested table.
    Table(ConfigMap),
}

/// A flat map from string keys to configuration values, with unique keys,
/// keeping insertion order. Its view is a `Map<Seq<char>, ValueModel>`.
#[derive(Debug, PartialEq)]
pub struct ConfigMap {
    entries: Vec<(String, ConfigValue)>,
}

impl ConfigValue {
    /// The mathematical value this node stands for.
    pub open spec fn model(self) -> ValueModel
        decreases self,
    {
        match self {
            ConfigValue::Null => ValueModel::Null,
            ConfigValue::Bool(b) => ValueModel::Bool(b),
            ConfigValue::Int(i) => ValueModel::Int(i as int),
            ConfigValue::Str(s) => ValueModel::Str(s@),
            ConfigValue::Arr(items) => ValueModel::Arr(arr_model(items@)),
            ConfigValue::Table(m) => ValueModel::Table(m.map_model()),
        }
    }
}

/// The models of a sequence of values, element by element.
pub open spec fn arr_model(items: Seq<ConfigValue>) -> Seq<ValueModel>
    decreases items,
{
    if items.len() == 0 {
        Seq::empty()
    } else {
        arr_model(items.drop_last()).push(items.last().model())
    }
}

/// The map denoted by a sequence of key-value entries; a later binding of a
/// key overrides an earlier one.
pub open spec fn table_model(s: Seq<(String, ConfigValue)>) -> Map<Seq<char>, ValueModel>
    decreases s,
{
    if s.len() == 0 {
        Map::empty()
    } else {
        table_model(s.drop_last()).insert(s.last().0@, s.last().1.model())
    }
}

impl ConfigValue {
    /// Deep well-formedness: every table in the tree has unique keys.
    pub open spec fn wf(self) -> bool
        decreases self,
    {
        match self {
            ConfigValue::Null => true,
            ConfigValue::Bool(_) => true,
            ConfigValue::Int(_) => true,
            ConfigValue::Str(_) => true,
            ConfigValue::Arr(items) => forall|i: int|
                0 <= i < items@.len() ==> (#[trigger] items@[i]).wf(),
            ConfigValue::Table(m) => m.wf(),
        }
    }
}

/// The keys of an entry sequence, in order.
pub open spec fn entry_keys(s: Seq<(String, ConfigValue)>) -> Seq<Seq<char>> {
    s.map_values(|e: (String, ConfigValue)| e.0@)
}

/// All keys in the entry sequence are distinct.
pub open spec fn keys_unique(s: Seq<(String, ConfigValue)>) -> bool {
    forall|i: int, j: int| 0 <= i < j < s.len() ==> s[i].0@ != s[j].0@
}

impl ConfigMap {
    /// The map this value denotes.
    pub closed spec fn map_model(&self) -> Map<Seq<char>, ValueModel>
        decreases self,
    {
        table_model(self.entries@)
    }
}

impl View for ConfigMap {
    type V = Map<Seq<char>, ValueModel>;

    open spec fn view(&self) -> Map<Seq<char>, ValueModel> {
        self.map_model()
    }
}

/// The domain of a table model is exactly the set of its entry keys.
pub proof fn lemma_table_model_dom(s: Seq<(String, ConfigValue)>)
    ensures
        table_model(s).dom() == entry_keys(s).to_set(),
    decreases s.len(),
{
    if s.len() == 0 {
        assert(table_model(s).dom() =~= entry_keys(s).to_set());
    } else {
        lemma_table_model_dom(s.drop_last());
        assert(entry_keys(s).drop_last() =~= entry_keys(s.drop_last()));
        assert(entry_keys(s) =~= entry_keys(s).drop_last().push(s.last().0@));
        assert(entry_keys(s).to_set() =~= entry_keys(s).drop_last().to_set().insert(
            s.last().0@,
        )) by {
            assert forall|k: Seq<char>| entry_keys(s).to_set().contains(k) implies entry_keys(
                s,
            ).drop_last().to_set().insert(s.last().0@).contains(k) by {
                let i = choose|i: int| 0 <= i < entry_keys(s).len() && entry_keys(s)[i] == k;
                if i < entry_keys(s).len() - 1 {
                    assert(entry_keys(s).drop_last()[i] == k);
                }
            }
            assert forall|k: Seq<char>|
                entry_keys(s).drop_last().to_set().insert(s.last().0@).contains(
                    k,
                ) implies entry_keys(s).to_set().contains(k) by {
                if k == s.last().0@ {
                    assert(entry_keys(s)[s.len() - 1] == k);
                } else {
                    let i = choose|i: int|
                        0 <= i < entry_keys(s).drop_last().len() && entry_keys(s).drop_last()[i]
                            == k;
                    assert(entry_keys(s)[i] == k);
                }
            }
        }
        assert(table_model(s).dom() =~= table_model(s.drop_last()).dom().insert(s.last().0@));
    }
}

/// In a table with unique keys, each entry is bound to its own value.
pub proof fn lemma_table_model_index(s: Seq<(String, ConfigValue)>, i: int)
    requires
        keys_unique(s),
        0 <= i < s.len(),
    ensures
        table_model(s).contains_key(s[i].0@),
        table_model(s)[s[i].0@] == s[i].1.model(),
    decreases s.len(),
{
    if i == s.len() - 1 {
    } else {
        lemma_table_model_index(s.drop_last(), i);
        assert(s.drop_last()[i] == s[i]);
        assert(s[i].0@ != s.last().0@);
    }
}

impl ConfigMap {
    /// The keys of this map, in insertion order.
    pub closed spec fn key_order(&self) -> Seq<Seq<char>> {
        entry_keys(self.entries@)
    }

    /// Well-formed: no key occurs twice, and every value is well-formed.
    pub closed spec fn wf(&self) -> bool
        decreases self,
    {
        &&& keys_unique(self.entries@)
        &&& forall|i: int| 0 <= i < self.entries@.len() ==> (#[trigger] self.entries@[i].1).wf()
    }

    /// Create an empty map.
    pub fn new() -> (r: Self)
        ensures
            r@ == Map::<Seq<char>, ValueModel>::empty(),
            r.wf(),
            r.key_order() == Seq::<Seq<char>>::empty(),
    {
        let r = ConfigMap { entries: Vec::new() };
        proof {
            assert(entry_keys(r.entries@) =~= Seq::<Seq<char>>::empty());
        }
        r
    }

    /// Number of keys in the map.
    pub fn len(&self) -> (n: usize)
        requires
            self.wf(),
        ensures
            n == self.key_order().len(),
            n == self@.dom().len(),
    {
        proof {
            lemma_table_model_dom(self.entries@);
            lemma_unique_keys_count(self.entries@);
        }
        self.entries.len()
    }

    /// Whether the map has no keys.
    pub fn is_empty(&self) -> (r: bool)
        requires
            self.wf(),
        ensures
            r == (self@.dom().len() == 0),
    {
        let n = self.len();
        n == 0
    }

    /// Look up a key.
    pub fn get(&self, key: &str) -> (r: Option<&ConfigValue>)
        requires
            self.wf(),
        ensures
            match r {
                Some(v) => self@.contains_key(key@) && v.model() == self@[key@] && v.wf(),
                None => !self@.contains_key(key@),
            },
    {
        let n = self.entries.len();
        let mut i: usize = 0;
        while i < n
            invariant
                self.wf(),
                n == self.entries@.len(),
                0 <= i <= n,
                forall|j: int| 0 <= j < i ==> self.entries@[j].0@ != key@,
            decreases n - i,
        {
            if str_eq(self.entries[i].0.as_str(), key) {
                proof {
                    lemma_table_model_index(self.entries@, i as int);
                }
                return Some(&self.entries[i].1);
            }
            i = i + 1;
        }
        proof {
            lemma_table_model_dom(self.entries@);
            if table_model(self.entries@).contains_key(key@) {
                let j = choose|j: int|
                    0 <= j < entry_keys(self.entries@).len() && entry_keys(self.entries@)[j]
                        == key@;
                assert(self.entries@[j].0@ == key@);
            }
        }
        None
    }

    /// Whether the map binds a key.
    pub fn contains_key(&self, key: &str) -> (r: bool)
        requires
            self.wf(),
        ensures
            r == self@.contains_key(key@),
    {
        match self.get(key) {
            Some(_) => true,
            None => false,
        }
    }

    /// Bind a key to a value, overwriting any earlier binding of that key.
    pub fn set(&mut self, key: String, value: ConfigValue)
        requires
            old(self).wf(),
            value.wf(),
        ensures
            final(self).wf(),
            final(self)@ == old(self)@.insert(key@, value.model()),
    {
        let n = self.entries.len();
        let mut i: usize = 0;
        while i < n
            invariant
                self.wf(),
                *self == *old(self),
                value.wf(),
                n == self.entries@.len(),
                0 <= i <= n,
                forall|j: int| 0 <= j < i ==> self.entries@[j].0@ != key@,
            decreases n - i,
        {
            if str_eq(self.entries[i].0.as_str(), key.as_str()) {
                let ghost pre = self.entries@;
                let ghost gv = value;
                self.entries.set(i, (key, value));
                proof {
                    lemma_table_model_update(pre, i as int, (key, value));
                    assert forall|j: int|
                        0 <= j < self.entries@.len() implies (#[trigger] self.entries@[j].1).wf() by {
                        if j != i {
                            assert(old(self).entries@[j].1.wf());
                            assert(self.entries@[j] == pre[j]);
                        } else {
                            assert(gv.wf());
                            assert(self.entries@[j].1 == gv);
                        }
                    }
                }
                return ;
            }
            i = i + 1;
        }
        let ghost pre = self.entries@;
        self.entries.push((key, value));
        proof {
            assert(self.entries@.drop_last() =~= pre);
            assert forall|j: int|
                0 <= j < self.entries@.len() implies (#[trigger] self.entries@[j].1).wf() by {
                if j < pre.len() {
                    assert(self.entries@[j] == pre[j]);
                }
            }
        }
    }
}

impl ConfigMap {
    /// Remove a key's binding, if present.
    pub fn remove(&mut self, key: &str)
        requires
            old(self).wf(),
        ensures
            final(self).wf(),
            final(self)@ == old(self)@.remove(key@),
    {
        let n = self.entries.len();
        let mut i: usize = 0;
        while i < n
            invariant
                self.wf(),
                *self == *old(self),
                n == self.entries@.len(),
                0 <= i <= n,
                forall|j: int| 0 <= j < i ==> self.entries@[j].0@ != key@,
            decreases n - i,
        {
            if str_eq(self.entries[i].0.as_str(), key) {
                let ghost pre = self.entries@;
                let _removed = self.entries.remove(i);
                proof {
                    lemma_table_model_remove(pre, i as int);
                    assert forall|j: int|
                        0 <= j < self.entries@.len() implies (#[trigger] self.entries@[j].1).wf() by {
                        if j < i {
                            assert(self.entries@[j] == pre[j]);
                            assert(old(self).entries@[j].1.wf());
                        } else {
                            assert(self.entries@[j] == pre[j + 1]);
                            assert(old(self).entries@[j + 1].1.wf());
                        }
                    }
                }
                return ;
            }
            i = i + 1;
        }
        proof {
            lemma_table_model_dom(self.entries@);
            if table_model(self.entries@).contains_key(key@) {
                let j = choose|j: int|
                    0 <= j < entry_keys(self.entries@).len() && entry_keys(self.entries@)[j]
                        == key@;
                assert(self.entries@[j].0@ == key@);
            }
            assert(table_model(self.entries@) =~= table_model(self.entries@).remove(key@));
        }
    }
}

/// Removing the entry that holds a key unbinds exactly that key.
proof fn lemma_table_model_remove(s: Seq<(String, ConfigValue)>, i: int)
    requires
        keys_unique(s),
        0 <= i < s.len(),
    ensures
        keys_unique(s.remove(i)),
        table_model(s.remove(i)) == table_model(s).remove(s[i].0@),
    decreases s.len(),
{
    let t = s.remove(i);
    assert(keys_unique(t)) by {
        assert forall|a: int, b: int| 0 <= a < b < t.len() implies t[a].0@ != t[b].0@ by {
            let a0 = if a < i {
                a
            } else {
                a + 1
            };
            let b0 = if b < i {
                b
            } else {
                b + 1
            };
            assert(t[a] == s[a0] && t[b] == s[b0]);
        }
    }
    if i == s.len() - 1 {
        assert(t =~= s.drop_last());
        assert(!table_model(s.drop_last()).contains_key(s[i].0@)) by {
            lemma_table_model_dom(s.drop_last());
            lemma_entry_keys(s.drop_last());
            if entry_keys(s.drop_last()).to_set().contains(s[i].0@) {
                let j = choose|j: int|
                    0 <= j < entry_keys(s.drop_last()).len() && entry_keys(s.drop_last())[j]
                        == s[i].0@;
                assert(s[j].0@ == s[i].0@);
            }
        }
        assert(table_model(t) =~= table_model(s).remove(s[i].0@));
    } else {
        assert(t.drop_last() =~= s.drop_last().remove(i));
        assert(s.drop_last()[i] == s[i]);
        lemma_table_model_remove(s.drop_last(), i);
        assert(t.last() == s.last());
        assert(s[i].0@ != s.last().0@);
        assert(table_model(t) == table_model(t.drop_last()).insert(
            t.last().0@,
            t.last().1.model(),
        ));
        assert(table_model(t) =~= table_model(s).remove(s[i].0@));
    }
}

/// A sequence of entries with unique keys denotes a map with one binding per
/// entry.
pub proof fn lemma_unique_keys_count(s: Seq<(String, ConfigValue)>)
    requires
        keys_unique(s),
    ensures
        table_model(s).dom().finite(),
        table_model(s).dom().len() == s.len(),
    decreases s.len(),
{
    lemma_table_model_dom(s);
    if s.len() == 0 {
        assert(table_model(s).dom() =~= Set::<Seq<char>>::empty());
    } else {
        lemma_unique_keys_count(s.drop_last());
        lemma_table_model_dom(s.drop_last());
        assert(table_model(s).dom() =~= table_model(s.drop_last()).dom().insert(s.last().0@));
        assert(!table_model(s.drop_last()).dom().contains(s.last().0@)) by {
            if entry_keys(s.drop_last()).to_set().contains(s.last().0@) {
                let j = choose|j: int|
                    0 <= j < entry_keys(s.drop_last()).len() && entry_keys(s.drop_last())[j]
                        == s.last().0@;
                assert(s[j].0@ == s.last().0@);
            }
        }
    }
}

/// Replacing the entry that holds a key rebinds exactly that key.
proof fn lemma_table_model_update(s: Seq<(String, ConfigValue)>, i: int, e: (String, ConfigValue))
    requires
        keys_unique(s),
        0 <= i < s.len(),
        s[i].0@ == e.0@,
    ensures
        keys_unique(s.update(i, e)),
        table_model(s.update(i, e)) == table_model(s).insert(e.0@, e.1.model()),
    decreases s.len(),
{
    let t = s.update(i, e);
    assert(keys_unique(t)) by {
        assert(forall|j: int| 0 <= j < t.len() ==> t[j].0@ == s[j].0@);
    }
    if i == s.len() - 1 {
        assert(t.drop_last() =~= s.drop_last());
        assert(t.last() == e);
        assert(table_model(t) == table_model(s.drop_last()).insert(e.0@, e.1.model()));
        assert(table_model(s) == table_model(s.drop_last()).insert(s.last().0@, s.last().1.model()));
        assert(table_model(s).insert(e.0@, e.1.model()) =~= table_model(s.drop_last()).insert(
            e.0@,
            e.1.model(),
        ));
    } else {
        assert(t.drop_last() =~= s.drop_last().update(i, e));
        assert(s.drop_last()[i] == s[i]);
        lemma_table_model_update(s.drop_last(), i, e);
        assert(t.last() == s.last());
        assert(s[i].0@ != s.last().0@);
        assert(table_model(t) =~= table_model(s).insert(e.0@, e.1.model()));
    }
}


/// Appending an entry binds its key on top of the rest.
pub proof fn lemma_table_model_push(s: Seq<(String, ConfigValue)>, e: (String, ConfigValue))
    ensures
        table_model(s.push(e)) == table_model(s).insert(e.0@, e.1.model()),
{
    assert(s.push(e).drop_last() =~= s);
}

/// Appending a value models as appending its model.
pub proof fn lemma_arr_model_push(s: Seq<ConfigValue>, e: ConfigValue)
    ensures
        arr_model(s.push(e)) == arr_model(s).push(e.model()),
{
    assert(s.push(e).drop_last() =~= s);
}

/// Pointwise description of an entry sequence's keys.
pub proof fn lemma_entry_keys(s: Seq<(String, ConfigValue)>)
    ensures
        entry_keys(s).len() == s.len(),
        forall|j: int| 0 <= j < s.len() ==> entry_keys(s)[j] == s[j].0@,
{
}

impl Clone for ConfigValue {
    /// Deep copy; the copy denotes the same mathematical value and is
    /// well-formed.
    fn clone(&self) -> (res: Self)
        ensures
            res.model() == self.model(),
            res.wf(),
        decreases self,
    {
        match self {
            ConfigValue::Null => ConfigValue::Null,
            ConfigValue::Bool(b) => ConfigValue::Bool(*b),
            ConfigValue::Int(i) => ConfigValue::Int(*i),
            ConfigValue::Str(s) => ConfigValue::Str(s.clone()),
            ConfigValue::Arr(items) => {
                let n = items.len();
                let mut out: Vec<ConfigValue> = Vec::new();
                let mut i: usize = 0;
                while i < n
                    invariant
                        n == items@.len(),
                        0 <= i <= n,
                        arr_model(out@) == arr_model(items@.take(i as int)),
                        forall|j: int| 0 <= j < out@.len() ==> (#[trigger] out@[j]).wf(),
                        forall|j: int| 0 <= j < items@.len() ==> decreases_to!(*self => items@[j]),
                    decreases n - i,
                {
                    let ghost pre = out@;
                    let c = items[i].clone();
                    out.push(c);
                    proof {
                        lemma_arr_model_push(pre, c);
                        assert(items@.take(i + 1 as int).drop_last() =~= items@.take(i as int));
                        assert(arr_model(items@.take(i + 1 as int)) == arr_model(
                            items@.take(i as int),
                        ).push(items@[i as int].model()));
                    }
                    i = i + 1;
                }
                proof {
                    assert(items@.take(n as int) =~= items@);
                }
                ConfigValue::Arr(out)
            },
            ConfigValue::Table(m) => ConfigValue::Table(m.clone()),
        }
    }
}

impl Clone for ConfigMap {
    /// Deep copy. The copy is well-formed and denotes the same map.
    fn clone(&self) -> (res: Self)
        ensures
            res.wf(),
            res@ == self@,
        decreases self,
    {
        let n = self.entries.len();
        let mut res = ConfigMap { entries: Vec::new() };
        let mut i: usize = 0;
        while i < n
            invariant
                n == self.entries@.len(),
                0 <= i <= n,
                res.wf(),
                res@ == table_model(self.entries@.take(i as int)),
                forall|j: int| 0 <= j < self.entries@.len() ==> decreases_to!(*self => self.entries@[j].1),
            decreases n - i,
        {
            let k = self.entries[i].0.clone();
            let v = self.entries[i].1.clone();
            res.set(k, v);
            proof {
                assert(self.entries@.take(i + 1 as int).drop_last() =~= self.entries@.take(i as int));
                lemma_table_model_push(self.entries@.take(i as int), self.entries@[i as int]);
            }
            i = i + 1;
        }
        proof {
            assert(self.entries@.take(n as int) =~= self.entries@);
        }
        res
    }
}

impl ConfigMap {
    /// Merge another map into this one: every key of `other` overwrites any
    /// binding this map held for it (flat key overwrite, not a deep merge).
    pub fn merge_from(&mut self, other: &ConfigMap)
        requires
            old(self).wf(),
            other.wf(),
        ensures
            final(self).wf(),
            final(self)@ == old(self)@.union_prefer_right(other@),
    {
        let n = other.entries.len();
        let mut i: usize = 0;
        while i < n
            invariant
                self.wf(),
                other.wf(),
                n == other.entries@.len(),
                0 <= i <= n,
                self@ == old(self)@.union_prefer_right(table_model(other.entries@.take(i as int))),
            decreases n - i,
        {
            let k = other.entries[i].0.clone();
            let v = other.entries[i].1.clone();
            let ghost pre = self@;
            self.set(k, v);
            proof {
                assert(other.entries@.take(i + 1 as int).drop_last() =~= other.entries@.take(
                    i as int,
                ));
                lemma_table_model_push(other.entries@.take(i as int), other.entries@[i as int]);
                assert(self@ =~= old(self)@.union_prefer_right(table_model(other.entries@.take(
                    i + 1 as int,
                ))));
            }
            i = i + 1;
        }
        proof {
            assert(other.entries@.take(n as int) =~= other.entries@);
        }
    }
}

/// Relies on `str::eq` (the `PartialEq` implementation for `str`): equality of
/// the two strings' characters.
#[verifier::external_body]
pub(crate) fn str_eq(a: &str, b: &str) -> (r: bool)
    ensures
        r == (a@ == b@),
{
    a == b
}


/// Serialization of a configuration type to and from the structured document
/// that patches rewrite. An implementation outside this crate is trusted to
/// produce a well-formed document.
pub trait ConfigDocument: Sized {
    /// Serialize into a structured document.
    fn to_document(&self) -> (r: ConfigValue)
        ensures
            r.wf(),
    ;

    /// Rebuild a configuration from a structured document, or report why the
    /// document does not match the expected shape.
    fn from_document(doc: &ConfigValue) -> Result<Self, ConfigError>;
}

impl ConfigDocument for ConfigMap {
    fn to_document(&self) -> (r: ConfigValue) {
        ConfigValue::Table(self.clone())
    }

    fn from_document(doc: &ConfigValue) -> Result<Self, ConfigError> {
        match doc {
            ConfigValue::Table(m) => Ok(m.clone()),
            _ => Err(
                ConfigError::DeserializationError(
                    String::from_str("expected a table at the document root"),
                ),
            ),
        }
    }
}

} // verus!
