//! Partial configuration updates: surgical patches addressed by structural
//! path, applied to a structured document and funneled through the same
//! validation gate as every other mutation.

use crate::error::ConfigError;
use crate::notify::subscriber::Subscriber;
use crate::store::config_handle::HotswapConfig;
use crate::store::validation::Validate;
use crate::values::ConfigDocument;
use crate::values::ConfigValue;
use crate::values::ValueModel;
use vstd::prelude::*;

verus! {

/// One patch operation: an operation name (`add`, `remove`, or `replace`), a
/// structural path written as slash-separated segments (`/port`,
/// `/database/pool_size`, with the empty path naming the whole document), and
/// a value for the operations that need one.
pub struct PatchOp {
    /// The operation name.
    pub op: String,
    /// The path the operation addresses.
    pub path: String,
    /// The value to add or to replace with; `remove` takes none.
    pub value: Option<ConfigValue>,
}

/// The value an operation carries, if any, is well-formed.
pub open spec fn patch_op_wf(op: PatchOp) -> bool {
    match op.value {
        Some(v) => v.wf(),
        None => true,
    }
}

/// The position of the first `/` in `s`, or -1 if there is none.
pub open spec fn first_slash(s: Seq<char>) -> int
    decreases s.len(),
{
    if s.len() == 0 {
        -1
    } else if s.first() == '/' {
        0
    } else {
        let rest = first_slash(s.drop_first());
        if rest < 0 {
            -1
        } else {
            rest + 1
        }
    }
}

/// The segments of `s`, split at every `/`; splitting the empty sequence
/// gives one empty segment.
pub open spec fn split_segments(s: Seq<char>) -> Seq<Seq<char>>
    decreases s.len(),
{
    let f = first_slash(s);
    if 0 <= f < s.len() {
        seq![s.take(f)] + split_segments(s.skip(f + 1))
    } else {
        seq![s]
    }
}

/// What a path string denotes: the empty string names the whole document, a
/// string starting with `/` names the sequence of its slash-separated
/// segments, and anything else is malformed.
pub open spec fn pointer_model(s: Seq<char>) -> Option<Seq<Seq<char>>> {
    if s.len() == 0 {
        Some(Seq::empty())
    } else if s.first() != '/' {
        None
    } else {
        Some(split_segments(s.drop_first()))
    }
}

/// The character sequences of a list of segment strings.
pub open spec fn seg_views(segs: Seq<String>) -> Seq<Seq<char>> {
    segs.map_values(|s: String| s@)
}

/// A boundary at `i` — no slash before it, and a slash or the end at it —
/// pins down the first slash.
proof fn lemma_first_slash_at(s: Seq<char>, i: int)
    requires
        0 <= i <= s.len(),
        forall|j: int| 0 <= j < i ==> s[j] != '/',
        i == s.len() || s[i] == '/',
    ensures
        first_slash(s) == if i == s.len() {
            -1
        } else {
            i
        },
    decreases i,
{
    if i == 0 {
    } else {
        assert(s.first() != '/');
        lemma_first_slash_at(s.drop_first(), i - 1);
        assert(forall|j: int| 0 <= j < i - 1 ==> s.drop_first()[j] == s[j + 1]);
    }
}

/// Splitting at a known first boundary peels off one segment.
proof fn lemma_split_at(s: Seq<char>, i: int)
    requires
        0 <= i <= s.len(),
        forall|j: int| 0 <= j < i ==> s[j] != '/',
        i == s.len() || s[i] == '/',
    ensures
        i == s.len() ==> split_segments(s) == seq![s],
        i < s.len() ==> split_segments(s) == seq![s.take(i)] + split_segments(s.skip(i + 1)),
{
    lemma_first_slash_at(s, i);
    if i == s.len() {
    } else {
        assert(split_segments(s) == seq![s.take(i)] + split_segments(s.skip(i + 1)));
    }
}

/// Parse a path string into its segments: the empty string is the whole
/// document, and a non-empty path must start with `/`.
pub fn parse_pointer(path: &str) -> (r: Result<Vec<String>, ConfigError>)
    ensures
        match r {
            Ok(segs) => pointer_model(path@) == Some(seg_views(segs@)),
            Err(e) => pointer_model(path@) is None && (e matches ConfigError::PatchError(_)),
        },
{
    let n = path.unicode_len();
    if n == 0 {
        let segs: Vec<String> = Vec::new();
        proof {
            assert(seg_views(segs@) =~= Seq::<Seq<char>>::empty());
        }
        return Ok(segs);
    }
    if path.get_char(0) != '/' {
        return Err(ConfigError::PatchError(String::from_str("path must start with '/'")));
    }
    let ghost tail = path@.drop_first();
    let mut segs: Vec<String> = Vec::new();
    let mut start: usize = 1;
    let mut i: usize = 1;
    while i < n
        invariant
            n == path@.len(),
            n >= 1,
            tail == path@.drop_first(),
            1 <= start <= i <= n,
            forall|j: int| start <= j < i ==> path@[j] != '/',
            split_segments(tail) == seg_views(segs@) + split_segments(path@.skip(start as int)),
        decreases n - i,
    {
        if path.get_char(i) == '/' {
            let seg = path.substring_char(start, i).to_owned();
            let ghost pre = segs@;
            segs.push(seg);
            proof {
                let rest = path@.skip(start as int);
                assert(forall|j: int| 0 <= j < rest.len() ==> rest[j] == path@[start + j]);
                lemma_split_at(rest, i - start);
                assert(rest.take(i - start) =~= path@.subrange(start as int, i as int));
                assert(rest.skip(i - start + 1) =~= path@.skip(i + 1 as int));
                assert(seg_views(segs@) =~= seg_views(pre).push(seg@));
                assert(seg_views(segs@) + split_segments(path@.skip(i + 1 as int))
                    =~= seg_views(pre) + split_segments(rest));
            }
            start = i + 1;
        }
        i = i + 1;
    }
    let seg = path.substring_char(start, n).to_owned();
    let ghost pre = segs@;
    segs.push(seg);
    proof {
        let rest = path@.skip(start as int);
        assert(forall|j: int| 0 <= j < rest.len() ==> rest[j] == path@[start + j]);
        lemma_split_at(rest, n - start);
        assert(rest =~= path@.subrange(start as int, n as int));
        assert(seg_views(segs@) =~= seg_views(pre).push(seg@));
        assert(seg_views(segs@) =~= seg_views(pre) + split_segments(rest));
        assert(pointer_model(path@) == Some(split_segments(tail)));
    }
    Ok(segs)
}


/// Replace the value a path resolves to. Every segment must resolve through
/// tables, and the addressed key must exist.
pub open spec fn doc_replace(v: ValueModel, path: Seq<Seq<char>>, nv: ValueModel) -> Option<
    ValueModel,
>
    decreases path.len(),
{
    if path.len() == 0 {
        Some(nv)
    } else {
        match v {
            ValueModel::Table(m) => {
                if m.contains_key(path.first()) {
                    match doc_replace(m[path.first()], path.drop_first(), nv) {
                        Some(u) => Some(ValueModel::Table(m.insert(path.first(), u))),
                        None => None,
                    }
                } else {
                    None
                }
            },
            _ => None,
        }
    }
}

/// Add a value at a path: the parent must resolve through tables, and the
/// final key is inserted or overwritten.
pub open spec fn doc_add(v: ValueModel, path: Seq<Seq<char>>, nv: ValueModel) -> Option<ValueModel>
    decreases path.len(),
{
    if path.len() == 0 {
        Some(nv)
    } else {
        match v {
            ValueModel::Table(m) => {
                if path.len() == 1 {
                    Some(ValueModel::Table(m.insert(path.first(), nv)))
                } else if m.contains_key(path.first()) {
                    match doc_add(m[path.first()], path.drop_first(), nv) {
                        Some(u) => Some(ValueModel::Table(m.insert(path.first(), u))),
                        None => None,
                    }
                } else {
                    None
                }
            },
            _ => None,
        }
    }
}

/// Remove the value a path resolves to; the path must name an existing key,
/// and the whole document cannot be removed.
pub open spec fn doc_remove(v: ValueModel, path: Seq<Seq<char>>) -> Option<ValueModel>
    decreases path.len(),
{
    if path.len() == 0 {
        None
    } else {
        match v {
            ValueModel::Table(m) => {
                if !m.contains_key(path.first()) {
                    None
                } else if path.len() == 1 {
                    Some(ValueModel::Table(m.remove(path.first())))
                } else {
                    match doc_remove(m[path.first()], path.drop_first()) {
                        Some(u) => Some(ValueModel::Table(m.insert(path.first(), u))),
                        None => None,
                    }
                }
            },
            _ => None,
        }
    }
}

/// What one operation does to a document: resolve its path, then add,
/// remove, or replace; a malformed path, an unknown operation, a missing
/// value, or an unresolvable path fails.
pub open spec fn apply_op(v: ValueModel, op: PatchOp) -> Option<ValueModel> {
    match pointer_model(op.path@) {
        None => None,
        Some(path) => {
            if op.op@ == "replace"@ {
                match op.value {
                    Some(nv) => doc_replace(v, path, nv.model()),
                    None => None,
                }
            } else if op.op@ == "add"@ {
                match op.value {
                    Some(nv) => doc_add(v, path, nv.model()),
                    None => None,
                }
            } else if op.op@ == "remove"@ {
                doc_remove(v, path)
            } else {
                None
            }
        },
    }
}

/// What a whole patch does: its operations in order, failing as a whole if
/// any one fails.
pub open spec fn patched(v: ValueModel, ops: Seq<PatchOp>) -> Option<ValueModel>
    decreases ops.len(),
{
    if ops.len() == 0 {
        Some(v)
    } else {
        match apply_op(v, ops.first()) {
            Some(u) => patched(u, ops.drop_first()),
            None => None,
        }
    }
}

/// A patch splits at any point: apply a prefix, then the rest.
pub proof fn lemma_patched_split(v: ValueModel, ops: Seq<PatchOp>, i: int)
    requires
        0 <= i <= ops.len(),
    ensures
        patched(v, ops) == match patched(v, ops.take(i)) {
            Some(u) => patched(u, ops.skip(i)),
            None => None,
        },
    decreases i,
{
    if i == 0 {
        assert(ops.take(0) =~= Seq::<PatchOp>::empty());
        assert(ops.skip(0) =~= ops);
    } else {
        assert(ops.take(i).first() == ops.first());
        match apply_op(v, ops.first()) {
            Some(u) => {
                lemma_patched_split(u, ops.drop_first(), i - 1);
                assert(ops.drop_first().take(i - 1) =~= ops.take(i).drop_first());
                assert(ops.drop_first().skip(i - 1) =~= ops.skip(i));
            },
            None => {
                assert(patched(v, ops.take(i)) is None);
            },
        }
    }
}

/// A one-operation patch does what that operation does.
proof fn lemma_patched_single(v: ValueModel, op: PatchOp)
    ensures
        patched(v, seq![op]) == apply_op(v, op),
{
    let s1 = seq![op];
    assert(s1.first() == op);
    assert(s1.drop_first() =~= Seq::<PatchOp>::empty());
    match apply_op(v, op) {
        Some(u) => {
            assert(patched(u, s1.drop_first()) == Some(u));
        },
        None => {},
    }
}

/// Apply one operation to a document tree.
fn apply_single(v: &ConfigValue, op: &PatchOp) -> (r: Result<ConfigValue, ConfigError>)
    requires
        v.wf(),
        patch_op_wf(*op),
    ensures
        match r {
            Ok(out) => apply_op(v.model(), *op) == Some(out.model()) && out.wf(),
            Err(e) => apply_op(v.model(), *op) is None && (e matches ConfigError::PatchError(_)),
        },
{
    let segs = match parse_pointer(op.path.as_str()) {
        Ok(segs) => segs,
        Err(e) => {
            return Err(e);
        },
    };
    proof {
        assert(seg_views(segs@).skip(0) =~= seg_views(segs@));
    }
    if crate::values::str_eq(op.op.as_str(), "replace") {
        match &op.value {
            Some(nv) => replace_at(v, &segs, 0, nv.clone()),
            None => Err(
                ConfigError::PatchError(String::from_str("replace operation needs a value")),
            ),
        }
    } else if crate::values::str_eq(op.op.as_str(), "add") {
        match &op.value {
            Some(nv) => add_at(v, &segs, 0, nv.clone()),
            None => Err(ConfigError::PatchError(String::from_str("add operation needs a value"))),
        }
    } else if crate::values::str_eq(op.op.as_str(), "remove") {
        remove_at(v, &segs, 0)
    } else {
        Err(ConfigError::PatchError(String::from_str("unknown patch operation")))
    }
}

/// Replace the value at the path suffix starting at `i`.
fn replace_at(v: &ConfigValue, segs: &Vec<String>, i: usize, nv: ConfigValue) -> (r: Result<
    ConfigValue,
    ConfigError,
>)
    requires
        v.wf(),
        nv.wf(),
        i <= segs@.len(),
    ensures
        match r {
            Ok(out) => doc_replace(v.model(), seg_views(segs@).skip(i as int), nv.model())
                == Some(out.model()) && out.wf(),
            Err(e) => doc_replace(v.model(), seg_views(segs@).skip(i as int), nv.model()) is None
                && (e matches ConfigError::PatchError(_)),
        },
    decreases segs@.len() - i,
{
    let ghost path = seg_views(segs@).skip(i as int);
    if i == segs.len() {
        proof {
            assert(path.len() == 0);
        }
        return Ok(nv);
    }
    proof {
        assert(path.first() == segs@[i as int]@);
        assert(path.drop_first() =~= seg_views(segs@).skip(i + 1 as int));
    }
    match v {
        ConfigValue::Table(m) => {
            match m.get(segs[i].as_str()) {
                None => Err(ConfigError::PatchError(String::from_str("path does not resolve"))),
                Some(child) => {
                    match replace_at(child, segs, i + 1, nv) {
                        Ok(sub) => {
                            let mut m2 = m.clone();
                            m2.set(segs[i].clone(), sub);
                            Ok(ConfigValue::Table(m2))
                        },
                        Err(e) => Err(e),
                    }
                },
            }
        },
        _ => Err(ConfigError::PatchError(String::from_str("path does not resolve"))),
    }
}

/// Add a value at the path suffix starting at `i`.
fn add_at(v: &ConfigValue, segs: &Vec<String>, i: usize, nv: ConfigValue) -> (r: Result<
    ConfigValue,
    ConfigError,
>)
    requires
        v.wf(),
        nv.wf(),
        i <= segs@.len(),
    ensures
        match r {
            Ok(out) => doc_add(v.model(), seg_views(segs@).skip(i as int), nv.model()) == Some(
                out.model(),
            ) && out.wf(),
            Err(e) => doc_add(v.model(), seg_views(segs@).skip(i as int), nv.model()) is None && (
            e matches ConfigError::PatchError(_)),
        },
    decreases segs@.len() - i,
{
    let ghost path = seg_views(segs@).skip(i as int);
    if i == segs.len() {
        proof {
            assert(path.len() == 0);
        }
        return Ok(nv);
    }
    proof {
        assert(path.first() == segs@[i as int]@);
        assert(path.drop_first() =~= seg_views(segs@).skip(i + 1 as int));
    }
    match v {
        ConfigValue::Table(m) => {
            if i + 1 == segs.len() {
                let mut m2 = m.clone();
                m2.set(segs[i].clone(), nv);
                Ok(ConfigValue::Table(m2))
            } else {
                match m.get(segs[i].as_str()) {
                    None => Err(
                        ConfigError::PatchError(String::from_str("path does not resolve")),
                    ),
                    Some(child) => {
                        match add_at(child, segs, i + 1, nv) {
                            Ok(sub) => {
                                let mut m2 = m.clone();
                                m2.set(segs[i].clone(), sub);
                                Ok(ConfigValue::Table(m2))
                            },
                            Err(e) => Err(e),
                        }
                    },
                }
            }
        },
        _ => Err(ConfigError::PatchError(String::from_str("path does not resolve"))),
    }
}

/// Remove the value at the path suffix starting at `i`.
fn remove_at(v: &ConfigValue, segs: &Vec<String>, i: usize) -> (r: Result<ConfigValue, ConfigError>)
    requires
        v.wf(),
        i <= segs@.len(),
    ensures
        match r {
            Ok(out) => doc_remove(v.model(), seg_views(segs@).skip(i as int)) == Some(out.model())
                && out.wf(),
            Err(e) => doc_remove(v.model(), seg_views(segs@).skip(i as int)) is None && (
            e matches ConfigError::PatchError(_)),
        },
    decreases segs@.len() - i,
{
    let ghost path = seg_views(segs@).skip(i as int);
    if i == segs.len() {
        return Err(ConfigError::PatchError(String::from_str("cannot remove the whole document")));
    }
    proof {
        assert(path.first() == segs@[i as int]@);
        assert(path.drop_first() =~= seg_views(segs@).skip(i + 1 as int));
    }
    match v {
        ConfigValue::Table(m) => {
            match m.get(segs[i].as_str()) {
                None => Err(ConfigError::PatchError(String::from_str("path does not resolve"))),
                Some(child) => {
                    if i + 1 == segs.len() {
                        let mut m2 = m.clone();
                        m2.remove(segs[i].as_str());
                        Ok(ConfigValue::Table(m2))
                    } else {
                        match remove_at(child, segs, i + 1) {
                            Ok(sub) => {
                                let mut m2 = m.clone();
                                m2.set(segs[i].clone(), sub);
                                Ok(ConfigValue::Table(m2))
                            },
                            Err(e) => Err(e),
                        }
                    }
                },
            }
        },
        _ => Err(ConfigError::PatchError(String::from_str("path does not resolve"))),
    }
}

/// Apply a whole patch to a document: the operations in order, failing as a
/// whole — and returning the document unchanged — if any one operation
/// fails.
pub fn apply_patch_value(doc: &ConfigValue, patch: &Vec<PatchOp>) -> (r: Result<
    ConfigValue,
    ConfigError,
>)
    requires
        doc.wf(),
        forall|i: int| 0 <= i < patch@.len() ==> patch_op_wf(#[trigger] patch@[i]),
    ensures
        match r {
            Ok(out) => patched(doc.model(), patch@) == Some(out.model()) && out.wf(),
            Err(e) => patched(doc.model(), patch@) is None && (e matches ConfigError::PatchError(
                _,
            )),
        },
{
    let mut cur = doc.clone();
    let n = patch.len();
    let mut i: usize = 0;
    while i < n
        invariant
            n == patch@.len(),
            0 <= i <= n,
            forall|j: int| 0 <= j < patch@.len() ==> patch_op_wf(#[trigger] patch@[j]),
            cur.wf(),
            patched(doc.model(), patch@.take(i as int)) == Some(cur.model()),
        decreases n - i,
    {
        match apply_single(&cur, &patch[i]) {
            Ok(next) => {
                proof {
                    lemma_patched_split(doc.model(), patch@.take(i + 1 as int), i as int);
                    assert(patch@.take(i + 1 as int).take(i as int) =~= patch@.take(i as int));
                    assert(patch@.take(i + 1 as int).skip(i as int) =~= seq![patch@[i as int]]);
                    lemma_patched_single(cur.model(), patch@[i as int]);
                }
                cur = next;
            },
            Err(e) => {
                proof {
                    lemma_patched_split(doc.model(), patch@, i as int);
                    assert(patched(cur.model(), patch@.skip(i as int)) is None) by {
                        lemma_patched_split(cur.model(), patch@.skip(i as int), 1);
                        assert(patch@.skip(i as int).take(1) =~= seq![patch@[i as int]]);
                        lemma_patched_single(cur.model(), patch@[i as int]);
                    }
                }
                return Err(e);
            },
        }
        i = i + 1;
    }
    proof {
        assert(patch@.take(n as int) =~= patch@);
    }
    Ok(cur)
}


impl<T: ConfigDocument + Validate, S: Subscriber> HotswapConfig<T, S> {
    /// Apply a patch to the configuration: serialize the current generation
    /// to a structured document, apply the operations in order, rebuild the
    /// configuration, and run it through the validation gate.
    ///
    /// A malformed patch, an unresolvable path, a post-patch document that
    /// does not deserialize, or a validation failure all fail atomically: the
    /// current generation is untouched and no notification runs.
    pub fn apply_patch(&mut self, patch: &Vec<PatchOp>) -> (r: Result<(), ConfigError>)
        requires
            old(self).wf(),
            forall|i: int| 0 <= i < patch@.len() ==> patch_op_wf(#[trigger] patch@[i]),
        ensures
            final(self).wf(),
            final(self).validation_enabled() == old(self).validation_enabled(),
            final(self).spec_watching() == old(self).spec_watching(),
            final(self).registry().subscribers() == old(self).registry().subscribers(),
            r is Err ==> *final(self) == *old(self),
            r is Ok ==> final(self).notify_count() == old(self).notify_count() + 1 && (old(
                self,
            ).validation_enabled() ==> final(self).spec_current().valid()),
    {
        let doc = self.get().to_document();
        let patched_doc = match apply_patch_value(&doc, patch) {
            Ok(d) => d,
            Err(e) => {
                return Err(e);
            },
        };
        let new_config = match T::from_document(&patched_doc) {
            Ok(c) => c,
            Err(e) => {
                return Err(e);
            },
        };
        self.update(new_config)
    }

    /// Update a single field: shorthand for a one-operation `replace` patch
    /// at the given path.
    pub fn update_field(&mut self, path: &str, value: ConfigValue) -> (r: Result<(), ConfigError>)
        requires
            old(self).wf(),
            value.wf(),
        ensures
            final(self).wf(),
            final(self).validation_enabled() == old(self).validation_enabled(),
            final(self).spec_watching() == old(self).spec_watching(),
            final(self).registry().subscribers() == old(self).registry().subscribers(),
            r is Err ==> *final(self) == *old(self),
            r is Ok ==> final(self).notify_count() == old(self).notify_count() + 1 && (old(
                self,
            ).validation_enabled() ==> final(self).spec_current().valid()),
    {
        let op = PatchOp {
            op: String::from_str("replace"),
            path: path.to_owned(),
            value: Some(value),
        };
        let mut patch: Vec<PatchOp> = Vec::new();
        patch.push(op);
        self.apply_patch(&patch)
    }
}

} // verus!
