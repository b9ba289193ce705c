//! The open, JSON-like variable payload a configuration carries, together
//! with the association-list reasoning used by the top-level variable merge.

use vstd::prelude::*;

verus! {

broadcast use vstd::std_specs::vec::axiom_vec_index_decreases, vstd::std_specs::vec::axiom_vec_decreases_to_view, vstd::seq::axiom_seq_index_decreases;

/// A JSON-like value: the open key-value payload (`variables`) of a
/// configuration, and the shape of state snapshots.
///
/// Objects are association lists over their keys; a well-formed object has
/// pairwise distinct top-level keys (see [`top_keys_unique`]).
#[derive(Debug, PartialEq, Eq)]
pub enum Value {
    Null,
    Bool(bool),
    Int(i64),
    Text(String),
    Arr(Vec<Value>),
    Obj(Vec<(String, Value)>),
}

/// Deep structural likeness: equal shape, with strings compared by their
/// character sequences. This is what a deep copy of a `Value` preserves.
pub open spec fn value_sim(a: Value, b: Value) -> bool
    decreases a,
{
    match (a, b) {
        (Value::Null, Value::Null) => true,
        (Value::Bool(x), Value::Bool(y)) => x == y,
        (Value::Int(x), Value::Int(y)) => x == y,
        (Value::Text(x), Value::Text(y)) => x@ == y@,
        (Value::Arr(x), Value::Arr(y)) => {
            &&& x@.len() == y@.len()
            &&& forall|i: int| 0 <= i < x@.len() ==> value_sim(#[trigger] x@[i], y@[i])
        },
        (Value::Obj(x), Value::Obj(y)) => {
            &&& x@.len() == y@.len()
            &&& forall|i: int|
                0 <= i < x@.len() ==> (#[trigger] x@[i]).0@ == y@[i].0@ && value_sim(
                    x@[i].1,
                    y@[i].1,
                )
        },
        _ => false,
    }
}

/// First-match lookup in an object's entry list, by key characters.
pub open spec fn obj_lookup(entries: Seq<(String, Value)>, key: Seq<char>) -> Option<Value>
    decreases entries.len(),
{
    if entries.len() == 0 {
        None
    } else if entries[0].0@ == key {
        Some(entries[0].1)
    } else {
        obj_lookup(entries.drop_first(), key)
    }
}

/// The top-level keys of an entry list are pairwise distinct.
pub open spec fn entry_keys_unique(entries: Seq<(String, Value)>) -> bool {
    forall|i: int, j: int|
        0 <= i < j < entries.len() ==> (#[trigger] entries[i]).0@ != (#[trigger] entries[j]).0@
}

/// A value whose top level is an object has pairwise distinct keys there;
/// every other value trivially qualifies.
pub open spec fn top_keys_unique(v: Value) -> bool {
    match v {
        Value::Obj(entries) => entry_keys_unique(entries@),
        _ => true,
    }
}

impl Clone for Value {
    /// A deep copy: structurally alike, strings kept character for character.
    fn clone(&self) -> (res: Self)
        ensures
            value_sim(res, *self),
    {
        clone_value(self)
    }
}

/// Deep copy of a value.
#[verifier::loop_isolation(false)]
pub fn clone_value(v: &Value) -> (res: Value)
    ensures
        value_sim(res, *v),
    decreases *v,
{
    match v {
        Value::Null => Value::Null,
        Value::Bool(b) => Value::Bool(*b),
        Value::Int(i) => Value::Int(*i),
        Value::Text(s) => Value::Text(s.clone()),
        Value::Arr(items) => {
            let mut out: Vec<Value> = Vec::new();
            let mut i: usize = 0;
            while i < items.len()
                invariant
                    i <= items.len(),
                    out@.len() == i,
                    forall|j: int| 0 <= j < i ==> value_sim(#[trigger] out@[j], items@[j]),
                decreases items.len() - i,
            {
                proof {
                    assert(decreases_to!(*v => v->Arr_0));
                    assert(decreases_to!(v->Arr_0 => v->Arr_0@));
                    assert(decreases_to!(v->Arr_0@ => v->Arr_0@[i as int]));
                    assert(decreases_to!(*v => items@[i as int]));
                }
                out.push(clone_value(&items[i]));
                i += 1;
            }
            Value::Arr(out)
        },
        Value::Obj(entries) => {
            let mut out: Vec<(String, Value)> = Vec::new();
            let mut i: usize = 0;
            while i < entries.len()
                invariant
                    i <= entries.len(),
                    out@.len() == i,
                    forall|j: int|
                        0 <= j < i ==> (#[trigger] out@[j]).0@ == entries@[j].0@ && value_sim(
                            out@[j].1,
                            entries@[j].1,
                        ),
                decreases entries.len() - i,
            {
                proof {
                    assert(decreases_to!(*v => v->Obj_0));
                    assert(decreases_to!(v->Obj_0 => v->Obj_0@));
                    assert(decreases_to!(v->Obj_0@ => v->Obj_0@[i as int]));
                    assert(decreases_to!(*v => entries@[i as int].1));
                }
                let key = entries[i].0.clone();
                let val = clone_value(&entries[i].1);
                out.push((key, val));
                i += 1;
            }
            Value::Obj(out)
        },
    }
}

/// Lookup by first match: what later entries say is shadowed, so with unique
/// keys the position of an entry never matters.
pub proof fn lemma_lookup_first_match(entries: Seq<(String, Value)>, key: Seq<char>, j: int)
    requires
        0 <= j < entries.len(),
        entries[j].0@ == key,
        forall|i: int| 0 <= i < j ==> (#[trigger] entries[i]).0@ != key,
    ensures
        obj_lookup(entries, key) == Some(entries[j].1),
    decreases j,
{
    if j > 0 {
        lemma_lookup_first_match(entries.drop_first(), key, j - 1);
    }
}

/// A key absent from every entry is not found.
pub proof fn lemma_lookup_none(entries: Seq<(String, Value)>, key: Seq<char>)
    requires
        forall|i: int| 0 <= i < entries.len() ==> (#[trigger] entries[i]).0@ != key,
    ensures
        obj_lookup(entries, key) is None,
    decreases entries.len(),
{
    if entries.len() > 0 {
        lemma_lookup_none(entries.drop_first(), key);
    }
}

/// Appending an entry changes only the lookup of its own key, and only when
/// that key was absent.
pub proof fn lemma_lookup_push(entries: Seq<(String, Value)>, key: Seq<char>, p: (String, Value))
    ensures
        obj_lookup(entries.push(p), key) == (if obj_lookup(entries, key) is Some {
            obj_lookup(entries, key)
        } else if p.0@ == key {
            Some(p.1)
        } else {
            None
        }),
    decreases entries.len(),
{
    if entries.len() == 0 {
        reveal_with_fuel(obj_lookup, 3);
        assert(entries.push(p)[0] == p);
        assert(entries.push(p).drop_first() =~= Seq::<(String, Value)>::empty());
    } else {
        assert(entries.push(p)[0] == entries[0]);
        assert(entries.push(p).drop_first() =~= entries.drop_first().push(p));
        lemma_lookup_push(entries.drop_first(), key, p);
    }
}

/// Replacing the entry that holds a key rebinds that key and nothing else.
pub proof fn lemma_lookup_update(
    entries: Seq<(String, Value)>,
    key: Seq<char>,
    j: int,
    p: (String, Value),
)
    requires
        entry_keys_unique(entries),
        0 <= j < entries.len(),
        entries[j].0@ == p.0@,
    ensures
        obj_lookup(entries.update(j, p), key) == (if key == p.0@ {
            Some(p.1)
        } else {
            obj_lookup(entries, key)
        }),
    decreases j,
{
    if j == 0 {
        assert(entries.update(0, p).drop_first() =~= entries.drop_first());
    } else {
        assert(entries.update(j, p).drop_first() =~= entries.drop_first().update(j - 1, p));
        lemma_lookup_update(entries.drop_first(), key, j - 1, p);
    }
}

impl Value {
    /// An empty object: the default variable payload.
    pub fn empty_object() -> (r: Value)
        ensures
            r matches Value::Obj(entries) && entries@ =~= Seq::<(String, Value)>::empty(),
            top_keys_unique(r),
    {
        Value::Obj(Vec::new())
    }

    /// Looks a key up at the top level; `None` on non-objects too.
    pub fn get<'a>(&'a self, key: &String) -> (r: Option<&'a Value>)
        ensures
            match r {
                Some(v) => self matches Value::Obj(entries) && obj_lookup(entries@, key@)
                    == Some(*v),
                None => !(self matches Value::Obj(entries) && obj_lookup(entries@, key@) is Some),
            },
    {
        match self {
            Value::Obj(entries) => obj_get(entries, key),
            _ => None,
        }
    }
}

/// Index of the first entry holding a key, if any.
pub fn obj_index_of(entries: &Vec<(String, Value)>, key: &String) -> (r: Option<usize>)
    ensures
        match r {
            Some(j) => j < entries@.len() && entries@[j as int].0@ == key@ && (forall|i: int|
                0 <= i < j ==> (#[trigger] entries@[i]).0@ != key@),
            None => forall|i: int|
                0 <= i < entries@.len() ==> (#[trigger] entries@[i]).0@ != key@,
        },
{
    let mut i: usize = 0;
    while i < entries.len()
        invariant
            i <= entries@.len(),
            forall|j: int| 0 <= j < i ==> (#[trigger] entries@[j]).0@ != key@,
        decreases entries@.len() - i,
    {
        if entries[i].0 == *key {
            return Some(i);
        }
        i += 1;
    }
    None
}

/// First-match lookup, as executable code.
pub fn obj_get<'a>(entries: &'a Vec<(String, Value)>, key: &String) -> (r: Option<&'a Value>)
    ensures
        match r {
            Some(v) => obj_lookup(entries@, key@) == Some(*v),
            None => obj_lookup(entries@, key@) is None,
        },
{
    match obj_index_of(entries, key) {
        Some(j) => {
            proof {
                lemma_lookup_first_match(entries@, key@, j as int);
            }
            Some(&entries[j].1)
        },
        None => {
            proof {
                lemma_lookup_none(entries@, key@);
            }
            None
        },
    }
}

/// What a key resolves to after extras override file-defined variables:
/// the extra entry when there is one, the base entry otherwise.
pub open spec fn merged_lookup(
    base: Seq<(String, Value)>,
    extra: Seq<(String, Value)>,
    key: Seq<char>,
) -> Option<Value> {
    if obj_lookup(extra, key) is Some {
        obj_lookup(extra, key)
    } else {
        obj_lookup(base, key)
    }
}

/// `m` is the top-level merge of `extra` over `base`: when both are objects,
/// every key resolves to the extra binding if present, the base one
/// otherwise; when either is not an object, `base` is kept untouched.
pub open spec fn is_merge_of(m: Value, base: Value, extra: Value) -> bool {
    match (base, extra) {
        (Value::Obj(b), Value::Obj(e)) => {
            &&& m is Obj
            &&& forall|k: Seq<char>| #[trigger]
                obj_lookup(m->Obj_0@, k) == merged_lookup(b@, e@, k)
        },
        _ => m == base,
    }
}

/// Merges extra variables over the file-defined ones: last key wins per
/// top-level key, nested structures are replaced whole, never deep-merged.
#[verifier::loop_isolation(false)]
pub fn merge_variables(base: Value, extra: Value) -> (r: Value)
    requires
        top_keys_unique(base),
        top_keys_unique(extra),
    ensures
        is_merge_of(r, base, extra),
        top_keys_unique(r),
{
    match (base, extra) {
        (Value::Obj(b), Value::Obj(e)) => {
            let ghost b0 = b@;
            let ghost e0 = e@;
            let mut out = b;
            let mut rest = e;
            let ghost mut done = Seq::<(String, Value)>::empty();
            proof {
                assert(e0 =~= done + rest@);
            }
            while rest.len() > 0
                invariant
                    e0 =~= done + rest@,
                    entry_keys_unique(out@),
                    forall|k: Seq<char>| #[trigger]
                        obj_lookup(out@, k) == merged_lookup(b0, done, k),
                decreases rest@.len(),
            {
                let (k, v) = rest.remove(0);
                let ghost prev_done = done;
                let ghost prev_out = out@;
                proof {
                    done = done.push((k, v));
                    assert(e0 =~= done + rest@);
                    // the key just taken is fresh among the processed ones
                    assert(forall|i: int|
                        0 <= i < prev_done.len() ==> (#[trigger] prev_done[i]).0@ == e0[i].0@);
                    assert(e0[prev_done.len() as int].0@ == k@);
                    assert(forall|i: int|
                        0 <= i < prev_done.len() ==> (#[trigger] prev_done[i]).0@ != k@);
                    lemma_lookup_none(prev_done, k@);
                }
                match obj_index_of(&out, &k) {
                    Some(j) => {
                        proof {
                            lemma_lookup_update(prev_out, k@, j as int, (k, v));
                            assert forall|key: Seq<char>| #[trigger]
                                obj_lookup(prev_out.update(j as int, (k, v)), key)
                                    == merged_lookup(b0, done, key) by {
                                lemma_lookup_update(prev_out, key, j as int, (k, v));
                                lemma_lookup_push(prev_done, key, (k, v));
                            }
                        }
                        let ghost kk = k@;
                        out[j] = (k, v);
                        proof {
                            assert(forall|i1: int, i2: int|
                                0 <= i1 < i2 < out@.len() ==> (#[trigger] out@[i1]).0@
                                    != (#[trigger] out@[i2]).0@);
                        }
                    },
                    None => {
                        proof {
                            lemma_lookup_none(prev_out, k@);
                            assert forall|key: Seq<char>| #[trigger]
                                obj_lookup(prev_out.push((k, v)), key) == merged_lookup(
                                    b0,
                                    done,
                                    key,
                                ) by {
                                lemma_lookup_push(prev_out, key, (k, v));
                                lemma_lookup_push(prev_done, key, (k, v));
                            }
                        }
                        out.push((k, v));
                    },
                }
            }
            proof {
                assert(done =~= e0);
            }
            Value::Obj(out)
        },
        (b, _) => b,
    }
}

} // verus!
