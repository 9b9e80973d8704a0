//! How header data is written as a JSON document.

use vstd::prelude::*;

use crate::header::{lemma_trees_pointwise, trees, FileHeaderData, HeaderTree};
use crate::json::{json_trees, json_wf, member_trees, lemma_member_trees_pointwise, distinct_names, JsonMember, JsonTree, JsonValue};

verus! {

/// Header data that the JSON writer accepts: a key stands only directly
/// inside a mapping, and a mapping holds nothing but keys.
pub open spec fn serializable(h: HeaderTree) -> bool
    decreases h,
{
    match h {
        HeaderTree::Key { .. } => false,
        HeaderTree::Mapping { keys } => forall|i: int|
            0 <= i < keys.len() ==> (#[trigger] keys[i] is Key && serializable(*keys[i]->value)),
        HeaderTree::Array { values } => forall|i: int|
            0 <= i < values.len() ==> serializable(#[trigger] values[i]),
        _ => true,
    }
}

/// Serializable header data that reads back as itself: every integer held
/// as `Integer` is negative, and no mapping has two keys of the same name.
pub open spec fn canonical(h: HeaderTree) -> bool
    decreases h,
{
    match h {
        HeaderTree::Integer(i) => i < 0,
        HeaderTree::Key { .. } => false,
        HeaderTree::Mapping { keys } => {
            &&& forall|i: int|
                0 <= i < keys.len() ==> (#[trigger] keys[i] is Key && canonical(*keys[i]->value))
            &&& forall|i: int, j: int|
                0 <= i < j < keys.len() ==> #[trigger] keys[i]->name != #[trigger] keys[j]->name
        },
        HeaderTree::Array { values } => forall|i: int|
            0 <= i < values.len() ==> canonical(#[trigger] values[i]),
        _ => true,
    }
}

/// The position of the first member of `ms` named `name`.
pub open spec fn find_name(ms: Seq<(Seq<char>, JsonTree)>, name: Seq<char>) -> Option<int>
    decreases ms.len(),
{
    if ms.len() == 0 {
        None
    } else {
        match find_name(ms.drop_last(), name) {
            Some(i) => Some(i),
            None => if ms.last().0 == name {
                Some(ms.len() - 1)
            } else {
                None
            },
        }
    }
}

/// The members of `ms` after setting member `name` to `v`: an existing
/// member of that name keeps its place and takes the new value, otherwise
/// the member is added at the end.
pub open spec fn insert_member(ms: Seq<(Seq<char>, JsonTree)>, name: Seq<char>, v: JsonTree) -> Seq<
    (Seq<char>, JsonTree),
> {
    match find_name(ms, name) {
        Some(i) => ms.update(i, (name, v)),
        None => ms.push((name, v)),
    }
}

pub proof fn lemma_find_name(ms: Seq<(Seq<char>, JsonTree)>, name: Seq<char>)
    ensures
        match find_name(ms, name) {
            Some(i) => 0 <= i < ms.len() && ms[i].0 == name && forall|j: int|
                0 <= j < i ==> ms[j].0 != name,
            None => forall|j: int| 0 <= j < ms.len() ==> ms[j].0 != name,
        },
    decreases ms.len(),
{
    if ms.len() > 0 {
        lemma_find_name(ms.drop_last(), name);
        assert(forall|j: int| 0 <= j < ms.len() - 1 ==> ms.drop_last()[j] == #[trigger] ms[j]);
    }
}

/// The JSON document that header data is written as.
pub open spec fn json_of(h: HeaderTree) -> JsonTree
    decreases h,
{
    match h {
        HeaderTree::Null => JsonTree::Null,
        HeaderTree::Bool(b) => JsonTree::Bool(b),
        HeaderTree::Integer(i) => if i >= 0 {
            JsonTree::UInt(i as u64)
        } else {
            JsonTree::NegInt(i)
        },
        HeaderTree::UInteger(u) => JsonTree::UInt(u),
        HeaderTree::Float(f) => JsonTree::Float(f),
        HeaderTree::Text(s) => JsonTree::Text(s),
        HeaderTree::Array { values } => JsonTree::Array(jsons_of(values)),
        HeaderTree::Mapping { keys } => JsonTree::Object(members_of(keys)),
        HeaderTree::Key { .. } => JsonTree::Null,
    }
}

pub open spec fn jsons_of(s: Seq<HeaderTree>) -> Seq<JsonTree>
    decreases s,
{
    if s.len() == 0 {
        Seq::empty()
    } else {
        jsons_of(s.drop_last()).push(json_of(s.last()))
    }
}

/// The object members that the keys of a mapping are written as: keys are
/// taken in order, and a later key replaces the value of an earlier one of
/// the same name.
pub open spec fn members_of(keys: Seq<HeaderTree>) -> Seq<(Seq<char>, JsonTree)>
    decreases keys,
{
    if keys.len() == 0 {
        Seq::empty()
    } else {
        let rest = members_of(keys.drop_last());
        match keys.last() {
            HeaderTree::Key { name, value } => insert_member(rest, name, json_of(*value)),
            _ => rest,
        }
    }
}

pub proof fn lemma_jsons_of_pointwise(s: Seq<HeaderTree>)
    ensures
        jsons_of(s).len() == s.len(),
        forall|i: int| 0 <= i < s.len() ==> #[trigger] jsons_of(s)[i] == json_of(s[i]),
    decreases s.len(),
{
    if s.len() > 0 {
        lemma_jsons_of_pointwise(s.drop_last());
    }
}

/// Setting a member keeps the names distinct, and the member is then present.
pub proof fn lemma_insert_member(ms: Seq<(Seq<char>, JsonTree)>, name: Seq<char>, v: JsonTree)
    requires
        distinct_names(ms),
    ensures
        distinct_names(insert_member(ms, name, v)),
        exists|i: int|
            0 <= i < insert_member(ms, name, v).len() && insert_member(ms, name, v)[i] == (name, v),
{
    let r = insert_member(ms, name, v);
    lemma_find_name(ms, name);
    match find_name(ms, name) {
        Some(c) => {
            assert(r[c] == (name, v));
        },
        None => {
            assert(r[ms.len() as int] == (name, v));
        },
    }
}

/// The members written for a mapping never repeat a name.
pub proof fn lemma_members_of_distinct(keys: Seq<HeaderTree>)
    ensures
        distinct_names(members_of(keys)),
    decreases keys.len(),
{
    if keys.len() > 0 {
        lemma_members_of_distinct(keys.drop_last());
        if let HeaderTree::Key { name, value } = keys.last() {
            lemma_insert_member(members_of(keys.drop_last()), name, json_of(*value));
        }
    }
}

/// The position of the member named `name`, if there is one.
#[verifier::loop_isolation(false)]
fn find_member(ms: &Vec<JsonMember>, name: &String) -> (r: Option<usize>)
    ensures
        match r {
            Some(k) => find_name(member_trees(ms@), name@) == Some(k as int),
            None => find_name(member_trees(ms@), name@) is None,
        },
{
    proof {
        lemma_member_trees_pointwise(ms@);
        lemma_find_name(member_trees(ms@), name@);
    }
    let mut k: usize = 0;
    while k < ms.len()
        invariant
            k <= ms.len(),
            forall|j: int| 0 <= j < k ==> ms@[j].name@ != name@,
        decreases ms.len() - k,
    {
        if ms[k].name == *name {
            proof {
                let t = member_trees(ms@);
                assert(t[k as int].0 == name@);
                match find_name(t, name@) {
                    Some(c) => {
                        if c < k {
                            assert(t[c].0 == ms@[c].name@);
                        }
                    },
                    None => {},
                }
            }
            return Some(k);
        }
        k += 1;
    }
    None
}

/// Converts header data into the JSON document that it is written as.
#[verifier::loop_isolation(false)]
pub fn to_json(d: &FileHeaderData) -> (j: JsonValue)
    requires
        serializable(d.tree()),
    ensures
        j.tree() == json_of(d.tree()),
        *d matches FileHeaderData::UInteger(u) ==> (j matches JsonValue::UInt(x) && x == u),
        *d matches FileHeaderData::Integer(i) ==> (i >= 0 ==> (j matches JsonValue::UInt(x) && x == i)),
        *d matches FileHeaderData::Integer(i) ==> (i < 0 ==> (j matches JsonValue::NegInt(x) && x == i)),
        *d matches FileHeaderData::Bool(b) ==> (j matches JsonValue::Bool(x) && x == b),
        *d is Null ==> j is Null,
    decreases d,
{
    match d {
        FileHeaderData::Null => JsonValue::Null,
        FileHeaderData::Bool(b) => JsonValue::Bool(*b),
        FileHeaderData::Integer(i) => {
            if *i >= 0 {
                JsonValue::UInt(*i as u64)
            } else {
                JsonValue::NegInt(*i)
            }
        },
        FileHeaderData::UInteger(u) => JsonValue::UInt(*u),
        FileHeaderData::Float(f) => JsonValue::Float(f.clone()),
        FileHeaderData::Text(s) => JsonValue::Text(s.clone()),
        FileHeaderData::Array { values } => {
            let values: &Vec<FileHeaderData> = values;
            proof {
                lemma_trees_pointwise(values@);
            }
            let mut out: Vec<JsonValue> = Vec::new();
            let mut i: usize = 0;
            while i < values.len()
                invariant
                    d.tree() == (HeaderTree::Array { values: trees(values@) }),
                    serializable(d.tree()),
                    trees(values@).len() == values@.len(),
                    forall|k: int| 0 <= k < values@.len() ==> #[trigger] trees(values@)[k] == values@[k].tree(),
                    i <= values.len(),
                    json_trees(out@) == jsons_of(trees(values@.take(i as int))),
                decreases values.len() - i,
            {
                proof {
                    assert(decreases_to!(*d => (*d)->values));
                    assert(decreases_to!(*values => values@));
                    assert(decreases_to!(values@ => values@[i as int]));
                    let t = HeaderTree::Array { values: trees(values@) };
                    assert(serializable(t));
                    assert(serializable(trees(values@)[i as int]));
                }
                let j = to_json(&values[i]);
                proof {
                    let ts = trees(values@.take(i as int));
                    assert(values@.take(i + 1).drop_last() =~= values@.take(i as int));
                    assert(trees(values@.take(i + 1)) == ts.push(values@[i as int].tree()));
                    assert(ts.push(values@[i as int].tree()).drop_last() =~= ts);
                    assert(out@.push(j).drop_last() =~= out@);
                }
                out.push(j);
                i += 1;
            }
            assert(values@.take(values.len() as int) =~= values@);
            JsonValue::Array(out)
        },
        FileHeaderData::Mapping { keys } => {
            proof {
                lemma_trees_pointwise(keys@);
            }
            let mut out: Vec<JsonMember> = Vec::new();
            let mut i: usize = 0;
            while i < keys.len()
                invariant
                    d.tree() == (HeaderTree::Mapping { keys: trees(keys@) }),
                    serializable(d.tree()),
                    trees(keys@).len() == keys@.len(),
                    forall|k: int| 0 <= k < keys@.len() ==> #[trigger] trees(keys@)[k] == keys@[k].tree(),
                    i <= keys.len(),
                    member_trees(out@) == members_of(trees(keys@.take(i as int))),
                    distinct_names(member_trees(out@)),
                decreases keys.len() - i,
            {
                assert(trees(keys@)[i as int] is Key);
                match &keys[i] {
                    FileHeaderData::Key { name, value } => {
                        proof {
                            assert(decreases_to!(*d => (*d)->keys));
                            assert(decreases_to!(*keys => keys@));
                            assert(decreases_to!(keys@ => keys@[i as int]));
                            assert(decreases_to!(keys@[i as int] => keys@[i as int]->value));
                            assert(serializable(*trees(keys@)[i as int]->value));
                        }
                        let jv = to_json(value);
                        let ghost ms = member_trees(out@);
                        let ghost prev = out@;
                        let member = JsonMember { name: name.clone(), value: jv };
                        proof {
                            lemma_member_trees_pointwise(out@);
                            let ts = trees(keys@.take(i as int));
                            assert(keys@.take(i + 1).drop_last() =~= keys@.take(i as int));
                            assert(trees(keys@.take(i + 1)) == ts.push(keys@[i as int].tree()));
                            assert(ts.push(keys@[i as int].tree()).drop_last() =~= ts);
                            lemma_find_name(ms, name@);
                            assert(members_of(trees(keys@.take(i + 1))) == insert_member(
                                ms,
                                name@,
                                jv.tree(),
                            ));
                        }
                        match find_member(&out, name) {
                            Some(k) => {
                                out.set(k, member);
                                proof {
                                    lemma_member_trees_pointwise(out@);
                                    assert(member_trees(out@) =~= ms.update(k as int, (name@, jv.tree())));
                                }
                            },
                            None => {
                                out.push(member);
                                proof {
                                    lemma_member_trees_pointwise(out@);
                                    assert(member_trees(out@) =~= ms.push((name@, jv.tree())));
                                }
                            },
                        }
                        proof {
                            lemma_insert_member(ms, name@, jv.tree());
                        }
                    },
                    _ => {
                        assert(false);
                    },
                }
                i += 1;
            }
            assert(keys@.take(keys.len() as int) =~= keys@);
            JsonValue::Object(out)
        },
        FileHeaderData::Key { .. } => {
            assert(false);
            JsonValue::Null
        },
    }
}

/// Writing produces a well-formed document.
pub proof fn lemma_json_of_wf(h: HeaderTree)
    requires
        serializable(h),
    ensures
        json_wf(json_of(h)),
    decreases h,
{
    match h {
        HeaderTree::Array { values } => {
            lemma_jsons_of_pointwise(values);
            assert forall|k: int| 0 <= k < jsons_of(values).len() implies json_wf(
                #[trigger] jsons_of(values)[k],
            ) by {
                assert(decreases_to!(h => values));
                assert(decreases_to!(values => values[k]));
                lemma_json_of_wf(values[k]);
            }
        },
        HeaderTree::Mapping { keys } => {
            lemma_members_of_distinct(keys);
            lemma_members_of_values(keys);
            let ms = members_of(keys);
            assert forall|k: int| 0 <= k < ms.len() implies json_wf(#[trigger] ms[k].1) by {
                let j = choose|j: int|
                    0 <= j < keys.len() && keys[j] is Key && ms[k].1 == json_of(*keys[j]->value);
                assert(decreases_to!(h => keys));
                assert(decreases_to!(keys => keys[j]));
                assert(decreases_to!(keys[j] => keys[j]->value));
                lemma_json_of_wf(*keys[j]->value);
            }
        },
        _ => {},
    }
}

/// Each member written for a mapping holds the value of one of its keys.
pub proof fn lemma_members_of_values(keys: Seq<HeaderTree>)
    ensures
        forall|k: int|
            0 <= k < members_of(keys).len() ==> exists|j: int|
                0 <= j < keys.len() && keys[j] is Key && #[trigger] members_of(keys)[k].1 == json_of(
                    *keys[j]->value,
                ),
    decreases keys.len(),
{
    if keys.len() > 0 {
        let rest = members_of(keys.drop_last());
        lemma_members_of_values(keys.drop_last());
        assert forall|k: int| 0 <= k < members_of(keys).len() implies exists|j: int|
            0 <= j < keys.len() && keys[j] is Key && #[trigger] members_of(keys)[k].1 == json_of(
                *keys[j]->value,
            ) by {
            let last = keys.len() - 1;
            if let HeaderTree::Key { name, value } = keys.last() {
                let v = json_of(*value);
                assert(members_of(keys) == insert_member(rest, name, v));
                lemma_find_name(rest, name);
                let fresh = match find_name(rest, name) {
                    Some(c) => k == c,
                    None => k == rest.len(),
                };
                if fresh {
                    assert(members_of(keys)[k] == (name, v));
                    assert(keys[last] == keys.last());
                    assert(keys[last] is Key && members_of(keys)[k].1 == json_of(*keys[last]->value));
                } else {
                    let j = choose|j: int|
                        0 <= j < keys.drop_last().len() && keys.drop_last()[j] is Key
                            && rest[k].1 == json_of(*keys.drop_last()[j]->value);
                    assert(keys[j] == keys.drop_last()[j]);
                }
            } else {
                let j = choose|j: int|
                    0 <= j < keys.drop_last().len() && keys.drop_last()[j] is Key && rest[k].1
                        == json_of(*keys.drop_last()[j]->value);
                assert(keys[j] == keys.drop_last()[j]);
            }
        }
    }
}

} // verus!
