//! The JSON document model and how a document reads as header data.

use vstd::prelude::*;

use crate::header::{key_tree, trees, FileHeaderData, HeaderTree};
use crate::laws::{lemma_read_is_canonical, lemma_read_is_sorted, lemma_scalars_read_as_themselves};
use crate::writer::canonical;

verus! {

/// A parsed JSON document, as the JSON reader hands it over: every number
/// is either a non-negative integer, a negative integer or a float (held as
/// its decimal text), and an object is its members in order.
pub enum JsonValue {
    Null,
    Bool(bool),
    UInt(u64),
    NegInt(i64),
    Float(String),
    Text(String),
    Array(Vec<JsonValue>),
    Object(Vec<JsonMember>),
}

/// One `"name": value` member of a JSON object.
pub struct JsonMember {
    pub name: String,
    pub value: JsonValue,
}

/// The mathematical value of a [`JsonValue`].
pub enum JsonTree {
    Null,
    Bool(bool),
    UInt(u64),
    NegInt(i64),
    Float(Seq<char>),
    Text(Seq<char>),
    Array(Seq<JsonTree>),
    Object(Seq<(Seq<char>, JsonTree)>),
}

impl JsonValue {
    pub open spec fn tree(self) -> JsonTree
        decreases self,
    {
        match self {
            JsonValue::Null => JsonTree::Null,
            JsonValue::Bool(b) => JsonTree::Bool(b),
            JsonValue::UInt(u) => JsonTree::UInt(u),
            JsonValue::NegInt(i) => JsonTree::NegInt(i),
            JsonValue::Float(f) => JsonTree::Float(f@),
            JsonValue::Text(s) => JsonTree::Text(s@),
            JsonValue::Array(vs) => JsonTree::Array(json_trees(vs@)),
            JsonValue::Object(ms) => JsonTree::Object(member_trees(ms@)),
        }
    }
}

pub open spec fn json_trees(s: Seq<JsonValue>) -> Seq<JsonTree>
    decreases s,
{
    if s.len() == 0 {
        Seq::empty()
    } else {
        json_trees(s.drop_last()).push(s.last().tree())
    }
}

pub open spec fn member_trees(s: Seq<JsonMember>) -> Seq<(Seq<char>, JsonTree)>
    decreases s,
{
    if s.len() == 0 {
        Seq::empty()
    } else {
        member_trees(s.drop_last()).push((s.last().name@, s.last().value.tree()))
    }
}

/// The header that a JSON document reads as: numbers keep their sign class,
/// an array becomes an array and an object becomes a mapping of keys.
pub open spec fn header_of(t: JsonTree) -> HeaderTree
    decreases t,
{
    match t {
        JsonTree::Null => HeaderTree::Null,
        JsonTree::Bool(b) => HeaderTree::Bool(b),
        JsonTree::UInt(u) => HeaderTree::UInteger(u),
        JsonTree::NegInt(i) => HeaderTree::Integer(i),
        JsonTree::Float(f) => HeaderTree::Float(f),
        JsonTree::Text(s) => HeaderTree::Text(s),
        JsonTree::Array(vs) => HeaderTree::Array { values: headers_of(vs) },
        JsonTree::Object(ms) => HeaderTree::Mapping { keys: keys_of(ms) },
    }
}

pub open spec fn headers_of(s: Seq<JsonTree>) -> Seq<HeaderTree>
    decreases s,
{
    if s.len() == 0 {
        Seq::empty()
    } else {
        headers_of(s.drop_last()).push(header_of(s.last()))
    }
}

pub open spec fn keys_of(s: Seq<(Seq<char>, JsonTree)>) -> Seq<HeaderTree>
    decreases s,
{
    if s.len() == 0 {
        Seq::empty()
    } else {
        keys_of(s.drop_last()).push(key_tree(s.last().0, header_of(s.last().1)))
    }
}

/// Converts a parsed JSON document into header data. A document as the
/// reader produces it gives canonical data whose mapping keys are in
/// strictly ascending order of their names.
pub fn visit_json(v: &JsonValue) -> (d: FileHeaderData)
    ensures
        d.tree() == header_of(v.tree()),
        json_sorted(v.tree()) ==> header_sorted(d.tree()) && canonical(d.tree()),
        *v matches JsonValue::UInt(u) ==> (d matches FileHeaderData::UInteger(x) && x == u),
        *v matches JsonValue::NegInt(i) ==> (d matches FileHeaderData::Integer(x) && x == i),
        *v matches JsonValue::Bool(b) ==> (d matches FileHeaderData::Bool(x) && x == b),
        *v matches JsonValue::Text(s) ==> (d matches FileHeaderData::Text(x) && x@ == s@),
        *v is Null ==> d is Null,
{
    let d = header_data_of(v);
    proof {
        lemma_scalars_read_as_themselves(*v);
    }
    proof {
        if json_sorted(v.tree()) {
            lemma_sorted_is_wf(v.tree());
            lemma_read_is_canonical(v.tree());
            lemma_read_is_sorted(v.tree());
        }
    }
    d
}

fn header_data_of(v: &JsonValue) -> (d: FileHeaderData)
    ensures
        d.tree() == header_of(v.tree()),
    decreases v,
{
    match v {
        JsonValue::Null => FileHeaderData::Null,
        JsonValue::Bool(b) => FileHeaderData::Bool(*b),
        JsonValue::UInt(u) => FileHeaderData::UInteger(*u),
        JsonValue::NegInt(i) => FileHeaderData::Integer(*i),
        JsonValue::Float(f) => FileHeaderData::Float(f.clone()),
        JsonValue::Text(s) => FileHeaderData::Text(s.clone()),
        JsonValue::Array(vs) => {
            let mut out: Vec<FileHeaderData> = Vec::new();
            let mut i: usize = 0;
            while i < vs.len()
                invariant
                    *v == JsonValue::Array(*vs),
                    i <= vs.len(),
                    trees(out@) == headers_of(json_trees(vs@.take(i as int))),
                decreases vs.len() - i,
            {
                proof {
                    assert(decreases_to!(*v => (*v)->Array_0));
                    assert(decreases_to!(*vs => vs@));
                    assert(decreases_to!(vs@ => vs@[i as int]));
                }
                let d = header_data_of(&vs[i]);
                proof {
                    let jt = json_trees(vs@.take(i as int));
                    assert(vs@.take(i + 1).drop_last() =~= vs@.take(i as int));
                    assert(json_trees(vs@.take(i + 1)) == jt.push(vs@[i as int].tree()));
                    assert(jt.push(vs@[i as int].tree()).drop_last() =~= jt);
                    assert(out@.push(d).drop_last() =~= out@);
                }
                out.push(d);
                i += 1;
            }
            assert(vs@.take(vs.len() as int) =~= vs@);
            FileHeaderData::Array { values: Box::new(out) }
        },
        JsonValue::Object(ms) => {
            let mut out: Vec<FileHeaderData> = Vec::new();
            let mut i: usize = 0;
            while i < ms.len()
                invariant
                    *v == JsonValue::Object(*ms),
                    i <= ms.len(),
                    trees(out@) == keys_of(member_trees(ms@.take(i as int))),
                decreases ms.len() - i,
            {
                proof {
                    assert(decreases_to!(*v => (*v)->Object_0));
                    assert(decreases_to!(*ms => ms@));
                    assert(decreases_to!(ms@ => ms@[i as int]));
                    assert(decreases_to!(ms@[i as int] => ms@[i as int].value));
                }
                let value = header_data_of(&ms[i].value);
                let key = FileHeaderData::Key { name: ms[i].name.clone(), value: Box::new(value) };
                proof {
                    let mt = member_trees(ms@.take(i as int));
                    let m = (ms@[i as int].name@, ms@[i as int].value.tree());
                    assert(ms@.take(i + 1).drop_last() =~= ms@.take(i as int));
                    assert(member_trees(ms@.take(i + 1)) == mt.push(m));
                    assert(mt.push(m).drop_last() =~= mt);
                    assert(keys_of(mt.push(m)) == keys_of(mt).push(key_tree(m.0, header_of(m.1))));
                    assert(out@.push(key).drop_last() =~= out@);
                    assert(key.tree() == key_tree(m.0, header_of(m.1)));
                    assert(trees(out@.push(key)) == trees(out@).push(key.tree()));
                }
                out.push(key);
                i += 1;
            }
            assert(ms@.take(ms.len() as int) =~= ms@);
            FileHeaderData::Mapping { keys: out }
        },
    }
}

pub proof fn lemma_member_trees_pointwise(s: Seq<JsonMember>)
    ensures
        member_trees(s).len() == s.len(),
        forall|i: int|
            0 <= i < s.len() ==> #[trigger] member_trees(s)[i] == (s[i].name@, s[i].value.tree()),
    decreases s.len(),
{
    if s.len() > 0 {
        lemma_member_trees_pointwise(s.drop_last());
    }
}

pub proof fn lemma_headers_of_pointwise(s: Seq<JsonTree>)
    ensures
        headers_of(s).len() == s.len(),
        forall|i: int| 0 <= i < s.len() ==> #[trigger] headers_of(s)[i] == header_of(s[i]),
    decreases s.len(),
{
    if s.len() > 0 {
        lemma_headers_of_pointwise(s.drop_last());
    }
}

pub proof fn lemma_keys_of_pointwise(s: Seq<(Seq<char>, JsonTree)>)
    ensures
        keys_of(s).len() == s.len(),
        forall|i: int|
            0 <= i < s.len() ==> #[trigger] keys_of(s)[i] == key_tree(s[i].0, header_of(s[i].1)),
    decreases s.len(),
{
    if s.len() > 0 {
        lemma_keys_of_pointwise(s.drop_last());
    }
}

/// The member names of an object are pairwise distinct.
pub open spec fn distinct_names(ms: Seq<(Seq<char>, JsonTree)>) -> bool {
    forall|i: int, j: int| 0 <= i < j < ms.len() ==> ms[i].0 != ms[j].0
}

/// A well-formed JSON document: a negative integer is negative, and no
/// object has two members of the same name.
pub open spec fn json_wf(t: JsonTree) -> bool
    decreases t,
{
    match t {
        JsonTree::NegInt(i) => i < 0,
        JsonTree::Array(vs) => forall|i: int| 0 <= i < vs.len() ==> json_wf(#[trigger] vs[i]),
        JsonTree::Object(ms) => distinct_names(ms) && forall|i: int|
            0 <= i < ms.len() ==> json_wf(#[trigger] ms[i].1),
        _ => true,
    }
}

/// `a` comes strictly before `b` in the lexicographic order of their
/// characters' code points (the order of `String`'s `Ord`).
pub open spec fn name_lt(a: Seq<char>, b: Seq<char>) -> bool
    decreases a.len(),
{
    if a.len() == 0 {
        b.len() > 0
    } else if b.len() == 0 {
        false
    } else if a[0] != b[0] {
        (a[0] as u32) < (b[0] as u32)
    } else {
        name_lt(a.drop_first(), b.drop_first())
    }
}

/// No name comes strictly before itself.
pub proof fn lemma_name_lt_irreflexive(a: Seq<char>)
    ensures
        !name_lt(a, a),
    decreases a.len(),
{
    if a.len() > 0 {
        lemma_name_lt_irreflexive(a.drop_first());
    }
}

/// The member names of an object are strictly ascending.
pub open spec fn names_ascending(ms: Seq<(Seq<char>, JsonTree)>) -> bool {
    forall|i: int, j: int| 0 <= i < j < ms.len() ==> name_lt(#[trigger] ms[i].0, #[trigger] ms[j].0)
}

/// A document as the JSON reader produces it: negative integers are
/// negative, and the members of every object are in strictly ascending
/// order of their names (so no name repeats).
pub open spec fn json_sorted(t: JsonTree) -> bool
    decreases t,
{
    match t {
        JsonTree::NegInt(i) => i < 0,
        JsonTree::Array(vs) => forall|i: int| 0 <= i < vs.len() ==> json_sorted(#[trigger] vs[i]),
        JsonTree::Object(ms) => names_ascending(ms) && forall|i: int|
            0 <= i < ms.len() ==> json_sorted(#[trigger] ms[i].1),
        _ => true,
    }
}

/// Header data whose mappings list their keys in strictly ascending order
/// of their names, at every depth.
pub open spec fn header_sorted(h: HeaderTree) -> bool
    decreases h,
{
    match h {
        HeaderTree::Key { value, .. } => header_sorted(*value),
        HeaderTree::Mapping { keys } => {
            &&& forall|i: int, j: int|
                0 <= i < j < keys.len() ==> name_lt(#[trigger] keys[i]->name, #[trigger] keys[j]->name)
            &&& forall|i: int| 0 <= i < keys.len() ==> header_sorted(#[trigger] keys[i])
        },
        HeaderTree::Array { values } => forall|i: int|
            0 <= i < values.len() ==> header_sorted(#[trigger] values[i]),
        _ => true,
    }
}

/// A document as the reader produces it is well formed.
pub proof fn lemma_sorted_is_wf(t: JsonTree)
    requires
        json_sorted(t),
    ensures
        json_wf(t),
    decreases t,
{
    match t {
        JsonTree::Array(vs) => {
            assert forall|i: int| 0 <= i < vs.len() implies json_wf(#[trigger] vs[i]) by {
                assert(decreases_to!(t => vs));
                assert(decreases_to!(vs => vs[i]));
                lemma_sorted_is_wf(vs[i]);
            }
        },
        JsonTree::Object(ms) => {
            assert forall|i: int, j: int| 0 <= i < j < ms.len() implies ms[i].0 != ms[j].0 by {
                assert(name_lt(ms[i].0, ms[j].0));
                lemma_name_lt_irreflexive(ms[i].0);
            }
            assert forall|i: int| 0 <= i < ms.len() implies json_wf(#[trigger] ms[i].1) by {
                assert(decreases_to!(t => ms));
                assert(decreases_to!(ms => ms[i]));
                assert(decreases_to!(ms[i] => ms[i].1));
                lemma_sorted_is_wf(ms[i].1);
            }
        },
        _ => {},
    }
}

} // verus!
