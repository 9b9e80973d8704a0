//! What reading and writing promise of each other.

use vstd::prelude::*;

use crate::header::{key_tree, HeaderTree};
use crate::json::{JsonValue, header_sorted, json_sorted, name_lt, distinct_names, header_of, headers_of, json_wf, keys_of, lemma_headers_of_pointwise, lemma_keys_of_pointwise, JsonTree};
use crate::writer::{canonical, find_name, json_of, jsons_of, lemma_find_name, lemma_jsons_of_pointwise, members_of, serializable};

verus! {

proof fn lemma_members_roundtrip(ms: Seq<(Seq<char>, JsonTree)>)
    requires
        distinct_names(ms),
        forall|i: int| 0 <= i < ms.len() ==> json_of(header_of(#[trigger] ms[i].1)) == ms[i].1,
    ensures
        members_of(keys_of(ms)) == ms,
    decreases ms.len(),
{
    if ms.len() > 0 {
        let init = ms.drop_last();
        let last = ms.last();
        assert(forall|i: int| 0 <= i < init.len() ==> init[i] == #[trigger] ms[i]);
        lemma_members_roundtrip(init);
        let ks = keys_of(ms);
        assert(ks.drop_last() =~= keys_of(init));
        assert(ks.last() == key_tree(last.0, header_of(last.1)));
        assert(json_of(header_of(ms[ms.len() - 1].1)) == last.1);
        lemma_find_name(init, last.0);
        assert(find_name(init, last.0) is None);
        assert(members_of(ks) == init.push(last));
        assert(init.push(last) =~= ms);
    }
}

/// Law: a well-formed JSON document, read as a header and written back,
/// gives the same document.
pub proof fn lemma_read_then_write(t: JsonTree)
    requires
        json_wf(t),
    ensures
        serializable(header_of(t)),
        json_of(header_of(t)) == t,
    decreases t,
{
    match t {
        JsonTree::Array(vs) => {
            lemma_headers_of_pointwise(vs);
            lemma_jsons_of_pointwise(headers_of(vs));
            assert forall|i: int| 0 <= i < vs.len() implies serializable(
                #[trigger] headers_of(vs)[i],
            ) && json_of(headers_of(vs)[i]) == vs[i] by {
                assert(decreases_to!(t => vs));
                assert(decreases_to!(vs => vs[i]));
                lemma_read_then_write(vs[i]);
            }
            assert(jsons_of(headers_of(vs)) =~= vs);
        },
        JsonTree::Object(ms) => {
            lemma_keys_of_pointwise(ms);
            assert forall|i: int| 0 <= i < ms.len() implies serializable(header_of(#[trigger] ms[i].1))
                && json_of(header_of(ms[i].1)) == ms[i].1 by {
                assert(decreases_to!(t => ms));
                assert(decreases_to!(ms => ms[i]));
                assert(decreases_to!(ms[i] => ms[i].1));
                lemma_read_then_write(ms[i].1);
            }
            assert forall|i: int| 0 <= i < keys_of(ms).len() implies (#[trigger] keys_of(ms)[i] is Key
                && serializable(*keys_of(ms)[i]->value)) by {
                assert(keys_of(ms)[i] == key_tree(ms[i].0, header_of(ms[i].1)));
            }
            lemma_members_roundtrip(ms);
        },
        _ => {},
    }
}

/// Every header that reads from a well-formed JSON document is canonical.
pub proof fn lemma_read_is_canonical(t: JsonTree)
    requires
        json_wf(t),
    ensures
        canonical(header_of(t)),
    decreases t,
{
    match t {
        JsonTree::Array(vs) => {
            lemma_headers_of_pointwise(vs);
            assert forall|i: int| 0 <= i < vs.len() implies canonical(#[trigger] headers_of(vs)[i]) by {
                assert(decreases_to!(t => vs));
                assert(decreases_to!(vs => vs[i]));
                lemma_read_is_canonical(vs[i]);
            }
        },
        JsonTree::Object(ms) => {
            lemma_keys_of_pointwise(ms);
            let ks = keys_of(ms);
            assert forall|i: int| 0 <= i < ks.len() implies (#[trigger] ks[i] is Key && canonical(
                *ks[i]->value,
            )) by {
                assert(decreases_to!(t => ms));
                assert(decreases_to!(ms => ms[i]));
                assert(decreases_to!(ms[i] => ms[i].1));
                lemma_read_is_canonical(ms[i].1);
            }
            assert forall|i: int, j: int| 0 <= i < j < ks.len() implies #[trigger] ks[i]->name
                != #[trigger] ks[j]->name by {
                assert(ks[i]->name == ms[i].0);
                assert(ks[j]->name == ms[j].0);
            }
        },
        _ => {},
    }
}

proof fn lemma_members_of_fresh(keys: Seq<HeaderTree>)
    requires
        forall|i: int| 0 <= i < keys.len() ==> #[trigger] keys[i] is Key,
        forall|i: int, j: int|
            0 <= i < j < keys.len() ==> #[trigger] keys[i]->name != #[trigger] keys[j]->name,
    ensures
        members_of(keys).len() == keys.len(),
        forall|i: int|
            0 <= i < keys.len() ==> #[trigger] members_of(keys)[i] == (
                keys[i]->name,
                json_of(*keys[i]->value),
            ),
    decreases keys.len(),
{
    if keys.len() > 0 {
        let init = keys.drop_last();
        let n = keys.len() - 1;
        assert(forall|i: int| 0 <= i < init.len() ==> init[i] == #[trigger] keys[i]);
        lemma_members_of_fresh(init);
        let rest = members_of(init);
        assert(keys[n] is Key);
        lemma_find_name(rest, keys[n]->name);
        assert forall|j: int| 0 <= j < rest.len() implies rest[j].0 != keys[n]->name by {
            assert(rest[j].0 == keys[j]->name);
        }
        assert(find_name(rest, keys[n]->name) is None);
    }
}

/// Law: canonical header data, written as JSON and read back, gives the
/// same data.
pub proof fn lemma_write_then_read(h: HeaderTree)
    requires
        canonical(h),
    ensures
        serializable(h),
        header_of(json_of(h)) == h,
    decreases h,
{
    match h {
        HeaderTree::Array { values } => {
            lemma_jsons_of_pointwise(values);
            lemma_headers_of_pointwise(jsons_of(values));
            assert forall|i: int| 0 <= i < values.len() implies serializable(#[trigger] values[i])
                && header_of(jsons_of(values)[i]) == values[i] by {
                assert(decreases_to!(h => values));
                assert(decreases_to!(values => values[i]));
                lemma_write_then_read(values[i]);
            }
            assert(headers_of(jsons_of(values)) =~= values);
        },
        HeaderTree::Mapping { keys } => {
            lemma_members_of_fresh(keys);
            let ms = members_of(keys);
            lemma_keys_of_pointwise(ms);
            assert forall|i: int| 0 <= i < keys.len() implies serializable(*(#[trigger] keys[i])->value)
                && keys_of(ms)[i] == keys[i] by {
                assert(decreases_to!(h => keys));
                assert(decreases_to!(keys => keys[i]));
                assert(decreases_to!(keys[i] => keys[i]->value));
                lemma_write_then_read(*keys[i]->value);
            }
            assert(keys_of(ms) =~= keys);
        },
        _ => {},
    }
}

/// A document as the reader produces it reads as header data whose
/// mapping keys are in strictly ascending order of their names.
pub proof fn lemma_read_is_sorted(t: JsonTree)
    requires
        json_sorted(t),
    ensures
        header_sorted(header_of(t)),
    decreases t,
{
    match t {
        JsonTree::Array(vs) => {
            lemma_headers_of_pointwise(vs);
            assert forall|i: int| 0 <= i < vs.len() implies header_sorted(#[trigger] headers_of(vs)[i]) by {
                assert(decreases_to!(t => vs));
                assert(decreases_to!(vs => vs[i]));
                lemma_read_is_sorted(vs[i]);
            }
        },
        JsonTree::Object(ms) => {
            lemma_keys_of_pointwise(ms);
            let ks = keys_of(ms);
            assert forall|i: int| 0 <= i < ks.len() implies header_sorted(#[trigger] ks[i]) by {
                assert(decreases_to!(t => ms));
                assert(decreases_to!(ms => ms[i]));
                assert(decreases_to!(ms[i] => ms[i].1));
                lemma_read_is_sorted(ms[i].1);
                assert(ks[i] == key_tree(ms[i].0, header_of(ms[i].1)));
            }
            assert forall|i: int, j: int| 0 <= i < j < ks.len() implies name_lt(
                #[trigger] ks[i]->name,
                #[trigger] ks[j]->name,
            ) by {
                assert(ks[i]->name == ms[i].0);
                assert(ks[j]->name == ms[j].0);
            }
        },
        _ => {},
    }
}

/// Law: a JSON number reads as a header integer of the same value, its
/// sign class kept; booleans, texts and null read as themselves.
pub proof fn lemma_numbers_read_as_themselves(u: u64, i: i64, b: bool, s: Seq<char>)
    ensures
        header_of(JsonTree::UInt(u)) == HeaderTree::UInteger(u),
        header_of(JsonTree::NegInt(i)) == HeaderTree::Integer(i),
        header_of(JsonTree::Bool(b)) == HeaderTree::Bool(b),
        header_of(JsonTree::Text(s)) == HeaderTree::Text(s),
        header_of(JsonTree::Null) == HeaderTree::Null,
{
}

/// Law: a header integer is written as the JSON number of the same value
/// (a non-negative one as an unsigned number, never as null); booleans and
/// null are written as themselves.
pub proof fn lemma_numbers_written_as_themselves(u: u64, i: i64, b: bool)
    ensures
        json_of(HeaderTree::UInteger(u)) == JsonTree::UInt(u),
        i >= 0 ==> json_of(HeaderTree::Integer(i)) == JsonTree::UInt(i as u64),
        i >= 0 ==> (i as u64) as int == i as int,
        i < 0 ==> json_of(HeaderTree::Integer(i)) == JsonTree::NegInt(i),
        json_of(HeaderTree::Bool(b)) == JsonTree::Bool(b),
        json_of(HeaderTree::Null) == JsonTree::Null,
{
}

/// The scalar documents map to the scalar data of the same value, value
/// for value, through their trees.
pub proof fn lemma_scalars_read_as_themselves(v: JsonValue)
    ensures
        v matches JsonValue::UInt(u) ==> v.tree() == JsonTree::UInt(u),
        v matches JsonValue::NegInt(i) ==> v.tree() == JsonTree::NegInt(i),
{
}

} // verus!
