use vstd::prelude::*;

use crate::engine::{HeapObject, Obj, Property, ScriptHeap, ScriptValue, Val};
use crate::json::{Json, JsonValue, Member};

verus! {

/// Why a script value has no JSON representation.
#[derive(Clone, Copy, Debug, PartialEq, Eq, Structural)]
pub enum BridgeError {
    /// A function value was reached.
    Callable,
    /// A symbol was reached.
    Symbol,
    /// An engine-specific handle was reached.
    Opaque,
    /// A reference leads back to an object that encloses it.
    Cycle,
    /// A reference names no object of the heap.
    Dangling,
}

/// A double with this bit pattern is neither infinite nor NaN.
pub open spec fn number_is_finite(bits: u64) -> bool {
    (bits >> 52u64) & 0x7ffu64 != 0x7ffu64
}

/// Every number inside the document is finite: the subset of JSON that
/// survives a trip through the engine unchanged.
pub open spec fn representable(v: Json) -> bool
    decreases v,
{
    match v {
        Json::Number(n) => number_is_finite(n),
        Json::Array(items) => all_representable(items),
        Json::Object(_, vals) => all_representable(vals),
        _ => true,
    }
}

/// Every document of the list is representable.
pub open spec fn all_representable(items: Seq<Json>) -> bool
    decreases items,
{
    items.len() > 0 ==> {
        &&& all_representable(items.subrange(0, items.len() - 1))
        &&& representable(items[items.len() - 1])
    }
}

/// `big` starts with every object of `small`, at the same indices.
pub open spec fn extends(small: Seq<Obj>, big: Seq<Obj>) -> bool {
    &&& small.len() <= big.len()
    &&& forall|k: int| 0 <= k < small.len() ==> big[k] == small[k]
}

/// Moves a document into a heap: the heap after the move and the value that
/// stands for the document. Children are placed before the array or object
/// that holds them, so every reference points to a lower index.
pub open spec fn encode(h: Seq<Obj>, v: Json) -> (Seq<Obj>, Val)
    decreases v,
{
    match v {
        Json::Null => (h, Val::Null),
        Json::Bool(b) => (h, Val::Bool(b)),
        Json::Number(n) => (h, Val::Number(n)),
        Json::Str(s) => (h, Val::Str(s)),
        Json::Array(items) => {
            let (h1, vals) = encode_items(h, items);
            (h1.push(Obj::Array(vals)), Val::Ref(h1.len() as usize))
        },
        Json::Object(keys, items) => {
            let (h1, vals) = encode_items(h, items);
            (h1.push(Obj::Object(keys, vals)), Val::Ref(h1.len() as usize))
        },
    }
}

/// Moves the documents of `items` into a heap, from first to last.
pub open spec fn encode_items(h: Seq<Obj>, items: Seq<Json>) -> (Seq<Obj>, Seq<Val>)
    decreases items,
{
    if items.len() == 0 {
        (h, Seq::empty())
    } else {
        let (h1, vals) = encode_items(h, items.subrange(0, items.len() - 1));
        let (h2, last) = encode(h1, items[items.len() - 1]);
        (h2, vals.push(last))
    }
}

/// Reads the document that `v` stands for in heap `h`. `path` holds the
/// objects that enclose `v`; a reference back into it is a cycle. A path as
/// long as the heap already holds every object, so a reference there closes a
/// cycle as well. `undefined` reads as `null`, and so do non-finite numbers.
pub open spec fn decode(h: Seq<Obj>, v: Val, path: Seq<usize>) -> Result<Json, BridgeError>
    decreases h.len() - path.len(), 0int,
{
    match v {
        Val::Undefined => Ok(Json::Null),
        Val::Null => Ok(Json::Null),
        Val::Bool(b) => Ok(Json::Bool(b)),
        Val::Number(n) => if number_is_finite(n) {
            Ok(Json::Number(n))
        } else {
            Ok(Json::Null)
        },
        Val::Str(s) => Ok(Json::Str(s)),
        Val::Symbol => Err(BridgeError::Symbol),
        Val::Ref(i) => if i >= h.len() {
            Err(BridgeError::Dangling)
        } else if path.contains(i) || path.len() >= h.len() {
            Err(BridgeError::Cycle)
        } else {
            match h[i as int] {
                Obj::Array(vals) => match decode_items(h, vals, path.push(i)) {
                    Ok(items) => Ok(Json::Array(items)),
                    Err(e) => Err(e),
                },
                Obj::Object(keys, vals) => match decode_items(h, vals, path.push(i)) {
                    Ok(items) => Ok(Json::Object(keys, items)),
                    Err(e) => Err(e),
                },
                Obj::Function => Err(BridgeError::Callable),
                Obj::Opaque => Err(BridgeError::Opaque),
            }
        },
    }
}

/// Reads the documents of `vals` from first to last; the first failure wins.
pub open spec fn decode_items(h: Seq<Obj>, vals: Seq<Val>, path: Seq<usize>) -> Result<
    Seq<Json>,
    BridgeError,
>
    decreases h.len() - path.len(), vals.len() + 1,
{
    if vals.len() == 0 {
        Ok(Seq::empty())
    } else {
        match decode_items(h, vals.subrange(0, vals.len() - 1), path) {
            Ok(items) => match decode(h, vals[vals.len() - 1], path) {
                Ok(last) => Ok(items.push(last)),
                Err(e) => Err(e),
            },
            Err(e) => Err(e),
        }
    }
}

/// Moving a document into a heap keeps every object that was there.
pub proof fn lemma_encode_extends(h: Seq<Obj>, v: Json)
    ensures
        extends(h, encode(h, v).0),
    decreases v,
{
    match v {
        Json::Array(items) => lemma_encode_items_extends(h, items),
        Json::Object(_, items) => lemma_encode_items_extends(h, items),
        _ => {},
    }
}

/// Moving a list of documents into a heap keeps every object that was there,
/// and yields one value per document.
pub proof fn lemma_encode_items_extends(h: Seq<Obj>, items: Seq<Json>)
    ensures
        extends(h, encode_items(h, items).0),
        encode_items(h, items).1.len() == items.len(),
    decreases items,
{
    if items.len() > 0 {
        let pre = items.subrange(0, items.len() - 1);
        lemma_encode_items_extends(h, pre);
        lemma_encode_extends(encode_items(h, pre).0, items[items.len() - 1]);
    }
}

/// A path without repeats, inside `lo..hi`, is at most `hi - lo` long.
proof fn lemma_distinct_within(p: Seq<usize>, lo: int, hi: int)
    requires
        p.no_duplicates(),
        forall|k: int| 0 <= k < p.len() ==> lo <= #[trigger] p[k] < hi,
    ensures
        p.len() <= if hi > lo { hi - lo } else { 0 },
    decreases hi - lo,
{
    if hi <= lo {
        if p.len() > 0 {
            assert(lo <= p[0] < hi);
        }
    } else if exists|j: int| 0 <= j < p.len() && p[j] == hi - 1 {
        let j = choose|j: int| 0 <= j < p.len() && p[j] == hi - 1;
        let q = p.remove(j);
        assert(q.len() == p.len() - 1);
        assert forall|k: int| 0 <= k < q.len() implies q[k] == p[if k < j { k } else { k + 1 }] by {}
        assert forall|a: int, b: int| 0 <= a < q.len() && 0 <= b < q.len() && a != b implies q[a]
            != q[b] by {
            let pa = if a < j { a } else { a + 1 };
            let pb = if b < j { b } else { b + 1 };
            assert(q[a] == p[pa] && q[b] == p[pb]);
        }
        assert forall|k: int| 0 <= k < q.len() implies lo <= #[trigger] q[k] < hi - 1 by {
            let pk = if k < j { k } else { k + 1 };
            assert(q[k] == p[pk]);
            assert(pk != j);
        }
        lemma_distinct_within(q, lo, hi - 1);
    } else {
        assert forall|k: int| 0 <= k < p.len() implies lo <= #[trigger] p[k] < hi - 1 by {}
        lemma_distinct_within(p, lo, hi - 1);
    }
}

/// The second cycle test of `decode` finds only true cycles: a path without
/// repeats that is as long as the heap already holds every object, so any
/// reference to an object of the heap leads back into it.
pub proof fn lemma_full_path_is_cycle(h: Seq<Obj>, path: Seq<usize>, i: usize)
    requires
        path.no_duplicates(),
        forall|k: int| 0 <= k < path.len() ==> #[trigger] path[k] < h.len(),
        path.len() >= h.len(),
        i < h.len(),
    ensures
        path.contains(i),
{
    if !path.contains(i) {
        let longer = path.push(i);
        assert forall|a: int, b: int| 0 <= a < longer.len() && 0 <= b < longer.len() && a != b implies longer[a]
            != longer[b] by {
            if a < path.len() && b < path.len() {
                assert(longer[a] == path[a] && longer[b] == path[b]);
            } else if a < path.len() {
                assert(longer[a] == path[a]);
            } else if b < path.len() {
                assert(longer[b] == path[b]);
            }
        }
        assert forall|k: int| 0 <= k < longer.len() implies 0 <= #[trigger] longer[k] < h.len() by {
            if k < path.len() {
                assert(longer[k] == path[k]);
            }
        }
        lemma_distinct_within(longer, 0, h.len() as int);
    }
}

/// Reading back a moved document from any larger heap, below any path of
/// objects that were placed after it, gives the document.
proof fn lemma_decode_encoded(h: Seq<Obj>, v: Json, big: Seq<Obj>, path: Seq<usize>)
    requires
        representable(v),
        extends(encode(h, v).0, big),
        big.len() <= usize::MAX + 1,
        path.no_duplicates(),
        forall|k: int|
            0 <= k < path.len() ==> encode(h, v).0.len() <= #[trigger] path[k] < big.len(),
    ensures
        decode(big, encode(h, v).1, path) == Ok::<Json, BridgeError>(v),
    decreases v, 0int,
{
    match v {
        Json::Array(items) => {
            lemma_decode_encoded_at(h, items, big, path);
            let (h1, vals) = encode_items(h, items);
            assert(big[h1.len() as int] == encode(h, v).0[h1.len() as int]);
        },
        Json::Object(keys, items) => {
            lemma_decode_encoded_at(h, items, big, path);
            let (h1, vals) = encode_items(h, items);
            assert(big[h1.len() as int] == encode(h, v).0[h1.len() as int]);
        },
        _ => {},
    }
}

/// The step of an array or an object: its object is new, off the path, and
/// the path still has room below it.
proof fn lemma_decode_encoded_at(h: Seq<Obj>, items: Seq<Json>, big: Seq<Obj>, path: Seq<usize>)
    requires
        all_representable(items),
        encode_items(h, items).0.len() < big.len() <= usize::MAX + 1,
        extends(encode_items(h, items).0, big),
        path.no_duplicates(),
        forall|k: int|
            0 <= k < path.len() ==> encode_items(h, items).0.len() < #[trigger] path[k] < big.len(),
    ensures
        !path.contains(encode_items(h, items).0.len() as usize),
        path.len() < big.len(),
        decode_items(big, encode_items(h, items).1, path.push(encode_items(h, items).0.len() as usize))
            == Ok::<Seq<Json>, BridgeError>(items),
    decreases items, 2int,
{
    let n = encode_items(h, items).0.len();
    lemma_distinct_within(path, n + 1 as int, big.len() as int);
    let p2 = path.push(n as usize);
    assert forall|k: int| 0 <= k < p2.len() implies n <= #[trigger] p2[k] < big.len() by {
        if k < path.len() {
            assert(p2[k] == path[k]);
        }
    }
    assert forall|a: int, b: int| 0 <= a < p2.len() && 0 <= b < p2.len() && a != b implies p2[a]
        != p2[b] by {
        if a < path.len() {
            assert(p2[a] == path[a]);
        }
        if b < path.len() {
            assert(p2[b] == path[b]);
        }
    }
    lemma_decode_encoded_items(h, items, big, p2);
}

/// Reading back a moved list of documents gives the list.
proof fn lemma_decode_encoded_items(h: Seq<Obj>, items: Seq<Json>, big: Seq<Obj>, path: Seq<usize>)
    requires
        all_representable(items),
        extends(encode_items(h, items).0, big),
        big.len() <= usize::MAX + 1,
        path.no_duplicates(),
        forall|k: int|
            0 <= k < path.len() ==> encode_items(h, items).0.len() <= #[trigger] path[k] < big.len(),
    ensures
        decode_items(big, encode_items(h, items).1, path) == Ok::<Seq<Json>, BridgeError>(items),
    decreases items, 1int,
{
    if items.len() > 0 {
        let pre = items.subrange(0, items.len() - 1);
        let last = items[items.len() - 1];
        let (h1, vals) = encode_items(h, pre);
        let (h2, e) = encode(h1, last);
        lemma_encode_extends(h1, last);
        assert(encode_items(h, items) == (h2, vals.push(e)));
        assert(extends(h1, big));
        lemma_decode_encoded_items(h, pre, big, path);
        lemma_decode_encoded(h1, last, big, path);
        let all = vals.push(e);
        assert(all.subrange(0, all.len() - 1) =~= vals);
        assert(all[all.len() - 1] == e);
        assert(decode_items(big, all, path) == Ok::<Seq<Json>, BridgeError>(pre.push(last)));
        assert(pre.push(last) =~= items);
    } else {
        assert(items =~= Seq::<Json>::empty());
    }
}

/// A document of the representable subset, moved into any heap, reads back
/// unchanged.
pub proof fn lemma_round_trip(h: Seq<Obj>, v: Json)
    requires
        representable(v),
        encode(h, v).0.len() <= usize::MAX + 1,
    ensures
        decode(encode(h, v).0, encode(h, v).1, Seq::empty()) == Ok::<Json, BridgeError>(v),
{
    lemma_decode_encoded(h, v, encode(h, v).0, Seq::empty());
}

/// Moves a document into the heap of a script context and returns the value
/// that stands for it; the objects already in the heap stay as they are.
pub fn to_engine(heap: &mut ScriptHeap, v: &JsonValue) -> (r: ScriptValue)
    ensures
        (final(heap)@, r@) == encode(old(heap)@, v.model()),
    decreases v.model(),
{
    match v {
        JsonValue::Null => ScriptValue::Null,
        JsonValue::Bool(b) => ScriptValue::Bool(*b),
        JsonValue::Number(n) => ScriptValue::Number(*n),
        JsonValue::Str(s) => ScriptValue::Str(s.clone()),
        JsonValue::Array(items) => {
            let ghost h0 = heap@;
            let ghost ms = v.model()->Array_0;
            let mut vals: Vec<ScriptValue> = Vec::new();
            let mut i: usize = 0;
            while i < items.len()
                invariant
                    i <= items.len(),
                    vals@.len() == i,
                    v.model() == Json::Array(ms),
                    ms.len() == items@.len(),
                    forall|j: int| 0 <= j < ms.len() ==> ms[j] == #[trigger] items@[j].model(),
                    (heap@, vals@.map_values(|x: ScriptValue| x@)) == encode_items(h0, ms.take(i as int)),
                decreases items.len() - i,
            {
                proof {
                }
                proof {
                    assert(decreases_to!(v.model() => v.model()->Array_0));
                    assert(decreases_to!(ms => ms[i as int]));
                }
                let x = to_engine(heap, &items[i]);
                proof {
                    assert(ms.take(i + 1).subrange(0, i as int) =~= ms.take(i as int));
                    assert(ms.take(i + 1)[i as int] == items@[i as int].model());
                }
                vals.push(x);
                i = i + 1;
                proof {
                    assert(vals@.map_values(|x: ScriptValue| x@) =~= encode_items(h0, ms.take(i as int)).1);
                }
            }
            proof {
                assert(ms.take(i as int) =~= ms);
            }
            let k = heap.allocate(HeapObject::Array(vals));
            ScriptValue::Ref(k)
        },
        JsonValue::Object(members) => {
            let ghost h0 = heap@;
            let ghost keys = v.model()->Object_0;
            let ghost ms = v.model()->Object_1;
            let mut props: Vec<Property> = Vec::new();
            let mut i: usize = 0;
            while i < members.len()
                invariant
                    i <= members.len(),
                    props@.len() == i,
                    v.model() == Json::Object(keys, ms),
                    ms.len() == members@.len(),
                    keys.len() == members@.len(),
                    forall|j: int| 0 <= j < ms.len() ==> ms[j] == #[trigger] members@[j].value.model(),
                    forall|j: int| 0 <= j < ms.len() ==> keys[j] == #[trigger] members@[j].key@,
                    props@.map_values(|p: Property| p.key@) == keys.take(i as int),
                    (heap@, props@.map_values(|p: Property| p.value@)) == encode_items(h0, ms.take(i as int)),
                decreases members.len() - i,
            {
                proof {
                }
                proof {
                    assert(decreases_to!(v.model() => v.model()->Object_1));
                    assert(decreases_to!(ms => ms[i as int]));
                }
                let x = to_engine(heap, &members[i].value);
                proof {
                    assert(ms.take(i + 1).subrange(0, i as int) =~= ms.take(i as int));
                    assert(ms.take(i + 1)[i as int] == members@[i as int].value.model());
                    assert(keys[i as int] == members@[i as int].key@);
                }
                let ghost before = props@;
                props.push(Property { key: members[i].key.clone(), value: x });
                i = i + 1;
                proof {
                    assert(props@.map_values(|p: Property| p.value@) =~= encode_items(h0, ms.take(i as int)).1);
                    let pk = props@.map_values(|p: Property| p.key@);
                    assert forall|j: int| 0 <= j < i implies #[trigger] pk[j] == keys.take(
                        i as int,
                    )[j] by {
                        if j < i - 1 {
                            assert(props@[j] == before[j]);
                            assert(before.map_values(|p: Property| p.key@)[j] == keys.take(i - 1)[j]);
                        }
                    }
                    assert(props@.map_values(|p: Property| p.key@) =~= keys.take(i as int));
                }
            }
            proof {
                assert(ms.take(i as int) =~= ms);
                assert(keys.take(i as int) =~= keys);
            }
            let k = heap.allocate(HeapObject::Object(props));
            ScriptValue::Ref(k)
        },
    }
}

/// `r` is what the model `m` says a read gives.
pub open spec fn read_as(r: Result<JsonValue, BridgeError>, m: Result<Json, BridgeError>) -> bool {
    match r {
        Ok(j) => m == Ok::<Json, BridgeError>(j.model()),
        Err(e) => m == Err::<Json, BridgeError>(e),
    }
}

/// `r` is what the model `m` says a read of a list gives.
pub open spec fn read_list_as(r: Result<Vec<JsonValue>, BridgeError>, m: Result<Seq<Json>, BridgeError>) -> bool {
    match r {
        Ok(items) => m == Ok::<Seq<Json>, BridgeError>(items@.map_values(|j: JsonValue| j.model())),
        Err(e) => m == Err::<Seq<Json>, BridgeError>(e),
    }
}

/// Once a prefix of a list fails to read, the whole list fails the same way.
proof fn lemma_decode_items_prefix_err(h: Seq<Obj>, vals: Seq<Val>, n: int, path: Seq<usize>)
    requires
        0 <= n <= vals.len(),
        decode_items(h, vals.take(n), path) is Err,
    ensures
        decode_items(h, vals, path) == decode_items(h, vals.take(n), path),
    decreases vals.len(),
{
    if n == vals.len() {
        assert(vals.take(n) =~= vals);
    } else {
        let pre = vals.subrange(0, vals.len() - 1);
        assert(pre.take(n) =~= vals.take(n));
        lemma_decode_items_prefix_err(h, pre, n, path);
    }
}

/// A reference to a function reads as no document: it is a conversion
/// failure, never a value.
pub proof fn lemma_callable_fails(h: Seq<Obj>, i: usize)
    requires
        i < h.len(),
        h[i as int] == Obj::Function,
    ensures
        decode(h, Val::Ref(i), Seq::empty()) == Err::<Json, BridgeError>(BridgeError::Callable),
{
}

/// An array that holds a reference to itself reads as a cycle failure, once
/// the elements in front of that reference have read fine: the reading stops
/// there instead of running on.
pub proof fn lemma_self_reference_fails(h: Seq<Obj>, i: usize, vals: Seq<Val>, j: int)
    requires
        i < h.len(),
        h[i as int] == Obj::Array(vals),
        0 <= j < vals.len(),
        vals[j] == Val::Ref(i),
        decode_items(h, vals.take(j), seq![i]) is Ok,
    ensures
        decode(h, Val::Ref(i), Seq::empty()) == Err::<Json, BridgeError>(BridgeError::Cycle),
{
    let path = Seq::<usize>::empty().push(i);
    assert(path =~= seq![i]);
    assert(path.contains(i)) by {
        assert(path[0] == i);
    }
    assert(vals.take(j + 1).subrange(0, j) =~= vals.take(j));
    assert(vals.take(j + 1)[j] == vals[j]);
    assert(decode(h, vals[j], path) == Err::<Json, BridgeError>(BridgeError::Cycle));
    assert(decode_items(h, vals.take(j + 1), path) == Err::<Seq<Json>, BridgeError>(BridgeError::Cycle));
    lemma_decode_items_prefix_err(h, vals, j + 1, path);
}

/// Whether `i` is on the path.
fn on_path(path: &Vec<usize>, i: usize) -> (r: bool)
    ensures
        r == path@.contains(i),
{
    let mut k: usize = 0;
    while k < path.len()
        invariant
            k <= path@.len(),
            forall|j: int| 0 <= j < k ==> path@[j] != i,
        decreases path.len() - k,
    {
        if path[k] == i {
            assert(path@[k as int] == i);
            return true;
        }
        k = k + 1;
    }
    false
}

/// Reads the document that `v` stands for in `heap`: the inverse of
/// `to_engine`. Functions, symbols, engine handles, references to no object
/// and cycles have no JSON form and are reported as such.
pub fn from_engine(heap: &ScriptHeap, v: &ScriptValue) -> (r: Result<JsonValue, BridgeError>)
    ensures
        read_as(r, decode(heap@, v@, Seq::empty())),
{
    let mut path: Vec<usize> = Vec::new();
    proof {
        assert(path@ =~= Seq::<usize>::empty());
    }
    read_value(heap, v, &mut path)
}

fn read_value(heap: &ScriptHeap, v: &ScriptValue, path: &mut Vec<usize>) -> (r: Result<JsonValue, BridgeError>)
    ensures
        read_as(r, decode(heap@, v@, old(path)@)),
        final(path)@ == old(path)@,
    decreases heap@.len() - path@.len(), 0int,
{
    match v {
        ScriptValue::Undefined => Ok(JsonValue::Null),
        ScriptValue::Null => Ok(JsonValue::Null),
        ScriptValue::Bool(b) => Ok(JsonValue::Bool(*b)),
        ScriptValue::Number(n) => {
            if (*n >> 52u64) & 0x7ffu64 != 0x7ffu64 {
                Ok(JsonValue::Number(*n))
            } else {
                Ok(JsonValue::Null)
            }
        },
        ScriptValue::Str(s) => Ok(JsonValue::Str(s.clone())),
        ScriptValue::Symbol => Err(BridgeError::Symbol),
        ScriptValue::Ref(i) => {
            let i = *i;
            if i >= heap.objects.len() {
                return Err(BridgeError::Dangling);
            }
            if on_path(path, i) || path.len() >= heap.objects.len() {
                return Err(BridgeError::Cycle);
            }
            let ghost p0 = path@;
            match &heap.objects[i] {
                HeapObject::Array(vals) => {
                    path.push(i);
                    let r = read_array(heap, vals, path);
                    path.pop();
                    proof {
                        assert(path@ =~= p0);
                    }
                    match r {
                        Ok(items) => {
                            proof {
                                assert(JsonValue::Array(items).model()->Array_0 =~= items@.map_values(
                                    |j: JsonValue| j.model(),
                                ));
                            }
                            Ok(JsonValue::Array(items))
                        },
                        Err(e) => Err(e),
                    }
                },
                HeapObject::Object(props) => {
                    path.push(i);
                    let r = read_object(heap, props, path);
                    path.pop();
                    proof {
                        assert(path@ =~= p0);
                    }
                    match r {
                        Ok(members) => {
                            proof {
                                let m = JsonValue::Object(members).model();
                                assert(m->Object_0 =~= props@.map_values(|p: Property| p.key@));
                                assert(m->Object_1 =~= members@.map_values(|j: Member| j.value.model()));
                            }
                            Ok(JsonValue::Object(members))
                        },
                        Err(e) => Err(e),
                    }
                },
                HeapObject::Function => Err(BridgeError::Callable),
                HeapObject::Opaque => Err(BridgeError::Opaque),
            }
        },
    }
}

fn read_array(heap: &ScriptHeap, vals: &Vec<ScriptValue>, path: &mut Vec<usize>) -> (r: Result<Vec<JsonValue>, BridgeError>)
    ensures
        read_list_as(r, decode_items(heap@, vals@.map_values(|x: ScriptValue| x@), old(path)@)),
        final(path)@ == old(path)@,
    decreases heap@.len() - path@.len(), 1int,
{
    let ghost vs = vals@.map_values(|x: ScriptValue| x@);
    let mut out: Vec<JsonValue> = Vec::new();
    let mut k: usize = 0;
    proof {
        assert(vs.take(0) =~= Seq::<Val>::empty());
        assert(out@.map_values(|j: JsonValue| j.model()) =~= Seq::<Json>::empty());
    }
    while k < vals.len()
        invariant
            k <= vals@.len(),
            vs.len() == vals@.len(),
            forall|j: int| 0 <= j < vs.len() ==> vs[j] == #[trigger] vals@[j]@,
            path@ == old(path)@,
            decode_items(heap@, vs.take(k as int), path@) == Ok::<Seq<Json>, BridgeError>(
                out@.map_values(|j: JsonValue| j.model()),
            ),
        decreases vals.len() - k,
    {
        let x = read_value(heap, &vals[k], path);
        proof {
            assert(vs.take(k + 1).subrange(0, k as int) =~= vs.take(k as int));
            assert(vs.take(k + 1)[k as int] == vals@[k as int]@);
        }
        match x {
            Ok(j) => {
                out.push(j);
                proof {
                    assert(out@.map_values(|j: JsonValue| j.model()) =~= decode_items(heap@, vs.take(k + 1), path@)->Ok_0);
                }
            },
            Err(e) => {
                proof {
                    assert(decode_items(heap@, vs.take(k + 1), path@) == Err::<Seq<Json>, BridgeError>(e));
                    lemma_decode_items_prefix_err(heap@, vs, k + 1, path@);
                    assert(decode_items(heap@, vs, old(path)@) == Err::<Seq<Json>, BridgeError>(e));
                    assert(vs =~= vals@.map_values(|x: ScriptValue| x@));
                }
                return Err(e);
            },
        }
        k = k + 1;
    }
    proof {
        assert(vs.take(k as int) =~= vs);
    }
    Ok(out)
}

fn read_object(heap: &ScriptHeap, props: &Vec<Property>, path: &mut Vec<usize>) -> (r: Result<Vec<Member>, BridgeError>)
    ensures
        match r {
            Ok(members) => {
                &&& members@.map_values(|m: Member| m.key@) == props@.map_values(|p: Property| p.key@)
                &&& decode_items(heap@, props@.map_values(|p: Property| p.value@), old(path)@)
                    == Ok::<Seq<Json>, BridgeError>(members@.map_values(|m: Member| m.value.model()))
            },
            Err(e) => decode_items(heap@, props@.map_values(|p: Property| p.value@), old(path)@)
                == Err::<Seq<Json>, BridgeError>(e),
        },
        final(path)@ == old(path)@,
    decreases heap@.len() - path@.len(), 1int,
{
    let ghost vs = props@.map_values(|p: Property| p.value@);
    let ghost ks = props@.map_values(|p: Property| p.key@);
    let mut out: Vec<Member> = Vec::new();
    let mut k: usize = 0;
    proof {
        assert(vs.take(0) =~= Seq::<Val>::empty());
        assert(out@.map_values(|m: Member| m.value.model()) =~= Seq::<Json>::empty());
        assert(out@.map_values(|m: Member| m.key@) =~= ks.take(0));
    }
    while k < props.len()
        invariant
            k <= props@.len(),
            out@.len() == k,
            vs.len() == props@.len(),
            ks.len() == props@.len(),
            forall|j: int| 0 <= j < vs.len() ==> vs[j] == #[trigger] props@[j].value@,
            forall|j: int| 0 <= j < ks.len() ==> ks[j] == #[trigger] props@[j].key@,
            path@ == old(path)@,
            out@.map_values(|m: Member| m.key@) == ks.take(k as int),
            decode_items(heap@, vs.take(k as int), path@) == Ok::<Seq<Json>, BridgeError>(
                out@.map_values(|m: Member| m.value.model()),
            ),
        decreases props.len() - k,
    {
        let x = read_value(heap, &props[k].value, path);
        proof {
            assert(vs.take(k + 1).subrange(0, k as int) =~= vs.take(k as int));
            assert(vs.take(k + 1)[k as int] == props@[k as int].value@);
        }
        match x {
            Ok(j) => {
                let ghost before = out@;
                out.push(Member { key: props[k].key.clone(), value: j });
                proof {
                    assert(out@.map_values(|m: Member| m.value.model()) =~= decode_items(heap@, vs.take(k + 1), path@)->Ok_0);
                    let ok = out@.map_values(|m: Member| m.key@);
                    assert forall|j: int| 0 <= j < k + 1 implies #[trigger] ok[j] == ks.take(k + 1)[j] by {
                        if j < k {
                            assert(out@[j] == before[j]);
                            assert(before.map_values(|m: Member| m.key@)[j] == ks.take(k as int)[j]);
                        } else {
                            assert(ks[k as int] == props@[k as int].key@);
                        }
                    }
                    assert(ok =~= ks.take(k + 1));
                }
            },
            Err(e) => {
                proof {
                    assert(decode_items(heap@, vs.take(k + 1), path@) == Err::<Seq<Json>, BridgeError>(e));
                    lemma_decode_items_prefix_err(heap@, vs, k + 1, path@);
                    assert(decode_items(heap@, vs, old(path)@) == Err::<Seq<Json>, BridgeError>(e));
                    assert(vs =~= props@.map_values(|p: Property| p.value@));
                }
                return Err(e);
            },
        }
        k = k + 1;
    }
    proof {
        assert(vs.take(k as int) =~= vs);
        assert(ks.take(k as int) =~= ks);
    }
    Ok(out)
}

} // verus!
