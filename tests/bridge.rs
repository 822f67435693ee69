use whinator::{from_engine, to_engine, BridgeError, HeapObject, JsonValue, Member, Property, ScriptHeap, ScriptValue};

fn s(t: &str) -> String {
    t.to_string()
}

fn num(x: f64) -> JsonValue {
    JsonValue::Number(x.to_bits())
}

fn member(k: &str, v: JsonValue) -> Member {
    Member { key: s(k), value: v }
}

fn sample() -> JsonValue {
    JsonValue::Object(vec![
        member("a", JsonValue::Array(vec![num(1.0), JsonValue::Str(s("x")), JsonValue::Null, JsonValue::Bool(true)])),
        member("b", JsonValue::Object(vec![])),
        member("c", num(-2.5)),
    ])
}

#[test]
fn round_trip_nested_document() {
    let v = sample();
    let mut heap = ScriptHeap::new();
    let e = to_engine(&mut heap, &v);
    assert_eq!(from_engine(&heap, &e), Ok(sample()));
}

#[test]
fn round_trip_primitives() {
    for v in [JsonValue::Null, JsonValue::Bool(false), num(0.0), num(9007199254740991.0), JsonValue::Str(s(""))] {
        let mut heap = ScriptHeap::new();
        let e = to_engine(&mut heap, &v);
        assert_eq!(heap.len(), 0);
        assert_eq!(from_engine(&heap, &e), Ok(v));
    }
}

#[test]
fn round_trip_into_used_heap() {
    let mut heap = ScriptHeap::new();
    heap.allocate(HeapObject::Function);
    let e = to_engine(&mut heap, &sample());
    assert_eq!(heap.objects[0], HeapObject::Function);
    assert_eq!(from_engine(&heap, &e), Ok(sample()));
}

#[test]
fn children_are_placed_before_their_parent() {
    let v = JsonValue::Object(vec![member("a", JsonValue::Array(vec![num(1.0)]))]);
    let mut heap = ScriptHeap::new();
    let e = to_engine(&mut heap, &v);
    assert_eq!(e, ScriptValue::Ref(1));
    assert_eq!(heap.objects[0], HeapObject::Array(vec![ScriptValue::Number(1.0f64.to_bits())]));
    assert_eq!(
        heap.objects[1],
        HeapObject::Object(vec![Property { key: s("a"), value: ScriptValue::Ref(0) }])
    );
}

#[test]
fn undefined_reads_as_null() {
    let heap = ScriptHeap::new();
    assert_eq!(from_engine(&heap, &ScriptValue::Undefined), Ok(JsonValue::Null));
}

#[test]
fn non_finite_numbers_read_as_null() {
    let heap = ScriptHeap::new();
    assert_eq!(from_engine(&heap, &ScriptValue::Number(f64::INFINITY.to_bits())), Ok(JsonValue::Null));
    assert_eq!(from_engine(&heap, &ScriptValue::Number(f64::NEG_INFINITY.to_bits())), Ok(JsonValue::Null));
    assert_eq!(from_engine(&heap, &ScriptValue::Number(f64::NAN.to_bits())), Ok(JsonValue::Null));
    assert_eq!(from_engine(&heap, &ScriptValue::Number(f64::MAX.to_bits())), Ok(num(f64::MAX)));
}

#[test]
fn function_value_is_refused() {
    let mut heap = ScriptHeap::new();
    let f = heap.allocate(HeapObject::Function);
    assert_eq!(from_engine(&heap, &ScriptValue::Ref(f)), Err(BridgeError::Callable));
}

#[test]
fn function_inside_object_is_refused() {
    let mut heap = ScriptHeap::new();
    let f = heap.allocate(HeapObject::Function);
    let o = heap.allocate(HeapObject::Object(vec![
        Property { key: s("ok"), value: ScriptValue::Null },
        Property { key: s("run"), value: ScriptValue::Ref(f) },
    ]));
    assert_eq!(from_engine(&heap, &ScriptValue::Ref(o)), Err(BridgeError::Callable));
}

#[test]
fn symbol_and_handle_are_refused() {
    let mut heap = ScriptHeap::new();
    let h = heap.allocate(HeapObject::Opaque);
    assert_eq!(from_engine(&heap, &ScriptValue::Symbol), Err(BridgeError::Symbol));
    assert_eq!(from_engine(&heap, &ScriptValue::Ref(h)), Err(BridgeError::Opaque));
    assert_eq!(from_engine(&heap, &ScriptValue::Ref(7)), Err(BridgeError::Dangling));
}

#[test]
fn self_referential_array_is_a_cycle() {
    let mut heap = ScriptHeap::new();
    heap.allocate(HeapObject::Array(vec![ScriptValue::Bool(true), ScriptValue::Ref(0)]));
    assert_eq!(from_engine(&heap, &ScriptValue::Ref(0)), Err(BridgeError::Cycle));
}

#[test]
fn indirect_cycle_is_a_cycle() {
    let mut heap = ScriptHeap::new();
    heap.allocate(HeapObject::Object(vec![Property { key: s("next"), value: ScriptValue::Ref(1) }]));
    heap.allocate(HeapObject::Array(vec![ScriptValue::Ref(0)]));
    assert_eq!(from_engine(&heap, &ScriptValue::Ref(1)), Err(BridgeError::Cycle));
}

#[test]
fn shared_object_is_no_cycle() {
    let mut heap = ScriptHeap::new();
    let leaf = heap.allocate(HeapObject::Array(vec![]));
    let top = heap.allocate(HeapObject::Array(vec![ScriptValue::Ref(leaf), ScriptValue::Ref(leaf)]));
    assert_eq!(
        from_engine(&heap, &ScriptValue::Ref(top)),
        Ok(JsonValue::Array(vec![JsonValue::Array(vec![]), JsonValue::Array(vec![])]))
    );
}
