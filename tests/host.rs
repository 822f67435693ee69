use whinator::{
    conclude, prepare, respond, BridgeError, Config, Error, Global, HeapObject, JsonValue, Member, Outcome,
    ScriptHeap, ScriptValue,
};

fn s(t: &str) -> String {
    t.to_string()
}

/// Reads a property of an object value, as a script's `a.b` does.
fn property(heap: &ScriptHeap, v: &ScriptValue, key: &str) -> ScriptValue {
    if let ScriptValue::Ref(i) = v {
        if let HeapObject::Object(props) = &heap.objects[*i] {
            for p in props {
                if p.key == key {
                    return match &p.value {
                        ScriptValue::Str(t) => ScriptValue::Str(t.clone()),
                        ScriptValue::Ref(j) => ScriptValue::Ref(*j),
                        ScriptValue::Null => ScriptValue::Null,
                        _ => ScriptValue::Undefined,
                    };
                }
            }
        }
    }
    ScriptValue::Undefined
}

fn body_of(globals: &[Global]) -> ScriptValue {
    assert_eq!(globals.len(), 1);
    assert_eq!(globals[0].name, "body");
    match &globals[0].value {
        ScriptValue::Ref(i) => ScriptValue::Ref(*i),
        _ => panic!("payload is an object"),
    }
}

#[test]
fn field_access_reads_the_url() {
    let payload = JsonValue::Object(vec![Member {
        key: s("pull_request"),
        value: JsonValue::Object(vec![Member { key: s("url"), value: JsonValue::Str(s("http://example.com")) }]),
    }]);
    let ctx = prepare(&payload);
    let body = body_of(&ctx.globals);
    let pr = property(&ctx.heap, &body, "pull_request");
    let url = property(&ctx.heap, &pr, "url");
    let r = conclude(Outcome::Completed(ctx.heap, url));
    assert_eq!(r, Ok(JsonValue::Str(s("http://example.com"))));
    assert_eq!(respond(&r), (200, String::new()));
}

#[test]
fn missing_field_is_null() {
    let ctx = prepare(&JsonValue::Object(vec![]));
    let body = body_of(&ctx.globals);
    let missing = property(&ctx.heap, &body, "missing");
    assert_eq!(missing, ScriptValue::Undefined);
    let r = conclude(Outcome::Completed(ctx.heap, missing));
    assert_eq!(r, Ok(JsonValue::Null));
    assert_eq!(respond(&r), (200, String::new()));
}

#[test]
fn contexts_do_not_share_globals() {
    let mut first = prepare(&JsonValue::Bool(true));
    first.globals.push(Global { name: s("x"), value: ScriptValue::Number(1.0f64.to_bits()) });
    first.heap.allocate(HeapObject::Function);
    let second = prepare(&JsonValue::Bool(false));
    assert_eq!(second.globals.len(), 1);
    assert_eq!(second.globals[0].name, "body");
    assert_eq!(second.globals[0].value, ScriptValue::Bool(false));
    assert_eq!(second.heap.len(), 0);
}

#[test]
fn compile_failure_is_reported() {
    let r = conclude(Outcome::CompileFailed(s("SyntaxError: Unexpected token")));
    assert_eq!(r, Err(Error::ScriptCompile(s("SyntaxError: Unexpected token"))));
    assert_eq!(respond(&r), (500, s("Something went wrong: SyntaxError: Unexpected token")));
}

#[test]
fn runtime_failure_is_reported() {
    let r = conclude(Outcome::Threw(s("TypeError: x is undefined")));
    assert_eq!(r, Err(Error::ScriptRuntime(s("TypeError: x is undefined"))));
    assert_eq!(respond(&r).0, 500);
}

#[test]
fn refused_binding_is_an_injection_error() {
    let r = conclude(Outcome::BindRefused);
    assert_eq!(r, Err(Error::Injection(s("body could not be passed to js runtime"))));
    assert_eq!(respond(&r), (500, s("Something went wrong: body could not be passed to js runtime")));
}

#[test]
fn function_result_is_a_serialization_error() {
    let mut heap = ScriptHeap::new();
    let f = heap.allocate(HeapObject::Function);
    let r = conclude(Outcome::Completed(heap, ScriptValue::Ref(f)));
    assert_eq!(r, Err(Error::Serialization(BridgeError::Callable)));
    assert_eq!(respond(&r), (500, s("Something went wrong: a function value has no JSON representation")));
}

#[test]
fn cyclic_result_is_a_serialization_error() {
    let mut heap = ScriptHeap::new();
    heap.allocate(HeapObject::Object(vec![whinator::Property { key: s("me"), value: ScriptValue::Ref(0) }]));
    let r = conclude(Outcome::Completed(heap, ScriptValue::Ref(0)));
    assert_eq!(r, Err(Error::Serialization(BridgeError::Cycle)));
    assert_eq!(respond(&r), (500, s("Something went wrong: a cyclic structure has no JSON representation")));
}

#[test]
fn error_messages_and_fatality() {
    assert_eq!(Error::Config(s("bad file")).message(), "bad file");
    assert!(Error::Config(s("bad file")).is_fatal());
    assert!(Error::AddrParse(s("bad address")).is_fatal());
    assert!(!Error::Transport(s("closed")).is_fatal());
    assert!(!Error::Serialization(BridgeError::Symbol).is_fatal());
    assert_eq!(Error::Serialization(BridgeError::Symbol).message(), "a symbol has no JSON representation");
}

#[test]
fn config_default_listen_address() {
    assert_eq!(Config::default().listen(), "0.0.0.0:3000");
    assert_eq!(Config::default_listen(), "0.0.0.0:3000");
    assert_eq!(Config::new(s("127.0.0.1:8080")).listen(), "127.0.0.1:8080");
}
