use vstd::prelude::*;
use vstd::string::StringExecFns;

use crate::bridge::{BridgeError, decode, encode, from_engine, lemma_round_trip, read_as, representable, to_engine};
use crate::engine::{Obj, ScriptHeap, ScriptValue, Val};
use crate::error::Error;
use crate::json::{Json, JsonValue};

verus! {

/// The name under which every script sees its payload.
pub open spec fn payload_name() -> Seq<char> {
    "body"@
}

/// The status of a successful evaluation.
pub const STATUS_OK: u16 = 200;

/// The status of a failed evaluation.
pub const STATUS_FAILED: u16 = 500;

/// The context of one evaluation as the contracts see it: the objects of its
/// heap and its global bindings, by name.
pub struct ContextModel {
    pub heap: Seq<Obj>,
    pub globals: Seq<(Seq<char>, Val)>,
}

/// One global binding of a script context.
pub struct Global {
    pub name: String,
    pub value: ScriptValue,
}

/// The state that one evaluation installs into a fresh engine: the payload's
/// objects and the globals that refer to them.
pub struct ScriptContext {
    pub heap: ScriptHeap,
    pub globals: Vec<Global>,
}

impl View for ScriptContext {
    type V = ContextModel;

    open spec fn view(&self) -> ContextModel {
        ContextModel {
            heap: self.heap@,
            globals: self.globals@.map_values(|g: Global| (g.name@, g.value@)),
        }
    }
}

/// The context in which the script for `payload` runs: built from nothing
/// but the payload, which it binds under the reserved name.
pub open spec fn prepared(payload: Json) -> ContextModel {
    let (heap, v) = encode(Seq::empty(), payload);
    ContextModel { heap, globals: seq![(payload_name(), v)] }
}

/// Creates the context of one evaluation: a new, empty context into which the
/// payload is moved and bound as the global `body`.
pub fn prepare(payload: &JsonValue) -> (r: ScriptContext)
    ensures
        r@ == prepared(payload.model()),
{
    let mut heap = ScriptHeap::new();
    let value = to_engine(&mut heap, payload);
    let name = String::from_str("body");
    proof {
        reveal_strlit("body");
    }
    let mut globals: Vec<Global> = Vec::new();
    globals.push(Global { name, value });
    let r = ScriptContext { heap, globals };
    proof {
        assert(r@.globals =~= prepared(payload.model()).globals);
    }
    r
}

/// Evaluations do not see each other: the context of an evaluation is built
/// from its own payload and nothing else, whatever an earlier evaluation did to
/// its own context. It binds exactly one global, `body`, and that global reads
/// back as the payload.
pub proof fn lemma_isolation(payload: Json)
    requires
        representable(payload),
        encode(Seq::empty(), payload).0.len() <= usize::MAX + 1,
    ensures
        prepared(payload).globals.len() == 1,
        prepared(payload).globals[0].0 == payload_name(),
        prepared(payload).heap == encode(Seq::empty(), payload).0,
        decode(prepared(payload).heap, prepared(payload).globals[0].1, Seq::empty()) == Ok::<
            Json,
            BridgeError,
        >(payload),
{
    lemma_round_trip(Seq::empty(), payload);
}

/// What the engine reported for one evaluation.
pub enum Outcome {
    /// The engine refused to bind the payload.
    BindRefused,
    /// The source did not compile; the engine's message.
    CompileFailed(String),
    /// The script raised an error; the engine's message.
    Threw(String),
    /// The script finished; the value it produced, in the heap that holds it.
    Completed(ScriptHeap, ScriptValue),
}

/// What the text of an injection failure says.
pub open spec fn injection_text() -> Seq<char> {
    "body could not be passed to js runtime"@
}

/// Turns the engine's report into the result of the evaluation. A finished
/// script succeeds when its value reads back as JSON, and fails with a
/// serialization error otherwise.
pub fn conclude(outcome: Outcome) -> (r: Result<JsonValue, Error>)
    ensures
        match outcome {
            Outcome::BindRefused => r matches Err(Error::Injection(m)) && m@ == injection_text(),
            Outcome::CompileFailed(m) => r matches Err(Error::ScriptCompile(n)) && n@ == m@,
            Outcome::Threw(m) => r matches Err(Error::ScriptRuntime(n)) && n@ == m@,
            Outcome::Completed(heap, v) => match decode(heap@, v@, Seq::empty()) {
                Ok(j) => r matches Ok(k) && k.model() == j,
                Err(e) => r matches Err(Error::Serialization(f)) && f == e,
            },
        },
{
    match outcome {
        Outcome::BindRefused => {
            let m = String::from_str("body could not be passed to js runtime");
            proof {
                reveal_strlit("body could not be passed to js runtime");
            }
            Err(Error::Injection(m))
        },
        Outcome::CompileFailed(m) => Err(Error::ScriptCompile(m)),
        Outcome::Threw(m) => Err(Error::ScriptRuntime(m)),
        Outcome::Completed(heap, v) => {
            let r = from_engine(&heap, &v);
            proof {
                assert(read_as(r, decode(heap@, v@, Seq::empty())));
            }
            match r {
                Ok(j) => Ok(j),
                Err(e) => Err(Error::Serialization(e)),
            }
        },
    }
}

/// The words in front of every failure report.
pub open spec fn failure_prefix() -> Seq<char> {
    "Something went wrong: "@
}

/// The HTTP status and body that report the result of an evaluation: `200`
/// with an empty body on success, `500` with the error's description on any
/// failure.
pub fn respond(result: &Result<JsonValue, Error>) -> (r: (u16, String))
    ensures
        match result {
            Ok(_) => r.0 == STATUS_OK && r.1@.len() == 0,
            Err(e) => r.0 == STATUS_FAILED && r.1@ == failure_prefix() + e.text(),
        },
{
    match result {
        Ok(_) => (STATUS_OK, String::new()),
        Err(e) => {
            let prefix = String::from_str("Something went wrong: ");
            proof {
                reveal_strlit("Something went wrong: ");
            }
            let m = e.message();
            let body = prefix.concat(m.as_str());
            (STATUS_FAILED, body)
        },
    }
}

} // verus!
