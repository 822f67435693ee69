//! A webhook receiver's script host: each evaluation gets a fresh script
//! context holding the JSON payload under `body`, and the value the script
//! produces is read back into JSON, with functions, engine handles and cycles
//! reported as conversion failures.
use vstd::prelude::*;

pub mod bridge;
pub mod config;
pub mod engine;
pub mod error;
pub mod host;
pub mod json;

pub use bridge::{from_engine, to_engine, BridgeError};
pub use config::Config;
pub use engine::{HeapObject, Property, ScriptHeap, ScriptValue};
pub use error::Error;
pub use host::{conclude, prepare, respond, Global, Outcome, ScriptContext};
pub use json::{JsonValue, Member};

verus! {

} // verus!
