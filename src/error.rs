use vstd::prelude::*;
use vstd::string::StringExecFns;

use crate::bridge::BridgeError;

verus! {

/// Everything that can go wrong, one case per kind, each with its cause.
#[derive(Debug, PartialEq)]
pub enum Error {
    /// The configuration is malformed or unreadable (fatal at startup).
    Config(String),
    /// The listen address cannot be parsed (fatal at startup).
    AddrParse(String),
    /// The HTTP transport itself failed.
    Transport(String),
    /// The payload could not be bound into a fresh script context.
    Injection(String),
    /// The script source is not valid syntax.
    ScriptCompile(String),
    /// The script raised an error while it ran.
    ScriptRuntime(String),
    /// The script's result has no JSON representation.
    Serialization(BridgeError),
}

/// The words that describe a conversion failure.
pub open spec fn bridge_error_text(e: BridgeError) -> Seq<char> {
    match e {
        BridgeError::Callable => "a function value has no JSON representation"@,
        BridgeError::Symbol => "a symbol has no JSON representation"@,
        BridgeError::Opaque => "an engine handle has no JSON representation"@,
        BridgeError::Cycle => "a cyclic structure has no JSON representation"@,
        BridgeError::Dangling => "a reference names no object"@,
    }
}

impl Error {
    /// The human-readable description of the error.
    pub open spec fn text(&self) -> Seq<char> {
        match self {
            Error::Config(m) => m@,
            Error::AddrParse(m) => m@,
            Error::Transport(m) => m@,
            Error::Injection(m) => m@,
            Error::ScriptCompile(m) => m@,
            Error::ScriptRuntime(m) => m@,
            Error::Serialization(e) => bridge_error_text(*e),
        }
    }

    /// Whether the error ends the process: only startup failures do.
    pub open spec fn spec_is_fatal(&self) -> bool {
        self is Config || self is AddrParse
    }

    /// Whether the error ends the process: only startup failures do.
    pub fn is_fatal(&self) -> (r: bool)
        ensures
            r == self.spec_is_fatal(),
    {
        match self {
            Error::Config(_) => true,
            Error::AddrParse(_) => true,
            _ => false,
        }
    }

    /// The human-readable description of the error.
    pub fn message(&self) -> (r: String)
        ensures
            r@ == self.text(),
    {
        match self {
            Error::Config(m) => m.clone(),
            Error::AddrParse(m) => m.clone(),
            Error::Transport(m) => m.clone(),
            Error::Injection(m) => m.clone(),
            Error::ScriptCompile(m) => m.clone(),
            Error::ScriptRuntime(m) => m.clone(),
            Error::Serialization(e) => match e {
                BridgeError::Callable => {
                    let r = String::from_str("a function value has no JSON representation");
                    proof {
                        reveal_strlit("a function value has no JSON representation");
                    }
                    r
                },
                BridgeError::Symbol => {
                    let r = String::from_str("a symbol has no JSON representation");
                    proof {
                        reveal_strlit("a symbol has no JSON representation");
                    }
                    r
                },
                BridgeError::Opaque => {
                    let r = String::from_str("an engine handle has no JSON representation");
                    proof {
                        reveal_strlit("an engine handle has no JSON representation");
                    }
                    r
                },
                BridgeError::Cycle => {
                    let r = String::from_str("a cyclic structure has no JSON representation");
                    proof {
                        reveal_strlit("a cyclic structure has no JSON representation");
                    }
                    r
                },
                BridgeError::Dangling => {
                    let r = String::from_str("a reference names no object");
                    proof {
                        reveal_strlit("a reference names no object");
                    }
                    r
                },
            },
        }
    }
}

} // verus!
