//! Agents that are called from Python, and Python functions that are called by
//! agents: what is given back, and what happens next.
use vstd::prelude::*;

use crate::agent::scratch::{error_json, error_value};
use crate::json::{Data, Json};
use crate::schema::{Schema, ToolSchema};
use crate::text::{cat, cat3};

verus! {

/// The JSON value that a text denotes, or the words of the error.
pub uninterp spec fn json_read(text: Seq<char>) -> Result<serde_json::Value, Seq<char>>;

/// `serde_json::from_str`: the value that a text denotes, or the words of the
/// error, is determined by the text.
#[verifier::external_body]
pub(crate) fn read_json(text: &str) -> (r: Result<serde_json::Value, String>)
    ensures
        match r {
            Ok(v) => json_read(text@) == Ok::<serde_json::Value, Seq<char>>(v),
            Err(e) => json_read(text@) == Err::<serde_json::Value, Seq<char>>(e@),
        },
{
    match serde_json::from_str::<serde_json::Value>(text) {
        Ok(v) => Ok(v),
        Err(e) => Err(e.to_string()),
    }
}

/// Reads the JSON text of `what` that a Python program hands over: its
/// configuration, the schema of a tool, or feedback.
pub fn parse(text: &str, what: &str) -> (r: Result<serde_json::Value, String>)
    ensures
        match json_read(text@) {
            Ok(v) => r == Ok::<serde_json::Value, String>(v),
            Err(e) => r matches Err(m) && m@ == "invalid "@ + what@ + " JSON: "@ + e,
        },
{
    read_as(read_json(text), what)
}

/// What reading the JSON text of `what` came to.
pub fn read_as(read: Result<serde_json::Value, String>, what: &str) -> (r: Result<
    serde_json::Value,
    String,
>)
    ensures
        match read {
            Ok(v) => r == Ok::<serde_json::Value, String>(v),
            Err(e) => r matches Err(m) && m@ == "invalid "@ + what@ + " JSON: "@ + e@,
        },
{
    match read {
        Ok(v) => Ok(v),
        Err(e) => {
            let mut s = cat3("invalid ", what, " JSON: ");
            s.append(e.as_str());
            Err(s)
        },
    }
}

// ----- functions as tools -----
/// A Python function as a tool.
#[derive(Debug)]
pub struct PyCapability {
    pub name: String,
    pub description: String,
    pub schema: Data,
    pub requires_permission: bool,
    pub background: bool,
}

/// What came of calling a Python function.
#[derive(Debug)]
pub enum PyCall {
    /// It gave back a value, as JSON text.
    Returned(String),
    /// It raised.
    Raised(String),
    /// The thread that it was called on did not come to an end.
    Lost(String),
}

/// What a call of the tool gives back.
pub open spec fn call_result(name: Seq<char>, call: PyCall) -> Result<serde_json::Value, Json> {
    match call {
        PyCall::Returned(text) => match json_read(text@) {
            Ok(v) => Ok(v),
            Err(e) => Err(error_json("tool returned non-JSON value: "@ + e)),
        },
        PyCall::Raised(message) => Err(error_json(message@)),
        PyCall::Lost(e) => Err(error_json("tool `"@ + name + "` panicked: "@ + e@)),
    }
}

/// What a call of the tool gives back, once the text that the function gave back
/// has been read.
pub fn read_result(read: Result<serde_json::Value, String>) -> (r: Result<serde_json::Value, Data>)
    ensures
        match read {
            Ok(v) => r == Ok::<serde_json::Value, Data>(v),
            Err(e) => r matches Err(d) && d@ == error_json("tool returned non-JSON value: "@ + e@),
        },
{
    match read {
        Ok(v) => Ok(v),
        Err(e) => Err(error_value(cat("tool returned non-JSON value: ", e.as_str()).as_str())),
    }
}

impl PyCapability {
    /// How the tool is advertised.
    pub fn schema(&self) -> (r: ToolSchema)
        ensures
            r@ == (Schema {
                name: self.name@,
                description: self.description@,
                parameters: self.schema@,
            }),
    {
        ToolSchema::new(self.name.as_str(), self.description.as_str(), self.schema.copy())
    }

    /// What a call of the tool gives back: an exception is an error of the tool,
    /// and so is a value that is no JSON.
    pub fn invoke(&self, call: PyCall) -> (r: Result<serde_json::Value, Data>)
        ensures
            match call_result(self.name@, call) {
                Ok(v) => r == Ok::<serde_json::Value, Data>(v),
                Err(e) => r matches Err(d) && d@ == e,
            },
    {
        match call {
            PyCall::Returned(text) => read_result(read_json(text.as_str())),
            PyCall::Raised(message) => Err(error_value(message.as_str())),
            PyCall::Lost(e) => {
                let mut said = cat3("tool `", self.name.as_str(), "` panicked: ");
                said.append(e.as_str());
                Err(error_value(said.as_str()))
            },
        }
    }
}

// ----- the events of an ask -----
/// What a short wait for the next event came to.
#[derive(Clone, Copy, Debug, PartialEq, Eq, Structural)]
pub enum Waited {
    /// An event came.
    Event,
    /// There will be no more.
    Closed,
    /// Nothing came; whether Python was interrupted meanwhile.
    Nothing { interrupted: bool },
}

/// What is done after a wait.
#[derive(Clone, Copy, Debug, PartialEq, Eq, Structural)]
pub enum Pull {
    /// Hand the event over.
    Give,
    /// Wait for the ask itself, and raise what it failed with.
    Join,
    /// Wait once more.
    Again,
    /// Stop the ask and raise the interruption.
    Abort,
}

/// What is done after a wait: events are handed over as they come, and an
/// interruption stops the ask at once.
pub fn next_event(waited: Waited) -> (r: Pull)
    ensures
        r == match waited {
            Waited::Event => Pull::Give,
            Waited::Closed => Pull::Join,
            Waited::Nothing { interrupted } => if interrupted {
                Pull::Abort
            } else {
                Pull::Again
            },
        },
{
    match waited {
        Waited::Event => Pull::Give,
        Waited::Closed => Pull::Join,
        Waited::Nothing { interrupted } => if interrupted {
            Pull::Abort
        } else {
            Pull::Again
        },
    }
}

} // verus!
