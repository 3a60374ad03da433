//! Other agents as tools: how they are advertised, and when they are refused.
use vstd::prelude::*;

use super::spend::AnswerMeta;
use crate::json::{field, no_fields, Data, Json, Members};
use crate::schema::{
    arguments, describe_text, object_schema, one, text_argument, Schema, ToolSchema,
};
use crate::text::{cat, cat3, owned};

verus! {

/// An agent granted as a tool: the tool's name and what the agent is for.
#[derive(Debug)]
pub struct AgentToolSpec {
    pub name: String,
    pub description: String,
}

/// How an agent is advertised as a tool.
pub open spec fn agent_tool_spec(name: Seq<char>, description: Seq<char>) -> Schema {
    Schema {
        name,
        description: "Delegate a sub-question to the `"@ + name + "` subagent. "@ + description,
        parameters: arguments(
            no_fields().push(
                field("question"@, text_argument("The question for the subagent."@)),
            ).push(
                field(
                    "trace_id"@,
                    text_argument(
                        "Resume/fork the subagent's prior trace (from an earlier Answer)."@,
                    ),
                ),
            ),
            seq!["question"@],
        ),
    }
}

/// How an agent is advertised as a tool.
pub fn agent_tool_schema(name: &str, description: &str) -> (r: ToolSchema)
    ensures
        r@ == agent_tool_spec(name@, description@),
{
    let mut text = cat3("Delegate a sub-question to the `", name, "` subagent. ");
    text.append(description);
    ToolSchema::new(
        name,
        text.as_str(),
        object_schema(
            Members::new().with(
                "question",
                describe_text("The question for the subagent."),
            ).with(
                "trace_id",
                describe_text("Resume/fork the subagent's prior trace (from an earlier Answer)."),
            ),
            &one("question"),
        ),
    )
}

impl AgentToolSpec {
    pub fn new(name: &str, description: &str) -> (r: AgentToolSpec)
        ensures
            r.name@ == name@,
            r.description@ == description@,
    {
        AgentToolSpec { name: owned(name), description: owned(description) }
    }

    pub fn schema(&self) -> (r: ToolSchema)
        ensures
            r@ == agent_tool_spec(self.name@, self.description@),
    {
        agent_tool_schema(self.name.as_str(), self.description.as_str())
    }
}

/// What a call to `child` is answered where no deeper delegation is allowed.
pub fn depth_exceeded(child: &str) -> (r: String)
    ensures
        r@ == "agent_depth_exceeded: refusing to call `"@ + child@
            + "` (max_agent_depth reached)"@,
{
    cat3("agent_depth_exceeded: refusing to call `", child, "` (max_agent_depth reached)")
}

/// An agent that can be called during one ask, with what its answers to that
/// ask spent.
#[derive(Debug)]
pub struct AgentTool {
    pub name: String,
    pub description: String,
    pub spend: Vec<AnswerMeta>,
}

/// What a call is answered where it fails.
pub open spec fn error_json(e: Seq<char>) -> Json {
    Json::Object(no_fields().push(field("error"@, Json::Str(e))))
}

impl AgentTool {
    /// An agent that has not been called yet.
    pub fn new(spec: &AgentToolSpec) -> (r: AgentTool)
        ensures
            r.name@ == spec.name@,
            r.description@ == spec.description@,
            r.spend@ == Seq::<AnswerMeta>::empty(),
    {
        AgentTool {
            name: spec.name.clone(),
            description: spec.description.clone(),
            spend: Vec::new(),
        }
    }

    pub fn schema(&self) -> (r: ToolSchema)
        ensures
            r@ == agent_tool_spec(self.name@, self.description@),
    {
        agent_tool_schema(self.name.as_str(), self.description.as_str())
    }

    /// A call needs no permission: granting the agent gave it.
    pub fn requires_permission(&self) -> (r: bool)
        ensures
            !r,
    {
        false
    }

    /// What a call with arguments that are no question is answered.
    pub fn invalid_ask(e: &str) -> (r: Data)
        ensures
            r@ == error_json("invalid ask for agent tool: "@ + e@),
    {
        let m = cat("invalid ask for agent tool: ", e);
        Members::new().with("error", Data::string(m.as_str())).object()
    }

    /// What a call is answered, once the agent has: its answer, whatever it says,
    /// and what it spent is kept; or why there is none, and nothing is kept.
    pub fn invoke(&mut self, reply: Result<(AnswerMeta, Data), String>) -> (r: Result<Data, Data>)
        ensures
            final(self).name == old(self).name,
            final(self).description == old(self).description,
            match reply {
                Ok((meta, answer)) => r == Ok::<Data, Data>(answer) && final(self).spend@
                    == old(self).spend@.push(meta),
                Err(e) => (r matches Err(v) && v@ == error_json(e@)) && final(self).spend@
                    == old(self).spend@,
            },
    {
        match reply {
            Ok((meta, answer)) => {
                self.spend.push(meta);
                Ok(answer)
            },
            Err(e) => Err(Members::new().with("error", Data::string(e.as_str())).object()),
        }
    }
}

} // verus!
