//! Recorded sessions: the durable log of what was said and done.
use vstd::prelude::*;

use crate::text::{owned, same};

verus! {

/// A JSON value of the `serde_json` crate. Logs carry such values through.
#[verifier::external_type_specification]
#[verifier::external_body]
pub struct ExJsonValue(serde_json::Value);

/// The compact JSON text of a value.
pub uninterp spec fn payload_text(value: serde_json::Value) -> Seq<char>;

/// The content of a value that is a JSON string.
pub uninterp spec fn payload_str(value: serde_json::Value) -> Option<Seq<char>>;

/// The member of a value under a key, where the value is a JSON object with it.
pub uninterp spec fn payload_member(
    value: serde_json::Value,
    key: Seq<char>,
) -> Option<serde_json::Value>;

/// `<serde_json::Value as Display>::fmt`: the compact JSON text is determined
/// by the value.
#[verifier::external_body]
pub(crate) fn json_text(value: &serde_json::Value) -> (r: String)
    ensures
        r@ == payload_text(*value),
{
    value.to_string()
}

/// `serde_json::Value::as_str`: the content, where the value is a string, is
/// determined by the value.
#[verifier::external_body]
pub(crate) fn json_str(value: &serde_json::Value) -> (r: Option<&str>)
    ensures
        crate::json::opt_str_view(r) == payload_str(*value),
{
    value.as_str()
}

/// `serde_json::Value::get` by a name, copied: the member under it, where the
/// value is an object that has one, is determined by the value and the name.
#[verifier::external_body]
pub(crate) fn json_member(value: &serde_json::Value, key: &str) -> (r: Option<serde_json::Value>)
    ensures
        r == payload_member(*value, key@),
{
    value.get(key).cloned()
}

/// The identity of a stored trace.
#[derive(Debug)]
pub struct TraceId {
    pub id: String,
}

impl View for TraceId {
    type V = Seq<char>;

    open spec fn view(&self) -> Seq<char> {
        self.id@
    }
}

impl TraceId {
    pub fn new(id: &str) -> (r: TraceId)
        ensures
            r@ == id@,
    {
        TraceId { id: owned(id) }
    }

    pub fn as_str(&self) -> (r: &str)
        ensures
            r@ == self@,
    {
        self.id.as_str()
    }

    pub fn same(&self, other: &TraceId) -> (r: bool)
        ensures
            r == (self@ == other@),
    {
        same(self.id.as_str(), other.id.as_str())
    }

    /// The same identity.
    pub fn copy(&self) -> (r: TraceId)
        ensures
            r == *self,
    {
        TraceId { id: self.id.clone() }
    }
}

/// The view of an optional trace identity.
pub open spec fn id_view(o: Option<TraceId>) -> Option<Seq<char>> {
    match o {
        Some(t) => Some(t@),
        None => None,
    }
}

/// A call that a model asks for.
#[derive(Debug)]
pub struct ToolCall {
    pub name: String,
    pub args: serde_json::Value,
}

/// The tokens that a model call took in and gave out.
#[derive(Clone, Copy, Debug, PartialEq, Eq, Structural)]
pub struct Usage {
    pub input_tokens: u64,
    pub output_tokens: u64,
}

/// How an operation ended.
#[derive(Debug)]
pub enum Outcome {
    Success,
    Error(serde_json::Value),
    Cancelled,
    Other,
}

/// When an operation ran, and for a model call the model tier, what it used
/// and what that cost in millionths of a dollar.
#[derive(Debug)]
pub struct OpMeta {
    pub started_at: u64,
    pub ended_at: u64,
    pub model: Option<String>,
    pub usage: Option<Usage>,
    pub cost_micro_usd: u64,
}

/// One thing to do on a list.
#[derive(Debug)]
pub struct TodoItem {
    pub text: String,
    pub done: bool,
}

/// One record of the log.
#[derive(Debug)]
pub enum Record {
    UserMessage { text: String },
    ModelOutput { op: u64, text: String, tool_calls: Vec<ToolCall> },
    ContextSummary { text: String },
    /// A tool's result; where it is the answer of another agent, also what
    /// that agent spent.
    ToolResult { op: u64, name: String, result: serde_json::Value, answer_cost: Option<u64> },
    OpEnded { op: u64, outcome: Outcome, meta: OpMeta },
    SkillActivated { id: String },
    Plan { text: String },
    TodoList { items: Vec<TodoItem> },
    Other,
}

/// One entry of the log.
#[derive(Debug)]
pub struct LogEntry {
    pub seq: u64,
    pub record: Record,
}

/// A recorded session.
#[derive(Debug)]
pub struct Trace {
    pub question: Option<String>,
    pub status: Option<String>,
    pub log: Vec<LogEntry>,
}

/// The name of the tool whose result the last matching entry below `n`, but
/// not below `from`, records for operation `op`.
pub open spec fn tool_name_below(log: Seq<LogEntry>, from: int, n: int, op: u64) -> Option<Seq<char>>
    decreases n,
{
    if n <= from || n <= 0 {
        None
    } else {
        match log[n - 1].record {
            Record::ToolResult { op: o, name, .. } => if o == op {
                Some(name@)
            } else {
                tool_name_below(log, from, n - 1, op)
            },
            _ => tool_name_below(log, from, n - 1, op),
        }
    }
}

/// The name by which an operation that no tool result names is shown.
pub open spec fn unknown_tool() -> Seq<char> {
    "<unknown>"@
}

/// The name of the tool that operation `op` ran, by the entries from `from` on.
pub open spec fn tool_name(log: Seq<LogEntry>, from: int, op: u64) -> Seq<char> {
    match tool_name_below(log, from, log.len() as int, op) {
        Some(n) => n,
        None => unknown_tool(),
    }
}

/// The name of the tool that operation `op` ran, by the entries from `from` on.
pub fn find_tool_name(log: &Vec<LogEntry>, from: usize, op: u64) -> (r: String)
    requires
        from <= log@.len(),
    ensures
        r@ == tool_name(log@, from as int, op),
{
    let mut n: usize = log.len();
    while n > from
        invariant
            from <= n <= log@.len(),
            tool_name_below(log@, from as int, log@.len() as int, op) == tool_name_below(
                log@,
                from as int,
                n as int,
                op,
            ),
        decreases n,
    {
        if let Record::ToolResult { op: o, name, .. } = &log[n - 1].record {
            if *o == op {
                return name.clone();
            }
        }
        n = n - 1;
    }
    owned("<unknown>")
}

/// An operation is named by the last tool result from `from` on that belongs to
/// it; one without such a result has no name of its own.
pub proof fn law_operations_are_named_by_their_last_result(
    log: Seq<LogEntry>,
    from: int,
    op: u64,
    i: int,
)
    requires
        0 <= from,
        forall|j: int|
            i < j < log.len() && from <= j ==> !((#[trigger] log[j]).record matches
                Record::ToolResult { op: o, .. } && o == op),
    ensures
        from <= i < log.len() ==> (log[i].record matches Record::ToolResult { op: o, name, .. }
            ==> (o == op ==> tool_name(log, from, op) == name@)),
        i < from ==> tool_name(log, from, op) == "<unknown>"@,
{
    lemma_tool_name_below(log, from, op, i, log.len() as int);
}

proof fn lemma_tool_name_below(log: Seq<LogEntry>, from: int, op: u64, i: int, n: int)
    requires
        0 <= from,
        n <= log.len(),
        forall|j: int|
            i < j < n && from <= j ==> !((#[trigger] log[j]).record matches Record::ToolResult {
                op: o,
                ..
            } && o == op),
    ensures
        from <= i < n ==> (log[i].record matches Record::ToolResult { op: o, name, .. } ==> (o == op
            ==> tool_name_below(log, from, n, op) == Some(name@))),
        i < from ==> tool_name_below(log, from, n, op) is None,
    decreases n,
{
    if n > from && n > 0 {
        if n - 1 > i {
            assert(!(log[n - 1].record matches Record::ToolResult { op: o, .. } && o == op));
            lemma_tool_name_below(log, from, op, i, n - 1);
        }
    }
}

} // verus!
