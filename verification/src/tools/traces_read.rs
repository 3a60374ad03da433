//! The read-only tools over an agent's stored traces and the feedback on them:
//! summaries and paged transcripts, never raw content.
use vstd::prelude::*;

use super::disk::Disk;
use crate::json::{
    field, items_view, law_the_first_member_of_a_name_counts, lemma_array_view, no_fields,
    opt_str_view, opt_view, Data, Field, Json, Members,
};
use crate::paths::{join_path, path_join, trim_components, unled, untrailed};
use crate::schema::opt_int;
use crate::split::{begins_with, starts_with};
use crate::text::{alnum, cat, chars_of, is_alnum, owned, same, text_range};
use crate::trace::{
    find_tool_name, json_str, json_text, payload_str, payload_text, tool_name, LogEntry, Outcome,
    Record, ToolCall, Trace, TraceId,
};

verus! {

pub const DEFAULT_LIST_LIMIT: u64 = 100;

pub const MAX_LIST_LIMIT: u64 = 1_000;

pub const DEFAULT_TRANSCRIPT_ENTRIES: u64 = 20;

pub const MAX_TRANSCRIPT_ENTRIES: u64 = 200;

pub const DEFAULT_ENTRY_CHARS: u64 = 2_000;

pub const MAX_ENTRY_CHARS: u64 = 20_000;

pub const DEFAULT_FEEDBACK_LIMIT: usize = 100;

/// The path with a leading `~` taken as the home directory, where one is known;
/// separators and `.` components around what follows the `~` are left out.
pub open spec fn expanded(path: Seq<char>, home: Option<Seq<char>>) -> Seq<char> {
    if home is Some && (path == "~"@ || begins_with(path, "~/"@)) {
        path_join(home->0, untrailed(unled(path.skip(1))))
    } else {
        path
    }
}

pub fn expand_tilde(path: &str, home: Option<&str>) -> (r: String)
    ensures
        r@ == expanded(path@, opt_str_view(home)),
{
    match home {
        None => owned(path),
        Some(h) => if same(path, "~") || starts_with(path, "~/") {
            proof {
                reveal_strlit("~");
                reveal_strlit("~/");
            }
            assert(path@.len() >= 1) by {
                if begins_with(path@, "~/"@) {
                    assert(path@.take(2).len() == 2);
                }
            }
            let rest = trim_components(path, 1);
            join_path(h, rest.as_str())
        } else {
            owned(path)
        },
    }
}

/// An agent's home directory, with its traces and feedback below it.
#[derive(Debug)]
pub struct TracesRoot {
    root: String,
}

impl TracesRoot {
    /// The canonical home directory.
    pub closed spec fn dir(&self) -> Seq<char> {
        self.root@
    }

    /// Takes the agent home at `root`, which must lead to a directory. A leading
    /// `~` stands for the home directory.
    pub fn new(disk: &Disk, root: &str, home: Option<&str>) -> (r: Result<TracesRoot, String>)
        ensures
            ({
                let path = expanded(root@, opt_str_view(home));
                match r {
                    Ok(t) => disk.canonical(path) == Some(t.dir()) && disk.is_dir(t.dir()),
                    Err(e) => match disk.canonical(path) {
                        None => e@ == "canonicalizing traces_read root "@ + path,
                        Some(c) => !disk.is_dir(c) && e@
                            == "traces_read root is not a directory: "@ + c,
                    },
                }
            }),
    {
        let path = expand_tilde(root, home);
        match disk.canonicalize(path.as_str()) {
            None => Err(cat("canonicalizing traces_read root ", path.as_str())),
            Some(c) => if disk.dir(c.as_str()) {
                Ok(TracesRoot { root: c })
            } else {
                Err(cat("traces_read root is not a directory: ", c.as_str()))
            },
        }
    }

    /// The directory of the stored traces.
    pub fn store(&self) -> (r: String)
        ensures
            r@ == path_join(self.dir(), "traces"@),
    {
        join_path(self.root.as_str(), "traces")
    }

    /// The directory of the feedback.
    pub fn feedback(&self) -> (r: String)
        ensures
            r@ == path_join(self.dir(), "feedback"@),
    {
        join_path(self.root.as_str(), "feedback")
    }
}

/// The text is one that traces are stored under: letters, digits, hyphens and
/// underscores, at least one.
pub open spec fn safe_id(id: Seq<char>) -> bool {
    id.len() > 0 && forall|i: int|
        0 <= i < id.len() ==> {
            let c = #[trigger] id[i];
            is_alnum(c) || c == '-' || c == '_'
        }
}

/// An identity that can be stored under holds no path separator and no dot, so
/// it cannot lead out of the directory.
pub proof fn law_safe_ids_are_single_names(id: Seq<char>)
    requires
        safe_id(id),
    ensures
        !id.contains('/'),
        !id.contains('.'),
        !id.contains('\\'),
{
}

/// The trace that the arguments name, or why they name none.
pub open spec fn trace_id_of(args: Json) -> Result<Seq<char>, Seq<char>> {
    match args.get_str("trace_id"@) {
        None => Err("requires string `trace_id`"@),
        Some(id) => if safe_id(id) {
            Ok(id)
        } else {
            Err("invalid trace_id: "@ + id)
        },
    }
}

/// The view of a result that is a trace identity or an error text.
pub open spec fn id_result(r: Result<TraceId, String>) -> Result<Seq<char>, Seq<char>> {
    match r {
        Ok(t) => Ok(t@),
        Err(e) => Err(e@),
    }
}

pub fn checked_trace_id(args: &Data) -> (r: Result<TraceId, String>)
    ensures
        id_result(r) == trace_id_of(args@),
{
    let id = match args.get_str("trace_id") {
        Some(s) => s,
        None => {
            return Err(owned("requires string `trace_id`"));
        },
    };
    let v = chars_of(id);
    let mut i: usize = 0;
    let mut good = v.len() > 0;
    while i < v.len()
        invariant
            v@ == id@,
            i <= v@.len(),
            good ==> v@.len() > 0,
            good ==> forall|k: int|
                0 <= k < i ==> (is_alnum(#[trigger] v@[k]) || v@[k] == '-' || v@[k] == '_'),
            !good ==> !safe_id(id@),
        decreases v.len() - i,
    {
        let c = v[i];
        if !(alnum(c) || c == '-' || c == '_') {
            assert(!safe_id(id@)) by {
                assert(id@[i as int] == c);
            }
            good = false;
        }
        i = i + 1;
    }
    if good {
        Ok(TraceId::new(id))
    } else {
        Err(cat("invalid trace_id: ", id))
    }
}

/// The first `limit` characters of a text.
pub open spec fn clipped(s: Seq<char>, limit: int) -> Seq<char> {
    if s.len() <= limit {
        s
    } else {
        s.take(limit)
    }
}

/// The first `limit` characters of a text, and whether there are more.
pub fn truncate_chars(text: &str, limit: usize) -> (r: (String, bool))
    ensures
        r.0@ == clipped(text@, limit as int),
        r.1 == (text@.len() > limit),
{
    let v = chars_of(text);
    if v.len() <= limit {
        return (owned(text), false);
    }
    assert(v@.subrange(0, limit as int) =~= text@.take(limit as int));
    (text_range(&v, 0, limit), true)
}

/// The text that a value is shown as: the content of a string, and else the
/// compact JSON text.
pub open spec fn payload_shown(value: serde_json::Value) -> Seq<char> {
    match payload_str(value) {
        Some(s) => s,
        None => payload_text(value),
    }
}

/// A clipped text, and whether it was clipped.
pub open spec fn excerpt_json(text: Seq<char>, limit: int) -> Json {
    Json::Object(
        no_fields().push(field("excerpt"@, Json::Str(clipped(text, limit)))).push(
            field("truncated"@, Json::Bool(text.len() > limit)),
        ),
    )
}

/// A clipped text, and whether it was clipped.
pub fn text_excerpt(text: &str, limit: usize) -> (r: Data)
    ensures
        r@ == excerpt_json(text@, limit as int),
{
    let (excerpt, truncated) = truncate_chars(text, limit);
    Members::new().with("excerpt", Data::string(excerpt.as_str())).with(
        "truncated",
        Data::boolean(truncated),
    ).object()
}

/// The excerpt of a value.
pub fn value_excerpt(value: &serde_json::Value, limit: usize) -> (r: Data)
    ensures
        r@ == excerpt_json(payload_shown(*value), limit as int),
{
    match json_str(value) {
        Some(s) => text_excerpt(s, limit),
        None => text_excerpt(json_text(value).as_str(), limit),
    }
}

// ----- operations -----
pub open spec fn outcome_label(outcome: Outcome) -> Seq<char> {
    match outcome {
        Outcome::Success => "ok"@,
        Outcome::Error(_) => "error"@,
        Outcome::Cancelled => "cancelled"@,
        Outcome::Other => "other"@,
    }
}

fn label(outcome: &Outcome) -> (r: &'static str)
    ensures
        r@ == outcome_label(*outcome),
{
    match outcome {
        Outcome::Success => "ok",
        Outcome::Error(_) => "error",
        Outcome::Cancelled => "cancelled",
        Outcome::Other => "other",
    }
}

/// How long an operation took; nothing where it ended before it started.
pub open spec fn duration_of(started: u64, ended: u64) -> int {
    if ended >= started {
        ended - started
    } else {
        0
    }
}

pub open spec fn count_json(n: Option<int>) -> Json {
    match n {
        Some(n) => Json::Int(n),
        None => Json::Null,
    }
}

/// The summary of one ended operation.
pub open spec fn op_json(log: Seq<LogEntry>, record: Record) -> Json {
    match record {
        Record::OpEnded { op, outcome, meta } => {
            let took = duration_of(meta.started_at, meta.ended_at);
            let used_in = match meta.usage {
                Some(u) => Some(u.input_tokens as int),
                None => None,
            };
            let used_out = match meta.usage {
                Some(u) => Some(u.output_tokens as int),
                None => None,
            };
            match meta.model {
                Some(selector) => Json::Object(
                    no_fields().push(field("op"@, Json::Int(op as int))).push(
                        field("kind"@, Json::Str("model"@)),
                    ).push(field("name"@, Json::Str(selector@))).push(
                        field("duration_ms"@, Json::Int(took)),
                    ).push(field("tokens_in"@, count_json(used_in))).push(
                        field("tokens_out"@, count_json(used_out)),
                    ).push(field("outcome"@, Json::Str(outcome_label(outcome)))),
                ),
                None => Json::Object(
                    no_fields().push(field("op"@, Json::Int(op as int))).push(
                        field("kind"@, Json::Str("tool"@)),
                    ).push(field("name"@, Json::Str(tool_name(log, 0, op)))).push(
                        field("duration_ms"@, Json::Int(took)),
                    ).push(field("outcome"@, Json::Str(outcome_label(outcome)))),
                ),
            }
        },
        _ => Json::Null,
    }
}

/// The entry records a model call that ended.
pub open spec fn is_model_op(e: LogEntry) -> bool {
    e.record matches Record::OpEnded { meta, .. } && meta.model is Some
}

/// The entry records another operation that ended.
pub open spec fn is_tool_op(e: LogEntry) -> bool {
    e.record matches Record::OpEnded { meta, .. } && meta.model is None
}

/// The entry records an operation that did not succeed.
pub open spec fn is_failed_op(e: LogEntry) -> bool {
    e.record matches Record::OpEnded { outcome, .. } && outcome !is Success
}

/// How many of the first `n` entries satisfy `p`.
pub open spec fn count_in(log: Seq<LogEntry>, n: int, p: spec_fn(LogEntry) -> bool) -> nat
    decreases n,
{
    if n <= 0 {
        0
    } else {
        count_in(log, n - 1, p) + (if p(log[n - 1]) {
            1nat
        } else {
            0
        })
    }
}

/// The summaries of the operations that end in the first `n` entries.
pub open spec fn ops_in(log: Seq<LogEntry>, n: int) -> Seq<Json>
    decreases n,
{
    if n <= 0 {
        Seq::empty()
    } else if log[n - 1].record is OpEnded {
        ops_in(log, n - 1).push(op_json(log, log[n - 1].record))
    } else {
        ops_in(log, n - 1)
    }
}

pub open spec fn optional_text(t: Option<Seq<char>>) -> Json {
    match t {
        Some(s) => Json::Str(s),
        None => Json::Null,
    }
}

fn optional_text_value(t: &Option<String>) -> (r: Data)
    ensures
        r@ == optional_text(opt_view(*t)),
{
    match t {
        Some(s) => Data::string(s.as_str()),
        None => Data::null(),
    }
}

fn count_value(n: Option<u64>) -> (r: Data)
    ensures
        r@ == count_json(opt_int(n)),
{
    match n {
        Some(n) => Data::number(n),
        None => Data::null(),
    }
}

/// The summary of a trace's operations.
pub open spec fn summary_of(trace: &Trace) -> Json {
    let log = trace.log@;
    let n = log.len() as int;
    Json::Object(
        no_fields().push(field("question"@, optional_text(opt_view(trace.question)))).push(
            field("status"@, optional_text(opt_view(trace.status))),
        ).push(field("log_entries"@, Json::Int(n))).push(
            field(
                "model_calls"@,
                Json::Int(count_in(log, n, |e: LogEntry| is_model_op(e)) as int),
            ),
        ).push(
            field(
                "tool_calls"@,
                Json::Int(count_in(log, n, |e: LogEntry| is_tool_op(e)) as int),
            ),
        ).push(
            field("errors"@, Json::Int(count_in(log, n, |e: LogEntry| is_failed_op(e)) as int)),
        ).push(field("ops"@, Json::Array(ops_in(log, n)))),
    )
}

/// Summarises a trace's operations in order, without any content.
pub fn ops_summary(trace: &Trace) -> (r: Data)
    ensures
        r@ == summary_of(trace),
{
    let ghost log = trace.log@;
    let ghost model = |e: LogEntry| is_model_op(e);
    let ghost tool = |e: LogEntry| is_tool_op(e);
    let ghost failed = |e: LogEntry| is_failed_op(e);
    let mut ops: Vec<Data> = Vec::new();
    let mut model_calls: usize = 0;
    let mut tool_calls: usize = 0;
    let mut errors: usize = 0;
    let mut i: usize = 0;
    assert(items_view(ops@) =~= Seq::<Json>::empty());
    while i < trace.log.len()
        invariant
            i <= trace.log@.len(),
            log == trace.log@,
            model == (|e: LogEntry| is_model_op(e)),
            tool == (|e: LogEntry| is_tool_op(e)),
            failed == (|e: LogEntry| is_failed_op(e)),
            model_calls <= i && tool_calls <= i && errors <= i,
            model_calls == count_in(log, i as int, model),
            tool_calls == count_in(log, i as int, tool),
            errors == count_in(log, i as int, failed),
            items_view(ops@) == ops_in(log, i as int),
        decreases trace.log.len() - i,
    {
        let ghost was = ops@;
        if let Record::OpEnded { op, outcome, meta } = &trace.log[i].record {
            let took: u64 = meta.ended_at.saturating_sub(meta.started_at);
            let outcome_text = label(outcome);
            if !matches!(outcome, Outcome::Success) {
                errors = errors + 1;
            }
            let item = match &meta.model {
                Some(selector) => {
                    model_calls = model_calls + 1;
                    let used_in = match &meta.usage {
                        Some(u) => Some(u.input_tokens),
                        None => None,
                    };
                    let used_out = match &meta.usage {
                        Some(u) => Some(u.output_tokens),
                        None => None,
                    };
                    Members::new().with("op", Data::number(*op)).with(
                        "kind",
                        Data::string("model"),
                    ).with("name", Data::string(selector.as_str())).with(
                        "duration_ms",
                        Data::number(took),
                    ).with("tokens_in", count_value(used_in)).with(
                        "tokens_out",
                        count_value(used_out),
                    ).with("outcome", Data::string(outcome_text)).object()
                },
                None => {
                    tool_calls = tool_calls + 1;
                    let name = find_tool_name(&trace.log, 0, *op);
                    Members::new().with("op", Data::number(*op)).with(
                        "kind",
                        Data::string("tool"),
                    ).with("name", Data::string(name.as_str())).with(
                        "duration_ms",
                        Data::number(took),
                    ).with("outcome", Data::string(outcome_text)).object()
                },
            };
            ops.push(item);
            assert(items_view(ops@) =~= items_view(was).push(item@));
        }
        i = i + 1;
    }
    proof {
        lemma_array_view(ops);
    }
    Members::new().with("question", optional_text_value(&trace.question)).with(
        "status",
        optional_text_value(&trace.status),
    ).with("log_entries", Data::number(trace.log.len() as u64)).with(
        "model_calls",
        Data::number(model_calls as u64),
    ).with("tool_calls", Data::number(tool_calls as u64)).with(
        "errors",
        Data::number(errors as u64),
    ).with("ops", Data::Array(ops)).object()
}

/// Every operation that a summary lists is counted once, as a model call or as
/// a tool call.
pub proof fn law_summaries_count_every_operation(log: Seq<LogEntry>, n: int)
    requires
        0 <= n <= log.len(),
    ensures
        ops_in(log, n).len() == count_in(log, n, |e: LogEntry| is_model_op(e)) + count_in(
            log,
            n,
            |e: LogEntry| is_tool_op(e),
        ),
        count_in(log, n, |e: LogEntry| is_failed_op(e)) <= ops_in(log, n).len(),
    decreases n,
{
    if n > 0 {
        law_summaries_count_every_operation(log, n - 1);
    }
}

// ----- transcripts -----
/// The indices, below `n`, of the entries that a transcript shows.
pub open spec fn spoken(log: Seq<LogEntry>, n: int) -> Seq<int>
    decreases n,
{
    if n <= 0 {
        Seq::empty()
    } else if log[n - 1].record is OpEnded {
        spoken(log, n - 1)
    } else {
        spoken(log, n - 1).push(n - 1)
    }
}

pub open spec fn call_json(call: ToolCall, limit: int) -> Json {
    Json::Object(
        no_fields().push(field("name"@, Json::Str(call.name@))).push(
            field("args"@, excerpt_json(payload_shown(call.args), limit)),
        ),
    )
}

/// The fields that show a text: its kind, the clipped text, and whether it was
/// clipped.
pub open spec fn spoken_fields(kind: Seq<char>, text: Seq<char>, limit: int) -> Seq<Field> {
    no_fields().push(field("kind"@, Json::Str(kind))).push(
        field("text"@, Json::Str(clipped(text, limit))),
    ).push(field("text_truncated"@, Json::Bool(text.len() > limit)))
}

/// The fields that show a record.
pub open spec fn record_fields(record: Record, limit: int) -> Seq<Field> {
    match record {
        Record::UserMessage { text } => spoken_fields("user"@, text@, limit),
        Record::ModelOutput { text, tool_calls, .. } => spoken_fields(
            "model"@,
            text@,
            limit,
        ).push(
            field(
                "tool_calls"@,
                Json::Array(tool_calls@.map_values(|c: ToolCall| call_json(c, limit))),
            ),
        ),
        Record::ContextSummary { text } => spoken_fields("context_summary"@, text@, limit),
        Record::ToolResult { name, result, .. } => no_fields().push(
            field("kind"@, Json::Str("tool_result"@)),
        ).push(field("name"@, Json::Str(name@))).push(
            field("result"@, excerpt_json(payload_shown(result), limit)),
        ),
        _ => no_fields().push(field("kind"@, Json::Str("other"@))),
    }
}

/// The transcript entry at `position` for a log entry.
pub open spec fn shown_entry(entry: LogEntry, position: int, limit: int) -> Json {
    Json::Object(
        record_fields(entry.record, limit).push(field("index"@, Json::Int(position))).push(
            field("seq"@, Json::Int(entry.seq as int)),
        ),
    )
}

/// The transcript entries at the positions `start..end`.
pub open spec fn page_entries(log: Seq<LogEntry>, start: int, end: int, limit: int) -> Seq<Json>
    decreases end - start,
{
    if end <= start {
        Seq::empty()
    } else {
        page_entries(log, start, end - 1, limit).push(
            shown_entry(log[spoken(log, log.len() as int)[end - 1]], end - 1, limit),
        )
    }
}

/// The position after the last entry of a page.
pub open spec fn page_end(total: int, start: int, max_entries: int) -> int {
    if start >= total {
        start
    } else if start + max_entries < total {
        start + max_entries
    } else {
        total
    }
}

/// One page of a trace's transcript.
pub open spec fn page_of(trace: &Trace, start: int, max_entries: int, max_chars: int) -> Json {
    let log = trace.log@;
    let total = spoken(log, log.len() as int).len() as int;
    let end = page_end(total, start, max_entries);
    Json::Object(
        no_fields().push(field("question"@, optional_text(opt_view(trace.question)))).push(
            field("status"@, optional_text(opt_view(trace.status))),
        ).push(field("total_entries"@, Json::Int(total))).push(
            field("entries"@, Json::Array(page_entries(log, start, end, max_chars))),
        ).push(
            field(
                "next_start"@,
                if end < total {
                    Json::Int(end)
                } else {
                    Json::Null
                },
            ),
        ),
    )
}

fn spoken_members(kind: &str, text: &str, limit: usize) -> (r: Members)
    ensures
        r@ == spoken_fields(kind@, text@, limit as int),
{
    let (excerpt, truncated) = truncate_chars(text, limit);
    Members::new().with("kind", Data::string(kind)).with(
        "text",
        Data::string(excerpt.as_str()),
    ).with("text_truncated", Data::boolean(truncated))
}

fn record_members(record: &Record, limit: usize) -> (r: Members)
    ensures
        r@ == record_fields(*record, limit as int),
{
    match record {
        Record::UserMessage { text } => spoken_members("user", text.as_str(), limit),
        Record::ModelOutput { text, tool_calls, .. } => {
            let mut calls: Vec<Data> = Vec::new();
            let ghost goal = tool_calls@.map_values(|c: ToolCall| call_json(c, limit as int));
            let mut i: usize = 0;
            assert(items_view(calls@) =~= goal.take(0));
            while i < tool_calls.len()
                invariant
                    i <= tool_calls@.len(),
                    goal == tool_calls@.map_values(|c: ToolCall| call_json(c, limit as int)),
                    items_view(calls@) == goal.take(i as int),
                decreases tool_calls.len() - i,
            {
                let ghost was = calls@;
                let item = Members::new().with(
                    "name",
                    Data::string(tool_calls[i].name.as_str()),
                ).with("args", value_excerpt(&tool_calls[i].args, limit)).object();
                calls.push(item);
                assert(items_view(calls@) =~= items_view(was).push(item@));
                i = i + 1;
                assert(goal.take(i as int) =~= goal.take(i - 1).push(goal[i - 1]));
            }
            assert(goal.take(i as int) =~= goal);
            proof {
                lemma_array_view(calls);
            }
            spoken_members("model", text.as_str(), limit).with("tool_calls", Data::Array(calls))
        },
        Record::ContextSummary { text } => spoken_members("context_summary", text.as_str(), limit),
        Record::ToolResult { name, result, .. } => Members::new().with(
            "kind",
            Data::string("tool_result"),
        ).with("name", Data::string(name.as_str())).with("result", value_excerpt(result, limit)),
        _ => Members::new().with("kind", Data::string("other")),
    }
}

/// The entries that a transcript shows, by their indices.
fn spoken_indices(log: &Vec<LogEntry>) -> (r: Vec<usize>)
    ensures
        crate::sorting::ints(r@) == spoken(log@, log@.len() as int),
        forall|i: int| 0 <= i < r@.len() ==> (#[trigger] r@[i]) < log@.len(),
{
    let mut out: Vec<usize> = Vec::new();
    let mut i: usize = 0;
    assert(crate::sorting::ints(out@) =~= spoken(log@, 0));
    while i < log.len()
        invariant
            i <= log@.len(),
            crate::sorting::ints(out@) == spoken(log@, i as int),
            forall|k: int| 0 <= k < out@.len() ==> (#[trigger] out@[k]) < i,
        decreases log.len() - i,
    {
        if !matches!(&log[i].record, Record::OpEnded { .. }) {
            let ghost was = out@;
            out.push(i);
            assert(crate::sorting::ints(out@) =~= crate::sorting::ints(was).push(i as int));
        }
        i = i + 1;
    }
    out
}

/// One page of a trace's transcript: the entries from position `start` on, at
/// most `max_entries` of them, with texts clipped to `max_chars` characters.
pub fn transcript_page(trace: &Trace, start: usize, max_entries: usize, max_chars: usize) -> (r:
    Data)
    ensures
        r@ == page_of(trace, start as int, max_entries as int, max_chars as int),
{
    let content = spoken_indices(&trace.log);
    let total: usize = content.len();
    let end: usize = if start >= total {
        start
    } else if max_entries < total - start {
        start + max_entries
    } else {
        total
    };
    let ghost log = trace.log@;
    assert(crate::sorting::ints(content@).len() == content@.len());
    assert(end == page_end(total as int, start as int, max_entries as int));
    let mut entries: Vec<Data> = Vec::new();
    let mut position: usize = start;
    assert(items_view(entries@) =~= Seq::<Json>::empty());
    while position < end
        invariant
            log == trace.log@,
            start <= position <= end,
            start < end ==> end <= content@.len(),
            crate::sorting::ints(content@) == spoken(log, log.len() as int),
            forall|k: int| 0 <= k < content@.len() ==> (#[trigger] content@[k]) < log.len(),
            items_view(entries@) == page_entries(
                log,
                start as int,
                position as int,
                max_chars as int,
            ),
        decreases end - position,
    {
        let ghost was = entries@;
        let at: usize = content[position];
        assert(crate::sorting::ints(content@)[position as int] == at);
        let entry = &trace.log[at];
        let item = record_members(&entry.record, max_chars).with(
            "index",
            Data::number(position as u64),
        ).with("seq", Data::number(entry.seq)).object();
        entries.push(item);
        assert(items_view(entries@) =~= items_view(was).push(item@));
        position = position + 1;
    }
    let next = if end < total {
        Data::number(end as u64)
    } else {
        Data::null()
    };
    proof {
        lemma_array_view(entries);
    }
    Members::new().with("question", optional_text_value(&trace.question)).with(
        "status",
        optional_text_value(&trace.status),
    ).with("total_entries", Data::number(total as u64)).with("entries", Data::Array(entries)).with(
        "next_start",
        next,
    ).object()
}

/// Where one page says to go on, the next page goes on: two pages in a row are
/// the page that covers both.
pub proof fn law_pages_follow_each_other(
    log: Seq<LogEntry>,
    start: int,
    middle: int,
    end: int,
    limit: int,
)
    requires
        start <= middle <= end,
    ensures
        page_entries(log, start, middle, limit) + page_entries(log, middle, end, limit)
            == page_entries(log, start, end, limit),
    decreases end - middle,
{
    if middle < end {
        law_pages_follow_each_other(log, start, middle, end - 1, limit);
        let a = page_entries(log, start, middle, limit);
        let b = page_entries(log, middle, end - 1, limit);
        let x = shown_entry(log[spoken(log, log.len() as int)[end - 1]], end - 1, limit);
        assert(a + b.push(x) =~= (a + b).push(x));
    } else {
        assert(page_entries(log, middle, end, limit) =~= Seq::<Json>::empty());
        assert(page_entries(log, start, middle, limit) + Seq::<Json>::empty() =~= page_entries(
            log,
            start,
            end,
            limit,
        ));
    }
}

/// The entries of the page at `start` and of those that follow, each where the
/// page before says to go on.
pub open spec fn walked(
    log: Seq<LogEntry>,
    start: int,
    max_entries: int,
    max_chars: int,
) -> Seq<Json>
    decreases spoken(log, log.len() as int).len() - start,
{
    let total = spoken(log, log.len() as int).len() as int;
    let end = page_end(total, start, max_entries);
    let page = page_entries(log, start, end, max_chars);
    if max_entries > 0 && end < total {
        page + walked(log, end, max_entries, max_chars)
    } else {
        page
    }
}

proof fn lemma_spoken(log: Seq<LogEntry>, n: int)
    requires
        0 <= n <= log.len(),
    ensures
        forall|i: int|
            0 <= i < spoken(log, n).len() ==> 0 <= #[trigger] spoken(log, n)[i] < n && !(
            log[spoken(log, n)[i]].record is OpEnded),
        forall|i: int, j: int|
            0 <= i < j < spoken(log, n).len() ==> spoken(log, n)[i] < spoken(log, n)[j],
        forall|k: int|
            0 <= k < n && !((#[trigger] log[k]).record is OpEnded) ==> spoken(log, n).contains(k),
    decreases n,
{
    if n > 0 {
        lemma_spoken(log, n - 1);
        let less = spoken(log, n - 1);
        let more = spoken(log, n);
        assert forall|k: int|
            0 <= k < n && !((#[trigger] log[k]).record is OpEnded) implies more.contains(k) by {
            if k < n - 1 {
                let i = less.index_of(k);
                assert(more[i] == k);
            } else {
                assert(more[more.len() - 1] == k);
            }
        }
    }
}

proof fn lemma_page_entries(log: Seq<LogEntry>, start: int, end: int, limit: int)
    requires
        start <= end,
    ensures
        page_entries(log, start, end, limit).len() == end - start,
        forall|i: int|
            start <= i < end ==> (#[trigger] page_entries(log, start, end, limit)[i - start])
                == shown_entry(log[spoken(log, log.len() as int)[i]], i, limit),
    decreases end - start,
{
    if start < end {
        lemma_page_entries(log, start, end - 1, limit);
    }
}

proof fn lemma_walked(log: Seq<LogEntry>, start: int, max_entries: int, max_chars: int)
    requires
        max_entries > 0,
        0 <= start <= spoken(log, log.len() as int).len(),
    ensures
        walked(log, start, max_entries, max_chars) == page_entries(
            log,
            start,
            spoken(log, log.len() as int).len() as int,
            max_chars,
        ),
    decreases spoken(log, log.len() as int).len() - start,
{
    let total = spoken(log, log.len() as int).len() as int;
    let end = page_end(total, start, max_entries);
    if end < total {
        lemma_walked(log, end, max_entries, max_chars);
        law_pages_follow_each_other(log, start, end, total, max_chars);
    }
}

/// Read page by page, a transcript shows every entry of the log that is no end
/// of an operation, each once and in order, with the positions 0, 1, 2 and so
/// on.
pub proof fn law_pages_show_everything_once(log: Seq<LogEntry>, max_entries: int, max_chars: int)
    requires
        max_entries > 0,
    ensures
        ({
            let shown = spoken(log, log.len() as int);
            let all = walked(log, 0, max_entries, max_chars);
            &&& all.len() == shown.len()
            &&& forall|i: int|
                0 <= i < all.len() ==> (#[trigger] all[i]) == shown_entry(
                    log[shown[i]],
                    i,
                    max_chars,
                )
            &&& forall|i: int, j: int| 0 <= i < j < shown.len() ==> shown[i] < shown[j]
            &&& forall|k: int|
                0 <= k < log.len() ==> (!((#[trigger] log[k]).record is OpEnded)
                    <==> shown.contains(k))
        }),
{
    let shown = spoken(log, log.len() as int);
    let total = shown.len() as int;
    lemma_spoken(log, log.len() as int);
    lemma_walked(log, 0, max_entries, max_chars);
    lemma_page_entries(log, 0, total, max_chars);
    let all = walked(log, 0, max_entries, max_chars);
    assert forall|i: int| 0 <= i < all.len() implies (#[trigger] all[i]) == shown_entry(
        log[shown[i]],
        i,
        max_chars,
    ) by {
        assert(page_entries(log, 0, total, max_chars)[i - 0] == all[i]);
    }
    assert forall|k: int| 0 <= k < log.len() implies (!((#[trigger] log[k]).record is OpEnded)
        <==> shown.contains(k)) by {
        if shown.contains(k) {
            let i = shown.index_of(k);
            assert(shown[i] == k);
        }
    }
}

/// What a page says of itself: how many entries there are in all, its own
/// entries, never more than asked for, and where to go on, which is nowhere
/// exactly when no entry is left after it.
pub proof fn law_pages_say_where_to_go_on(
    trace: &Trace,
    start: int,
    max_entries: int,
    max_chars: int,
)
    requires
        0 <= start,
        0 <= max_entries,
    ensures
        ({
            let total = spoken(trace.log@, trace.log@.len() as int).len() as int;
            let end = page_end(total, start, max_entries);
            let entries = page_entries(trace.log@, start, end, max_chars);
            let page = page_of(trace, start, max_entries, max_chars);
            &&& page.get("total_entries"@) == Some(Json::Int(total))
            &&& page.get("entries"@) == Some(Json::Array(entries))
            &&& entries.len() <= max_entries
            &&& start + entries.len() < total ==> page.get("next_start"@) == Some(
                Json::Int(start + entries.len()),
            )
            &&& start + entries.len() >= total ==> page.get("next_start"@) == Some(Json::Null)
        }),
{
    reveal_strlit("question");
    reveal_strlit("status");
    reveal_strlit("total_entries");
    reveal_strlit("entries");
    reveal_strlit("next_start");
    assert("question"@.len() == 8 && "status"@.len() == 6 && "total_entries"@.len() == 13);
    assert("entries"@.len() == 7 && "next_start"@.len() == 10);
    let total = spoken(trace.log@, trace.log@.len() as int).len() as int;
    let end = page_end(total, start, max_entries);
    lemma_page_entries(trace.log@, start, end, max_chars);
    reveal_with_fuel(crate::json::Json::member_from, 6);
}

// ----- what is told -----
/// An excerpt is the beginning of a text, as long as it may be, and tells whether
/// there is more.
pub proof fn law_excerpts_tell_what_was_clipped(text: Seq<char>, limit: int)
    ensures
        ({
            let r = excerpt_json(text, limit);
            &&& r.get_bool("truncated"@) == Some(text.len() > limit)
            &&& text.len() <= limit ==> r.get_str("excerpt"@) == Some(text)
            &&& 0 <= limit < text.len() ==> r.get_str("excerpt"@) == Some(text.take(limit))
        }),
{
    reveal_strlit("excerpt");
    reveal_strlit("truncated");
    assert("excerpt"@.len() == 7);
    assert("truncated"@.len() == 9);
    let fs = excerpt_json(text, limit)->Object_0;
    assert(fs[0].key == "excerpt"@);
    assert(fs[1].key == "truncated"@);
    law_the_first_member_of_a_name_counts(fs, 0);
    law_the_first_member_of_a_name_counts(fs, 1);
}

/// An operation is told as what it was: its number, whether it was a model call
/// or a tool call, the model or the tool, how long it took, how it ended; and for
/// a model call the tokens that went in and those that came out.
pub proof fn law_operations_are_told_as_they_were(log: Seq<LogEntry>, record: Record)
    requires
        record is OpEnded,
    ensures
        ({
            let r = op_json(log, record);
            record matches Record::OpEnded { op, outcome, meta } && {
                &&& r.get("op"@) == Some(Json::Int(op as int))
                &&& meta.ended_at >= meta.started_at ==> r.get("duration_ms"@) == Some(
                    Json::Int(meta.ended_at - meta.started_at),
                )
                &&& outcome is Success ==> r.get_str("outcome"@) == Some("ok"@)
                &&& outcome is Error ==> r.get_str("outcome"@) == Some("error"@)
                &&& outcome is Cancelled ==> r.get_str("outcome"@) == Some("cancelled"@)
                &&& meta.model matches Some(model) ==> {
                    &&& r.get_str("kind"@) == Some("model"@)
                    &&& r.get_str("name"@) == Some(model@)
                    &&& meta.usage matches Some(u) ==> r.get("tokens_in"@) == Some(
                        Json::Int(u.input_tokens as int),
                    ) && r.get("tokens_out"@) == Some(Json::Int(u.output_tokens as int))
                    &&& meta.usage is None ==> r.get("tokens_in"@) == Some(Json::Null) && r.get(
                        "tokens_out"@,
                    ) == Some(Json::Null)
                }
                &&& meta.model is None ==> {
                    &&& r.get_str("kind"@) == Some("tool"@)
                    &&& r.get_str("name"@) == Some(tool_name(log, 0, op))
                }
            }
        }),
{
    reveal_strlit("op");
    reveal_strlit("kind");
    reveal_strlit("name");
    reveal_strlit("duration_ms");
    reveal_strlit("tokens_in");
    reveal_strlit("tokens_out");
    reveal_strlit("outcome");
    assert("op"@.len() == 2);
    assert("kind"@.len() == 4);
    assert("name"@.len() == 4);
    assert("duration_ms"@.len() == 11);
    assert("tokens_in"@.len() == 9);
    assert("tokens_out"@.len() == 10);
    assert("outcome"@.len() == 7);
    assert("kind"@[0] != "name"@[0]);
    if let Record::OpEnded { op, outcome, meta } = record {
        if meta.model is Some {
            let fs = op_json(log, record)->Object_0;
            assert(fs[0].key == "op"@);
            assert(fs[1].key == "kind"@);
            assert(fs[2].key == "name"@);
            assert(fs[3].key == "duration_ms"@);
            assert(fs[4].key == "tokens_in"@);
            assert(fs[5].key == "tokens_out"@);
            assert(fs[6].key == "outcome"@);
            law_the_first_member_of_a_name_counts(fs, 0);
            law_the_first_member_of_a_name_counts(fs, 1);
            law_the_first_member_of_a_name_counts(fs, 2);
            law_the_first_member_of_a_name_counts(fs, 3);
            law_the_first_member_of_a_name_counts(fs, 4);
            law_the_first_member_of_a_name_counts(fs, 5);
            law_the_first_member_of_a_name_counts(fs, 6);
        } else {
            let fs = op_json(log, record)->Object_0;
            assert(fs[0].key == "op"@);
            assert(fs[1].key == "kind"@);
            assert(fs[2].key == "name"@);
            assert(fs[3].key == "duration_ms"@);
            assert(fs[4].key == "outcome"@);
            law_the_first_member_of_a_name_counts(fs, 0);
            law_the_first_member_of_a_name_counts(fs, 1);
            law_the_first_member_of_a_name_counts(fs, 2);
            law_the_first_member_of_a_name_counts(fs, 3);
            law_the_first_member_of_a_name_counts(fs, 4);
        }
    }
}

/// The summary of a trace tells its question and its status, counts its entries,
/// its model calls, its tool calls and the operations that did not succeed, and
/// lists every operation: one more entry adds what it is and nothing else.
pub proof fn law_summaries_tell_every_operation(trace: &Trace, log: Seq<LogEntry>, n: int)
    requires
        0 <= n < log.len(),
    ensures
        ({
            let r = summary_of(trace);
            let len = trace.log@.len() as int;
            &&& trace.question matches Some(q) ==> r.get_str("question"@) == Some(q@)
            &&& trace.status matches Some(s) ==> r.get_str("status"@) == Some(s@)
            &&& r.get("log_entries"@) == Some(Json::Int(len))
            &&& r.get("model_calls"@) == Some(
                Json::Int(count_in(trace.log@, len, |e: LogEntry| is_model_op(e)) as int),
            )
            &&& r.get("tool_calls"@) == Some(
                Json::Int(count_in(trace.log@, len, |e: LogEntry| is_tool_op(e)) as int),
            )
            &&& r.get("errors"@) == Some(
                Json::Int(count_in(trace.log@, len, |e: LogEntry| is_failed_op(e)) as int),
            )
            &&& r.get("ops"@) == Some(Json::Array(ops_in(trace.log@, len)))
        }),
        ({
            let m = |e: LogEntry| is_model_op(e);
            let t = |e: LogEntry| is_tool_op(e);
            let f = |e: LogEntry| is_failed_op(e);
            match log[n].record {
                Record::OpEnded { outcome, meta, .. } => {
                    &&& ops_in(log, n + 1).len() == ops_in(log, n).len() + 1
                    &&& count_in(log, n + 1, m) == count_in(log, n, m) + (if meta.model is Some {
                        1int
                    } else {
                        0
                    })
                    &&& count_in(log, n + 1, t) == count_in(log, n, t) + (if meta.model is None {
                        1int
                    } else {
                        0
                    })
                    &&& count_in(log, n + 1, f) == count_in(log, n, f) + (if outcome is Success {
                        0int
                    } else {
                        1
                    })
                },
                _ => {
                    &&& ops_in(log, n + 1) == ops_in(log, n)
                    &&& count_in(log, n + 1, m) == count_in(log, n, m)
                    &&& count_in(log, n + 1, t) == count_in(log, n, t)
                    &&& count_in(log, n + 1, f) == count_in(log, n, f)
                },
            }
        }),
{
    reveal_strlit("question");
    reveal_strlit("status");
    reveal_strlit("log_entries");
    reveal_strlit("model_calls");
    reveal_strlit("tool_calls");
    reveal_strlit("errors");
    reveal_strlit("ops");
    assert("question"@.len() == 8);
    assert("status"@.len() == 6);
    assert("log_entries"@.len() == 11);
    assert("model_calls"@.len() == 11);
    assert("tool_calls"@.len() == 10);
    assert("errors"@.len() == 6);
    assert("ops"@.len() == 3);
    assert("status"@[0] != "errors"@[0]);
    assert("log_entries"@[0] != "model_calls"@[0]);
    let fs = summary_of(trace)->Object_0;
    assert(fs[0].key == "question"@);
    assert(fs[1].key == "status"@);
    assert(fs[2].key == "log_entries"@);
    assert(fs[3].key == "model_calls"@);
    assert(fs[4].key == "tool_calls"@);
    assert(fs[5].key == "errors"@);
    assert(fs[6].key == "ops"@);
    law_the_first_member_of_a_name_counts(fs, 0);
    law_the_first_member_of_a_name_counts(fs, 1);
    law_the_first_member_of_a_name_counts(fs, 2);
    law_the_first_member_of_a_name_counts(fs, 3);
    law_the_first_member_of_a_name_counts(fs, 4);
    law_the_first_member_of_a_name_counts(fs, 5);
    law_the_first_member_of_a_name_counts(fs, 6);
}

/// An entry of a transcript tells who spoke and what was said, as far as it is
/// shown; a tool result tells the tool and the result; and every entry tells its
/// position and its number in the log.
pub proof fn law_transcripts_tell_who_said_what(entry: LogEntry, position: int, limit: int)
    requires
        0 <= limit,
    ensures
        ({
            let r = shown_entry(entry, position, limit);
            &&& r.get("index"@) == Some(Json::Int(position))
            &&& r.get("seq"@) == Some(Json::Int(entry.seq as int))
            &&& match entry.record {
                Record::UserMessage { text } => r.get_str("kind"@) == Some("user"@) && (text@.len()
                    <= limit ==> r.get_str("text"@) == Some(text@)) && r.get_bool(
                    "text_truncated"@,
                ) == Some(text@.len() > limit),
                Record::ModelOutput { text, tool_calls, .. } => {
                    &&& r.get_str("kind"@) == Some("model"@)
                    &&& text@.len() <= limit ==> r.get_str("text"@) == Some(text@)
                    &&& r.get_bool("text_truncated"@) == Some(text@.len() > limit)
                    &&& r.get("tool_calls"@) matches Some(Json::Array(calls)) && calls.len()
                        == tool_calls@.len() && forall|i: int|
                        0 <= i < calls.len() ==> (#[trigger] calls[i]).get_str("name"@) == Some(
                            tool_calls@[i].name@,
                        )
                },
                Record::ContextSummary { text } => r.get_str("kind"@) == Some("context_summary"@)
                    && (text@.len() <= limit ==> r.get_str("text"@) == Some(text@)),
                Record::ToolResult { name, result, .. } => {
                    &&& r.get_str("kind"@) == Some("tool_result"@)
                    &&& r.get_str("name"@) == Some(name@)
                    &&& r.get("result"@) matches Some(e) && (payload_shown(result).len() <= limit
                        ==> e.get_str("excerpt"@) == Some(payload_shown(result)))
                },
                _ => true,
            }
        }),
{
    reveal_strlit("kind");
    reveal_strlit("text");
    reveal_strlit("text_truncated");
    reveal_strlit("tool_calls");
    reveal_strlit("index");
    reveal_strlit("seq");
    reveal_strlit("name");
    reveal_strlit("result");
    assert("kind"@.len() == 4);
    assert("text"@.len() == 4);
    assert("text_truncated"@.len() == 14);
    assert("tool_calls"@.len() == 10);
    assert("index"@.len() == 5);
    assert("seq"@.len() == 3);
    assert("name"@.len() == 4);
    assert("result"@.len() == 6);
    assert("kind"@[0] != "text"@[0]);
    assert("kind"@[0] != "name"@[0]);
    assert("text"@[0] != "name"@[0]);
    let fs = shown_entry(entry, position, limit)->Object_0;
    let n = record_fields(entry.record, limit).len() as int;
    assert(fs[0].key == "kind"@);
    assert(fs[n].key == "index"@);
    assert(fs[n + 1].key == "seq"@);
    match entry.record {
        Record::UserMessage { .. } | Record::ContextSummary { .. } => {
            assert(n == 3 && fs[1].key == "text"@ && fs[2].key == "text_truncated"@);
            law_the_first_member_of_a_name_counts(fs, 1);
            law_the_first_member_of_a_name_counts(fs, 2);
        },
        Record::ModelOutput { tool_calls, .. } => {
            assert(n == 4 && fs[1].key == "text"@ && fs[2].key == "text_truncated"@ && fs[3].key
                == "tool_calls"@);
            law_the_first_member_of_a_name_counts(fs, 1);
            law_the_first_member_of_a_name_counts(fs, 2);
            law_the_first_member_of_a_name_counts(fs, 3);
            let calls = fs[3].value->Array_0;
            assert forall|i: int| 0 <= i < calls.len() implies (#[trigger] calls[i]).get_str(
                "name"@,
            ) == Some(tool_calls@[i].name@) by {
                assert(calls[i] == call_json(tool_calls@[i], limit));
                let cs = calls[i]->Object_0;
                assert(cs[0].key == "name"@);
                law_the_first_member_of_a_name_counts(cs, 0);
            }
        },
        Record::ToolResult { result, .. } => {
            assert(n == 3 && fs[1].key == "name"@ && fs[2].key == "result"@);
            law_the_first_member_of_a_name_counts(fs, 1);
            law_the_first_member_of_a_name_counts(fs, 2);
            law_excerpts_tell_what_was_clipped(payload_shown(result), limit);
        },
        _ => {
            assert(n == 1);
        },
    }
    law_the_first_member_of_a_name_counts(fs, 0);
    law_the_first_member_of_a_name_counts(fs, n);
    law_the_first_member_of_a_name_counts(fs, n + 1);
}

/// A page of a transcript tells the question and the status of its trace, how many
/// entries there are, and those of the page.
pub proof fn law_pages_tell_their_trace(trace: &Trace, start: int, max_entries: int, max_chars: int)
    ensures
        ({
            let r = page_of(trace, start, max_entries, max_chars);
            &&& trace.question matches Some(q) ==> r.get_str("question"@) == Some(q@)
            &&& trace.status matches Some(s) ==> r.get_str("status"@) == Some(s@)
            &&& r.get("total_entries"@) == Some(Json::Int(spoken(trace.log@, trace.log@.len() as int).len() as int))
            &&& r.get("entries"@) is Some && r.get("entries"@)->0 is Array
        }),
{
    reveal_strlit("question");
    reveal_strlit("status");
    reveal_strlit("total_entries");
    reveal_strlit("entries");
    reveal_strlit("next_start");
    assert("question"@.len() == 8);
    assert("status"@.len() == 6);
    assert("total_entries"@.len() == 13);
    assert("entries"@.len() == 7);
    assert("next_start"@.len() == 10);
    let fs = page_of(trace, start, max_entries, max_chars)->Object_0;
    assert(fs[0].key == "question"@);
    assert(fs[1].key == "status"@);
    assert(fs[2].key == "total_entries"@);
    assert(fs[3].key == "entries"@);
    assert(fs[4].key == "next_start"@);
    law_the_first_member_of_a_name_counts(fs, 0);
    law_the_first_member_of_a_name_counts(fs, 1);
    law_the_first_member_of_a_name_counts(fs, 2);
    law_the_first_member_of_a_name_counts(fs, 3);
    law_the_first_member_of_a_name_counts(fs, 4);
}

} // verus!
