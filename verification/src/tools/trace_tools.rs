//! The four tools over stored traces, as a model calls them: their schemas,
//! their arguments and their answers.
use vstd::prelude::*;

use super::fs_read::{limit_arg, limit_of, outcome};
use super::traces_read::{
    checked_trace_id, excerpt_json, ops_summary, page_end, page_entries, page_of, payload_shown,
    spoken, summary_of, trace_id_of, transcript_page, value_excerpt, DEFAULT_ENTRY_CHARS,
    DEFAULT_FEEDBACK_LIMIT, DEFAULT_LIST_LIMIT, DEFAULT_TRANSCRIPT_ENTRIES, MAX_ENTRY_CHARS,
    MAX_LIST_LIMIT, MAX_TRANSCRIPT_ENTRIES,
};
use crate::agent::analytics::TraceListing;
use crate::json::{
    field, items_view, law_the_first_member_of_a_name_counts, lemma_array_view, no_fields, Data,
    Json, Members,
};
use crate::schema::{
    argument, arguments, bounded_argument, describe, describe_bounded, describe_text,
    free_arguments, free_schema, object_schema, one, text_argument, Schema, ToolSchema,
};
use crate::trace::{id_view, LogEntry, Trace};

verus! {

// ----- listing -----
/// One trace in the list.
pub open spec fn listing_json(l: TraceListing) -> Json {
    Json::Object(
        no_fields().push(field("trace_id"@, Json::Str(l.trace_id@))).push(
            field(
                "depends_on"@,
                match id_view(l.depends_on) {
                    Some(id) => Json::Str(id),
                    None => Json::Null,
                },
            ),
        ).push(
            field(
                "created_at"@,
                match l.created_at {
                    Some(n) => Json::Int(n as int),
                    None => Json::Null,
                },
            ),
        ).push(field("question"@, Json::Str(l.question@))).push(
            field("status"@, Json::Str(l.status@)),
        ).push(field("feedback_count"@, Json::Int(l.feedback_count as int))),
    )
}

fn listing_value(l: &TraceListing) -> (r: Data)
    ensures
        r@ == listing_json(*l),
{
    let depends_on = match &l.depends_on {
        Some(id) => Data::string(id.as_str()),
        None => Data::null(),
    };
    let created_at = match l.created_at {
        Some(n) => Data::number(n),
        None => Data::null(),
    };
    Members::new().with("trace_id", Data::string(l.trace_id.as_str())).with(
        "depends_on",
        depends_on,
    ).with("created_at", created_at).with("question", Data::string(l.question.as_str())).with(
        "status",
        Data::string(l.status.as_str()),
    ).with("feedback_count", Data::number(l.feedback_count)).object()
}

/// The first `n` traces of a list.
pub open spec fn listed(listings: Seq<TraceListing>, n: int) -> Seq<Json>
    decreases n,
{
    if n <= 0 || n > listings.len() {
        Seq::empty()
    } else {
        listed(listings, n - 1).push(listing_json(listings[n - 1]))
    }
}

/// The answer of the listing tool.
pub open spec fn trace_list_of(listings: Seq<TraceListing>, args: Json) -> Json {
    let limit = limit_of(
        args,
        "limit"@,
        DEFAULT_LIST_LIMIT as int,
        1,
        MAX_LIST_LIMIT as int,
    );
    let total = listings.len() as int;
    Json::Object(
        no_fields().push(
            field(
                "traces"@,
                Json::Array(
                    listed(
                        listings,
                        if limit < total {
                            limit
                        } else {
                            total
                        },
                    ),
                ),
            ),
        ).push(field("total"@, Json::Int(total))).push(
            field("truncated"@, Json::Bool(total > limit)),
        ),
    )
}

/// Lists the first stored traces, as many as the arguments ask for.
pub fn trace_list(listings: &Vec<TraceListing>, args: &Data) -> (r: Data)
    ensures
        r@ == trace_list_of(listings@, args@),
{
    let limit: u64 = limit_arg(args, "limit", DEFAULT_LIST_LIMIT, 1, MAX_LIST_LIMIT);
    let total: usize = listings.len();
    let n: usize = if limit < total as u64 {
        limit as usize
    } else {
        total
    };
    let mut items: Vec<Data> = Vec::new();
    let mut i: usize = 0;
    assert(items_view(items@) =~= listed(listings@, 0));
    while i < n
        invariant
            i <= n <= listings@.len(),
            items_view(items@) == listed(listings@, i as int),
        decreases n - i,
    {
        let ghost was = items@;
        let item = listing_value(&listings[i]);
        items.push(item);
        assert(items_view(items@) =~= items_view(was).push(item@));
        i = i + 1;
    }
    proof {
        lemma_array_view(items);
    }
    Members::new().with("traces", Data::Array(items)).with(
        "total",
        Data::number(total as u64),
    ).with("truncated", Data::boolean(total as u64 > limit)).object()
}

// ----- operations -----
/// The answer of the operations tool for the trace that the arguments name.
/// `loaded` is what came of loading it from the store.
pub fn trace_ops(loaded: &Result<Trace, String>, args: &Data) -> (r: Result<Data, String>)
    ensures
        outcome(r) == match (trace_id_of(args@), loaded) {
            (Ok(_), Ok(trace)) => Ok::<Json, Seq<char>>(summary_of(trace)),
            (Ok(_), Err(e)) => Err::<Json, Seq<char>>(e@),
            (Err(e), _) => Err::<Json, Seq<char>>(e),
        },
{
    match checked_trace_id(args) {
        Ok(_) => match loaded {
            Ok(trace) => Ok(ops_summary(trace)),
            Err(e) => Err(e.clone()),
        },
        Err(e) => Err(e),
    }
}

// ----- transcripts -----
/// The position from which the arguments ask for the transcript.
pub open spec fn start_of(args: Json) -> int {
    match args.get_u64("start"@) {
        Some(n) => n,
        None => 0,
    }
}

proof fn lemma_pages_past_the_end(trace: &Trace, a: int, b: int, max_entries: int, max_chars: int)
    requires
        a >= spoken(trace.log@, trace.log@.len() as int).len(),
        b >= spoken(trace.log@, trace.log@.len() as int).len(),
        0 <= a,
        0 <= b,
    ensures
        page_of(trace, a, max_entries, max_chars) == page_of(trace, b, max_entries, max_chars),
{
    let total = spoken(trace.log@, trace.log@.len() as int).len() as int;
    assert(page_end(total, a, max_entries) == a);
    assert(page_end(total, b, max_entries) == b);
    assert(page_entries(trace.log@, a, a, max_chars) == page_entries(trace.log@, b, b, max_chars));
}

/// The answer of the transcript tool for the trace that the arguments name.
/// `loaded` is what came of loading it from the store.
pub fn trace_transcript(loaded: &Result<Trace, String>, args: &Data) -> (r: Result<Data, String>)
    ensures
        outcome(r) == match (trace_id_of(args@), loaded) {
            (Ok(_), Ok(trace)) => Ok::<Json, Seq<char>>(
                page_of(
                    trace,
                    start_of(args@),
                    limit_of(
                        args@,
                        "max_entries"@,
                        DEFAULT_TRANSCRIPT_ENTRIES as int,
                        1,
                        MAX_TRANSCRIPT_ENTRIES as int,
                    ),
                    limit_of(
                        args@,
                        "max_chars"@,
                        DEFAULT_ENTRY_CHARS as int,
                        1,
                        MAX_ENTRY_CHARS as int,
                    ),
                ),
            ),
            (Ok(_), Err(e)) => Err::<Json, Seq<char>>(e@),
            (Err(e), _) => Err::<Json, Seq<char>>(e),
        },
{
    match checked_trace_id(args) {
        Err(e) => Err(e),
        Ok(_) => {
            let trace = match loaded {
                Ok(trace) => trace,
                Err(e) => {
                    return Err(e.clone());
                },
            };
            let asked: u64 = match args.get_u64("start") {
                Some(n) => n,
                None => 0,
            };
            let max_entries: u64 = limit_arg(
                args,
                "max_entries",
                DEFAULT_TRANSCRIPT_ENTRIES,
                1,
                MAX_TRANSCRIPT_ENTRIES,
            );
            let max_chars: u64 = limit_arg(
                args,
                "max_chars",
                DEFAULT_ENTRY_CHARS,
                1,
                MAX_ENTRY_CHARS,
            );
            let len: usize = trace.log.len();
            let start: usize = if asked > len as u64 {
                len
            } else {
                asked as usize
            };
            proof {
                lemma_spoken_bound(trace.log@, trace.log@.len() as int);
                if asked > len {
                    lemma_pages_past_the_end(
                        trace,
                        asked as int,
                        start as int,
                        max_entries as int,
                        max_chars as int,
                    );
                }
            }
            Ok(transcript_page(trace, start, max_entries as usize, max_chars as usize))
        },
    }
}

proof fn lemma_spoken_bound(log: Seq<LogEntry>, n: int)
    ensures
        spoken(log, n).len() <= if n < 0 {
            0
        } else {
            n
        },
    decreases n,
{
    if n > 0 {
        lemma_spoken_bound(log, n - 1);
    }
}

// ----- feedback -----
/// One feedback event on a trace.
#[derive(Debug)]
pub struct FeedbackEvent {
    pub created_at_ms: u64,
    pub payload: serde_json::Value,
}

pub open spec fn feedback_json(e: FeedbackEvent, max_chars: int) -> Json {
    Json::Object(
        no_fields().push(field("created_at_ms"@, Json::Int(e.created_at_ms as int))).push(
            field("payload"@, excerpt_json(payload_shown(e.payload), max_chars)),
        ),
    )
}

/// The first `n` events.
pub open spec fn events_shown(events: Seq<FeedbackEvent>, n: int, max_chars: int) -> Seq<Json>
    decreases n,
{
    if n <= 0 || n > events.len() {
        Seq::empty()
    } else {
        events_shown(events, n - 1, max_chars).push(feedback_json(events[n - 1], max_chars))
    }
}

/// The answer of the feedback tool.
pub open spec fn feedback_of(id: Seq<char>, events: Seq<FeedbackEvent>, args: Json) -> Json {
    let max_chars = limit_of(
        args,
        "max_chars"@,
        DEFAULT_ENTRY_CHARS as int,
        1,
        MAX_ENTRY_CHARS as int,
    );
    let total = events.len() as int;
    let limit = DEFAULT_FEEDBACK_LIMIT as int;
    Json::Object(
        no_fields().push(field("trace_id"@, Json::Str(id))).push(
            field("total"@, Json::Int(total)),
        ).push(
            field(
                "feedback"@,
                Json::Array(
                    events_shown(
                        events,
                        if limit < total {
                            limit
                        } else {
                            total
                        },
                        max_chars,
                    ),
                ),
            ),
        ).push(field("truncated"@, Json::Bool(total > limit))),
    )
}

/// The answer of the feedback tool, for what looking the trace up and reading
/// its feedback came to. A trace that is not found is an error, whatever feedback
/// there is.
pub open spec fn feedback_answer(
    lookup: Result<(), Seq<char>>,
    events: Result<Seq<FeedbackEvent>, Seq<char>>,
    args: Json,
) -> Result<Json, Seq<char>> {
    match trace_id_of(args) {
        Err(e) => Err(e),
        Ok(id) => match lookup {
            Err(e) => Err(e),
            Ok(_) => match events {
                Err(e) => Err(e),
                Ok(events) => Ok(feedback_of(id, events, args)),
            },
        },
    }
}

/// What looking a trace up came to.
pub open spec fn lookup_view(r: Result<(), String>) -> Result<(), Seq<char>> {
    match r {
        Ok(_) => Ok(()),
        Err(e) => Err(e@),
    }
}

/// What reading feedback came to.
pub open spec fn events_view(r: Result<Vec<FeedbackEvent>, String>) -> Result<
    Seq<FeedbackEvent>,
    Seq<char>,
> {
    match r {
        Ok(v) => Ok(v@),
        Err(e) => Err(e@),
    }
}

/// Feedback on a trace that is not found is an error and not an empty list: an
/// id that is none is told first, and what the lookup says next, whatever
/// feedback there is.
pub proof fn law_unknown_traces_have_no_feedback(
    error: Seq<char>,
    events: Result<Seq<FeedbackEvent>, Seq<char>>,
    args: Json,
)
    ensures
        feedback_answer(Err(error), events, args) == Err::<Json, Seq<char>>(
            match trace_id_of(args) {
                Ok(_) => error,
                Err(e) => e,
            },
        ),
{
}

/// Lists the first feedback events on the trace that the arguments name. `lookup`
/// is what came of looking for the trace in the store, and `events` of reading
/// the feedback on it.
pub fn feedback_list(
    lookup: Result<(), String>,
    events: Result<Vec<FeedbackEvent>, String>,
    args: &Data,
) -> (r: Result<Data, String>)
    ensures
        outcome(r) == feedback_answer(lookup_view(lookup), events_view(events), args@),
{
    let id = match checked_trace_id(args) {
        Ok(id) => id,
        Err(e) => {
            return Err(e);
        },
    };
    match lookup {
        Ok(_) => {},
        Err(e) => {
            return Err(e);
        },
    }
    let events = match events {
        Ok(events) => events,
        Err(e) => {
            return Err(e);
        },
    };
    let max_chars: u64 = limit_arg(args, "max_chars", DEFAULT_ENTRY_CHARS, 1, MAX_ENTRY_CHARS);
    let total: usize = events.len();
    let n: usize = if DEFAULT_FEEDBACK_LIMIT < total {
        DEFAULT_FEEDBACK_LIMIT
    } else {
        total
    };
    let mut items: Vec<Data> = Vec::new();
    let mut i: usize = 0;
    assert(items_view(items@) =~= events_shown(events@, 0, max_chars as int));
    while i < n
        invariant
            i <= n <= events@.len(),
            max_chars <= MAX_ENTRY_CHARS,
            items_view(items@) == events_shown(events@, i as int, max_chars as int),
        decreases n - i,
    {
        let ghost was = items@;
        let item = Members::new().with("created_at_ms", Data::number(events[i].created_at_ms)).with(
            "payload",
            value_excerpt(&events[i].payload, max_chars as usize),
        ).object();
        items.push(item);
        assert(items_view(items@) =~= items_view(was).push(item@));
        i = i + 1;
    }
    proof {
        lemma_array_view(items);
    }
    Ok(
        Members::new().with("trace_id", Data::string(id.as_str())).with(
            "total",
            Data::number(total as u64),
        ).with("feedback", Data::Array(items)).with(
            "truncated",
            Data::boolean(total > DEFAULT_FEEDBACK_LIMIT),
        ).object(),
    )
}

// ----- schemas -----
pub open spec fn trace_list_spec() -> Schema {
    Schema {
        name: "trace_list"@,
        description: "List stored trace heads (id, lineage, question, status) with feedback counts, oldest first by id."@,
        parameters: free_arguments(
            no_fields().push(
                field(
                    "limit"@,
                    bounded_argument(1, 1000, "Maximum heads to return. Defaults to 100."@),
                ),
            ),
        ),
    }
}

pub fn trace_list_schema() -> (r: ToolSchema)
    ensures
        r@ == trace_list_spec(),
{
    ToolSchema::new(
        "trace_list",
        "List stored trace heads (id, lineage, question, status) with feedback counts, oldest first by id.",
        free_schema(
            Members::new().with(
                "limit",
                describe_bounded(1, 1000, "Maximum heads to return. Defaults to 100."),
            ),
        ),
    )
}

pub open spec fn trace_ops_spec() -> Schema {
    Schema {
        name: "trace_ops"@,
        description: "Summarize one trace's operations in order: model calls (selector, tokens) and tool calls (name, duration, error), never raw content."@,
        parameters: arguments(
            no_fields().push(
                field("trace_id"@, text_argument("The trace to summarize (from trace_list)."@)),
            ),
            seq!["trace_id"@],
        ),
    }
}

pub fn trace_ops_schema() -> (r: ToolSchema)
    ensures
        r@ == trace_ops_spec(),
{
    ToolSchema::new(
        "trace_ops",
        "Summarize one trace's operations in order: model calls (selector, tokens) and tool calls (name, duration, error), never raw content.",
        object_schema(
            Members::new().with(
                "trace_id",
                describe_text("The trace to summarize (from trace_list)."),
            ),
            &one("trace_id"),
        ),
    )
}

pub open spec fn trace_transcript_spec() -> Schema {
    Schema {
        name: "trace_transcript"@,
        description: "Read one trace's conversation log as paged, size-capped entries (user messages, model output, tool results). Use `start` from a previous call's `next_start` to page."@,
        parameters: arguments(
            no_fields().push(
                field("trace_id"@, text_argument("The trace to read (from trace_list)."@)),
            ).push(
                field(
                    "start"@,
                    argument(
                        "integer"@,
                        Some(0),
                        None,
                        Some("Entry index to start from. Defaults to 0."@),
                    ),
                ),
            ).push(
                field(
                    "max_entries"@,
                    bounded_argument(1, 200, "Maximum entries to return. Defaults to 20."@),
                ),
            ).push(
                field(
                    "max_chars"@,
                    bounded_argument(
                        1,
                        20000,
                        "Per-entry content cap in characters. Defaults to 2000."@,
                    ),
                ),
            ),
            seq!["trace_id"@],
        ),
    }
}

pub fn trace_transcript_schema() -> (r: ToolSchema)
    ensures
        r@ == trace_transcript_spec(),
{
    ToolSchema::new(
        "trace_transcript",
        "Read one trace's conversation log as paged, size-capped entries (user messages, model output, tool results). Use `start` from a previous call's `next_start` to page.",
        object_schema(
            Members::new().with(
                "trace_id",
                describe_text("The trace to read (from trace_list)."),
            ).with(
                "start",
                describe(
                    "integer",
                    Some(0),
                    None,
                    Some("Entry index to start from. Defaults to 0."),
                ),
            ).with(
                "max_entries",
                describe_bounded(1, 200, "Maximum entries to return. Defaults to 20."),
            ).with(
                "max_chars",
                describe_bounded(
                    1,
                    20000,
                    "Per-entry content cap in characters. Defaults to 2000.",
                ),
            ),
            &one("trace_id"),
        ),
    )
}

pub open spec fn feedback_list_spec() -> Schema {
    Schema {
        name: "feedback_list"@,
        description: "List the feedback events filed against one trace. Payloads are caller-supplied and untrusted."@,
        parameters: arguments(
            no_fields().push(
                field("trace_id"@, text_argument("The trace whose feedback to list."@)),
            ).push(
                field(
                    "max_chars"@,
                    bounded_argument(1, 20000, "Per-payload cap in characters. Defaults to 2000."@),
                ),
            ),
            seq!["trace_id"@],
        ),
    }
}

pub fn feedback_list_schema() -> (r: ToolSchema)
    ensures
        r@ == feedback_list_spec(),
{
    ToolSchema::new(
        "feedback_list",
        "List the feedback events filed against one trace. Payloads are caller-supplied and untrusted.",
        object_schema(
            Members::new().with(
                "trace_id",
                describe_text("The trace whose feedback to list."),
            ).with(
                "max_chars",
                describe_bounded(1, 20000, "Per-payload cap in characters. Defaults to 2000."),
            ),
            &one("trace_id"),
        ),
    )
}

/// A stored trace is listed with what is stored of it: its identity, the trace it
/// follows, when it was made, its question, its status, and how much feedback there
/// is on it.
pub proof fn law_listings_tell_the_trace(l: TraceListing)
    ensures
        ({
            let r = listing_json(l);
            &&& r.get_str("trace_id"@) == Some(l.trace_id@)
            &&& r.get_str("question"@) == Some(l.question@)
            &&& r.get_str("status"@) == Some(l.status@)
            &&& r.get("feedback_count"@) == Some(Json::Int(l.feedback_count as int))
            &&& l.depends_on matches Some(d) ==> r.get_str("depends_on"@) == Some(d@)
            &&& l.depends_on is None ==> r.get("depends_on"@) == Some(Json::Null)
            &&& l.created_at matches Some(t) ==> r.get("created_at"@) == Some(Json::Int(t as int))
            &&& l.created_at is None ==> r.get("created_at"@) == Some(Json::Null)
        }),
{
    reveal_strlit("trace_id");
    reveal_strlit("depends_on");
    reveal_strlit("created_at");
    reveal_strlit("question");
    reveal_strlit("status");
    reveal_strlit("feedback_count");
    assert("trace_id"@.len() == 8);
    assert("depends_on"@.len() == 10);
    assert("created_at"@.len() == 10);
    assert("question"@.len() == 8);
    assert("status"@.len() == 6);
    assert("feedback_count"@.len() == 14);
    assert("trace_id"@[0] != "question"@[0]);
    assert("depends_on"@[0] != "created_at"@[0]);
    let fs = listing_json(l)->Object_0;
    assert(fs[0].key == "trace_id"@);
    assert(fs[1].key == "depends_on"@);
    assert(fs[2].key == "created_at"@);
    assert(fs[3].key == "question"@);
    assert(fs[4].key == "status"@);
    assert(fs[5].key == "feedback_count"@);
    law_the_first_member_of_a_name_counts(fs, 0);
    law_the_first_member_of_a_name_counts(fs, 1);
    law_the_first_member_of_a_name_counts(fs, 2);
    law_the_first_member_of_a_name_counts(fs, 3);
    law_the_first_member_of_a_name_counts(fs, 4);
    law_the_first_member_of_a_name_counts(fs, 5);
}

/// A list of traces holds the first ones in their order, as many as are asked
/// for or as there are, tells how many there are, and whether any are left out.
pub proof fn law_trace_lists_are_beginnings(
    listings: Seq<TraceListing>,
    args: Json,
    i: int,
)
    ensures
        ({
            let r = trace_list_of(listings, args);
            &&& r.get("total"@) == Some(Json::Int(listings.len() as int))
            &&& r.get("traces"@) matches Some(Json::Array(traces)) && {
                &&& traces.len() <= listings.len()
                &&& r.get_bool("truncated"@) == Some(traces.len() < listings.len())
                &&& args.get_u64("limit"@) is None ==> traces.len() == (if listings.len() < 100 {
                    listings.len() as int
                } else {
                    100
                })
                &&& args.get_u64("limit"@) matches Some(n) ==> (1 <= n <= 1000 ==> traces.len()
                    == (if listings.len() < n {
                    listings.len() as int
                } else {
                    n
                }))
                &&& 0 <= i < traces.len() ==> traces[i].get_str("trace_id"@) == Some(
                    listings[i].trace_id@,
                )
            }
        }),
{
    reveal_strlit("traces");
    reveal_strlit("total");
    reveal_strlit("truncated");
    assert("traces"@.len() == 6);
    assert("total"@.len() == 5);
    assert("truncated"@.len() == 9);
    let fs = trace_list_of(listings, args)->Object_0;
    assert(fs[0].key == "traces"@);
    assert(fs[1].key == "total"@);
    assert(fs[2].key == "truncated"@);
    law_the_first_member_of_a_name_counts(fs, 0);
    law_the_first_member_of_a_name_counts(fs, 1);
    law_the_first_member_of_a_name_counts(fs, 2);
    let limit = limit_of(args, "limit"@, 100, 1, 1000);
    let n = if limit < listings.len() {
        limit
    } else {
        listings.len() as int
    };
    lemma_listed_each(listings, n, i);
    if 0 <= i < n {
        law_listings_tell_the_trace(listings[i]);
    }
}

proof fn lemma_listed_each(listings: Seq<TraceListing>, n: int, i: int)
    requires
        0 <= n <= listings.len(),
    ensures
        listed(listings, n).len() == n,
        0 <= i < n ==> listed(listings, n)[i] == listing_json(listings[i]),
    decreases n,
{
    if n > 0 {
        lemma_listed_each(listings, n - 1, i);
    }
}

/// The feedback on a trace is listed in its order, each event with when it was
/// given and what it says, under the identity of the trace, with how much there
/// is of it.
pub proof fn law_feedback_is_told_in_order(
    id: Seq<char>,
    events: Seq<FeedbackEvent>,
    args: Json,
    i: int,
)
    ensures
        ({
            let r = feedback_of(id, events, args);
            &&& r.get_str("trace_id"@) == Some(id)
            &&& r.get("total"@) == Some(Json::Int(events.len() as int))
            &&& r.get_bool("truncated"@) == Some(events.len() > 100)
            &&& r.get("feedback"@) matches Some(Json::Array(shown)) && {
                &&& shown.len() == (if events.len() < 100 {
                    events.len() as int
                } else {
                    100
                })
                &&& 0 <= i < shown.len() ==> {
                    &&& shown[i].get("created_at_ms"@) == Some(
                        Json::Int(events[i].created_at_ms as int),
                    )
                    &&& shown[i].get("payload"@) matches Some(p) && (args.get_u64("max_chars"@)
                        is None && payload_shown(events[i].payload).len() <= 2000 ==> p.get_str(
                        "excerpt"@,
                    ) == Some(payload_shown(events[i].payload)))
                }
            }
        }),
{
    reveal_strlit("trace_id");
    reveal_strlit("total");
    reveal_strlit("feedback");
    reveal_strlit("truncated");
    assert("trace_id"@.len() == 8);
    assert("total"@.len() == 5);
    assert("feedback"@.len() == 8);
    assert("truncated"@.len() == 9);
    assert("trace_id"@[0] != "feedback"@[0]);
    let fs = feedback_of(id, events, args)->Object_0;
    assert(fs[0].key == "trace_id"@);
    assert(fs[1].key == "total"@);
    assert(fs[2].key == "feedback"@);
    assert(fs[3].key == "truncated"@);
    law_the_first_member_of_a_name_counts(fs, 0);
    law_the_first_member_of_a_name_counts(fs, 1);
    law_the_first_member_of_a_name_counts(fs, 2);
    law_the_first_member_of_a_name_counts(fs, 3);
    let max = limit_of(args, "max_chars"@, 2000, 1, 20000);
    let n = if 100 < events.len() {
        100
    } else {
        events.len() as int
    };
    lemma_events_each(events, n, max, i);
    if 0 <= i < n {
        reveal_strlit("created_at_ms");
        reveal_strlit("payload");
        assert("created_at_ms"@.len() == 13);
        assert("payload"@.len() == 7);
        let gs = feedback_json(events[i], max)->Object_0;
        assert(gs[0].key == "created_at_ms"@);
        assert(gs[1].key == "payload"@);
        law_the_first_member_of_a_name_counts(gs, 0);
        law_the_first_member_of_a_name_counts(gs, 1);
        super::traces_read::law_excerpts_tell_what_was_clipped(
            payload_shown(events[i].payload),
            max,
        );
    }
}

proof fn lemma_events_each(events: Seq<FeedbackEvent>, n: int, max_chars: int, i: int)
    requires
        0 <= n <= events.len(),
    ensures
        events_shown(events, n, max_chars).len() == n,
        0 <= i < n ==> events_shown(events, n, max_chars)[i] == feedback_json(events[i], max_chars),
    decreases n,
{
    if n > 0 {
        lemma_events_each(events, n - 1, max_chars, i);
    }
}

} // verus!
