//! An agent as a server of the Model Context Protocol: which request is
//! answered how, what the `ask` tool takes, and what its results look like.
//!
//! The host reads the requests and writes the replies. Continuing a thread
//! rides on the trace id in the arguments of `ask`, not on the session.
use vstd::prelude::*;

use crate::agent::blobs::{BlobHandle, BlobRef};
use crate::definition::{AgentDefinition, Definition, RuntimeArg, RuntimeParam};
use crate::environment::Environment;
use crate::json::{
    field, law_the_first_member_of_a_name_counts, member_set, no_fields, no_items, opt_view, Data,
    Field, Json, Members,
};
use crate::runtime_args::{
    applied, apply_runtime_values, arg_refusal_text, RuntimeValues,
};
use crate::schema::text_array;
use crate::split::{begins_with, starts_with};
use crate::table::{put, rows, Duplicate, Table};
use crate::text::{cat, cat3, chars_of, digit, is_digit, owned, same, views};
use crate::trace::{
    json_member, json_str, json_text, payload_member, payload_str, payload_text, TraceId,
};

verus! {

/// The protocol version that is reported where a client names none.
pub const DEFAULT_PROTOCOL_VERSION: &'static str = "2024-11-05";

// ----- envelopes -----
/// A reply with a result.
pub open spec fn ok_reply(id: Json, result: Json) -> Json {
    Json::Object(
        no_fields().push(field("jsonrpc"@, Json::Str("2.0"@))).push(field("id"@, id)).push(
            field("result"@, result),
        ),
    )
}

/// A reply with a result.
pub fn ok(id: &Data, result: Data) -> (r: Data)
    ensures
        r@ == ok_reply(id@, result@),
{
    Members::new().with("jsonrpc", Data::string("2.0")).with("id", id.copy()).with(
        "result",
        result,
    ).object()
}

/// A reply with an error.
pub open spec fn error_reply(id: Json, code: int, message: Seq<char>) -> Json {
    Json::Object(
        no_fields().push(field("jsonrpc"@, Json::Str("2.0"@))).push(field("id"@, id)).push(
            field(
                "error"@,
                Json::Object(
                    no_fields().push(field("code"@, Json::Int(code))).push(
                        field("message"@, Json::Str(message)),
                    ),
                ),
            ),
        ),
    )
}

/// A reply with an error.
pub fn rpc_error(id: &Data, code: i64, message: &str) -> (r: Data)
    ensures
        r@ == error_reply(id@, code as int, message@),
{
    let error = Members::new().with("code", Data::Int(code as i128)).with(
        "message",
        Data::string(message),
    ).object();
    Members::new().with("jsonrpc", Data::string("2.0")).with("id", id.copy()).with(
        "error",
        error,
    ).object()
}

// ----- what is advertised -----
/// The result of `initialize`.
pub open spec fn initialized(
    name: Seq<char>,
    version: Seq<char>,
    description: Seq<char>,
    params: Json,
) -> Json {
    let protocol = match params.get_str("protocolVersion"@) {
        Some(p) => p,
        None => DEFAULT_PROTOCOL_VERSION@,
    };
    Json::Object(
        no_fields().push(field("protocolVersion"@, Json::Str(protocol))).push(
            field(
                "capabilities"@,
                Json::Object(no_fields().push(field("tools"@, Json::Object(no_fields())))),
            ),
        ).push(
            field(
                "serverInfo"@,
                Json::Object(
                    no_fields().push(field("name"@, Json::Str(name))).push(
                        field("version"@, Json::Str(version)),
                    ),
                ),
            ),
        ).push(field("instructions"@, Json::Str(description))),
    )
}

/// The result of `initialize`: the client's protocol version where it names
/// one, and who is serving.
pub fn initialize_result(name: &str, version: &str, description: &str, params: &Data) -> (r: Data)
    ensures
        r@ == initialized(name@, version@, description@, params@),
{
    let protocol = match params.get_str("protocolVersion") {
        Some(p) => p,
        None => DEFAULT_PROTOCOL_VERSION,
    };
    let capabilities = Members::new().with("tools", Members::new().object()).object();
    let info = Members::new().with("name", Data::string(name)).with(
        "version",
        Data::string(version),
    ).object();
    Members::new().with("protocolVersion", Data::string(protocol)).with(
        "capabilities",
        capabilities,
    ).with("serverInfo", info).with("instructions", Data::string(description)).object()
}

/// A text with a description.
pub open spec fn described(what: Seq<char>) -> Json {
    Json::Object(
        no_fields().push(field("type"@, Json::Str("string"@))).push(
            field("description"@, Json::Str(what)),
        ),
    )
}

fn describe(what: &str) -> (r: Data)
    ensures
        r@ == described(what@),
{
    Members::new().with("type", Data::string("string")).with(
        "description",
        Data::string(what),
    ).object()
}

/// A list with a description.
pub open spec fn described_list(what: Seq<char>, kind: Seq<char>) -> Json {
    Json::Object(
        no_fields().push(field("type"@, Json::Str("array"@))).push(
            field("description"@, Json::Str(what)),
        ).push(
            field("items"@, Json::Object(no_fields().push(field("type"@, Json::Str(kind))))),
        ),
    )
}

fn describe_list(what: &str, kind: &str) -> (r: Data)
    ensures
        r@ == described_list(what@, kind@),
{
    let items = Members::new().with("type", Data::string(kind)).object();
    Members::new().with("type", Data::string("array")).with(
        "description",
        Data::string(what),
    ).with("items", items).object()
}

pub const BLOBS_DESCRIPTION: &'static str = "Inbound file handles (contract BlobHandle JSON). Only `bytes` and well-formed `sha256` refs are accepted; `path` refs are rejected.";

pub const ASK_DESCRIPTION: &'static str = "Ask this huglet a question. Pass the previous answer's trace_id to resume/fork the thread.";

/// What every `ask` takes.
pub open spec fn ask_properties() -> Seq<Field> {
    no_fields().push(field("question"@, described("The question to ask."@))).push(
        field("trace_id"@, described("Resume/fork from this stored trace id."@)),
    ).push(field("blobs"@, described_list(BLOBS_DESCRIPTION@, "object"@))).push(
        field(
            "skills"@,
            described_list("Local SKILL.md folder paths to add for this ask."@, "string"@),
        ),
    )
}

/// What `ask` takes with the first `n` declared arguments.
pub open spec fn properties_with(args: Seq<RuntimeParam>, n: int) -> Seq<Field>
    decreases n,
{
    if n <= 0 {
        ask_properties()
    } else {
        member_set(properties_with(args, n - 1), args[n - 1].name, described(args[n - 1].help))
    }
}

/// What `ask` cannot do without, with the first `n` declared arguments.
pub open spec fn required_with(args: Seq<RuntimeParam>, n: int) -> Seq<Seq<char>>
    decreases n,
{
    if n <= 0 {
        Seq::empty().push("question"@)
    } else if args[n - 1].required {
        required_with(args, n - 1).push(args[n - 1].name)
    } else {
        required_with(args, n - 1)
    }
}

/// How `ask` is advertised.
pub open spec fn ask_schema(args: Seq<RuntimeParam>) -> Json {
    Json::Object(
        no_fields().push(field("name"@, Json::Str("ask"@))).push(
            field("description"@, Json::Str(ASK_DESCRIPTION@)),
        ).push(
            field(
                "inputSchema"@,
                Json::Object(
                    no_fields().push(field("type"@, Json::Str("object"@))).push(
                        field(
                            "properties"@,
                            Json::Object(properties_with(args, args.len() as int)),
                        ),
                    ).push(
                        field("required"@, text_array(required_with(args, args.len() as int))),
                    ),
                ),
            ),
        ),
    )
}

/// The declared arguments of a definition, if there is one.
pub open spec fn declared_args(def: Option<&AgentDefinition>) -> Seq<RuntimeParam> {
    match def {
        Some(d) => d@.args,
        None => Seq::empty(),
    }
}

/// How `ask` is advertised: with the arguments that the definition declares,
/// where there is one.
pub fn ask_tool_schema(def: Option<&AgentDefinition>) -> (r: Data)
    ensures
        r@ == ask_schema(declared_args(def)),
{
    let ghost args = declared_args(def);
    let mut properties = Members::new().with("question", describe("The question to ask.")).with(
        "trace_id",
        describe("Resume/fork from this stored trace id."),
    ).with("blobs", describe_list(BLOBS_DESCRIPTION, "object")).with(
        "skills",
        describe_list("Local SKILL.md folder paths to add for this ask.", "string"),
    );
    let mut required: Vec<String> = Vec::new();
    required.push(owned("question"));
    assert(views(required@) =~= Seq::<Seq<char>>::empty().push("question"@));
    if let Some(d) = def {
        let mut i: usize = 0;
        while i < d.runtime.args.len()
            invariant
                i <= d.runtime.args@.len(),
                args == d@.args,
                properties@ == properties_with(args, i as int),
                views(required@) == required_with(args, i as int),
            decreases d.runtime.args.len() - i,
        {
            assert(args[i as int] == d.runtime.args@[i as int]@);
            let arg: &RuntimeArg = &d.runtime.args[i];
            properties = properties.set(arg.name.as_str(), describe(arg.help.as_str()));
            let ghost was = required@;
            if arg.required {
                required.push(arg.name.clone());
                assert(views(required@) =~= views(was).push(arg.name@));
            }
            i = i + 1;
        }
        assert(i == args.len());
    }
    let list = Data::strings(&required);
    assert(required@.map_values(|s: String| Json::Str(s@)) =~= views(required@).map_values(
        |s: Seq<char>| Json::Str(s),
    ));
    let input = Members::new().with("type", Data::string("object")).with(
        "properties",
        properties.object(),
    ).with("required", list).object();
    Members::new().with("name", Data::string("ask")).with(
        "description",
        Data::string(ASK_DESCRIPTION),
    ).with("inputSchema", input).object()
}

proof fn lemma_member_set_keeps(fields: Seq<Field>, key: Seq<char>, value: Json)
    ensures
        exists|i: int|
            0 <= i < member_set(fields, key, value).len() && #[trigger] member_set(
                fields,
                key,
                value,
            )[i] == field(key, value),
        forall|k: int|
            0 <= k < fields.len() ==> exists|i: int|
                0 <= i < member_set(fields, key, value).len() && (#[trigger] member_set(
                    fields,
                    key,
                    value,
                )[i]).key == (#[trigger] fields[k]).key,
    decreases fields.len(),
{
    let set = member_set(fields, key, value);
    if fields.len() == 0 {
        assert(set[0] == field(key, value));
    } else if fields[0].key == key {
        assert(set[0] == field(key, value));
        assert forall|k: int| 0 <= k < fields.len() implies exists|i: int|
            0 <= i < set.len() && (#[trigger] set[i]).key == (#[trigger] fields[k]).key by {
            if k > 0 {
                assert(set[k] == fields.skip(1)[k - 1]);
            }
        }
    } else {
        let rest = fields.skip(1);
        let inner = member_set(rest, key, value);
        lemma_member_set_keeps(rest, key, value);
        let w = choose|i: int| 0 <= i < inner.len() && #[trigger] inner[i] == field(key, value);
        assert(set[w + 1] == inner[w]);
        assert forall|k: int| 0 <= k < fields.len() implies exists|i: int|
            0 <= i < set.len() && (#[trigger] set[i]).key == (#[trigger] fields[k]).key by {
            if k == 0 {
                assert(set[0] == fields[0]);
            } else {
                assert(rest[k - 1] == fields[k]);
                let i = choose|i: int| 0 <= i < inner.len() && (#[trigger] inner[i]).key
                    == rest[k - 1].key;
                assert(set[i + 1] == inner[i]);
            }
        }
    }
}

/// A property of a name is advertised.
pub open spec fn advertised(properties: Seq<Field>, name: Seq<char>) -> bool {
    exists|i: int| 0 <= i < properties.len() && (#[trigger] properties[i]).key == name
}

proof fn lemma_advertised(args: Seq<RuntimeParam>, k: int, n: int)
    requires
        0 <= k < n <= args.len(),
    ensures
        advertised(properties_with(args, n), args[k].name),
        args[k].required ==> required_with(args, n).contains(args[k].name),
    decreases n,
{
    let before = properties_with(args, n - 1);
    let now = properties_with(args, n);
    let last = args[n - 1];
    lemma_member_set_keeps(before, last.name, described(last.help));
    if k < n - 1 {
        lemma_advertised(args, k, n - 1);
        let i = choose|i: int| 0 <= i < before.len() && (#[trigger] before[i]).key == args[k].name;
        let j = choose|j: int| 0 <= j < now.len() && (#[trigger] now[j]).key == before[i].key;
        assert(now[j].key == args[k].name);
        if args[k].required {
            let was = required_with(args, n - 1);
            let at = was.index_of(args[k].name);
            assert(required_with(args, n)[at] == args[k].name);
        }
    } else {
        let j = choose|j: int| 0 <= j < now.len() && #[trigger] now[j] == field(
            last.name,
            described(last.help),
        );
        assert(now[j].key == args[k].name);
        if args[k].required {
            assert(required_with(args, n).last() == args[k].name);
        }
    }
}

/// Every declared argument is advertised by `ask`, and those that must be given
/// are advertised as such.
pub proof fn law_declared_arguments_are_advertised(args: Seq<RuntimeParam>, k: int)
    requires
        0 <= k < args.len(),
    ensures
        advertised(properties_with(args, args.len() as int), args[k].name),
        args[k].required ==> required_with(args, args.len() as int).contains(args[k].name),
{
    lemma_advertised(args, k, args.len() as int);
}

/// How `feedback` is advertised.
pub open spec fn feedback_schema() -> Json {
    Json::Object(
        no_fields().push(field("name"@, Json::Str("feedback"@))).push(
            field(
                "description"@,
                Json::Str("Append opaque feedback for a previously returned Huggr trace_id."@),
            ),
        ).push(
            field(
                "inputSchema"@,
                Json::Object(
                    no_fields().push(field("type"@, Json::Str("object"@))).push(
                        field(
                            "properties"@,
                            Json::Object(
                                no_fields().push(
                                    field(
                                        "trace_id"@,
                                        described("Trace id returned by an earlier ask."@),
                                    ),
                                ).push(
                                    field(
                                        "payload"@,
                                        Json::Object(
                                            no_fields().push(
                                                field(
                                                    "description"@,
                                                    Json::Str("Opaque feedback payload."@),
                                                ),
                                            ),
                                        ),
                                    ),
                                ),
                            ),
                        ),
                    ).push(field("required"@, text_array(seq!["trace_id"@]))).push(
                        field("additionalProperties"@, Json::Bool(false)),
                    ),
                ),
            ),
        ),
    )
}

/// How `feedback` is advertised.
pub fn feedback_tool_schema() -> (r: Data)
    ensures
        r@ == feedback_schema(),
{
    let payload = Members::new().with(
        "description",
        Data::string("Opaque feedback payload."),
    ).object();
    let properties = Members::new().with(
        "trace_id",
        describe("Trace id returned by an earlier ask."),
    ).with("payload", payload);
    let input = crate::schema::object_schema(properties, &crate::schema::one("trace_id"));
    Members::new().with("name", Data::string("feedback")).with(
        "description",
        Data::string("Append opaque feedback for a previously returned Huggr trace_id."),
    ).with("inputSchema", input).object()
}

// ----- requests -----
/// Who is serving: the name, version and description that clients are told.
#[derive(Debug)]
pub struct ServerInfo {
    pub name: String,
    pub version: String,
    pub description: String,
}

/// The version that clients are told of a definition.
pub open spec fn shown_version(version: Seq<char>) -> Seq<char> {
    if version.len() == 0 {
        "0.0.0"@
    } else {
        version
    }
}

impl ServerInfo {
    /// Who serves a definition.
    pub fn of_definition(def: &AgentDefinition) -> (r: ServerInfo)
        ensures
            r.name@ == def@.name,
            r.version@ == shown_version(def@.version),
            r.description@ == def@.description,
    {
        let version = if def.agent.version.as_str().is_empty() {
            owned("0.0.0")
        } else {
            def.agent.version.clone()
        };
        ServerInfo {
            name: def.agent.name.clone(),
            version,
            description: def.agent.description.clone(),
        }
    }
}

/// The tools that are served.
#[derive(Clone, Copy, Debug, PartialEq, Eq, Structural)]
pub enum ServedTool {
    Ask,
    Feedback,
}

/// What a message is answered: nothing, a reply, or whatever comes of calling a
/// tool.
#[derive(Debug)]
pub enum Step {
    Silent,
    Reply(Data),
    Call { id: Data, tool: ServedTool, arguments: Data },
}

/// What a [`Step`] denotes.
pub enum Move {
    Silent,
    Reply(Json),
    Call(Json, ServedTool, Json),
}

impl View for Step {
    type V = Move;

    open spec fn view(&self) -> Move {
        match self {
            Step::Silent => Move::Silent,
            Step::Reply(d) => Move::Reply(d@),
            Step::Call { id, tool, arguments } => Move::Call(id@, *tool, arguments@),
        }
    }
}

/// A member of a value, or nothing at all.
pub open spec fn member_or_null(value: Json, key: Seq<char>) -> Json {
    match value.get(key) {
        Some(v) => v,
        None => Json::Null,
    }
}

/// A text member of a value, or no text.
pub open spec fn text_or_empty(value: Json, key: Seq<char>) -> Seq<char> {
    match value.get_str(key) {
        Some(s) => s,
        None => ""@,
    }
}

/// What a request to call a tool is answered.
pub open spec fn call_move(id: Json, params: Json) -> Move {
    let name = text_or_empty(params, "name"@);
    if name == "feedback"@ {
        Move::Call(id, ServedTool::Feedback, member_or_null(params, "arguments"@))
    } else if name == "ask"@ {
        Move::Call(id, ServedTool::Ask, member_or_null(params, "arguments"@))
    } else {
        Move::Reply(error_reply(id, -32602, "unknown tool: "@ + name))
    }
}

/// What a message is answered.
pub open spec fn answer_to(info: &ServerInfo, args: Seq<RuntimeParam>, message: Json) -> Move {
    match message.get("id"@) {
        None => Move::Silent,
        Some(id) => {
            let method = text_or_empty(message, "method"@);
            let params = member_or_null(message, "params"@);
            if method == "initialize"@ {
                Move::Reply(
                    ok_reply(
                        id,
                        initialized(info.name@, info.version@, info.description@, params),
                    ),
                )
            } else if method == "tools/list"@ {
                Move::Reply(
                    ok_reply(
                        id,
                        Json::Object(
                            no_fields().push(
                                field(
                                    "tools"@,
                                    Json::Array(
                                        no_items().push(ask_schema(args)).push(feedback_schema()),
                                    ),
                                ),
                            ),
                        ),
                    ),
                )
            } else if method == "ping"@ {
                Move::Reply(ok_reply(id, Json::Object(no_fields())))
            } else if method == "tools/call"@ {
                call_move(id, params)
            } else {
                Move::Reply(error_reply(id, -32601, "method not found: "@ + method))
            }
        },
    }
}

fn copy_member(value: &Data, key: &str) -> (r: Data)
    ensures
        r@ == member_or_null(value@, key@),
{
    match value.get(key) {
        Some(v) => v.copy(),
        None => Data::null(),
    }
}

fn text_member<'a>(value: &'a Data, key: &str) -> (r: &'a str)
    ensures
        r@ == text_or_empty(value@, key@),
{
    match value.get_str(key) {
        Some(s) => s,
        None => "",
    }
}

fn served_tools(def: Option<&AgentDefinition>) -> (r: Data)
    ensures
        r@ == Json::Object(
            no_fields().push(
                field(
                    "tools"@,
                    Json::Array(
                        no_items().push(ask_schema(declared_args(def))).push(feedback_schema()),
                    ),
                ),
            ),
        ),
{
    let mut tools: Vec<Data> = Vec::new();
    tools.push(ask_tool_schema(def));
    tools.push(feedback_tool_schema());
    assert(crate::json::items_view(tools@) =~= no_items().push(
        ask_schema(declared_args(def)),
    ).push(feedback_schema()));
    Members::new().with("tools", Data::array(tools)).object()
}

/// What a message is answered. One without an identity is a notification and
/// answered nothing.
pub fn handle_message(info: &ServerInfo, def: Option<&AgentDefinition>, message: &Data) -> (r: Step)
    ensures
        r@ == answer_to(info, declared_args(def), message@),
{
    let id = match message.get("id") {
        Some(id) => id,
        None => {
            return Step::Silent;
        },
    };
    let method = text_member(message, "method");
    let params = copy_member(message, "params");
    if same(method, "initialize") {
        Step::Reply(
            ok(
                id,
                initialize_result(
                    info.name.as_str(),
                    info.version.as_str(),
                    info.description.as_str(),
                    &params,
                ),
            ),
        )
    } else if same(method, "tools/list") {
        Step::Reply(ok(id, served_tools(def)))
    } else if same(method, "ping") {
        Step::Reply(ok(id, Members::new().object()))
    } else if same(method, "tools/call") {
        let name = text_member(&params, "name");
        if same(name, "feedback") {
            Step::Call {
                id: id.copy(),
                tool: ServedTool::Feedback,
                arguments: copy_member(&params, "arguments"),
            }
        } else if same(name, "ask") {
            Step::Call {
                id: id.copy(),
                tool: ServedTool::Ask,
                arguments: copy_member(&params, "arguments"),
            }
        } else {
            Step::Reply(rpc_error(id, -32602, cat("unknown tool: ", name).as_str()))
        }
    } else {
        Step::Reply(rpc_error(id, -32601, cat("method not found: ", method).as_str()))
    }
}

/// Every message is answered under its own identity, and one without an
/// identity is answered nothing.
pub proof fn law_replies_carry_the_identity(
    info: &ServerInfo,
    args: Seq<RuntimeParam>,
    message: Json,
)
    ensures
        match answer_to(info, args, message) {
            Move::Silent => message.get("id"@) is None,
            Move::Reply(reply) => message.get("id"@) is Some && reply.get("id"@) == message.get(
                "id"@,
            ),
            Move::Call(id, _, _) => message.get("id"@) == Some(id),
        },
{
    if let Some(id) = message.get("id"@) {
        assert forall|result: Json| (#[trigger] ok_reply(id, result)).get("id"@) == Some(id) by {
            lemma_identity(id, field("result"@, result));
        }
        assert forall|code: int, m: Seq<char>| (#[trigger] error_reply(id, code, m)).get("id"@)
            == Some(id) by {
            lemma_identity(
                id,
                field(
                    "error"@,
                    Json::Object(
                        no_fields().push(field("code"@, Json::Int(code))).push(
                            field("message"@, Json::Str(m)),
                        ),
                    ),
                ),
            );
        }
    }
}

proof fn lemma_identity(id: Json, last: Field)
    ensures
        Json::Object(
            no_fields().push(field("jsonrpc"@, Json::Str("2.0"@))).push(field("id"@, id)).push(
                last,
            ),
        ).get("id"@) == Some(id),
{
    reveal_strlit("jsonrpc");
    reveal_strlit("id");
    assert("jsonrpc"@.len() == 7 && "id"@.len() == 2);
    let fields = no_fields().push(field("jsonrpc"@, Json::Str("2.0"@))).push(
        field("id"@, id),
    ).push(last);
    assert(fields[0].key == "jsonrpc"@);
    assert(fields[1] == field("id"@, id));
    reveal_with_fuel(Json::member_from, 3);
}

// ----- calling -----
/// The arguments of `ask`, as far as every `ask` takes them.
#[derive(Debug)]
pub struct AskArgs {
    pub question: String,
    pub trace_id: Option<String>,
    pub blobs: Vec<BlobHandle>,
    pub skills: Vec<String>,
}

/// One question to an agent.
#[derive(Debug)]
pub struct Ask {
    pub question: String,
    pub trace_id: Option<TraceId>,
    pub blobs: Vec<BlobHandle>,
    pub skills: Vec<String>,
}

/// The address of stored content: `sha256:` and the digest in hexadecimal.
pub open spec fn content_address(s: Seq<char>) -> bool {
    &&& begins_with(s, "sha256:"@)
    &&& s.len() == "sha256:"@.len() + 64
    &&& forall|i: int|
        "sha256:"@.len() <= i < s.len() ==> is_digit(#[trigger] s[i]) || 'a' <= s[i] <= 'f'
}

/// Tells whether a text is the address of stored content.
pub fn is_content_address(s: &str) -> (r: bool)
    ensures
        r == content_address(s@),
{
    proof {
        reveal_strlit("sha256:");
    }
    if !starts_with(s, "sha256:") {
        return false;
    }
    let v = chars_of(s);
    if v.len() != 71 {
        return false;
    }
    let mut i: usize = 7;
    while i < v.len()
        invariant
            7 <= i <= v@.len(),
            v@ == s@,
            v@.len() == 71,
            "sha256:"@.len() == 7,
            forall|k: int| 7 <= k < i ==> is_digit(#[trigger] v@[k]) || 'a' <= v@[k] <= 'f',
        decreases v.len() - i,
    {
        let c = v[i];
        if !(digit(c) || ('a' <= c && c <= 'f')) {
            assert(!is_digit(s@[i as int]) && !('a' <= s@[i as int] <= 'f'));
            return false;
        }
        i = i + 1;
    }
    true
}

/// Why a caller from outside may not hand in a file, if it may not: there are
/// no paths that it could name, and an address has to be one.
pub open spec fn blob_refusal(handle: BlobHandle) -> Option<Seq<char>> {
    match handle.blob_ref {
        BlobRef::Bytes { .. } => None,
        BlobRef::Path { path } => Some("path `"@ + path@ + "` is not accepted"@),
        BlobRef::Sha256 { sha256 } => if content_address(sha256@) {
            None
        } else {
            Some("`"@ + sha256@ + "` is not a content address"@)
        },
    }
}

/// The refusal of the first file, from index `i` on, that is refused.
pub open spec fn blobs_refusal(blobs: Seq<BlobHandle>, i: int) -> Option<Seq<char>>
    decreases blobs.len() - i,
{
    if i < 0 || i >= blobs.len() {
        None
    } else {
        match blob_refusal(blobs[i]) {
            Some(e) => Some(e),
            None => blobs_refusal(blobs, i + 1),
        }
    }
}

/// Judges the files that a caller from outside hands in: bytes and the
/// addresses of stored content are taken, and paths are not.
pub fn model_blobs(blobs: &Vec<BlobHandle>) -> (r: Result<(), String>)
    ensures
        match r {
            Ok(_) => blobs_refusal(blobs@, 0) is None,
            Err(e) => blobs_refusal(blobs@, 0) == Some(e@),
        },
{
    let mut i: usize = 0;
    while i < blobs.len()
        invariant
            i <= blobs@.len(),
            blobs_refusal(blobs@, 0) == blobs_refusal(blobs@, i as int),
        decreases blobs.len() - i,
    {
        match &blobs[i].blob_ref {
            BlobRef::Bytes { base64: _ } => {},
            BlobRef::Path { path } => {
                return Err(cat3("path `", path.as_str(), "` is not accepted"));
            },
            BlobRef::Sha256 { sha256 } => {
                if !is_content_address(sha256.as_str()) {
                    return Err(cat3("`", sha256.as_str(), "` is not a content address"));
                }
            },
        }
        i = i + 1;
    }
    Ok(())
}

/// The question that arguments stand for, once the blobs and the trace id that
/// they name have been judged.
pub fn ask_from_args(
    args: AskArgs,
    blobs: Result<(), String>,
    trace_id: Option<Result<TraceId, String>>,
) -> (r: Result<Ask, String>)
    ensures
        match (blobs, trace_id) {
            (Err(e), _) => r matches Err(m) && m@ == "invalid `ask` blobs: "@ + e@,
            (Ok(_), Some(Err(e))) => r matches Err(m) && m@ == "invalid `trace_id`: "@ + e@,
            (Ok(_), Some(Ok(id))) => r == Ok::<Ask, String>(
                Ask {
                    question: args.question,
                    trace_id: Some(id),
                    blobs: args.blobs,
                    skills: args.skills,
                },
            ),
            (Ok(_), None) => r == Ok::<Ask, String>(
                Ask {
                    question: args.question,
                    trace_id: None,
                    blobs: args.blobs,
                    skills: args.skills,
                },
            ),
        },
{
    if let Err(e) = blobs {
        return Err(cat("invalid `ask` blobs: ", e.as_str()));
    }
    let id = match trace_id {
        Some(Ok(id)) => Some(id),
        Some(Err(e)) => {
            return Err(cat("invalid `trace_id`: ", e.as_str()));
        },
        None => None,
    };
    Ok(Ask { question: args.question, trace_id: id, blobs: args.blobs, skills: args.skills })
}

/// The names that every `ask` takes, which stand for no declared argument.
pub open spec fn is_own_name(name: Seq<char>) -> bool {
    name == "question"@ || name == "trace_id"@ || name == "blobs"@ || name == "skills"@
}

/// What the arguments of `ask` give a declared one.
pub open spec fn given_for(arguments: Json, name: Seq<char>) -> Option<Json> {
    if is_own_name(name) {
        None
    } else {
        arguments.get(name)
    }
}

/// The values of the first `n` declared arguments, or what stops them.
pub open spec fn values_given(args: Seq<RuntimeParam>, arguments: Json, n: int) -> Result<
    Map<Seq<char>, Seq<char>>,
    Seq<char>,
>
    decreases n,
{
    if n <= 0 {
        Ok(Map::empty())
    } else {
        match values_given(args, arguments, n - 1) {
            Err(e) => Err(e),
            Ok(values) => match given_for(arguments, args[n - 1].name) {
                None => Ok(values),
                Some(Json::Str(s)) => Ok(values.insert(args[n - 1].name, s)),
                Some(_) => Err(
                    "runtime argument `"@ + args[n - 1].name + "` must be a string"@,
                ),
            },
        }
    }
}

proof fn lemma_values_stop(args: Seq<RuntimeParam>, arguments: Json, i: int, n: int)
    requires
        0 <= i <= n,
        values_given(args, arguments, i) is Err,
    ensures
        values_given(args, arguments, n) == values_given(args, arguments, i),
    decreases n - i,
{
    if i < n {
        lemma_values_stop(args, arguments, i, n - 1);
    }
}

fn own_name(name: &str) -> (r: bool)
    ensures
        r == is_own_name(name@),
{
    same(name, "question") || same(name, "trace_id") || same(name, "blobs") || same(name, "skills")
}

/// The values that the arguments of `ask` give the declared ones, all of which
/// must be texts.
pub fn runtime_values_from_mcp(def: &AgentDefinition, arguments: &Data) -> (r: Result<
    RuntimeValues,
    String,
>)
    ensures
        match r {
            Ok(v) => values_given(def@.args, arguments@, def@.args.len() as int) == Ok::<
                Map<Seq<char>, Seq<char>>,
                Seq<char>,
            >(rows(v)),
            Err(e) => values_given(def@.args, arguments@, def@.args.len() as int) == Err::<
                Map<Seq<char>, Seq<char>>,
                Seq<char>,
            >(e@),
        },
{
    let ghost args = def@.args;
    let mut values: RuntimeValues = Table::new();
    assert(rows(values) =~= Map::<Seq<char>, Seq<char>>::empty());
    let mut i: usize = 0;
    while i < def.runtime.args.len()
        invariant
            i <= def.runtime.args@.len(),
            args == def@.args,
            args.len() == def.runtime.args@.len(),
            values_given(args, arguments@, i as int) == Ok::<Map<Seq<char>, Seq<char>>, Seq<char>>(
                rows(values),
            ),
        decreases def.runtime.args.len() - i,
    {
        assert(args[i as int] == def.runtime.args@[i as int]@);
        let name = def.runtime.args[i].name.as_str();
        let given = if own_name(name) {
            None
        } else {
            arguments.get(name)
        };
        if let Some(value) = given {
            match value.as_str() {
                Some(s) => {
                    put(&mut values, name, owned(s));
                },
                None => {
                    proof {
                        lemma_values_stop(args, arguments@, i + 1, args.len() as int);
                    }
                    return Err(cat3("runtime argument `", name, "` must be a string"));
                },
            }
        }
        i = i + 1;
    }
    Ok(values)
}

/// What an `ask` with these arguments is put to: the definition with the values
/// that they give, or what stops it.
pub open spec fn definition_asked(
    def: Definition,
    parse: Option<Seq<char>>,
    arguments: Json,
    env: Map<Seq<char>, Seq<char>>,
    cwd: Seq<char>,
) -> Result<Definition, Seq<char>> {
    match parse {
        Some(e) => Err("invalid `ask` arguments: "@ + e),
        None => match values_given(def.args, arguments, def.args.len() as int) {
            Err(e) => Err(e),
            Ok(values) => match applied(def, def.args, 0, values, env, cwd) {
                (d, None) => Ok(d),
                (_, Some(why)) => Err(arg_refusal_text(why)),
            },
        },
    }
}

/// What a parse of arguments failed with.
pub open spec fn parse_failure(parsed: Result<AskArgs, String>) -> Option<Seq<char>> {
    match parsed {
        Ok(_) => None,
        Err(e) => Some(e@),
    }
}

/// The definition that an `ask` with these arguments is put to, with what every
/// `ask` takes; or what it is refused with.
pub fn tools_call_definition(
    def: &AgentDefinition,
    arguments: &Data,
    parsed: Result<AskArgs, String>,
    env: &Environment,
    cwd: &str,
) -> (r: Result<(AgentDefinition, AskArgs), String>)
    ensures
        match definition_asked(def@, parse_failure(parsed), arguments@, env@, cwd@) {
            Err(e) => r matches Err(m) && m@ == e,
            Ok(d) => r matches Ok((asked, args)) && asked@ == d && parsed == Ok::<AskArgs, String>(
                args,
            ),
        },
{
    let args = match parsed {
        Ok(a) => a,
        Err(e) => {
            return Err(cat("invalid `ask` arguments: ", e.as_str()));
        },
    };
    let values = match runtime_values_from_mcp(def, arguments) {
        Ok(v) => v,
        Err(e) => {
            return Err(e);
        },
    };
    let mut asked = def.duplicate();
    match apply_runtime_values(&mut asked, &values, env, cwd) {
        Ok(_) => Ok((asked, args)),
        Err(e) => Err(e.message()),
    }
}

/// The text that is shown of an answer.
pub open spec fn shown(response: serde_json::Value) -> Seq<char> {
    match text_in(response, "error"@) {
        Some(t) => t,
        None => match text_in(response, "text"@) {
            Some(t) => t,
            None => match payload_member(response, "response"@) {
                Some(value) => match payload_str(value) {
                    Some(t) => t,
                    None => match text_in(value, "summary"@) {
                        Some(t) => t,
                        None => payload_text(value),
                    },
                },
                None => payload_text(response),
            },
        },
    }
}

/// A text member of a value.
pub open spec fn text_in(value: serde_json::Value, key: Seq<char>) -> Option<Seq<char>> {
    match payload_member(value, key) {
        Some(v) => payload_str(v),
        None => None,
    }
}

fn get_text(value: &serde_json::Value, key: &str) -> (r: Option<String>)
    ensures
        opt_view(r) == text_in(*value, key@),
{
    match json_member(value, key) {
        Some(v) => match json_str(&v) {
            Some(s) => Some(owned(s)),
            None => None,
        },
        None => None,
    }
}

/// The text that is shown of an answer: its error, its text, the text or
/// summary of its response, or else all of it.
pub fn answer_text(response: &serde_json::Value) -> (r: String)
    ensures
        r@ == shown(*response),
{
    if let Some(e) = get_text(response, "error") {
        return e;
    }
    if let Some(t) = get_text(response, "text") {
        return t;
    }
    if let Some(value) = json_member(response, "response") {
        if let Some(t) = json_str(&value) {
            return owned(t);
        }
        if let Some(s) = get_text(&value, "summary") {
            return s;
        }
        return json_text(&value);
    }
    json_text(response)
}

/// The result of a tool that was called.
pub open spec fn tool_result(text: Seq<char>, structured: Json) -> Json {
    Json::Object(
        no_fields().push(
            field(
                "content"@,
                Json::Array(
                    no_items().push(
                        Json::Object(
                            no_fields().push(field("type"@, Json::Str("text"@))).push(
                                field("text"@, Json::Str(text)),
                            ),
                        ),
                    ),
                ),
            ),
        ).push(field("structuredContent"@, structured)).push(field("isError"@, Json::Bool(false))),
    )
}

/// What a call came to: an answer of the agent, whatever its status, or
/// feedback that was recorded.
#[derive(Debug)]
pub enum CallOutcome {
    Answered { response: serde_json::Value, structured: Data },
    Recorded { structured: Data },
}

/// The result that a call is answered.
pub open spec fn call_result(outcome: CallOutcome) -> Json {
    match outcome {
        CallOutcome::Answered { response, structured } => tool_result(shown(response), structured@),
        CallOutcome::Recorded { structured } => tool_result("feedback recorded"@, structured@),
    }
}

fn write_result(text: &str, structured: Data) -> (r: Data)
    ensures
        r@ == tool_result(text@, structured@),
{
    let block: Data = Members::new().with("type", Data::string("text")).with(
        "text",
        Data::string(text),
    ).object();
    let mut blocks: Vec<Data> = Vec::new();
    let ghost shown_block = block@;
    blocks.push(block);
    assert(crate::json::items_view(blocks@) =~= no_items().push(shown_block));
    Members::new().with("content", Data::array(blocks)).with("structuredContent", structured).with(
        "isError",
        Data::boolean(false),
    ).object()
}

/// The reply to a call. A run that failed is an answer like any other; only a
/// call that came to no answer is an error.
pub fn tools_call(id: &Data, outcome: Result<CallOutcome, String>) -> (r: Data)
    ensures
        match outcome {
            Ok(o) => r@ == ok_reply(id@, call_result(o)),
            Err(e) => r@ == error_reply(id@, -32602, e@),
        },
{
    match outcome {
        Ok(CallOutcome::Answered { response, structured }) => {
            let text = answer_text(&response);
            ok(id, write_result(text.as_str(), structured))
        },
        Ok(CallOutcome::Recorded { structured }) => {
            ok(id, write_result("feedback recorded", structured))
        },
        Err(e) => rpc_error(id, -32602, e.as_str()),
    }
}

/// What feedback with arguments that cannot be read is refused with.
pub fn invalid_feedback(e: &str) -> (r: String)
    ensures
        r@ == "invalid `feedback` arguments: "@ + e@,
{
    cat("invalid `feedback` arguments: ", e)
}

/// What feedback on a trace id that cannot be one is refused with.
pub fn invalid_trace_id(e: &str) -> (r: String)
    ensures
        r@ == "invalid `trace_id`: "@ + e@,
{
    cat("invalid `trace_id`: ", e)
}

// ----- what requests come to -----
proof fn lemma_ok_reply(id: Json, result: Json)
    ensures
        ok_reply(id, result).get_str("jsonrpc"@) == Some("2.0"@),
        ok_reply(id, result).get("id"@) == Some(id),
        ok_reply(id, result).get("result"@) == Some(result),
        ok_reply(id, result).get("error"@) is None,
{
    reveal_strlit("jsonrpc");
    reveal_strlit("id");
    reveal_strlit("result");
    assert("jsonrpc"@.len() == 7);
    assert("id"@.len() == 2);
    assert("result"@.len() == 6);
    let fs = ok_reply(id, result)->Object_0;
    assert(fs[0].key == "jsonrpc"@);
    assert(fs[1].key == "id"@);
    assert(fs[2].key == "result"@);
    law_the_first_member_of_a_name_counts(fs, 0);
    law_the_first_member_of_a_name_counts(fs, 1);
    law_the_first_member_of_a_name_counts(fs, 2);
    reveal_strlit("error");
    assert("error"@.len() == 5);
    crate::json::law_absent_members_are_not_found(ok_reply(id, result), "error"@);
}

proof fn lemma_error_reply(id: Json, code: int, message: Seq<char>)
    ensures
        ({
            let r = error_reply(id, code, message);
            &&& r.get_str("jsonrpc"@) == Some("2.0"@)
            &&& r.get("id"@) == Some(id)
            &&& r.get("result"@) is None
            &&& r.get("error"@) matches Some(e) && {
                &&& e.get("code"@) == Some(Json::Int(code))
                &&& e.get_str("message"@) == Some(message)
            }
        }),
{
    reveal_strlit("jsonrpc");
    reveal_strlit("id");
    reveal_strlit("error");
    assert("jsonrpc"@.len() == 7);
    assert("id"@.len() == 2);
    assert("error"@.len() == 5);
    let fs = error_reply(id, code, message)->Object_0;
    assert(fs[0].key == "jsonrpc"@);
    assert(fs[1].key == "id"@);
    assert(fs[2].key == "error"@);
    law_the_first_member_of_a_name_counts(fs, 0);
    law_the_first_member_of_a_name_counts(fs, 1);
    law_the_first_member_of_a_name_counts(fs, 2);
    let inner = fs[2].value;
    reveal_strlit("code");
    reveal_strlit("message");
    assert("code"@.len() == 4);
    assert("message"@.len() == 7);
    let gs = inner->Object_0;
    assert(gs[0].key == "code"@);
    assert(gs[1].key == "message"@);
    law_the_first_member_of_a_name_counts(gs, 0);
    law_the_first_member_of_a_name_counts(gs, 1);
    reveal_strlit("result");
    assert("result"@.len() == 6);
    crate::json::law_absent_members_are_not_found(error_reply(id, code, message), "result"@);
}

/// A reply with a result carries the identity and the result and no error; one
/// with an error carries the identity, the code and the words and no result.
pub proof fn law_replies_say_one_thing(id: Json, result: Json, code: int, message: Seq<char>)
    ensures
        ok_reply(id, result).get("id"@) == Some(id),
        ok_reply(id, result).get("result"@) == Some(result),
        ok_reply(id, result).get("error"@) is None,
        ok_reply(id, result).get_str("jsonrpc"@) == Some("2.0"@),
        error_reply(id, code, message).get("id"@) == Some(id),
        error_reply(id, code, message).get("result"@) is None,
        error_reply(id, code, message).get_str("jsonrpc"@) == Some("2.0"@),
        error_reply(id, code, message).get("error"@) matches Some(e) && {
            &&& e.get("code"@) == Some(Json::Int(code))
            &&& e.get_str("message"@) == Some(message)
        },
{
    lemma_ok_reply(id, result);
    lemma_error_reply(id, code, message);
}

proof fn lemma_methods()
    ensures
        "initialize"@ != "tools/list"@,
        "initialize"@ != "ping"@,
        "initialize"@ != "tools/call"@,
        "tools/list"@ != "ping"@,
        "tools/list"@ != "tools/call"@,
        "ping"@ != "tools/call"@,
        "ask"@ != "feedback"@,
        ""@ != "ask"@,
        ""@ != "feedback"@,
        ""@ != "initialize"@,
        ""@ != "tools/list"@,
        ""@ != "ping"@,
        ""@ != "tools/call"@,
{
    reveal_strlit("initialize");
    reveal_strlit("tools/list");
    reveal_strlit("ping");
    reveal_strlit("tools/call");
    reveal_strlit("ask");
    reveal_strlit("feedback");
    assert("initialize"@.len() == 10);
    assert("tools/list"@.len() == 10);
    assert("ping"@.len() == 4);
    assert("tools/call"@.len() == 10);
    assert("ask"@.len() == 3);
    assert("feedback"@.len() == 8);
    assert("initialize"@[0] != "tools/list"@[0]);
    assert("initialize"@[0] != "tools/call"@[0]);
    assert("tools/list"@[6] != "tools/call"@[6]);
    reveal_strlit("");
    assert(""@.len() == 0);
}

/// A request to call a tool leads to the tool that it names, with the arguments
/// that it gives: `feedback` where that is the name and `ask` where that is, and
/// neither otherwise; another name is answered with an error that tells it.
pub proof fn law_calls_lead_to_the_tool_named(
    info: &ServerInfo,
    args: Seq<RuntimeParam>,
    message: Json,
    id: Json,
    params: Json,
    arguments: Json,
)
    requires
        message.get("id"@) == Some(id),
        message.get_str("method"@) == Some("tools/call"@),
        message.get("params"@) == Some(params),
        params.get("arguments"@) is None ==> arguments == Json::Null,
        params.get("arguments"@) is Some ==> params.get("arguments"@) == Some(arguments),
    ensures
        ({
            let answer = answer_to(info, args, message);
            let name = params.get_str("name"@);
            &&& answer == Move::Call(id, ServedTool::Feedback, arguments) <==> name == Some(
                "feedback"@,
            )
            &&& answer == Move::Call(id, ServedTool::Ask, arguments) <==> name == Some("ask"@)
            &&& answer is Call <==> name == Some("feedback"@) || name == Some("ask"@)
            &&& !(answer is Call) ==> (answer matches Move::Reply(r) && r.get("id"@) == Some(id) && (
            r.get("error"@) matches Some(e) && e.get("code"@) == Some(Json::Int(-32602)) && (name
                is Some ==> e.get_str("message"@) == Some("unknown tool: "@ + name->0))))
        }),
{
    lemma_methods();
    let name = text_or_empty(params, "name"@);
    lemma_error_reply(id, -32602, "unknown tool: "@ + name);
    assert(params.get_str("name"@) is None ==> name == ""@);
}

/// Both tools that a client is told of can be called: whatever the list of tools
/// names, a request that names it leads to a call.
pub proof fn law_advertised_tools_can_be_called(
    info: &ServerInfo,
    args: Seq<RuntimeParam>,
    list: Json,
    call: Json,
    params: Json,
    i: int,
)
    requires
        list.get("id"@) is Some,
        list.get_str("method"@) == Some("tools/list"@),
        call.get("id"@) is Some,
        call.get_str("method"@) == Some("tools/call"@),
        call.get("params"@) == Some(params),
    ensures
        answer_to(info, args, list) matches Move::Reply(r) && (r.get("result"@) matches Some(result)
            && (result.get("tools"@) matches Some(Json::Array(tools)) && {
            &&& tools.len() == 2
            &&& tools[0].get_str("name"@) == Some("ask"@)
            &&& tools[1].get_str("name"@) == Some("feedback"@)
            &&& 0 <= i < tools.len() && params.get_str("name"@) == tools[i].get_str("name"@)
                ==> answer_to(info, args, call) is Call
        })),
{
    lemma_methods();
    let id = list.get("id"@)->0;
    let result = Json::Object(
        no_fields().push(
            field(
                "tools"@,
                Json::Array(no_items().push(ask_schema(args)).push(feedback_schema())),
            ),
        ),
    );
    lemma_ok_reply(id, result);
    law_the_first_member_of_a_name_counts(result->Object_0, 0);
    assert(result->Object_0[0].key == "tools"@);
    let tools = result->Object_0[0].value->Array_0;
    assert(tools[0] == ask_schema(args));
    assert(tools[1] == feedback_schema());
    law_the_first_member_of_a_name_counts(tools[0]->Object_0, 0);
    law_the_first_member_of_a_name_counts(tools[1]->Object_0, 0);
    assert(tools[0]->Object_0[0].key == "name"@);
    assert(tools[1]->Object_0[0].key == "name"@);
}

/// A client that starts a session is told who serves it, by name and version, in
/// the protocol version that it asked for, or in the default one where it asked
/// for none.
pub proof fn law_clients_are_told_who_serves(
    info: &ServerInfo,
    args: Seq<RuntimeParam>,
    message: Json,
)
    requires
        message.get("id"@) is Some,
        message.get_str("method"@) == Some("initialize"@),
    ensures
        answer_to(info, args, message) matches Move::Reply(r) && (r.get("result"@) matches Some(
            result,
        ) && {
            &&& result.get("serverInfo"@) matches Some(who) && who.get_str("name"@) == Some(
                info.name@,
            ) && who.get_str("version"@) == Some(info.version@)
            &&& result.get_str("instructions"@) == Some(info.description@)
            &&& message.get("params"@) matches Some(params) ==> (params.get_str(
                "protocolVersion"@,
            ) matches Some(p) ==> result.get_str("protocolVersion"@) == Some(p))
            &&& (message.get("params"@) matches Some(params) ==> params.get_str(
                "protocolVersion"@,
            ) is None) ==> result.get_str("protocolVersion"@) == Some("2024-11-05"@)
            &&& result.get("capabilities"@) matches Some(c) && c.get("tools"@) is Some
        }),
{
    lemma_methods();
    let id = message.get("id"@)->0;
    let params = member_or_null(message, "params"@);
    let result = initialized(info.name@, info.version@, info.description@, params);
    lemma_ok_reply(id, result);
    reveal_strlit("protocolVersion");
    reveal_strlit("capabilities");
    reveal_strlit("serverInfo");
    reveal_strlit("instructions");
    assert("protocolVersion"@.len() == 15);
    assert("capabilities"@.len() == 12);
    assert("serverInfo"@.len() == 10);
    assert("instructions"@.len() == 12);
    assert("capabilities"@[0] != "instructions"@[0]);
    let fs = result->Object_0;
    assert(fs[0].key == "protocolVersion"@);
    assert(fs[1].key == "capabilities"@);
    assert(fs[2].key == "serverInfo"@);
    assert(fs[3].key == "instructions"@);
    law_the_first_member_of_a_name_counts(fs, 0);
    law_the_first_member_of_a_name_counts(fs, 1);
    law_the_first_member_of_a_name_counts(fs, 2);
    law_the_first_member_of_a_name_counts(fs, 3);
    let who = fs[2].value;
    reveal_strlit("name");
    reveal_strlit("version");
    assert("name"@.len() == 4);
    assert("version"@.len() == 7);
    let gs = who->Object_0;
    assert(gs[0].key == "name"@);
    assert(gs[1].key == "version"@);
    law_the_first_member_of_a_name_counts(gs, 0);
    law_the_first_member_of_a_name_counts(gs, 1);
    let offers = fs[1].value;
    law_the_first_member_of_a_name_counts(offers->Object_0, 0);
    assert(offers->Object_0[0].key == "tools"@);
    if message.get("params"@) is None {
        assert(params == Json::Null);
        assert(params.get_str("protocolVersion"@) is None);
    }
}

/// A ping is answered with an empty result; a method that is not known is an
/// error that tells it; and a notification is answered nothing, whatever it says.
pub proof fn law_other_requests_are_answered(
    info: &ServerInfo,
    args: Seq<RuntimeParam>,
    message: Json,
)
    ensures
        message.get("id"@) is None <==> answer_to(info, args, message) is Silent,
        message.get("id"@) is Some && message.get_str("method"@) == Some("ping"@) ==> (answer_to(
            info,
            args,
            message,
        ) matches Move::Reply(r) && r.get("result"@) == Some(Json::Object(Seq::empty()))),
        message.get("id"@) is Some ==> (message.get_str("method"@) matches Some(m) ==> (m
            != "initialize"@ && m != "tools/list"@ && m != "ping"@ && m != "tools/call"@ ==> (
        answer_to(info, args, message) matches Move::Reply(r) && (r.get("error"@) matches Some(e)
            && e.get("code"@) == Some(Json::Int(-32601)) && e.get_str("message"@) == Some(
            "method not found: "@ + m,
        ))))),
{
    lemma_methods();
    if let Some(id) = message.get("id"@) {
        lemma_ok_reply(id, Json::Object(no_fields()));
        let m = text_or_empty(message, "method"@);
        lemma_error_reply(id, -32601, "method not found: "@ + m);
    }
}

/// What a called tool came to is told as one text, with the value itself beside
/// it, and as no error, whatever the status of the answer.
pub proof fn law_results_are_told_with_their_value(text: Seq<char>, structured: Json)
    ensures
        ({
            let r = tool_result(text, structured);
            &&& r.get("structuredContent"@) == Some(structured)
            &&& r.get_bool("isError"@) == Some(false)
            &&& r.get("content"@) matches Some(Json::Array(blocks)) && {
                &&& blocks.len() == 1
                &&& blocks[0].get_str("type"@) == Some("text"@)
                &&& blocks[0].get_str("text"@) == Some(text)
            }
        }),
{
    reveal_strlit("content");
    reveal_strlit("structuredContent");
    reveal_strlit("isError");
    assert("content"@.len() == 7);
    assert("structuredContent"@.len() == 17);
    assert("isError"@.len() == 7);
    assert("content"@[0] != "isError"@[0]);
    let fs = tool_result(text, structured)->Object_0;
    assert(fs[0].key == "content"@);
    assert(fs[1].key == "structuredContent"@);
    assert(fs[2].key == "isError"@);
    law_the_first_member_of_a_name_counts(fs, 0);
    law_the_first_member_of_a_name_counts(fs, 1);
    law_the_first_member_of_a_name_counts(fs, 2);
    let blocks = fs[0].value->Array_0;
    let block = blocks[0];
    reveal_strlit("type");
    reveal_strlit("text");
    assert("type"@.len() == 4);
    assert("text"@.len() == 4);
    assert("type"@[1] != "text"@[1]);
    let gs = block->Object_0;
    assert(gs[0].key == "type"@);
    assert(gs[1].key == "text"@);
    law_the_first_member_of_a_name_counts(gs, 0);
    law_the_first_member_of_a_name_counts(gs, 1);
}

/// The text that is told of an answer: its error where it has one; else its text;
/// else its response, if that is a text, or the summary in it, or all of it; and
/// where it has none of these, the whole answer.
pub proof fn law_answers_are_told_by_what_they_hold(response: serde_json::Value)
    ensures
        payload_member(response, "error"@) matches Some(v) ==> (payload_str(v) matches Some(t)
            ==> shown(response) == t),
        (payload_member(response, "error"@) matches Some(v) ==> payload_str(v) is None) ==> {
            &&& payload_member(response, "text"@) matches Some(v) ==> (payload_str(v) matches Some(
                t,
            ) ==> shown(response) == t)
            &&& (payload_member(response, "text"@) matches Some(v) ==> payload_str(v) is None)
                ==> {
                &&& payload_member(response, "response"@) matches Some(v) ==> {
                    &&& payload_str(v) matches Some(t) ==> shown(response) == t
                    &&& payload_str(v) is None ==> (payload_member(v, "summary"@) matches Some(s)
                        ==> (payload_str(s) matches Some(t) ==> shown(response) == t))
                    &&& payload_str(v) is None && payload_member(v, "summary"@) is None ==> shown(
                        response,
                    ) == payload_text(v)
                }
                &&& payload_member(response, "response"@) is None ==> shown(response)
                    == payload_text(response)
            }
        },
{
}

proof fn lemma_values_given(args: Seq<RuntimeParam>, arguments: Json, n: int, k: Seq<char>)
    requires
        0 <= n <= args.len(),
    ensures
        values_given(args, arguments, n) matches Ok(values) ==> {
            &&& values.dom().contains(k) <==> !is_own_name(k) && arguments.get_str(k) is Some
                && exists|i: int| 0 <= i < n && (#[trigger] args[i]).name == k
            &&& values.dom().contains(k) ==> arguments.get_str(k) == Some(values[k])
        },
    decreases n,
{
    if n > 0 {
        lemma_values_given(args, arguments, n - 1, k);
        if let Ok(values) = values_given(args, arguments, n) {
            let before = values_given(args, arguments, n - 1)->Ok_0;
            let name = args[n - 1].name;
            if k != name {
                if exists|i: int| 0 <= i < n && (#[trigger] args[i]).name == k {
                    let i = choose|i: int| 0 <= i < n && (#[trigger] args[i]).name == k;
                    assert(i < n - 1);
                }
            } else {
                assert(args[n - 1].name == k);
            }
        }
    }
}

/// The values that an `ask` gives are exactly the texts among its arguments that
/// stand under the name of a declared one, each as it was given; what every `ask`
/// takes is never taken for a declared argument.
pub proof fn law_given_values_are_the_declared_texts(
    args: Seq<RuntimeParam>,
    arguments: Json,
    k: Seq<char>,
)
    ensures
        values_given(args, arguments, args.len() as int) matches Ok(values) ==> {
            &&& values.dom().contains(k) <==> {
                &&& k != "question"@ && k != "trace_id"@ && k != "blobs"@ && k != "skills"@
                &&& arguments.get_str(k) is Some
                &&& exists|i: int| 0 <= i < args.len() && (#[trigger] args[i]).name == k
            }
            &&& values.dom().contains(k) ==> arguments.get_str(k) == Some(values[k])
        },
{
    lemma_values_given(args, arguments, args.len() as int, k);
}

proof fn lemma_blobs_refusal(blobs: Seq<BlobHandle>, i: int)
    requires
        0 <= i <= blobs.len(),
    ensures
        blobs_refusal(blobs, i) is None <==> forall|k: int|
            i <= k < blobs.len() ==> blob_refusal(#[trigger] blobs[k]) is None,
    decreases blobs.len() - i,
{
    if i < blobs.len() {
        lemma_blobs_refusal(blobs, i + 1);
    }
}

/// The files that a caller from outside hands in are taken exactly where each is
/// bytes or the address of stored content: never where one is a path.
pub proof fn law_no_path_comes_from_outside(blobs: Seq<BlobHandle>)
    ensures
        blobs_refusal(blobs, 0) is None <==> forall|k: int|
            0 <= k < blobs.len() ==> match (#[trigger] blobs[k]).blob_ref {
                BlobRef::Bytes { .. } => true,
                BlobRef::Path { .. } => false,
                BlobRef::Sha256 { sha256 } => content_address(sha256@),
            },
{
    lemma_blobs_refusal(blobs, 0);
    if blobs_refusal(blobs, 0) is None {
        assert forall|k: int| 0 <= k < blobs.len() implies match (#[trigger] blobs[k]).blob_ref {
            BlobRef::Bytes { .. } => true,
            BlobRef::Path { .. } => false,
            BlobRef::Sha256 { sha256 } => content_address(sha256@),
        } by {
            assert(blob_refusal(blobs[k]) is None);
        }
    }
}

} // verus!
