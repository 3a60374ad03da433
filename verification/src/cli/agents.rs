//! The agents that can be handed part of a coding task, as tools.
use vstd::prelude::*;

use crate::json::{field, no_fields, Data, Json, Members};
use crate::schema::{text_array, Schema, ToolSchema};
use crate::text::{owned, same, views};

verus! {

pub const TASK_DESCRIPTION: &'static str = "Delegate a self-contained sub-task to a child agent. It runs with its own turn loop and the same tools, and returns a text digest. Use for focused work you want handled end-to-end (e.g. 'find and summarize all TODOs').";
pub const EXPLORER_DESCRIPTION: &'static str = "Inspect repo structure and return findings with file references. Default tools: repo_files, repo_search, repo_read, git_status, git_log, package_metadata.";
pub const IMPLEMENTER_DESCRIPTION: &'static str = "Make a focused implementation attempt and return a concise diff summary. Default tools include repo_read, repo_search, fs_read, fs_write, patch_apply, cargo_verify, git_diff, git_status.";
pub const REVIEWER_DESCRIPTION: &'static str = "Review the final diff and return findings with file references. Default tools: repo_read, repo_search, git_diff, git_status, cargo_verify.";
pub const TEST_FIXER_DESCRIPTION: &'static str = "Investigate failing verification output, patch the likely cause, and return what changed. Default tools include repo_read, repo_search, fs_read, fs_write, patch_apply, cargo_verify, git_diff.";
pub const OVERRIDE_DESCRIPTION: &'static str = "Optional override allowlist. Omit to use this subagent's constrained default tools.";

pub const TIER_DESCRIPTION: &'static str = "Optional tier override. Omit to use this subagent's default tier.";

/// The items of a list of texts.
pub open spec fn text_items() -> Json {
    Json::Object(no_fields().push(field("type"@, Json::Str("string"@))))
}

/// What an agent is told to do.
pub open spec fn prompt_property() -> Json {
    Json::Object(
        no_fields().push(field("type"@, Json::Str("string"@))).push(
            field("description"@, Json::Str("The sub-task instruction."@)),
        ),
    )
}

/// Arguments of which only the prompt is required.
pub open spec fn prompt_arguments(properties: Seq<crate::json::Field>) -> Json {
    Json::Object(
        no_fields().push(field("type"@, Json::Str("object"@))).push(
            field("properties"@, Json::Object(properties)),
        ).push(field("required"@, text_array(seq!["prompt"@]))),
    )
}

/// How the agent for any task is advertised.
pub open spec fn task_schema() -> Schema {
    Schema {
        name: "task"@,
        description: TASK_DESCRIPTION@,
        parameters: prompt_arguments(
            no_fields().push(field("prompt"@, prompt_property())).push(
                field(
                    "tools"@,
                    Json::Object(
                        no_fields().push(field("type"@, Json::Str("array"@))).push(
                            field("items"@, text_items()),
                        ).push(
                            field(
                                "description"@,
                                Json::Str(
                                    "Optional allowlist of tool names the sub-agent may use."@,
                                ),
                            ),
                        ),
                    ),
                ),
            ),
        ),
    }
}

fn describe_items() -> (r: Data)
    ensures
        r@ == text_items(),
{
    Members::new().with("type", Data::string("string")).object()
}

fn describe_prompt() -> (r: Data)
    ensures
        r@ == prompt_property(),
{
    Members::new().with("type", Data::string("string")).with(
        "description",
        Data::string("The sub-task instruction."),
    ).object()
}

fn describe_arguments(properties: Members) -> (r: Data)
    ensures
        r@ == prompt_arguments(properties@),
{
    let required = crate::schema::one("prompt");
    let list = Data::strings(&required);
    assert(required@.map_values(|s: String| Json::Str(s@)) =~= views(required@).map_values(
        |s: Seq<char>| Json::Str(s),
    ));
    Members::new().with("type", Data::string("object")).with(
        "properties",
        properties.object(),
    ).with("required", list).object()
}

/// How the agent for any task is advertised.
pub fn task_agent_schema() -> (r: ToolSchema)
    ensures
        r@ == task_schema(),
{
    let tools = Members::new().with("type", Data::string("array")).with(
        "items",
        describe_items(),
    ).with(
        "description",
        Data::string("Optional allowlist of tool names the sub-agent may use."),
    ).object();
    let properties = Members::new().with("prompt", describe_prompt()).with("tools", tools);
    ToolSchema::new("task", TASK_DESCRIPTION, describe_arguments(properties))
}

// ----- agents of a kind -----
/// What the host calls the kinds of agents that have tools and a tier of their
/// own.
#[derive(Debug)]
pub struct CodingKinds {
    pub explorer: String,
    pub implementer: String,
    pub reviewer: String,
    pub test_fixer: String,
}

/// What an agent of a kind is for.
pub open spec fn purpose(kinds: &CodingKinds, kind: Seq<char>) -> Seq<char> {
    if kind == kinds.explorer@ {
        EXPLORER_DESCRIPTION@
    } else if kind == kinds.implementer@ {
        IMPLEMENTER_DESCRIPTION@
    } else if kind == kinds.reviewer@ {
        REVIEWER_DESCRIPTION@
    } else if kind == kinds.test_fixer@ {
        TEST_FIXER_DESCRIPTION@
    } else {
        "Run a named coding subagent."@
    }
}

/// The tools that an agent of a kind has unless told otherwise.
pub open spec fn default_tools(kinds: &CodingKinds, kind: Seq<char>) -> Seq<Seq<char>> {
    if kind == kinds.explorer@ {
        Seq::empty().push("repo_files"@).push("repo_search"@).push("repo_read"@).push("git_status"@).push("git_log"@).push("package_metadata"@)
    } else if kind == kinds.implementer@ {
        Seq::empty().push("repo_read"@).push("repo_search"@).push("fs_read"@).push("fs_write"@).push("patch_apply"@).push("cargo_verify"@).push("git_diff"@).push("git_status"@)
    } else if kind == kinds.reviewer@ {
        Seq::empty().push("repo_read"@).push("repo_search"@).push("git_diff"@).push("git_status"@).push("cargo_verify"@)
    } else if kind == kinds.test_fixer@ {
        Seq::empty().push("repo_read"@).push("repo_search"@).push("fs_read"@).push("fs_write"@).push("patch_apply"@).push("cargo_verify"@).push("git_diff"@)
    } else {
        Seq::empty()
    }
}

/// The tier that an agent of a kind runs on unless told otherwise.
pub open spec fn default_tier(kinds: &CodingKinds, kind: Seq<char>) -> Seq<char> {
    if kind == kinds.explorer@ {
        "small"@
    } else if kind == kinds.implementer@ {
        "big"@
    } else if kind == kinds.reviewer@ {
        "big"@
    } else if kind == kinds.test_fixer@ {
        "big"@
    } else {
        "medium"@
    }
}

/// How an agent of a kind is advertised.
pub open spec fn coding_schema(kinds: &CodingKinds, kind: Seq<char>) -> Schema {
    Schema {
        name: kind,
        description: purpose(kinds, kind),
        parameters: prompt_arguments(
            no_fields().push(field("prompt"@, prompt_property())).push(
                field(
                    "tools"@,
                    Json::Object(
                        no_fields().push(field("type"@, Json::Str("array"@))).push(
                            field("items"@, text_items()),
                        ).push(field("default"@, text_array(default_tools(kinds, kind)))).push(
                            field("description"@, Json::Str(OVERRIDE_DESCRIPTION@)),
                        ),
                    ),
                ),
            ).push(
                field(
                    "model"@,
                    Json::Object(
                        no_fields().push(field("type"@, Json::Str("string"@))).push(
                            field("default"@, Json::Str(default_tier(kinds, kind))),
                        ).push(field("description"@, Json::Str(TIER_DESCRIPTION@))),
                    ),
                ),
            ).push(
                field(
                    "max_depth"@,
                    Json::Object(
                        no_fields().push(field("type"@, Json::Str("integer"@))).push(
                            field("default"@, Json::Int(1)),
                        ).push(
                            field(
                                "description"@,
                                Json::Str("Maximum nested subagent depth for this sub-task."@),
                            ),
                        ),
                    ),
                ),
            ),
        ),
    }
}

fn purpose_of(kinds: &CodingKinds, kind: &str) -> (r: &'static str)
    ensures
        r@ == purpose(kinds, kind@),
{
    if same(kind, kinds.explorer.as_str()) {
        EXPLORER_DESCRIPTION
    } else if same(kind, kinds.implementer.as_str()) {
        IMPLEMENTER_DESCRIPTION
    } else if same(kind, kinds.reviewer.as_str()) {
        REVIEWER_DESCRIPTION
    } else if same(kind, kinds.test_fixer.as_str()) {
        TEST_FIXER_DESCRIPTION
    } else {
        "Run a named coding subagent."
    }
}

fn tier_of(kinds: &CodingKinds, kind: &str) -> (r: &'static str)
    ensures
        r@ == default_tier(kinds, kind@),
{
    if same(kind, kinds.explorer.as_str()) {
        "small"
    } else if same(kind, kinds.implementer.as_str()) {
        "big"
    } else if same(kind, kinds.reviewer.as_str()) {
        "big"
    } else if same(kind, kinds.test_fixer.as_str()) {
        "big"
    } else {
        "medium"
    }
}

/// A list of texts under construction.
struct Texts {
    list: Vec<String>,
}

impl Texts {
    fn new() -> (r: Texts)
        ensures
            views(r.list@) == Seq::<Seq<char>>::empty(),
    {
        let r = Texts { list: Vec::new() };
        assert(views(r.list@) =~= Seq::<Seq<char>>::empty());
        r
    }

    fn with(self, s: &str) -> (r: Texts)
        ensures
            views(r.list@) == views(self.list@).push(s@),
    {
        let mut list = self.list;
        let ghost was = list@;
        list.push(owned(s));
        assert(views(list@) =~= views(was).push(s@));
        Texts { list }
    }
}

fn tools_of(kinds: &CodingKinds, kind: &str) -> (r: Vec<String>)
    ensures
        views(r@) == default_tools(kinds, kind@),
{
    let texts = if same(kind, kinds.explorer.as_str()) {
        Texts::new().with("repo_files").with("repo_search").with("repo_read").with("git_status").with("git_log").with("package_metadata")
    } else if same(kind, kinds.implementer.as_str()) {
        Texts::new().with("repo_read").with("repo_search").with("fs_read").with("fs_write").with("patch_apply").with("cargo_verify").with("git_diff").with("git_status")
    } else if same(kind, kinds.reviewer.as_str()) {
        Texts::new().with("repo_read").with("repo_search").with("git_diff").with("git_status").with("cargo_verify")
    } else if same(kind, kinds.test_fixer.as_str()) {
        Texts::new().with("repo_read").with("repo_search").with("fs_read").with("fs_write").with("patch_apply").with("cargo_verify").with("git_diff")
    } else {
        Texts::new()
    };
    texts.list
}

/// How an agent of a kind is advertised.
pub fn coding_agent_schema(kinds: &CodingKinds, kind: &str) -> (r: ToolSchema)
    ensures
        r@ == coding_schema(kinds, kind@),
{
    let defaults = tools_of(kinds, kind);
    let list = Data::strings(&defaults);
    assert(defaults@.map_values(|s: String| Json::Str(s@)) =~= views(defaults@).map_values(
        |s: Seq<char>| Json::Str(s),
    ));
    let tools = Members::new().with("type", Data::string("array")).with(
        "items",
        describe_items(),
    ).with("default", list).with("description", Data::string(OVERRIDE_DESCRIPTION)).object();
    let model = Members::new().with("type", Data::string("string")).with(
        "default",
        Data::string(tier_of(kinds, kind)),
    ).with("description", Data::string(TIER_DESCRIPTION)).object();
    let depth = Members::new().with("type", Data::string("integer")).with(
        "default",
        Data::number(1),
    ).with(
        "description",
        Data::string("Maximum nested subagent depth for this sub-task."),
    ).object();
    let properties = Members::new().with("prompt", describe_prompt()).with("tools", tools).with(
        "model",
        model,
    ).with("max_depth", depth);
    ToolSchema::new(kind, purpose_of(kinds, kind), describe_arguments(properties))
}

/// Agents that look, and those that judge a change, have no tool that writes a
/// file unless they are given one.
pub proof fn law_lookers_do_not_write(kinds: &CodingKinds, kind: Seq<char>)
    requires
        kind == kinds.explorer@ || (kind == kinds.reviewer@ && kind != kinds.implementer@),
    ensures
        !default_tools(kinds, kind).contains("fs_write"@),
        !default_tools(kinds, kind).contains("patch_apply"@),
{
    reveal_strlit("cargo_verify");
    reveal_strlit("fs_write");
    reveal_strlit("git_diff");
    reveal_strlit("git_log");
    reveal_strlit("git_status");
    reveal_strlit("package_metadata");
    reveal_strlit("patch_apply");
    reveal_strlit("repo_files");
    reveal_strlit("repo_read");
    reveal_strlit("repo_search");
    assert("cargo_verify"@[0] == 'c' && "cargo_verify"@.len() == 12);
    assert("fs_write"@[0] == 'f' && "fs_write"@.len() == 8);
    assert("git_diff"@[0] == 'g' && "git_diff"@.len() == 8);
    assert("git_log"@[0] == 'g' && "git_log"@.len() == 7);
    assert("git_status"@[0] == 'g' && "git_status"@.len() == 10);
    assert("package_metadata"@[0] == 'p' && "package_metadata"@.len() == 16);
    assert("patch_apply"@[0] == 'p' && "patch_apply"@.len() == 11);
    assert("repo_files"@[0] == 'r' && "repo_files"@.len() == 10);
    assert("repo_read"@[0] == 'r' && "repo_read"@.len() == 9);
    assert("repo_search"@[0] == 'r' && "repo_search"@.len() == 11);
    let tools = default_tools(kinds, kind);
    assert forall|i: int| 0 <= i < tools.len() implies #[trigger] tools[i] != "fs_write"@ && tools[i]
        != "patch_apply"@ by {
        assert(tools[i][0] != 'f');
        assert(tools[i].len() != 11 || tools[i][0] != 'p');
    }
}

} // verus!
