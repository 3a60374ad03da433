//! How the read-only file tools are advertised.
use vstd::prelude::*;

use crate::json::{field, no_fields, Data, Json, Members};
use crate::schema::{
    argument, arguments, describe, free_arguments, free_schema, object_schema, one, two, Schema,
    ToolSchema,
};

verus! {

/// The argument that lists paths.
pub open spec fn path_list_argument() -> Json {
    Json::Object(
        no_fields().push(field("type"@, Json::Str("array"@))).push(
            field(
                "items"@,
                Json::Object(no_fields().push(field("type"@, Json::Str("string"@)))),
            ),
        ).push(field("minItems"@, Json::Int(1))).push(field("maxItems"@, Json::Int(50))).push(
            field("description"@, Json::Str("File paths, each as `<root>/<path>`."@)),
        ),
    )
}

fn describe_path_list() -> (r: Data)
    ensures
        r@ == path_list_argument(),
{
    Members::new().with("type", Data::string("array")).with(
        "items",
        Members::new().with("type", Data::string("string")).object(),
    ).with("minItems", Data::number(1)).with("maxItems", Data::number(50)).with(
        "description",
        Data::string("File paths, each as `<root>/<path>`."),
    ).object()
}

pub open spec fn fs_list_spec() -> Schema {
    Schema {
        name: "fs_list"@,
        description: "List files and directories. Paths are addressed as `<root>/<path>`; with no path, this lists the available roots."@,
        parameters: free_arguments(
            no_fields().push(
                field(
                    "path"@,
                    argument("string"@, None, None, Some("Directory as `<root>/<path>`. Omit to list the roots themselves."@)),
                ),
            ).push(
                field(
                    "recursive"@,
                    argument("boolean"@, None, None, Some("Whether to list recursively. Defaults to false."@)),
                ),
            ).push(
                field(
                    "max_entries"@,
                    argument("integer"@, Some(1), Some(2000), Some("Maximum entries to return."@)),
                ),
            ),
        ),
    }
}

pub fn fs_list_schema() -> (r: ToolSchema)
    ensures
        r@ == fs_list_spec(),
{
    ToolSchema::new(
        "fs_list",
        "List files and directories. Paths are addressed as `<root>/<path>`; with no path, this lists the available roots.",
        free_schema(
            Members::new().with(
                "path",
                describe("string", None, None, Some("Directory as `<root>/<path>`. Omit to list the roots themselves.")),
            ).with(
                "recursive",
                describe("boolean", None, None, Some("Whether to list recursively. Defaults to false.")),
            ).with(
                "max_entries",
                describe("integer", Some(1), Some(2000), Some("Maximum entries to return.")),
            ),
        ),
    )
}

pub open spec fn fs_search_spec() -> Schema {
    Schema {
        name: "fs_search"@,
        description: "Search text files for a case-insensitive substring across all roots. Returns snippets with `<root>/<path>` paths and line numbers."@,
        parameters: arguments(
            no_fields().push(
                field(
                    "query"@,
                    argument("string"@, None, None, Some("Case-insensitive substring to search for."@)),
                ),
            ).push(
                field(
                    "path"@,
                    argument("string"@, None, None, Some("Optional `<root>` or `<root>/<path>` to scope the search. Omit to search every root."@)),
                ),
            ).push(
                field(
                    "max_matches"@,
                    argument("integer"@, Some(1), Some(500), Some("Maximum matches to return. Defaults to 50."@)),
                ),
            ),
            seq!["query"@],
        ),
    }
}

pub fn fs_search_schema() -> (r: ToolSchema)
    ensures
        r@ == fs_search_spec(),
{
    ToolSchema::new(
        "fs_search",
        "Search text files for a case-insensitive substring across all roots. Returns snippets with `<root>/<path>` paths and line numbers.",
        object_schema(
            Members::new().with(
                "query",
                describe("string", None, None, Some("Case-insensitive substring to search for.")),
            ).with(
                "path",
                describe("string", None, None, Some("Optional `<root>` or `<root>/<path>` to scope the search. Omit to search every root.")),
            ).with(
                "max_matches",
                describe("integer", Some(1), Some(500), Some("Maximum matches to return. Defaults to 50.")),
            ),
            &one("query"),
        ),
    )
}

pub open spec fn fs_grep_spec() -> Schema {
    Schema {
        name: "fs_grep"@,
        description: "Search text files with a Rust regular expression across all roots (or a `<root>`/`<root>/<path>` scope). Paths are reported as `<root>/<path>`."@,
        parameters: arguments(
            no_fields().push(
                field(
                    "pattern"@,
                    argument("string"@, None, None, None),
                ),
            ).push(
                field(
                    "path"@,
                    argument("string"@, None, None, None),
                ),
            ).push(
                field(
                    "case_sensitive"@,
                    argument("boolean"@, None, None, None),
                ),
            ).push(
                field(
                    "max_matches"@,
                    argument("integer"@, Some(1), Some(500), None),
                ),
            ),
            seq!["pattern"@],
        ),
    }
}

pub fn fs_grep_schema() -> (r: ToolSchema)
    ensures
        r@ == fs_grep_spec(),
{
    ToolSchema::new(
        "fs_grep",
        "Search text files with a Rust regular expression across all roots (or a `<root>`/`<root>/<path>` scope). Paths are reported as `<root>/<path>`.",
        object_schema(
            Members::new().with(
                "pattern",
                describe("string", None, None, None),
            ).with(
                "path",
                describe("string", None, None, None),
            ).with(
                "case_sensitive",
                describe("boolean", None, None, None),
            ).with(
                "max_matches",
                describe("integer", Some(1), Some(500), None),
            ),
            &one("pattern"),
        ),
    )
}

pub open spec fn fs_glob_spec() -> Schema {
    Schema {
        name: "fs_glob"@,
        description: "Match file paths with a glob pattern; `**` crosses directories. Matches against the `<root>/<path>` form, so a pattern can target one root or span all."@,
        parameters: arguments(
            no_fields().push(
                field(
                    "pattern"@,
                    argument("string"@, None, None, None),
                ),
            ).push(
                field(
                    "path"@,
                    argument("string"@, None, None, None),
                ),
            ).push(
                field(
                    "max_matches"@,
                    argument("integer"@, Some(1), Some(2000), None),
                ),
            ),
            seq!["pattern"@],
        ),
    }
}

pub fn fs_glob_schema() -> (r: ToolSchema)
    ensures
        r@ == fs_glob_spec(),
{
    ToolSchema::new(
        "fs_glob",
        "Match file paths with a glob pattern; `**` crosses directories. Matches against the `<root>/<path>` form, so a pattern can target one root or span all.",
        object_schema(
            Members::new().with(
                "pattern",
                describe("string", None, None, None),
            ).with(
                "path",
                describe("string", None, None, None),
            ).with(
                "max_matches",
                describe("integer", Some(1), Some(2000), None),
            ),
            &one("pattern"),
        ),
    )
}

pub open spec fn fs_read_spec() -> Schema {
    Schema {
        name: "fs_read"@,
        description: "Read one text file, addressed as `<root>/<path>`. Read-only; cannot access paths outside the roots."@,
        parameters: arguments(
            no_fields().push(
                field(
                    "path"@,
                    argument("string"@, None, None, Some("File path as `<root>/<path>`."@)),
                ),
            ).push(
                field(
                    "max_bytes"@,
                    argument("integer"@, Some(1), Some(1000000), Some("Maximum bytes to return. Defaults to 200000."@)),
                ),
            ),
            seq!["path"@],
        ),
    }
}

pub fn fs_read_schema() -> (r: ToolSchema)
    ensures
        r@ == fs_read_spec(),
{
    ToolSchema::new(
        "fs_read",
        "Read one text file, addressed as `<root>/<path>`. Read-only; cannot access paths outside the roots.",
        object_schema(
            Members::new().with(
                "path",
                describe("string", None, None, Some("File path as `<root>/<path>`.")),
            ).with(
                "max_bytes",
                describe("integer", Some(1), Some(1000000), Some("Maximum bytes to return. Defaults to 200000.")),
            ),
            &one("path"),
        ),
    )
}

pub open spec fn fs_read_range_spec() -> Schema {
    Schema {
        name: "fs_read_range"@,
        description: "Read a line range from one text file, addressed as `<root>/<path>`. Lines are 1-based, inclusive."@,
        parameters: arguments(
            no_fields().push(
                field(
                    "path"@,
                    argument("string"@, None, None, Some("File path as `<root>/<path>`."@)),
                ),
            ).push(
                field(
                    "start_line"@,
                    argument("integer"@, Some(1), None, Some("First line to read, 1-based."@)),
                ),
            ).push(
                field(
                    "end_line"@,
                    argument("integer"@, Some(1), None, Some("Last line to read, inclusive. If omitted, max_lines controls the window."@)),
                ),
            ).push(
                field(
                    "max_lines"@,
                    argument("integer"@, Some(1), Some(5000), Some("Maximum lines when end_line is omitted or too large. Defaults to 200."@)),
                ),
            ).push(
                field(
                    "max_bytes"@,
                    argument("integer"@, Some(1), Some(1000000), Some("Maximum bytes of content to return. Defaults to 200000."@)),
                ),
            ),
            seq!["path"@, "start_line"@],
        ),
    }
}

pub fn fs_read_range_schema() -> (r: ToolSchema)
    ensures
        r@ == fs_read_range_spec(),
{
    ToolSchema::new(
        "fs_read_range",
        "Read a line range from one text file, addressed as `<root>/<path>`. Lines are 1-based, inclusive.",
        object_schema(
            Members::new().with(
                "path",
                describe("string", None, None, Some("File path as `<root>/<path>`.")),
            ).with(
                "start_line",
                describe("integer", Some(1), None, Some("First line to read, 1-based.")),
            ).with(
                "end_line",
                describe("integer", Some(1), None, Some("Last line to read, inclusive. If omitted, max_lines controls the window.")),
            ).with(
                "max_lines",
                describe("integer", Some(1), Some(5000), Some("Maximum lines when end_line is omitted or too large. Defaults to 200.")),
            ).with(
                "max_bytes",
                describe("integer", Some(1), Some(1000000), Some("Maximum bytes of content to return. Defaults to 200000.")),
            ),
            &two("path", "start_line"),
        ),
    )
}

pub open spec fn fs_read_many_spec() -> Schema {
    Schema {
        name: "fs_read_many"@,
        description: "Read multiple text files in one call, each addressed as `<root>/<path>`."@,
        parameters: arguments(
            no_fields().push(field("paths"@, path_list_argument())).push(
                field(
                    "max_bytes_per_document"@,
                    argument("integer"@, Some(1), Some(1000000), Some("Maximum bytes per file. Defaults to 200000."@)),
                ),
            ).push(
                field(
                    "max_documents"@,
                    argument("integer"@, Some(1), Some(50), Some("Maximum files to read. Defaults to 50."@)),
                ),
            ),
            seq!["paths"@],
        ),
    }
}

pub fn fs_read_many_schema() -> (r: ToolSchema)
    ensures
        r@ == fs_read_many_spec(),
{
    ToolSchema::new(
        "fs_read_many",
        "Read multiple text files in one call, each addressed as `<root>/<path>`.",
        object_schema(
            Members::new().with("paths", describe_path_list()).with(
                "max_bytes_per_document",
                describe("integer", Some(1), Some(1000000), Some("Maximum bytes per file. Defaults to 200000.")),
            ).with(
                "max_documents",
                describe("integer", Some(1), Some(50), Some("Maximum files to read. Defaults to 50.")),
            ),
            &one("paths"),
        ),
    )
}

pub open spec fn fs_outline_spec() -> Schema {
    Schema {
        name: "fs_outline"@,
        description: "Return markdown-style headings for one text file or for text files under a directory. Paths are addressed as `<root>/<path>`; omit to span every root."@,
        parameters: free_arguments(
            no_fields().push(
                field(
                    "path"@,
                    argument("string"@, None, None, Some("Optional file or directory as `<root>/<path>`. Omit to span every root."@)),
                ),
            ).push(
                field(
                    "max_documents"@,
                    argument("integer"@, Some(1), Some(1000), Some("Maximum text files to inspect. Defaults to 100."@)),
                ),
            ).push(
                field(
                    "max_headings"@,
                    argument("integer"@, Some(1), Some(5000), Some("Maximum headings across all inspected files. Defaults to 1000."@)),
                ),
            ),
        ),
    }
}

pub fn fs_outline_schema() -> (r: ToolSchema)
    ensures
        r@ == fs_outline_spec(),
{
    ToolSchema::new(
        "fs_outline",
        "Return markdown-style headings for one text file or for text files under a directory. Paths are addressed as `<root>/<path>`; omit to span every root.",
        free_schema(
            Members::new().with(
                "path",
                describe("string", None, None, Some("Optional file or directory as `<root>/<path>`. Omit to span every root.")),
            ).with(
                "max_documents",
                describe("integer", Some(1), Some(1000), Some("Maximum text files to inspect. Defaults to 100.")),
            ).with(
                "max_headings",
                describe("integer", Some(1), Some(5000), Some("Maximum headings across all inspected files. Defaults to 1000.")),
            ),
        ),
    )
}

/// How the whole family is advertised.
pub open spec fn fs_specs() -> Seq<Schema> {
    Seq::empty().push(fs_list_spec()).push(fs_search_spec()).push(fs_grep_spec()).push(fs_glob_spec()).push(fs_read_spec()).push(fs_read_range_spec()).push(fs_read_many_spec()).push(fs_outline_spec())
}

/// How the whole family is advertised.
pub fn fs_tool_schemas() -> (r: Vec<ToolSchema>)
    ensures
        r@.map_values(|s: ToolSchema| s@) == fs_specs(),
{
    let mut r: Vec<ToolSchema> = Vec::new();
    r.push(fs_list_schema());
    r.push(fs_search_schema());
    r.push(fs_grep_schema());
    r.push(fs_glob_schema());
    r.push(fs_read_schema());
    r.push(fs_read_range_schema());
    r.push(fs_read_many_schema());
    r.push(fs_outline_schema());
    assert(r@.map_values(|s: ToolSchema| s@) =~= fs_specs());
    r
}

} // verus!
