//! What a browser host can be asked to do, and how it is advertised.
use vstd::prelude::*;

use crate::json::{field, Data, Field, Json, Members};
use crate::schema::{argument, arguments, describe, object_schema, Schema, ToolSchema};
use crate::text::{owned, views};

verus! {

/// One thing that a browser host can be asked to do.
#[derive(Debug)]
pub struct BrowserCapability {
    pub name: String,
    pub description: String,
    pub read_only: bool,
    pub schema: ToolSchema,
}

/// What a [`BrowserCapability`] denotes.
pub struct Capability {
    pub name: Seq<char>,
    pub description: Seq<char>,
    pub read_only: bool,
    pub schema: Schema,
}

impl View for BrowserCapability {
    type V = Capability;

    open spec fn view(&self) -> Capability {
        Capability {
            name: self.name@,
            description: self.description@,
            read_only: self.read_only,
            schema: self.schema@,
        }
    }
}

pub open spec fn capability_views(list: Seq<BrowserCapability>) -> Seq<Capability> {
    list.map_values(|c: BrowserCapability| c@)
}

// ----- arguments -----
/// One argument of a capability.
pub struct Arg {
    pub kind: Seq<char>,
    pub name: Seq<char>,
    pub what: Seq<char>,
    pub required: bool,
}

pub open spec fn arg(kind: Seq<char>, name: Seq<char>, what: Seq<char>, required: bool) -> Arg {
    Arg { kind, name, what, required }
}

pub open spec fn no_args() -> Seq<Arg> {
    Seq::empty()
}

/// The property that stands for one argument.
pub open spec fn property_of(a: Arg) -> Field {
    field(a.name, argument(a.kind, None, None, Some(a.what)))
}

pub open spec fn properties_of(args: Seq<Arg>) -> Seq<Field> {
    args.map_values(|a: Arg| property_of(a))
}

/// The names of the arguments that must be given, in their order.
pub open spec fn required_of(args: Seq<Arg>) -> Seq<Seq<char>>
    decreases args.len(),
{
    if args.len() == 0 {
        Seq::empty()
    } else if args.last().required {
        required_of(args.drop_last()).push(args.last().name)
    } else {
        required_of(args.drop_last())
    }
}

/// The arguments of a capability, being written down.
struct Args {
    args: Ghost<Seq<Arg>>,
    properties: Members,
    required: Vec<String>,
}

impl View for Args {
    type V = Seq<Arg>;

    closed spec fn view(&self) -> Seq<Arg> {
        self.args@
    }
}

impl Args {
    #[verifier::type_invariant]
    spec fn listed(self) -> bool {
        &&& self.properties@ == properties_of(self.args@)
        &&& views(self.required@) == required_of(self.args@)
    }

    fn new() -> (r: Args)
        ensures
            r@ == no_args(),
    {
        let properties = Members::new();
        let required: Vec<String> = Vec::new();
        assert(properties@ =~= properties_of(no_args()));
        assert(views(required@) =~= required_of(no_args()));
        Args { args: Ghost(no_args()), properties, required }
    }

    fn of_kind(self, kind: &str, name: &str, what: &str, required: bool) -> (r: Args)
        ensures
            r@ == self@.push(arg(kind@, name@, what@, required)),
    {
        proof {
            use_type_invariant(&self);
        }
        let ghost was = self.args@;
        let ghost now = was.push(arg(kind@, name@, what@, required));
        assert(now.drop_last() =~= was);
        let properties = self.properties.with(name, describe(kind, None, None, Some(what)));
        assert(properties@ =~= properties_of(now));
        let mut names = self.required;
        let ghost before = names@;
        if required {
            names.push(owned(name));
            assert(views(names@) =~= views(before).push(name@));
        }
        Args { args: Ghost(now), properties, required: names }
    }

    fn string(self, name: &str, what: &str, required: bool) -> (r: Args)
        ensures
            r@ == self@.push(arg("string"@, name@, what@, required)),
    {
        self.of_kind("string", name, what, required)
    }

    fn integer(self, name: &str, what: &str, required: bool) -> (r: Args)
        ensures
            r@ == self@.push(arg("integer"@, name@, what@, required)),
    {
        self.of_kind("integer", name, what, required)
    }

    fn boolean(self, name: &str, what: &str, required: bool) -> (r: Args)
        ensures
            r@ == self@.push(arg("boolean"@, name@, what@, required)),
    {
        self.of_kind("boolean", name, what, required)
    }

    /// The schema of the arguments.
    fn object(self) -> (r: Data)
        ensures
            r@ == schema_of(self@),
    {
        proof {
            use_type_invariant(&self);
        }
        object_schema(self.properties, &self.required)
    }
}

/// The schema that a list of arguments gives.
pub open spec fn schema_of(args: Seq<Arg>) -> Json {
    arguments(properties_of(args), required_of(args))
}

proof fn lemma_required(args: Seq<Arg>, name: Seq<char>)
    ensures
        required_of(args).contains(name) <==> exists|i: int|
            0 <= i < args.len() && (#[trigger] args[i]).required && args[i].name == name,
    decreases args.len(),
{
    if args.len() > 0 {
        let rest = args.drop_last();
        lemma_required(rest, name);
        let r = required_of(rest);
        if args.last().required {
            let all = r.push(args.last().name);
            assert(all.contains(name) <==> r.contains(name) || name == args.last().name) by {
                if r.contains(name) {
                    let k = choose|k: int| 0 <= k < r.len() && r[k] == name;
                    assert(all[k] == name);
                }
                assert(all[r.len() as int] == args.last().name);
            }
        }
        if exists|i: int| 0 <= i < args.len() && (#[trigger] args[i]).required && args[i].name
            == name {
            let i = choose|i: int|
                0 <= i < args.len() && (#[trigger] args[i]).required && args[i].name == name;
            if i < rest.len() {
                assert(rest[i] == args[i]);
            }
        }
        if exists|i: int| 0 <= i < rest.len() && (#[trigger] rest[i]).required && rest[i].name
            == name {
            let i = choose|i: int|
                0 <= i < rest.len() && (#[trigger] rest[i]).required && rest[i].name == name;
            assert(args[i] == rest[i]);
        }
    }
}

/// Whatever a schema requires it also declares, and it declares every argument,
/// required or not.
pub proof fn law_required_arguments_are_declared(args: Seq<Arg>, name: Seq<char>)
    ensures
        required_of(args).contains(name) ==> exists|i: int|
            0 <= i < properties_of(args).len() && (#[trigger] properties_of(args)[i]).key == name,
        properties_of(args).len() == args.len(),
        forall|i: int|
            0 <= i < args.len() ==> (#[trigger] properties_of(args)[i]).key == args[i].name,
{
    lemma_required(args, name);
    if required_of(args).contains(name) {
        let i = choose|i: int|
            0 <= i < args.len() && (#[trigger] args[i]).required && args[i].name == name;
        assert(properties_of(args)[i].key == name);
    }
}

/// An argument that need not be given is not among the required ones, unless
/// another argument of its name is.
pub proof fn law_optional_arguments_are_not_required(args: Seq<Arg>, i: int)
    requires
        0 <= i < args.len(),
        forall|k: int| 0 <= k < args.len() && (#[trigger] args[k]).required ==> args[k].name
            != args[i].name,
    ensures
        !required_of(args).contains(args[i].name),
{
    lemma_required(args, args[i].name);
}

/// A property says what type an argument has and what it is for: neither the
/// name nor the mark of being required stands in it.
pub proof fn law_markers_never_leak(args: Seq<Arg>, i: int)
    requires
        0 <= i < args.len(),
    ensures
        properties_of(args)[i].value.get("name"@) is None,
        properties_of(args)[i].value.get("required"@) is None,
{
    reveal_strlit("name");
    reveal_strlit("required");
    reveal_strlit("type");
    reveal_strlit("description");
    let v = properties_of(args)[i].value;
    let fields = v->Object_0;
    assert(fields =~= seq![field("type"@, Json::Str(args[i].kind))].push(
        field("description"@, Json::Str(args[i].what)),
    ));
    assert("name"@.len() == 4 && "type"@.len() == 4 && "name"@[0] == 'n' && "type"@[0] == 't');
    assert("required"@.len() == 8 && "description"@.len() == 11);
    reveal_with_fuel(Json::member_from, 3);
}

// ----- the list -----
/// One entry of the list.
pub open spec fn offered(
    name: Seq<char>,
    description: Seq<char>,
    read_only: bool,
    args: Seq<Arg>,
) -> Capability {
    Capability {
        name,
        description,
        read_only,
        schema: Schema { name, description, parameters: schema_of(args) },
    }
}

struct Listing {
    list: Vec<BrowserCapability>,
}

impl View for Listing {
    type V = Seq<Capability>;

    closed spec fn view(&self) -> Seq<Capability> {
        capability_views(self.list@)
    }
}

impl Listing {
    fn capability(self, name: &str, description: &str, args: Args, read_only: bool) -> (r: Listing)
        ensures
            r@ == self@.push(offered(name@, description@, read_only, args@)),
    {
        let mut list = self.list;
        let ghost was = list@;
        list.push(
            BrowserCapability {
                name: owned(name),
                description: owned(description),
                read_only,
                schema: ToolSchema::new(name, description, args.object()),
            },
        );
        assert(capability_views(list@) =~= capability_views(was).push(
            offered(name@, description@, read_only, args@),
        ));
        Listing { list }
    }

    fn read_only(self, name: &str, description: &str, args: Args) -> (r: Listing)
        ensures
            r@ == self@.push(offered(name@, description@, true, args@)),
    {
        self.capability(name, description, args, true)
    }

    fn mutating(self, name: &str, description: &str, args: Args) -> (r: Listing)
        ensures
            r@ == self@.push(offered(name@, description@, false, args@)),
    {
        self.capability(name, description, args, false)
    }
}

/// Listing, opening, closing and moving between tabs.
pub open spec fn tab_entries(list: Seq<Capability>) -> Seq<Capability> {
    list.push(
            offered(
                "tabs_list"@,
                "List browser tabs with id, title, URL, active status, and window id."@,
                true,
                no_args(),
            ),
        ).push(
            offered(
                "tab_open_url"@,
                "Open a URL in a new or existing tab."@,
                false,
                no_args()
                .push(arg("string"@, "url"@, "The absolute http(s) URL to open."@, true))
                .push(arg("boolean"@, "active"@, "Whether the tab should become active."@, false)),
            ),
        ).push(
            offered(
                "tab_close"@,
                "Close a browser tab by id."@,
                false,
                no_args()
                .push(arg("integer"@, "tab_id"@, "The Chrome tab id to close."@, true)),
            ),
        ).push(
            offered(
                "tab_switch"@,
                "Make a browser tab active by id."@,
                false,
                no_args()
                .push(arg("integer"@, "tab_id"@, "The Chrome tab id to activate."@, true)),
            ),
        ).push(
            offered(
                "tab_reload"@,
                "Reload a browser tab."@,
                false,
                no_args()
                .push(arg("integer"@, "tab_id"@, "The Chrome tab id to reload."@, true)),
            ),
        ).push(
            offered(
                "tab_back"@,
                "Navigate a tab backward in history."@,
                false,
                no_args()
                .push(arg("integer"@, "tab_id"@, "The Chrome tab id."@, true)),
            ),
        ).push(
            offered(
                "tab_forward"@,
                "Navigate a tab forward in history."@,
                false,
                no_args()
                .push(arg("integer"@, "tab_id"@, "The Chrome tab id."@, true)),
            ),
        )
}

fn with_tabs(list: Listing) -> (r: Listing)
    ensures
        r@ == tab_entries(list@),
{
    list.read_only(
            "tabs_list",
            "List browser tabs with id, title, URL, active status, and window id.",
            Args::new(),
        ).mutating(
            "tab_open_url",
            "Open a URL in a new or existing tab.",
            Args::new()
                .string("url", "The absolute http(s) URL to open.", true)
                .boolean("active", "Whether the tab should become active.", false),
        ).mutating(
            "tab_close",
            "Close a browser tab by id.",
            Args::new()
                .integer("tab_id", "The Chrome tab id to close.", true),
        ).mutating(
            "tab_switch",
            "Make a browser tab active by id.",
            Args::new()
                .integer("tab_id", "The Chrome tab id to activate.", true),
        ).mutating(
            "tab_reload",
            "Reload a browser tab.",
            Args::new()
                .integer("tab_id", "The Chrome tab id to reload.", true),
        ).mutating(
            "tab_back",
            "Navigate a tab backward in history.",
            Args::new()
                .integer("tab_id", "The Chrome tab id.", true),
        ).mutating(
            "tab_forward",
            "Navigate a tab forward in history.",
            Args::new()
                .integer("tab_id", "The Chrome tab id.", true),
        )
}

/// Waiting for a page and reading it.
pub open spec fn reading_entries(list: Seq<Capability>) -> Seq<Capability> {
    list.push(
            offered(
                "wait_for_navigation"@,
                "Wait until a tab finishes navigation and the page is briefly settled."@,
                true,
                no_args()
                .push(arg("integer"@, "tab_id"@, "The Chrome tab id."@, true))
                .push(arg("integer"@, "timeout_ms"@, "Maximum time to wait in milliseconds."@, false))
                .push(arg("integer"@, "settle_ms"@, "How long the DOM should be quiet before returning."@, false)),
            ),
        ).push(
            offered(
                "wait_for_page_settled"@,
                "Wait until the current page DOM has been quiet briefly."@,
                true,
                no_args()
                .push(arg("integer"@, "tab_id"@, "The Chrome tab id."@, true))
                .push(arg("integer"@, "settle_ms"@, "How long the DOM should be quiet before returning."@, false))
                .push(arg("integer"@, "timeout_ms"@, "Maximum time to wait in milliseconds."@, false)),
            ),
        ).push(
            offered(
                "wait_for_tab_opened"@,
                "Wait until a new tab is opened."@,
                true,
                no_args()
                .push(arg("integer"@, "timeout_ms"@, "Maximum time to wait in milliseconds."@, false)),
            ),
        ).push(
            offered(
                "wait_for_url"@,
                "Wait until a tab URL contains the expected text."@,
                true,
                no_args()
                .push(arg("integer"@, "tab_id"@, "The Chrome tab id."@, true))
                .push(arg("string"@, "contains"@, "Text that must appear in the URL."@, true))
                .push(arg("integer"@, "timeout_ms"@, "Maximum time to wait in milliseconds."@, false)),
            ),
        ).push(
            offered(
                "wait_for_selector"@,
                "Wait until a CSS selector exists in a tab."@,
                true,
                no_args()
                .push(arg("integer"@, "tab_id"@, "The Chrome tab id."@, true))
                .push(arg("string"@, "selector"@, "The CSS selector to wait for."@, true))
                .push(arg("integer"@, "timeout_ms"@, "Maximum time to wait in milliseconds."@, false)),
            ),
        ).push(
            offered(
                "wait_for_text"@,
                "Wait until visible page text contains the expected text."@,
                true,
                no_args()
                .push(arg("integer"@, "tab_id"@, "The Chrome tab id."@, true))
                .push(arg("string"@, "text"@, "Visible text to wait for."@, true))
                .push(arg("integer"@, "timeout_ms"@, "Maximum time to wait in milliseconds."@, false)),
            ),
        ).push(
            offered(
                "page_read_html"@,
                "Read the current page HTML from a tab."@,
                true,
                no_args()
                .push(arg("integer"@, "tab_id"@, "The Chrome tab id."@, true)),
            ),
        ).push(
            offered(
                "page_read_text"@,
                "Read visible page text from a tab."@,
                true,
                no_args()
                .push(arg("integer"@, "tab_id"@, "The Chrome tab id."@, true)),
            ),
        ).push(
            offered(
                "page_snapshot"@,
                "Return a compact DOM snapshot with stable node ids for visible actionable elements."@,
                true,
                no_args()
                .push(arg("integer"@, "tab_id"@, "The Chrome tab id."@, true)),
            ),
        )
}

fn with_reading(list: Listing) -> (r: Listing)
    ensures
        r@ == reading_entries(list@),
{
    list.read_only(
            "wait_for_navigation",
            "Wait until a tab finishes navigation and the page is briefly settled.",
            Args::new()
                .integer("tab_id", "The Chrome tab id.", true)
                .integer("timeout_ms", "Maximum time to wait in milliseconds.", false)
                .integer("settle_ms", "How long the DOM should be quiet before returning.", false),
        ).read_only(
            "wait_for_page_settled",
            "Wait until the current page DOM has been quiet briefly.",
            Args::new()
                .integer("tab_id", "The Chrome tab id.", true)
                .integer("settle_ms", "How long the DOM should be quiet before returning.", false)
                .integer("timeout_ms", "Maximum time to wait in milliseconds.", false),
        ).read_only(
            "wait_for_tab_opened",
            "Wait until a new tab is opened.",
            Args::new()
                .integer("timeout_ms", "Maximum time to wait in milliseconds.", false),
        ).read_only(
            "wait_for_url",
            "Wait until a tab URL contains the expected text.",
            Args::new()
                .integer("tab_id", "The Chrome tab id.", true)
                .string("contains", "Text that must appear in the URL.", true)
                .integer("timeout_ms", "Maximum time to wait in milliseconds.", false),
        ).read_only(
            "wait_for_selector",
            "Wait until a CSS selector exists in a tab.",
            Args::new()
                .integer("tab_id", "The Chrome tab id.", true)
                .string("selector", "The CSS selector to wait for.", true)
                .integer("timeout_ms", "Maximum time to wait in milliseconds.", false),
        ).read_only(
            "wait_for_text",
            "Wait until visible page text contains the expected text.",
            Args::new()
                .integer("tab_id", "The Chrome tab id.", true)
                .string("text", "Visible text to wait for.", true)
                .integer("timeout_ms", "Maximum time to wait in milliseconds.", false),
        ).read_only(
            "page_read_html",
            "Read the current page HTML from a tab.",
            Args::new()
                .integer("tab_id", "The Chrome tab id.", true),
        ).read_only(
            "page_read_text",
            "Read visible page text from a tab.",
            Args::new()
                .integer("tab_id", "The Chrome tab id.", true),
        ).read_only(
            "page_snapshot",
            "Return a compact DOM snapshot with stable node ids for visible actionable elements.",
            Args::new()
                .integer("tab_id", "The Chrome tab id.", true),
        )
}

/// Acting on the elements of a page.
pub open spec fn page_entries(list: Seq<Capability>) -> Seq<Capability> {
    list.push(
            offered(
                "page_click"@,
                "Click an element by snapshot node id or CSS selector."@,
                false,
                no_args()
                .push(arg("integer"@, "tab_id"@, "The Chrome tab id."@, true))
                .push(arg("string"@, "node_id"@, "Preferred snapshot node id. Leave empty when using selector."@, false))
                .push(arg("string"@, "selector"@, "Fallback CSS selector. Leave empty when using node_id."@, false)),
            ),
        ).push(
            offered(
                "page_type"@,
                "Type text into an input-like element."@,
                false,
                no_args()
                .push(arg("integer"@, "tab_id"@, "The Chrome tab id."@, true))
                .push(arg("string"@, "node_id"@, "Preferred snapshot node id. Leave empty when using selector."@, false))
                .push(arg("string"@, "selector"@, "Fallback CSS selector. Leave empty when using node_id."@, false))
                .push(arg("string"@, "text"@, "Text to type."@, true))
                .push(arg("boolean"@, "clear"@, "Whether to clear existing text first."@, false)),
            ),
        ).push(
            offered(
                "page_select"@,
                "Select an option in a select element."@,
                false,
                no_args()
                .push(arg("integer"@, "tab_id"@, "The Chrome tab id."@, true))
                .push(arg("string"@, "node_id"@, "Preferred snapshot node id. Leave empty when using selector."@, false))
                .push(arg("string"@, "selector"@, "Fallback CSS selector. Leave empty when using node_id."@, false))
                .push(arg("string"@, "value"@, "Option value to select."@, true)),
            ),
        ).push(
            offered(
                "page_scroll"@,
                "Scroll a page by a pixel delta."@,
                false,
                no_args()
                .push(arg("integer"@, "tab_id"@, "The Chrome tab id."@, true))
                .push(arg("integer"@, "delta_x"@, "Horizontal scroll delta in pixels."@, false))
                .push(arg("integer"@, "delta_y"@, "Vertical scroll delta in pixels."@, false)),
            ),
        ).push(
            offered(
                "page_submit"@,
                "Submit a form element."@,
                false,
                no_args()
                .push(arg("integer"@, "tab_id"@, "The Chrome tab id."@, true))
                .push(arg("string"@, "node_id"@, "Preferred snapshot node id. Leave empty when using selector."@, false))
                .push(arg("string"@, "selector"@, "Fallback CSS selector. Leave empty when using node_id."@, false)),
            ),
        ).push(
            offered(
                "page_focus"@,
                "Focus an element."@,
                false,
                no_args()
                .push(arg("integer"@, "tab_id"@, "The Chrome tab id."@, true))
                .push(arg("string"@, "node_id"@, "Preferred snapshot node id. Leave empty when using selector."@, false))
                .push(arg("string"@, "selector"@, "Fallback CSS selector. Leave empty when using node_id."@, false)),
            ),
        )
}

fn with_pages(list: Listing) -> (r: Listing)
    ensures
        r@ == page_entries(list@),
{
    list.mutating(
            "page_click",
            "Click an element by snapshot node id or CSS selector.",
            Args::new()
                .integer("tab_id", "The Chrome tab id.", true)
                .string("node_id", "Preferred snapshot node id. Leave empty when using selector.", false)
                .string("selector", "Fallback CSS selector. Leave empty when using node_id.", false),
        ).mutating(
            "page_type",
            "Type text into an input-like element.",
            Args::new()
                .integer("tab_id", "The Chrome tab id.", true)
                .string("node_id", "Preferred snapshot node id. Leave empty when using selector.", false)
                .string("selector", "Fallback CSS selector. Leave empty when using node_id.", false)
                .string("text", "Text to type.", true)
                .boolean("clear", "Whether to clear existing text first.", false),
        ).mutating(
            "page_select",
            "Select an option in a select element.",
            Args::new()
                .integer("tab_id", "The Chrome tab id.", true)
                .string("node_id", "Preferred snapshot node id. Leave empty when using selector.", false)
                .string("selector", "Fallback CSS selector. Leave empty when using node_id.", false)
                .string("value", "Option value to select.", true),
        ).mutating(
            "page_scroll",
            "Scroll a page by a pixel delta.",
            Args::new()
                .integer("tab_id", "The Chrome tab id.", true)
                .integer("delta_x", "Horizontal scroll delta in pixels.", false)
                .integer("delta_y", "Vertical scroll delta in pixels.", false),
        ).mutating(
            "page_submit",
            "Submit a form element.",
            Args::new()
                .integer("tab_id", "The Chrome tab id.", true)
                .string("node_id", "Preferred snapshot node id. Leave empty when using selector.", false)
                .string("selector", "Fallback CSS selector. Leave empty when using node_id.", false),
        ).mutating(
            "page_focus",
            "Focus an element.",
            Args::new()
                .integer("tab_id", "The Chrome tab id.", true)
                .string("node_id", "Preferred snapshot node id. Leave empty when using selector.", false)
                .string("selector", "Fallback CSS selector. Leave empty when using node_id.", false),
        )
}

/// Files that the extension keeps.
pub open spec fn file_entries(list: Seq<Capability>) -> Seq<Capability> {
    list.push(
            offered(
                "file_download_url"@,
                "Download a URL into Huggr's extension-local file store."@,
                false,
                no_args()
                .push(arg("string"@, "url"@, "The absolute http(s) URL to download."@, true))
                .push(arg("string"@, "filename"@, "Optional preferred filename."@, false)),
            ),
        ).push(
            offered(
                "file_list_downloads"@,
                "List files downloaded into Huggr's extension-local file store."@,
                true,
                no_args(),
            ),
        ).push(
            offered(
                "file_read_metadata"@,
                "Read metadata for a file in Huggr's extension-local file store."@,
                true,
                no_args()
                .push(arg("string"@, "file_id"@, "The local Huggr file id."@, true)),
            ),
        ).push(
            offered(
                "file_upload_to_input"@,
                "Upload a Huggr-local file to a page file input."@,
                false,
                no_args()
                .push(arg("integer"@, "tab_id"@, "The Chrome tab id."@, true))
                .push(arg("string"@, "file_id"@, "The local Huggr file id to upload."@, true))
                .push(arg("string"@, "node_id"@, "Preferred snapshot node id. Leave empty when using selector."@, false))
                .push(arg("string"@, "selector"@, "Fallback CSS selector. Leave empty when using node_id."@, false)),
            ),
        ).push(
            offered(
                "file_delete"@,
                "Delete a file from Huggr's extension-local file store."@,
                false,
                no_args()
                .push(arg("string"@, "file_id"@, "The local Huggr file id."@, true)),
            ),
        )
}

fn with_files(list: Listing) -> (r: Listing)
    ensures
        r@ == file_entries(list@),
{
    list.mutating(
            "file_download_url",
            "Download a URL into Huggr's extension-local file store.",
            Args::new()
                .string("url", "The absolute http(s) URL to download.", true)
                .string("filename", "Optional preferred filename.", false),
        ).read_only(
            "file_list_downloads",
            "List files downloaded into Huggr's extension-local file store.",
            Args::new(),
        ).read_only(
            "file_read_metadata",
            "Read metadata for a file in Huggr's extension-local file store.",
            Args::new()
                .string("file_id", "The local Huggr file id.", true),
        ).mutating(
            "file_upload_to_input",
            "Upload a Huggr-local file to a page file input.",
            Args::new()
                .integer("tab_id", "The Chrome tab id.", true)
                .string("file_id", "The local Huggr file id to upload.", true)
                .string("node_id", "Preferred snapshot node id. Leave empty when using selector.", false)
                .string("selector", "Fallback CSS selector. Leave empty when using node_id.", false),
        ).mutating(
            "file_delete",
            "Delete a file from Huggr's extension-local file store.",
            Args::new()
                .string("file_id", "The local Huggr file id.", true),
        )
}
/// Everything that a browser host can be asked to do.
pub open spec fn browser_catalog() -> Seq<Capability> {
    file_entries(page_entries(reading_entries(tab_entries(Seq::empty()))))
}

/// Everything that a browser host can be asked to do.
pub fn browser_capabilities() -> (r: Vec<BrowserCapability>)
    ensures
        capability_views(r@) == browser_catalog(),
{
    let empty: Vec<BrowserCapability> = Vec::new();
    assert(capability_views(empty@) =~= Seq::<Capability>::empty());
    let all = with_files(with_pages(with_reading(with_tabs(Listing { list: empty }))));
    all.list
}

/// How each of these is advertised to a model.
pub fn browser_tool_schemas() -> (r: Vec<ToolSchema>)
    ensures
        r@.map_values(|s: ToolSchema| s@) == browser_catalog().map_values(
            |c: Capability| c.schema,
        ),
{
    let list = browser_capabilities();
    let ghost all = browser_catalog();
    let mut out: Vec<ToolSchema> = Vec::new();
    let mut i: usize = 0;
    while i < list.len()
        invariant
            i <= list@.len(),
            out@.len() == i,
            capability_views(list@) == all,
            forall|k: int| 0 <= k < i ==> (#[trigger] out@[k])@ == all[k].schema,
        decreases list.len() - i,
    {
        assert(all[i as int] == list@[i as int]@);
        out.push(list[i].schema.copy());
        i = i + 1;
    }
    assert(out@.map_values(|s: ToolSchema| s@) =~= all.map_values(|c: Capability| c.schema));
    out
}

} // verus!
