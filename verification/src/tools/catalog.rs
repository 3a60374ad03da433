//! The library of tools that a definition can grant.
use vstd::prelude::*;

use crate::text::{owned, same, views};

verus! {

/// One grant of the library: its name, the class of privilege it belongs to,
/// the tools it registers, and what they are for.
#[derive(Debug)]
pub struct LibraryToolSpec {
    pub id: &'static str,
    pub privilege: &'static str,
    pub tools: Vec<String>,
    pub summary: &'static str,
}

/// What a [`LibraryToolSpec`] denotes.
pub struct Entry {
    pub id: Seq<char>,
    pub privilege: Seq<char>,
    pub tools: Seq<Seq<char>>,
    pub summary: Seq<char>,
}

impl View for LibraryToolSpec {
    type V = Entry;

    open spec fn view(&self) -> Entry {
        Entry {
            id: self.id@,
            privilege: self.privilege@,
            tools: views(self.tools@),
            summary: self.summary@,
        }
    }
}

pub open spec fn entry(
    id: Seq<char>,
    privilege: Seq<char>,
    tools: Seq<Seq<char>>,
    summary: Seq<char>,
) -> Entry {
    Entry { id, privilege, tools, summary }
}

pub open spec fn no_names() -> Seq<Seq<char>> {
    Seq::empty()
}

pub open spec fn entry_views(list: Seq<LibraryToolSpec>) -> Seq<Entry> {
    list.map_values(|s: LibraryToolSpec| s@)
}

struct Names {
    list: Vec<String>,
}

impl View for Names {
    type V = Seq<Seq<char>>;

    closed spec fn view(&self) -> Seq<Seq<char>> {
        views(self.list@)
    }
}

impl Names {
    fn none() -> (r: Names)
        ensures
            r@ == no_names(),
    {
        let list: Vec<String> = Vec::new();
        assert(views(list@) =~= no_names());
        Names { list }
    }

    fn and(self, name: &str) -> (r: Names)
        ensures
            r@ == self@.push(name@),
    {
        let mut list = self.list;
        let ghost was = list@;
        list.push(owned(name));
        assert(views(list@) =~= views(was).push(name@));
        Names { list }
    }
}

struct Library {
    list: Vec<LibraryToolSpec>,
}

impl View for Library {
    type V = Seq<Entry>;

    closed spec fn view(&self) -> Seq<Entry> {
        entry_views(self.list@)
    }
}

impl Library {
    fn with(
        self,
        id: &'static str,
        privilege: &'static str,
        tools: Names,
        summary: &'static str,
    ) -> (r: Library)
        ensures
            r@ == self@.push(entry(id@, privilege@, tools@, summary@)),
    {
        let mut list = self.list;
        let ghost was = list@;
        list.push(LibraryToolSpec { id, privilege, tools: tools.list, summary });
        assert(entry_views(list@) =~= entry_views(was).push(
            entry(id@, privilege@, tools@, summary@),
        ));
        Library { list }
    }
}

/// The whole library.
pub open spec fn library() -> Seq<Entry> {
    Seq::empty().push(
        entry(
            "fs_read"@,
            "read_only"@,
            no_names().push("fs_list"@).push("fs_search"@).push("fs_grep"@).push("fs_glob"@).push("fs_read"@).push("fs_read_range"@).push("fs_read_many"@).push("fs_outline"@),
            "Root-jailed read-only filesystem access (list/search/grep/glob/read/outline)."@,
        ),
    ).push(
        entry(
            "fs_write"@,
            "write"@,
            no_names().push("fs_write"@).push("fs_create_dir"@).push("fs_remove"@),
            "Root-jailed filesystem writes, directory creation, and removal."@,
        ),
    ).push(
        entry(
            "shell"@,
            "process"@,
            no_names().push("shell"@),
            "Operator-granted full shell or direct execution of allowlisted commands."@,
        ),
    ).push(
        entry(
            "scratchpad"@,
            "scratchpad"@,
            no_names().push("scratch_read"@).push("scratch_write"@).push("scratch_list"@),
            "Per-lineage scratch directory (read/write/list)."@,
        ),
    ).push(
        entry(
            "memory"@,
            "memory"@,
            no_names().push("memory_read"@).push("memory_write"@).push("memory_list"@),
            "Agent-wide durable memory directory (read/write/list)."@,
        ),
    ).push(
        entry(
            "traces_read"@,
            "read_only"@,
            no_names().push("trace_list"@).push("trace_ops"@).push("trace_transcript"@).push("feedback_list"@),
            "Root-jailed read-only access to an agent's stored traces and feedback (summaries, paged transcripts)."@,
        ),
    ).push(
        entry(
            "web_fetch"@,
            "network"@,
            no_names().push("web_fetch"@),
            "Host/method-allowlisted HTTP fetch (GET-only by default)."@,
        ),
    ).push(
        entry(
            "web_search"@,
            "network"@,
            no_names().push("web_search"@),
            "Exa-backed web search using an API key from the environment."@,
        ),
    ).push(
        entry(
            "delegate"@,
            "delegation"@,
            no_names().push("delegate"@),
            "Spawn this built agent as an isolated child context."@,
        ),
    )
}

/// The whole library.
pub fn catalog() -> (r: Vec<LibraryToolSpec>)
    ensures
        entry_views(r@) == library(),
{
    let list: Vec<LibraryToolSpec> = Vec::new();
    assert(entry_views(list@) =~= Seq::<Entry>::empty());
    let whole = Library { list }.with(
        "fs_read",
        "read_only",
        Names::none().and("fs_list").and("fs_search").and("fs_grep").and("fs_glob").and("fs_read").and("fs_read_range").and("fs_read_many").and("fs_outline"),
        "Root-jailed read-only filesystem access (list/search/grep/glob/read/outline).",
    ).with(
        "fs_write",
        "write",
        Names::none().and("fs_write").and("fs_create_dir").and("fs_remove"),
        "Root-jailed filesystem writes, directory creation, and removal.",
    ).with(
        "shell",
        "process",
        Names::none().and("shell"),
        "Operator-granted full shell or direct execution of allowlisted commands.",
    ).with(
        "scratchpad",
        "scratchpad",
        Names::none().and("scratch_read").and("scratch_write").and("scratch_list"),
        "Per-lineage scratch directory (read/write/list).",
    ).with(
        "memory",
        "memory",
        Names::none().and("memory_read").and("memory_write").and("memory_list"),
        "Agent-wide durable memory directory (read/write/list).",
    ).with(
        "traces_read",
        "read_only",
        Names::none().and("trace_list").and("trace_ops").and("trace_transcript").and("feedback_list"),
        "Root-jailed read-only access to an agent's stored traces and feedback (summaries, paged transcripts).",
    ).with(
        "web_fetch",
        "network",
        Names::none().and("web_fetch"),
        "Host/method-allowlisted HTTP fetch (GET-only by default).",
    ).with(
        "web_search",
        "network",
        Names::none().and("web_search"),
        "Exa-backed web search using an API key from the environment.",
    ).with(
        "delegate",
        "delegation",
        Names::none().and("delegate"),
        "Spawn this built agent as an isolated child context.",
    );
    whole.list
}

/// The first of the entries from index `i` on that has the name `id`.
pub open spec fn entry_from(entries: Seq<Entry>, id: Seq<char>, i: int) -> Option<Entry>
    decreases entries.len() - i,
{
    if i < 0 || i >= entries.len() {
        None
    } else if entries[i].id == id {
        Some(entries[i])
    } else {
        entry_from(entries, id, i + 1)
    }
}

/// The entry of the library that has the name `id`.
pub open spec fn library_entry(id: Seq<char>) -> Option<Entry> {
    entry_from(library(), id, 0)
}

/// The entry of the library that has the name `id`.
pub fn spec(id: &str) -> (r: Option<LibraryToolSpec>)
    ensures
        match r {
            Some(s) => library_entry(id@) == Some(s@),
            None => library_entry(id@) is None,
        },
{
    let mut rest = catalog();
    let ghost all = library();
    let mut i: usize = 0;
    let n: usize = rest.len();
    while i < n && !same(rest[i].id, id)
        invariant
            i <= n,
            n == rest@.len(),
            entry_views(rest@) == all,
            library_entry(id@) == entry_from(all, id@, i as int),
            all == library(),
        decreases n - i,
    {
        assert(all[i as int] == rest@[i as int]@);
        i = i + 1;
    }
    if i < n {
        assert(all[i as int] == rest@[i as int]@);
        Some(rest.swap_remove(i))
    } else {
        None
    }
}

/// Only the tools that read files and traces are read-only; writing files, running
/// programs and reaching the network are privileges of their own.
pub proof fn law_privileges_are_told_apart(i: int)
    requires
        0 <= i < library().len(),
    ensures
        ({
            let e = library()[i];
            &&& library().len() == 9
            &&& e.privilege == "read_only"@ <==> e.id == "fs_read"@ || e.id == "traces_read"@
            &&& e.privilege == "write"@ <==> e.id == "fs_write"@
            &&& e.privilege == "process"@ <==> e.id == "shell"@
            &&& e.privilege == "network"@ <==> e.id == "web_fetch"@ || e.id == "web_search"@
            &&& e.privilege == "delegation"@ <==> e.id == "delegate"@
            &&& e.tools.contains("shell"@) <==> e.id == "shell"@
            &&& e.tools.contains("fs_write"@) <==> e.id == "fs_write"@
            &&& e.tools.contains("fs_read"@) <==> e.id == "fs_read"@
        }),
{
    reveal_strlit("fs_read");
    reveal_strlit("fs_write");
    reveal_strlit("shell");
    reveal_strlit("scratchpad");
    reveal_strlit("memory");
    reveal_strlit("traces_read");
    reveal_strlit("web_fetch");
    reveal_strlit("web_search");
    reveal_strlit("delegate");
    assert("fs_read"@.len() == 7);
    assert("fs_write"@.len() == 8);
    assert("shell"@.len() == 5);
    assert("scratchpad"@.len() == 10);
    assert("memory"@.len() == 6);
    assert("traces_read"@.len() == 11);
    assert("web_fetch"@.len() == 9);
    assert("web_search"@.len() == 10);
    assert("delegate"@.len() == 8);
    assert("fs_write"@[0] != "delegate"@[0]);
    assert("scratchpad"@[0] != "web_search"@[0]);
    reveal_strlit("read_only");
    reveal_strlit("write");
    reveal_strlit("process");
    reveal_strlit("scratchpad");
    reveal_strlit("memory");
    reveal_strlit("network");
    reveal_strlit("delegation");
    assert("read_only"@.len() == 9);
    assert("write"@.len() == 5);
    assert("process"@.len() == 7);
    assert("scratchpad"@.len() == 10);
    assert("memory"@.len() == 6);
    assert("network"@.len() == 7);
    assert("delegation"@.len() == 10);
    assert("process"@[0] != "network"@[0]);
    assert("scratchpad"@[0] != "delegation"@[0]);
    let e = library()[i];
    let t = e.tools;
    if e.id == "shell"@ {
        assert(t[0] == "shell"@);
    }
    if e.id == "fs_write"@ {
        assert(t[0] == "fs_write"@);
    }
    if e.id == "fs_read"@ {
        assert(t[4] == "fs_read"@);
    }
    reveal_strlit("fs_list");
    reveal_strlit("fs_search");
    reveal_strlit("fs_grep");
    reveal_strlit("fs_glob");
    reveal_strlit("fs_read");
    reveal_strlit("fs_read_range");
    reveal_strlit("fs_read_many");
    reveal_strlit("fs_outline");
    reveal_strlit("fs_write");
    reveal_strlit("fs_create_dir");
    reveal_strlit("fs_remove");
    reveal_strlit("shell");
    reveal_strlit("scratch_read");
    reveal_strlit("scratch_write");
    reveal_strlit("scratch_list");
    reveal_strlit("memory_read");
    reveal_strlit("memory_write");
    reveal_strlit("memory_list");
    reveal_strlit("trace_list");
    reveal_strlit("trace_ops");
    reveal_strlit("trace_transcript");
    reveal_strlit("feedback_list");
    reveal_strlit("web_fetch");
    reveal_strlit("web_search");
    reveal_strlit("delegate");
    assert("fs_list"@.len() == 7);
    assert("fs_search"@.len() == 9);
    assert("fs_grep"@.len() == 7);
    assert("fs_glob"@.len() == 7);
    assert("fs_read"@.len() == 7);
    assert("fs_read_range"@.len() == 13);
    assert("fs_read_many"@.len() == 12);
    assert("fs_outline"@.len() == 10);
    assert("fs_write"@.len() == 8);
    assert("fs_create_dir"@.len() == 13);
    assert("fs_remove"@.len() == 9);
    assert("shell"@.len() == 5);
    assert("scratch_read"@.len() == 12);
    assert("scratch_write"@.len() == 13);
    assert("scratch_list"@.len() == 12);
    assert("memory_read"@.len() == 11);
    assert("memory_write"@.len() == 12);
    assert("memory_list"@.len() == 11);
    assert("trace_list"@.len() == 10);
    assert("trace_ops"@.len() == 9);
    assert("trace_transcript"@.len() == 16);
    assert("feedback_list"@.len() == 13);
    assert("web_fetch"@.len() == 9);
    assert("web_search"@.len() == 10);
    assert("delegate"@.len() == 8);
    assert("fs_list"@[3] != "fs_grep"@[3]);
    assert("fs_list"@[3] != "fs_glob"@[3]);
    assert("fs_list"@[3] != "fs_read"@[3]);
    assert("fs_search"@[3] != "fs_remove"@[3]);
    assert("fs_search"@[0] != "trace_ops"@[0]);
    assert("fs_search"@[0] != "web_fetch"@[0]);
    assert("fs_grep"@[4] != "fs_glob"@[4]);
    assert("fs_grep"@[3] != "fs_read"@[3]);
    assert("fs_glob"@[3] != "fs_read"@[3]);
    assert("fs_read_range"@[3] != "fs_create_dir"@[3]);
    assert("fs_read_range"@[0] != "scratch_write"@[0]);
    assert("fs_read_range"@[1] != "feedback_list"@[1]);
    assert("fs_read_many"@[0] != "scratch_read"@[0]);
    assert("fs_read_many"@[0] != "scratch_list"@[0]);
    assert("fs_read_many"@[0] != "memory_write"@[0]);
    assert("fs_outline"@[0] != "trace_list"@[0]);
    assert("fs_outline"@[0] != "web_search"@[0]);
    assert("fs_write"@[0] != "delegate"@[0]);
    assert("fs_create_dir"@[0] != "scratch_write"@[0]);
    assert("fs_create_dir"@[1] != "feedback_list"@[1]);
    assert("fs_remove"@[0] != "trace_ops"@[0]);
    assert("fs_remove"@[0] != "web_fetch"@[0]);
    assert("scratch_read"@[8] != "scratch_list"@[8]);
    assert("scratch_read"@[0] != "memory_write"@[0]);
    assert("scratch_write"@[0] != "feedback_list"@[0]);
    assert("scratch_list"@[0] != "memory_write"@[0]);
    assert("memory_read"@[7] != "memory_list"@[7]);
    assert("trace_list"@[0] != "web_search"@[0]);
    assert("trace_ops"@[0] != "web_fetch"@[0]);
}

/// A grant is found in the library by its name, and the library has no other.
pub proof fn law_grants_are_found_by_name(entries: Seq<Entry>, i: int, k: int)
    requires
        0 <= i <= k < entries.len(),
        forall|j: int| i <= j < k ==> (#[trigger] entries[j]).id != entries[k].id,
    ensures
        entry_from(entries, entries[k].id, i) == Some(entries[k]),
    decreases k - i,
{
    if i < k {
        law_grants_are_found_by_name(entries, i + 1, k);
    }
}

} // verus!
