//! The private scratch directory of one ask: which paths its tools may read
//! and write, and what they return.
use vstd::prelude::*;

use crate::bytes::{byte_len, size};
use crate::json::{
    field, items_view, law_the_first_member_of_a_name_counts, lemma_array_view, no_fields, Data,
    Json, Members,
};
use crate::paths::{
    absolute, below, components_of, descends, is_absolute, is_under, join_path, names_of,
    path_join, path_names, relative_to, slashed, stays_inside, under, Part,
};
use crate::schema::{
    arguments, describe_text, free_arguments, free_schema, object_schema, one, text_argument, two,
    Schema, ToolSchema,
};
use crate::split::{join, joined};
use crate::text::{cat, cat3, owned, trim, trimmed, views};
use crate::tools::disk::{text_result, Disk, Kind, Node};
use crate::tools::walk::entry_names;

verus! {

/// The canonical directory that one ask's scratch tools are confined to.
#[derive(Debug)]
pub struct ScratchDir {
    root: String,
}

/// The path below the scratch directory that a tool's path names.
pub open spec fn scratch_path(root: Seq<char>, rel: Seq<char>) -> Result<Seq<char>, Seq<char>> {
    let r = trimmed(rel);
    if r.len() == 0 {
        Ok(root)
    } else if absolute(r) {
        Err("path must be relative to scratch root"@)
    } else if !stays_inside(r) {
        Err("path escapes scratch root: "@ + r)
    } else {
        Ok(path_join(root, r))
    }
}

/// The existing canonical path in the scratch directory that a tool's path
/// leads to.
pub open spec fn scratch_resolved(disk: &Disk, root: Seq<char>, rel: Seq<char>) -> Result<
    Seq<char>,
    Seq<char>,
> {
    match scratch_path(root, rel) {
        Err(e) => Err(e),
        Ok(p) => match disk.canonical(p) {
            None => Err(
                "path does not exist inside scratch root: "@ + rel + ": "@ + disk.reason(p),
            ),
            Some(c) => if under(c, root) {
                Ok(c)
            } else {
                Err("path escapes scratch root: "@ + rel)
            },
        },
    }
}

/// A file to write: the directory it stands in and its name there.
#[derive(Debug)]
pub struct WriteTarget {
    pub dir: String,
    pub name: String,
}

/// The names that a tool's path is made of.
pub open spec fn rel_names(rel: Seq<char>) -> Seq<Seq<char>> {
    names_of(components_of(trimmed(rel)))
}

/// The directory that a file to be written stands in.
pub open spec fn write_dir(root: Seq<char>, names: Seq<Seq<char>>) -> Seq<char> {
    if names.len() <= 1 {
        root
    } else {
        path_join(root, joined(names.drop_last(), "/"@))
    }
}

/// The file that a tool's path names for writing.
pub open spec fn write_target_of(root: Seq<char>, rel: Seq<char>) -> Result<
    (Seq<char>, Seq<char>),
    Seq<char>,
> {
    match scratch_path(root, rel) {
        Err(e) => Err(e),
        Ok(_) => {
            let names = rel_names(rel);
            if names.len() == 0 {
                Err("path must name a file, not the scratch root"@)
            } else {
                Ok((write_dir(root, names), names.last()))
            }
        },
    }
}

impl ScratchDir {
    /// The canonical directory.
    pub closed spec fn dir(&self) -> Seq<char> {
        self.root@
    }

    /// The jail at the canonical directory `root`.
    pub fn new(root: String) -> (r: ScratchDir)
        ensures
            r.dir() == root@,
    {
        ScratchDir { root }
    }

    pub fn root(&self) -> (r: &str)
        ensures
            r@ == self.dir(),
    {
        self.root.as_str()
    }

    /// The path that `rel` names below the directory: no absolute path and none
    /// with a step up is taken.
    pub fn resolve_rel(&self, rel: &str) -> (r: Result<String, String>)
        ensures
            text_result(r) == scratch_path(self.dir(), rel@),
    {
        let given = trim(rel);
        let t = given.as_str();
        if t.is_empty() {
            return Ok(self.root.clone());
        }
        if is_absolute(t) {
            return Err(owned("path must be relative to scratch root"));
        }
        if !descends(t) {
            return Err(cat("path escapes scratch root: ", t));
        }
        Ok(join_path(self.root.as_str(), t))
    }

    /// The existing canonical path that `rel` leads to in the directory.
    pub fn resolve_existing(&self, disk: &Disk, rel: &str) -> (r: Result<String, String>)
        ensures
            text_result(r) == scratch_resolved(disk, self.dir(), rel@),
    {
        let candidate = match self.resolve_rel(rel) {
            Ok(p) => p,
            Err(e) => {
                return Err(e);
            },
        };
        match disk.canonicalize(candidate.as_str()) {
            None => {
                let mut said = cat3("path does not exist inside scratch root: ", rel, ": ");
                said.append(disk.why(candidate.as_str()).as_str());
                Err(said)
            },
            Some(c) => if is_under(c.as_str(), self.root.as_str()) {
                Ok(c)
            } else {
                Err(cat("path escapes scratch root: ", rel))
            },
        }
    }

    /// The file that `rel` names for writing: the directory to create, and the
    /// name in it.
    pub fn plan_write(&self, rel: &str) -> (r: Result<WriteTarget, String>)
        ensures
            match r {
                Ok(t) => write_target_of(self.dir(), rel@) == Ok::<
                    (Seq<char>, Seq<char>),
                    Seq<char>,
                >((t.dir@, t.name@)),
                Err(e) => write_target_of(self.dir(), rel@) == Err::<
                    (Seq<char>, Seq<char>),
                    Seq<char>,
                >(e@),
            },
    {
        match self.resolve_rel(rel) {
            Err(e) => {
                return Err(e);
            },
            Ok(_) => {},
        }
        let t = trim(rel);
        let mut names = path_names(t.as_str());
        let ghost all = views(names@);
        match names.pop() {
            None => Err(owned("path must name a file, not the scratch root")),
            Some(name) => {
                assert(views(names@) =~= all.drop_last());
                assert(name@ == all.last());
                let dir = if names.len() == 0 {
                    self.root.clone()
                } else {
                    join_path(self.root.as_str(), join(&names, "/").as_str())
                };
                Ok(WriteTarget { dir, name })
            },
        }
    }

    /// The path to write, once the directory exists at the canonical path
    /// `canonical_dir`; refused where that has left the scratch directory.
    pub fn resolve_for_write(&self, rel: &str, canonical_dir: &str, name: &str) -> (r: Result<
        String,
        String,
    >)
        ensures
            text_result(r) == (if under(canonical_dir@, self.dir()) {
                Ok::<Seq<char>, Seq<char>>(path_join(canonical_dir@, name@))
            } else {
                Err("path escapes scratch root: "@ + rel@)
            }),
    {
        if is_under(canonical_dir, self.root.as_str()) {
            Ok(join_path(canonical_dir, name))
        } else {
            Err(cat("path escapes scratch root: ", rel))
        }
    }

    /// The path below the directory, with slashes between its names; other
    /// paths by all their names.
    pub fn rel_path(&self, path: &str) -> (r: String)
        ensures
            r@ == (if under(path@, self.dir()) {
                below(path@, self.dir())
            } else {
                slashed(path@)
            }),
    {
        match relative_to(path, self.root.as_str()) {
            Some(s) => s,
            None => crate::paths::path_to_slash(path),
        }
    }
}

/// The path that is shown for a path of the scratch directory.
pub open spec fn scratch_shown(root: Seq<char>, path: Seq<char>) -> Seq<char> {
    if under(path, root) {
        below(path, root)
    } else {
        slashed(path)
    }
}

/// A path that resolves lies in the scratch directory.
pub proof fn law_scratch_paths_stay_inside(disk: &Disk, root: Seq<char>, rel: Seq<char>)
    ensures
        scratch_resolved(disk, root, rel) matches Ok(c) ==> under(c, root),
{
}

/// An absolute path, or one with a step up, names nothing in the scratch
/// directory, neither for reading nor for writing.
pub proof fn law_scratch_refuses_escapes(disk: &Disk, root: Seq<char>, rel: Seq<char>)
    requires
        trimmed(rel).len() > 0,
        absolute(trimmed(rel)) || components_of(trimmed(rel)).contains(Part::Parent),
    ensures
        scratch_resolved(disk, root, rel) is Err,
        write_target_of(root, rel) is Err,
{
    let r = trimmed(rel);
    if components_of(r).contains(Part::Parent) {
        let i = components_of(r).index_of(Part::Parent);
        assert(components_of(r)[i] == Part::Parent);
    }
}

// ----- what the tools return -----
pub open spec fn error_json(text: Seq<char>) -> Json {
    Json::Object(no_fields().push(field("error"@, Json::Str(text))))
}

/// A tool error with a text.
pub fn error_value(text: &str) -> (r: Data)
    ensures
        r@ == error_json(text@),
{
    Members::new().with("error", Data::string(text)).object()
}

/// What a write to the scratch directory asks for.
#[derive(Debug)]
pub struct WriteRequest {
    pub path: String,
    pub content: String,
}

/// What `scratch_write` is asked to write.
pub open spec fn write_request_of(args: Json) -> Result<(Seq<char>, Seq<char>), Json> {
    match args.get_str("path"@) {
        None => Err(error_json("scratch_write requires string `path`"@)),
        Some(p) => match args.get_str("content"@) {
            None => Err(error_json("scratch_write requires string `content`"@)),
            Some(c) => Ok((p, c)),
        },
    }
}

pub fn write_request(args: &Data) -> (r: Result<WriteRequest, Data>)
    ensures
        match r {
            Ok(w) => write_request_of(args@) == Ok::<(Seq<char>, Seq<char>), Json>(
                (w.path@, w.content@),
            ),
            Err(e) => write_request_of(args@) == Err::<(Seq<char>, Seq<char>), Json>(e@),
        },
{
    let path = match args.get_str("path") {
        Some(p) => p,
        None => {
            return Err(error_value("scratch_write requires string `path`"));
        },
    };
    match args.get_str("content") {
        Some(c) => Ok(WriteRequest { path: owned(path), content: owned(c) }),
        None => Err(error_value("scratch_write requires string `content`")),
    }
}

/// What `scratch_write` returns once `content` is written at `path`.
pub fn written(dir: &ScratchDir, path: &str, content: &str) -> (r: Data)
    ensures
        r@ == Json::Object(
            no_fields().push(field("path"@, Json::Str(scratch_shown(dir.dir(), path@)))).push(
                field("bytes_written"@, Json::Int(size(content@) as int)),
            ),
        ),
{
    let n: usize = byte_len(content);
    Members::new().with("path", Data::string(dir.rel_path(path).as_str())).with(
        "bytes_written",
        Data::number(n as u64),
    ).object()
}

/// What `scratch_read` returns.
pub open spec fn scratch_read_of(disk: &Disk, root: Seq<char>, args: Json) -> Result<Json, Json> {
    match args.get_str("path"@) {
        None => Err(error_json("scratch_read requires string `path`"@)),
        Some(rel) => match scratch_resolved(disk, root, rel) {
            Err(e) => Err(error_json(e)),
            Ok(path) => if !disk.is_file(path) {
                Err(error_json("scratch_read path is not a file: "@ + rel))
            } else {
                match disk.held(path) {
                    Ok(content) => Ok(
                        Json::Object(
                            no_fields().push(
                                field("path"@, Json::Str(scratch_shown(root, path))),
                            ).push(field("content"@, Json::Str(content))),
                        ),
                    ),
                    Err(e) => Err(error_json("failed to read "@ + rel + ": "@ + e)),
                }
            },
        },
    }
}

/// Reads a text file of the scratch directory.
pub fn scratch_read(dir: &ScratchDir, disk: &Disk, args: &Data) -> (r: Result<Data, Data>)
    ensures
        crate::tools::fs_read::tool_view(r) == scratch_read_of(disk, dir.dir(), args@),
{
    let rel = match args.get_str("path") {
        Some(p) => p,
        None => {
            return Err(error_value("scratch_read requires string `path`"));
        },
    };
    let path = match dir.resolve_existing(disk, rel) {
        Ok(p) => p,
        Err(e) => {
            return Err(error_value(e.as_str()));
        },
    };
    if !disk.file(path.as_str()) {
        return Err(error_value(cat("scratch_read path is not a file: ", rel).as_str()));
    }
    match disk.read_held(path.as_str()) {
        Err(e) => {
            let mut said = cat3("failed to read ", rel, ": ");
            said.append(e.as_str());
            Err(error_value(said.as_str()))
        },
        Ok(text) => Ok(
            Members::new().with("path", Data::string(dir.rel_path(path.as_str()).as_str())).with(
                "content",
                Data::string(text.as_str()),
            ).object(),
        ),
    }
}

/// One entry of a listing of the scratch directory. Links are not followed: one
/// is listed as a file of no known length. What the host could not look at is
/// left out.
pub open spec fn scratch_entry(disk: &Disk, root: Seq<char>, path: Seq<char>) -> Option<Json> {
    match disk.node(path) {
        None => if disk.fault(path) is Some {
            None
        } else {
            Some(crate::tools::fs_read::entry_json(scratch_shown(root, path), false, None))
        },
        Some(n) => Some(
            crate::tools::fs_read::entry_json(
                scratch_shown(root, path),
                n.kind == Kind::Dir,
                if n.kind == Kind::File {
                    Some(n.bytes as int)
                } else {
                    None
                },
            ),
        ),
    }
}

/// The entries for the first `n` names.
pub open spec fn scratch_entries(
    disk: &Disk,
    root: Seq<char>,
    start: Seq<char>,
    names: Seq<Seq<char>>,
    n: int,
) -> Seq<Json>
    decreases n,
{
    if n <= 0 {
        Seq::empty()
    } else {
        let init = scratch_entries(disk, root, start, names, n - 1);
        match scratch_entry(disk, root, path_join(start, names[n - 1])) {
            Some(j) => init.push(j),
            None => init,
        }
    }
}

/// The names of a directory's entries in ascending order.
pub open spec fn sorted_names(node: Node) -> Seq<Seq<char>> {
    let names = entry_names(node.entries@);
    crate::sorting::order_of(names).map_values(|i: int| names[i])
}

pub fn names_in_order(node: &Node) -> (r: Vec<String>)
    ensures
        views(r@) == sorted_names(*node),
{
    let mut names: Vec<String> = Vec::new();
    let ghost all = entry_names(node.entries@);
    let mut i: usize = 0;
    assert(views(names@) =~= all.take(0));
    while i < node.entries.len()
        invariant
            i <= node.entries@.len(),
            all == entry_names(node.entries@),
            views(names@) == all.take(i as int),
        decreases node.entries.len() - i,
    {
        let ghost was = names@;
        let n = node.entries[i].name.clone();
        names.push(n);
        assert(views(names@) =~= views(was).push(n@));
        i = i + 1;
        assert(all.take(i as int) =~= all.take(i - 1).push(n@));
    }
    assert(all.take(i as int) =~= all);
    let order = crate::sorting::sort_order(&names);
    let mut out: Vec<String> = Vec::new();
    let ghost goal = sorted_names(*node);
    let mut k: usize = 0;
    assert(views(out@) =~= goal.take(0));
    while k < order.len()
        invariant
            k <= order@.len(),
            views(names@) == all,
            order@.len() == names@.len(),
            forall|j: int| 0 <= j < order@.len() ==> (#[trigger] order@[j]) < names@.len(),
            crate::sorting::ints(order@) == crate::sorting::order_of(all),
            goal == crate::sorting::order_of(all).map_values(|i: int| all[i]),
            views(out@) == goal.take(k as int),
        decreases order.len() - k,
    {
        let ghost was = out@;
        assert(crate::sorting::ints(order@)[k as int] == order@[k as int] as int);
        let n = names[order[k]].clone();
        out.push(n);
        assert(views(out@) =~= views(was).push(n@));
        assert(all[order@[k as int] as int] == n@);
        k = k + 1;
        assert(goal.take(k as int) =~= goal.take(k - 1).push(goal[k - 1]));
    }
    assert(goal.take(k as int) =~= goal);
    out
}

/// What `scratch_list` returns.
pub open spec fn scratch_list_of(disk: &Disk, root: Seq<char>, args: Json) -> Result<Json, Json> {
    let rel = match args.get_str("path"@) {
        Some(p) => p,
        None => Seq::empty(),
    };
    match scratch_resolved(disk, root, rel) {
        Err(e) => Err(error_json(e)),
        Ok(start) => if !disk.is_dir(start) {
            Err(error_json("scratch_list path is not a directory: "@ + rel))
        } else {
            match disk.listing(start) {
                Err(e) => Err(error_json("failed to list "@ + rel + ": "@ + e)),
                Ok(node) => {
                    let names = sorted_names(node);
                    Ok(
                        Json::Object(
                            no_fields().push(
                                field(
                                    "entries"@,
                                    Json::Array(
                                        scratch_entries(
                                            disk,
                                            root,
                                            start,
                                            names,
                                            names.len() as int,
                                        ),
                                    ),
                                ),
                            ),
                        ),
                    )
                },
            }
        },
    }
}

/// Lists a directory of the scratch directory.
pub fn scratch_list(dir: &ScratchDir, disk: &Disk, args: &Data) -> (r: Result<Data, Data>)
    ensures
        crate::tools::fs_read::tool_view(r) == scratch_list_of(disk, dir.dir(), args@),
{
    let rel = match args.get_str("path") {
        Some(p) => owned(p),
        None => String::new(),
    };
    let start = match dir.resolve_existing(disk, rel.as_str()) {
        Ok(p) => p,
        Err(e) => {
            return Err(error_value(e.as_str()));
        },
    };
    if !disk.dir(start.as_str()) {
        return Err(
            error_value(cat("scratch_list path is not a directory: ", rel.as_str()).as_str()),
        );
    }
    let node = match disk.list(start.as_str()) {
        Ok(n) => n,
        Err(e) => {
            let mut said = cat3("failed to list ", rel.as_str(), ": ");
            said.append(e.as_str());
            return Err(error_value(said.as_str()));
        },
    };
    let names = names_in_order(node);
    let ghost nv = views(names@);
    let mut items: Vec<Data> = Vec::new();
    let mut i: usize = 0;
    assert(items_view(items@) =~= Seq::<Json>::empty());
    while i < names.len()
        invariant
            i <= names@.len(),
            nv == views(names@),
            items_view(items@) == scratch_entries(disk, dir.dir(), start@, nv, i as int),
        decreases names.len() - i,
    {
        let ghost was = items@;
        let path = join_path(start.as_str(), names[i].as_str());
        assert(nv[i as int] == names@[i as int]@);
        let seen = match disk.find(path.as_str()) {
            Some(n) => if matches!(n.kind, Kind::File) {
                Some((false, Some(n.bytes)))
            } else {
                Some((matches!(n.kind, Kind::Dir), None))
            },
            None => match disk.fault_at(path.as_str()) {
                Some(_) => None,
                None => Some((false, None)),
            },
        };
        if let Some((is_dir, bytes)) = seen {
            let shown = dir.rel_path(path.as_str());
            let e = crate::tools::fs_read::entry_value(shown.as_str(), is_dir, bytes);
            items.push(e);
            assert(items_view(items@) =~= items_view(was).push(e@));
        }
        i = i + 1;
    }
    proof {
        lemma_array_view(items);
    }
    Ok(Members::new().with("entries", Data::Array(items)).object())
}

// ----- schemas -----
pub open spec fn scratch_write_spec() -> Schema {
    Schema {
        name: "scratch_write"@,
        description:
            "Write text to a file in your private scratch directory, creating or overwriting it. Paths are relative to the scratch root; parent directories are created as needed."@,
        parameters: arguments(
            no_fields().push(
                field("path"@, text_argument("File path relative to the scratch root."@)),
            ).push(field("content"@, text_argument("The full contents to write."@))),
            seq!["path"@, "content"@],
        ),
    }
}

pub fn scratch_write_schema() -> (r: ToolSchema)
    ensures
        r@ == scratch_write_spec(),
{
    ToolSchema::new(
        "scratch_write",
        "Write text to a file in your private scratch directory, creating or overwriting it. Paths are relative to the scratch root; parent directories are created as needed.",
        object_schema(
            Members::new().with(
                "path",
                describe_text("File path relative to the scratch root."),
            ).with("content", describe_text("The full contents to write.")),
            &two("path", "content"),
        ),
    )
}

pub open spec fn scratch_read_spec() -> Schema {
    Schema {
        name: "scratch_read"@,
        description:
            "Read a UTF-8 text file from your private scratch directory. Paths are relative to the scratch root."@,
        parameters: arguments(
            no_fields().push(
                field("path"@, text_argument("File path relative to the scratch root."@)),
            ),
            seq!["path"@],
        ),
    }
}

pub fn scratch_read_schema() -> (r: ToolSchema)
    ensures
        r@ == scratch_read_spec(),
{
    ToolSchema::new(
        "scratch_read",
        "Read a UTF-8 text file from your private scratch directory. Paths are relative to the scratch root.",
        object_schema(
            Members::new().with(
                "path",
                describe_text("File path relative to the scratch root."),
            ),
            &one("path"),
        ),
    )
}

pub open spec fn scratch_list_spec() -> Schema {
    Schema {
        name: "scratch_list"@,
        description:
            "List files and directories in your private scratch directory. Paths are relative to the scratch root; the default is the root itself."@,
        parameters: free_arguments(
            no_fields().push(
                field(
                    "path"@,
                    text_argument("Relative directory path. Defaults to the scratch root."@),
                ),
            ),
        ),
    }
}

pub fn scratch_list_schema() -> (r: ToolSchema)
    ensures
        r@ == scratch_list_spec(),
{
    ToolSchema::new(
        "scratch_list",
        "List files and directories in your private scratch directory. Paths are relative to the scratch root; the default is the root itself.",
        free_schema(
            Members::new().with(
                "path",
                describe_text("Relative directory path. Defaults to the scratch root."),
            ),
        ),
    )
}

/// The schemas of the scratch tools.
pub fn scratch_tool_schemas() -> (r: Vec<ToolSchema>)
    ensures
        r@.len() == 3,
        r@[0]@ == scratch_write_spec(),
        r@[1]@ == scratch_read_spec(),
        r@[2]@ == scratch_list_spec(),
{
    let mut v: Vec<ToolSchema> = Vec::new();
    v.push(scratch_write_schema());
    v.push(scratch_read_schema());
    v.push(scratch_list_schema());
    v
}

/// A file of the scratch directory is read as what it holds, under the path it is
/// shown by; a path that is no file there gives nothing.
pub proof fn law_scratch_files_are_read_as_held(
    disk: &Disk,
    root: Seq<char>,
    args: Json,
    rel: Seq<char>,
)
    requires
        args.get_str("path"@) == Some(rel),
    ensures
        ({
            let r = scratch_read_of(disk, root, args);
            let at = scratch_resolved(disk, root, rel);
            &&& r is Ok <==> at is Ok && disk.is_file(at->Ok_0) && disk.held(at->Ok_0) is Ok
            &&& r matches Ok(v) ==> {
                &&& v.get_str("content"@) == Some(disk.held(at->Ok_0)->Ok_0)
                &&& v.get_str("path"@) == Some(below(at->Ok_0, root))
            }
        }),
{
    if let Ok(v) = scratch_read_of(disk, root, args) {
        reveal_strlit("path");
        reveal_strlit("content");
        assert("path"@.len() == 4);
        assert("content"@.len() == 7);
        let fs = scratch_read_of(disk, root, args)->Ok_0->Object_0;
        assert(fs[0].key == "path"@);
        assert(fs[1].key == "content"@);
        law_the_first_member_of_a_name_counts(fs, 0);
        law_the_first_member_of_a_name_counts(fs, 1);
    }
}

/// A listing of the scratch directory has an entry for every name that can be
/// looked at: one more name adds its entry at the end, a directory as a directory,
/// a file as a file with its length.
pub proof fn law_scratch_listings_tell_what_stands_there(
    disk: &Disk,
    root: Seq<char>,
    start: Seq<char>,
    names: Seq<Seq<char>>,
    n: int,
)
    requires
        0 <= n < names.len(),
        under(path_join(start, names[n]), root),
    ensures
        ({
            let before = scratch_entries(disk, root, start, names, n);
            let after = scratch_entries(disk, root, start, names, n + 1);
            let path = path_join(start, names[n]);
            match disk.node(path) {
                Some(node) => {
                    &&& after.len() == before.len() + 1
                    &&& after.drop_last() == before
                    &&& after.last().get_str("path"@) == Some(below(path, root))
                    &&& node.kind == Kind::Dir ==> after.last().get_str("kind"@) == Some("dir"@)
                    &&& node.kind == Kind::File ==> after.last().get_str("kind"@) == Some("file"@)
                        && after.last().get("bytes"@) == Some(Json::Int(node.bytes as int))
                },
                None => disk.fault(path) is Some ==> after == before,
            }
        }),
{
    let path = path_join(start, names[n]);
    let before = scratch_entries(disk, root, start, names, n);
    let after = scratch_entries(disk, root, start, names, n + 1);
    if let Some(node) = disk.node(path) {
        assert(after.drop_last() =~= before);
        reveal_strlit("path");
        reveal_strlit("kind");
        reveal_strlit("bytes");
        assert("path"@.len() == 4);
        assert("kind"@.len() == 4);
        assert("bytes"@.len() == 5);
        assert("path"@[0] != "kind"@[0]);
        let fs = after.last()->Object_0;
        assert(fs[0].key == "path"@);
        assert(fs[1].key == "kind"@);
        assert(fs[2].key == "bytes"@);
        law_the_first_member_of_a_name_counts(fs, 0);
        law_the_first_member_of_a_name_counts(fs, 1);
        law_the_first_member_of_a_name_counts(fs, 2);
    }
}

/// A write asks for the content given under `content`, at the path given under
/// `path`, and for nothing where either is missing.
pub proof fn law_writes_are_as_asked(args: Json, path: Seq<char>, content: Seq<char>)
    ensures
        write_request_of(args) == Ok::<(Seq<char>, Seq<char>), Json>((path, content)) <==> (
        args.get_str("path"@) == Some(path) && args.get_str("content"@) == Some(content)),
{
}

/// A file of one name is written in the scratch directory itself, a longer path
/// below it, and always under the last name of the path.
pub proof fn law_writes_go_where_their_path_leads(root: Seq<char>, rel: Seq<char>)
    ensures
        ({
            let names = rel_names(rel);
            write_target_of(root, rel) matches Ok((dir, name)) ==> {
                &&& names.len() > 0 && name == names[names.len() - 1]
                &&& names.len() == 1 ==> dir == root
                &&& names.len() == 2 ==> dir == path_join(root, names[0])
            }
        }),
        trimmed(rel).len() == 0 ==> write_target_of(root, rel) is Err,
{
    let names = rel_names(rel);
    if names.len() == 2 {
        assert(names.drop_last()[0] == names[0]);
    }
    if trimmed(rel).len() == 0 {
        assert(trimmed(rel) =~= Seq::<char>::empty());
        let ps = crate::split::pieces(trimmed(rel), '/');
        assert(ps =~= seq![Seq::<char>::empty()]);
        reveal_with_fuel(crate::paths::parts_of, 2);
        assert(components_of(trimmed(rel)) =~= Seq::<Part>::empty());
    }
}

} // verus!
