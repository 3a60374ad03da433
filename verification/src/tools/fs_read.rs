//! The read-only file tools: list, search, grep, glob, read, read a range,
//! read many, and outline, over named jails.
use vstd::prelude::*;
use vstd::utf8::{decode_utf8, valid_utf8};

use super::disk::{
    root_resolved, shown, targets, targets_view, Disk, FsRoot, Kind, Node, Place, Target,
};
use super::walk::{files_below, read_dir, sorted_targets, walk_files};
use crate::bytes::{
    byte_len, byte_lines, byte_range, byte_views, law_cut_texts_are_the_longest_that_fit,
    lemma_decoded_without_line_feed, lemma_file_lines_hold_no_line_feed, longest_prefix, lossy,
    lossy_text, prefix_within, size, split_lines, strict, truncate_utf8_prefix,
};
use crate::json::{
    field, items_view, law_the_first_member_of_a_name_counts, lemma_array_view, no_fields, Data,
    Json, Members,
};
use crate::paths::{extension, extension_of, under};
use crate::split::{extend, join, joined, law_splitting_undoes_joining, pieces};
use crate::text::{
    cat, chars_of, drop_while, is_space, lowered, owned, same, skip_while, space, to_lower, trim,
    trim_end_matches, trim_start, trim_start_matches, trimmed, trimmed_start, views,
};

verus! {

pub const DEFAULT_READ_LIMIT_BYTES: u64 = 200_000;

pub const MAX_READ_LIMIT_BYTES: u64 = 1_000_000;

pub const DEFAULT_SEARCH_LIMIT_BYTES: u64 = 512_000;

pub const DEFAULT_LIST_LIMIT: u64 = 500;

pub const MAX_LIST_LIMIT: u64 = 2_000;

pub const DEFAULT_MAX_MATCHES: u64 = 50;

pub const MAX_MATCHES: u64 = 500;

pub const DEFAULT_RANGE_MAX_LINES: u64 = 200;

pub const MAX_RANGE_LINES: u64 = 5_000;

pub const MAX_BATCH_READS: u64 = 50;

pub const DEFAULT_OUTLINE_MAX_DOCUMENTS: u64 = 100;

pub const MAX_OUTLINE_DOCUMENTS: u64 = 1_000;

pub const DEFAULT_OUTLINE_MAX_HEADINGS: u64 = 1_000;

pub const MAX_OUTLINE_HEADINGS: u64 = 5_000;

pub const WALK_CEILING: usize = 20_000;

/// The view of a tool's result: a value, or an error text.
pub open spec fn outcome(r: Result<Data, String>) -> Result<Json, Seq<char>> {
    match r {
        Ok(v) => Ok(v@),
        Err(e) => Err(e@),
    }
}

/// The number that argument `key` asks for, held between `least` and
/// `greatest`; `default` where it asks for none.
pub open spec fn limit_of(args: Json, key: Seq<char>, default: int, least: int, greatest: int) -> int {
    let n = match args.get_u64(key) {
        Some(n) => n,
        None => default,
    };
    if n < least {
        least
    } else if n > greatest {
        greatest
    } else {
        n
    }
}

pub fn limit_arg(args: &Data, key: &str, default: u64, least: u64, greatest: u64) -> (r: u64)
    requires
        least <= greatest,
    ensures
        r == limit_of(args@, key@, default as int, least as int, greatest as int),
        least <= r <= greatest,
{
    let n: u64 = match args.get_u64(key) {
        Some(n) => n,
        None => default,
    };
    if n < least {
        least
    } else if n > greatest {
        greatest
    } else {
        n
    }
}

/// The tool result for an outcome: an error becomes an object with the text.
pub open spec fn wrapped(r: Result<Json, Seq<char>>) -> Result<Json, Json> {
    match r {
        Ok(v) => Ok(v),
        Err(e) => Err(Json::Object(no_fields().push(field("error"@, Json::Str(e))))),
    }
}

/// The view of what a tool hands back.
pub open spec fn tool_view(r: Result<Data, Data>) -> Result<Json, Json> {
    match r {
        Ok(v) => Ok(v@),
        Err(e) => Err(e@),
    }
}

pub fn wrap(r: Result<Data, String>) -> (out: Result<Data, Data>)
    ensures
        tool_view(out) == wrapped(outcome(r)),
{
    match r {
        Ok(v) => Ok(v),
        Err(e) => Err(Members::new().with("error", Data::string(e.as_str())).object()),
    }
}

/// The file's name marks it as text.
pub open spec fn textual(path: Seq<char>) -> bool {
    match extension_of(path) {
        Some(e) => {
            let x = lowered(e);
            ||| x == "md"@
            ||| x == "mdx"@
            ||| x == "txt"@
            ||| x == "rst"@
            ||| x == "adoc"@
            ||| x == "json"@
            ||| x == "yaml"@
            ||| x == "yml"@
            ||| x == "toml"@
            ||| x == "csv"@
        },
        None => false,
    }
}

pub fn looks_textual(path: &str) -> (r: bool)
    ensures
        r == textual(path@),
{
    match extension(path) {
        Some(e) => {
            let lower = to_lower(e.as_str());
            let x = lower.as_str();
            same(x, "md") || same(x, "mdx") || same(x, "txt") || same(x, "rst") || same(x, "adoc")
                || same(x, "json") || same(x, "yaml") || same(x, "yml") || same(x, "toml") || same(
                x,
                "csv",
            )
        },
        None => false,
    }
}

/// The text of the first `limit` bytes.
pub open spec fn head_text(content: Seq<u8>, limit: int) -> Seq<char> {
    if content.len() > limit {
        lossy_text(content.take(limit))
    } else {
        lossy_text(content)
    }
}

/// The text of at most `limit` leading bytes of a file, and whether there are
/// more.
pub fn read_utf8_prefix(node: &Node, limit: usize) -> (r: (String, bool))
    ensures
        r.0@ == head_text(node.content@, limit as int),
        r.1 == (node.content@.len() > limit),
{
    if node.content.len() > limit {
        let head = byte_range(&node.content, 0, limit);
        assert(node.content@.subrange(0, limit as int) =~= node.content@.take(limit as int));
        (lossy(&head), true)
    } else {
        (lossy(&node.content), false)
    }
}

/// A markdown heading: its level and its text.
pub open spec fn heading_of(line: Seq<char>) -> Option<(int, Seq<char>)> {
    let t = trimmed_start(line);
    let rest = skip_while(t, |c: char| c == '#');
    let level = t.len() - rest.len();
    let text = trimmed(drop_while(trimmed(rest), |c: char| c == '#'));
    if level == 0 || level > 6 {
        None
    } else if rest.len() > 0 && !is_space(rest[0]) {
        None
    } else if text.len() == 0 {
        None
    } else {
        Some((level, text))
    }
}

proof fn lemma_skip_while_shorter(s: Seq<char>, p: spec_fn(char) -> bool)
    ensures
        skip_while(s, p).len() <= s.len(),
    decreases s.len(),
{
    if s.len() > 0 && p(s[0]) {
        lemma_skip_while_shorter(s.skip(1), p);
    }
}

/// The heading that a line is, where it is one.
pub fn markdown_heading(line: &str) -> (r: Option<(usize, String)>)
    ensures
        match r {
            Some((level, text)) => heading_of(line@) == Some((level as int, text@)) && 1 <= level
                <= 6,
            None => heading_of(line@) is None,
        },
{
    let t = trim_start(line);
    let rest = trim_start_matches(t.as_str(), '#');
    let rest_chars = chars_of(rest.as_str());
    let whole: usize = chars_of(t.as_str()).len();
    proof {
        lemma_skip_while_shorter(t@, |c: char| c == '#');
    }
    let level: usize = whole - rest_chars.len();
    if level == 0 || level > 6 {
        return None;
    }
    if rest_chars.len() > 0 && !space(rest_chars[0]) {
        return None;
    }
    let inner = trim(rest.as_str());
    let cut = trim_end_matches(inner.as_str(), '#');
    let text = trim(cut.as_str());
    if text.as_str().is_empty() {
        None
    } else {
        Some((level, text))
    }
}

// ----- list -----
/// One entry of a listing.
pub open spec fn entry_json(path: Seq<char>, dir: bool, bytes: Option<int>) -> Json {
    Json::Object(
        no_fields().push(field("path"@, Json::Str(path))).push(
            field(
                "kind"@,
                Json::Str(
                    if dir {
                        "dir"@
                    } else {
                        "file"@
                    },
                ),
            ),
        ).push(
            field(
                "bytes"@,
                match bytes {
                    Some(n) => Json::Int(n),
                    None => Json::Null,
                },
            ),
        ),
    )
}

pub fn entry_value(path: &str, dir: bool, bytes: Option<u64>) -> (r: Data)
    ensures
        r@ == entry_json(
            path@,
            dir,
            match bytes {
                Some(n) => Some(n as int),
                None => None,
            },
        ),
{
    let kind = if dir {
        "dir"
    } else {
        "file"
    };
    let b = match bytes {
        Some(n) => Data::number(n),
        None => Data::null(),
    };
    Members::new().with("path", Data::string(path)).with("kind", Data::string(kind)).with(
        "bytes",
        b,
    ).object()
}

/// A listing.
pub open spec fn listing_json(entries: Seq<Json>, truncated: bool) -> Json {
    Json::Object(
        no_fields().push(field("entries"@, Json::Array(entries))).push(
            field("truncated"@, Json::Bool(truncated)),
        ),
    )
}

/// The entries of a directory that lie in the jail, in order of their names.
pub open spec fn entries_inside(entries: Seq<Option<Seq<char>>>, dir: Seq<char>) -> Seq<Seq<char>>
    decreases entries.len(),
{
    if entries.len() == 0 {
        Seq::empty()
    } else {
        let init = entries_inside(entries.drop_last(), dir);
        match entries.last() {
            Some(t) => if under(t, dir) {
                init.push(t)
            } else {
                init
            },
            None => init,
        }
    }
}

/// The paths that a listing of the targets from index `i` on gathers, until
/// there are `most` of them.
pub open spec fn gathered(
    disk: &Disk,
    places: Seq<Place>,
    ts: Seq<Target>,
    i: int,
    recursive: bool,
    most: int,
    acc: Seq<Seq<char>>,
) -> Result<Seq<Seq<char>>, Seq<char>>
    decreases ts.len() - i,
{
    if i < 0 || i >= ts.len() {
        Ok(acc)
    } else if !disk.is_dir(ts[i].start) {
        Err("fs_list path must be a directory"@)
    } else {
        let dir = places[ts[i].jail].dir;
        let left = if most - acc.len() < 1 {
            1
        } else {
            most - acc.len()
        };
        let more = if recursive {
            files_below(disk, dir, ts[i].start, left as nat)
        } else {
            match disk.listing(ts[i].start) {
                Err(_) => Err("listing "@ + ts[i].start),
                Ok(n) => Ok(entries_inside(sorted_targets(n.entries@), dir)),
            }
        };
        match more {
            Err(e) => Err(e),
            Ok(found) => {
                let all = acc + found;
                if all.len() >= most {
                    Ok(all)
                } else {
                    gathered(disk, places, ts, i + 1, recursive, most, all)
                }
            },
        }
    }
}

/// The entries of a listing of the first `n` paths.
pub open spec fn listed(disk: &Disk, places: Seq<Place>, paths: Seq<Seq<char>>, n: int) -> Result<
    Seq<Json>,
    Seq<char>,
>
    decreases n,
{
    if n <= 0 {
        Ok(Seq::empty())
    } else {
        match listed(disk, places, paths, n - 1) {
            Err(e) => Err(e),
            Ok(init) => match disk.node(paths[n - 1]) {
                None => Err("stat "@ + paths[n - 1]),
                Some(node) => match shown(places, paths[n - 1]) {
                    Err(e) => Err(e),
                    Ok(rel) => Ok(
                        init.push(
                            entry_json(
                                rel,
                                node.kind == Kind::Dir,
                                if node.kind == Kind::File {
                                    Some(node.bytes as int)
                                } else {
                                    None
                                },
                            ),
                        ),
                    ),
                },
            },
        }
    }
}

/// The most entries that a listing asks for.
pub open spec fn list_limit(args: Json) -> int {
    limit_of(
        args,
        "max_entries"@,
        DEFAULT_LIST_LIMIT as int,
        1,
        MAX_LIST_LIMIT as int,
    )
}

/// What `fs_list` returns.
pub open spec fn list_result_of(disk: &Disk, places: Seq<Place>, args: Json) -> Result<
    Json,
    Seq<char>,
> {
    let path = args.get_str("path"@);
    let has_path = match path {
        Some(p) => trimmed(p).len() > 0,
        None => false,
    };
    let recursive = args.get_bool("recursive"@) == Some(true);
    let most = list_limit(args);
    if !has_path && !recursive {
        Ok(
            listing_json(
                places.map_values(|p: Place| entry_json(p.name, true, None)),
                false,
            ),
        )
    } else {
        match targets(disk, places, path) {
            Err(e) => Err(e),
            Ok(ts) => match gathered(disk, places, ts, 0, recursive, most, Seq::empty()) {
                Err(e) => Err(e),
                Ok(paths) => {
                    let n = if paths.len() > most {
                        most
                    } else {
                        paths.len() as int
                    };
                    match listed(disk, places, paths, n) {
                        Err(e) => Err(e),
                        Ok(entries) => Ok(listing_json(entries, entries.len() >= most)),
                    }
                },
            },
        }
    }
}

/// The entries of a directory that lie in the jail.
fn inside(root: &FsRoot, jail: usize, node: &Node) -> (r: Vec<String>)
    requires
        jail < root@.len(),
    ensures
        views(r@) == entries_inside(sorted_targets(node.entries@), root@[jail as int].dir),
{
    let entries = read_dir(node);
    let ghost es = entries@.map_values(|t: Option<String>| crate::json::opt_view(t));
    let ghost dir = root@[jail as int].dir;
    let mut out: Vec<String> = Vec::new();
    let mut i: usize = 0;
    assert(views(out@) =~= entries_inside(es.take(0), dir));
    while i < entries.len()
        invariant
            jail < root@.len(),
            i <= entries@.len(),
            dir == root@[jail as int].dir,
            es == entries@.map_values(|t: Option<String>| crate::json::opt_view(t)),
            views(out@) == entries_inside(es.take(i as int), dir),
        decreases entries.len() - i,
    {
        assert(es.take(i + 1).drop_last() =~= es.take(i as int));
        assert(es.take(i + 1).last() == crate::json::opt_view(entries@[i as int]));
        match &entries[i] {
            None => {},
            Some(t) => {
                if root.jail_at(jail).contains(t.as_str()) {
                    let ghost was = out@;
                    out.push(t.clone());
                    assert(views(out@) =~= views(was).push(t@));
                }
            },
        }
        i = i + 1;
    }
    assert(es.take(i as int) =~= es);
    out
}

/// Lists files and directories. Without a path it lists the roots themselves.
pub fn list_impl(root: &FsRoot, disk: &Disk, args: &Data) -> (r: Result<Data, String>)
    ensures
        outcome(r) == list_result_of(disk, root@, args@),
{
    let path = args.get_str("path");
    let has_path = match path {
        Some(p) => !trim(p).as_str().is_empty(),
        None => false,
    };
    let recursive = match args.get_bool("recursive") {
        Some(b) => b,
        None => false,
    };
    let most: usize = limit_arg(
        args,
        "max_entries",
        DEFAULT_LIST_LIMIT,
        1,
        MAX_LIST_LIMIT,
    ) as usize;
    let mut items: Vec<Data> = Vec::new();
    if !has_path && !recursive {
        let mut i: usize = 0;
        let ghost goal = root@.map_values(|p: Place| entry_json(p.name, true, None));
        assert(items_view(items@) =~= goal.take(0));
        while i < root.len()
            invariant
                i <= root@.len(),
                goal == root@.map_values(|p: Place| entry_json(p.name, true, None)),
                items_view(items@) == goal.take(i as int),
            decreases root@.len() - i,
        {
            let ghost was = items@;
            let e = entry_value(root.name_at(i), true, None);
            items.push(e);
            assert(items_view(items@) =~= items_view(was).push(e@));
            i = i + 1;
            assert(goal.take(i as int) =~= goal.take(i - 1).push(goal[i - 1]));
        }
        assert(goal.take(i as int) =~= goal);
        proof {
            lemma_array_view(items);
        }
        return Ok(
            Members::new().with("entries", Data::Array(items)).with(
                "truncated",
                Data::boolean(false),
            ).object(),
        );
    }
    let ts = match root.walk_targets(disk, path) {
        Ok(ts) => ts,
        Err(e) => {
            return Err(e);
        },
    };
    let ghost tv = targets_view(ts@);
    let mut paths: Vec<String> = Vec::new();
    let mut i: usize = 0;
    let ghost goal = gathered(disk, root@, tv, 0, recursive, most as int, Seq::empty());
    assert(views(paths@) =~= Seq::<Seq<char>>::empty());
    let mut enough = false;
    while i < ts.len() && !enough
        invariant
            i <= ts@.len(),
            tv == targets_view(ts@),
            most >= 1,
            forall|k: int| 0 <= k < ts@.len() ==> (#[trigger] ts@[k]).0 < root@.len(),
            enough ==> goal == Ok::<Seq<Seq<char>>, Seq<char>>(views(paths@)),
            !enough ==> goal == gathered(
                disk,
                root@,
                tv,
                i as int,
                recursive,
                most as int,
                views(paths@),
            ),
            outcome_is(disk, root@, args@, goal),
        decreases ts.len() - i,
    {
        let start = ts[i].1.as_str();
        let jail: usize = ts[i].0;
        assert(tv[i as int].start == start@ && tv[i as int].jail == jail);
        if !disk.dir(start) {
            return Err(owned("fs_list path must be a directory"));
        }
        if recursive {
            let left: usize = if paths.len() >= most {
                1
            } else {
                most - paths.len()
            };
            match walk_files(disk, root.jail_at(jail), start, left) {
                Ok(found) => {
                    extend(&mut paths, &found);
                },
                Err(e) => {
                    return Err(e);
                },
            }
        } else {
            match disk.list(start) {
                Ok(node) => {
                    let found = inside(root, jail, node);
                    extend(&mut paths, &found);
                },
                Err(_) => {
                    return Err(cat("listing ", start));
                },
            }
        }
        if paths.len() >= most {
            enough = true;
        }
        i = i + 1;
    }
    let n: usize = if paths.len() > most {
        most
    } else {
        paths.len()
    };
    let mut k: usize = 0;
    assert(items_view(items@) =~= Seq::<Json>::empty());
    while k < n
        invariant
            k <= n <= paths@.len(),
            listed(disk, root@, views(paths@), k as int) == Ok::<Seq<Json>, Seq<char>>(
                items_view(items@),
            ),
            items@.len() == k,
            list_done(disk, root@, args@, views(paths@), n as int),
        decreases n - k,
    {
        let p = paths[k].as_str();
        assert(views(paths@)[k as int] == p@);
        let node = match disk.find(p) {
            Some(node) => node,
            None => {
                proof {
                    lemma_listed_error(disk, root@, views(paths@), k + 1, n as int);
                }
                return Err(cat("stat ", p));
            },
        };
        let rel = match root.rel_path(p) {
            Ok(s) => s,
            Err(e) => {
                proof {
                    lemma_listed_error(disk, root@, views(paths@), k + 1, n as int);
                }
                return Err(e);
            },
        };
        let bytes = if matches!(node.kind, Kind::File) {
            Some(node.bytes)
        } else {
            None
        };
        let e = entry_value(rel.as_str(), matches!(node.kind, Kind::Dir), bytes);
        let ghost was = items@;
        items.push(e);
        assert(items_view(items@) =~= items_view(was).push(e@));
        k = k + 1;
    }
    let truncated = items.len() >= most;
    proof {
        lemma_array_view(items);
    }
    Ok(
        Members::new().with("entries", Data::Array(items)).with(
            "truncated",
            Data::boolean(truncated),
        ).object(),
    )
}

/// The listing that the arguments ask for is the listing of `goal`.
spec fn outcome_is(
    disk: &Disk,
    places: Seq<Place>,
    args: Json,
    goal: Result<Seq<Seq<char>>, Seq<char>>,
) -> bool {
    list_result_of(disk, places, args) == (match goal {
        Err(e) => Err(e),
        Ok(paths) => {
            let most = list_limit(args);
            let n = if paths.len() > most {
                most
            } else {
                paths.len() as int
            };
            match listed(disk, places, paths, n) {
                Err(e) => Err(e),
                Ok(entries) => Ok(listing_json(entries, entries.len() >= most)),
            }
        },
    })
}

/// The listing that the arguments ask for is that of the first `n` paths.
spec fn list_done(
    disk: &Disk,
    places: Seq<Place>,
    args: Json,
    paths: Seq<Seq<char>>,
    n: int,
) -> bool {
    list_result_of(disk, places, args) == (match listed(disk, places, paths, n) {
        Err(e) => Err(e),
        Ok(entries) => Ok(listing_json(entries, entries.len() >= list_limit(args))),
    })
}

/// An error in the first entries is the error of the whole listing.
proof fn lemma_listed_error(
    disk: &Disk,
    places: Seq<Place>,
    paths: Seq<Seq<char>>,
    k: int,
    n: int,
)
    requires
        0 <= k <= n,
        listed(disk, places, paths, k) is Err,
    ensures
        listed(disk, places, paths, n) == listed(disk, places, paths, k),
    decreases n - k,
{
    if k < n {
        lemma_listed_error(disk, places, paths, k, n - 1);
    }
}

// ----- read -----
/// One file as it is read.
pub open spec fn document_json(path: Seq<char>, content: Seq<char>, truncated: bool) -> Json {
    Json::Object(
        no_fields().push(field("path"@, Json::Str(path))).push(
            field("bytes_returned"@, Json::Int(size(content) as int)),
        ).push(field("truncated"@, Json::Bool(truncated))).push(
            field("content"@, Json::Str(content)),
        ),
    )
}

/// The file that a caller's path names, and the path it is shown under. Where
/// the file cannot be read, the error names the file if `named`, and is the
/// host's reason otherwise.
pub open spec fn opened(
    disk: &Disk,
    places: Seq<Place>,
    rel: Seq<char>,
    complaint: Seq<char>,
    named: bool,
) -> Result<(Node, Seq<char>), Seq<char>> {
    match root_resolved(disk, places, rel) {
        Err(e) => Err(e),
        Ok(path) => if !disk.is_file(path) {
            Err(complaint)
        } else {
            match shown(places, path) {
                Err(e) => Err(e),
                Ok(name) => match disk.fault(path) {
                    Some(reason) => Err(
                        if named {
                            "reading "@ + path
                        } else {
                            reason
                        },
                    ),
                    None => Ok((disk.node(path)->0, name)),
                },
            }
        },
    }
}

/// Opens the file that a caller's path names.
fn open<'a>(
    root: &FsRoot,
    disk: &'a Disk,
    rel: &str,
    complaint: &str,
    named: bool,
) -> (r: Result<(&'a Node, String), String>)
    ensures
        match r {
            Ok((node, name)) => opened(disk, root@, rel@, complaint@, named) == Ok::<
                (Node, Seq<char>),
                Seq<char>,
            >((*node, name@)),
            Err(e) => opened(disk, root@, rel@, complaint@, named) == Err::<(Node, Seq<char>), Seq<char>>(
                e@,
            ),
        },
{
    let path = match root.resolve_existing(disk, Some(rel)) {
        Ok(p) => p,
        Err(e) => {
            return Err(e);
        },
    };
    let node = match disk.find(path.as_str()) {
        Some(n) => n,
        None => {
            return Err(owned(complaint));
        },
    };
    if !matches!(node.kind, Kind::File) {
        return Err(owned(complaint));
    }
    match root.rel_path(path.as_str()) {
        Ok(name) => match disk.fault_at(path.as_str()) {
            Some(reason) => if named {
                Err(cat("reading ", path.as_str()))
            } else {
                Err(reason)
            },
            None => Ok((node, name)),
        },
        Err(e) => Err(e),
    }
}

/// What reading one file returns.
pub open spec fn document_of(disk: &Disk, places: Seq<Place>, rel: Seq<char>, limit: int) -> Result<
    Json,
    Seq<char>,
> {
    match opened(disk, places, rel, "fs_read path must be a file"@, true) {
        Err(e) => Err(e),
        Ok((node, name)) => Ok(
            document_json(
                name,
                head_text(node.content@, limit),
                node.content@.len() > limit,
            ),
        ),
    }
}

/// Reads one text file, at most `limit` bytes of it.
pub fn read_document(root: &FsRoot, disk: &Disk, rel: &str, limit: usize) -> (r: Result<
    Data,
    String,
>)
    ensures
        outcome(r) == document_of(disk, root@, rel@, limit as int),
{
    match open(root, disk, rel, "fs_read path must be a file", true) {
        Err(e) => Err(e),
        Ok((node, name)) => {
            let (content, truncated) = read_utf8_prefix(node, limit);
            let n: usize = byte_len(content.as_str());
            Ok(
                Members::new().with("path", Data::string(name.as_str())).with(
                    "bytes_returned",
                    Data::number(n as u64),
                ).with("truncated", Data::boolean(truncated)).with(
                    "content",
                    Data::string(content.as_str()),
                ).object(),
            )
        },
    }
}

/// What `fs_read` returns.
pub open spec fn read_result_of(disk: &Disk, places: Seq<Place>, args: Json) -> Result<
    Json,
    Seq<char>,
> {
    match args.get_str("path"@) {
        None => Err("fs_read requires string `path`"@),
        Some(rel) => document_of(
            disk,
            places,
            rel,
            limit_of(
                args,
                "max_bytes"@,
                DEFAULT_READ_LIMIT_BYTES as int,
                1,
                MAX_READ_LIMIT_BYTES as int,
            ),
        ),
    }
}

pub fn read_impl(root: &FsRoot, disk: &Disk, args: &Data) -> (r: Result<Data, String>)
    ensures
        outcome(r) == read_result_of(disk, root@, args@),
{
    let rel = match args.get_str("path") {
        Some(p) => p,
        None => {
            return Err(owned("fs_read requires string `path`"));
        },
    };
    let limit: usize = limit_arg(
        args,
        "max_bytes",
        DEFAULT_READ_LIMIT_BYTES,
        1,
        MAX_READ_LIMIT_BYTES,
    ) as usize;
    read_document(root, disk, rel, limit)
}

// ----- read a range -----
/// The last line that a window of at most `max_lines` lines from `start` on
/// covers.
pub open spec fn window_end(start: int, max_lines: int) -> int {
    if start + max_lines - 1 > u64::MAX {
        u64::MAX as int
    } else {
        start + max_lines - 1
    }
}

/// The lines `start..=last` of a file, counted from one, as far as there are
/// any.
pub open spec fn lines_between(all: Seq<Seq<u8>>, start: int, last: int) -> Seq<Seq<u8>> {
    let end = if last > all.len() {
        all.len() as int
    } else {
        last
    };
    if start - 1 < end {
        all.subrange(start - 1, end)
    } else {
        Seq::empty()
    }
}

/// Every line is valid UTF-8.
pub open spec fn all_valid(ls: Seq<Seq<u8>>) -> bool {
    forall|i: int| 0 <= i < ls.len() ==> valid_utf8(#[trigger] ls[i])
}

/// The texts of lines.
pub open spec fn decoded(ls: Seq<Seq<u8>>) -> Seq<Seq<char>> {
    ls.map_values(|l: Seq<u8>| decode_utf8(l))
}

/// What reading a range of lines returns.
pub open spec fn range_of(
    disk: &Disk,
    places: Seq<Place>,
    rel: Seq<char>,
    start: int,
    end: Option<int>,
    max_lines: int,
    max_bytes: int,
) -> Result<Json, Seq<char>> {
    let window = window_end(start, max_lines);
    let requested = match end {
        Some(e) => e,
        None => window,
    };
    let last = if requested < window {
        requested
    } else {
        window
    };
    if start < 1 {
        Err("start_line must be at least 1"@)
    } else if end matches Some(e) && e < start {
        Err("end_line must be >= start_line"@)
    } else {
        match opened(disk, places, rel, "fs_read_range path must be a file"@, false) {
            Err(e) => Err(e),
            Ok((node, name)) => {
                let all = byte_lines(node.content@);
                let picked = lines_between(all, start, last);
                if !all_valid(picked) {
                    Err("stream did not contain valid UTF-8"@)
                } else {
                    let whole = joined(decoded(picked), "\n"@);
                    let content = prefix_within(whole, max_bytes as nat);
                    Ok(
                        Json::Object(
                            no_fields().push(field("path"@, Json::Str(name))).push(
                                field("start_line"@, Json::Int(start)),
                            ).push(
                                field("end_line"@, Json::Int(start + picked.len() - 1)),
                            ).push(field("total_lines"@, Json::Null)).push(
                                field("bytes_returned"@, Json::Int(size(content) as int)),
                            ).push(
                                field(
                                    "truncated"@,
                                    Json::Bool(
                                        requested > last || all.len() > last || size(whole)
                                            > max_bytes,
                                    ),
                                ),
                            ).push(field("content"@, Json::Str(content))),
                        ),
                    )
                }
            },
        }
    }
}

/// Reads the lines `start_line..=end_line` of a text file, at most `max_lines`
/// lines and `max_bytes` bytes.
pub fn read_range_document(
    root: &FsRoot,
    disk: &Disk,
    rel: &str,
    start_line: u64,
    end_line: Option<u64>,
    max_lines: u64,
    max_bytes: usize,
) -> (r: Result<Data, String>)
    requires
        max_lines >= 1,
    ensures
        outcome(r) == range_of(
            disk,
            root@,
            rel@,
            start_line as int,
            match end_line {
                Some(e) => Some(e as int),
                None => None,
            },
            max_lines as int,
            max_bytes as int,
        ),
{
    if start_line < 1 {
        return Err(owned("start_line must be at least 1"));
    }
    if let Some(e) = end_line {
        if e < start_line {
            return Err(owned("end_line must be >= start_line"));
        }
    }
    let (node, name) = match open(root, disk, rel, "fs_read_range path must be a file", false) {
        Ok(p) => p,
        Err(e) => {
            return Err(e);
        },
    };
    let window: u64 = start_line.saturating_add(max_lines - 1);
    assert(window == window_end(start_line as int, max_lines as int));
    let requested: u64 = match end_line {
        Some(e) => e,
        None => window,
    };
    let last: u64 = if requested < window {
        requested
    } else {
        window
    };
    let all = split_lines(&node.content);
    let total: usize = all.len();
    let ghost av = byte_lines(node.content@);
    let ghost picked = lines_between(av, start_line as int, last as int);
    let mut selected: Vec<String> = Vec::new();
    let first: usize = if start_line - 1 < total as u64 {
        (start_line - 1) as usize
    } else {
        total
    };
    let stop: usize = if last < total as u64 {
        last as usize
    } else {
        total
    };
    let mut i: usize = first;
    assert(views(selected@) =~= decoded(picked.take(0)));
    while i < stop
        invariant
            start_line >= 1,
            first <= i,
            first < total ==> first == start_line - 1,
            stop <= total,
            i <= stop || i == first,
            total == all@.len(),
            byte_views(all@) == av,
            av == byte_lines(node.content@),
            first < stop ==> picked == av.subrange(first as int, stop as int),
            picked == lines_between(av, start_line as int, last as int),
            selected@.len() == i - first,
            views(selected@) == decoded(picked.take(i - first)),
            all_valid(picked.take(i - first)),
            opened(disk, root@, rel@, "fs_read_range path must be a file"@, false) == Ok::<
                (Node, Seq<char>),
                Seq<char>,
            >((*node, name@)),
            window == window_end(start_line as int, max_lines as int),
            requested == (match end_line {
                Some(e) => e,
                None => window,
            }),
            last == (if requested < window {
                requested
            } else {
                window
            }),
            end_line matches Some(e) ==> e >= start_line,
        decreases stop - i,
    {
        let ghost k = i - first;
        assert(picked[k] == av[i as int]);
        assert(byte_views(all@)[i as int] == all@[i as int]@);
        let text = match strict(&all[i]) {
            Some(t) => t,
            None => {
                assert(!all_valid(picked));
                return Err(owned("stream did not contain valid UTF-8"));
            },
        };
        let ghost was = selected@;
        selected.push(text);
        assert(views(selected@) =~= views(was).push(text@));
        assert(picked.take(k + 1) =~= picked.take(k).push(picked[k]));
        assert(decoded(picked.take(k + 1)) =~= decoded(picked.take(k)).push(decode_utf8(picked[k])));
        assert(all_valid(picked.take(k + 1)));
        i = i + 1;
    }
    assert(picked.take(i - first) =~= picked);
    let whole = join(&selected, "\n");
    let (content, byte_truncated) = truncate_utf8_prefix(whole.as_str(), max_bytes);
    let end_returned: u64 = if selected.len() == 0 {
        start_line - 1
    } else {
        stop as u64
    };
    let n: usize = byte_len(content.as_str());
    let truncated = requested > last || total as u64 > last || byte_truncated;
    Ok(
        Members::new().with("path", Data::string(name.as_str())).with(
            "start_line",
            Data::number(start_line),
        ).with("end_line", Data::number(end_returned)).with("total_lines", Data::null()).with(
            "bytes_returned",
            Data::number(n as u64),
        ).with("truncated", Data::boolean(truncated)).with(
            "content",
            Data::string(content.as_str()),
        ).object(),
    )
}

/// What `fs_read_range` returns.
pub open spec fn range_result_of(disk: &Disk, places: Seq<Place>, args: Json) -> Result<
    Json,
    Seq<char>,
> {
    match args.get_str("path"@) {
        None => Err("fs_read_range requires string `path`"@),
        Some(rel) => match args.get_u64("start_line"@) {
            None => Err("fs_read_range requires integer `start_line`"@),
            Some(start) => range_of(
                disk,
                places,
                rel,
                start,
                args.get_u64("end_line"@),
                limit_of(
                    args,
                    "max_lines"@,
                    DEFAULT_RANGE_MAX_LINES as int,
                    1,
                    MAX_RANGE_LINES as int,
                ),
                limit_of(
                    args,
                    "max_bytes"@,
                    DEFAULT_READ_LIMIT_BYTES as int,
                    1,
                    MAX_READ_LIMIT_BYTES as int,
                ),
            ),
        },
    }
}

pub fn read_range_impl(root: &FsRoot, disk: &Disk, args: &Data) -> (r: Result<Data, String>)
    ensures
        outcome(r) == range_result_of(disk, root@, args@),
{
    let rel = match args.get_str("path") {
        Some(p) => p,
        None => {
            return Err(owned("fs_read_range requires string `path`"));
        },
    };
    let start: u64 = match args.get_u64("start_line") {
        Some(n) => n,
        None => {
            return Err(owned("fs_read_range requires integer `start_line`"));
        },
    };
    let max_lines: u64 = limit_arg(
        args,
        "max_lines",
        DEFAULT_RANGE_MAX_LINES,
        1,
        MAX_RANGE_LINES,
    );
    let max_bytes: usize = limit_arg(
        args,
        "max_bytes",
        DEFAULT_READ_LIMIT_BYTES,
        1,
        MAX_READ_LIMIT_BYTES,
    ) as usize;
    read_range_document(root, disk, rel, start, args.get_u64("end_line"), max_lines, max_bytes)
}

// ----- read many -----
/// A file that could not be read.
pub open spec fn read_error_json(path: Json, error: Seq<char>) -> Json {
    Json::Object(
        no_fields().push(field("path"@, path)).push(field("error"@, Json::Str(error))),
    )
}

/// What the first `n` paths of a batch read to: the documents and the errors.
pub open spec fn batch(disk: &Disk, places: Seq<Place>, paths: Seq<Json>, n: int, limit: int) -> (
    Seq<Json>,
    Seq<Json>,
)
    decreases n,
{
    if n <= 0 {
        (Seq::empty(), Seq::empty())
    } else {
        let (documents, errors) = batch(disk, places, paths, n - 1, limit);
        match paths[n - 1].str() {
            None => (
                documents,
                errors.push(read_error_json(paths[n - 1], "path must be a string"@)),
            ),
            Some(rel) => match document_of(disk, places, rel, limit) {
                Ok(d) => (documents.push(d), errors),
                Err(e) => (documents, errors.push(read_error_json(Json::Str(rel), e))),
            },
        }
    }
}

/// What `fs_read_many` returns.
pub open spec fn many_result_of(disk: &Disk, places: Seq<Place>, args: Json) -> Result<
    Json,
    Seq<char>,
> {
    match args.get("paths"@) {
        Some(Json::Array(paths)) => if paths.len() == 0 {
            Err("fs_read_many paths cannot be empty"@)
        } else {
            let most = limit_of(
                args,
                "max_documents"@,
                MAX_BATCH_READS as int,
                1,
                MAX_BATCH_READS as int,
            );
            let limit = limit_of(
                args,
                "max_bytes_per_document"@,
                DEFAULT_READ_LIMIT_BYTES as int,
                1,
                MAX_READ_LIMIT_BYTES as int,
            );
            let n = if paths.len() < most {
                paths.len() as int
            } else {
                most
            };
            let (documents, errors) = batch(disk, places, paths, n, limit);
            Ok(
                Json::Object(
                    no_fields().push(field("documents"@, Json::Array(documents))).push(
                        field("errors"@, Json::Array(errors)),
                    ).push(field("truncated"@, Json::Bool(paths.len() > most))),
                ),
            )
        },
        _ => Err("fs_read_many requires array `paths`"@),
    }
}

fn read_error_value(path: Data, error: &str) -> (r: Data)
    ensures
        r@ == read_error_json(path@, error@),
{
    Members::new().with("path", path).with("error", Data::string(error)).object()
}

/// Reads several text files in one call.
pub fn read_many_impl(root: &FsRoot, disk: &Disk, args: &Data) -> (r: Result<Data, String>)
    ensures
        outcome(r) == many_result_of(disk, root@, args@),
{
    let asked = match args.get("paths") {
        Some(v) => v,
        None => {
            return Err(owned("fs_read_many requires array `paths`"));
        },
    };
    let paths = match asked.as_array() {
        Some(p) => p,
        None => {
            return Err(owned("fs_read_many requires array `paths`"));
        },
    };
    if paths.len() == 0 {
        return Err(owned("fs_read_many paths cannot be empty"));
    }
    let most: usize = limit_arg(
        args,
        "max_documents",
        MAX_BATCH_READS,
        1,
        MAX_BATCH_READS,
    ) as usize;
    let limit: usize = limit_arg(
        args,
        "max_bytes_per_document",
        DEFAULT_READ_LIMIT_BYTES,
        1,
        MAX_READ_LIMIT_BYTES,
    ) as usize;
    let n: usize = if paths.len() < most {
        paths.len()
    } else {
        most
    };
    let mut documents: Vec<Data> = Vec::new();
    let mut errors: Vec<Data> = Vec::new();
    let ghost pv = items_view(paths@);
    let mut i: usize = 0;
    assert(items_view(documents@) =~= Seq::<Json>::empty());
    assert(items_view(errors@) =~= Seq::<Json>::empty());
    while i < n
        invariant
            i <= n <= paths@.len(),
            pv == items_view(paths@),
            batch(disk, root@, pv, i as int, limit as int) == (
                items_view(documents@),
                items_view(errors@),
            ),
        decreases n - i,
    {
        let ghost was_d = documents@;
        let ghost was_e = errors@;
        assert(pv[i as int] == paths@[i as int]@);
        match paths[i].as_str() {
            None => {
                let e = read_error_value(paths[i].copy(), "path must be a string");
                errors.push(e);
                assert(items_view(errors@) =~= items_view(was_e).push(e@));
            },
            Some(rel) => {
                match read_document(root, disk, rel, limit) {
                    Ok(d) => {
                        let ghost dv = d@;
                        documents.push(d);
                        assert(items_view(documents@) =~= items_view(was_d).push(dv));
                    },
                    Err(text) => {
                        let e = read_error_value(Data::string(rel), text.as_str());
                        errors.push(e);
                        assert(items_view(errors@) =~= items_view(was_e).push(e@));
                    },
                }
            },
        }
        i = i + 1;
    }
    proof {
        lemma_array_view(documents);
        lemma_array_view(errors);
    }
    Ok(
        Members::new().with("documents", Data::Array(documents)).with(
            "errors",
            Data::Array(errors),
        ).with("truncated", Data::boolean(paths.len() > most)).object(),
    )
}

// ----- laws -----
/// A file is opened where the caller's path leads, and shown under the path that
/// callers know it by: nothing but a file that can be read is ever opened.
pub proof fn law_files_are_opened_where_their_path_leads(
    disk: &Disk,
    places: Seq<Place>,
    rel: Seq<char>,
    complaint: Seq<char>,
    named: bool,
)
    ensures
        opened(disk, places, rel, complaint, named) matches Ok((node, name)) ==> {
            &&& root_resolved(disk, places, rel) matches Ok(path) && {
                &&& disk.node(path) == Some(node)
                &&& node.kind == Kind::File
                &&& disk.fault(path) is None
                &&& shown(places, path) == Ok::<Seq<char>, Seq<char>>(name)
            }
        },
        root_resolved(disk, places, rel) matches Ok(path) ==> (disk.node(path) matches Some(node)
            ==> (node.kind == Kind::File && disk.fault(path) is None && shown(places, path) is Ok
            ==> opened(disk, places, rel, complaint, named) is Ok)),
        root_resolved(disk, places, rel) is Err ==> opened(disk, places, rel, complaint, named)
            is Err,
{
}

/// What is read of a file is the text of its first bytes, as many as are asked
/// for or as there are, under the path that callers know it by, with the size of
/// that text, and told to be cut short exactly where there is more.
pub proof fn law_documents_are_the_beginnings_of_files(
    disk: &Disk,
    places: Seq<Place>,
    rel: Seq<char>,
    limit: int,
    node: Node,
    name: Seq<char>,
)
    requires
        0 <= limit,
        opened(disk, places, rel, "fs_read path must be a file"@, true) == Ok::<
            (Node, Seq<char>),
            Seq<char>,
        >((node, name)),
    ensures
        document_of(disk, places, rel, limit) matches Ok(doc) && {
            &&& doc.get_str("path"@) == Some(name)
            &&& node.content@.len() <= limit ==> doc.get_str("content"@) == Some(
                lossy_text(node.content@),
            ) && doc.get_bool("truncated"@) == Some(false)
            &&& node.content@.len() > limit ==> doc.get_str("content"@) == Some(
                lossy_text(node.content@.take(limit)),
            ) && doc.get_bool("truncated"@) == Some(true)
            &&& doc.get_str("content"@) matches Some(t) && doc.get("bytes_returned"@) == Some(
                Json::Int(vstd::utf8::encode_utf8(t).len() as int),
            )
        },
{
    let content = head_text(node.content@, limit);
    let doc = document_json(name, content, node.content@.len() > limit);
    reveal_strlit("path");
    reveal_strlit("bytes_returned");
    reveal_strlit("truncated");
    reveal_strlit("content");
    assert("path"@.len() == 4);
    assert("bytes_returned"@.len() == 14);
    assert("truncated"@.len() == 9);
    assert("content"@.len() == 7);
    let fs = doc->Object_0;
    assert(fs[0].key == "path"@);
    assert(fs[1].key == "bytes_returned"@);
    assert(fs[2].key == "truncated"@);
    assert(fs[3].key == "content"@);
    law_the_first_member_of_a_name_counts(fs, 0);
    law_the_first_member_of_a_name_counts(fs, 1);
    law_the_first_member_of_a_name_counts(fs, 2);
    law_the_first_member_of_a_name_counts(fs, 3);
}

/// Splitting a text at its line breaks gives `count` lines of a file, from index
/// `from` on: one piece for each, and each as its line says. No lines are no text.
pub open spec fn splits_into(text: Seq<char>, all: Seq<Seq<u8>>, from: int, count: int) -> bool {
    &&& count == 0 ==> text.len() == 0
    &&& count > 0 ==> {
        &&& pieces(text, '\n').len() == count
        &&& forall|i: int|
            0 <= i < count ==> #[trigger] pieces(text, '\n')[i] == decode_utf8(all[from + i])
    }
}

/// The lines up to `last` and the text of them are what a range from `start` has to
/// tell: as many lines as were asked for, as may be or as there are, and of their
/// text as much as may be.
pub open spec fn range_told(
    doc: Json,
    all: Seq<Seq<u8>>,
    start: int,
    end: Option<int>,
    max_lines: int,
    max_bytes: int,
    last: int,
    content: Seq<char>,
) -> bool {
    let count = last - start + 1;
    &&& 0 <= count <= max_lines
    &&& count > 0 ==> last <= all.len()
    &&& end matches Some(e) ==> last <= e
    &&& start <= all.len() ==> count > 0 && (last == all.len() || count == max_lines || end == Some(
        last,
    ) || last == u64::MAX)
    &&& start > all.len() ==> count == 0
    &&& forall|i: int| #![trigger all[i]] start - 1 <= i < last ==> valid_utf8(all[i])
    &&& doc.get("bytes_returned"@) == Some(
        Json::Int(vstd::utf8::encode_utf8(content).len() as int),
    )
    &&& exists|whole: Seq<char>| #[trigger]
        splits_into(whole, all, start - 1, count) && longest_prefix(
            whole,
            content,
            max_bytes as nat,
        )
    &&& doc.get_bool("truncated"@) == Some(false) ==> last >= all.len() && splits_into(
        content,
        all,
        start - 1,
        count,
    )
    &&& all.len() > last && count > 0 ==> doc.get_bool("truncated"@) == Some(true)
}

/// What is read of a range of lines holds the lines that were asked for, each in
/// a piece of its own between line breaks, from the first on: as many as were
/// asked for, as may be read, and as there are. Where nothing is told to be cut
/// short, splitting what was read at its line breaks gives the lines back.
#[verifier::spinoff_prover]
pub proof fn law_ranges_are_the_lines_asked_for(
    disk: &Disk,
    places: Seq<Place>,
    rel: Seq<char>,
    start: int,
    end: Option<int>,
    max_lines: int,
    max_bytes: int,
    node: Node,
    name: Seq<char>,
)
    requires
        1 <= start <= u64::MAX,
        1 <= max_lines <= MAX_RANGE_LINES,
        0 <= max_bytes,
        end matches Some(e) ==> start <= e <= u64::MAX,
        node.content@.len() < u64::MAX,
        opened(disk, places, rel, "fs_read_range path must be a file"@, false) == Ok::<
            (Node, Seq<char>),
            Seq<char>,
        >((node, name)),
    ensures
        range_of(disk, places, rel, start, end, max_lines, max_bytes) matches Ok(doc) ==> {
            let all = byte_lines(node.content@);
            &&& doc.get_str("path"@) == Some(name)
            &&& doc.get("start_line"@) == Some(Json::Int(start))
            &&& doc.get("total_lines"@) == Some(Json::Null)
            &&& doc.get("end_line"@) matches Some(Json::Int(last)) && doc.get_str(
                "content"@,
            ) matches Some(content) && range_told(
                doc,
                all,
                start,
                end,
                max_lines,
                max_bytes,
                last,
                content,
            )
        },
{
    if let Ok(doc) = range_of(disk, places, rel, start, end, max_lines, max_bytes) {
        let window = window_end(start, max_lines);
        let requested = match end {
            Some(e) => e,
            None => window,
        };
        let last = if requested < window {
            requested
        } else {
            window
        };
        let all = byte_lines(node.content@);
        lemma_lines_fewer(node.content@);
        let picked = lines_between(all, start, last);
        let parts = decoded(picked);
        let whole = joined(parts, "\n"@);
        let content = prefix_within(whole, max_bytes as nat);
        reveal_strlit("\n");
        assert("\n"@ =~= seq!['\n']);
        law_cut_texts_are_the_longest_that_fit(whole, max_bytes as nat);
        assert(longest_prefix(whole, content, max_bytes as nat));
        lemma_file_lines_hold_no_line_feed(node.content@);
        assert forall|i: int, j: int|
            0 <= i < parts.len() && 0 <= j < parts[i].len() implies #[trigger] parts[i][j]
            != '\n' by {
            assert(picked[i] == all[start - 1 + i]);
            assert forall|k: int| 0 <= k < picked[i].len() implies #[trigger] picked[i][k] != 10 by {
                assert(all[start - 1 + i][k] != 10);
            }
            assert(valid_utf8(picked[i]));
            lemma_decoded_without_line_feed(picked[i]);
        }
        if picked.len() > 0 {
            law_splitting_undoes_joining(parts, '\n');
        }
        assert forall|i: int|
            #![trigger all[i]]
            start - 1 <= i < start - 1 + picked.len() implies valid_utf8(all[i]) by {
            assert(picked[i - (start - 1)] == all[i]);
        }
        assert forall|i: int| 0 <= i < picked.len() implies #[trigger] parts[i] == decode_utf8(
            all[start - 1 + i],
        ) by {
            assert(picked[i] == all[start - 1 + i]);
        }
        let count = picked.len() as int;
        let told = start + count - 1;
        assert(start > all.len() ==> count == 0);
        assert(start <= all.len() ==> count > 0);
        assert(0 <= count <= max_lines);
        assert(count > 0 ==> told <= all.len());
        reveal_strlit("path");
        reveal_strlit("start_line");
        reveal_strlit("end_line");
        reveal_strlit("total_lines");
        reveal_strlit("bytes_returned");
        reveal_strlit("truncated");
        reveal_strlit("content");
        assert("path"@.len() == 4);
        assert("start_line"@.len() == 10);
        assert("end_line"@.len() == 8);
        assert("total_lines"@.len() == 11);
        assert("bytes_returned"@.len() == 14);
        assert("truncated"@.len() == 9);
        assert("content"@.len() == 7);
        let fs = doc->Object_0;
        assert(fs[0].key == "path"@);
        assert(fs[1].key == "start_line"@);
        assert(fs[2].key == "end_line"@);
        assert(fs[3].key == "total_lines"@);
        assert(fs[4].key == "bytes_returned"@);
        assert(fs[5].key == "truncated"@);
        assert(fs[6].key == "content"@);
        law_the_first_member_of_a_name_counts(fs, 0);
        law_the_first_member_of_a_name_counts(fs, 1);
        law_the_first_member_of_a_name_counts(fs, 2);
        law_the_first_member_of_a_name_counts(fs, 3);
        law_the_first_member_of_a_name_counts(fs, 4);
        law_the_first_member_of_a_name_counts(fs, 5);
        law_the_first_member_of_a_name_counts(fs, 6);
        assert(doc.get("end_line"@) == Some(Json::Int(told)));
        assert(doc.get_str("content"@) == Some(content));
        assert(doc.get_bool("truncated"@) == Some(
            requested > last || all.len() > last || size(whole) > max_bytes,
        ));
        assert(end matches Some(e) ==> told <= e);
        assert(count > 0 ==> pieces(whole, '\n') == parts);
        assert(size(whole) <= max_bytes ==> content == whole);
        assert(splits_into(whole, all, start - 1, count));
        assert(doc.get_bool("truncated"@) == Some(false) ==> told >= all.len());
        assert(start <= all.len() ==> (told == all.len() || count == max_lines || end == Some(told)
            || told == u64::MAX));
        assert(range_told(doc, all, start, end, max_lines, max_bytes, told, content));
    }
}

proof fn lemma_lines_fewer(s: Seq<u8>)
    ensures
        byte_lines(s).len() <= s.len() + 1,
{
    lemma_pieces_fewer(s);
}

proof fn lemma_pieces_fewer(s: Seq<u8>)
    ensures
        crate::bytes::byte_pieces(s).len() <= s.len() + 1,
    decreases s.len(),
{
    if s.len() > 0 {
        lemma_pieces_fewer(s.drop_last());
    }
}

/// A limit is as it was asked for, within its bounds; and the default where none
/// was asked for.
pub proof fn law_limits_are_as_asked(
    args: Json,
    key: Seq<char>,
    default: int,
    least: int,
    greatest: int,
)
    requires
        least <= default <= greatest,
    ensures
        least <= limit_of(args, key, default, least, greatest) <= greatest,
        args.get_u64(key) matches Some(n) ==> (least <= n <= greatest ==> limit_of(
            args,
            key,
            default,
            least,
            greatest,
        ) == n),
        args.get_u64(key) matches Some(n) ==> (n < least ==> limit_of(
            args,
            key,
            default,
            least,
            greatest,
        ) == least),
        args.get_u64(key) matches Some(n) ==> (n > greatest ==> limit_of(
            args,
            key,
            default,
            least,
            greatest,
        ) == greatest),
        args.get_u64(key) is None ==> limit_of(args, key, default, least, greatest) == default,
{
}

/// A range without a first line, or that ends before it starts, is refused.
pub proof fn law_empty_ranges_are_refused(
    disk: &Disk,
    places: Seq<Place>,
    rel: Seq<char>,
    start: int,
    end: Option<int>,
    max_lines: int,
    max_bytes: int,
)
    requires
        start < 1 || (end matches Some(e) && e < start),
    ensures
        range_of(disk, places, rel, start, end, max_lines, max_bytes) is Err,
{
}

/// The tools read what their arguments name: the file under `path`, within
/// `max_bytes`, and for a range the lines from `start_line` to `end_line`, within
/// `max_lines`. Without a path, or a first line, they read nothing.
pub proof fn law_reads_are_of_what_is_named(disk: &Disk, places: Seq<Place>, args: Json)
    ensures
        args.get_str("path"@) is None ==> read_result_of(disk, places, args) is Err
            && range_result_of(disk, places, args) is Err,
        args.get_u64("start_line"@) is None ==> range_result_of(disk, places, args) is Err,
        args.get_str("path"@) matches Some(rel) ==> {
            &&& args.get_u64("max_bytes"@) is None ==> read_result_of(disk, places, args)
                == document_of(disk, places, rel, 200_000)
            &&& args.get_u64("max_bytes"@) matches Some(n) ==> (1 <= n <= 1_000_000
                ==> read_result_of(disk, places, args) == document_of(disk, places, rel, n))
            &&& args.get_u64("start_line"@) matches Some(start) ==> (args.get_u64("max_lines"@)
                is None && args.get_u64("max_bytes"@) is None ==> range_result_of(
                disk,
                places,
                args,
            ) == range_of(disk, places, rel, start, args.get_u64("end_line"@), 200, 200_000))
            &&& args.get_u64("start_line"@) matches Some(start) ==> (args.get_u64(
                "max_lines"@,
            ) matches Some(n) ==> (args.get_u64("max_bytes"@) matches Some(b) ==> (1 <= n <= 5_000
                && 1 <= b <= 1_000_000 ==> range_result_of(disk, places, args) == range_of(
                disk,
                places,
                rel,
                start,
                args.get_u64("end_line"@),
                n,
                b,
            ))))
        },
{
}

proof fn lemma_entry_json(path: Seq<char>, dir: bool, bytes: Option<int>)
    ensures
        ({
            let e = entry_json(path, dir, bytes);
            &&& e.get_str("path"@) == Some(path)
            &&& dir ==> e.get_str("kind"@) == Some("dir"@)
            &&& !dir ==> e.get_str("kind"@) == Some("file"@)
            &&& bytes is Some ==> e.get("bytes"@) == Some(Json::Int(bytes->0))
            &&& bytes is None ==> e.get("bytes"@) == Some(Json::Null)
        }),
{
    reveal_strlit("path");
    reveal_strlit("kind");
    reveal_strlit("bytes");
    assert("path"@.len() == 4);
    assert("kind"@.len() == 4);
    assert("bytes"@.len() == 5);
    assert("path"@[0] != "kind"@[0]);
    let fs = entry_json(path, dir, bytes)->Object_0;
    assert(fs[0].key == "path"@);
    assert(fs[1].key == "kind"@);
    assert(fs[2].key == "bytes"@);
    law_the_first_member_of_a_name_counts(fs, 0);
    law_the_first_member_of_a_name_counts(fs, 1);
    law_the_first_member_of_a_name_counts(fs, 2);
}

/// Every path of a listing is told in its place: under the path that callers know
/// it by, as a directory exactly where it is one, and with its size where it is a
/// file.
pub proof fn law_listings_tell_what_stands_there(
    disk: &Disk,
    places: Seq<Place>,
    paths: Seq<Seq<char>>,
    n: int,
    i: int,
)
    requires
        0 <= i < n <= paths.len(),
    ensures
        listed(disk, places, paths, n) matches Ok(entries) ==> {
            &&& entries.len() == n
            &&& disk.node(paths[i]) matches Some(node) && {
                &&& entries[i].get_str("path"@) matches Some(p) && shown(places, paths[i]) == Ok::<
                    Seq<char>,
                    Seq<char>,
                >(p)
                &&& node.kind == Kind::Dir ==> entries[i].get_str("kind"@) == Some("dir"@)
                &&& node.kind != Kind::Dir ==> entries[i].get_str("kind"@) == Some("file"@)
                &&& node.kind == Kind::File ==> entries[i].get("bytes"@) == Some(
                    Json::Int(node.bytes as int),
                )
                &&& node.kind != Kind::File ==> entries[i].get("bytes"@) == Some(Json::Null)
            }
        },
    decreases n,
{
    if let Ok(entries) = listed(disk, places, paths, n) {
        lemma_listed_len(disk, places, paths, n);
        if i < n - 1 {
            law_listings_tell_what_stands_there(disk, places, paths, n - 1, i);
        } else {
            lemma_listed_len(disk, places, paths, n - 1);
            let node = disk.node(paths[i])->0;
            let rel = shown(places, paths[i])->Ok_0;
            lemma_entry_json(
                rel,
                node.kind == Kind::Dir,
                if node.kind == Kind::File {
                    Some(node.bytes as int)
                } else {
                    None
                },
            );
        }
    }
}

proof fn lemma_listed_len(disk: &Disk, places: Seq<Place>, paths: Seq<Seq<char>>, n: int)
    requires
        0 <= n,
    ensures
        listed(disk, places, paths, n) matches Ok(entries) ==> entries.len() == n,
    decreases n,
{
    if n > 0 {
        lemma_listed_len(disk, places, paths, n - 1);
    }
}

/// The entries of a directory that are listed are exactly those that lead
/// somewhere in the jail, in the order of the directory.
pub proof fn law_entries_inside_are_kept_in_order(
    entries: Seq<Option<Seq<char>>>,
    e: Option<Seq<char>>,
    dir: Seq<char>,
)
    ensures
        entries_inside(Seq::<Option<Seq<char>>>::empty(), dir) == Seq::<Seq<char>>::empty(),
        entries_inside(entries.push(e), dir) == (if e is Some && under(e->0, dir) {
            entries_inside(entries, dir).push(e->0)
        } else {
            entries_inside(entries, dir)
        }),
{
    assert(entries.push(e).drop_last() =~= entries);
    assert(entries.push(e).last() == e);
}

/// Without a path, and not recursive, the roots themselves are listed, each by
/// its name; a listing is told to be cut short only where it is as long as was
/// asked for.
pub proof fn law_roots_are_listed(disk: &Disk, places: Seq<Place>, args: Json, i: int)
    requires
        args.get_str("path"@) is None,
        args.get_bool("recursive"@) != Some(true),
    ensures
        list_result_of(disk, places, args) matches Ok(doc) && {
            &&& doc.get_bool("truncated"@) == Some(false)
            &&& doc.get("entries"@) matches Some(Json::Array(entries)) && {
                &&& entries.len() == places.len()
                &&& 0 <= i < places.len() ==> entries[i].get_str("path"@) == Some(places[i].name)
                    && entries[i].get_str("kind"@) == Some("dir"@)
            }
        },
{
    let entries = places.map_values(|p: Place| entry_json(p.name, true, None));
    let doc = listing_json(entries, false);
    reveal_strlit("entries");
    reveal_strlit("truncated");
    assert("entries"@.len() == 7);
    assert("truncated"@.len() == 9);
    let fs = doc->Object_0;
    assert(fs[0].key == "entries"@);
    assert(fs[1].key == "truncated"@);
    law_the_first_member_of_a_name_counts(fs, 0);
    law_the_first_member_of_a_name_counts(fs, 1);
    if 0 <= i < places.len() {
        lemma_entry_json(places[i].name, true, None);
    }
}

/// A batch reads its paths one by one, in order: one more path adds its document
/// where it can be read, and else an error that names it, and changes nothing of
/// what was read before.
pub proof fn law_batches_read_every_path(
    disk: &Disk,
    places: Seq<Place>,
    paths: Seq<Json>,
    n: int,
    limit: int,
)
    requires
        0 <= n < paths.len(),
    ensures
        ({
            let (documents, errors) = batch(disk, places, paths, n, limit);
            let (now, wrong) = batch(disk, places, paths, n + 1, limit);
            &&& documents.len() + errors.len() == n
            &&& paths[n] matches Json::Str(rel) ==> {
                &&& document_of(disk, places, rel, limit) matches Ok(d) ==> now == documents.push(d)
                    && wrong == errors
                &&& document_of(disk, places, rel, limit) matches Err(why) ==> {
                    &&& now == documents
                    &&& wrong.len() == errors.len() + 1
                    &&& wrong.drop_last() == errors
                    &&& wrong.last().get_str("path"@) == Some(rel)
                    &&& wrong.last().get_str("error"@) == Some(why)
                }
            }
            &&& !(paths[n] is Str) ==> {
                &&& now == documents
                &&& wrong.len() == errors.len() + 1
                &&& wrong.drop_last() == errors
                &&& wrong.last().get("path"@) == Some(paths[n])
                &&& wrong.last().get_str("error"@) == Some("path must be a string"@)
            }
        }),
    decreases n,
{
    if n > 0 {
        law_batches_read_every_path(disk, places, paths, n - 1, limit);
    }
    let (documents, errors) = batch(disk, places, paths, n, limit);
    let (now, wrong) = batch(disk, places, paths, n + 1, limit);
    if wrong.len() > errors.len() {
        let e = wrong.last();
        assert(wrong.drop_last() =~= errors);
        reveal_strlit("path");
        reveal_strlit("error");
        assert("path"@.len() == 4);
        assert("error"@.len() == 5);
        let fs = e->Object_0;
        assert(fs[0].key == "path"@);
        assert(fs[1].key == "error"@);
        law_the_first_member_of_a_name_counts(fs, 0);
        law_the_first_member_of_a_name_counts(fs, 1);
    }
}

/// An error of a tool is handed back as an object that tells it; a result is
/// handed back as it is.
pub proof fn law_errors_are_told(r: Result<Json, Seq<char>>)
    ensures
        r matches Ok(v) ==> wrapped(r) == Ok::<Json, Json>(v),
        r matches Err(e) ==> (wrapped(r) matches Err(o) && o.get_str("error"@) == Some(e)),
{
    if let Err(e) = r {
        let o = wrapped(r)->Err_0;
        assert(o->Object_0[0].key == "error"@);
        law_the_first_member_of_a_name_counts(o->Object_0, 0);
    }
}

} // verus!
