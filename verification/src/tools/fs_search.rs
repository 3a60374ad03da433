//! Searching files: by text, by regular expression, by glob, by heading.
use vstd::prelude::*;

use super::disk::{
    law_resolution_stays_in_the_named_root, shown, targets, targets_view, Disk, FsRoot, Kind,
    Place, Target,
};
use super::fs_read::{
    head_text, heading_of, limit_arg, limit_of, looks_textual, markdown_heading, outcome,
    read_utf8_prefix, textual, DEFAULT_LIST_LIMIT, DEFAULT_MAX_MATCHES,
    DEFAULT_OUTLINE_MAX_DOCUMENTS, DEFAULT_OUTLINE_MAX_HEADINGS, DEFAULT_SEARCH_LIMIT_BYTES,
    MAX_LIST_LIMIT, MAX_MATCHES, MAX_OUTLINE_DOCUMENTS, MAX_OUTLINE_HEADINGS, WALK_CEILING,
};
use super::matching::{
    build_globset, compile_regex, glob_error_text, glob_is_match, glob_matches, glob_parsed,
    glob_refusal, globset_built, parse_glob, regex_compiled, regex_is_match, regex_matches,
};
use super::walk::{files_below, law_walks_stay_in_the_jail, list_result, walk_files};
use crate::bytes::lossy_text;
use crate::json::{
    field, items_view, law_the_first_member_of_a_name_counts, lemma_array_view, no_fields,
    opt_str_view, Data, Json, Members,
};
use crate::paths::under;
use crate::split::{contains, extend, holds, lines, lines_of, occurs_at};
use crate::text::{cat, lowered, owned, to_lower, trim, trimmed, views};

verus! {

/// The files that a search over the targets from index `i` on looks at: a
/// target that is a file, and else every file below it.
pub open spec fn candidates(
    disk: &Disk,
    places: Seq<Place>,
    ts: Seq<Target>,
    i: int,
    acc: Seq<Seq<char>>,
) -> Result<Seq<Seq<char>>, Seq<char>>
    decreases ts.len() - i,
{
    if i < 0 || i >= ts.len() {
        Ok(acc)
    } else if disk.is_file(ts[i].start) {
        candidates(disk, places, ts, i + 1, acc.push(ts[i].start))
    } else {
        match files_below(disk, places[ts[i].jail].dir, ts[i].start, WALK_CEILING as nat) {
            Err(e) => Err(e),
            Ok(found) => candidates(disk, places, ts, i + 1, acc + found),
        }
    }
}

/// The files that a search below an optional caller's path looks at.
pub open spec fn search_files(disk: &Disk, places: Seq<Place>, path: Option<Seq<char>>) -> Result<
    Seq<Seq<char>>,
    Seq<char>,
> {
    match targets(disk, places, path) {
        Err(e) => Err(e),
        Ok(ts) => candidates(disk, places, ts, 0, Seq::empty()),
    }
}

/// The files to search below an optional caller's path: the file itself, or
/// every file below the directory, or below all roots.
pub fn collect_files(root: &FsRoot, disk: &Disk, path: Option<&str>) -> (r: Result<
    Vec<String>,
    String,
>)
    ensures
        list_result(r) == search_files(disk, root@, opt_str_view(path)),
{
    let ts = match root.walk_targets(disk, path) {
        Ok(ts) => ts,
        Err(e) => {
            return Err(e);
        },
    };
    let ghost tv = targets_view(ts@);
    let mut files: Vec<String> = Vec::new();
    let mut i: usize = 0;
    assert(views(files@) =~= Seq::<Seq<char>>::empty());
    while i < ts.len()
        invariant
            i <= ts@.len(),
            tv == targets_view(ts@),
            forall|k: int| 0 <= k < ts@.len() ==> (#[trigger] ts@[k]).0 < root@.len(),
            search_files(disk, root@, opt_str_view(path)) == candidates(
                disk,
                root@,
                tv,
                i as int,
                views(files@),
            ),
        decreases ts.len() - i,
    {
        let start = ts[i].1.as_str();
        let jail: usize = ts[i].0;
        assert(tv[i as int].start == start@ && tv[i as int].jail == jail);
        if disk.file(start) {
            let ghost was = files@;
            let s = owned(start);
            files.push(s);
            assert(views(files@) =~= views(was).push(s@));
        } else {
            match walk_files(disk, root.jail_at(jail), start, WALK_CEILING) {
                Ok(found) => {
                    extend(&mut files, &found);
                },
                Err(e) => {
                    return Err(e);
                },
            }
        }
        i = i + 1;
    }
    Ok(files)
}

/// How a line is recognised.
pub enum Matcher {
    /// It holds this lower-case text, without regard to the case of ASCII letters.
    Text(String),
    /// This regular expression matches in it.
    Pattern(regex::Regex),
}

/// The lines that hold `q` once their ASCII letters are in lower case.
pub open spec fn holding(q: Seq<char>) -> spec_fn(Seq<char>) -> bool {
    |line: Seq<char>| holds(lowered(line), q)
}

/// The lines that a regular expression matches in.
pub open spec fn matching(re: regex::Regex) -> spec_fn(Seq<char>) -> bool {
    |line: Seq<char>| regex_matches(re, line)
}

impl Matcher {
    /// The lines that are recognised.
    pub open spec fn pred(&self) -> spec_fn(Seq<char>) -> bool {
        match self {
            Matcher::Text(q) => holding(q@),
            Matcher::Pattern(re) => matching(*re),
        }
    }

    pub fn is_match(&self, line: &str) -> (r: bool)
        ensures
            r == (self.pred())(line@),
    {
        match self {
            Matcher::Text(q) => contains(to_lower(line).as_str(), q.as_str()),
            Matcher::Pattern(re) => regex_is_match(re, line),
        }
    }
}

/// One line that was found.
pub open spec fn match_json(path: Seq<char>, line: int, snippet: Seq<char>) -> Json {
    Json::Object(
        no_fields().push(field("path"@, Json::Str(path))).push(
            field("line"@, Json::Int(line)),
        ).push(field("snippet"@, Json::Str(snippet))),
    )
}

/// What has been found, and whether there are as many as are wanted.
pub struct Hits {
    pub matches: Seq<Json>,
    pub full: bool,
}

/// The matches in the lines from index `i` on, until there are `limit`.
pub open spec fn hits(
    p: spec_fn(Seq<char>) -> bool,
    path: Seq<char>,
    ls: Seq<Seq<char>>,
    i: int,
    limit: int,
    acc: Seq<Json>,
) -> Hits
    decreases ls.len() - i,
{
    if i < 0 || i >= ls.len() {
        Hits { matches: acc, full: false }
    } else if p(ls[i]) {
        let more = acc.push(match_json(path, i + 1, trimmed(ls[i])));
        if more.len() >= limit {
            Hits { matches: more, full: true }
        } else {
            hits(p, path, ls, i + 1, limit, more)
        }
    } else {
        hits(p, path, ls, i + 1, limit, acc)
    }
}

/// What a search over files has found: the matches, the number of files looked
/// into, and whether the limit cut it short.
pub struct Found {
    pub matches: Seq<Json>,
    pub searched: int,
    pub full: bool,
}

/// The file is one that searches look into.
pub open spec fn searchable(disk: &Disk, path: Seq<char>) -> bool {
    match disk.node(path) {
        Some(n) => n.kind == Kind::File && textual(path) && n.bytes
            <= DEFAULT_SEARCH_LIMIT_BYTES,
        None => false,
    }
}

/// The path that a file to look into is shown under; an error that names the
/// file where it cannot be read.
pub open spec fn looked_into(disk: &Disk, places: Seq<Place>, path: Seq<char>) -> Result<
    Seq<char>,
    Seq<char>,
> {
    match disk.fault(path) {
        Some(_) => Err("reading "@ + path),
        None => shown(places, path),
    }
}

/// What a search over the files from index `i` on finds.
pub open spec fn found_in(
    disk: &Disk,
    places: Seq<Place>,
    p: spec_fn(Seq<char>) -> bool,
    files: Seq<Seq<char>>,
    i: int,
    limit: int,
    matches: Seq<Json>,
    searched: int,
) -> Result<Found, Seq<char>>
    decreases files.len() - i,
{
    if i < 0 || i >= files.len() {
        Ok(Found { matches, searched, full: false })
    } else if !searchable(disk, files[i]) {
        found_in(disk, places, p, files, i + 1, limit, matches, searched)
    } else {
        match looked_into(disk, places, files[i]) {
            Err(e) => Err(e),
            Ok(rel) => {
                let text = head_text(
                    disk.node(files[i])->0.content@,
                    DEFAULT_SEARCH_LIMIT_BYTES as int,
                );
                let h = hits(p, rel, lines_of(text), 0, limit, matches);
                if h.full {
                    Ok(Found { matches: h.matches, searched: searched + 1, full: true })
                } else {
                    found_in(disk, places, p, files, i + 1, limit, h.matches, searched + 1)
                }
            },
        }
    }
}

/// The matches that a search found, the number of files it looked into, and
/// whether the limit cut it short.
pub struct Search {
    pub matches: Vec<Data>,
    pub searched: usize,
    pub full: bool,
}

impl View for Search {
    type V = Found;

    open spec fn view(&self) -> Found {
        Found {
            matches: items_view(self.matches@),
            searched: self.searched as int,
            full: self.full,
        }
    }
}

/// Looks for matching lines in the given files, in order, until there are
/// `limit` of them.
pub fn scan_files(root: &FsRoot, disk: &Disk, m: &Matcher, files: &Vec<String>, limit: usize) -> (r:
    Result<Search, String>)
    ensures
        match r {
            Ok(s) => found_in(
                disk,
                root@,
                m.pred(),
                views(files@),
                0,
                limit as int,
                Seq::empty(),
                0,
            ) == Ok::<Found, Seq<char>>(s@),
            Err(e) => found_in(
                disk,
                root@,
                m.pred(),
                views(files@),
                0,
                limit as int,
                Seq::empty(),
                0,
            ) == Err::<Found, Seq<char>>(e@),
        },
{
    let mut matches: Vec<Data> = Vec::new();
    let mut searched: usize = 0;
    let mut i: usize = 0;
    let ghost fv = views(files@);
    let ghost goal = found_in(disk, root@, m.pred(), fv, 0, limit as int, Seq::empty(), 0);
    assert(items_view(matches@) =~= Seq::<Json>::empty());
    while i < files.len()
        invariant
            i <= files@.len(),
            searched <= i,
            fv == views(files@),
            goal == found_in(
                disk,
                root@,
                m.pred(),
                fv,
                i as int,
                limit as int,
                items_view(matches@),
                searched as int,
            ),
            goal == found_in(disk, root@, m.pred(), views(files@), 0, limit as int, Seq::empty(), 0),
        decreases files.len() - i,
    {
        let path = files[i].as_str();
        assert(fv[i as int] == path@);
        let node = match disk.find(path) {
            Some(n) => n,
            None => {
                i = i + 1;
                continue;
            },
        };
        if !matches!(node.kind, Kind::File) || !looks_textual(path) || node.bytes
            > DEFAULT_SEARCH_LIMIT_BYTES {
            i = i + 1;
            continue;
        }
        searched = searched + 1;
        if disk.fault_at(path).is_some() {
            return Err(cat("reading ", path));
        }
        let (text, _cut) = read_utf8_prefix(node, DEFAULT_SEARCH_LIMIT_BYTES as usize);
        let rel = match root.rel_path(path) {
            Ok(s) => s,
            Err(e) => {
                return Err(e);
            },
        };
        let ls = lines(text.as_str());
        let ghost lv = views(ls@);
        let ghost h = hits(m.pred(), rel@, lv, 0, limit as int, items_view(matches@));
        let mut k: usize = 0;
        while k < ls.len()
            invariant
                k <= ls@.len(),
                lv == views(ls@),
                h == hits(m.pred(), rel@, lv, k as int, limit as int, items_view(matches@)),
                h.full ==> goal == Ok::<Found, Seq<char>>(
                    Found { matches: h.matches, searched: searched as int, full: true },
                ),
                goal == found_in(disk, root@, m.pred(), views(files@), 0, limit as int, Seq::empty(), 0),
            decreases ls.len() - k,
        {
            let line = ls[k].as_str();
            assert(lv[k as int] == line@);
            if m.is_match(line) {
                let item = Members::new().with("path", Data::string(rel.as_str())).with(
                    "line",
                    Data::number((k as u64) + 1),
                ).with("snippet", Data::string(trim(line).as_str())).object();
                let ghost was = matches@;
                matches.push(item);
                assert(items_view(matches@) =~= items_view(was).push(item@));
                if matches.len() >= limit {
                    return Ok(Search { matches, searched, full: true });
                }
            }
            k = k + 1;
        }
        i = i + 1;
    }
    Ok(Search { matches, searched, full: false })
}

/// What a search returns, by the name of what was asked for.
pub open spec fn search_json(what: Seq<char>, asked: Seq<char>, f: Found) -> Json {
    Json::Object(
        no_fields().push(field(what, Json::Str(asked))).push(
            field("matches"@, Json::Array(f.matches)),
        ).push(field("searched_files"@, Json::Int(f.searched))).push(
            field("truncated"@, Json::Bool(f.full)),
        ),
    )
}

fn search_value(what: &str, asked: &str, s: Search) -> (r: Data)
    ensures
        r@ == search_json(what@, asked@, s@),
{
    proof {
        lemma_array_view(s.matches);
    }
    Members::new().with(what, Data::string(asked)).with("matches", Data::Array(s.matches)).with(
        "searched_files",
        Data::number(s.searched as u64),
    ).with("truncated", Data::boolean(s.full)).object()
}

/// The most matches that a search asks for.
pub open spec fn match_limit(args: Json) -> int {
    limit_of(args, "max_matches"@, DEFAULT_MAX_MATCHES as int, 1, MAX_MATCHES as int)
}

/// What a search with the given matcher returns.
pub open spec fn search_with(
    disk: &Disk,
    places: Seq<Place>,
    args: Json,
    p: spec_fn(Seq<char>) -> bool,
    what: Seq<char>,
    asked: Seq<char>,
) -> Result<Json, Seq<char>> {
    match search_files(disk, places, args.get_str("path"@)) {
        Err(e) => Err(e),
        Ok(files) => match found_in(
            disk,
            places,
            p,
            files,
            0,
            match_limit(args),
            Seq::empty(),
            0,
        ) {
            Err(e) => Err(e),
            Ok(f) => Ok(search_json(what, asked, f)),
        },
    }
}

/// Searches the files that the arguments ask for with a matcher.
pub fn search_matching(
    root: &FsRoot,
    disk: &Disk,
    args: &Data,
    m: &Matcher,
    what: &str,
    asked: &str,
) -> (r: Result<Data, String>)
    ensures
        outcome(r) == search_with(disk, root@, args@, m.pred(), what@, asked@),
{
    let limit: usize = limit_arg(
        args,
        "max_matches",
        DEFAULT_MAX_MATCHES,
        1,
        MAX_MATCHES,
    ) as usize;
    match collect_files(root, disk, args.get_str("path")) {
        Err(e) => Err(e),
        Ok(files) => match scan_files(root, disk, m, &files, limit) {
            Err(e) => Err(e),
            Ok(s) => Ok(search_value(what, asked, s)),
        },
    }
}

/// What `fs_search` returns.
pub open spec fn search_result_of(disk: &Disk, places: Seq<Place>, args: Json) -> Result<
    Json,
    Seq<char>,
> {
    match args.get_str("query"@) {
        None => Err("fs_search requires string `query`"@),
        Some(given) => {
            let q = trimmed(given);
            if q.len() == 0 {
                Err("fs_search query cannot be empty"@)
            } else {
                search_with(disk, places, args, holding(lowered(q)), "query"@, q)
            }
        },
    }
}

/// Searches text files for a text without regard to case.
pub fn search_impl(root: &FsRoot, disk: &Disk, args: &Data) -> (r: Result<Data, String>)
    ensures
        outcome(r) == search_result_of(disk, root@, args@),
{
    let given = match args.get_str("query") {
        Some(q) => q,
        None => {
            return Err(owned("fs_search requires string `query`"));
        },
    };
    let query = trim(given);
    if query.as_str().is_empty() {
        return Err(owned("fs_search query cannot be empty"));
    }
    let m = Matcher::Text(to_lower(query.as_str()));
    search_matching(root, disk, args, &m, "query", query.as_str())
}

/// What `fs_grep` returns.
pub open spec fn grep_result_of(disk: &Disk, places: Seq<Place>, args: Json) -> Result<
    Json,
    Seq<char>,
> {
    match args.get_str("pattern"@) {
        None => Err("fs_grep requires string `pattern`"@),
        Some(p) => {
            let ignore_case = args.get_bool("case_sensitive"@) == Some(false);
            match regex_compiled(p, ignore_case) {
                Err(_) => Err("invalid fs_grep pattern"@),
                Ok(re) => search_with(disk, places, args, matching(re), "pattern"@, p),
            }
        },
    }
}

/// Searches text files with a regular expression.
pub fn grep_impl(root: &FsRoot, disk: &Disk, args: &Data) -> (r: Result<Data, String>)
    ensures
        outcome(r) == grep_result_of(disk, root@, args@),
{
    let pattern = match args.get_str("pattern") {
        Some(p) => p,
        None => {
            return Err(owned("fs_grep requires string `pattern`"));
        },
    };
    let ignore_case = match args.get_bool("case_sensitive") {
        Some(b) => !b,
        None => false,
    };
    match compile_regex(pattern, ignore_case) {
        Err(_) => Err(owned("invalid fs_grep pattern")),
        Ok(re) => {
            let m = Matcher::Pattern(re);
            search_matching(root, disk, args, &m, "pattern", pattern)
        },
    }
}

// ----- glob -----
/// The shown paths of files that a glob takes, from index `i` on, until there
/// are `limit`; and whether there are.
pub struct GlobHits {
    pub paths: Seq<Seq<char>>,
    pub full: bool,
}

pub open spec fn glob_files(
    places: Seq<Place>,
    set: globset::GlobSet,
    files: Seq<Seq<char>>,
    i: int,
    limit: int,
    acc: Seq<Seq<char>>,
) -> Result<GlobHits, Seq<char>>
    decreases files.len() - i,
{
    if i < 0 || i >= files.len() {
        Ok(GlobHits { paths: acc, full: false })
    } else {
        match shown(places, files[i]) {
            Err(e) => Err(e),
            Ok(rel) => if !glob_matches(set, rel) {
                glob_files(places, set, files, i + 1, limit, acc)
            } else if acc.len() + 1 >= limit {
                Ok(GlobHits { paths: acc.push(rel), full: true })
            } else {
                glob_files(places, set, files, i + 1, limit, acc.push(rel))
            },
        }
    }
}

/// The same over the targets from index `i` on.
pub open spec fn glob_targets(
    disk: &Disk,
    places: Seq<Place>,
    set: globset::GlobSet,
    ts: Seq<Target>,
    i: int,
    limit: int,
    acc: Seq<Seq<char>>,
) -> Result<GlobHits, Seq<char>>
    decreases ts.len() - i,
{
    if i < 0 || i >= ts.len() {
        Ok(GlobHits { paths: acc, full: false })
    } else if !disk.is_dir(ts[i].start) {
        Err("fs_glob path must be a directory"@)
    } else {
        match files_below(disk, places[ts[i].jail].dir, ts[i].start, WALK_CEILING as nat) {
            Err(e) => Err(e),
            Ok(files) => match glob_files(places, set, files, 0, limit, acc) {
                Err(e) => Err(e),
                Ok(h) => if h.full {
                    Ok(h)
                } else {
                    glob_targets(disk, places, set, ts, i + 1, limit, h.paths)
                },
            },
        }
    }
}

pub open spec fn glob_json(h: GlobHits) -> Json {
    Json::Object(
        no_fields().push(
            field("matches"@, Json::Array(h.paths.map_values(|p: Seq<char>| Json::Str(p)))),
        ).push(field("truncated"@, Json::Bool(h.full))),
    )
}

/// What `fs_glob` returns for a compiled pattern.
pub open spec fn glob_with(
    disk: &Disk,
    places: Seq<Place>,
    args: Json,
    set: globset::GlobSet,
) -> Result<Json, Seq<char>> {
    let limit = limit_of(
        args,
        "max_matches"@,
        DEFAULT_LIST_LIMIT as int,
        1,
        MAX_LIST_LIMIT as int,
    );
    match targets(disk, places, args.get_str("path"@)) {
        Err(e) => Err(e),
        Ok(ts) => match glob_targets(disk, places, set, ts, 0, limit, Seq::empty()) {
            Err(e) => Err(e),
            Ok(h) => Ok(glob_json(h)),
        },
    }
}

/// What `fs_glob` returns.
pub open spec fn glob_result_of(disk: &Disk, places: Seq<Place>, args: Json) -> Result<
    Json,
    Seq<char>,
> {
    match args.get_str("pattern"@) {
        None => Err("fs_glob requires string `pattern`"@),
        Some(p) => match glob_parsed(p) {
            Err(_) => Err("invalid fs_glob pattern"@),
            Ok(glob) => match globset_built(glob) {
                Err(e) => Err(glob_error_text(e)),
                Ok(set) => glob_with(disk, places, args, set),
            },
        },
    }
}

/// The value for the paths that a glob took.
fn glob_value(paths: &Vec<String>, full: bool) -> (r: Data)
    ensures
        r@ == glob_json(GlobHits { paths: views(paths@), full }),
{
    let list = Data::strings(paths);
    assert(paths@.map_values(|s: String| Json::Str(s@)) =~= views(paths@).map_values(
        |p: Seq<char>| Json::Str(p),
    ));
    Members::new().with("matches", list).with("truncated", Data::boolean(full)).object()
}

/// Matches the shown paths of files against a compiled glob.
pub fn glob_matching(root: &FsRoot, disk: &Disk, args: &Data, set: &globset::GlobSet) -> (r: Result<
    Data,
    String,
>)
    ensures
        outcome(r) == glob_with(disk, root@, args@, *set),
{
    let limit: usize = limit_arg(
        args,
        "max_matches",
        DEFAULT_LIST_LIMIT,
        1,
        MAX_LIST_LIMIT,
    ) as usize;
    let ts = match root.walk_targets(disk, args.get_str("path")) {
        Ok(ts) => ts,
        Err(e) => {
            return Err(e);
        },
    };
    let ghost tv = targets_view(ts@);
    let ghost goal = glob_targets(disk, root@, *set, tv, 0, limit as int, Seq::empty());
    let mut paths: Vec<String> = Vec::new();
    assert(views(paths@) =~= Seq::<Seq<char>>::empty());
    let mut i: usize = 0;
    while i < ts.len()
        invariant
            i <= ts@.len(),
            limit >= 1,
            tv == targets_view(ts@),
            forall|k: int| 0 <= k < ts@.len() ==> (#[trigger] ts@[k]).0 < root@.len(),
            goal == glob_targets(disk, root@, *set, tv, i as int, limit as int, views(paths@)),
            glob_with(disk, root@, args@, *set) == (match goal {
                Err(e) => Err(e),
                Ok(h) => Ok(glob_json(h)),
            }),
        decreases ts.len() - i,
    {
        let start = ts[i].1.as_str();
        let jail: usize = ts[i].0;
        assert(tv[i as int].start == start@ && tv[i as int].jail == jail);
        if !disk.dir(start) {
            return Err(owned("fs_glob path must be a directory"));
        }
        let files = match walk_files(disk, root.jail_at(jail), start, WALK_CEILING) {
            Ok(f) => f,
            Err(e) => {
                return Err(e);
            },
        };
        let ghost fv = views(files@);
        let ghost inner = glob_files(root@, *set, fv, 0, limit as int, views(paths@));
        let mut k: usize = 0;
        while k < files.len()
            invariant
                k <= files@.len(),
                fv == views(files@),
                inner == glob_files(root@, *set, fv, k as int, limit as int, views(paths@)),
                inner is Err ==> goal == inner,
                inner matches Ok(h) && h.full ==> goal == inner,
                glob_with(disk, root@, args@, *set) == (match goal {
                    Err(e) => Err(e),
                    Ok(h) => Ok(glob_json(h)),
                }),
            decreases files.len() - k,
        {
            assert(fv[k as int] == files@[k as int]@);
            let rel = match root.rel_path(files[k].as_str()) {
                Ok(s) => s,
                Err(e) => {
                    return Err(e);
                },
            };
            if glob_is_match(set, rel.as_str()) {
                let ghost was = paths@;
                let ghost rv = rel@;
                paths.push(rel);
                assert(views(paths@) =~= views(was).push(rv));
                if paths.len() >= limit {
                    return Ok(glob_value(&paths, true));
                }
            }
            k = k + 1;
        }
        i = i + 1;
    }
    Ok(glob_value(&paths, false))
}

/// Matches file paths with a glob pattern.
pub fn glob_impl(root: &FsRoot, disk: &Disk, args: &Data) -> (r: Result<Data, String>)
    ensures
        outcome(r) == glob_result_of(disk, root@, args@),
{
    let pattern = match args.get_str("pattern") {
        Some(p) => p,
        None => {
            return Err(owned("fs_glob requires string `pattern`"));
        },
    };
    let glob = match parse_glob(pattern) {
        Ok(g) => g,
        Err(_) => {
            return Err(owned("invalid fs_glob pattern"));
        },
    };
    match build_globset(glob) {
        Err(e) => Err(glob_refusal(&e)),
        Ok(set) => glob_matching(root, disk, args, &set),
    }
}

// ----- outline -----
/// One heading of an outline.
pub open spec fn heading_json(line: int, level: int, text: Seq<char>) -> Json {
    Json::Object(
        no_fields().push(field("line"@, Json::Int(line))).push(
            field("level"@, Json::Int(level)),
        ).push(field("text"@, Json::Str(text))),
    )
}

/// The headings of one file, and whether the limit on headings was hit.
pub struct Headings {
    pub items: Seq<Json>,
    pub hit: bool,
}

/// The headings in the lines from index `i` on, where `before` headings have
/// been taken from other files and at most `most` may be taken in all.
pub open spec fn headings_in(
    ls: Seq<Seq<char>>,
    i: int,
    before: int,
    most: int,
    acc: Seq<Json>,
) -> Headings
    decreases ls.len() - i,
{
    if i < 0 || i >= ls.len() {
        Headings { items: acc, hit: false }
    } else {
        match heading_of(ls[i]) {
            None => headings_in(ls, i + 1, before, most, acc),
            Some((level, text)) => if before + acc.len() >= most {
                Headings { items: acc, hit: true }
            } else {
                headings_in(ls, i + 1, before, most, acc.push(heading_json(i + 1, level, text)))
            },
        }
    }
}

/// An outline: its documents, the number of files looked into, and whether a
/// limit cut it short.
pub struct Outline {
    pub documents: Seq<Json>,
    pub searched: int,
    pub truncated: bool,
}

pub open spec fn document_headings(path: Seq<char>, headings: Seq<Json>) -> Json {
    Json::Object(
        no_fields().push(field("path"@, Json::Str(path))).push(
            field("headings"@, Json::Array(headings)),
        ),
    )
}

/// The outline of the files from index `i` on. A single named file is in it
/// even without headings, and the limit on documents does not hold for it.
pub open spec fn outlined(
    disk: &Disk,
    places: Seq<Place>,
    files: Seq<Seq<char>>,
    i: int,
    single: bool,
    max_documents: int,
    max_headings: int,
    documents: Seq<Json>,
    searched: int,
    taken: int,
) -> Result<Outline, Seq<char>>
    decreases files.len() - i,
{
    if i < 0 || i >= files.len() {
        Ok(Outline { documents, searched, truncated: false })
    } else if !single && searched >= max_documents {
        Ok(Outline { documents, searched, truncated: true })
    } else if !searchable(disk, files[i]) {
        outlined(
            disk,
            places,
            files,
            i + 1,
            single,
            max_documents,
            max_headings,
            documents,
            searched,
            taken,
        )
    } else {
        match looked_into(disk, places, files[i]) {
            Err(e) => Err(e),
            Ok(rel) => {
                let text = head_text(
                    disk.node(files[i])->0.content@,
                    DEFAULT_SEARCH_LIMIT_BYTES as int,
                );
                let h = headings_in(lines_of(text), 0, taken, max_headings, Seq::empty());
                let docs = if single || h.items.len() > 0 {
                    documents.push(document_headings(rel, h.items))
                } else {
                    documents
                };
                if h.hit {
                    Ok(Outline { documents: docs, searched: searched + 1, truncated: true })
                } else {
                    outlined(
                        disk,
                        places,
                        files,
                        i + 1,
                        single,
                        max_documents,
                        max_headings,
                        docs,
                        searched + 1,
                        taken + h.items.len(),
                    )
                }
            },
        }
    }
}

/// The files that an outline of the targets from index `i` on looks at: every
/// file below each directory.
pub open spec fn outline_files(
    disk: &Disk,
    places: Seq<Place>,
    ts: Seq<Target>,
    i: int,
    acc: Seq<Seq<char>>,
) -> Result<Seq<Seq<char>>, Seq<char>>
    decreases ts.len() - i,
{
    if i < 0 || i >= ts.len() {
        Ok(acc)
    } else if !disk.is_dir(ts[i].start) {
        outline_files(disk, places, ts, i + 1, acc)
    } else {
        match files_below(disk, places[ts[i].jail].dir, ts[i].start, WALK_CEILING as nat) {
            Err(e) => Err(e),
            Ok(found) => outline_files(disk, places, ts, i + 1, acc + found),
        }
    }
}

pub open spec fn outline_json(o: Outline) -> Json {
    Json::Object(
        no_fields().push(field("documents"@, Json::Array(o.documents))).push(
            field("searched_files"@, Json::Int(o.searched)),
        ).push(field("truncated"@, Json::Bool(o.truncated))),
    )
}

pub open spec fn max_documents_of(args: Json) -> int {
    limit_of(
        args,
        "max_documents"@,
        DEFAULT_OUTLINE_MAX_DOCUMENTS as int,
        1,
        MAX_OUTLINE_DOCUMENTS as int,
    )
}

pub open spec fn max_headings_of(args: Json) -> int {
    limit_of(
        args,
        "max_headings"@,
        DEFAULT_OUTLINE_MAX_HEADINGS as int,
        1,
        MAX_OUTLINE_HEADINGS as int,
    )
}

/// What `fs_outline` returns.
pub open spec fn outline_result_of(disk: &Disk, places: Seq<Place>, args: Json) -> Result<
    Json,
    Seq<char>,
> {
    match targets(disk, places, args.get_str("path"@)) {
        Err(e) => Err(e),
        Ok(ts) => {
            let single = ts.len() == 1 && disk.is_file(ts[0].start);
            let files = if single {
                Ok(Seq::<Seq<char>>::empty().push(ts[0].start))
            } else {
                outline_files(disk, places, ts, 0, Seq::empty())
            };
            match files {
                Err(e) => Err(e),
                Ok(fs) => match outlined(
                    disk,
                    places,
                    fs,
                    0,
                    single,
                    max_documents_of(args),
                    max_headings_of(args),
                    Seq::empty(),
                    0,
                    0,
                ) {
                    Err(e) => Err(e),
                    Ok(o) => Ok(outline_json(o)),
                },
            }
        },
    }
}

fn outline_value(documents: Vec<Data>, searched: usize, truncated: bool) -> (r: Data)
    ensures
        r@ == outline_json(
            Outline { documents: items_view(documents@), searched: searched as int, truncated },
        ),
{
    proof {
        lemma_array_view(documents);
    }
    Members::new().with("documents", Data::Array(documents)).with(
        "searched_files",
        Data::number(searched as u64),
    ).with("truncated", Data::boolean(truncated)).object()
}

/// The headings of one file's lines.
fn collect_headings(ls: &Vec<String>, before: usize, most: usize) -> (r: (Vec<Data>, bool))
    requires
        before <= most,
    ensures
        ({
            let h = headings_in(views(ls@), 0, before as int, most as int, Seq::empty());
            items_view(r.0@) == h.items && r.1 == h.hit
        }),
        before + r.0@.len() <= most,
{
    let ghost lv = views(ls@);
    let ghost goal = headings_in(lv, 0, before as int, most as int, Seq::empty());
    let mut items: Vec<Data> = Vec::new();
    let mut k: usize = 0;
    assert(items_view(items@) =~= Seq::<Json>::empty());
    while k < ls.len()
        invariant
            k <= ls@.len(),
            lv == views(ls@),
            before + items@.len() <= most,
            goal == headings_in(lv, 0, before as int, most as int, Seq::empty()),
            goal == headings_in(lv, k as int, before as int, most as int, items_view(items@)),
        decreases ls.len() - k,
    {
        assert(lv[k as int] == ls@[k as int]@);
        match markdown_heading(ls[k].as_str()) {
            None => {},
            Some((level, text)) => {
                if items.len() >= most - before {
                    return (items, true);
                }
                let item = Members::new().with("line", Data::number((k as u64) + 1)).with(
                    "level",
                    Data::number(level as u64),
                ).with("text", Data::string(text.as_str())).object();
                let ghost was = items@;
                items.push(item);
                assert(items_view(items@) =~= items_view(was).push(item@));
            },
        }
        k = k + 1;
    }
    (items, false)
}

/// The files that an outline looks at.
fn files_to_outline(root: &FsRoot, disk: &Disk, ts: &Vec<(usize, String)>) -> (r: Result<
    Vec<String>,
    String,
>)
    requires
        forall|k: int| 0 <= k < ts@.len() ==> (#[trigger] ts@[k]).0 < root@.len(),
    ensures
        list_result(r) == outline_files(disk, root@, targets_view(ts@), 0, Seq::empty()),
{
    let ghost tv = targets_view(ts@);
    let mut files: Vec<String> = Vec::new();
    let mut i: usize = 0;
    assert(views(files@) =~= Seq::<Seq<char>>::empty());
    while i < ts.len()
        invariant
            i <= ts@.len(),
            tv == targets_view(ts@),
            forall|k: int| 0 <= k < ts@.len() ==> (#[trigger] ts@[k]).0 < root@.len(),
            outline_files(disk, root@, tv, 0, Seq::empty()) == outline_files(
                disk,
                root@,
                tv,
                i as int,
                views(files@),
            ),
        decreases ts.len() - i,
    {
        let start = ts[i].1.as_str();
        let jail: usize = ts[i].0;
        assert(tv[i as int].start == start@ && tv[i as int].jail == jail);
        if disk.dir(start) {
            match walk_files(disk, root.jail_at(jail), start, WALK_CEILING) {
                Ok(found) => {
                    extend(&mut files, &found);
                },
                Err(e) => {
                    return Err(e);
                },
            }
        }
        i = i + 1;
    }
    Ok(files)
}

/// The outline of the given files.
pub fn outline_of_files(
    root: &FsRoot,
    disk: &Disk,
    files: &Vec<String>,
    single: bool,
    max_documents: usize,
    max_headings: usize,
) -> (r: Result<Data, String>)
    ensures
        outcome(r) == (match outlined(
            disk,
            root@,
            views(files@),
            0,
            single,
            max_documents as int,
            max_headings as int,
            Seq::empty(),
            0,
            0,
        ) {
            Err(e) => Err(e),
            Ok(o) => Ok::<Json, Seq<char>>(outline_json(o)),
        }),
{
    let ghost fv = views(files@);
    let ghost goal = outlined(
        disk,
        root@,
        fv,
        0,
        single,
        max_documents as int,
        max_headings as int,
        Seq::empty(),
        0,
        0,
    );
    let mut documents: Vec<Data> = Vec::new();
    let mut searched: usize = 0;
    let mut taken: usize = 0;
    let mut i: usize = 0;
    assert(items_view(documents@) =~= Seq::<Json>::empty());
    while i < files.len()
        invariant
            i <= files@.len(),
            searched <= i,
            taken <= max_headings,
            fv == views(files@),
            goal == outlined(
                disk,
                root@,
                fv,
                0,
                single,
                max_documents as int,
                max_headings as int,
                Seq::empty(),
                0,
                0,
            ),
            goal == outlined(
                disk,
                root@,
                fv,
                i as int,
                single,
                max_documents as int,
                max_headings as int,
                items_view(documents@),
                searched as int,
                taken as int,
            ),
        decreases files.len() - i,
    {
        if !single && searched >= max_documents {
            return Ok(outline_value(documents, searched, true));
        }
        let path = files[i].as_str();
        assert(fv[i as int] == path@);
        let node = match disk.find(path) {
            Some(n) => n,
            None => {
                i = i + 1;
                continue;
            },
        };
        if !matches!(node.kind, Kind::File) || !looks_textual(path) || node.bytes
            > DEFAULT_SEARCH_LIMIT_BYTES {
            i = i + 1;
            continue;
        }
        searched = searched + 1;
        if disk.fault_at(path).is_some() {
            return Err(cat("reading ", path));
        }
        let (text, _cut) = read_utf8_prefix(node, DEFAULT_SEARCH_LIMIT_BYTES as usize);
        let rel = match root.rel_path(path) {
            Ok(s) => s,
            Err(e) => {
                return Err(e);
            },
        };
        let ls = lines(text.as_str());
        let (headings, hit) = collect_headings(&ls, taken, max_headings);
        let count: usize = headings.len();
        if single || count > 0 {
            proof {
                lemma_array_view(headings);
            }
            let item = Members::new().with("path", Data::string(rel.as_str())).with(
                "headings",
                Data::Array(headings),
            ).object();
            let ghost was = documents@;
            documents.push(item);
            assert(items_view(documents@) =~= items_view(was).push(item@));
        }
        if hit {
            return Ok(outline_value(documents, searched, true));
        }
        taken = taken + count;
        i = i + 1;
    }
    Ok(outline_value(documents, searched, false))
}

/// Returns the markdown headings of one text file, or of the text files below
/// a directory.
pub fn outline_impl(root: &FsRoot, disk: &Disk, args: &Data) -> (r: Result<Data, String>)
    ensures
        outcome(r) == outline_result_of(disk, root@, args@),
{
    let ts = match root.walk_targets(disk, args.get_str("path")) {
        Ok(ts) => ts,
        Err(e) => {
            return Err(e);
        },
    };
    let ghost tv = targets_view(ts@);
    let max_documents: usize = limit_arg(
        args,
        "max_documents",
        DEFAULT_OUTLINE_MAX_DOCUMENTS,
        1,
        MAX_OUTLINE_DOCUMENTS,
    ) as usize;
    let max_headings: usize = limit_arg(
        args,
        "max_headings",
        DEFAULT_OUTLINE_MAX_HEADINGS,
        1,
        MAX_OUTLINE_HEADINGS,
    ) as usize;
    assert(ts@.len() == 1 ==> tv[0].start == ts@[0].1@);
    let single = ts.len() == 1 && disk.file(ts[0].1.as_str());
    let files = if single {
        let mut one: Vec<String> = Vec::new();
        one.push(ts[0].1.clone());
        assert(views(one@) =~= Seq::<Seq<char>>::empty().push(tv[0].start));
        one
    } else {
        match files_to_outline(root, disk, &ts) {
            Ok(f) => f,
            Err(e) => {
                return Err(e);
            },
        }
    };
    outline_of_files(root, disk, &files, single, max_documents, max_headings)
}

// ----- laws -----
/// The file lies in one of the roots.
pub open spec fn rooted(places: Seq<Place>, path: Seq<char>) -> bool {
    exists|i: int| 0 <= i < places.len() && under(path, (#[trigger] places[i]).dir)
}

pub open spec fn all_rooted(places: Seq<Place>, files: Seq<Seq<char>>) -> bool {
    forall|k: int| 0 <= k < files.len() ==> rooted(places, #[trigger] files[k])
}

/// The target lies in the jail that it names.
spec fn aimed(places: Seq<Place>, t: Target) -> bool {
    0 <= t.jail < places.len() && under(t.start, places[t.jail].dir)
}

proof fn lemma_candidates_rooted(
    disk: &Disk,
    places: Seq<Place>,
    ts: Seq<Target>,
    i: int,
    acc: Seq<Seq<char>>,
)
    requires
        0 <= i,
        forall|k: int| 0 <= k < ts.len() ==> aimed(places, #[trigger] ts[k]),
        all_rooted(places, acc),
    ensures
        candidates(disk, places, ts, i, acc) matches Ok(files) ==> all_rooted(places, files),
    decreases ts.len() - i,
{
    if i < ts.len() {
        let t = ts[i];
        assert(aimed(places, t));
        let dir = places[t.jail].dir;
        if disk.is_file(t.start) {
            assert(rooted(places, t.start));
            lemma_candidates_rooted(disk, places, ts, i + 1, acc.push(t.start));
        } else {
            law_walks_stay_in_the_jail(disk, dir, t.start, WALK_CEILING as nat);
            if let Ok(found) = files_below(disk, dir, t.start, WALK_CEILING as nat) {
                assert forall|k: int| 0 <= k < (acc + found).len() implies rooted(
                    places,
                    #[trigger] (acc + found)[k],
                ) by {
                    if k < acc.len() {
                        assert(rooted(places, acc[k]));
                    } else {
                        assert(under(found[k - acc.len()], places[t.jail].dir));
                    }
                }
                lemma_candidates_rooted(disk, places, ts, i + 1, acc + found);
            }
        }
    }
}

/// A search looks only at files that lie in one of the roots, whatever path it
/// is given and wherever directory entries lead.
pub proof fn law_searches_stay_in_the_roots(
    disk: &Disk,
    places: Seq<Place>,
    path: Option<Seq<char>>,
)
    ensures
        search_files(disk, places, path) matches Ok(files) ==> all_rooted(places, files),
{
    if let Ok(ts) = targets(disk, places, path) {
        let rel = match path {
            Some(p) => trimmed(p),
            None => Seq::empty(),
        };
        if rel.len() > 0 {
            law_resolution_stays_in_the_named_root(disk, places, rel);
        }
        assert forall|k: int| 0 <= k < ts.len() implies aimed(places, #[trigger] ts[k]) by {}
        lemma_candidates_rooted(disk, places, ts, 0, Seq::empty());
    }
}

/// A match is the line at index `j` of a file that searches look into.
pub open spec fn is_line(
    disk: &Disk,
    places: Seq<Place>,
    p: spec_fn(Seq<char>) -> bool,
    file: Seq<char>,
    j: int,
    m: Json,
) -> bool {
    let ls = lines_of(
        head_text(disk.node(file)->0.content@, DEFAULT_SEARCH_LIMIT_BYTES as int),
    );
    &&& searchable(disk, file)
    &&& shown(places, file) is Ok
    &&& 0 <= j < ls.len()
    &&& p(ls[j])
    &&& m == match_json(shown(places, file)->Ok_0, j + 1, trimmed(ls[j]))
}

/// A match is a recognised line of one of the files.
pub open spec fn genuine(
    disk: &Disk,
    places: Seq<Place>,
    p: spec_fn(Seq<char>) -> bool,
    files: Seq<Seq<char>>,
    m: Json,
) -> bool {
    exists|i: int, j: int|
        0 <= i < files.len() && #[trigger] is_line(disk, places, p, files[i], j, m)
}

proof fn lemma_hits(
    p: spec_fn(Seq<char>) -> bool,
    path: Seq<char>,
    ls: Seq<Seq<char>>,
    i: int,
    limit: int,
    acc: Seq<Json>,
)
    requires
        0 <= i,
        acc.len() < limit,
    ensures
        ({
            let h = hits(p, path, ls, i, limit, acc);
            &&& acc.len() <= h.matches.len() <= limit
            &&& h.full <==> h.matches.len() == limit
            &&& forall|k: int| 0 <= k < acc.len() ==> #[trigger] h.matches[k] == acc[k]
            &&& forall|k: int|
                acc.len() <= k < h.matches.len() ==> exists|j: int|
                    i <= j < ls.len() && #[trigger] p(ls[j]) && #[trigger] h.matches[k]
                        == match_json(path, j + 1, trimmed(ls[j]))
            &&& !h.full ==> forall|j: int|
                i <= j < ls.len() && #[trigger] p(ls[j]) ==> h.matches.contains(
                    match_json(path, j + 1, trimmed(ls[j])),
                )
        }),
    decreases ls.len() - i,
{
    let h = hits(p, path, ls, i, limit, acc);
    if i < ls.len() {
        if p(ls[i]) {
            let m = match_json(path, i + 1, trimmed(ls[i]));
            let more = acc.push(m);
            if more.len() < limit {
                lemma_hits(p, path, ls, i + 1, limit, more);
            }
            assert(h.matches[acc.len() as int] == m);
        } else {
            lemma_hits(p, path, ls, i + 1, limit, acc);
        }
    }
}

/// What holds of a search that found `f`, from the file at index `from` on.
spec fn sound(
    disk: &Disk,
    places: Seq<Place>,
    p: spec_fn(Seq<char>) -> bool,
    files: Seq<Seq<char>>,
    from: int,
    limit: int,
    f: Found,
) -> bool {
    &&& f.matches.len() <= limit
    &&& f.full <==> f.matches.len() == limit
    &&& 0 <= f.searched <= files.len()
    &&& forall|k: int|
        0 <= k < f.matches.len() ==> genuine(disk, places, p, files, #[trigger] f.matches[k])
    &&& !f.full ==> forall|i: int, j: int, m: Json|
        from <= i < files.len() && #[trigger] is_line(disk, places, p, files[i], j, m)
            ==> f.matches.contains(m)
}

proof fn lemma_found(
    disk: &Disk,
    places: Seq<Place>,
    p: spec_fn(Seq<char>) -> bool,
    files: Seq<Seq<char>>,
    i: int,
    limit: int,
    matches: Seq<Json>,
    searched: int,
)
    requires
        0 <= i <= files.len(),
        0 <= searched <= i,
        matches.len() < limit,
        forall|k: int|
            0 <= k < matches.len() ==> genuine(disk, places, p, files, #[trigger] matches[k]),
    ensures
        found_in(disk, places, p, files, i, limit, matches, searched) matches Ok(f) ==> {
            &&& sound(disk, places, p, files, i, limit, f)
            &&& matches.len() <= f.matches.len()
            &&& forall|k: int| 0 <= k < matches.len() ==> #[trigger] f.matches[k] == matches[k]
        },
    decreases files.len() - i,
{
    if i < files.len() {
        if !searchable(disk, files[i]) {
            lemma_found(disk, places, p, files, i + 1, limit, matches, searched);
        } else if let Ok(rel) = looked_into(disk, places, files[i]) {
            let ls = lines_of(
                head_text(disk.node(files[i])->0.content@, DEFAULT_SEARCH_LIMIT_BYTES as int),
            );
            let h = hits(p, rel, ls, 0, limit, matches);
            lemma_hits(p, rel, ls, 0, limit, matches);
            assert forall|k: int| 0 <= k < h.matches.len() implies genuine(
                disk,
                places,
                p,
                files,
                #[trigger] h.matches[k],
            ) by {
                if k < matches.len() {
                    assert(genuine(disk, places, p, files, matches[k]));
                } else {
                    let j = choose|j: int|
                        0 <= j < ls.len() && #[trigger] p(ls[j]) && h.matches[k] == match_json(
                            rel,
                            j + 1,
                            trimmed(ls[j]),
                        );
                    assert(is_line(disk, places, p, files[i], j, h.matches[k]));
                }
            }
            if !h.full {
                lemma_found(disk, places, p, files, i + 1, limit, h.matches, searched + 1);
                if let Ok(f) = found_in(
                    disk,
                    places,
                    p,
                    files,
                    i + 1,
                    limit,
                    h.matches,
                    searched + 1,
                ) {
                    assert forall|i2: int, j: int, m: Json|
                        !f.full && i <= i2 < files.len() && #[trigger] is_line(
                            disk,
                            places,
                            p,
                            files[i2],
                            j,
                            m,
                        ) implies f.matches.contains(m) by {
                        if i2 == i {
                            assert(h.matches.contains(m));
                            let k = h.matches.index_of(m);
                            assert(f.matches[k] == m);
                        }
                    }
                }
            }
        }
    }
}

/// A search finds at most as many lines as it is asked for, and each of them is
/// a recognised line of one of the files. Where it is not cut short it misses
/// none.
pub proof fn law_searches_are_sound(
    disk: &Disk,
    places: Seq<Place>,
    p: spec_fn(Seq<char>) -> bool,
    files: Seq<Seq<char>>,
    limit: int,
)
    requires
        limit > 0,
    ensures
        found_in(disk, places, p, files, 0, limit, Seq::empty(), 0) matches Ok(f) ==> {
            &&& f.matches.len() <= limit
            &&& f.full <==> f.matches.len() == limit
            &&& forall|k: int|
                0 <= k < f.matches.len() ==> genuine(
                    disk,
                    places,
                    p,
                    files,
                    #[trigger] f.matches[k],
                )
            &&& forall|i: int, j: int, m: Json|
                !f.full && 0 <= i < files.len() && #[trigger] is_line(
                    disk,
                    places,
                    p,
                    files[i],
                    j,
                    m,
                ) ==> f.matches.contains(m)
        },
{
    lemma_found(disk, places, p, files, 0, limit, Seq::empty(), 0);
}

/// The number of headings of one document of an outline.
pub open spec fn heading_count(document: Json) -> nat {
    document->Object_0[1].value->Array_0.len()
}

/// The number of headings of the first `n` documents of an outline.
pub open spec fn heading_total(documents: Seq<Json>, n: int) -> nat
    decreases n,
{
    if n <= 0 {
        0
    } else {
        heading_total(documents, n - 1) + heading_count(documents[n - 1])
    }
}

proof fn lemma_heading_total(a: Seq<Json>, b: Seq<Json>, n: int)
    requires
        0 <= n <= a.len() <= b.len(),
        forall|k: int| 0 <= k < a.len() ==> a[k] == b[k],
    ensures
        heading_total(a, n) == heading_total(b, n),
    decreases n,
{
    if n > 0 {
        lemma_heading_total(a, b, n - 1);
    }
}

proof fn lemma_headings_in(ls: Seq<Seq<char>>, i: int, before: int, most: int, acc: Seq<Json>)
    requires
        0 <= i,
        before + acc.len() <= most,
    ensures
        before + headings_in(ls, i, before, most, acc).items.len() <= most,
    decreases ls.len() - i,
{
    if i < ls.len() {
        match heading_of(ls[i]) {
            None => {
                lemma_headings_in(ls, i + 1, before, most, acc);
            },
            Some((level, text)) => {
                if before + acc.len() < most {
                    lemma_headings_in(
                        ls,
                        i + 1,
                        before,
                        most,
                        acc.push(heading_json(i + 1, level, text)),
                    );
                }
            },
        }
    }
}

proof fn lemma_outlined(
    disk: &Disk,
    places: Seq<Place>,
    files: Seq<Seq<char>>,
    i: int,
    single: bool,
    max_documents: int,
    max_headings: int,
    documents: Seq<Json>,
    searched: int,
)
    requires
        0 <= i,
        !single ==> searched <= max_documents,
        heading_total(documents, documents.len() as int) <= max_headings,
    ensures
        outlined(
            disk,
            places,
            files,
            i,
            single,
            max_documents,
            max_headings,
            documents,
            searched,
            heading_total(documents, documents.len() as int) as int,
        ) matches Ok(o) ==> {
            &&& !single ==> o.searched <= max_documents
            &&& heading_total(o.documents, o.documents.len() as int) <= max_headings
        },
    decreases files.len() - i,
{
    let taken = heading_total(documents, documents.len() as int) as int;
    if i < files.len() && (single || searched < max_documents) {
        if !searchable(disk, files[i]) {
            lemma_outlined(
                disk,
                places,
                files,
                i + 1,
                single,
                max_documents,
                max_headings,
                documents,
                searched,
            );
        } else if let Ok(rel) = looked_into(disk, places, files[i]) {
            let ls = lines_of(
                head_text(disk.node(files[i])->0.content@, DEFAULT_SEARCH_LIMIT_BYTES as int),
            );
            let h = headings_in(ls, 0, taken, max_headings, Seq::empty());
            lemma_headings_in(ls, 0, taken, max_headings, Seq::empty());
            let more = documents.push(document_headings(rel, h.items));
            let docs = if single || h.items.len() > 0 {
                more
            } else {
                documents
            };
            lemma_heading_total(documents, more, documents.len() as int);
            assert(more[more.len() - 1] == document_headings(rel, h.items));
            assert(heading_count(document_headings(rel, h.items)) == h.items.len());
            assert(heading_total(docs, docs.len() as int) == taken + h.items.len());
            lemma_outlined(
                disk,
                places,
                files,
                i + 1,
                single,
                max_documents,
                max_headings,
                docs,
                searched + 1,
            );
        }
    }
}

/// An outline never looks into more documents nor holds more headings than it is
/// asked for; one file that is named is looked into whatever the number of
/// documents.
pub proof fn law_outlines_are_bounded(
    disk: &Disk,
    places: Seq<Place>,
    files: Seq<Seq<char>>,
    single: bool,
    max_documents: int,
    max_headings: int,
)
    requires
        max_documents >= 0,
        max_headings >= 0,
    ensures
        outlined(
            disk,
            places,
            files,
            0,
            single,
            max_documents,
            max_headings,
            Seq::empty(),
            0,
            0,
        ) matches Ok(o) ==> {
            &&& !single ==> o.searched <= max_documents
            &&& heading_total(o.documents, o.documents.len() as int) <= max_headings
        },
{
    lemma_outlined(disk, places, files, 0, single, max_documents, max_headings, Seq::empty(), 0);
}

/// The pattern takes every path.
pub open spec fn all_taken(set: globset::GlobSet, paths: Seq<Seq<char>>) -> bool {
    forall|k: int| 0 <= k < paths.len() ==> glob_matches(set, #[trigger] paths[k])
}

proof fn lemma_glob_files(
    places: Seq<Place>,
    set: globset::GlobSet,
    files: Seq<Seq<char>>,
    i: int,
    limit: int,
    acc: Seq<Seq<char>>,
)
    requires
        0 <= i,
        acc.len() < limit,
        all_taken(set, acc),
    ensures
        glob_files(places, set, files, i, limit, acc) matches Ok(h) ==> {
            &&& all_taken(set, h.paths)
            &&& h.paths.len() <= limit
            &&& h.full <==> h.paths.len() == limit
        },
    decreases files.len() - i,
{
    if i < files.len() {
        if let Ok(rel) = shown(places, files[i]) {
            if !glob_matches(set, rel) {
                lemma_glob_files(places, set, files, i + 1, limit, acc);
            } else if acc.len() + 1 < limit {
                lemma_glob_files(places, set, files, i + 1, limit, acc.push(rel));
            }
        }
    }
}

proof fn lemma_glob_targets(
    disk: &Disk,
    places: Seq<Place>,
    set: globset::GlobSet,
    ts: Seq<Target>,
    i: int,
    limit: int,
    acc: Seq<Seq<char>>,
)
    requires
        0 <= i,
        acc.len() < limit,
        all_taken(set, acc),
    ensures
        glob_targets(disk, places, set, ts, i, limit, acc) matches Ok(h) ==> {
            &&& all_taken(set, h.paths)
            &&& h.paths.len() <= limit
            &&& h.full <==> h.paths.len() == limit
        },
    decreases ts.len() - i,
{
    if i < ts.len() && disk.is_dir(ts[i].start) {
        if let Ok(files) = files_below(
            disk,
            places[ts[i].jail].dir,
            ts[i].start,
            WALK_CEILING as nat,
        ) {
            lemma_glob_files(places, set, files, 0, limit, acc);
            if let Ok(h) = glob_files(places, set, files, 0, limit, acc) {
                if !h.full {
                    lemma_glob_targets(disk, places, set, ts, i + 1, limit, h.paths);
                }
            }
        }
    }
}

/// A glob gives at most as many paths as it is asked for, and only paths that
/// the pattern takes.
pub proof fn law_globbed_paths_are_taken(
    disk: &Disk,
    places: Seq<Place>,
    set: globset::GlobSet,
    ts: Seq<Target>,
    limit: int,
)
    requires
        limit > 0,
    ensures
        glob_targets(disk, places, set, ts, 0, limit, Seq::empty()) matches Ok(h) ==> {
            &&& all_taken(set, h.paths)
            &&& h.paths.len() <= limit
            &&& h.full <==> h.paths.len() == limit
        },
{
    lemma_glob_targets(disk, places, set, ts, 0, limit, Seq::empty());
}

// ----- what searches report -----
/// A match tells the path, the number of the line and the text of the line.
pub proof fn law_matches_tell_where_they_stand(path: Seq<char>, line: int, snippet: Seq<char>)
    ensures
        match_json(path, line, snippet).get_str("path"@) == Some(path),
        match_json(path, line, snippet).get("line"@) == Some(Json::Int(line)),
        match_json(path, line, snippet).get_str("snippet"@) == Some(snippet),
{
    reveal_strlit("path");
    reveal_strlit("line");
    reveal_strlit("snippet");
    assert("path"@.len() == 4);
    assert("line"@.len() == 4);
    assert("snippet"@.len() == 7);
    assert("path"@[0] != "line"@[0]);
    let fs = match_json(path, line, snippet)->Object_0;
    assert(fs[0].key == "path"@);
    assert(fs[1].key == "line"@);
    assert(fs[2].key == "snippet"@);
    law_the_first_member_of_a_name_counts(fs, 0);
    law_the_first_member_of_a_name_counts(fs, 1);
    law_the_first_member_of_a_name_counts(fs, 2);
}

proof fn lemma_search_json(what: Seq<char>, asked: Seq<char>, f: Found)
    requires
        what == "query"@ || what == "pattern"@,
    ensures
        ({
            let doc = search_json(what, asked, f);
            &&& doc.get_str(what) == Some(asked)
            &&& doc.get("matches"@) == Some(Json::Array(f.matches))
            &&& doc.get("searched_files"@) == Some(Json::Int(f.searched))
            &&& doc.get_bool("truncated"@) == Some(f.full)
        }),
{
    reveal_strlit("query");
    reveal_strlit("pattern");
    reveal_strlit("matches");
    reveal_strlit("searched_files");
    reveal_strlit("truncated");
    assert("query"@.len() == 5);
    assert("pattern"@.len() == 7);
    assert("matches"@.len() == 7);
    assert("searched_files"@.len() == 14);
    assert("truncated"@.len() == 9);
    assert("pattern"@[0] != "matches"@[0]);
    let fs = search_json(what, asked, f)->Object_0;
    assert(fs[0].key == what);
    assert(fs[1].key == "matches"@);
    assert(fs[2].key == "searched_files"@);
    assert(fs[3].key == "truncated"@);
    law_the_first_member_of_a_name_counts(fs, 0);
    law_the_first_member_of_a_name_counts(fs, 1);
    law_the_first_member_of_a_name_counts(fs, 2);
    law_the_first_member_of_a_name_counts(fs, 3);
}

/// A search reports the lines that are looked for and no others. Every line of
/// every text file that is searched is reported if it is one of them, by the
/// path of its file, its number counted from one, and its text without the white
/// space around it; unless the report says that it was cut short. And whatever
/// is reported is such a line.
pub proof fn law_searches_report_the_lines_looked_for(
    disk: &Disk,
    places: Seq<Place>,
    args: Json,
    p: spec_fn(Seq<char>) -> bool,
    what: Seq<char>,
    asked: Seq<char>,
    files: Seq<Seq<char>>,
    k: int,
    j: int,
    x: int,
)
    requires
        what == "query"@ || what == "pattern"@,
        search_files(disk, places, args.get_str("path"@)) == Ok::<Seq<Seq<char>>, Seq<char>>(files),
    ensures
        search_with(disk, places, args, p, what, asked) matches Ok(doc) ==> {
            &&& doc.get_str(what) == Some(asked)
            &&& doc.get("matches"@) matches Some(Json::Array(matches)) && {
                &&& 0 <= k < files.len() ==> (disk.node(files[k]) matches Some(node) ==> {
                    let ls = lines_of(lossy_text(node.content@));
                    node.kind == Kind::File && textual(files[k]) && node.bytes <= 512_000
                        && node.content@.len() <= 512_000 && 0 <= j < ls.len() && p(ls[j])
                        && doc.get_bool("truncated"@) != Some(true) ==> (shown(
                        places,
                        files[k],
                    ) matches Ok(rel) ==> tells(matches, rel, j + 1, trimmed(ls[j])))
                })
                &&& 0 <= x < matches.len() ==> exists|f: int, l: int|
                    0 <= f < files.len() && #[trigger] reported(
                        disk,
                        places,
                        p,
                        files[f],
                        l,
                        matches[x],
                    )
            }
        },
{
    if let Ok(doc) = search_with(disk, places, args, p, what, asked) {
        let limit = match_limit(args);
        let f = found_in(disk, places, p, files, 0, limit, Seq::empty(), 0)->Ok_0;
        law_searches_are_sound(disk, places, p, files, limit);
        lemma_search_json(what, asked, f);
        let matches = f.matches;
        assert(doc == search_json(what, asked, f));
        assert(doc.get("matches"@) == Some(Json::Array(matches)));
        if 0 <= k < files.len() && disk.node(files[k]) is Some {
            let node = disk.node(files[k])->0;
            let ls = lines_of(lossy_text(node.content@));
            if node.kind == Kind::File && textual(files[k]) && node.bytes <= 512_000
                && node.content@.len() <= 512_000 && 0 <= j < ls.len() && p(ls[j]) && !f.full
                && shown(places, files[k]) is Ok {
                let rel = shown(places, files[k])->Ok_0;
                let m = match_json(rel, j + 1, trimmed(ls[j]));
                assert(is_line(disk, places, p, files[k], j, m));
                let i = matches.index_of(m);
                law_matches_tell_where_they_stand(rel, j + 1, trimmed(ls[j]));
                assert(matches[i] == m);
                assert(matches[i].get_str("path"@) == Some(rel));
                assert(matches[i].get("line"@) == Some(Json::Int(j + 1)));
                assert(matches[i].get_str("snippet"@) == Some(trimmed(ls[j])));
                assert(tells(matches, rel, j + 1, trimmed(ls[j])));
            }
        }
        if 0 <= x < matches.len() {
            let m = matches[x];
            assert(genuine(disk, places, p, files, m));
            let (a, l) = choose|a: int, l: int|
                0 <= a < files.len() && #[trigger] is_line(disk, places, p, files[a], l, m);
            let ls = lines_of(head_text(disk.node(files[a])->0.content@, 512_000));
            law_matches_tell_where_they_stand(
                shown(places, files[a])->Ok_0,
                l + 1,
                trimmed(ls[l]),
            );
            assert(reported(disk, places, p, files[a], l, m));
        }
    }
}

/// Some match tells this path, this number and this text.
pub open spec fn tells(
    matches: Seq<Json>,
    path: Seq<char>,
    line: int,
    snippet: Seq<char>,
) -> bool {
    exists|i: int|
        0 <= i < matches.len() && {
            &&& (#[trigger] matches[i]).get_str("path"@) == Some(path)
            &&& matches[i].get("line"@) == Some(Json::Int(line))
            &&& matches[i].get_str("snippet"@) == Some(snippet)
        }
}

/// A match is reported of the line at index `l` of a text file: it is looked for,
/// and the match tells the path, the number and the text of it.
pub open spec fn reported(
    disk: &Disk,
    places: Seq<Place>,
    p: spec_fn(Seq<char>) -> bool,
    file: Seq<char>,
    l: int,
    m: Json,
) -> bool {
    disk.node(file) matches Some(node) && node.kind == Kind::File && textual(file) && {
        let ls = lines_of(
            lossy_text(
                if node.content@.len() > 512_000 {
                    node.content@.take(512_000)
                } else {
                    node.content@
                },
            ),
        );
        &&& 0 <= l < ls.len()
        &&& p(ls[l])
        &&& m.get_str("path"@) matches Some(rel) && shown(places, file) == Ok::<
            Seq<char>,
            Seq<char>,
        >(rel)
        &&& m.get("line"@) == Some(Json::Int(l + 1))
        &&& m.get_str("snippet"@) == Some(trimmed(ls[l]))
    }
}

/// A text is looked for without regard to case and to the white space around it:
/// a line is looked for exactly where it holds the text once both are in lower
/// case. A pattern is looked for by the regular expression that it compiles to,
/// with regard to case unless told otherwise. Nothing is looked for where there
/// is no text, or no pattern.
pub proof fn law_searches_look_for_what_is_asked(
    disk: &Disk,
    places: Seq<Place>,
    args: Json,
    line: Seq<char>,
)
    ensures
        args.get_str("query"@) is None ==> search_result_of(disk, places, args) is Err,
        args.get_str("pattern"@) is None ==> grep_result_of(disk, places, args) is Err
            && glob_result_of(disk, places, args) is Err,
        args.get_str("query"@) matches Some(q) ==> {
            let p = |l: Seq<char>|
                exists|i: int| occurs_at(lowered(l), lowered(trimmed(q)), i);
            &&& trimmed(q).len() == 0 ==> search_result_of(disk, places, args) is Err
            &&& trimmed(q).len() > 0 ==> search_result_of(disk, places, args) == search_with(
                disk,
                places,
                args,
                p,
                "query"@,
                trimmed(q),
            )
        },
        args.get_str("pattern"@) matches Some(pat) ==> {
            let ignore = args.get_bool("case_sensitive"@) == Some(false);
            regex_compiled(pat, ignore) matches Ok(re) ==> grep_result_of(disk, places, args)
                == search_with(
                disk,
                places,
                args,
                |l: Seq<char>| regex_matches(re, l),
                "pattern"@,
                pat,
            )
        },
{
    if let Some(q) = args.get_str("query"@) {
        let p = |l: Seq<char>| exists|i: int| occurs_at(lowered(l), lowered(trimmed(q)), i);
        assert(holding(lowered(trimmed(q))) =~= p);
    }
    if let Some(pat) = args.get_str("pattern"@) {
        let ignore = args.get_bool("case_sensitive"@) == Some(false);
        if let Ok(re) = regex_compiled(pat, ignore) {
            assert(matching(re) =~= |l: Seq<char>| regex_matches(re, l));
        }
    }
}

proof fn lemma_glob_files_complete(
    places: Seq<Place>,
    set: globset::GlobSet,
    files: Seq<Seq<char>>,
    i: int,
    limit: int,
    acc: Seq<Seq<char>>,
)
    requires
        0 <= i <= files.len(),
    ensures
        glob_files(places, set, files, i, limit, acc) matches Ok(h) ==> {
            &&& acc.is_prefix_of(h.paths)
            &&& !h.full ==> forall|k: int|
                i <= k < files.len() ==> (shown(places, #[trigger] files[k]) matches Ok(rel) ==> (
                glob_matches(set, rel) ==> h.paths.contains(rel)))
        },
    decreases files.len() - i,
{
    if i < files.len() {
        if let Ok(rel) = shown(places, files[i]) {
            if !glob_matches(set, rel) {
                lemma_glob_files_complete(places, set, files, i + 1, limit, acc);
            } else if acc.len() + 1 < limit {
                let more = acc.push(rel);
                lemma_glob_files_complete(places, set, files, i + 1, limit, more);
                if let Ok(h) = glob_files(places, set, files, i, limit, acc) {
                    assert(h.paths[acc.len() as int] == more[acc.len() as int]);
                    assert forall|x: int| 0 <= x < acc.len() implies acc[x] == h.paths[x] by {
                        assert(more[x] == h.paths[x]);
                    }
                }
            }
        }
    }
}

/// A glob that is not cut short gives the path of every file that its pattern
/// takes; and the report holds the paths as they were found.
pub proof fn law_globs_miss_nothing(
    places: Seq<Place>,
    set: globset::GlobSet,
    files: Seq<Seq<char>>,
    limit: int,
    k: int,
)
    requires
        0 <= k < files.len(),
    ensures
        glob_files(places, set, files, 0, limit, Seq::empty()) matches Ok(h) ==> {
            &&& !h.full ==> (shown(places, files[k]) matches Ok(rel) ==> (glob_matches(set, rel)
                ==> h.paths.contains(rel)))
            &&& glob_json(h).get_bool("truncated"@) == Some(h.full)
            &&& glob_json(h).get_strings("matches"@) == h.paths
        },
{
    lemma_glob_files_complete(places, set, files, 0, limit, Seq::empty());
    if let Ok(h) = glob_files(places, set, files, 0, limit, Seq::empty()) {
        reveal_strlit("matches");
        reveal_strlit("truncated");
        assert("matches"@.len() == 7);
        assert("truncated"@.len() == 9);
        let fs = glob_json(h)->Object_0;
        assert(fs[0].key == "matches"@);
        assert(fs[1].key == "truncated"@);
        law_the_first_member_of_a_name_counts(fs, 0);
        law_the_first_member_of_a_name_counts(fs, 1);
        lemma_strings_back(h.paths);
    }
}

proof fn lemma_strings_back(list: Seq<Seq<char>>)
    ensures
        crate::json::strings_in(list.map_values(|p: Seq<char>| Json::Str(p))) == list,
    decreases list.len(),
{
    let js = list.map_values(|p: Seq<char>| Json::Str(p));
    if list.len() > 0 {
        lemma_strings_back(list.drop_last());
        assert(js.drop_last() =~= list.drop_last().map_values(|p: Seq<char>| Json::Str(p)));
        assert(list.drop_last().push(list.last()) =~= list);
    } else {
        assert(crate::json::strings_in(js) =~= list);
    }
}

/// A heading of an outline tells its line, its level and its text; a document of
/// it tells its path and its headings; and an outline tells its documents.
pub proof fn law_outlines_tell_their_headings(
    line: int,
    level: int,
    text: Seq<char>,
    path: Seq<char>,
    headings: Seq<Json>,
    o: Outline,
)
    ensures
        heading_json(line, level, text).get("line"@) == Some(Json::Int(line)),
        heading_json(line, level, text).get("level"@) == Some(Json::Int(level)),
        heading_json(line, level, text).get_str("text"@) == Some(text),
        document_headings(path, headings).get_str("path"@) == Some(path),
        document_headings(path, headings).get("headings"@) == Some(Json::Array(headings)),
        outline_json(o).get("documents"@) == Some(Json::Array(o.documents)),
        outline_json(o).get("searched_files"@) == Some(Json::Int(o.searched)),
        outline_json(o).get_bool("truncated"@) == Some(o.truncated),
{
    reveal_strlit("line");
    reveal_strlit("level");
    reveal_strlit("text");
    assert("line"@.len() == 4);
    assert("level"@.len() == 5);
    assert("text"@.len() == 4);
    assert("line"@[0] != "text"@[0]);
    let hs = heading_json(line, level, text)->Object_0;
    assert(hs[0].key == "line"@);
    assert(hs[1].key == "level"@);
    assert(hs[2].key == "text"@);
    law_the_first_member_of_a_name_counts(hs, 0);
    law_the_first_member_of_a_name_counts(hs, 1);
    law_the_first_member_of_a_name_counts(hs, 2);
    reveal_strlit("path");
    reveal_strlit("headings");
    assert("path"@.len() == 4);
    assert("headings"@.len() == 8);
    let ds = document_headings(path, headings)->Object_0;
    assert(ds[0].key == "path"@);
    assert(ds[1].key == "headings"@);
    law_the_first_member_of_a_name_counts(ds, 0);
    law_the_first_member_of_a_name_counts(ds, 1);
    reveal_strlit("documents");
    reveal_strlit("searched_files");
    reveal_strlit("truncated");
    assert("documents"@.len() == 9);
    assert("searched_files"@.len() == 14);
    assert("truncated"@.len() == 9);
    assert("documents"@[0] != "truncated"@[0]);
    let os = outline_json(o)->Object_0;
    assert(os[0].key == "documents"@);
    assert(os[1].key == "searched_files"@);
    assert(os[2].key == "truncated"@);
    law_the_first_member_of_a_name_counts(os, 0);
    law_the_first_member_of_a_name_counts(os, 1);
    law_the_first_member_of_a_name_counts(os, 2);
}

/// The headings of a file that are not cut short are its lines that are headings,
/// in their order: one more line adds its heading, with the number of the line,
/// where it is one, and nothing where it is none.
pub proof fn law_every_heading_is_outlined(
    ls: Seq<Seq<char>>,
    l: Seq<char>,
    before: int,
    most: int,
)
    requires
        before + ls.len() < most,
    ensures
        ({
            let was = headings_in(ls, 0, before, most, Seq::empty());
            let now = headings_in(ls.push(l), 0, before, most, Seq::empty());
            &&& !was.hit && !now.hit
            &&& heading_of(l) is None ==> now.items == was.items
            &&& heading_of(l) matches Some((level, text)) ==> now.items == was.items.push(
                heading_json(ls.len() as int + 1, level, text),
            )
        }),
{
    lemma_headings_push(ls, l, 0, before, most, Seq::empty());
}

proof fn lemma_headings_push(
    ls: Seq<Seq<char>>,
    l: Seq<char>,
    i: int,
    before: int,
    most: int,
    acc: Seq<Json>,
)
    requires
        0 <= i <= ls.len(),
        before + acc.len() + (ls.len() - i) < most,
    ensures
        ({
            let was = headings_in(ls, i, before, most, acc);
            let now = headings_in(ls.push(l), i, before, most, acc);
            &&& !was.hit && !now.hit
            &&& heading_of(l) is None ==> now.items == was.items
            &&& heading_of(l) matches Some((level, text)) ==> now.items == was.items.push(
                heading_json(ls.len() as int + 1, level, text),
            )
        }),
    decreases ls.len() - i,
{
    let more = ls.push(l);
    if i < ls.len() {
        assert(more[i] == ls[i]);
        match heading_of(ls[i]) {
            None => {
                lemma_headings_push(ls, l, i + 1, before, most, acc);
            },
            Some((level, text)) => {
                lemma_headings_push(
                    ls,
                    l,
                    i + 1,
                    before,
                    most,
                    acc.push(heading_json(i + 1, level, text)),
                );
            },
        }
    } else {
        assert(more[i] == l);
        reveal_with_fuel(headings_in, 2);
    }
}

} // verus!
