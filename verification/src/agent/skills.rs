//! Skills: folders with a `SKILL.md` whose frontmatter names and describes
//! them, listed in the prompt and read on demand.
use vstd::prelude::*;

use super::scratch::{error_json, error_value};
use crate::bytes::{byte_len, size};
use crate::json::{
    field, law_the_first_member_of_a_name_counts, no_fields, Data, Json, Members,
};
use crate::paths::{
    absolute, components, components_of, file_name, file_name_of, is_absolute, is_under, join_path,
    parts_view, path_join, under, Component, Part,
};
use crate::schema::{
    arguments, describe_text, object_schema, one, text_argument, Schema, ToolSchema,
};
use crate::split::{
    begins_with, contains, cut, holds, join, joined, replace, replaced, split_once, strip_prefix,
};
use crate::table::{lists_domain, Table};
use crate::text::{cat, cat3, chars_of, digit, is_digit, is_lower, lower, owned, same, views};
use crate::tools::disk::{Disk, Kind};

verus! {

pub const MAX_SKILL_FILE_BYTES: u64 = 1_000_000;

/// Why skills could not be taken.
#[derive(Debug)]
pub enum SkillError {
    Io { path: String, source: String },
    Invalid { path: String, message: String },
    Duplicate(String),
}

/// What a [`SkillError`] denotes.
pub enum SkillRefusal {
    Io(Seq<char>, Seq<char>),
    Invalid(Seq<char>, Seq<char>),
    Duplicate(Seq<char>),
}

impl View for SkillError {
    type V = SkillRefusal;

    open spec fn view(&self) -> SkillRefusal {
        match self {
            SkillError::Io { path, source } => SkillRefusal::Io(path@, source@),
            SkillError::Invalid { path, message } => SkillRefusal::Invalid(path@, message@),
            SkillError::Duplicate(n) => SkillRefusal::Duplicate(n@),
        }
    }
}

impl SkillError {
    pub fn message(&self) -> (r: String)
        ensures
            r@ == (match self@ {
                SkillRefusal::Io(path, source) => "skill path "@ + path + " is not readable: "@
                    + source,
                SkillRefusal::Invalid(path, message) => "invalid skill at "@ + path + ": "@
                    + message,
                SkillRefusal::Duplicate(n) => "duplicate skill name `"@ + n + "`"@,
            }),
    {
        match self {
            SkillError::Io { path, source } => {
                let mut s = cat3("skill path ", path.as_str(), " is not readable: ");
                s.append(source.as_str());
                s
            },
            SkillError::Invalid { path, message } => {
                let mut s = cat3("invalid skill at ", path.as_str(), ": ");
                s.append(message.as_str());
                s
            },
            SkillError::Duplicate(n) => cat3("duplicate skill name `", n.as_str(), "`"),
        }
    }
}

fn invalid(path: &str, message: &str) -> (r: SkillError)
    ensures
        r@ == SkillRefusal::Invalid(path@, message@),
{
    SkillError::Invalid { path: owned(path), message: owned(message) }
}

/// A skill: its name, what it is for, and its folder.
#[derive(Debug)]
pub struct Skill {
    pub name: String,
    pub description: String,
    pub root: String,
}

/// What a [`Skill`] denotes.
pub struct SkillInfo {
    pub name: Seq<char>,
    pub description: Seq<char>,
    pub root: Seq<char>,
}

impl View for Skill {
    type V = SkillInfo;

    open spec fn view(&self) -> SkillInfo {
        SkillInfo { name: self.name@, description: self.description@, root: self.root@ }
    }
}

/// What the frontmatter of a `SKILL.md` says.
#[derive(Debug)]
pub struct Frontmatter {
    pub name: String,
    pub description: String,
}

/// The frontmatter's text: what stands between the opening line of dashes and
/// the next one.
pub open spec fn frontmatter_of(path: Seq<char>, content: Seq<char>) -> Result<
    Seq<char>,
    SkillRefusal,
> {
    let text = replaced(content, "\r\n"@, "\n"@);
    if !begins_with(text, "---\n"@) {
        Err(SkillRefusal::Invalid(path, "SKILL.md must start with YAML frontmatter"@))
    } else {
        match cut(text.skip("---\n"@.len() as int), "\n---\n"@) {
            None => Err(SkillRefusal::Invalid(path, "SKILL.md frontmatter is not closed"@)),
            Some((yaml, _)) => Ok(yaml),
        }
    }
}

/// The frontmatter of the `SKILL.md` at `path`.
pub fn frontmatter(path: &str, content: &str) -> (r: Result<String, SkillError>)
    ensures
        match r {
            Ok(y) => frontmatter_of(path@, content@) == Ok::<Seq<char>, SkillRefusal>(y@),
            Err(e) => frontmatter_of(path@, content@) == Err::<Seq<char>, SkillRefusal>(e@),
        },
{
    let text = replace(content, "\r\n", "\n");
    match strip_prefix(text.as_str(), "---\n") {
        None => Err(invalid(path, "SKILL.md must start with YAML frontmatter")),
        Some(rest) => match split_once(rest.as_str(), "\n---\n") {
            None => Err(invalid(path, "SKILL.md frontmatter is not closed")),
            Some((yaml, _body)) => Ok(yaml),
        },
    }
}

/// The name is made of at most 64 lower-case letters, digits and single
/// hyphens, with none at either end.
pub open spec fn skill_name(s: Seq<char>) -> bool {
    &&& 0 < s.len() <= 64
    &&& forall|i: int|
        0 <= i < s.len() ==> {
            let c = #[trigger] s[i];
            is_lower(c) || is_digit(c) || c == '-'
        }
    &&& s[0] != '-'
    &&& s.last() != '-'
    &&& !holds(s, "--"@)
}

fn is_skill_name(s: &str) -> (r: bool)
    ensures
        r == skill_name(s@),
{
    let v = chars_of(s);
    if v.len() == 0 || v.len() > 64 {
        return false;
    }
    let mut i: usize = 0;
    while i < v.len()
        invariant
            v@ == s@,
            i <= v@.len(),
            forall|k: int|
                0 <= k < i ==> (is_lower(#[trigger] v@[k]) || is_digit(v@[k]) || v@[k] == '-'),
        decreases v.len() - i,
    {
        let c = v[i];
        if !(lower(c) || digit(c) || c == '-') {
            assert(!skill_name(s@)) by {
                assert(s@[i as int] == c);
            }
            return false;
        }
        i = i + 1;
    }
    v[0] != '-' && v[v.len() - 1] != '-' && !contains(s, "--")
}

/// The folder that a file stands in.
pub open spec fn folder_of(path: Seq<char>) -> Seq<char> {
    let parts = components_of(path);
    if parts.len() >= 2 {
        match parts[parts.len() - 2] {
            Part::Normal(s) => s,
            _ => Seq::empty(),
        }
    } else {
        Seq::empty()
    }
}

/// The name of the folder that a file stands in.
pub fn folder_name(path: &str) -> (r: String)
    ensures
        r@ == folder_of(path@),
{
    let parts = components(path);
    if parts.len() >= 2 {
        assert(parts_view(parts@)[parts@.len() - 2] == parts@[parts@.len() - 2]@);
        if let Component::Normal(s) = &parts[parts.len() - 2] {
            return s.clone();
        }
    }
    String::new()
}

/// Why the frontmatter of the `SKILL.md` at `path` cannot be taken.
pub open spec fn frontmatter_refusal(path: Seq<char>, name: Seq<char>, description: Seq<char>) -> Option<
    Seq<char>,
> {
    if name != folder_of(path) {
        Some("frontmatter name must match the skill folder name"@)
    } else if !skill_name(name) {
        Some("name must be 1-64 lowercase letters, digits, or single hyphens"@)
    } else if description.len() == 0 || size(description) > 1024 {
        Some("description must contain 1-1024 bytes"@)
    } else {
        None
    }
}

/// The skill that the `SKILL.md` at `path`, in the folder `root`, describes.
pub fn skill_of(path: &str, root: &str, front: Frontmatter) -> (r: Result<Skill, SkillError>)
    ensures
        match r {
            Ok(s) => {
                &&& frontmatter_refusal(path@, front.name@, front.description@) is None
                &&& s@ == (SkillInfo {
                    name: front.name@,
                    description: front.description@,
                    root: root@,
                })
            },
            Err(e) => {
                let why = frontmatter_refusal(path@, front.name@, front.description@);
                why is Some && e@ == SkillRefusal::Invalid(path@, why->0)
            },
        },
{
    let folder = folder_name(path);
    if !same(front.name.as_str(), folder.as_str()) {
        return Err(invalid(path, "frontmatter name must match the skill folder name"));
    }
    if !is_skill_name(front.name.as_str()) {
        return Err(
            invalid(path, "name must be 1-64 lowercase letters, digits, or single hyphens"),
        );
    }
    if front.description.as_str().is_empty() || byte_len(front.description.as_str()) > 1024 {
        return Err(invalid(path, "description must contain 1-1024 bytes"));
    }
    Ok(Skill { name: front.name, description: front.description, root: owned(root) })
}

/// The skills of an agent, by name in ascending order.
#[derive(Debug)]
pub struct SkillSet {
    skills: Table<Skill>,
}

impl View for SkillSet {
    type V = Map<Seq<char>, SkillInfo>;

    closed spec fn view(&self) -> Map<Seq<char>, SkillInfo> {
        self.skills@.map_values(|s: Skill| s@)
    }
}

/// One line of the prompt's catalog.
pub open spec fn skill_line(s: SkillInfo) -> Seq<char> {
    "- `"@ + s.name + "`: "@ + s.description
}

pub open spec fn skill_lines(keys: Seq<Seq<char>>, m: Map<Seq<char>, SkillInfo>) -> Seq<Seq<char>> {
    keys.map_values(|k: Seq<char>| skill_line(m[k]))
}

/// The prompt with the catalog of skills after it.
pub open spec fn prompt_with(base: Seq<char>, lines: Seq<Seq<char>>) -> Seq<char> {
    if lines.len() == 0 {
        base
    } else {
        base
            + "\n\n## Skills\n\nThe following skills are available. When a skill matches the user's task, call `skill_read` before acting and follow the returned instructions. Read referenced files with the same tool only when needed.\n\n"@
            + joined(lines, "\n"@)
    }
}

impl SkillSet {
    pub fn new() -> (r: SkillSet)
        ensures
            r@ == Map::<Seq<char>, SkillInfo>::empty(),
    {
        let r = SkillSet { skills: Table::new() };
        assert(r@ =~= Map::<Seq<char>, SkillInfo>::empty());
        r
    }

    /// Adds a skill, unless there is one of that name already.
    pub fn insert(&mut self, skill: Skill) -> (r: Result<(), SkillError>)
        ensures
            match r {
                Ok(_) => !old(self)@.dom().contains(skill.name@) && final(self)@
                    == old(self)@.insert(skill.name@, skill@),
                Err(e) => old(self)@.dom().contains(skill.name@) && e@ == SkillRefusal::Duplicate(
                    skill.name@,
                ) && final(self)@ == old(self)@,
            },
    {
        let name = skill.name.clone();
        if self.skills.get(name.as_str()).is_some() {
            return Err(SkillError::Duplicate(name));
        }
        let ghost info = skill@;
        let ghost was = self@;
        self.skills.insert(name.as_str(), skill);
        assert(self@ =~= was.insert(name@, info));
        Ok(())
    }

    pub fn len(&self) -> (r: usize)
        ensures
            r == 0 <==> self@.dom() == Set::<Seq<char>>::empty(),
    {
        let n: usize = self.skills.len();
        proof {
            let keys = self.skills.key_seq();
            if n == 0 {
                assert forall|k: Seq<char>| !self@.dom().contains(k) by {
                    if self@.dom().contains(k) {
                        assert(self.skills@.dom().contains(k));
                        assert(keys.contains(k));
                    }
                }
                assert(self@.dom() =~= Set::<Seq<char>>::empty());
            } else {
                assert(keys.contains(keys[0]));
                assert(self@.dom().contains(keys[0]));
            }
        }
        n
    }

    pub fn find(&self, name: &str) -> (r: Option<&Skill>)
        ensures
            match r {
                Some(s) => self@.dom().contains(name@) && self@[name@] == s@,
                None => !self@.dom().contains(name@),
            },
    {
        self.skills.get(name)
    }
}

/// The prompt with the catalog of skills, in ascending order of their names,
/// after it; the prompt itself where there are none.
pub fn skills_prompt(base: &str, skills: &SkillSet) -> (r: String)
    ensures
        exists|keys: Seq<Seq<char>>|
            lists_domain(keys, skills@) && r@ == prompt_with(
                base@,
                #[trigger] skill_lines(keys, skills@),
            ),
{
    let n: usize = skills.skills.len();
    let ghost keys = skills.skills.key_seq();
    proof {
        assert forall|k: Seq<char>| skills@.dom().contains(k) <==> keys.contains(k) by {
            assert(skills@.dom().contains(k) <==> skills.skills@.dom().contains(k));
        }
    }
    let ghost goal = skill_lines(keys, skills@);
    let mut lines: Vec<String> = Vec::new();
    let mut i: usize = 0;
    assert(views(lines@) =~= goal.take(0));
    while i < n
        invariant
            i <= n == keys.len(),
            keys == skills.skills.key_seq(),
            goal == skill_lines(keys, skills@),
            views(lines@) == goal.take(i as int),
        decreases n - i,
    {
        let ghost was = lines@;
        let s = skills.skills.value_at(i);
        let mut line = cat3("- `", s.name.as_str(), "`: ");
        line.append(s.description.as_str());
        lines.push(line);
        assert(views(lines@) =~= views(was).push(line@));
        i = i + 1;
        assert(goal.take(i as int) =~= goal.take(i - 1).push(goal[i - 1]));
    }
    assert(goal.take(i as int) =~= goal);
    if n == 0 {
        return owned(base);
    }
    let mut out = cat(
        base,
        "\n\n## Skills\n\nThe following skills are available. When a skill matches the user's task, call `skill_read` before acting and follow the returned instructions. Read referenced files with the same tool only when needed.\n\n",
    );
    out.append(join(&lines, "\n").as_str());
    out
}

// ----- discovery -----
/// The entries, among the first `n`, of a skills folder that are skill folders:
/// folders themselves, and not links to some, in which `SKILL.md` leads to a
/// file. `top` is the canonical path of the skills folder.
pub open spec fn skill_files_in(
    disk: &Disk,
    dir: Seq<char>,
    top: Seq<char>,
    entries: Seq<Seq<char>>,
    n: int,
) -> Seq<Seq<char>>
    decreases n,
{
    if n <= 0 {
        Seq::empty()
    } else {
        let name = entries[n - 1];
        let file = path_join(path_join(dir, name), "SKILL.md"@);
        let init = skill_files_in(disk, dir, top, entries, n - 1);
        if disk.is_dir(path_join(top, name)) && disk.leads_to_file(file) {
            init.push(file)
        } else {
            init
        }
    }
}

/// The `SKILL.md` files that a path leads to: the file itself, the one in the
/// folder, or those of the folder's own folders in order of name. A `SKILL.md`
/// may be a link to a file.
pub open spec fn skill_files(disk: &Disk, path: Seq<char>) -> Result<Seq<Seq<char>>, SkillRefusal> {
    if disk.leads_to_file(path) {
        if file_name_of(path) == Some("SKILL.md"@) {
            Ok(Seq::empty().push(path))
        } else {
            Err(
                SkillRefusal::Invalid(
                    path,
                    "path must be a skill folder, skills folder, or SKILL.md"@,
                ),
            )
        }
    } else {
        let direct = path_join(path, "SKILL.md"@);
        if disk.leads_to_file(direct) {
            Ok(Seq::empty().push(direct))
        } else {
            match disk.canonical(path) {
                None => Err(SkillRefusal::Io(path, disk.reason(path))),
                Some(top) => match disk.listing(top) {
                    Err(e) => Err(SkillRefusal::Io(path, e)),
                    Ok(n) => {
                        let names = super::scratch::sorted_names(n);
                        Ok(skill_files_in(disk, path, top, names, names.len() as int))
                    },
                },
            }
        }
    }
}

/// The `SKILL.md` files that a path leads to.
pub fn find_skill_files(disk: &Disk, path: &str) -> (r: Result<Vec<String>, SkillError>)
    ensures
        match r {
            Ok(v) => skill_files(disk, path@) == Ok::<Seq<Seq<char>>, SkillRefusal>(views(v@)),
            Err(e) => skill_files(disk, path@) == Err::<Seq<Seq<char>>, SkillRefusal>(e@),
        },
{
    let mut out: Vec<String> = Vec::new();
    if disk.file_at(path) {
        let is_skill = match file_name(path) {
            Some(n) => same(n.as_str(), "SKILL.md"),
            None => false,
        };
        if is_skill {
            let p = owned(path);
            out.push(p);
            assert(views(out@) =~= Seq::empty().push(path@));
            return Ok(out);
        }
        return Err(invalid(path, "path must be a skill folder, skills folder, or SKILL.md"));
    }
    let direct = join_path(path, "SKILL.md");
    if disk.file_at(direct.as_str()) {
        let ghost d = direct@;
        out.push(direct);
        assert(views(out@) =~= Seq::empty().push(d));
        return Ok(out);
    }
    let top = match disk.canonicalize(path) {
        Some(c) => c,
        None => {
            return Err(SkillError::Io { path: owned(path), source: disk.why(path) });
        },
    };
    let node = match disk.list(top.as_str()) {
        Ok(n) => n,
        Err(e) => {
            return Err(SkillError::Io { path: owned(path), source: e });
        },
    };
    let names = super::scratch::names_in_order(node);
    let ghost nv = views(names@);
    let mut i: usize = 0;
    assert(views(out@) =~= Seq::<Seq<char>>::empty());
    while i < names.len()
        invariant
            i <= names@.len(),
            nv == views(names@),
            views(out@) == skill_files_in(disk, path@, top@, nv, i as int),
        decreases names.len() - i,
    {
        let folder = join_path(path, names[i].as_str());
        let file = join_path(folder.as_str(), "SKILL.md");
        let own = join_path(top.as_str(), names[i].as_str());
        assert(nv[i as int] == names@[i as int]@);
        if disk.dir(own.as_str()) && disk.file_at(file.as_str()) {
            let ghost was = out@;
            let ghost f = file@;
            out.push(file);
            assert(views(out@) =~= views(was).push(f));
        }
        i = i + 1;
    }
    Ok(out)
}

/// The frontmatter of one `SKILL.md` as the host parsed it, or why it could not.
#[derive(Debug)]
pub struct ParsedFrontmatter {
    pub path: String,
    pub front: Result<Frontmatter, String>,
}

/// The parse of the file at `path`, of those from index `i` on.
pub open spec fn parse_from(parses: Seq<ParsedFrontmatter>, path: Seq<char>, i: int) -> Option<
    Result<Frontmatter, String>,
>
    decreases parses.len() - i,
{
    if i < 0 || i >= parses.len() {
        None
    } else if parses[i].path@ == path {
        Some(parses[i].front)
    } else {
        parse_from(parses, path, i + 1)
    }
}

/// The folder that holds a file, as a path.
pub open spec fn holder_of(path: Seq<char>) -> Seq<char> {
    let n = "/SKILL.md"@.len() as int;
    if crate::split::finishes_with(path, "/SKILL.md"@) {
        path.take(path.len() - n)
    } else {
        path
    }
}

fn holder(path: &str) -> (r: String)
    ensures
        r@ == holder_of(path@),
{
    if crate::split::ends_with(path, "/SKILL.md") {
        let v = chars_of(path);
        let n: usize = chars_of("/SKILL.md").len();
        assert(v@.subrange(0, v@.len() - n) =~= path@.take(path@.len() - n));
        crate::text::text_range(&v, 0, v.len() - n)
    } else {
        owned(path)
    }
}

/// The skill that the `SKILL.md` at `path` describes.
pub open spec fn skill_at(disk: &Disk, parses: Seq<ParsedFrontmatter>, path: Seq<char>) -> Result<
    SkillInfo,
    SkillRefusal,
> {
    match disk.text(path) {
        Err(e) => Err(SkillRefusal::Io(path, e)),
        Ok(content) => match frontmatter_of(path, content) {
            Err(e) => Err(e),
            Ok(_) => match parse_from(parses, path, 0) {
                None => Err(SkillRefusal::Invalid(path, "invalid YAML frontmatter: "@)),
                Some(Err(e)) => Err(
                    SkillRefusal::Invalid(path, "invalid YAML frontmatter: "@ + e@),
                ),
                Some(Ok(f)) => match frontmatter_refusal(path, f.name@, f.description@) {
                    Some(why) => Err(SkillRefusal::Invalid(path, why)),
                    None => Ok(
                        SkillInfo {
                            name: f.name@,
                            description: f.description@,
                            root: holder_of(path),
                        },
                    ),
                },
            },
        },
    }
}

/// Reads the skill that the `SKILL.md` at `path` describes.
pub fn parse_skill(disk: &Disk, parses: &Vec<ParsedFrontmatter>, path: &str) -> (r: Result<
    Skill,
    SkillError,
>)
    ensures
        match r {
            Ok(s) => skill_at(disk, parses@, path@) == Ok::<SkillInfo, SkillRefusal>(s@),
            Err(e) => skill_at(disk, parses@, path@) == Err::<SkillInfo, SkillRefusal>(e@),
        },
{
    let content = match disk.read_text(path) {
        Ok(t) => t,
        Err(e) => {
            return Err(SkillError::Io { path: owned(path), source: e });
        },
    };
    match frontmatter(path, content.as_str()) {
        Err(e) => {
            return Err(e);
        },
        Ok(_) => {},
    }
    let mut i: usize = 0;
    while i < parses.len() && !same(parses[i].path.as_str(), path)
        invariant
            i <= parses@.len(),
            parse_from(parses@, path@, 0) == parse_from(parses@, path@, i as int),
        decreases parses.len() - i,
    {
        i = i + 1;
    }
    if i == parses.len() {
        return Err(invalid(path, "invalid YAML frontmatter: "));
    }
    match &parses[i].front {
        Err(e) => Err(invalid(path, cat("invalid YAML frontmatter: ", e.as_str()).as_str())),
        Ok(f) => skill_of(
            path,
            holder(path).as_str(),
            Frontmatter { name: f.name.clone(), description: f.description.clone() },
        ),
    }
}

/// The skills with those of the files from index `i` on.
pub open spec fn with_files(
    disk: &Disk,
    parses: Seq<ParsedFrontmatter>,
    files: Seq<Seq<char>>,
    i: int,
    skills: Map<Seq<char>, SkillInfo>,
) -> Result<Map<Seq<char>, SkillInfo>, SkillRefusal>
    decreases files.len() - i,
{
    if i < 0 || i >= files.len() {
        Ok(skills)
    } else {
        match skill_at(disk, parses, files[i]) {
            Err(e) => Err(e),
            Ok(s) => if skills.dom().contains(s.name) {
                Err(SkillRefusal::Duplicate(s.name))
            } else {
                with_files(disk, parses, files, i + 1, skills.insert(s.name, s))
            },
        }
    }
}

/// The skills with those that the configured paths from index `i` on lead to.
pub open spec fn with_paths(
    disk: &Disk,
    parses: Seq<ParsedFrontmatter>,
    paths: Seq<Seq<char>>,
    i: int,
    skills: Map<Seq<char>, SkillInfo>,
) -> Result<Map<Seq<char>, SkillInfo>, SkillRefusal>
    decreases paths.len() - i,
{
    if i < 0 || i >= paths.len() {
        Ok(skills)
    } else {
        match disk.canonical(paths[i]) {
            None => Err(SkillRefusal::Io(paths[i], disk.reason(paths[i]))),
            Some(c) => match skill_files(disk, c) {
                Err(e) => Err(e),
                Ok(files) => if files.len() == 0 {
                    Err(SkillRefusal::Invalid(c, "no SKILL.md found"@))
                } else {
                    match with_files(disk, parses, files, 0, skills) {
                        Err(e) => Err(e),
                        Ok(more) => with_paths(disk, parses, paths, i + 1, more),
                    }
                },
            },
        }
    }
}

/// The skills that the configured paths lead to, each name once.
pub fn discover_skills(disk: &Disk, parses: &Vec<ParsedFrontmatter>, paths: &Vec<String>) -> (r:
    Result<SkillSet, SkillError>)
    ensures
        match r {
            Ok(set) => with_paths(disk, parses@, views(paths@), 0, Map::empty()) == Ok::<
                Map<Seq<char>, SkillInfo>,
                SkillRefusal,
            >(set@),
            Err(e) => with_paths(disk, parses@, views(paths@), 0, Map::empty()) == Err::<
                Map<Seq<char>, SkillInfo>,
                SkillRefusal,
            >(e@),
        },
{
    let ghost pv = views(paths@);
    let ghost goal = with_paths(disk, parses@, pv, 0, Map::empty());
    let mut set = SkillSet::new();
    let mut i: usize = 0;
    while i < paths.len()
        invariant
            i <= paths@.len(),
            pv == views(paths@),
            goal == with_paths(disk, parses@, pv, 0, Map::empty()),
            goal == with_paths(disk, parses@, pv, i as int, set@),
        decreases paths.len() - i,
    {
        assert(pv[i as int] == paths@[i as int]@);
        let path = match disk.canonicalize(paths[i].as_str()) {
            Some(c) => c,
            None => {
                let source = disk.why(paths[i].as_str());
                return Err(SkillError::Io { path: paths[i].clone(), source });
            },
        };
        let files = match find_skill_files(disk, path.as_str()) {
            Ok(f) => f,
            Err(e) => {
                return Err(e);
            },
        };
        if files.len() == 0 {
            return Err(invalid(path.as_str(), "no SKILL.md found"));
        }
        let ghost fv = views(files@);
        let ghost inner = with_files(disk, parses@, fv, 0, set@);
        let mut k: usize = 0;
        while k < files.len()
            invariant
                k <= files@.len(),
                fv == views(files@),
                inner == with_files(disk, parses@, fv, k as int, set@),
                inner matches Err(e) ==> goal == Err::<Map<Seq<char>, SkillInfo>, SkillRefusal>(
                    e,
                ),
                goal == with_paths(disk, parses@, pv, 0, Map::empty()),
                pv == views(paths@),
            decreases files.len() - k,
        {
            assert(fv[k as int] == files@[k as int]@);
            let skill = match parse_skill(disk, parses, files[k].as_str()) {
                Ok(s) => s,
                Err(e) => {
                    return Err(e);
                },
            };
            match set.insert(skill) {
                Ok(_) => {},
                Err(e) => {
                    return Err(e);
                },
            }
            k = k + 1;
        }
        i = i + 1;
    }
    Ok(set)
}

/// Each discovered skill is kept under its own name, which is that of its
/// folder and well formed.
pub proof fn law_discovered_skills_are_well_formed(
    disk: &Disk,
    parses: Seq<ParsedFrontmatter>,
    path: Seq<char>,
)
    ensures
        skill_at(disk, parses, path) matches Ok(s) ==> {
            &&& s.name == folder_of(path)
            &&& skill_name(s.name)
            &&& 0 < s.description.len()
            &&& size(s.description) <= 1024
        },
{
}

// ----- reading -----
/// Every component of a path is a name.
pub open spec fn all_names(path: Seq<char>) -> bool {
    forall|i: int| 0 <= i < components_of(path).len() ==> #[trigger] components_of(path)[i] is Normal
}

fn only_names(path: &str) -> (r: bool)
    ensures
        r == all_names(path@),
{
    let p = components(path);
    let ghost pv = parts_view(p@);
    let mut i: usize = 0;
    while i < p.len()
        invariant
            i <= p@.len(),
            pv == parts_view(p@),
            pv == components_of(path@),
            forall|k: int| 0 <= k < i ==> #[trigger] pv[k] is Normal,
        decreases p.len() - i,
    {
        match &p[i] {
            Component::Normal(_) => {},
            _ => {
                assert(!(pv[i as int] is Normal));
                return false;
            },
        }
        i = i + 1;
    }
    true
}

/// The file that `skill_read` asks for.
pub open spec fn asked_file(args: Json) -> Seq<char> {
    match args.get_str("path"@) {
        Some(p) => p,
        None => "SKILL.md"@,
    }
}

/// What `skill_read` returns.
pub open spec fn skill_read_of(disk: &Disk, skills: Map<Seq<char>, SkillInfo>, args: Json) -> Result<
    Json,
    Json,
> {
    let rel = asked_file(args);
    match args.get_str("name"@) {
        None => Err(error_json("skill_read requires string `name`"@)),
        Some(name) => if !skills.dom().contains(name) {
            Err(error_json("unknown skill: "@ + name))
        } else if absolute(rel) || !all_names(rel) {
            Err(error_json("skill path must be a relative file path without traversal"@))
        } else {
            let root = skills[name].root;
            match disk.canonical(path_join(root, rel)) {
                None => Err(
                    error_json(
                        "reading skill file "@ + rel + ": "@ + disk.reason(path_join(root, rel)),
                    ),
                ),
                Some(c) => if !under(c, root) || !disk.is_file(c) {
                    Err(error_json("skill path escapes its folder or is not a file"@))
                } else if disk.node(c)->0.bytes > MAX_SKILL_FILE_BYTES {
                    Err(error_json("skill file exceeds 1 MB"@))
                } else {
                    match disk.held(c) {
                        Err(e) => Err(error_json("skill file is not UTF-8: "@ + e)),
                        Ok(content) => Ok(
                            Json::Object(
                                no_fields().push(field("name"@, Json::Str(name))).push(
                                    field("path"@, Json::Str(rel)),
                                ).push(field("content"@, Json::Str(content))),
                            ),
                        ),
                    }
                },
            }
        },
    }
}

/// Reads a skill's instructions, or a text file in its folder.
pub fn skill_read(skills: &SkillSet, disk: &Disk, args: &Data) -> (r: Result<Data, Data>)
    ensures
        crate::tools::fs_read::tool_view(r) == skill_read_of(disk, skills@, args@),
{
    let name = match args.get_str("name") {
        Some(n) => n,
        None => {
            return Err(error_value("skill_read requires string `name`"));
        },
    };
    let skill = match skills.find(name) {
        Some(s) => s,
        None => {
            return Err(error_value(cat("unknown skill: ", name).as_str()));
        },
    };
    let rel = match args.get_str("path") {
        Some(p) => p,
        None => "SKILL.md",
    };
    if is_absolute(rel) || !only_names(rel) {
        return Err(error_value("skill path must be a relative file path without traversal"));
    }
    let root = skill.root.as_str();
    let path = join_path(root, rel);
    let canonical = match disk.canonicalize(path.as_str()) {
        Some(c) => c,
        None => {
            let mut said = cat3("reading skill file ", rel, ": ");
            said.append(disk.why(path.as_str()).as_str());
            return Err(error_value(said.as_str()));
        },
    };
    let escape = "skill path escapes its folder or is not a file";
    if !is_under(canonical.as_str(), root) {
        return Err(error_value(escape));
    }
    let node = match disk.find(canonical.as_str()) {
        Some(n) => n,
        None => {
            return Err(error_value(escape));
        },
    };
    if !matches!(node.kind, Kind::File) {
        return Err(error_value(escape));
    }
    if node.bytes > MAX_SKILL_FILE_BYTES {
        return Err(error_value("skill file exceeds 1 MB"));
    }
    match disk.read_held(canonical.as_str()) {
        Err(e) => Err(error_value(cat("skill file is not UTF-8: ", e.as_str()).as_str())),
        Ok(text) => Ok(
            Members::new().with("name", Data::string(name)).with("path", Data::string(rel)).with(
                "content",
                Data::string(text.as_str()),
            ).object(),
        ),
    }
}

pub open spec fn skill_read_spec() -> Schema {
    Schema {
        name: "skill_read"@,
        description: "Load a skill's instructions or a referenced text file on demand."@,
        parameters: arguments(
            no_fields().push(
                field("name"@, text_argument("Skill name from the system prompt catalog."@)),
            ).push(
                field(
                    "path"@,
                    text_argument(
                        "Relative file inside the skill folder. Defaults to SKILL.md."@,
                    ),
                ),
            ),
            seq!["name"@],
        ),
    }
}

pub fn skill_read_schema() -> (r: ToolSchema)
    ensures
        r@ == skill_read_spec(),
{
    ToolSchema::new(
        "skill_read",
        "Load a skill's instructions or a referenced text file on demand.",
        object_schema(
            Members::new().with(
                "name",
                describe_text("Skill name from the system prompt catalog."),
            ).with(
                "path",
                describe_text("Relative file inside the skill folder. Defaults to SKILL.md."),
            ),
            &one("name"),
        ),
    )
}

/// The frontmatter of a skill is what stands between the line of dashes that opens
/// the file and the first such line after it.
pub proof fn law_frontmatter_stands_between_dashes(path: Seq<char>, content: Seq<char>)
    ensures
        frontmatter_of(path, content) matches Ok(yaml) ==> {
            let text = replaced(content, "\r\n"@, "\n"@);
            let lead = "---\n"@ + yaml + "\n---\n"@;
            &&& lead.is_prefix_of(text)
            &&& !holds(yaml, "\n---\n"@)
        },
{
    let text = replaced(content, "\r\n"@, "\n"@);
    let open = "---\n"@;
    let close = "\n---\n"@;
    if let Ok(yaml) = frontmatter_of(path, content) {
        let rest = text.skip(open.len() as int);
        crate::split::law_cutting_loses_only_the_pattern(rest, close);
        let (_, tail) = cut(rest, close)->0;
        assert(text.subrange(0, open.len() as int) == open);
        assert(text =~= text.subrange(0, open.len() as int) + rest);
        assert(text =~= open + yaml + close + tail);
        crate::split::lemma_find(yaml, close);
        if let Some(i) = crate::split::find(yaml, close) {
            reveal_strlit("\n---\n");
            assert(crate::split::occurs_at(yaml, close, i));
            assert(rest.subrange(i, i + close.len()) =~= yaml.subrange(i, i + close.len()));
            assert(crate::split::occurs_at(rest, close, i));
        }
    }
}

/// A skill's folder is the one its `SKILL.md` stands in.
pub proof fn law_skills_live_where_their_file_stands(folder: Seq<char>)
    ensures
        holder_of(folder + "/SKILL.md"@) == folder,
{
    let path = folder + "/SKILL.md"@;
    let n = "/SKILL.md"@.len() as int;
    assert(path.skip(path.len() - n) =~= "/SKILL.md"@);
    assert(path.subrange(path.len() - n, path.len() as int) =~= "/SKILL.md"@);
    assert(path.take(path.len() - n) =~= folder);
}

/// Every skill that was found is kept under its name, and those kept before stay.
pub proof fn law_every_skill_found_is_kept(
    disk: &Disk,
    parses: Seq<ParsedFrontmatter>,
    files: Seq<Seq<char>>,
    i: int,
    skills: Map<Seq<char>, SkillInfo>,
    k: int,
    name: Seq<char>,
)
    requires
        0 <= i <= files.len(),
    ensures
        with_files(disk, parses, files, i, skills) matches Ok(all) ==> {
            &&& i <= k < files.len() ==> (skill_at(disk, parses, files[k]) matches Ok(s)
                && all.dom().contains(s.name) && all[s.name] == s)
            &&& skills.dom().contains(name) ==> all.dom().contains(name) && all[name]
                == skills[name]
        },
    decreases files.len() - i,
{
    if i < files.len() {
        if let Ok(s) = skill_at(disk, parses, files[i]) {
            if !skills.dom().contains(s.name) {
                let more = skills.insert(s.name, s);
                law_every_skill_found_is_kept(disk, parses, files, i + 1, more, k, name);
                law_every_skill_found_is_kept(disk, parses, files, i + 1, more, k, s.name);
            }
        }
    }
}

/// Each folder that holds a `SKILL.md` is found, in the order of the names, and no
/// other.
pub proof fn law_every_skill_folder_is_found(
    disk: &Disk,
    dir: Seq<char>,
    top: Seq<char>,
    entries: Seq<Seq<char>>,
    n: int,
)
    requires
        0 <= n < entries.len(),
    ensures
        ({
            let file = path_join(path_join(dir, entries[n]), "SKILL.md"@);
            let before = skill_files_in(disk, dir, top, entries, n);
            let after = skill_files_in(disk, dir, top, entries, n + 1);
            if disk.is_dir(path_join(top, entries[n])) && disk.leads_to_file(file) {
                after == before.push(file)
            } else {
                after == before
            }
        }),
{
}

/// The prompt starts as it was and is left alone where there are no skills; each
/// skill has a line of its own, with its name and what it is for.
pub proof fn law_prompts_tell_every_skill(
    base: Seq<char>,
    keys: Seq<Seq<char>>,
    skills: Map<Seq<char>, SkillInfo>,
    i: int,
)
    ensures
        ({
            let lines = skill_lines(keys, skills);
            let said = prompt_with(base, lines);
            &&& base.is_prefix_of(said)
            &&& keys.len() == 0 ==> said == base
            &&& lines.len() == keys.len()
            &&& keys.len() > 0 ==> said.len() > joined(lines, "\n"@).len() && said.skip(
                said.len() - joined(lines, "\n"@).len(),
            ) == joined(lines, "\n"@)
            &&& 0 <= i < keys.len() ==> {
                let lead = "- `"@ + skills[keys[i]].name + "`: "@;
                lead.is_prefix_of(lines[i]) && lines[i].skip(lead.len() as int)
                    == skills[keys[i]].description
            }
        }),
{
    let lines = skill_lines(keys, skills);
    let said = prompt_with(base, lines);
    let tail = joined(lines, "\n"@);
    if keys.len() > 0 {
        reveal_strlit(
            "\n\n## Skills\n\nThe following skills are available. When a skill matches the user's task, call `skill_read` before acting and follow the returned instructions. Read referenced files with the same tool only when needed.\n\n",
        );
        assert(said.skip(said.len() - tail.len()) =~= tail);
    }
    if 0 <= i < keys.len() {
        let lead = "- `"@ + skills[keys[i]].name + "`: "@;
        assert(lines[i] == lead + skills[keys[i]].description);
        assert(lines[i].skip(lead.len() as int) =~= skills[keys[i]].description);
    }
}

/// A file of a skill is read as what it holds, and the answer names the skill and
/// the file; where no file is named, the instructions are read.
pub proof fn law_skill_files_are_read_as_held(
    disk: &Disk,
    skills: Map<Seq<char>, SkillInfo>,
    args: Json,
)
    ensures
        args.get_str("path"@) is None ==> asked_file(args) == "SKILL.md"@,
        args.get_str("path"@) matches Some(p) ==> asked_file(args) == p,
        skill_read_of(disk, skills, args) matches Ok(v) ==> {
            &&& args.get_str("name"@) matches Some(name) && skills.dom().contains(name) && {
                let at = disk.canonical(path_join(skills[name].root, asked_file(args)));
                &&& at is Some && under(at->0, skills[name].root) && disk.is_file(at->0)
                &&& disk.held(at->0) matches Ok(content) && v.get_str("content"@) == Some(content)
                &&& v.get_str("name"@) == Some(name)
            }
            &&& v.get_str("path"@) == Some(asked_file(args))
        },
{
    if let Ok(v) = skill_read_of(disk, skills, args) {
        reveal_strlit("name");
        reveal_strlit("path");
        reveal_strlit("content");
        assert("name"@.len() == 4);
        assert("path"@.len() == 4);
        assert("content"@.len() == 7);
        assert("name"@[0] != "path"@[0]);
        let fs = skill_read_of(disk, skills, args)->Ok_0->Object_0;
        assert(fs[0].key == "name"@);
        assert(fs[1].key == "path"@);
        assert(fs[2].key == "content"@);
        law_the_first_member_of_a_name_counts(fs, 0);
        law_the_first_member_of_a_name_counts(fs, 1);
        law_the_first_member_of_a_name_counts(fs, 2);
    }
}

} // verus!
