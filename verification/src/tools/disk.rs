//! Named directory jails over what a host has seen of its file system.
//!
//! The host reads the file system and hands over a [`Disk`]; everything that
//! decides which of it a tool may reach is here.
use vstd::prelude::*;

use crate::bytes::strict;
use crate::json::{opt_str_view, opt_view};
use crate::paths::{
    absolute, below, components, components_of, descends, is_absolute, is_under, join_path,
    names_of, parts_view, path_join, path_names, relative_to, stays_inside, under, Component, Part,
};
use crate::split::{
    among, contains, cut, ends_with, finishes_with, holds, join, joined, split_once,
};
use crate::text::{cat, cat3, owned, same, skip_while, trim, trim_start_matches, trimmed, views};
use vstd::utf8::{decode_utf8, valid_utf8};

verus! {

/// What stands at a path.
#[derive(Clone, Copy, Debug, PartialEq, Eq, Structural)]
pub enum Kind {
    File,
    Dir,
    Other,
}

/// One name in a directory, with the canonical path it leads to, where it
/// leads anywhere.
#[derive(Debug)]
pub struct DirEntry {
    pub name: String,
    pub target: Option<String>,
}

/// What stands at one canonical path: the bytes of a file, the entries of a
/// directory.
#[derive(Debug)]
pub struct Node {
    pub path: String,
    pub kind: Kind,
    pub bytes: u64,
    pub content: Vec<u8>,
    pub entries: Vec<DirEntry>,
}

/// A path and the canonical path it leads to.
#[derive(Debug)]
pub struct Link {
    pub path: String,
    pub target: String,
}

/// A path that cannot be read or followed, and why, in the host's words.
#[derive(Debug)]
pub struct Fault {
    pub path: String,
    pub reason: String,
}

/// The host's words for what is wrong with a path: nothing stands there, a
/// directory does where a file is to be read, or no directory does where one is
/// to be listed.
#[derive(Debug)]
pub struct Words {
    pub absent: String,
    pub is_dir: String,
    pub not_dir: String,
}

impl Words {
    /// The words of a Unix system.
    pub fn usual() -> (r: Words)
        ensures
            r.absent@ == "No such file or directory (os error 2)"@,
            r.is_dir@ == "Is a directory (os error 21)"@,
            r.not_dir@ == "Not a directory (os error 20)"@,
    {
        Words {
            absent: owned("No such file or directory (os error 2)"),
            is_dir: owned("Is a directory (os error 21)"),
            not_dir: owned("Not a directory (os error 20)"),
        }
    }
}

/// What a host has seen of its file system: what stands at canonical paths, the
/// links that lead to other paths, what could not be read, and the host's words
/// for what is wrong with a path. A link from `.` tells the directory that
/// relative paths are taken from.
#[derive(Debug)]
pub struct Disk {
    pub nodes: Vec<Node>,
    pub links: Vec<Link>,
    pub faults: Vec<Fault>,
    pub words: Words,
}

/// The first node at `path`, of nodes from index `i` on.
pub open spec fn node_from(nodes: Seq<Node>, path: Seq<char>, i: int) -> Option<Node>
    decreases nodes.len() - i,
{
    if i < 0 || i >= nodes.len() {
        None
    } else if nodes[i].path@ == path {
        Some(nodes[i])
    } else {
        node_from(nodes, path, i + 1)
    }
}

/// Where the first link from `path` leads, of links from index `i` on.
pub open spec fn link_from(links: Seq<Link>, path: Seq<char>, i: int) -> Option<Seq<char>>
    decreases links.len() - i,
{
    if i < 0 || i >= links.len() {
        None
    } else if links[i].path@ == path {
        Some(links[i].target@)
    } else {
        link_from(links, path, i + 1)
    }
}

/// Some link, of links from index `i` on, leads to `path`.
pub open spec fn target_from(links: Seq<Link>, path: Seq<char>, i: int) -> bool
    decreases links.len() - i,
{
    if i < 0 || i >= links.len() {
        false
    } else {
        links[i].target@ == path || target_from(links, path, i + 1)
    }
}

/// Why the first fault at `path` says it cannot be read, of faults from index
/// `i` on.
pub open spec fn fault_from(faults: Seq<Fault>, path: Seq<char>, i: int) -> Option<Seq<char>>
    decreases faults.len() - i,
{
    if i < 0 || i >= faults.len() {
        None
    } else if faults[i].path@ == path {
        Some(faults[i].reason@)
    } else {
        fault_from(faults, path, i + 1)
    }
}

/// The path holds a step up.
pub open spec fn climbs(path: Seq<char>) -> bool {
    components_of(path).contains(Part::Parent)
}

/// The directory that holds a canonical path; the topmost one holds itself.
pub open spec fn parent_of(path: Seq<char>) -> Seq<char> {
    let names = names_of(components_of(path));
    if names.len() == 0 {
        "/"@
    } else {
        "/"@ + joined(names.drop_last(), "/"@)
    }
}

/// The path is written as that of a directory.
pub open spec fn wants_dir(path: Seq<char>) -> bool {
    finishes_with(path, "/"@) || finishes_with(path, "/."@)
}

impl Disk {
    /// What stands at a canonical path.
    pub open spec fn node(&self, path: Seq<char>) -> Option<Node> {
        node_from(self.nodes@, path, 0)
    }

    /// Something other than a directory stands at a canonical path.
    pub open spec fn blocks(&self, path: Seq<char>) -> bool {
        match self.node(path) {
            Some(n) => n.kind != Kind::Dir,
            None => false,
        }
    }

    /// Where one step from a canonical path leads.
    pub open spec fn entered(&self, at: Seq<char>, name: Seq<char>) -> Seq<char> {
        let next = path_join(at, name);
        match link_from(self.links@, next, 0) {
            Some(t) => t,
            None => next,
        }
    }

    /// Nothing stands at a canonical path in a directory that was seen.
    pub open spec fn missing(&self, path: Seq<char>) -> bool {
        !self.stands(path) && self.is_dir(parent_of(path))
    }

    /// Where the components from index `i` on lead from a canonical path, link
    /// by link, or why they lead nowhere.
    pub open spec fn followed(&self, parts: Seq<Part>, i: int, at: Seq<char>) -> Result<
        Seq<char>,
        Seq<char>,
    >
        decreases parts.len() - i,
    {
        if i < 0 || i >= parts.len() {
            Ok(at)
        } else {
            match parts[i] {
                Part::Root => self.followed(parts, i + 1, at),
                Part::Cur => self.followed(parts, i + 1, at),
                Part::Parent => if self.blocks(at) {
                    Err(self.words.not_dir@)
                } else if self.missing(at) {
                    Err(self.words.absent@)
                } else {
                    self.followed(parts, i + 1, parent_of(at))
                },
                Part::Normal(name) => if self.blocks(at) {
                    Err(self.words.not_dir@)
                } else {
                    self.followed(parts, i + 1, self.entered(at, name))
                },
            }
        }
    }

    /// Something is known to stand at a canonical path.
    pub open spec fn stands(&self, path: Seq<char>) -> bool {
        self.node(path) is Some || target_from(self.links@, path, 0)
    }

    /// The canonical path that `path` leads to: where a link from it says so,
    /// and else where its components lead, link by link, if something stands
    /// there; or the host's words for why it leads nowhere.
    pub open spec fn led(&self, path: Seq<char>) -> Result<Seq<char>, Seq<char>> {
        match link_from(self.links@, path, 0) {
            Some(t) => Ok(t),
            None => {
                let start = if absolute(path) {
                    Some("/"@)
                } else {
                    link_from(self.links@, "."@, 0)
                };
                match start {
                    None => Err(self.words.absent@),
                    Some(at) => if path.len() == 0 {
                        Err(self.words.absent@)
                    } else {
                        match self.followed(components_of(path), 0, at) {
                            Err(e) => Err(e),
                            Ok(c) => if !self.stands(c) {
                                Err(self.words.absent@)
                            } else if wants_dir(path) && !self.is_dir(c) {
                                Err(self.words.not_dir@)
                            } else {
                                Ok(c)
                            },
                        }
                    },
                }
            },
        }
    }

    /// The canonical path that `path` leads to.
    pub open spec fn canonical(&self, path: Seq<char>) -> Option<Seq<char>> {
        match self.led(path) {
            Ok(c) => Some(c),
            Err(_) => None,
        }
    }

    /// Why a path cannot be read or followed, where the host says so.
    pub open spec fn fault(&self, path: Seq<char>) -> Option<Seq<char>> {
        fault_from(self.faults@, path, 0)
    }

    /// Why a path leads nowhere: what the host says of it, and else what is wrong
    /// with the way there.
    pub open spec fn reason(&self, path: Seq<char>) -> Seq<char> {
        match self.fault(path) {
            Some(r) => r,
            None => match self.led(path) {
                Err(e) => e,
                Ok(_) => self.words.absent@,
            },
        }
    }

    /// The path leads to a file.
    pub open spec fn leads_to_file(&self, path: Seq<char>) -> bool {
        match self.canonical(path) {
            Some(c) => self.is_file(c),
            None => false,
        }
    }

    /// The text of the file at a canonical path, or why it cannot be read.
    pub open spec fn held(&self, path: Seq<char>) -> Result<Seq<char>, Seq<char>> {
        match self.fault(path) {
            Some(r) => Err(r),
            None => match self.node(path) {
                None => Err(self.words.absent@),
                Some(n) => if n.kind == Kind::Dir {
                    Err(self.words.is_dir@)
                } else if valid_utf8(n.content@) {
                    Ok(decode_utf8(n.content@))
                } else {
                    Err("stream did not contain valid UTF-8"@)
                },
            },
        }
    }

    /// The text of the file that a path leads to, or why it cannot be read.
    pub open spec fn text(&self, path: Seq<char>) -> Result<Seq<char>, Seq<char>> {
        match self.canonical(path) {
            None => Err(self.reason(path)),
            Some(c) => self.held(c),
        }
    }

    /// What stands in the directory at a canonical path, or why it cannot be
    /// listed.
    pub open spec fn listing(&self, path: Seq<char>) -> Result<Node, Seq<char>> {
        match self.fault(path) {
            Some(r) => Err(r),
            None => match self.node(path) {
                None => Err(self.words.absent@),
                Some(n) => if n.kind == Kind::Dir {
                    Ok(n)
                } else {
                    Err(self.words.not_dir@)
                },
            },
        }
    }

    pub open spec fn is_dir(&self, path: Seq<char>) -> bool {
        match self.node(path) {
            Some(n) => n.kind == Kind::Dir,
            None => false,
        }
    }

    pub open spec fn is_file(&self, path: Seq<char>) -> bool {
        match self.node(path) {
            Some(n) => n.kind == Kind::File,
            None => false,
        }
    }

    pub fn find(&self, path: &str) -> (r: Option<&Node>)
        ensures
            match r {
                Some(n) => self.node(path@) == Some(*n),
                None => self.node(path@) is None,
            },
    {
        let mut i: usize = 0;
        while i < self.nodes.len()
            invariant
                i <= self.nodes@.len(),
                self.node(path@) == node_from(self.nodes@, path@, i as int),
            decreases self.nodes.len() - i,
        {
            if same(self.nodes[i].path.as_str(), path) {
                return Some(&self.nodes[i]);
            }
            i = i + 1;
        }
        None
    }

    pub fn dir(&self, path: &str) -> (r: bool)
        ensures
            r == self.is_dir(path@),
    {
        match self.find(path) {
            Some(n) => matches!(n.kind, Kind::Dir),
            None => false,
        }
    }

    pub fn file(&self, path: &str) -> (r: bool)
        ensures
            r == self.is_file(path@),
    {
        match self.find(path) {
            Some(n) => matches!(n.kind, Kind::File),
            None => false,
        }
    }

    fn link(&self, path: &str) -> (r: Option<String>)
        ensures
            opt_view(r) == link_from(self.links@, path@, 0),
    {
        let mut i: usize = 0;
        while i < self.links.len()
            invariant
                i <= self.links@.len(),
                link_from(self.links@, path@, 0) == link_from(self.links@, path@, i as int),
            decreases self.links.len() - i,
        {
            if same(self.links[i].path.as_str(), path) {
                return Some(self.links[i].target.clone());
            }
            i = i + 1;
        }
        None
    }

    fn is_target(&self, path: &str) -> (r: bool)
        ensures
            r == target_from(self.links@, path@, 0),
    {
        let mut i: usize = 0;
        while i < self.links.len()
            invariant
                i <= self.links@.len(),
                target_from(self.links@, path@, 0) == target_from(self.links@, path@, i as int),
            decreases self.links.len() - i,
        {
            if same(self.links[i].target.as_str(), path) {
                return true;
            }
            i = i + 1;
        }
        false
    }

    fn blocked(&self, path: &str) -> (r: bool)
        ensures
            r == self.blocks(path@),
    {
        match self.find(path) {
            Some(n) => !matches!(n.kind, Kind::Dir),
            None => false,
        }
    }

    fn known(&self, path: &str) -> (r: bool)
        ensures
            r == self.stands(path@),
    {
        self.find(path).is_some() || self.is_target(path)
    }

    fn follow(&self, path: &str, start: &str) -> (r: Result<String, String>)
        ensures
            text_result(r) == self.followed(components_of(path@), 0, start@),
    {
        let parts = components(path);
        let ghost pv = parts_view(parts@);
        let ghost goal = self.followed(components_of(path@), 0, start@);
        let mut at = owned(start);
        let mut i: usize = 0;
        while i < parts.len()
            invariant
                i <= parts@.len(),
                pv == parts_view(parts@),
                goal == self.followed(components_of(path@), 0, start@),
                goal == self.followed(pv, i as int, at@),
            decreases parts.len() - i,
        {
            assert(pv[i as int] == parts@[i as int]@);
            match &parts[i] {
                Component::RootDir => {},
                Component::CurDir => {},
                Component::ParentDir => {
                    if self.blocked(at.as_str()) {
                        return Err(self.words.not_dir.clone());
                    }
                    let above = parent_path(at.as_str());
                    if !self.known(at.as_str()) && self.dir(above.as_str()) {
                        return Err(self.words.absent.clone());
                    }
                    at = above;
                },
                Component::Normal(name) => {
                    if self.blocked(at.as_str()) {
                        return Err(self.words.not_dir.clone());
                    }
                    let next = join_path(at.as_str(), name.as_str());
                    at = match self.link(next.as_str()) {
                        Some(t) => t,
                        None => next,
                    };
                },
            }
            i = i + 1;
        }
        Ok(at)
    }

    fn lead(&self, path: &str) -> (r: Result<String, String>)
        ensures
            text_result(r) == self.led(path@),
    {
        if let Some(t) = self.link(path) {
            return Ok(t);
        }
        let start = if is_absolute(path) {
            owned("/")
        } else {
            match self.link(".") {
                Some(t) => t,
                None => {
                    return Err(self.words.absent.clone());
                },
            }
        };
        if path.is_empty() {
            return Err(self.words.absent.clone());
        }
        let c = match self.follow(path, start.as_str()) {
            Ok(c) => c,
            Err(e) => {
                return Err(e);
            },
        };
        let wanted = ends_with(path, "/") || ends_with(path, "/.");
        if !self.known(c.as_str()) {
            Err(self.words.absent.clone())
        } else if wanted && !self.dir(c.as_str()) {
            Err(self.words.not_dir.clone())
        } else {
            Ok(c)
        }
    }

    /// The canonical path that `path` leads to.
    pub fn canonicalize(&self, path: &str) -> (r: Option<String>)
        ensures
            opt_view(r) == self.canonical(path@),
    {
        match self.lead(path) {
            Ok(c) => Some(c),
            Err(_) => None,
        }
    }

    /// Why a path cannot be read or followed, where the host says so.
    pub fn fault_at(&self, path: &str) -> (r: Option<String>)
        ensures
            opt_view(r) == self.fault(path@),
    {
        let mut i: usize = 0;
        while i < self.faults.len()
            invariant
                i <= self.faults@.len(),
                self.fault(path@) == fault_from(self.faults@, path@, i as int),
            decreases self.faults.len() - i,
        {
            if same(self.faults[i].path.as_str(), path) {
                return Some(self.faults[i].reason.clone());
            }
            i = i + 1;
        }
        None
    }

    /// Why a path leads nowhere.
    pub fn why(&self, path: &str) -> (r: String)
        ensures
            r@ == self.reason(path@),
    {
        match self.fault_at(path) {
            Some(r) => r,
            None => match self.lead(path) {
                Err(e) => e,
                Ok(_) => self.words.absent.clone(),
            },
        }
    }

    /// Whether a path leads to a file.
    pub fn file_at(&self, path: &str) -> (r: bool)
        ensures
            r == self.leads_to_file(path@),
    {
        match self.canonicalize(path) {
            Some(c) => self.file(c.as_str()),
            None => false,
        }
    }

    /// Reads the text of the file at a canonical path.
    pub fn read_held(&self, path: &str) -> (r: Result<String, String>)
        ensures
            text_result(r) == self.held(path@),
    {
        if let Some(r) = self.fault_at(path) {
            return Err(r);
        }
        match self.find(path) {
            None => Err(self.words.absent.clone()),
            Some(n) => if matches!(n.kind, Kind::Dir) {
                Err(self.words.is_dir.clone())
            } else {
                match strict(&n.content) {
                    Some(t) => Ok(t),
                    None => Err(owned("stream did not contain valid UTF-8")),
                }
            },
        }
    }

    /// Reads the text of the file that a path leads to.
    pub fn read_text(&self, path: &str) -> (r: Result<String, String>)
        ensures
            text_result(r) == self.text(path@),
    {
        match self.canonicalize(path) {
            Some(c) => self.read_held(c.as_str()),
            None => Err(self.why(path)),
        }
    }

    /// What stands in the directory at a canonical path.
    pub fn list(&self, path: &str) -> (r: Result<&Node, String>)
        ensures
            match r {
                Ok(n) => self.listing(path@) == Ok::<Node, Seq<char>>(*n),
                Err(e) => self.listing(path@) == Err::<Node, Seq<char>>(e@),
            },
    {
        if let Some(r) = self.fault_at(path) {
            return Err(r);
        }
        match self.find(path) {
            None => Err(self.words.absent.clone()),
            Some(n) => if matches!(n.kind, Kind::Dir) {
                Ok(n)
            } else {
                Err(self.words.not_dir.clone())
            },
        }
    }

    /// A disk with these nodes and links, all of which can be read.
    pub fn of(nodes: Vec<Node>, links: Vec<Link>) -> (r: Disk)
        ensures
            r.nodes == nodes,
            r.links == links,
            r.faults@.len() == 0,
            r.words.absent@ == "No such file or directory (os error 2)"@,
            r.words.is_dir@ == "Is a directory (os error 21)"@,
            r.words.not_dir@ == "Not a directory (os error 20)"@,
    {
        Disk { nodes, links, faults: Vec::new(), words: Words::usual() }
    }
}

/// The directory that holds a canonical path.
fn parent_path(path: &str) -> (r: String)
    ensures
        r@ == parent_of(path@),
{
    let mut names = path_names(path);
    if names.len() == 0 {
        return owned("/");
    }
    let ghost all = views(names@);
    let _last = names.pop();
    assert(views(names@) =~= all.drop_last());
    cat("/", join(&names, "/").as_str())
}

/// One canonical directory that paths are confined to.
#[derive(Debug)]
pub struct Jail {
    root: String,
}

/// The view of a result that is a text or an error text.
pub open spec fn text_result(r: Result<String, String>) -> Result<Seq<char>, Seq<char>> {
    match r {
        Ok(s) => Ok(s@),
        Err(e) => Err(e@),
    }
}

/// The canonical path that `rel`, taken from the directory `root`, leads to
/// inside `root`; or why there is none.
pub open spec fn resolved(disk: &Disk, root: Seq<char>, rel: Option<Seq<char>>) -> Result<
    Seq<char>,
    Seq<char>,
> {
    let r = trimmed(
        match rel {
            Some(s) => s,
            None => Seq::empty(),
        },
    );
    let candidate = if r.len() == 0 {
        root
    } else {
        path_join(root, r)
    };
    if r.len() > 0 && absolute(r) {
        Err("path must be relative to the tool root"@)
    } else if r.len() > 0 && !stays_inside(r) {
        Err("path escapes the tool root"@)
    } else {
        match disk.canonical(candidate) {
            None => Err("path does not exist inside the tool root: "@ + r),
            Some(c) => if under(c, root) {
                Ok(c)
            } else {
                Err("path escapes the tool root: "@ + r)
            },
        }
    }
}

impl Jail {
    /// The canonical directory.
    pub closed spec fn dir(&self) -> Seq<char> {
        self.root@
    }

    /// The jail at `root`, which must lead to a directory.
    pub fn new(disk: &Disk, root: &str) -> (r: Result<Jail, String>)
        ensures
            match r {
                Ok(j) => disk.canonical(root@) == Some(j.dir()) && disk.is_dir(j.dir()),
                Err(e) => match disk.canonical(root@) {
                    None => e@ == "canonicalizing fs root "@ + root@,
                    Some(c) => !disk.is_dir(c) && e@ == "fs root is not a directory: "@ + c,
                },
            },
    {
        match disk.canonicalize(root) {
            None => Err(cat("canonicalizing fs root ", root)),
            Some(c) => if disk.dir(c.as_str()) {
                Ok(Jail { root: c })
            } else {
                Err(cat("fs root is not a directory: ", c.as_str()))
            },
        }
    }

    pub fn root(&self) -> (r: &str)
        ensures
            r@ == self.dir(),
    {
        self.root.as_str()
    }

    /// Whether `path` is the jail's directory or lies below it.
    pub fn contains(&self, path: &str) -> (r: bool)
        ensures
            r == under(path@, self.dir()),
    {
        is_under(path, self.root.as_str())
    }

    /// Resolves a path relative to the jail to an existing canonical path
    /// inside it. No path, or an empty one, is the jail's directory itself.
    pub fn resolve_existing(&self, disk: &Disk, rel: Option<&str>) -> (r: Result<String, String>)
        ensures
            text_result(r) == resolved(disk, self.dir(), opt_str_view(rel)),
    {
        let given = match rel {
            Some(s) => trim(s),
            None => {
                proof {
                    lemma_trimmed_empty();
                }
                String::new()
            },
        };
        let r = given.as_str();
        let candidate = if r.is_empty() {
            self.root.clone()
        } else {
            if is_absolute(r) {
                return Err(owned("path must be relative to the tool root"));
            }
            if !descends(r) {
                return Err(owned("path escapes the tool root"));
            }
            join_path(self.root.as_str(), r)
        };
        match disk.canonicalize(candidate.as_str()) {
            None => Err(cat("path does not exist inside the tool root: ", r)),
            Some(c) => if self.contains(c.as_str()) {
                Ok(c)
            } else {
                Err(cat("path escapes the tool root: ", r))
            },
        }
    }

    /// The path below the jail's directory, with slashes between its names.
    pub fn rel_path(&self, path: &str) -> (r: Result<String, String>)
        ensures
            text_result(r) == (if under(path@, self.dir()) {
                Ok::<Seq<char>, Seq<char>>(below(path@, self.dir()))
            } else {
                Err("path "@ + path@ + " is not under the tool root"@)
            }),
    {
        match relative_to(path, self.root.as_str()) {
            Some(s) => Ok(s),
            None => Err(cat3("path ", path, " is not under the tool root")),
        }
    }
}

proof fn lemma_trimmed_empty()
    ensures
        trimmed(Seq::<char>::empty()) == Seq::<char>::empty(),
{
}

/// A jail and the name its paths start with.
#[derive(Debug)]
pub struct NamedJail {
    name: String,
    jail: Jail,
}

/// What a [`NamedJail`] denotes: its name and its directory.
pub struct Place {
    pub name: Seq<char>,
    pub dir: Seq<char>,
}

impl View for NamedJail {
    type V = Place;

    closed spec fn view(&self) -> Place {
        Place { name: self.name@, dir: self.jail.dir() }
    }
}

/// One or more named jails. Files are addressed as `<name>/<path>`.
#[derive(Debug)]
pub struct FsRoot {
    jails: Vec<NamedJail>,
}

impl View for FsRoot {
    type V = Seq<Place>;

    closed spec fn view(&self) -> Seq<Place> {
        self.jails@.map_values(|j: NamedJail| j@)
    }
}

/// The names of the jails.
pub open spec fn place_names(places: Seq<Place>) -> Seq<Seq<char>> {
    places.map_values(|p: Place| p.name)
}

/// There is a jail, and the names are usable: none is empty, holds a slash or
/// occurs twice.
pub open spec fn well_named(places: Seq<Place>) -> bool {
    &&& places.len() > 0
    &&& place_names(places).no_duplicates()
    &&& forall|i: int|
        0 <= i < places.len() ==> (#[trigger] places[i]).name.len() > 0 && !holds(
            places[i].name,
            "/"@,
        )
}

/// A root as it is configured.
#[derive(Debug)]
pub struct NamedRoot {
    pub name: String,
    pub path: String,
}

/// Why the roots from index `i` on cannot be taken, given the names before.
pub open spec fn root_refusal(disk: &Disk, roots: Seq<NamedRoot>, i: int) -> Option<Seq<char>>
    decreases roots.len() - i,
{
    if i < 0 || i >= roots.len() {
        None
    } else {
        let name = roots[i].name@;
        let seen = roots.take(i).map_values(|r: NamedRoot| r.name@);
        if name.len() == 0 {
            Some("root name cannot be empty"@)
        } else if holds(name, "/"@) {
            Some("root name `"@ + name + "` cannot contain `/`"@)
        } else if seen.contains(name) {
            Some("duplicate root name `"@ + name + "`"@)
        } else {
            match disk.canonical(roots[i].path@) {
                None => Some("canonicalizing fs root "@ + roots[i].path@),
                Some(c) => if disk.is_dir(c) {
                    root_refusal(disk, roots, i + 1)
                } else {
                    Some("fs root is not a directory: "@ + c)
                },
            }
        }
    }
}

/// The jail and the path within it that a caller's path names.
pub open spec fn located(places: Seq<Place>, rel: Seq<char>) -> Result<
    (int, Option<Seq<char>>),
    Seq<char>,
> {
    let t = skip_while(trimmed(rel), |c: char| c == '/');
    let (name, sub) = match cut(t, "/"@) {
        Some((a, b)) => (a, b),
        None => (t, Seq::empty()),
    };
    let known = joined(place_names(places), ", "@);
    if name.len() == 0 {
        Err("path must name a root as `<root>/<path>` (roots: "@ + known + ")"@)
    } else {
        match place_from(places, name, 0) {
            None => Err("unknown root `"@ + name + "`; known roots: "@ + known),
            Some(i) => {
                let s = trimmed(sub);
                Ok(
                    (
                        i,
                        if s.len() == 0 {
                            None
                        } else {
                            Some(s)
                        },
                    ),
                )
            },
        }
    }
}

/// The index of the first jail named `name`, from index `i` on.
pub open spec fn place_from(places: Seq<Place>, name: Seq<char>, i: int) -> Option<int>
    decreases places.len() - i,
{
    if i < 0 || i >= places.len() {
        None
    } else if places[i].name == name {
        Some(i)
    } else {
        place_from(places, name, i + 1)
    }
}

/// The index of the first jail that `path` lies in, from index `i` on.
pub open spec fn owner_from(places: Seq<Place>, path: Seq<char>, i: int) -> Option<int>
    decreases places.len() - i,
{
    if i < 0 || i >= places.len() {
        None
    } else if under(path, places[i].dir) {
        Some(i)
    } else {
        owner_from(places, path, i + 1)
    }
}

/// A caller's path resolved to a canonical path inside the jail it names.
pub open spec fn root_resolved(disk: &Disk, places: Seq<Place>, rel: Seq<char>) -> Result<
    Seq<char>,
    Seq<char>,
> {
    match located(places, rel) {
        Err(e) => Err(e),
        Ok((i, sub)) => resolved(disk, places[i].dir, sub),
    }
}

/// The path that callers are shown for a canonical path.
pub open spec fn shown(places: Seq<Place>, path: Seq<char>) -> Result<Seq<char>, Seq<char>> {
    match owner_from(places, path, 0) {
        None => Err("path "@ + path + " is not under any tool root"@),
        Some(i) => {
            let rel = below(path, places[i].dir);
            if rel.len() == 0 {
                Ok(places[i].name)
            } else {
                Ok(places[i].name + "/"@ + rel)
            }
        },
    }
}

proof fn lemma_place_from(places: Seq<Place>, name: Seq<char>, i: int)
    requires
        0 <= i,
    ensures
        match place_from(places, name, i) {
            Some(k) => i <= k < places.len() && places[k].name == name,
            None => forall|k: int| i <= k < places.len() ==> places[k].name != name,
        },
    decreases places.len() - i,
{
    if i < places.len() && places[i].name != name {
        lemma_place_from(places, name, i + 1);
    }
}

proof fn lemma_owner_from(places: Seq<Place>, path: Seq<char>, i: int)
    requires
        0 <= i,
    ensures
        match owner_from(places, path, i) {
            Some(k) => i <= k < places.len() && under(path, places[k].dir),
            None => true,
        },
    decreases places.len() - i,
{
    if i < places.len() && !under(path, places[i].dir) {
        lemma_owner_from(places, path, i + 1);
    }
}

/// A path that resolves lies in the jail that its first segment names, and in
/// no way outside it: one root's files cannot be reached through another's
/// name.
pub proof fn law_resolution_stays_in_the_named_root(
    disk: &Disk,
    places: Seq<Place>,
    rel: Seq<char>,
)
    ensures
        root_resolved(disk, places, rel) matches Ok(c) ==> {
            &&& located(places, rel) matches Ok((i, sub))
            &&& 0 <= i < places.len()
            &&& under(c, places[i].dir)
        },
{
    let t = skip_while(trimmed(rel), |c: char| c == '/');
    let name = match cut(t, "/"@) {
        Some((a, b)) => a,
        None => t,
    };
    lemma_place_from(places, name, 0);
}

/// A path with a step up, or one that is absolute within its root, never
/// resolves.
pub proof fn law_escapes_are_refused(disk: &Disk, dir: Seq<char>, rel: Seq<char>)
    requires
        trimmed(rel).len() > 0,
        absolute(trimmed(rel)) || climbs(trimmed(rel)),
    ensures
        resolved(disk, dir, Some(rel)) is Err,
{
    let r = trimmed(rel);
    if climbs(r) {
        let i = components_of(r).index_of(Part::Parent);
        assert(components_of(r)[i] == Part::Parent);
    }
}

/// Whatever resolves can be shown to the caller.
pub proof fn law_resolved_paths_can_be_shown(disk: &Disk, places: Seq<Place>, rel: Seq<char>)
    ensures
        root_resolved(disk, places, rel) matches Ok(c) ==> shown(places, c) is Ok,
{
    law_resolution_stays_in_the_named_root(disk, places, rel);
    if let Ok(c) = root_resolved(disk, places, rel) {
        if let Ok((i, sub)) = located(places, rel) {
            lemma_owner_exists(places, c, 0, i);
        }
    }
}

proof fn lemma_owner_exists(places: Seq<Place>, path: Seq<char>, i: int, k: int)
    requires
        0 <= i <= k < places.len(),
        under(path, places[k].dir),
    ensures
        owner_from(places, path, i) is Some,
    decreases k - i,
{
    if !under(path, places[i].dir) {
        lemma_owner_exists(places, path, i + 1, k);
    }
}

/// The view of a list of walk targets.
pub open spec fn targets_view(s: Seq<(usize, String)>) -> Seq<Target> {
    s.map_values(|t: (usize, String)| Target { jail: t.0 as int, start: t.1@ })
}

/// A place to walk from, and the jail it lies in.
pub struct Target {
    pub jail: int,
    pub start: Seq<char>,
}

/// The places that a tree operation walks: every root's directory, or the one
/// place that a given path names.
pub open spec fn targets(disk: &Disk, places: Seq<Place>, path: Option<Seq<char>>) -> Result<
    Seq<Target>,
    Seq<char>,
> {
    let rel = match path {
        Some(p) => trimmed(p),
        None => Seq::empty(),
    };
    if rel.len() == 0 {
        Ok(Seq::new(places.len(), |i: int| Target { jail: i, start: places[i].dir }))
    } else {
        match located(places, rel) {
            Err(e) => Err(e),
            Ok((i, sub)) => match resolved(disk, places[i].dir, sub) {
                Err(e) => Err(e),
                Ok(c) => Ok(seq![Target { jail: i, start: c }]),
            },
        }
    }
}

impl FsRoot {
    /// Takes named roots. Each must lead to a directory, and names must be
    /// unique, not empty and free of slashes.
    pub fn with_named(disk: &Disk, roots: Vec<NamedRoot>) -> (r: Result<FsRoot, String>)
        ensures
            match r {
                Ok(root) => {
                    &&& roots@.len() > 0
                    &&& root_refusal(disk, roots@, 0) is None
                    &&& root@.len() == roots@.len()
                    &&& well_named(root@)
                    &&& forall|i: int|
                        0 <= i < roots@.len() ==> (#[trigger] root@[i]).name == roots@[i].name@
                            && disk.canonical(roots@[i].path@) == Some(root@[i].dir)
                            && disk.is_dir(root@[i].dir)
                },
                Err(e) => if roots@.len() == 0 {
                    e@ == "fs_read requires at least one root"@
                } else {
                    root_refusal(disk, roots@, 0) == Some(e@)
                },
            },
    {
        if roots.len() == 0 {
            return Err(owned("fs_read requires at least one root"));
        }
        let mut jails: Vec<NamedJail> = Vec::new();
        let mut seen: Vec<String> = Vec::new();
        let mut i: usize = 0;
        assert(views(seen@) =~= roots@.take(0).map_values(|r: NamedRoot| r.name@));
        while i < roots.len()
            invariant
                i <= roots@.len(),
                roots@.len() > 0,
                jails@.len() == i,
                root_refusal(disk, roots@, 0) == root_refusal(disk, roots@, i as int),
                views(seen@) == roots@.take(i as int).map_values(|r: NamedRoot| r.name@),
                forall|k: int|
                    0 <= k < i ==> {
                        let p = (#[trigger] jails@[k])@;
                        &&& p.name == roots@[k].name@
                        &&& p.name.len() > 0
                        &&& !holds(p.name, "/"@)
                        &&& disk.canonical(roots@[k].path@) == Some(p.dir)
                        &&& disk.is_dir(p.dir)
                    },
                forall|a: int, b: int|
                    0 <= a < b < i ==> roots@[a].name@ != roots@[b].name@,
            decreases roots.len() - i,
        {
            let name = roots[i].name.as_str();
            if name.is_empty() {
                return Err(owned("root name cannot be empty"));
            }
            if contains(name, "/") {
                return Err(cat3("root name `", name, "` cannot contain `/`"));
            }
            if among(&seen, name) {
                return Err(cat3("duplicate root name `", name, "`"));
            }
            proof {
                assert forall|a: int| 0 <= a < i implies roots@[a].name@ != name@ by {
                    assert(views(seen@)[a] == roots@[a].name@);
                }
            }
            let jail = match Jail::new(disk, roots[i].path.as_str()) {
                Ok(j) => j,
                Err(e) => {
                    return Err(e);
                },
            };
            let ghost was = seen@;
            let copy = roots[i].name.clone();
            seen.push(copy);
            jails.push(NamedJail { name: roots[i].name.clone(), jail });
            i = i + 1;
            assert(views(seen@) =~= views(was).push(copy@));
            assert(views(seen@) =~= roots@.take(i as int).map_values(|r: NamedRoot| r.name@));
        }
        let root = FsRoot { jails };
        proof {
            assert forall|k: int| 0 <= k < root@.len() implies #[trigger] root@[k]
                == root.jails@[k]@ by {}
            let ns = place_names(root@);
            assert forall|a: int, b: int| 0 <= a < ns.len() && 0 <= b < ns.len() && a != b implies ns[a]
                != ns[b] by {
                assert(root@[a] == root.jails@[a]@ && root@[b] == root.jails@[b]@);
                assert(ns[a] == roots@[a].name@ && ns[b] == roots@[b].name@);
            }
            assert forall|k: int| 0 <= k < root@.len() implies (#[trigger] root@[k]).name.len() > 0
                && !holds(root@[k].name, "/"@) by {
                assert(root@[k] == root.jails@[k]@);
            }
        }
        Ok(root)
    }

    pub fn len(&self) -> (r: usize)
        ensures
            r == self@.len(),
    {
        self.jails.len()
    }

    /// The name of the jail at index `i`.
    pub fn name_at(&self, i: usize) -> (r: &str)
        requires
            i < self@.len(),
        ensures
            r@ == self@[i as int].name,
    {
        self.jails[i].name.as_str()
    }

    /// The jail at index `i`.
    pub fn jail_at(&self, i: usize) -> (r: &Jail)
        requires
            i < self@.len(),
        ensures
            r.dir() == self@[i as int].dir,
    {
        &self.jails[i].jail
    }

    /// The names of the jails, in order.
    pub fn root_names(&self) -> (r: Vec<String>)
        ensures
            views(r@) == place_names(self@),
    {
        let mut out: Vec<String> = Vec::new();
        let mut i: usize = 0;
        while i < self.jails.len()
            invariant
                i <= self.jails@.len(),
                views(out@) == place_names(self@).take(i as int),
            decreases self.jails.len() - i,
        {
            let ghost was = out@;
            let n = self.jails[i].name.clone();
            out.push(n);
            assert(views(out@) =~= views(was).push(n@));
            assert(place_names(self@)[i as int] == n@);
            i = i + 1;
            assert(place_names(self@).take(i as int) =~= place_names(self@).take(i - 1).push(n@));
        }
        assert(place_names(self@).take(i as int) =~= place_names(self@));
        out
    }

    /// Splits a caller's path into the jail it names and the path within it.
    pub fn locate(&self, rel: &str) -> (r: Result<(usize, Option<String>), String>)
        ensures
            match r {
                Ok((i, sub)) => located(self@, rel@) == Ok::<
                    (int, Option<Seq<char>>),
                    Seq<char>,
                >((i as int, opt_view(sub))) && i < self@.len(),
                Err(e) => located(self@, rel@) == Err::<(int, Option<Seq<char>>), Seq<char>>(e@),
            },
    {
        let trimmed_rel = trim(rel);
        let t = trim_start_matches(trimmed_rel.as_str(), '/');
        let (name, sub) = match split_once(t.as_str(), "/") {
            Some((a, b)) => (a, b),
            None => (t, String::new()),
        };
        let known = join(&self.root_names(), ", ");
        if name.as_str().is_empty() {
            return Err(
                cat3("path must name a root as `<root>/<path>` (roots: ", known.as_str(), ")"),
            );
        }
        proof {
            lemma_place_from(self@, name@, 0);
        }
        let mut i: usize = 0;
        while i < self.jails.len() && !same(self.jails[i].name.as_str(), name.as_str())
            invariant
                i <= self.jails@.len(),
                place_from(self@, name@, 0) == place_from(self@, name@, i as int),
            decreases self.jails.len() - i,
        {
            assert(self@[i as int].name == self.jails@[i as int].name@);
            i = i + 1;
        }
        assert(i < self@.len() ==> self@[i as int].name == self.jails@[i as int].name@);
        if i == self.jails.len() {
            let head = cat3("unknown root `", name.as_str(), "`; known roots: ");
            return Err(cat(head.as_str(), known.as_str()));
        }
        let s = trim(sub.as_str());
        if s.as_str().is_empty() {
            Ok((i, None))
        } else {
            Ok((i, Some(s)))
        }
    }

    /// Resolves a caller's path to an existing canonical path in its jail.
    pub fn resolve_existing(&self, disk: &Disk, rel: Option<&str>) -> (r: Result<String, String>)
        ensures
            text_result(r) == root_resolved(
                disk,
                self@,
                match rel {
                    Some(s) => s@,
                    None => Seq::empty(),
                },
            ),
    {
        let located_at = match rel {
            Some(s) => self.locate(s),
            None => {
                let none = String::new();
                self.locate(none.as_str())
            },
        };
        match located_at {
            Err(e) => Err(e),
            Ok((i, sub)) => {
                let within = match &sub {
                    Some(s) => Some(s.as_str()),
                    None => None,
                };
                self.jail_at(i).resolve_existing(disk, within)
            },
        }
    }

    /// The path that callers are shown for a canonical path: `<name>/<path>`,
    /// or just the name for a root's directory itself.
    pub fn rel_path(&self, path: &str) -> (r: Result<String, String>)
        ensures
            text_result(r) == shown(self@, path@),
    {
        let mut i: usize = 0;
        while i < self.jails.len()
            invariant
                i <= self.jails@.len(),
                owner_from(self@, path@, 0) == owner_from(self@, path@, i as int),
            decreases self.jails.len() - i,
        {
            assert(self@[i as int].dir == self.jails@[i as int].jail.dir());
            if self.jails[i].jail.contains(path) {
                let rel = match self.jails[i].jail.rel_path(path) {
                    Ok(s) => s,
                    Err(e) => {
                        return Err(e);
                    },
                };
                if rel.as_str().is_empty() {
                    return Ok(self.jails[i].name.clone());
                }
                return Ok(cat3(self.jails[i].name.as_str(), "/", rel.as_str()));
            }
            i = i + 1;
        }
        Err(cat3("path ", path, " is not under any tool root"))
    }

    /// The places that a tree operation walks, with the jail of each.
    pub fn walk_targets(&self, disk: &Disk, path: Option<&str>) -> (r: Result<
        Vec<(usize, String)>,
        String,
    >)
        ensures
            match r {
                Ok(v) => {
                    &&& targets(disk, self@, opt_str_view(path)) == Ok::<Seq<Target>, Seq<char>>(
                        targets_view(v@),
                    )
                    &&& forall|k: int| 0 <= k < v@.len() ==> (#[trigger] v@[k]).0 < self@.len()
                },
                Err(e) => targets(disk, self@, opt_str_view(path)) == Err::<
                    Seq<Target>,
                    Seq<char>,
                >(e@),
            },
    {
        let rel = match path {
            Some(p) => trim(p),
            None => String::new(),
        };
        let mut out: Vec<(usize, String)> = Vec::new();
        if rel.as_str().is_empty() {
            let mut i: usize = 0;
            let ghost all = Seq::new(
                self@.len(),
                |i: int| Target { jail: i, start: self@[i].dir },
            );
            while i < self.jails.len()
                invariant
                    i <= self.jails@.len(),
                    all == Seq::new(
                        self@.len(),
                        |i: int| Target { jail: i, start: self@[i].dir },
                    ),
                    targets_view(out@) == all.take(i as int),
                    forall|k: int| 0 <= k < out@.len() ==> (#[trigger] out@[k]).0 < self@.len(),
                decreases self.jails.len() - i,
            {
                let ghost was = out@;
                let d = owned(self.jails[i].jail.root());
                out.push((i, d));
                assert(self@[i as int].dir == self.jails@[i as int].jail.dir());
                assert(targets_view(out@) =~= targets_view(was).push(
                    Target { jail: i as int, start: d@ },
                ));
                i = i + 1;
                assert(all.take(i as int) =~= all.take(i - 1).push(all[i - 1]));
            }
            assert(all.take(i as int) =~= all);
            return Ok(out);
        }
        match self.locate(rel.as_str()) {
            Err(e) => Err(e),
            Ok((i, sub)) => {
                let within = match &sub {
                    Some(s) => Some(s.as_str()),
                    None => None,
                };
                match self.jail_at(i).resolve_existing(disk, within) {
                    Err(e) => Err(e),
                    Ok(c) => {
                        let ghost start = c@;
                        out.push((i, c));
                        assert(targets_view(out@) =~= seq![Target { jail: i as int, start }]);
                        Ok(out)
                    },
                }
            },
        }
    }
}

/// A path names a root and, after a slash, a path in it: the first of that name is
/// meant, and the rest is taken from there.
pub proof fn law_paths_start_with_their_root(
    places: Seq<Place>,
    i: int,
    sub: Seq<char>,
)
    requires
        0 <= i < places.len(),
        places[i].name.len() > 0,
        forall|k: int| 0 <= k < i ==> (#[trigger] places[k]).name != places[i].name,
        forall|k: int| 0 <= k < places[i].name.len() ==> #[trigger] places[i].name[k] != '/',
        sub.len() > 0,
        trimmed(sub) == sub,
        trimmed(places[i].name + "/"@ + sub) == places[i].name + "/"@ + sub,
        trimmed(places[i].name) == places[i].name,
    ensures
        located(places, places[i].name + "/"@ + sub) == Ok::<(int, Option<Seq<char>>), Seq<char>>(
            (i, Some(sub)),
        ),
        located(places, places[i].name) == Ok::<(int, Option<Seq<char>>), Seq<char>>((i, None)),
{
    reveal_strlit("/");
    let name = places[i].name;
    let t = name + "/"@ + sub;
    let p = |c: char| c == '/';
    assert(t[0] == name[0] && !p(t[0]));
    assert(skip_while(t, p) == t);
    assert(skip_while(name, p) == name);
    lemma_place_first(places, name, 0, i);
    crate::split::law_cutting_loses_only_the_pattern(t, "/"@);
    crate::split::law_cutting_loses_only_the_pattern(name, "/"@);
    crate::split::lemma_find(t, "/"@);
    crate::split::lemma_find(name, "/"@);
    assert(t.subrange(name.len() as int, name.len() as int + 1) =~= "/"@);
    assert(crate::split::occurs_at(t, "/"@, name.len() as int));
    let k = crate::split::find(t, "/"@)->0;
    assert(t.subrange(k, k + 1)[0] == '/');
    assert(t[k] == '/');
    assert(k == name.len());
    assert(t.take(k) =~= name);
    assert(t.skip(k + 1) =~= sub);
    if let Some(j) = crate::split::find(name, "/"@) {
        assert(name.subrange(j, j + 1)[0] == '/');
        assert(name[j] == '/');
    }
    lemma_trimmed_empty();
}

proof fn lemma_place_first(places: Seq<Place>, name: Seq<char>, i: int, k: int)
    requires
        0 <= i <= k < places.len(),
        places[k].name == name,
        forall|j: int| i <= j < k ==> (#[trigger] places[j]).name != name,
    ensures
        place_from(places, name, i) == Some(k),
    decreases k - i,
{
    if i < k {
        lemma_place_first(places, name, i + 1, k);
    }
}

/// A path is shown by the root it lies in and the names below, and a root by its
/// name alone.
pub proof fn law_paths_are_shown_from_their_root(places: Seq<Place>, i: int, path: Seq<char>)
    requires
        0 <= i < places.len(),
        under(path, places[i].dir),
        forall|k: int| 0 <= k < i ==> !under(path, (#[trigger] places[k]).dir),
    ensures
        ({
            let rest = below(path, places[i].dir);
            shown(places, path) matches Ok(s) && {
                &&& places[i].name.is_prefix_of(s)
                &&& rest.len() == 0 ==> s == places[i].name
                &&& rest.len() > 0 ==> s.skip(places[i].name.len() as int) == "/"@ + rest
            }
        }),
{
    lemma_owner_first(places, path, 0, i);
    let rest = below(path, places[i].dir);
    let name = places[i].name;
    assert((name + "/"@ + rest).skip(name.len() as int) =~= "/"@ + rest);
}

proof fn lemma_owner_first(places: Seq<Place>, path: Seq<char>, i: int, k: int)
    requires
        0 <= i <= k < places.len(),
        under(path, places[k].dir),
        forall|j: int| i <= j < k ==> !under(path, (#[trigger] places[j]).dir),
    ensures
        owner_from(places, path, i) == Some(k),
    decreases k - i,
{
    if i < k {
        lemma_owner_first(places, path, i + 1, k);
    }
}

/// A file is read as the bytes that stand at its path, and a listing is that of the
/// directory there; what the host refuses is refused.
pub proof fn law_files_hold_their_bytes(disk: &Disk, path: Seq<char>)
    ensures
        disk.fault(path) matches Some(why) ==> disk.held(path) == Err::<Seq<char>, Seq<char>>(why)
            && disk.listing(path) == Err::<Node, Seq<char>>(why),
        disk.fault(path) is None ==> {
            &&& disk.held(path) is Ok <==> (disk.node(path) matches Some(n) && n.kind != Kind::Dir
                && valid_utf8(n.content@))
            &&& disk.listing(path) is Ok <==> (disk.node(path) matches Some(n) && n.kind
                == Kind::Dir)
        },
        disk.held(path) matches Ok(text) ==> vstd::utf8::encode_utf8(text)
            == disk.node(path)->0.content@,
        disk.listing(path) matches Ok(n) ==> disk.node(path) == Some(n),
{
    if let Ok(text) = disk.held(path) {
        vstd::utf8::decode_utf8_encode_utf8(disk.node(path)->0.content@);
    }
}

} // verus!
