//! Walking a jailed directory tree, breadth first.
use vstd::prelude::*;

use super::disk::{DirEntry, Disk, Jail, Node};
use crate::paths::under;
use crate::sorting::{ints, order_of, sort_order};
use crate::split::among;
use crate::text::{cat, owned, views};

verus! {

/// The names of directory entries.
pub open spec fn entry_names(entries: Seq<DirEntry>) -> Seq<Seq<char>> {
    entries.map_values(|e: DirEntry| e.name@)
}

/// The paths that the entries lead to, in the order of the entries' names.
pub open spec fn sorted_targets(entries: Seq<DirEntry>) -> Seq<Option<Seq<char>>> {
    order_of(entry_names(entries)).map_values(
        |i: int| crate::json::opt_view(entries[i].target),
    )
}

/// The paths that the entries of a directory lead to, in the order of the
/// entries' names; none for an entry that leads nowhere.
pub fn read_dir(node: &Node) -> (r: Vec<Option<String>>)
    ensures
        r@.map_values(|t: Option<String>| crate::json::opt_view(t)) == sorted_targets(
            node.entries@,
        ),
{
    let mut names: Vec<String> = Vec::new();
    let mut i: usize = 0;
    assert(views(names@) =~= entry_names(node.entries@).take(0));
    while i < node.entries.len()
        invariant
            i <= node.entries@.len(),
            views(names@) == entry_names(node.entries@).take(i as int),
        decreases node.entries.len() - i,
    {
        let ghost was = names@;
        let n = node.entries[i].name.clone();
        names.push(n);
        assert(views(names@) =~= views(was).push(n@));
        i = i + 1;
        assert(entry_names(node.entries@).take(i as int) =~= entry_names(node.entries@).take(
            i - 1,
        ).push(n@));
    }
    assert(entry_names(node.entries@).take(i as int) =~= entry_names(node.entries@));
    let order = sort_order(&names);
    let mut out: Vec<Option<String>> = Vec::new();
    let ghost all = sorted_targets(node.entries@);
    let mut k: usize = 0;
    while k < order.len()
        invariant
            k <= order@.len(),
            order@.len() == node.entries@.len(),
            forall|j: int| 0 <= j < order@.len() ==> (#[trigger] order@[j]) < node.entries@.len(),
            ints(order@) == order_of(entry_names(node.entries@)),
            all == sorted_targets(node.entries@),
            out@.map_values(|t: Option<String>| crate::json::opt_view(t)) == all.take(k as int),
        decreases order.len() - k,
    {
        let ghost was = out@;
        assert(ints(order@)[k as int] == order@[k as int] as int);
        let t = match &node.entries[order[k]].target {
            Some(s) => Some(s.clone()),
            None => None,
        };
        out.push(t);
        assert(out@.map_values(|t: Option<String>| crate::json::opt_view(t)) =~= was.map_values(
            |t: Option<String>| crate::json::opt_view(t),
        ).push(crate::json::opt_view(t)));
        k = k + 1;
        assert(all.take(k as int) =~= all.take(k - 1).push(all[k - 1]));
    }
    assert(all.take(k as int) =~= all);
    out
}

/// Where a walk stands within one directory: the directories still to visit,
/// the files found, and whether there are as many of them as are wanted.
pub struct Scan {
    pub queue: Seq<Seq<char>>,
    pub found: Seq<Seq<char>>,
    pub full: bool,
}

/// The walk after the entries from index `i` on: directories in the jail are
/// put at the end of the queue, and files in the jail are taken until there
/// are `limit` of them.
pub open spec fn scanned(
    disk: &Disk,
    dir: Seq<char>,
    entries: Seq<Option<Seq<char>>>,
    i: int,
    queue: Seq<Seq<char>>,
    found: Seq<Seq<char>>,
    limit: nat,
) -> Scan
    decreases entries.len() - i,
{
    if i < 0 || i >= entries.len() {
        Scan { queue, found, full: false }
    } else {
        match entries[i] {
            Some(t) => if !under(t, dir) {
                scanned(disk, dir, entries, i + 1, queue, found, limit)
            } else if disk.is_dir(t) {
                scanned(disk, dir, entries, i + 1, queue.push(t), found, limit)
            } else if disk.is_file(t) {
                if found.len() + 1 >= limit {
                    Scan { queue, found: found.push(t), full: true }
                } else {
                    scanned(disk, dir, entries, i + 1, queue, found.push(t), limit)
                }
            } else {
                scanned(disk, dir, entries, i + 1, queue, found, limit)
            },
            None => scanned(disk, dir, entries, i + 1, queue, found, limit),
        }
    }
}

/// How many directories a walk for `limit` files may visit.
pub open spec fn visit_bound(limit: nat) -> nat {
    let four = if 4 * limit > usize::MAX {
        usize::MAX as nat
    } else {
        4 * limit
    };
    if four < 64 {
        64
    } else {
        four
    }
}

/// The files found by a walk that has `queue` left to visit.
pub open spec fn walked(
    disk: &Disk,
    dir: Seq<char>,
    queue: Seq<Seq<char>>,
    visited: Seq<Seq<char>>,
    found: Seq<Seq<char>>,
    limit: nat,
) -> Result<Seq<Seq<char>>, Seq<char>>
    decreases visit_bound(limit) + 1 - visited.len(), queue.len(),
{
    if queue.len() == 0 {
        Ok(found)
    } else {
        let d = queue[0];
        let rest = queue.skip(1);
        if visited.contains(d) {
            walked(disk, dir, rest, visited, found, limit)
        } else if visited.len() + 1 > visit_bound(limit) {
            Err("directory visit limit exceeded"@)
        } else {
            match disk.listing(d) {
                Err(_) => Err("listing "@ + d),
                Ok(n) => {
                    let s = scanned(
                        disk,
                        dir,
                        sorted_targets(n.entries@),
                        0,
                        rest,
                        found,
                        limit,
                    );
                    if s.full {
                        Ok(s.found)
                    } else {
                        walked(disk, dir, s.queue, visited.push(d), s.found, limit)
                    }
                },
            }
        }
    }
}

/// The first `limit` files below `start` that lie in the jail at `dir`,
/// directory by directory from the top, in the order of their names.
pub open spec fn files_below(disk: &Disk, dir: Seq<char>, start: Seq<char>, limit: nat) -> Result<
    Seq<Seq<char>>,
    Seq<char>,
> {
    walked(disk, dir, seq![start], Seq::empty(), Seq::empty(), limit)
}

/// Every path is a file in the jail.
pub open spec fn all_inside(disk: &Disk, dir: Seq<char>, paths: Seq<Seq<char>>) -> bool {
    forall|i: int|
        0 <= i < paths.len() ==> under(#[trigger] paths[i], dir) && disk.is_file(paths[i])
}

proof fn lemma_scan_inside(
    disk: &Disk,
    dir: Seq<char>,
    entries: Seq<Option<Seq<char>>>,
    i: int,
    queue: Seq<Seq<char>>,
    found: Seq<Seq<char>>,
    limit: nat,
)
    requires
        all_inside(disk, dir, found),
        found.len() < limit,
    ensures
        ({
            let s = scanned(disk, dir, entries, i, queue, found, limit);
            &&& all_inside(disk, dir, s.found)
            &&& s.found.len() <= limit
            &&& !s.full ==> s.found.len() < limit
        }),
    decreases entries.len() - i,
{
    if 0 <= i < entries.len() {
        match entries[i] {
            Some(t) => {
                if !under(t, dir) {
                    lemma_scan_inside(disk, dir, entries, i + 1, queue, found, limit);
                } else if disk.is_dir(t) {
                    lemma_scan_inside(disk, dir, entries, i + 1, queue.push(t), found, limit);
                } else if disk.is_file(t) {
                    assert(all_inside(disk, dir, found.push(t)));
                    if found.len() + 1 < limit {
                        lemma_scan_inside(disk, dir, entries, i + 1, queue, found.push(t), limit);
                    }
                } else {
                    lemma_scan_inside(disk, dir, entries, i + 1, queue, found, limit);
                }
            },
            None => {
                lemma_scan_inside(disk, dir, entries, i + 1, queue, found, limit);
            },
        }
    }
}

proof fn lemma_walk_inside(
    disk: &Disk,
    dir: Seq<char>,
    queue: Seq<Seq<char>>,
    visited: Seq<Seq<char>>,
    found: Seq<Seq<char>>,
    limit: nat,
)
    requires
        all_inside(disk, dir, found),
        found.len() < limit,
    ensures
        walked(disk, dir, queue, visited, found, limit) matches Ok(out) ==> all_inside(
            disk,
            dir,
            out,
        ) && out.len() <= limit,
    decreases visit_bound(limit) + 1 - visited.len(), queue.len(),
{
    if queue.len() > 0 {
        let d = queue[0];
        let rest = queue.skip(1);
        if visited.contains(d) {
            lemma_walk_inside(disk, dir, rest, visited, found, limit);
        } else if visited.len() + 1 <= visit_bound(limit) {
            match disk.listing(d) {
                Err(_) => {},
                Ok(n) => {
                    let es = sorted_targets(n.entries@);
                    lemma_scan_inside(disk, dir, es, 0, rest, found, limit);
                    let s = scanned(disk, dir, es, 0, rest, found, limit);
                    if !s.full {
                        lemma_walk_inside(disk, dir, s.queue, visited.push(d), s.found, limit);
                    }
                },
            }
        }
    }
}

/// A walk finds only files that lie in the jail, and at most as many as asked
/// for, whatever the directory entries lead to.
pub proof fn law_walks_stay_in_the_jail(
    disk: &Disk,
    dir: Seq<char>,
    start: Seq<char>,
    limit: nat,
)
    requires
        limit > 0,
    ensures
        files_below(disk, dir, start, limit) matches Ok(out) ==> all_inside(disk, dir, out)
            && out.len() <= limit,
{
    lemma_walk_inside(disk, dir, seq![start], Seq::empty(), Seq::empty(), limit);
}

/// The view of a result that is a list of texts or an error text.
pub open spec fn list_result(r: Result<Vec<String>, String>) -> Result<Seq<Seq<char>>, Seq<char>> {
    match r {
        Ok(v) => Ok(views(v@)),
        Err(e) => Err(e@),
    }
}

/// A copy of `list` without its first element.
fn tail(list: &Vec<String>) -> (r: Vec<String>)
    requires
        list@.len() > 0,
    ensures
        views(r@) == views(list@).skip(1),
{
    let mut out: Vec<String> = Vec::new();
    let mut i: usize = 1;
    while i < list.len()
        invariant
            1 <= i <= list@.len(),
            views(out@) =~= views(list@).subrange(1, i as int),
        decreases list.len() - i,
    {
        let ghost was = out@;
        let s = list[i].clone();
        out.push(s);
        assert(views(out@) =~= views(was).push(s@));
        i = i + 1;
    }
    assert(views(out@) =~= views(list@).skip(1));
    out
}

/// The first `limit` files below `start` that lie in the jail.
pub fn walk_files(disk: &Disk, jail: &Jail, start: &str, limit: usize) -> (r: Result<
    Vec<String>,
    String,
>)
    ensures
        list_result(r) == files_below(disk, jail.dir(), start@, limit as nat),
{
    let ghost dir = jail.dir();
    let mut bound: usize = if limit > usize::MAX / 4 {
        usize::MAX
    } else {
        limit * 4
    };
    if bound < 64 {
        bound = 64;
    }
    assert(bound == visit_bound(limit as nat));
    let mut found: Vec<String> = Vec::new();
    let mut queue: Vec<String> = Vec::new();
    queue.push(owned(start));
    let mut visited: Vec<String> = Vec::new();
    assert(views(queue@) =~= seq![start@]);
    assert(views(visited@) =~= Seq::<Seq<char>>::empty());
    assert(views(found@) =~= Seq::<Seq<char>>::empty());
    while queue.len() > 0
        invariant
            dir == jail.dir(),
            bound == visit_bound(limit as nat),
            visited@.len() <= bound,
            files_below(disk, dir, start@, limit as nat) == walked(
                disk,
                dir,
                views(queue@),
                views(visited@),
                views(found@),
                limit as nat,
            ),
        decreases bound + 1 - visited@.len(), queue@.len(),
    {
        let d = queue[0].clone();
        let rest = tail(&queue);
        assert(views(queue@)[0] == d@);
        if among(&visited, d.as_str()) {
            queue = rest;
            continue;
        }
        if visited.len() >= bound {
            return Err(owned("directory visit limit exceeded"));
        }
        let node = match disk.list(d.as_str()) {
            Err(_) => {
                return Err(cat("listing ", d.as_str()));
            },
            Ok(n) => n,
        };
        let ghost was = visited@;
        let ghost dv = d@;
        visited.push(d);
        assert(views(visited@) =~= views(was).push(dv));
        let entries = read_dir(node);
        queue = rest;
        let ghost es = entries@.map_values(|t: Option<String>| crate::json::opt_view(t));
        let ghost goal = scanned(disk, dir, es, 0, views(queue@), views(found@), limit as nat);
        let mut i: usize = 0;
        while i < entries.len()
            invariant
                dir == jail.dir(),
                i <= entries@.len(),
                es == entries@.map_values(|t: Option<String>| crate::json::opt_view(t)),
                goal == scanned(
                    disk,
                    dir,
                    es,
                    i as int,
                    views(queue@),
                    views(found@),
                    limit as nat,
                ),
                goal.full ==> files_below(disk, dir, start@, limit as nat) == Ok::<
                    Seq<Seq<char>>,
                    Seq<char>,
                >(goal.found),
            decreases entries.len() - i,
        {
            assert(es[i as int] == crate::json::opt_view(entries@[i as int]));
            match &entries[i] {
                None => {},
                Some(t) => {
                    if jail.contains(t.as_str()) {
                        if disk.dir(t.as_str()) {
                            let ghost was_q = queue@;
                            queue.push(t.clone());
                            assert(views(queue@) =~= views(was_q).push(t@));
                        } else if disk.file(t.as_str()) {
                            let ghost was_f = found@;
                            found.push(t.clone());
                            assert(views(found@) =~= views(was_f).push(t@));
                            if found.len() >= limit {
                                return Ok(found);
                            }
                        }
                    }
                },
            }
            i = i + 1;
        }
    }
    Ok(found)
}

/// Everything that the entries of the directory at `d` lead to in the jail is
/// taken up: its files are found, and its directories are among those visited.
pub open spec fn taken_up(
    disk: &Disk,
    dir: Seq<char>,
    d: Seq<char>,
    seen: Seq<Seq<char>>,
    found: Seq<Seq<char>>,
) -> bool {
    disk.listing(d) matches Ok(n) && forall|k: int|
        0 <= k < n.entries@.len() ==> (crate::json::opt_view(
            (#[trigger] n.entries@[k]).target,
        ) matches Some(t) ==> (under(t, dir) ==> (disk.is_dir(t) ==> seen.contains(t)) && (
        disk.is_file(t) ==> found.contains(t))))
}

proof fn lemma_scan_complete(
    disk: &Disk,
    dir: Seq<char>,
    entries: Seq<Option<Seq<char>>>,
    i: int,
    queue: Seq<Seq<char>>,
    found: Seq<Seq<char>>,
    limit: nat,
)
    requires
        0 <= i <= entries.len(),
    ensures
        ({
            let s = scanned(disk, dir, entries, i, queue, found, limit);
            &&& !s.full ==> queue.is_prefix_of(s.queue) && found.is_prefix_of(s.found)
            &&& !s.full ==> forall|k: int|
                i <= k < entries.len() ==> ((#[trigger] entries[k]) matches Some(t) ==> (under(
                    t,
                    dir,
                ) ==> (disk.is_dir(t) ==> s.queue.contains(t)) && (disk.is_file(t)
                    ==> s.found.contains(t))))
        }),
    decreases entries.len() - i,
{
    if i < entries.len() {
        let s = scanned(disk, dir, entries, i, queue, found, limit);
        match entries[i] {
            Some(t) => {
                if !under(t, dir) {
                    lemma_scan_complete(disk, dir, entries, i + 1, queue, found, limit);
                } else if disk.is_dir(t) {
                    lemma_scan_complete(disk, dir, entries, i + 1, queue.push(t), found, limit);
                    if !s.full {
                        assert(s.queue[queue.len() as int] == queue.push(t)[queue.len() as int]);
                        assert(queue.is_prefix_of(s.queue)) by {
                            assert forall|x: int| 0 <= x < queue.len() implies queue[x]
                                == s.queue[x] by {
                                assert(queue.push(t)[x] == s.queue[x]);
                            }
                        }
                    }
                } else if disk.is_file(t) {
                    if found.len() + 1 < limit {
                        lemma_scan_complete(disk, dir, entries, i + 1, queue, found.push(t), limit);
                        if !s.full {
                            assert(s.found[found.len() as int] == found.push(t)[found.len() as int]);
                            assert forall|x: int| 0 <= x < found.len() implies found[x]
                                == s.found[x] by {
                                assert(found.push(t)[x] == s.found[x]);
                            }
                        }
                    }
                } else {
                    lemma_scan_complete(disk, dir, entries, i + 1, queue, found, limit);
                }
            },
            None => {
                lemma_scan_complete(disk, dir, entries, i + 1, queue, found, limit);
            },
        }
    }
}

proof fn lemma_sorted_targets(entries: Seq<DirEntry>, k: int)
    requires
        0 <= k < entries.len(),
    ensures
        exists|j: int|
            0 <= j < sorted_targets(entries).len() && #[trigger] sorted_targets(entries)[j]
                == crate::json::opt_view(entries[k].target),
{
    let order = order_of(entry_names(entries));
    crate::sorting::law_order(entry_names(entries));
    crate::sorting::law_the_order_leaves_nothing_out(entry_names(entries), k);
    let j = order.index_of(k);
    assert(sorted_targets(entries)[j] == crate::json::opt_view(entries[k].target));
}

proof fn lemma_taken_up_grows(
    disk: &Disk,
    dir: Seq<char>,
    d: Seq<char>,
    a: Seq<Seq<char>>,
    b: Seq<Seq<char>>,
    found: Seq<Seq<char>>,
    more: Seq<Seq<char>>,
)
    requires
        taken_up(disk, dir, d, a, found),
        forall|x: Seq<char>| a.contains(x) ==> #[trigger] b.contains(x),
        found.is_prefix_of(more),
    ensures
        taken_up(disk, dir, d, b, more),
{
    if let Ok(n) = disk.listing(d) {
        assert forall|k: int| 0 <= k < n.entries@.len() implies (crate::json::opt_view(
            (#[trigger] n.entries@[k]).target,
        ) matches Some(t) ==> (under(t, dir) ==> (disk.is_dir(t) ==> b.contains(t)) && (
        disk.is_file(t) ==> more.contains(t)))) by {
            if let Some(t) = crate::json::opt_view(n.entries@[k].target) {
                if found.contains(t) {
                    let x = found.index_of(t);
                    assert(more[x] == t);
                }
            }
        }
    }
}

proof fn lemma_walk_complete(
    disk: &Disk,
    dir: Seq<char>,
    queue: Seq<Seq<char>>,
    visited: Seq<Seq<char>>,
    found: Seq<Seq<char>>,
    limit: nat,
) -> (seen: Seq<Seq<char>>)
    requires
        found.len() < limit,
        forall|i: int|
            0 <= i < visited.len() ==> taken_up(
                disk,
                dir,
                #[trigger] visited[i],
                visited + queue,
                found,
            ),
    ensures
        walked(disk, dir, queue, visited, found, limit) matches Ok(out) ==> (out.len() < limit ==> {
            &&& forall|x: Seq<char>| (visited + queue).contains(x) ==> #[trigger] seen.contains(x)
            &&& forall|i: int|
                0 <= i < seen.len() ==> taken_up(disk, dir, #[trigger] seen[i], seen, out)
        }),
    decreases visit_bound(limit) + 1 - visited.len(), queue.len(),
{
    if queue.len() == 0 {
        assert(visited + queue =~= visited);
        visited
    } else {
        let d = queue[0];
        let rest = queue.skip(1);
        let both = visited + queue;
        if visited.contains(d) {
            let fewer = visited + rest;
            assert forall|x: Seq<char>| both.contains(x) <==> #[trigger] fewer.contains(x) by {
                if both.contains(x) {
                    let j = both.index_of(x);
                    if j < visited.len() {
                        assert(fewer[j] == x);
                    } else if j == visited.len() {
                        let y = visited.index_of(d);
                        assert(fewer[y] == x);
                    } else {
                        assert(fewer[j - 1] == x);
                    }
                }
                if fewer.contains(x) {
                    let j = fewer.index_of(x);
                    if j < visited.len() {
                        assert(both[j] == x);
                    } else {
                        assert(both[j + 1] == x);
                    }
                }
            }
            assert forall|i: int| 0 <= i < visited.len() implies taken_up(
                disk,
                dir,
                #[trigger] visited[i],
                fewer,
                found,
            ) by {
                lemma_taken_up_grows(disk, dir, visited[i], both, fewer, found, found);
            }
            let seen = lemma_walk_complete(disk, dir, rest, visited, found, limit);
            if let Ok(out) = walked(disk, dir, queue, visited, found, limit) {
                if out.len() < limit {
                    assert forall|x: Seq<char>| both.contains(x) implies #[trigger] seen.contains(
                        x,
                    ) by {
                        assert(fewer.contains(x));
                    }
                }
            }
            seen
        } else if visited.len() + 1 > visit_bound(limit) {
            Seq::empty()
        } else {
            match disk.listing(d) {
                Err(_) => Seq::empty(),
                Ok(n) => {
                    let es = sorted_targets(n.entries@);
                    let s = scanned(disk, dir, es, 0, rest, found, limit);
                    lemma_scan_inside_len(disk, dir, es, 0, rest, found, limit);
                    if s.full {
                        Seq::empty()
                    } else {
                        lemma_scan_complete(disk, dir, es, 0, rest, found, limit);
                        let v = visited.push(d);
                        let now = v + s.queue;
                        assert forall|x: Seq<char>| both.contains(x) implies #[trigger] now.contains(
                            x,
                        ) by {
                            let j = both.index_of(x);
                            if j <= visited.len() {
                                assert(now[j] == x);
                            } else {
                                assert(rest[j - visited.len() - 1] == x);
                                assert(s.queue[j - visited.len() - 1] == x);
                                assert(now[j] == x);
                            }
                        }
                        assert forall|i: int| 0 <= i < v.len() implies taken_up(
                            disk,
                            dir,
                            #[trigger] v[i],
                            now,
                            s.found,
                        ) by {
                            if i < visited.len() {
                                assert(v[i] == visited[i]);
                                lemma_taken_up_grows(
                                    disk,
                                    dir,
                                    visited[i],
                                    both,
                                    now,
                                    found,
                                    s.found,
                                );
                            } else {
                                assert forall|k: int| 0 <= k < n.entries@.len() implies (
                                crate::json::opt_view(
                                    (#[trigger] n.entries@[k]).target,
                                ) matches Some(t) ==> (under(t, dir) ==> (disk.is_dir(t)
                                    ==> now.contains(t)) && (disk.is_file(t) ==> s.found.contains(
                                    t,
                                )))) by {
                                    lemma_sorted_targets(n.entries@, k);
                                    let j = choose|j: int|
                                        0 <= j < es.len() && #[trigger] es[j]
                                            == crate::json::opt_view(n.entries@[k].target);
                                    if let Some(t) = es[j] {
                                        if under(t, dir) && disk.is_dir(t) {
                                            let q = s.queue.index_of(t);
                                            assert(now[v.len() + q] == t);
                                        }
                                    }
                                }
                            }
                        }
                        let seen = lemma_walk_complete(disk, dir, s.queue, v, s.found, limit);
                        if let Ok(out) = walked(disk, dir, queue, visited, found, limit) {
                            if out.len() < limit {
                                assert forall|x: Seq<char>| both.contains(x) implies #[trigger]
                                seen.contains(x) by {
                                    assert(now.contains(x));
                                }
                            }
                        }
                        seen
                    }
                },
            }
        }
    }
}

proof fn lemma_scan_inside_len(
    disk: &Disk,
    dir: Seq<char>,
    entries: Seq<Option<Seq<char>>>,
    i: int,
    queue: Seq<Seq<char>>,
    found: Seq<Seq<char>>,
    limit: nat,
)
    requires
        found.len() < limit,
    ensures
        ({
            let s = scanned(disk, dir, entries, i, queue, found, limit);
            &&& s.full ==> s.found.len() >= limit
            &&& !s.full ==> s.found.len() < limit
        }),
    decreases entries.len() - i,
{
    if 0 <= i < entries.len() {
        match entries[i] {
            Some(t) => {
                if !under(t, dir) {
                    lemma_scan_inside_len(disk, dir, entries, i + 1, queue, found, limit);
                } else if disk.is_dir(t) {
                    lemma_scan_inside_len(disk, dir, entries, i + 1, queue.push(t), found, limit);
                } else if disk.is_file(t) {
                    if found.len() + 1 < limit {
                        lemma_scan_inside_len(
                            disk,
                            dir,
                            entries,
                            i + 1,
                            queue,
                            found.push(t),
                            limit,
                        );
                    }
                } else {
                    lemma_scan_inside_len(disk, dir, entries, i + 1, queue, found, limit);
                }
            },
            None => {
                lemma_scan_inside_len(disk, dir, entries, i + 1, queue, found, limit);
            },
        }
    }
}

/// A walk that finds fewer files than it was asked for misses none: it visited
/// the start, and of every directory that it visited it found all files and
/// visited all directories that lie in the jail.
pub proof fn law_walks_miss_nothing(disk: &Disk, dir: Seq<char>, start: Seq<char>, limit: nat)
    requires
        limit > 0,
    ensures
        files_below(disk, dir, start, limit) matches Ok(out) ==> (out.len() < limit ==> exists|
            seen: Seq<Seq<char>>,
        |
            #[trigger] seen.contains(start) && forall|i: int|
                0 <= i < seen.len() ==> taken_up(disk, dir, #[trigger] seen[i], seen, out)),
{
    let queue = seq![start];
    let none = Seq::<Seq<char>>::empty();
    let seen = lemma_walk_complete(disk, dir, queue, none, none, limit);
    assert((none + queue)[0] == start);
    assert((none + queue).contains(start));
    if let Ok(out) = files_below(disk, dir, start, limit) {
        if out.len() < limit {
            assert(seen.contains(start));
        }
    }
}

} // verus!
