//! Slash-separated paths, as their text.
use vstd::prelude::*;

use crate::split::{join, joined, pieces, split};
use crate::text::{chars_of, owned, same, text_range, views};

verus! {

/// One component of a path.
#[derive(Debug)]
pub enum Component {
    RootDir,
    CurDir,
    ParentDir,
    Normal(String),
}

/// What a [`Component`] denotes.
pub enum Part {
    Root,
    Cur,
    Parent,
    Normal(Seq<char>),
}

impl View for Component {
    type V = Part;

    open spec fn view(&self) -> Part {
        match self {
            Component::RootDir => Part::Root,
            Component::CurDir => Part::Cur,
            Component::ParentDir => Part::Parent,
            Component::Normal(s) => Part::Normal(s@),
        }
    }
}

pub open spec fn parts_view(s: Seq<Component>) -> Seq<Part> {
    s.map_values(|c: Component| c@)
}

/// The path starts at the root of the file system.
pub open spec fn absolute(path: Seq<char>) -> bool {
    path.len() > 0 && path[0] == '/'
}

/// The component that one piece between slashes stands for. Empty pieces stand
/// for none, and a single dot only where it opens the path.
pub open spec fn part_of(piece: Seq<char>, first: bool) -> Seq<Part> {
    if piece.len() == 0 {
        Seq::empty()
    } else if piece == "."@ {
        if first {
            seq![Part::Cur]
        } else {
            Seq::empty()
        }
    } else if piece == ".."@ {
        seq![Part::Parent]
    } else {
        seq![Part::Normal(piece)]
    }
}

/// The components of the first `n` pieces.
pub open spec fn parts_of(ps: Seq<Seq<char>>, n: int) -> Seq<Part>
    decreases n,
{
    if n <= 0 {
        Seq::empty()
    } else {
        parts_of(ps, n - 1) + part_of(ps[n - 1], n == 1)
    }
}

/// The components of a path.
pub open spec fn components_of(path: Seq<char>) -> Seq<Part> {
    let ps = pieces(path, '/');
    let rest = parts_of(ps, ps.len() as int);
    if absolute(path) {
        seq![Part::Root] + rest
    } else {
        rest
    }
}

pub fn is_absolute(path: &str) -> (r: bool)
    ensures
        r == absolute(path@),
{
    let v = chars_of(path);
    v.len() > 0 && v[0] == '/'
}

/// The components of a path, in order.
pub fn components(path: &str) -> (r: Vec<Component>)
    ensures
        parts_view(r@) == components_of(path@),
{
    let ps = split(path, '/');
    let mut out: Vec<Component> = Vec::new();
    let ghost mut lead: Seq<Part> = Seq::empty();
    if is_absolute(path) {
        out.push(Component::RootDir);
        proof {
            lead = seq![Part::Root];
        }
    }
    assert(parts_view(out@) =~= lead);
    let mut i: usize = 0;
    assert(lead + parts_of(views(ps@), 0) =~= lead);
    while i < ps.len()
        invariant
            i <= ps@.len(),
            parts_view(out@) == lead + parts_of(views(ps@), i as int),
        decreases ps.len() - i,
    {
        let ghost was = parts_view(out@);
        let ghost next = part_of(views(ps@)[i as int], i == 0);
        let piece = ps[i].as_str();
        if piece.is_empty() {
            assert(parts_view(out@) =~= was + next);
        } else if same(piece, ".") {
            if i == 0 {
                out.push(Component::CurDir);
            }
            assert(parts_view(out@) =~= was + next);
        } else if same(piece, "..") {
            out.push(Component::ParentDir);
            assert(parts_view(out@) =~= was + next);
        } else {
            out.push(Component::Normal(ps[i].clone()));
            assert(parts_view(out@) =~= was + next);
        }
        i = i + 1;
        assert(parts_of(views(ps@), i as int) == parts_of(views(ps@), i - 1) + next);
        assert(was + next =~= lead + (parts_of(views(ps@), i - 1) + next));
    }
    out
}

/// Whether two components are the same.
pub fn same_component(a: &Component, b: &Component) -> (r: bool)
    ensures
        r == (a@ == b@),
{
    match (a, b) {
        (Component::RootDir, Component::RootDir) => true,
        (Component::CurDir, Component::CurDir) => true,
        (Component::ParentDir, Component::ParentDir) => true,
        (Component::Normal(x), Component::Normal(y)) => same(x.as_str(), y.as_str()),
        _ => false,
    }
}

/// The components of `base` open the path `path`.
pub open spec fn under(path: Seq<char>, base: Seq<char>) -> bool {
    components_of(base).is_prefix_of(components_of(path))
}

/// Whether `path` is `base` or lies below it, component by component.
pub fn is_under(path: &str, base: &str) -> (r: bool)
    ensures
        r == under(path@, base@),
{
    let p = components(path);
    let b = components(base);
    let ghost pv = parts_view(p@);
    let ghost bv = parts_view(b@);
    if b.len() > p.len() {
        return false;
    }
    let mut i: usize = 0;
    while i < b.len()
        invariant
            i <= b@.len() <= p@.len(),
            pv == parts_view(p@),
            bv == parts_view(b@),
            pv == components_of(path@),
            bv == components_of(base@),
            forall|k: int| 0 <= k < i ==> pv[k] == bv[k],
        decreases b.len() - i,
    {
        if !same_component(&p[i], &b[i]) {
            assert(pv[i as int] != bv[i as int]);
            assert(bv.is_prefix_of(pv) ==> pv.subrange(0, bv.len() as int)[i as int]
                == bv[i as int]);
            return false;
        }
        i = i + 1;
    }
    assert(bv =~= pv.subrange(0, bv.len() as int));
    true
}

/// The names among components, in order.
pub open spec fn names_of(parts: Seq<Part>) -> Seq<Seq<char>>
    decreases parts.len(),
{
    if parts.len() == 0 {
        Seq::empty()
    } else {
        match parts.last() {
            Part::Normal(s) => names_of(parts.drop_last()).push(s),
            _ => names_of(parts.drop_last()),
        }
    }
}

/// The names among the components from index `from` on, with slashes between.
pub fn slashed_from(parts: &Vec<Component>, from: usize) -> (r: String)
    requires
        from <= parts@.len(),
    ensures
        r@ == joined(names_of(parts_view(parts@).skip(from as int)), "/"@),
{
    let mut names: Vec<String> = Vec::new();
    let ghost all = parts_view(parts@).skip(from as int);
    let mut i: usize = from;
    assert(views(names@) =~= names_of(all.take(0)));
    while i < parts.len()
        invariant
            from <= i <= parts@.len(),
            all == parts_view(parts@).skip(from as int),
            views(names@) == names_of(all.take(i - from)),
        decreases parts.len() - i,
    {
        let ghost was = names@;
        assert(all.take(i - from + 1).drop_last() =~= all.take(i - from));
        assert(all.take(i - from + 1).last() == parts@[i as int]@);
        match &parts[i] {
            Component::Normal(s) => {
                let name = s.clone();
                names.push(name);
                assert(views(names@) =~= views(was).push(name@));
            },
            _ => {},
        }
        i = i + 1;
    }
    assert(all.take(i - from) =~= all);
    join(&names, "/")
}

/// The names of a path.
pub fn path_names(path: &str) -> (r: Vec<String>)
    ensures
        views(r@) == names_of(components_of(path@)),
{
    let parts = components(path);
    let ghost all = parts_view(parts@);
    let mut names: Vec<String> = Vec::new();
    let mut i: usize = 0;
    assert(views(names@) =~= names_of(all.take(0)));
    while i < parts.len()
        invariant
            i <= parts@.len(),
            all == parts_view(parts@),
            views(names@) == names_of(all.take(i as int)),
        decreases parts.len() - i,
    {
        let ghost was = names@;
        assert(all.take(i + 1).drop_last() =~= all.take(i as int));
        assert(all.take(i + 1).last() == parts@[i as int]@);
        if let Component::Normal(s) = &parts[i] {
            let name = s.clone();
            names.push(name);
            assert(views(names@) =~= views(was).push(name@));
        }
        i = i + 1;
    }
    assert(all.take(i as int) =~= all);
    names
}

/// The names of a path with slashes between them.
pub open spec fn slashed(path: Seq<char>) -> Seq<char> {
    joined(names_of(components_of(path)), "/"@)
}

/// The names of a path with slashes between them; other components are left out.
pub fn path_to_slash(path: &str) -> (r: String)
    ensures
        r@ == slashed(path@),
{
    let p = components(path);
    assert(parts_view(p@).skip(0) =~= parts_view(p@));
    slashed_from(&p, 0)
}

/// The names of `path` below `base`, with slashes between them.
pub open spec fn below(path: Seq<char>, base: Seq<char>) -> Seq<char> {
    joined(names_of(components_of(path).skip(components_of(base).len() as int)), "/"@)
}

/// The slash-separated names of `path` below `base`, where it lies there.
pub fn relative_to(path: &str, base: &str) -> (r: Option<String>)
    ensures
        match r {
            Some(s) => under(path@, base@) && s@ == below(path@, base@),
            None => !under(path@, base@),
        },
{
    if !is_under(path, base) {
        return None;
    }
    let p = components(path);
    let n: usize = components(base).len();
    Some(slashed_from(&p, n))
}

/// `s` without the separators and the `.` components that it starts with.
pub open spec fn unled(s: Seq<char>) -> Seq<char>
    decreases s.len(),
{
    if s.len() > 0 && s[0] == '/' {
        unled(s.skip(1))
    } else if s.len() > 0 && s[0] == '.' && (s.len() == 1 || s[1] == '/') {
        unled(s.skip(1))
    } else {
        s
    }
}

/// `s` without the separators and the `.` components that it ends with.
pub open spec fn untrailed(s: Seq<char>) -> Seq<char>
    decreases s.len(),
{
    if s.len() > 0 && s.last() == '/' {
        untrailed(s.drop_last())
    } else if s.len() > 0 && s.last() == '.' && (s.len() == 1 || s[s.len() - 2] == '/') {
        untrailed(s.drop_last())
    } else {
        s
    }
}

/// The text from index `from` on, without the separators and the `.` components
/// at either end.
pub fn trim_components(path: &str, from: usize) -> (r: String)
    requires
        from <= path@.len(),
    ensures
        r@ == untrailed(unled(path@.skip(from as int))),
{
    let v = chars_of(path);
    let mut a: usize = from;
    while a < v.len() && (v[a] == '/' || (v[a] == '.' && (a + 1 == v.len() || v[a + 1] == '/')))
        invariant
            v@ == path@,
            from <= a <= v@.len(),
            unled(path@.skip(from as int)) == unled(path@.skip(a as int)),
        decreases v.len() - a,
    {
        assert(path@.skip(a as int).skip(1) =~= path@.skip(a + 1));
        a = a + 1;
    }
    let ghost rest = path@.skip(a as int);
    assert(unled(rest) == rest);
    let mut b: usize = v.len();
    assert(rest =~= path@.subrange(a as int, b as int));
    while a < b && (v[b - 1] == '/' || (v[b - 1] == '.' && (b - a == 1 || v[b - 2] == '/')))
        invariant
            v@ == path@,
            a <= b <= v@.len(),
            untrailed(rest) == untrailed(path@.subrange(a as int, b as int)),
        decreases b,
    {
        assert(path@.subrange(a as int, b as int).drop_last() =~= path@.subrange(
            a as int,
            b - 1,
        ));
        b = b - 1;
    }
    text_range(&v, a, b)
}

/// `rel` taken from the directory `base`: an absolute path stands for itself.
pub open spec fn path_join(base: Seq<char>, rel: Seq<char>) -> Seq<char> {
    if absolute(rel) || base.len() == 0 {
        rel
    } else if base.last() == '/' {
        base + rel
    } else {
        base + "/"@ + rel
    }
}

pub fn join_path(base: &str, rel: &str) -> (r: String)
    ensures
        r@ == path_join(base@, rel@),
{
    if is_absolute(rel) || base.is_empty() {
        return owned(rel);
    }
    let v = chars_of(base);
    let mut s = owned(base);
    if v[v.len() - 1] != '/' {
        s.append("/");
    }
    s.append(rel);
    s
}

/// The name a path ends in, where its last component is a name.
pub open spec fn file_name_of(path: Seq<char>) -> Option<Seq<char>> {
    let parts = components_of(path);
    if parts.len() == 0 {
        None
    } else {
        match parts.last() {
            Part::Normal(s) => Some(s),
            _ => None,
        }
    }
}

pub fn file_name(path: &str) -> (r: Option<String>)
    ensures
        crate::json::opt_view(r) == file_name_of(path@),
{
    let p = components(path);
    if p.len() == 0 {
        return None;
    }
    assert(parts_view(p@).last() == p@.last()@);
    match &p[p.len() - 1] {
        Component::Normal(s) => Some(s.clone()),
        _ => None,
    }
}

/// The index of the last character of `s` below `n` that equals `c`.
pub open spec fn last_index(s: Seq<char>, c: char, n: int) -> Option<int>
    decreases n,
{
    if n <= 0 {
        None
    } else if s[n - 1] == c {
        Some(n - 1)
    } else {
        last_index(s, c, n - 1)
    }
}

/// What stands after the last dot of a file name, unless that dot opens it.
pub open spec fn extension_of(path: Seq<char>) -> Option<Seq<char>> {
    match file_name_of(path) {
        Some(name) => match last_index(name, '.', name.len() as int) {
            Some(i) => if i > 0 {
                Some(name.skip(i + 1))
            } else {
                None
            },
            None => None,
        },
        None => None,
    }
}

pub fn extension(path: &str) -> (r: Option<String>)
    ensures
        crate::json::opt_view(r) == extension_of(path@),
{
    let name = match file_name(path) {
        Some(n) => n,
        None => {
            return None;
        },
    };
    let v = chars_of(name.as_str());
    let mut i: usize = v.len();
    while i > 0 && v[i - 1] != '.'
        invariant
            i <= v@.len(),
            last_index(v@, '.', v@.len() as int) == last_index(v@, '.', i as int),
        decreases i,
    {
        i = i - 1;
    }
    if i <= 1 {
        return None;
    }
    assert(v@.subrange(i as int, v@.len() as int) =~= v@.skip(i as int));
    Some(text_range(&v, i, v.len()))
}

/// A path whose components are all names, or dots for the current directory,
/// has no way up out of the directory it is taken from.
pub open spec fn stays_inside(path: Seq<char>) -> bool {
    forall|i: int|
        0 <= i < components_of(path).len() ==> {
            let p = #[trigger] components_of(path)[i];
            p is Normal || p is Cur
        }
}

/// Whether a path has only names and dots for the current directory.
pub fn descends(path: &str) -> (r: bool)
    ensures
        r == stays_inside(path@),
{
    let p = components(path);
    let ghost pv = parts_view(p@);
    let mut i: usize = 0;
    while i < p.len()
        invariant
            i <= p@.len(),
            pv == parts_view(p@),
            pv == components_of(path@),
            forall|k: int| 0 <= k < i ==> (#[trigger] pv[k] is Normal || pv[k] is Cur),
        decreases p.len() - i,
    {
        match &p[i] {
            Component::Normal(_) => {},
            Component::CurDir => {},
            _ => {
                assert(!(pv[i as int] is Normal || pv[i as int] is Cur));
                return false;
            },
        }
        i = i + 1;
    }
    true
}

// ----- names and components -----
/// A name of a path is not empty, holds no slash, and is neither `.` nor `..`; only
/// an absolute path starts at the root.
pub proof fn law_names_are_what_stands_between_slashes(path: Seq<char>, i: int)
    requires
        0 <= i < components_of(path).len(),
    ensures
        components_of(path)[i] matches Part::Normal(s) ==> s.len() > 0 && s != "."@ && s != ".."@
            && pieces(path, '/').contains(s),
        components_of(path)[i] is Root <==> absolute(path) && i == 0,
{
    let ps = pieces(path, '/');
    let n = ps.len() as int;
    lemma_parts_are_pieces(ps, n);
    if absolute(path) && i > 0 {
        assert(components_of(path)[i] == parts_of(ps, n)[i - 1]);
    }
}

proof fn lemma_parts_are_pieces(ps: Seq<Seq<char>>, n: int)
    requires
        0 <= n <= ps.len(),
    ensures
        forall|i: int|
            0 <= i < parts_of(ps, n).len() ==> {
                &&& !(#[trigger] parts_of(ps, n)[i] is Root)
                &&& parts_of(ps, n)[i] matches Part::Normal(s) ==> s.len() > 0 && s != "."@ && s
                    != ".."@ && ps.contains(s)
            },
    decreases n,
{
    if n > 0 {
        lemma_parts_are_pieces(ps, n - 1);
        let init = parts_of(ps, n - 1);
        let all = parts_of(ps, n);
        let one = part_of(ps[n - 1], n == 1);
        assert forall|i: int| 0 <= i < all.len() implies {
            &&& !(#[trigger] all[i] is Root)
            &&& all[i] matches Part::Normal(s) ==> s.len() > 0 && s != "."@ && s != ".."@
                && ps.contains(s)
        } by {
            if i < init.len() {
                assert(all[i] == init[i]);
            } else {
                assert(all[i] == one[i - init.len()]);
                assert(ps.contains(ps[n - 1]));
            }
        }
    }
}

proof fn lemma_names_append(a: Seq<Part>, b: Seq<Part>)
    ensures
        names_of(a + b) == names_of(a) + names_of(b),
    decreases b.len(),
{
    if b.len() == 0 {
        assert(a + b =~= a);
        assert(names_of(a) + names_of(b) =~= names_of(a));
    } else {
        lemma_names_append(a, b.drop_last());
        assert((a + b).drop_last() =~= a + b.drop_last());
        assert((a + b).last() == b.last());
        assert(names_of(a + b) =~= names_of(a) + names_of(b));
    }
}

proof fn lemma_parts_append(a: Seq<Seq<char>>, b: Seq<Seq<char>>, n: int)
    requires
        a.len() > 0,
        0 <= n <= b.len(),
    ensures
        names_of(parts_of(a + b, a.len() + n)) == names_of(parts_of(a, a.len() as int)) + names_of(
            parts_of(b, n),
        ),
    decreases n,
{
    let all = a + b;
    if n == 0 {
        lemma_parts_prefix(a, b, a.len() as int);
        assert(names_of(parts_of(a, a.len() as int)) + names_of(parts_of(b, 0)) =~= names_of(
            parts_of(a, a.len() as int),
        ));
    } else {
        lemma_parts_append(a, b, n - 1);
        let m = a.len() + n;
        assert(all[m - 1] == b[n - 1]);
        let x = part_of(b[n - 1], false);
        let y = part_of(b[n - 1], n == 1);
        reveal_with_fuel(names_of, 2);
        assert(names_of(x) =~= names_of(y)) by {
            assert(seq![Part::Cur].drop_last() =~= Seq::<Part>::empty());
        }
        lemma_names_append(parts_of(all, m - 1), x);
        lemma_names_append(parts_of(b, n - 1), y);
        assert(names_of(parts_of(all, m)) =~= names_of(parts_of(a, a.len() as int)) + names_of(
            parts_of(b, n),
        ));
    }
}

proof fn lemma_parts_prefix(a: Seq<Seq<char>>, b: Seq<Seq<char>>, n: int)
    requires
        0 <= n <= a.len(),
    ensures
        parts_of(a + b, n) == parts_of(a, n),
    decreases n,
{
    if n > 0 {
        lemma_parts_prefix(a, b, n - 1);
        assert((a + b)[n - 1] == a[n - 1]);
    }
}

/// The names of a path are those of its components without the root.
proof fn lemma_names_of_path(path: Seq<char>)
    ensures
        names_of(components_of(path)) == names_of(
            parts_of(pieces(path, '/'), pieces(path, '/').len() as int),
        ),
{
    let rest = parts_of(pieces(path, '/'), pieces(path, '/').len() as int);
    if absolute(path) {
        lemma_names_append(seq![Part::Root], rest);
        reveal_with_fuel(names_of, 2);
        assert(seq![Part::Root].drop_last() =~= Seq::<Part>::empty());
        assert(names_of(seq![Part::Root]) =~= Seq::<Seq<char>>::empty());
        assert(Seq::<Seq<char>>::empty() + names_of(rest) =~= names_of(rest));
    }
}

/// A path taken from a directory has the names of the directory and then its own.
pub proof fn law_joined_paths_have_the_names_of_both(base: Seq<char>, rel: Seq<char>)
    requires
        !absolute(rel),
    ensures
        names_of(components_of(path_join(base, rel))) == names_of(components_of(base)) + names_of(
            components_of(rel),
        ),
        base.len() > 0 ==> absolute(path_join(base, rel)) == absolute(base),
{
    reveal_strlit("/");
    let p = path_join(base, rel);
    lemma_names_of_path(p);
    lemma_names_of_path(base);
    lemma_names_of_path(rel);
    let a = pieces(base, '/');
    let b = pieces(rel, '/');
    crate::split::lemma_pieces_nonempty(base, '/');
    crate::split::lemma_pieces_nonempty(rel, '/');
    if base.len() == 0 {
        assert(base =~= Seq::<char>::empty());
        assert(a =~= seq![Seq::<char>::empty()]);
        reveal_with_fuel(parts_of, 2);
        assert(parts_of(a, 1) =~= Seq::<Part>::empty());
        assert(names_of(parts_of(a, 1)) + names_of(parts_of(b, b.len() as int)) =~= names_of(
            parts_of(b, b.len() as int),
        ));
    } else if base.last() == '/' {
        let cut = base.drop_last();
        let c = pieces(cut, '/');
        crate::split::lemma_pieces_nonempty(cut, '/');
        assert("/"@ =~= seq!['/']);
        assert(base =~= cut + seq!['/']);
        assert(p =~= cut + seq!['/'] + rel);
        crate::split::lemma_pieces_join(cut, rel, '/');
        crate::split::lemma_pieces_join(cut, Seq::<char>::empty(), '/');
        let e = seq![Seq::<char>::empty()];
        assert(pieces(Seq::<char>::empty(), '/') =~= e);
        assert(cut + seq!['/'] + Seq::<char>::empty() =~= base);
        assert(a == c + e);
        lemma_parts_append(c, e, 1);
        lemma_parts_append(c, b, b.len() as int);
        reveal_with_fuel(parts_of, 2);
        assert(parts_of(e, 1) =~= Seq::<Part>::empty());
        assert(names_of(parts_of(a, a.len() as int)) =~= names_of(parts_of(c, c.len() as int)));
    } else {
        assert("/"@ =~= seq!['/']);
        crate::split::lemma_pieces_join(base, rel, '/');
        lemma_parts_append(a, b, b.len() as int);
    }
}

/// A path is under itself, what is under a directory is under what that is under,
/// and the names of a path are those of the directory it is under and those below.
pub proof fn law_paths_below_add_names(path: Seq<char>, base: Seq<char>, top: Seq<char>)
    requires
        under(path, base),
        under(base, top),
    ensures
        under(path, path),
        under(path, top),
        ({
            let rest = names_of(components_of(path).skip(components_of(base).len() as int));
            &&& names_of(components_of(path)) == names_of(components_of(base)) + rest
            &&& below(path, base) == joined(rest, "/"@)
        }),
        below(path, path) == Seq::<char>::empty(),
{
    let p = components_of(path);
    let b = components_of(base);
    let t = components_of(top);
    assert(p.skip(p.len() as int) =~= Seq::<Part>::empty());
    assert forall|k: int| 0 <= k < t.len() implies p[k] == t[k] by {
        assert(b[k] == t[k]);
        assert(p[k] == b[k]);
    }
    assert(p =~= b + p.skip(b.len() as int));
    lemma_names_append(b, p.skip(b.len() as int));
}

} // verus!
