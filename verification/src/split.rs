//! Finding, replacing, splitting and joining within strings.
use vstd::prelude::*;

use crate::text::{chars_of, same, space, text_of, text_range, is_space, views};

verus! {

/// `pat` stands in `s` at index `i`.
pub open spec fn occurs_at(s: Seq<char>, pat: Seq<char>, i: int) -> bool {
    0 <= i && i + pat.len() <= s.len() && s.subrange(i, i + pat.len()) == pat
}

/// The first index at or after `i` at which `pat` stands in `s`.
pub open spec fn find_from(s: Seq<char>, pat: Seq<char>, i: int) -> Option<int>
    decreases s.len() - i + 1,
{
    if i + pat.len() > s.len() {
        None
    } else if occurs_at(s, pat, i) {
        Some(i)
    } else {
        find_from(s, pat, i + 1)
    }
}

/// The first index at which `pat` stands in `s`.
pub open spec fn find(s: Seq<char>, pat: Seq<char>) -> Option<int> {
    find_from(s, pat, 0)
}

/// `pat` stands somewhere in `s`.
pub open spec fn holds(s: Seq<char>, pat: Seq<char>) -> bool {
    exists|i: int| occurs_at(s, pat, i)
}

pub open spec fn begins_with(s: Seq<char>, pat: Seq<char>) -> bool {
    pat.len() <= s.len() && s.take(pat.len() as int) == pat
}

pub open spec fn finishes_with(s: Seq<char>, pat: Seq<char>) -> bool {
    pat.len() <= s.len() && s.skip(s.len() - pat.len()) == pat
}

/// What `find_from` gives back is the first occurrence, and there is one
/// exactly when it gives back an index.
pub proof fn lemma_find_from(s: Seq<char>, pat: Seq<char>, i: int)
    requires
        0 <= i,
    ensures
        match find_from(s, pat, i) {
            Some(k) => i <= k && occurs_at(s, pat, k) && forall|j: int|
                i <= j < k ==> !occurs_at(s, pat, j),
            None => forall|j: int| i <= j ==> !occurs_at(s, pat, j),
        },
    decreases s.len() - i + 1,
{
    if i + pat.len() <= s.len() && !occurs_at(s, pat, i) {
        lemma_find_from(s, pat, i + 1);
    }
}

pub proof fn lemma_find(s: Seq<char>, pat: Seq<char>)
    ensures
        holds(s, pat) <==> find(s, pat) is Some,
        match find(s, pat) {
            Some(k) => 0 <= k && occurs_at(s, pat, k) && forall|j: int|
                0 <= j < k ==> !occurs_at(s, pat, j),
            None => forall|j: int| !occurs_at(s, pat, j),
        },
{
    lemma_find_from(s, pat, 0);
}

/// Whether `pat` stands in `v` at index `i`.
fn stands_at(v: &Vec<char>, pat: &Vec<char>, i: usize) -> (r: bool)
    requires
        i + pat@.len() <= v@.len(),
    ensures
        r == occurs_at(v@, pat@, i as int),
{
    let n: usize = v.len();
    let mut j: usize = 0;
    while j < pat.len()
        invariant
            j <= pat@.len(),
            n == v@.len(),
            i + pat@.len() <= n,
            forall|k: int| 0 <= k < j ==> v@[i + k] == pat@[k],
        decreases pat.len() - j,
    {
        if v[i + j] != pat[j] {
            proof {
                assert(v@.subrange(i as int, i + pat@.len())[j as int] == v@[i + j]);
            }
            return false;
        }
        j = j + 1;
    }
    assert(v@.subrange(i as int, i + pat@.len()) =~= pat@);
    true
}

/// The first index at or after `from` at which `pat` stands in `v`.
pub fn find_chars(v: &Vec<char>, pat: &Vec<char>, from: usize) -> (r: Option<usize>)
    requires
        from <= v@.len(),
    ensures
        match r {
            Some(k) => find_from(v@, pat@, from as int) == Some(k as int),
            None => find_from(v@, pat@, from as int) is None,
        },
{
    let n: usize = v.len();
    let m: usize = pat.len();
    if m > n {
        return None;
    }
    let mut i: usize = from;
    while i <= n - m
        invariant
            n == v@.len(),
            m == pat@.len(),
            m <= n,
            from <= i <= n + 1,
            find_from(v@, pat@, from as int) == find_from(v@, pat@, i as int),
        decreases n + 1 - i,
    {
        if stands_at(v, pat, i) {
            return Some(i);
        }
        assert(m == 0 ==> v@.subrange(i as int, i as int) =~= pat@);
        i = i + 1;
    }
    None
}

pub fn contains(s: &str, pat: &str) -> (r: bool)
    ensures
        r == holds(s@, pat@),
{
    let v = chars_of(s);
    let p = chars_of(pat);
    proof {
        lemma_find(s@, pat@);
    }
    match find_chars(&v, &p, 0) {
        Some(_) => true,
        None => false,
    }
}

pub fn starts_with(s: &str, pat: &str) -> (r: bool)
    ensures
        r == begins_with(s@, pat@),
{
    let v = chars_of(s);
    let p = chars_of(pat);
    if p.len() > v.len() {
        return false;
    }
    assert(v@.subrange(0, p@.len() as int) =~= v@.take(p@.len() as int));
    stands_at(&v, &p, 0)
}

pub fn ends_with(s: &str, pat: &str) -> (r: bool)
    ensures
        r == finishes_with(s@, pat@),
{
    let v = chars_of(s);
    let p = chars_of(pat);
    if p.len() > v.len() {
        return false;
    }
    assert(v@.subrange(v@.len() - p@.len(), v@.len() as int) =~= v@.skip(v@.len() - p@.len()));
    stands_at(&v, &p, v.len() - p.len())
}

/// `s` without the prefix `pat`, where it has it.
pub fn strip_prefix(s: &str, pat: &str) -> (r: Option<String>)
    ensures
        match r {
            Some(t) => begins_with(s@, pat@) && t@ == s@.skip(pat@.len() as int),
            None => !begins_with(s@, pat@),
        },
{
    if !starts_with(s, pat) {
        return None;
    }
    let v = chars_of(s);
    let n: usize = chars_of(pat).len();
    assert(v@.subrange(n as int, v@.len() as int) =~= s@.skip(n as int));
    Some(text_range(&v, n, v.len()))
}

/// What stands before and after the first occurrence of `pat` in `s`.
pub open spec fn cut(s: Seq<char>, pat: Seq<char>) -> Option<(Seq<char>, Seq<char>)> {
    match find(s, pat) {
        Some(i) => Some((s.take(i), s.skip(i + pat.len()))),
        None => None,
    }
}

/// The strings before and after the first occurrence of `pat`.
pub fn split_once(s: &str, pat: &str) -> (r: Option<(String, String)>)
    ensures
        match r {
            Some((a, b)) => cut(s@, pat@) == Some((a@, b@)),
            None => cut(s@, pat@) is None,
        },
{
    let v = chars_of(s);
    let p = chars_of(pat);
    proof {
        lemma_find(s@, pat@);
    }
    match find_chars(&v, &p, 0) {
        Some(i) => {
            assert(v@.subrange(0, i as int) =~= s@.take(i as int));
            assert(v@.subrange(i + p@.len(), v@.len() as int) =~= s@.skip(i + p@.len()));
            let n: usize = v.len();
            let m: usize = p.len();
            Some((text_range(&v, 0, i), text_range(&v, i + m, n)))
        },
        None => None,
    }
}

/// `s` with each occurrence of `from`, taken from the left without overlap,
/// replaced by `to`. An empty `from` occurs nowhere.
pub open spec fn replaced(s: Seq<char>, from: Seq<char>, to: Seq<char>) -> Seq<char>
    decreases s.len(),
{
    if from.len() == 0 {
        s
    } else {
        match find(s, from) {
            Some(i) => if 0 <= i && i + from.len() <= s.len() {
                s.take(i) + to + replaced(s.skip(i + from.len()), from, to)
            } else {
                s
            },
            None => s,
        }
    }
}

proof fn lemma_find_from_skip(s: Seq<char>, pat: Seq<char>, base: int, i: int)
    requires
        0 <= base <= i,
        base <= s.len(),
    ensures
        match find_from(s.skip(base), pat, i - base) {
            Some(k) => find_from(s, pat, i) == Some(k + base),
            None => find_from(s, pat, i) is None,
        },
    decreases s.len() - i + 1,
{
    let t = s.skip(base);
    if i + pat.len() <= s.len() {
        assert(t.subrange(i - base, i - base + pat.len()) =~= s.subrange(i, i + pat.len()));
        assert(occurs_at(t, pat, i - base) == occurs_at(s, pat, i));
        if !occurs_at(s, pat, i) {
            lemma_find_from_skip(s, pat, base, i + 1);
        }
    }
}

/// Appends the characters `from..to` of `v` to `out`.
pub fn push_range(out: &mut String, v: &Vec<char>, from: usize, to: usize)
    requires
        from <= to <= v@.len(),
    ensures
        final(out)@ == old(out)@ + v@.subrange(from as int, to as int),
{
    let t = text_range(v, from, to);
    out.append(t.as_str());
}

pub fn replace(s: &str, from: &str, to: &str) -> (r: String)
    ensures
        r@ == replaced(s@, from@, to@),
{
    let v = chars_of(s);
    let p = chars_of(from);
    if p.len() == 0 {
        return text_of(&v);
    }
    let mut out = String::new();
    let mut at: usize = 0;
    let n: usize = v.len();
    let m: usize = p.len();
    assert(v@.skip(0) =~= v@);
    loop
        invariant_except_break
            replaced(v@, p@, to@) == out@ + replaced(v@.skip(at as int), p@, to@),
        invariant
            p@ == from@,
            p@.len() == m,
            v@.len() == n,
            m > 0,
            at <= n,
        ensures
            out@ == replaced(v@, p@, to@),
        decreases v@.len() - at,
    {
        proof {
            lemma_find_from_skip(v@, p@, at as int, at as int);
            lemma_find(v@.skip(at as int), p@);
        }
        match find_chars(&v, &p, at) {
            Some(i) => {
                let ghost rest = v@.skip(at as int);
                proof {
                    assert(find(rest, p@) == Some(i - at));
                    assert(rest.take(i - at) =~= v@.subrange(at as int, i as int));
                    assert(rest.skip(i - at + p@.len()) =~= v@.skip(i + p@.len()));
                }
                let ghost before = out@;
                let ghost head = rest.take(i - at);
                push_range(&mut out, &v, at, i);
                out.append(to);
                at = i + m;
                proof {
                    let tail = replaced(v@.skip(at as int), p@, to@);
                    assert(before + (head + to@ + tail) =~= out@ + tail);
                }
            },
            None => {
                assert(v@.subrange(at as int, v@.len() as int) =~= v@.skip(at as int));
                push_range(&mut out, &v, at, n);
                break;
            },
        }
    }
    out
}

/// The pieces of `s` between occurrences of the character `sep`.
pub open spec fn pieces(s: Seq<char>, sep: char) -> Seq<Seq<char>>
    decreases s.len(),
{
    if s.len() == 0 {
        seq![Seq::<char>::empty()]
    } else if s.last() == sep {
        pieces(s.drop_last(), sep).push(Seq::<char>::empty())
    } else {
        let head = pieces(s.drop_last(), sep);
        head.drop_last().push(head.last().push(s.last()))
    }
}

pub proof fn lemma_pieces_nonempty(s: Seq<char>, sep: char)
    ensures
        pieces(s, sep).len() > 0,
    decreases s.len(),
{
    if s.len() > 0 {
        lemma_pieces_nonempty(s.drop_last(), sep);
    }
}

pub fn split(s: &str, sep: char) -> (r: Vec<String>)
    ensures
        views(r@) == pieces(s@, sep),
        r@.len() > 0,
{
    let v = chars_of(s);
    let mut done: Vec<String> = Vec::new();
    let mut cur = String::new();
    let mut i: usize = 0;
    while i < v.len()
        invariant
            i <= v@.len(),
            views(done@).push(cur@) == pieces(v@.take(i as int), sep),
        decreases v.len() - i,
    {
        let c = v[i];
        let ghost before = views(done@).push(cur@);
        let ghost olddone = done@;
        assert(v@.take(i + 1).drop_last() =~= v@.take(i as int));
        assert(v@.take(i + 1).last() == c);
        if c == sep {
            let piece = cur;
            done.push(piece);
            cur = String::new();
            assert(views(done@) =~= views(olddone).push(piece@));
        } else {
            cur.push(c);
            assert(before.drop_last() =~= views(done@));
        }
        i = i + 1;
    }
    assert(v@.take(i as int) =~= v@);
    let ghost olddone = done@;
    let ghost last = cur@;
    done.push(cur);
    assert(views(done@) =~= views(olddone).push(last));
    done
}

/// The parts of `parts` one after the other with `sep` between them.
pub open spec fn joined(parts: Seq<Seq<char>>, sep: Seq<char>) -> Seq<char>
    decreases parts.len(),
{
    if parts.len() == 0 {
        Seq::empty()
    } else if parts.len() == 1 {
        parts[0]
    } else {
        joined(parts.drop_last(), sep) + sep + parts.last()
    }
}

pub fn join(parts: &Vec<String>, sep: &str) -> (r: String)
    ensures
        r@ == joined(views(parts@), sep@),
{
    let mut out = String::new();
    let mut i: usize = 0;
    while i < parts.len()
        invariant
            i <= parts@.len(),
            out@ == joined(views(parts@).take(i as int), sep@),
        decreases parts.len() - i,
    {
        let ghost vs = views(parts@);
        assert(vs.take(i + 1).drop_last() =~= vs.take(i as int));
        if i > 0 {
            out.append(sep);
        }
        out.append(parts[i].as_str());
        proof {
            if i == 0 {
                assert(out@ =~= parts@[0]@);
            }
        }
        i = i + 1;
    }
    assert(views(parts@).take(i as int) =~= views(parts@));
    out
}

/// `s` without one trailing carriage return.
pub open spec fn chomped(s: Seq<char>) -> Seq<char> {
    if s.len() > 0 && s.last() == '\r' {
        s.drop_last()
    } else {
        s
    }
}

/// The lines of `s`: the pieces between line feeds, each without one
/// trailing carriage return when a line feed ended it, and without a last
/// piece that is empty.
pub open spec fn lines_of(s: Seq<char>) -> Seq<Seq<char>> {
    let ps = pieces(s, '\n');
    let ended = ps.drop_last().map_values(|l: Seq<char>| chomped(l));
    if ps.last().len() == 0 {
        ended
    } else {
        ended.push(ps.last())
    }
}

/// A copy of `s` without one trailing carriage return.
fn chomp(s: &String) -> (r: String)
    ensures
        r@ == chomped(s@),
{
    let v = chars_of(s.as_str());
    if v.len() > 0 && v[v.len() - 1] == '\r' {
        assert(v@.subrange(0, v@.len() - 1) =~= v@.drop_last());
        text_range(&v, 0, v.len() - 1)
    } else {
        s.clone()
    }
}

pub fn lines(s: &str) -> (r: Vec<String>)
    ensures
        views(r@) == lines_of(s@),
{
    let ps = split(s, '\n');
    let n: usize = ps.len();
    let mut out: Vec<String> = Vec::new();
    let mut i: usize = 0;
    let ghost all = views(ps@);
    let ghost ended = all.drop_last().map_values(|l: Seq<char>| chomped(l));
    while i + 1 < n
        invariant
            n == ps@.len(),
            n > 0,
            i < n,
            all == views(ps@),
            ended == all.drop_last().map_values(|l: Seq<char>| chomped(l)),
            views(out@) == ended.take(i as int),
        decreases n - i,
    {
        let ghost old_out = out@;
        let line = chomp(&ps[i]);
        out.push(line);
        assert(views(out@) =~= views(old_out).push(line@));
        assert(ended.take(i + 1) =~= ended.take(i as int).push(chomped(all[i as int])));
        i = i + 1;
    }
    assert(ended.take(i as int) =~= ended);
    let last = ps[n - 1].clone();
    assert(all.last() == last@);
    if last.as_str().is_empty() {
        out
    } else {
        let ghost old_out = out@;
        out.push(last);
        assert(views(out@) =~= views(old_out).push(last@));
        out
    }
}

/// The words of `s`: its maximal runs of characters other than white space.
pub open spec fn words_of(s: Seq<char>) -> Seq<Seq<char>>
    decreases s.len(),
{
    if s.len() == 0 {
        Seq::empty()
    } else if is_space(s.last()) {
        words_of(s.drop_last())
    } else if s.len() == 1 || is_space(s[s.len() - 2]) {
        words_of(s.drop_last()).push(seq![s.last()])
    } else {
        let head = words_of(s.drop_last());
        head.drop_last().push(head.last().push(s.last()))
    }
}

/// The words of a text, in order.
pub fn words(s: &str) -> (r: Vec<String>)
    ensures
        views(r@) == words_of(s@),
{
    let v = chars_of(s);
    let mut out: Vec<String> = Vec::new();
    let mut cur = String::new();
    let mut open = false;
    let mut i: usize = 0;
    while i < v.len()
        invariant
            i <= v@.len(),
            open == (i > 0 && !is_space(v@[i - 1])),
            !open ==> cur@.len() == 0,
            words_of(v@.take(i as int)) == (if open {
                views(out@).push(cur@)
            } else {
                views(out@)
            }),
        decreases v.len() - i,
    {
        let c = v[i];
        let ghost t = v@.take(i + 1);
        let ghost old_out = out@;
        assert(t.drop_last() =~= v@.take(i as int));
        assert(t.last() == c);
        assert(i > 0 ==> t[t.len() - 2] == v@[i - 1]);
        if space(c) {
            if open {
                let w = cur;
                out.push(w);
                assert(views(out@) =~= views(old_out).push(w@));
                cur = String::new();
            }
            open = false;
        } else {
            let ghost before = views(out@).push(cur@);
            cur.push(c);
            proof {
                if open {
                    assert(before.drop_last() =~= views(out@));
                } else {
                    assert(cur@ =~= seq![c]);
                }
            }
            open = true;
        }
        i = i + 1;
    }
    assert(v@.take(i as int) =~= v@);
    if open {
        let ghost old_out = out@;
        let ghost last = cur@;
        out.push(cur);
        assert(views(out@) =~= views(old_out).push(last));
    }
    out
}

/// Whether a sequence of strings holds `s`.
pub fn among(list: &Vec<String>, s: &str) -> (r: bool)
    ensures
        r == views(list@).contains(s@),
{
    let mut i: usize = 0;
    while i < list.len()
        invariant
            i <= list@.len(),
            forall|j: int| 0 <= j < i ==> views(list@)[j] != s@,
        decreases list.len() - i,
    {
        if same(list[i].as_str(), s) {
            assert(views(list@)[i as int] == s@);
            return true;
        }
        i = i + 1;
    }
    assert(!views(list@).contains(s@)) by {
        if views(list@).contains(s@) {
            let k = views(list@).index_of(s@);
            assert(views(list@)[k] == s@);
        }
    }
    false
}

/// Adds the strings of `more` to the end of `out`.
pub fn extend(out: &mut Vec<String>, more: &Vec<String>)
    ensures
        views(final(out)@) == views(old(out)@) + views(more@),
{
    let ghost start = views(out@);
    let mut i: usize = 0;
    assert(start + views(more@).take(0) =~= start);
    while i < more.len()
        invariant
            i <= more@.len(),
            views(out@) == start + views(more@).take(i as int),
        decreases more.len() - i,
    {
        let ghost was = out@;
        let s = more[i].clone();
        out.push(s);
        assert(views(out@) =~= views(was).push(s@));
        i = i + 1;
        assert(views(more@).take(i as int) =~= views(more@).take(i - 1).push(s@));
        assert(start + views(more@).take(i as int) =~= (start + views(more@).take(i - 1)).push(s@));
    }
    assert(views(more@).take(i as int) =~= views(more@));
}

/// The index of the first white space of `s`, from index `i` on.
pub open spec fn space_from(s: Seq<char>, i: int) -> Option<int>
    decreases s.len() - i,
{
    if i < 0 || i >= s.len() {
        None
    } else if is_space(s[i]) {
        Some(i)
    } else {
        space_from(s, i + 1)
    }
}

/// What stands before and after the first white space of `s`.
pub open spec fn cut_space(s: Seq<char>) -> Option<(Seq<char>, Seq<char>)> {
    match space_from(s, 0) {
        Some(i) => Some((s.take(i), s.skip(i + 1))),
        None => None,
    }
}

/// What stands before and after the first white space of `s`.
pub fn split_space(s: &str) -> (r: Option<(String, String)>)
    ensures
        match r {
            Some((a, b)) => cut_space(s@) == Some((a@, b@)),
            None => cut_space(s@) is None,
        },
{
    let v = chars_of(s);
    let mut i: usize = 0;
    while i < v.len()
        invariant
            i <= v@.len(),
            v@ == s@,
            space_from(s@, 0) == space_from(s@, i as int),
        decreases v.len() - i,
    {
        if space(v[i]) {
            assert(v@.subrange(0, i as int) =~= s@.take(i as int));
            assert(v@.subrange(i + 1, v@.len() as int) =~= s@.skip(i + 1));
            return Some((text_range(&v, 0, i), text_range(&v, i + 1, v.len())));
        }
        i = i + 1;
    }
    None
}

// ----- laws -----
proof fn lemma_pieces_solid(b: Seq<char>, sep: char)
    requires
        forall|j: int| 0 <= j < b.len() ==> #[trigger] b[j] != sep,
    ensures
        pieces(b, sep) == seq![b],
    decreases b.len(),
{
    if b.len() > 0 {
        lemma_pieces_solid(b.drop_last(), sep);
        assert(b.drop_last().push(b.last()) =~= b);
        assert(pieces(b, sep) =~= seq![b]);
    } else {
        assert(b =~= Seq::<char>::empty());
    }
}

proof fn lemma_pieces_append(a: Seq<char>, sep: char, b: Seq<char>)
    requires
        forall|j: int| 0 <= j < b.len() ==> #[trigger] b[j] != sep,
    ensures
        pieces(a + seq![sep] + b, sep) == pieces(a, sep).push(b),
    decreases b.len(),
{
    let s = a + seq![sep] + b;
    if b.len() == 0 {
        assert(s.drop_last() =~= a);
        assert(b =~= Seq::<char>::empty());
    } else {
        let less = b.drop_last();
        lemma_pieces_append(a, sep, less);
        assert(s.drop_last() =~= a + seq![sep] + less);
        assert(s.last() == b.last());
        assert(less.push(b.last()) =~= b);
        assert(pieces(s, sep) =~= pieces(a, sep).push(b));
    }
}

/// Splitting undoes joining: parts that do not hold the separator come back, one
/// for one and unchanged.
pub proof fn law_splitting_undoes_joining(parts: Seq<Seq<char>>, sep: char)
    requires
        parts.len() > 0,
        forall|i: int, j: int|
            0 <= i < parts.len() && 0 <= j < parts[i].len() ==> #[trigger] parts[i][j] != sep,
    ensures
        pieces(joined(parts, seq![sep]), sep) == parts,
    decreases parts.len(),
{
    let last = parts.last();
    assert forall|j: int| 0 <= j < last.len() implies #[trigger] last[j] != sep by {
        assert(parts[parts.len() - 1][j] != sep);
    }
    if parts.len() == 1 {
        lemma_pieces_solid(last, sep);
        assert(parts =~= seq![last]);
    } else {
        let init = parts.drop_last();
        assert forall|i: int, j: int|
            0 <= i < init.len() && 0 <= j < init[i].len() implies #[trigger] init[i][j] != sep by {
            assert(parts[i][j] != sep);
        }
        law_splitting_undoes_joining(init, sep);
        lemma_pieces_append(joined(init, seq![sep]), sep, last);
        assert(init.push(last) =~= parts);
    }
}

/// Joining undoes splitting: the pieces with the separator between them are the
/// text again, and no piece holds the separator.
pub proof fn law_joining_undoes_splitting(s: Seq<char>, sep: char)
    ensures
        pieces(s, sep).len() > 0,
        joined(pieces(s, sep), seq![sep]) == s,
        forall|i: int, j: int|
            0 <= i < pieces(s, sep).len() && 0 <= j < pieces(s, sep)[i].len() ==> #[trigger] pieces(
                s,
                sep,
            )[i][j] != sep,
    decreases s.len(),
{
    let ps = pieces(s, sep);
    if s.len() == 0 {
        assert(joined(ps, seq![sep]) =~= s);
    } else {
        let head = pieces(s.drop_last(), sep);
        law_joining_undoes_splitting(s.drop_last(), sep);
        if s.last() == sep {
            assert(ps.drop_last() =~= head);
            assert(joined(head, seq![sep]) + seq![sep] + Seq::<char>::empty() =~= s);
        } else {
            assert(ps.drop_last() =~= head.drop_last());
            assert(ps.last() == head.last().push(s.last()));
            if head.len() == 1 {
                assert(joined(ps, seq![sep]) =~= s);
            } else {
                let front = joined(head.drop_last(), seq![sep]) + seq![sep];
                assert(front + head.last() == s.drop_last());
                assert(front + ps.last() =~= (front + head.last()).push(s.last()));
                assert(s.drop_last().push(s.last()) =~= s);
            }
        }
        assert forall|i: int, j: int|
            0 <= i < ps.len() && 0 <= j < ps[i].len() implies #[trigger] ps[i][j] != sep by {
            if i < head.len() && j < head[i].len() {
                assert(head[i][j] != sep);
            }
        }
    }
}

/// The lines of a text are what stands before each line feed, without one
/// carriage return before it, and what is left after the last: a text that ends
/// in a line feed, or is empty, has one line more for each line that is added.
pub proof fn law_lines_end_at_line_feeds(s: Seq<char>, l: Seq<char>)
    requires
        s.len() == 0 || s.last() == '\n',
        forall|j: int| 0 <= j < l.len() ==> #[trigger] l[j] != '\n',
    ensures
        lines_of(Seq::<char>::empty()) == Seq::<Seq<char>>::empty(),
        l.len() == 0 || l.last() != '\r' ==> lines_of(s + l + seq!['\n']) == lines_of(s).push(l),
        lines_of(s + l + seq!['\r', '\n']) == lines_of(s).push(l),
        l.len() > 0 ==> lines_of(s + l) == lines_of(s).push(l),
{
    assert(lines_of(Seq::<char>::empty()) =~= Seq::<Seq<char>>::empty());
    let before = pieces(s, '\n');
    lemma_pieces_nonempty(s, '\n');
    if s.len() > 0 {
        assert(before.last().len() == 0);
        let a = s.drop_last();
        assert(a + seq!['\n'] + l =~= s + l);
        lemma_pieces_append(a, '\n', l);
        assert(before =~= pieces(a, '\n').push(Seq::<char>::empty()));
        assert(pieces(s + l, '\n') =~= before.drop_last().push(l));
        let lr = l.push('\r');
        assert forall|j: int| 0 <= j < lr.len() implies #[trigger] lr[j] != '\n' by {
            if j < l.len() {
                assert(l[j] != '\n');
            }
        }
        assert(a + seq!['\n'] + lr =~= s + l + seq!['\r']);
        lemma_pieces_append(a, '\n', lr);
        assert(pieces(s + l + seq!['\r'], '\n') =~= before.drop_last().push(lr));
    } else {
        assert(s + l =~= l);
        lemma_pieces_solid(l, '\n');
        let lr = l.push('\r');
        assert forall|j: int| 0 <= j < lr.len() implies #[trigger] lr[j] != '\n' by {
            if j < l.len() {
                assert(l[j] != '\n');
            }
        }
        lemma_pieces_solid(lr, '\n');
        assert(s + l + seq!['\r'] =~= lr);
        assert(before.drop_last() =~= Seq::<Seq<char>>::empty());
        assert(pieces(s + l, '\n') =~= before.drop_last().push(l));
        assert(pieces(s + l + seq!['\r'], '\n') =~= before.drop_last().push(lr));
    }
    let none = Seq::<char>::empty();
    lemma_pieces_append(s + l, '\n', none);
    assert(s + l + seq!['\n'] + none =~= s + l + seq!['\n']);
    lemma_pieces_append(s + l + seq!['\r'], '\n', none);
    assert(s + l + seq!['\r'] + seq!['\n'] + none =~= s + l + seq!['\r', '\n']);
    let f = |x: Seq<char>| chomped(x);
    assert(lines_of(s) =~= before.drop_last().map_values(f));
    let p1 = pieces(s + l + seq!['\n'], '\n');
    assert(p1.drop_last() =~= before.drop_last().push(l));
    assert(p1.drop_last().map_values(f) =~= before.drop_last().map_values(f).push(chomped(l)));
    let p2 = pieces(s + l + seq!['\r', '\n'], '\n');
    assert(p2.drop_last() =~= before.drop_last().push(l.push('\r')));
    assert(l.push('\r').drop_last() =~= l);
    assert(p2.drop_last().map_values(f) =~= before.drop_last().map_values(f).push(l));
    let p3 = pieces(s + l, '\n');
    assert(p3.drop_last() =~= before.drop_last());
}

/// Cutting a text at a pattern loses nothing but the pattern: the text is what
/// stands before it, the pattern, and what stands after it; and the pattern is
/// the first one in the text. A text that holds no pattern is not cut.
pub proof fn law_cutting_loses_only_the_pattern(s: Seq<char>, pat: Seq<char>)
    ensures
        cut(s, pat) matches Some((a, b)) ==> s == a + pat + b && forall|j: int|
            0 <= j < a.len() ==> !occurs_at(s, pat, j),
        cut(s, pat) is None ==> !holds(s, pat),
{
    lemma_find(s, pat);
    if let Some(i) = find(s, pat) {
        assert(s =~= s.take(i) + s.subrange(i, i + pat.len()) + s.skip(i + pat.len()));
    }
}

/// Words hold no white space and are not empty.
pub proof fn law_words_hold_no_white_space(s: Seq<char>)
    ensures
        forall|i: int| 0 <= i < words_of(s).len() ==> (#[trigger] words_of(s)[i]).len() > 0,
        forall|i: int, j: int|
            0 <= i < words_of(s).len() && 0 <= j < words_of(s)[i].len() ==> !is_space(
                #[trigger] words_of(s)[i][j],
            ),
        s.len() > 0 && !is_space(s.last()) ==> words_of(s).len() > 0,
    decreases s.len(),
{
    let ws = words_of(s);
    if s.len() > 0 {
        let head = words_of(s.drop_last());
        law_words_hold_no_white_space(s.drop_last());
        if s.len() > 1 {
            assert(s.drop_last().last() == s[s.len() - 2]);
        }
        assert forall|i: int| 0 <= i < ws.len() implies (#[trigger] ws[i]).len() > 0 by {
            if i < head.len() {
                assert(head[i].len() > 0);
            }
        }
        assert forall|i: int, j: int| 0 <= i < ws.len() && 0 <= j < ws[i].len() implies !is_space(
            #[trigger] ws[i][j],
        ) by {
            if i < head.len() && j < head[i].len() {
                assert(!is_space(head[i][j]));
            }
        }
    }
}

/// The pieces of two texts with the separator between them are those of the one and
/// then those of the other.
pub proof fn lemma_pieces_join(a: Seq<char>, b: Seq<char>, sep: char)
    ensures
        pieces(a + seq![sep] + b, sep) == pieces(a, sep) + pieces(b, sep),
    decreases b.len(),
{
    let s = a + seq![sep] + b;
    lemma_pieces_nonempty(a, sep);
    lemma_pieces_nonempty(b, sep);
    if b.len() == 0 {
        assert(s =~= a.push(sep));
        assert(s.drop_last() =~= a);
        assert(pieces(s, sep) =~= pieces(a, sep) + pieces(b, sep));
    } else {
        let less = a + seq![sep] + b.drop_last();
        lemma_pieces_join(a, b.drop_last(), sep);
        lemma_pieces_nonempty(b.drop_last(), sep);
        assert(s.drop_last() =~= less);
        assert(s.last() == b.last());
        assert(pieces(s, sep) =~= pieces(a, sep) + pieces(b, sep));
    }
}

/// A text holds what stands in it.
#[verifier::spinoff_prover]
pub proof fn law_texts_hold_their_parts(lead: Seq<char>, part: Seq<char>, tail: Seq<char>)
    ensures
        holds(lead + part + tail, part),
{
    let s = lead + part + tail;
    assert(s.subrange(lead.len() as int, (lead.len() + part.len()) as int) =~= part);
    assert(occurs_at(s, part, lead.len() as int));
    lemma_find(s, part);
}

/// Replacing changes the pattern and nothing else: what stands before the first one
/// stays, the replacement takes its place, and so on behind it. A text without the
/// pattern stays as it is.
pub proof fn law_replacing_changes_the_pattern_alone(
    lead: Seq<char>,
    from: Seq<char>,
    tail: Seq<char>,
    to: Seq<char>,
)
    requires
        from.len() > 0,
        forall|j: int| 0 <= j < lead.len() ==> !#[trigger] occurs_at(lead + from + tail, from, j),
    ensures
        replaced(lead + from + tail, from, to) == lead + to + replaced(tail, from, to),
        !holds(tail, from) ==> replaced(tail, from, to) == tail,
{
    let s = lead + from + tail;
    let i = lead.len() as int;
    lemma_find(s, from);
    assert(s.subrange(i, i + from.len()) =~= from);
    assert(occurs_at(s, from, i));
    assert(find(s, from) == Some(i));
    assert(s.take(i) =~= lead);
    assert(s.skip(i + from.len()) =~= tail);
    lemma_find(tail, from);
}

proof fn lemma_grouped(a: Seq<char>, b: Seq<char>, c: Seq<char>)
    ensures
        a + b + c == a + (b + c),
{
    assert(a + b + c =~= a + (b + c));
}

pub proof fn lemma_ends_hold(s: Seq<char>, a: Seq<char>, b: Seq<char>, c: Seq<char>)
    ensures
        holds(s + a + b + c, a + b + c),
{
    let none = Seq::<char>::empty();
    lemma_grouped(s, a, b);
    lemma_grouped(s, a + b, c);
    law_texts_hold_their_parts(s, a + b + c, none);
    lemma_grouped(s, a + b + c, none);
    assert(a + b + c + none =~= a + b + c);
}

#[verifier::spinoff_prover]
pub proof fn lemma_longer_texts_hold(s: Seq<char>, t: Seq<char>, part: Seq<char>)
    requires
        s.is_prefix_of(t),
        holds(s, part),
    ensures
        holds(t, part),
{
    lemma_find(s, part);
    lemma_find(t, part);
    let i = find(s, part)->0;
    assert(t.subrange(i, i + part.len()) =~= s.subrange(i, i + part.len()));
    assert(occurs_at(t, part, i));
}

pub proof fn lemma_shorter_prefix(p: Seq<char>, b: Seq<char>, t: Seq<char>)
    requires
        (p + b).is_prefix_of(t),
    ensures
        p.is_prefix_of(t),
{
    assert(p =~= t.subrange(0, p.len() as int)) by {
        assert forall|i: int| 0 <= i < p.len() implies p[i] == t[i] by {
            assert((p + b)[i] == t[i]);
        }
    }
}

} // verus!
