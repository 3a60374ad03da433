//! The bytes of texts: their number, prefixes of bounded size, and decoding.
use vstd::prelude::*;
use vstd::utf8::{decode_utf8, encode_scalar, encode_utf8, valid_utf8};

use crate::text::{chars_of, owned, text_range};

verus! {

/// The number of bytes a character takes in UTF-8.
pub open spec fn width(c: char) -> nat {
    let u = c as u32;
    if u < 0x80 {
        1
    } else if u < 0x800 {
        2
    } else if u < 0x10000 {
        3
    } else {
        4
    }
}

/// The number of bytes a text takes in UTF-8.
pub open spec fn size(s: Seq<char>) -> nat {
    encode_utf8(s).len()
}

proof fn lemma_width(c: char)
    ensures
        encode_scalar(c as u32).len() == width(c),
{
}

/// One more character adds its width.
pub proof fn lemma_size_push(s: Seq<char>, c: char)
    ensures
        size(s.push(c)) == size(s) + width(c),
    decreases s.len(),
{
    let t = s.push(c);
    lemma_width(c);
    if s.len() == 0 {
        assert(t.drop_first() =~= Seq::<char>::empty());
        assert(encode_utf8(t.drop_first()).len() == 0);
        assert(encode_utf8(t) == encode_scalar(t[0] as u32) + encode_utf8(t.drop_first()));
    } else {
        assert(t.drop_first() =~= s.drop_first().push(c));
        lemma_size_push(s.drop_first(), c);
        assert(encode_utf8(t) == encode_scalar(t[0] as u32) + encode_utf8(t.drop_first()));
        assert(encode_utf8(s) == encode_scalar(s[0] as u32) + encode_utf8(s.drop_first()));
    }
}

/// A longer prefix takes no fewer bytes.
pub proof fn lemma_size_monotone(s: Seq<char>, i: int, j: int)
    requires
        0 <= i <= j <= s.len(),
    ensures
        size(s.take(i)) + (j - i) <= size(s.take(j)),
    decreases j - i,
{
    if i < j {
        lemma_size_monotone(s, i, j - 1);
        assert(s.take(j) =~= s.take(j - 1).push(s[j - 1]));
        lemma_size_push(s.take(j - 1), s[j - 1]);
    }
}

/// The number of bytes of a text.
pub fn byte_len(s: &str) -> (r: usize)
    ensures
        r == size(s@),
{
    let b = s.as_bytes();
    b.len()
}

fn char_width(c: char) -> (r: usize)
    ensures
        r == width(c),
{
    let u: u32 = c as u32;
    if u < 0x80 {
        1
    } else if u < 0x800 {
        2
    } else if u < 0x10000 {
        3
    } else {
        4
    }
}

/// `t` is the longest prefix of `s` that takes at most `limit` bytes.
pub open spec fn longest_prefix(s: Seq<char>, t: Seq<char>, limit: nat) -> bool {
    &&& t.len() <= s.len()
    &&& t == s.take(t.len() as int)
    &&& size(t) <= limit
    &&& t.len() < s.len() ==> size(s.take(t.len() as int + 1)) > limit
}

/// There is only one longest prefix.
pub proof fn lemma_longest_unique(s: Seq<char>, a: Seq<char>, b: Seq<char>, limit: nat)
    requires
        longest_prefix(s, a, limit),
        longest_prefix(s, b, limit),
    ensures
        a == b,
{
    if a.len() < b.len() {
        lemma_size_monotone(s, a.len() as int + 1, b.len() as int);
    }
    if b.len() < a.len() {
        lemma_size_monotone(s, b.len() as int + 1, a.len() as int);
    }
}

/// The longest prefix of `s` that takes at most `limit` bytes.
pub open spec fn prefix_within(s: Seq<char>, limit: nat) -> Seq<char> {
    choose|t: Seq<char>| longest_prefix(s, t, limit)
}

/// The text cut to at most `limit` bytes at a character's end, and whether
/// anything was cut off.
pub fn truncate_utf8_prefix(text: &str, limit: usize) -> (r: (String, bool))
    ensures
        r.0@ == prefix_within(text@, limit as nat),
        longest_prefix(text@, r.0@, limit as nat),
        r.1 == (size(text@) > limit),
        !r.1 ==> r.0@ == text@,
{
    if byte_len(text) <= limit {
        assert(text@.take(text@.len() as int) =~= text@);
        proof {
            let t = prefix_within(text@, limit as nat);
            assert(longest_prefix(text@, text@, limit as nat));
            lemma_longest_unique(text@, t, text@, limit as nat);
        }
        return (owned(text), false);
    }
    let v = chars_of(text);
    let mut used: usize = 0;
    let mut i: usize = 0;
    assert(v@.take(0) =~= Seq::<char>::empty());
    assert(size(v@.take(0)) == 0);
    while i < v.len() && char_width(v[i]) <= limit - used
        invariant
            i <= v@.len(),
            used == size(v@.take(i as int)),
            used <= limit,
        decreases v.len() - i,
    {
        proof {
            assert(v@.take(i + 1) =~= v@.take(i as int).push(v@[i as int]));
            lemma_size_push(v@.take(i as int), v@[i as int]);
        }
        used = used + char_width(v[i]);
        i = i + 1;
    }
    proof {
        if i < v@.len() {
            assert(v@.take(i + 1) =~= v@.take(i as int).push(v@[i as int]));
            lemma_size_push(v@.take(i as int), v@[i as int]);
        } else {
            assert(v@.take(i as int) =~= v@);
        }
        let t = v@.take(i as int);
        assert(longest_prefix(text@, t, limit as nat));
        lemma_longest_unique(text@, prefix_within(text@, limit as nat), t, limit as nat);
        assert(v@.subrange(0, i as int) =~= t);
    }
    (text_range(&v, 0, i), true)
}

/// What `String::from_utf8_lossy` makes of bytes.
pub uninterp spec fn lossy_text(bytes: Seq<u8>) -> Seq<char>;

/// `String::from_utf8_lossy`: the text of the bytes, with invalid sequences
/// replaced. Bytes that are valid UTF-8 give the text they encode.
#[verifier::external_body]
pub(crate) fn lossy(bytes: &Vec<u8>) -> (r: String)
    ensures
        r@ == lossy_text(bytes@),
        valid_utf8(bytes@) ==> r@ == decode_utf8(bytes@),
{
    String::from_utf8_lossy(bytes).into_owned()
}

/// `String::from_utf8`: the text that the bytes encode, where they are valid
/// UTF-8.
#[verifier::external_body]
pub(crate) fn strict(bytes: &Vec<u8>) -> (r: Option<String>)
    ensures
        match r {
            Some(s) => valid_utf8(bytes@) && s@ == decode_utf8(bytes@),
            None => !valid_utf8(bytes@),
        },
{
    String::from_utf8(bytes.clone()).ok()
}

/// A copy of the bytes `from..to`.
pub fn byte_range(v: &Vec<u8>, from: usize, to: usize) -> (r: Vec<u8>)
    requires
        from <= to <= v@.len(),
    ensures
        r@ == v@.subrange(from as int, to as int),
{
    let mut out: Vec<u8> = Vec::new();
    let mut i: usize = from;
    while i < to
        invariant
            from <= i <= to <= v@.len(),
            out@ == v@.subrange(from as int, i as int),
        decreases to - i,
    {
        out.push(v[i]);
        i = i + 1;
        assert(out@ =~= v@.subrange(from as int, i as int));
    }
    out
}

/// The pieces of `s` between line feed bytes.
pub open spec fn byte_pieces(s: Seq<u8>) -> Seq<Seq<u8>>
    decreases s.len(),
{
    if s.len() == 0 {
        seq![Seq::<u8>::empty()]
    } else if s.last() == 10 {
        byte_pieces(s.drop_last()).push(Seq::<u8>::empty())
    } else {
        let head = byte_pieces(s.drop_last());
        head.drop_last().push(head.last().push(s.last()))
    }
}

/// A line without one trailing carriage return byte.
pub open spec fn byte_chomped(s: Seq<u8>) -> Seq<u8> {
    if s.len() > 0 && s.last() == 13 {
        s.drop_last()
    } else {
        s
    }
}

/// The lines of a file: each ends in a line feed, or at the end of the file
/// where there is anything left.
pub open spec fn byte_lines(s: Seq<u8>) -> Seq<Seq<u8>> {
    let ps = byte_pieces(s);
    let ended = ps.drop_last().map_values(|l: Seq<u8>| byte_chomped(l));
    if ps.last().len() == 0 {
        ended
    } else {
        ended.push(ps.last())
    }
}

/// The views of a list of byte strings.
pub open spec fn byte_views(s: Seq<Vec<u8>>) -> Seq<Seq<u8>> {
    s.map_values(|l: Vec<u8>| l@)
}

pub fn split_lines(s: &Vec<u8>) -> (r: Vec<Vec<u8>>)
    ensures
        byte_views(r@) == byte_lines(s@),
{
    let mut done: Vec<Vec<u8>> = Vec::new();
    let mut cur: Vec<u8> = Vec::new();
    let mut i: usize = 0;
    let ghost mut raw: Seq<Seq<u8>> = Seq::empty();
    assert(raw.push(cur@) =~= byte_pieces(s@.take(0)));
    assert(byte_views(done@) =~= raw.map_values(|l: Seq<u8>| byte_chomped(l)));
    while i < s.len()
        invariant
            i <= s@.len(),
            raw.push(cur@) == byte_pieces(s@.take(i as int)),
            byte_views(done@) == raw.map_values(|l: Seq<u8>| byte_chomped(l)),
        decreases s.len() - i,
    {
        let b: u8 = s[i];
        let ghost was = raw.push(cur@);
        let ghost was_done = done@;
        assert(s@.take(i + 1).drop_last() =~= s@.take(i as int));
        assert(s@.take(i + 1).last() == b);
        if b == 10 {
            let ghost piece = cur@;
            proof {
                raw = was;
            }
            if cur.len() > 0 && cur[cur.len() - 1] == 13 {
                let _ = cur.pop();
            }
            assert(cur@ =~= byte_chomped(piece));
            done.push(cur);
            cur = Vec::new();
            assert(byte_views(done@) =~= byte_views(was_done).push(byte_chomped(piece)));
            assert(raw.map_values(|l: Seq<u8>| byte_chomped(l)) =~= byte_views(was_done).push(
                byte_chomped(piece),
            ));
        } else {
            cur.push(b);
            assert(was.drop_last() =~= raw);
        }
        i = i + 1;
    }
    assert(s@.take(i as int) =~= s@);
    assert(byte_pieces(s@).drop_last() =~= raw);
    if cur.len() > 0 {
        let ghost was_done = done@;
        let ghost last = cur@;
        done.push(cur);
        assert(byte_views(done@) =~= byte_views(was_done).push(last));
    }
    done
}

// ----- laws -----
proof fn lemma_byte_pieces_nonempty(s: Seq<u8>)
    ensures
        byte_pieces(s).len() > 0,
    decreases s.len(),
{
    if s.len() > 0 {
        lemma_byte_pieces_nonempty(s.drop_last());
    }
}

proof fn lemma_byte_pieces_solid(b: Seq<u8>)
    requires
        forall|j: int| 0 <= j < b.len() ==> #[trigger] b[j] != 10,
    ensures
        byte_pieces(b) == seq![b],
    decreases b.len(),
{
    if b.len() > 0 {
        lemma_byte_pieces_solid(b.drop_last());
        assert(b.drop_last().push(b.last()) =~= b);
        assert(byte_pieces(b) =~= seq![b]);
    } else {
        assert(b =~= Seq::<u8>::empty());
    }
}

proof fn lemma_byte_pieces_append(a: Seq<u8>, b: Seq<u8>)
    requires
        forall|j: int| 0 <= j < b.len() ==> #[trigger] b[j] != 10,
    ensures
        byte_pieces(a + seq![10u8] + b) == byte_pieces(a).push(b),
    decreases b.len(),
{
    let s = a + seq![10u8] + b;
    if b.len() == 0 {
        assert(s.drop_last() =~= a);
        assert(b =~= Seq::<u8>::empty());
    } else {
        let less = b.drop_last();
        lemma_byte_pieces_append(a, less);
        assert(s.drop_last() =~= a + seq![10u8] + less);
        assert(s.last() == b.last());
        assert(less.push(b.last()) =~= b);
        assert(byte_pieces(s) =~= byte_pieces(a).push(b));
    }
}

/// The lines of a file are what stands before each line feed, without one
/// carriage return before it, and what is left after the last: a file that ends
/// in a line feed, or is empty, has one line more for each line that is added.
pub proof fn law_file_lines_end_at_line_feeds(s: Seq<u8>, l: Seq<u8>)
    requires
        s.len() == 0 || s.last() == 10,
        forall|j: int| 0 <= j < l.len() ==> #[trigger] l[j] != 10,
    ensures
        byte_lines(Seq::<u8>::empty()) == Seq::<Seq<u8>>::empty(),
        l.len() == 0 || l.last() != 13 ==> byte_lines(s + l + seq![10u8]) == byte_lines(s).push(l),
        byte_lines(s + l + seq![13u8, 10u8]) == byte_lines(s).push(l),
        l.len() > 0 ==> byte_lines(s + l) == byte_lines(s).push(l),
{
    assert(byte_lines(Seq::<u8>::empty()) =~= Seq::<Seq<u8>>::empty());
    let before = byte_pieces(s);
    lemma_byte_pieces_nonempty(s);
    let lr = l.push(13u8);
    assert forall|j: int| 0 <= j < lr.len() implies #[trigger] lr[j] != 10 by {
        if j < l.len() {
            assert(l[j] != 10);
        }
    }
    if s.len() > 0 {
        assert(before.last().len() == 0);
        let a = s.drop_last();
        assert(a + seq![10u8] + l =~= s + l);
        lemma_byte_pieces_append(a, l);
        assert(before =~= byte_pieces(a).push(Seq::<u8>::empty()));
        assert(byte_pieces(s + l) =~= before.drop_last().push(l));
        assert(a + seq![10u8] + lr =~= s + l + seq![13u8]);
        lemma_byte_pieces_append(a, lr);
        assert(byte_pieces(s + l + seq![13u8]) =~= before.drop_last().push(lr));
    } else {
        assert(s + l =~= l);
        lemma_byte_pieces_solid(l);
        lemma_byte_pieces_solid(lr);
        assert(s + l + seq![13u8] =~= lr);
        assert(before.drop_last() =~= Seq::<Seq<u8>>::empty());
        assert(byte_pieces(s + l) =~= before.drop_last().push(l));
        assert(byte_pieces(s + l + seq![13u8]) =~= before.drop_last().push(lr));
    }
    let none = Seq::<u8>::empty();
    lemma_byte_pieces_append(s + l, none);
    assert(s + l + seq![10u8] + none =~= s + l + seq![10u8]);
    lemma_byte_pieces_append(s + l + seq![13u8], none);
    assert(s + l + seq![13u8] + seq![10u8] + none =~= s + l + seq![13u8, 10u8]);
    let f = |x: Seq<u8>| byte_chomped(x);
    assert(byte_lines(s) =~= before.drop_last().map_values(f));
    let p1 = byte_pieces(s + l + seq![10u8]);
    assert(p1.drop_last() =~= before.drop_last().push(l));
    assert(p1.drop_last().map_values(f) =~= before.drop_last().map_values(f).push(byte_chomped(l)));
    let p2 = byte_pieces(s + l + seq![13u8, 10u8]);
    assert(p2.drop_last() =~= before.drop_last().push(lr));
    assert(lr.drop_last() =~= l);
    assert(p2.drop_last().map_values(f) =~= before.drop_last().map_values(f).push(l));
    let p3 = byte_pieces(s + l);
    assert(p3.drop_last() =~= before.drop_last());
}

/// No line of a file holds a line feed.
pub proof fn lemma_file_lines_hold_no_line_feed(s: Seq<u8>)
    ensures
        forall|i: int, j: int|
            0 <= i < byte_lines(s).len() && 0 <= j < byte_lines(s)[i].len() ==> #[trigger]
            byte_lines(s)[i][j] != 10,
{
    lemma_byte_pieces_free(s);
    let ps = byte_pieces(s);
    lemma_byte_pieces_nonempty(s);
    let ls = byte_lines(s);
    assert forall|i: int, j: int|
        0 <= i < ls.len() && 0 <= j < ls[i].len() implies #[trigger] ls[i][j] != 10 by {
        assert(ps[i][j] != 10);
    }
}

proof fn lemma_byte_pieces_free(s: Seq<u8>)
    ensures
        forall|i: int, j: int|
            0 <= i < byte_pieces(s).len() && 0 <= j < byte_pieces(s)[i].len() ==> #[trigger]
            byte_pieces(s)[i][j] != 10,
    decreases s.len(),
{
    if s.len() > 0 {
        let head = byte_pieces(s.drop_last());
        lemma_byte_pieces_free(s.drop_last());
        lemma_byte_pieces_nonempty(s.drop_last());
        let ps = byte_pieces(s);
        assert forall|i: int, j: int|
            0 <= i < ps.len() && 0 <= j < ps[i].len() implies #[trigger] ps[i][j] != 10 by {
            if i < head.len() && j < head[i].len() {
                assert(head[i][j] != 10);
            }
        }
    }
}

proof fn lemma_line_feed_encoded(s: Seq<char>, j: int)
    requires
        0 <= j < s.len(),
        s[j] == '\n',
    ensures
        exists|k: int| 0 <= k < encode_utf8(s).len() && #[trigger] encode_utf8(s)[k] == 10,
    decreases s.len(),
{
    let head = encode_scalar(s[0] as u32);
    let tail = encode_utf8(s.drop_first());
    assert(encode_utf8(s) == head + tail);
    if j == 0 {
        assert((10u32 & 0x7F) as u8 == 10u8) by (bit_vector);
        assert(head[0] == 10);
        assert(encode_utf8(s)[0] == 10);
    } else {
        assert(s.drop_first()[j - 1] == s[j]);
        lemma_line_feed_encoded(s.drop_first(), j - 1);
        let k = choose|k: int| 0 <= k < tail.len() && #[trigger] tail[k] == 10;
        assert(encode_utf8(s)[k + head.len()] == 10);
    }
}

/// The text of bytes without a line feed holds no line feed.
pub proof fn lemma_decoded_without_line_feed(b: Seq<u8>)
    requires
        valid_utf8(b),
        forall|j: int| 0 <= j < b.len() ==> #[trigger] b[j] != 10,
    ensures
        forall|j: int| 0 <= j < decode_utf8(b).len() ==> #[trigger] decode_utf8(b)[j] != '\n',
{
    let s = decode_utf8(b);
    vstd::utf8::decode_utf8_encode_utf8(b);
    assert forall|j: int| 0 <= j < s.len() implies #[trigger] s[j] != '\n' by {
        if s[j] == '\n' {
            lemma_line_feed_encoded(s, j);
            let k = choose|k: int| 0 <= k < encode_utf8(s).len() && #[trigger] encode_utf8(s)[k]
                == 10;
            assert(b[k] != 10);
        }
    }
}

proof fn lemma_prefix_exists(s: Seq<char>, limit: nat, k: int)
    requires
        0 <= k <= s.len(),
        k < s.len() ==> size(s.take(k + 1)) > limit,
    ensures
        exists|t: Seq<char>| longest_prefix(s, t, limit),
    decreases k,
{
    if size(s.take(k)) <= limit {
        let t = s.take(k);
        assert(s.take(t.len() as int) =~= t);
        assert(longest_prefix(s, t, limit));
    } else if k == 0 {
        assert(s.take(0) =~= Seq::<char>::empty());
        assert(size(s.take(0)) == 0);
    } else {
        lemma_prefix_exists(s, limit, k - 1);
    }
}

/// A text cut to a number of bytes is its longest prefix that takes no more: all
/// of it where all of it fits.
pub proof fn law_cut_texts_are_the_longest_that_fit(s: Seq<char>, limit: nat)
    ensures
        ({
            let t = prefix_within(s, limit);
            &&& t.len() <= s.len()
            &&& t == s.take(t.len() as int)
            &&& encode_utf8(t).len() <= limit
            &&& t.len() < s.len() ==> encode_utf8(s.take(t.len() as int + 1)).len() > limit
        }),
        encode_utf8(s).len() <= limit ==> prefix_within(s, limit) == s,
{
    assert(s.take(s.len() as int) =~= s);
    lemma_prefix_exists(s, limit, s.len() as int);
    let t = prefix_within(s, limit);
    assert(longest_prefix(s, t, limit));
    if size(s) <= limit {
        assert(longest_prefix(s, s, limit));
        lemma_longest_unique(s, t, s, limit);
    }
}

} // verus!
