//! Strings as sequences of characters: searching, splitting, trimming,
//! joining and decimal numerals, each with the sequence it denotes.
use vstd::prelude::*;

verus! {

/// The views of a sequence of strings.
pub open spec fn views(s: Seq<String>) -> Seq<Seq<char>> {
    s.map_values(|t: String| t@)
}

/// `std::string::String::push` appends one character to the end of the string.
pub assume_specification[ String::push ](s: &mut String, c: char)
    ensures
        final(s)@ == old(s)@.push(c),
;

/// `<str as PartialEq>::eq`: two string slices are equal exactly when they
/// hold the same characters.
#[verifier::external_body]
fn str_eq(a: &str, b: &str) -> (r: bool)
    ensures
        r == (a@ == b@),
{
    a == b
}

/// Whether two strings hold the same characters.
pub fn same(a: &str, b: &str) -> (r: bool)
    ensures
        r == (a@ == b@),
{
    str_eq(a, b)
}

/// The characters of a string, in order.
pub fn chars_of(s: &str) -> (r: Vec<char>)
    ensures
        r@ == s@,
{
    let mut out: Vec<char> = Vec::new();
    for c in it: s.chars()
        invariant
            out@ == it.seq().take(it.index() as int),
            it.seq() == s@,
    {
        out.push(c);
    }
    out
}

/// The string made of the characters `from..to` of `v`.
pub fn text_range(v: &Vec<char>, from: usize, to: usize) -> (r: String)
    requires
        from <= to <= v@.len(),
    ensures
        r@ == v@.subrange(from as int, to as int),
{
    let mut out = String::new();
    let mut i: usize = from;
    while i < to
        invariant
            from <= i <= to <= v@.len(),
            out@ == v@.subrange(from as int, i as int),
        decreases to - i,
    {
        out.push(v[i]);
        i = i + 1;
        proof {
            assert(v@.subrange(from as int, i as int) =~= v@.subrange(from as int, i - 1).push(
                v@[i - 1],
            ));
        }
    }
    out
}

/// The string made of all the characters of `v`.
pub fn text_of(v: &Vec<char>) -> (r: String)
    ensures
        r@ == v@,
{
    let r = text_range(v, 0, v.len());
    assert(v@.subrange(0, v@.len() as int) =~= v@);
    r
}

/// An owned copy of a string slice.
pub fn owned(s: &str) -> (r: String)
    ensures
        r@ == s@,
{
    s.to_string()
}

/// Two strings one after the other.
pub fn cat(a: &str, b: &str) -> (r: String)
    ensures
        r@ == a@ + b@,
{
    let mut s = a.to_string();
    s.append(b);
    s
}

/// Three strings one after the other.
pub fn cat3(a: &str, b: &str, c: &str) -> (r: String)
    ensures
        r@ == a@ + b@ + c@,
{
    let mut s = cat(a, b);
    s.append(c);
    s
}

/// Five strings one after the other.
pub fn cat5(a: &str, b: &str, c: &str, d: &str, e: &str) -> (r: String)
    ensures
        r@ == a@ + b@ + c@ + d@ + e@,
{
    let mut s = cat3(a, b, c);
    s.append(d);
    s.append(e);
    s
}

// ----- characters -----
/// The characters with Unicode's White_Space property.
pub open spec fn is_space(c: char) -> bool {
    let u = c as u32;
    ||| 0x09 <= u <= 0x0d
    ||| u == 0x20
    ||| u == 0x85
    ||| u == 0xa0
    ||| u == 0x1680
    ||| 0x2000 <= u <= 0x200a
    ||| u == 0x2028
    ||| u == 0x2029
    ||| u == 0x202f
    ||| u == 0x205f
    ||| u == 0x3000
}

pub fn space(c: char) -> (r: bool)
    ensures
        r == is_space(c),
{
    let u: u32 = c as u32;
    (0x09 <= u && u <= 0x0d) || u == 0x20 || u == 0x85 || u == 0xa0 || u == 0x1680 || (0x2000 <= u
        && u <= 0x200a) || u == 0x2028 || u == 0x2029 || u == 0x202f || u == 0x205f || u == 0x3000
}

pub open spec fn is_digit(c: char) -> bool {
    '0' <= c <= '9'
}

pub open spec fn is_lower(c: char) -> bool {
    'a' <= c <= 'z'
}

pub open spec fn is_upper(c: char) -> bool {
    'A' <= c <= 'Z'
}

/// ASCII letters and digits.
pub open spec fn is_alnum(c: char) -> bool {
    is_lower(c) || is_upper(c) || is_digit(c)
}

pub fn digit(c: char) -> (r: bool)
    ensures
        r == is_digit(c),
{
    '0' <= c && c <= '9'
}

pub fn lower(c: char) -> (r: bool)
    ensures
        r == is_lower(c),
{
    'a' <= c && c <= 'z'
}

pub fn upper(c: char) -> (r: bool)
    ensures
        r == is_upper(c),
{
    'A' <= c && c <= 'Z'
}

pub fn alnum(c: char) -> (r: bool)
    ensures
        r == is_alnum(c),
{
    lower(c) || upper(c) || digit(c)
}

/// The ASCII lower case of a character; every other character stands for itself.
pub open spec fn lower_char(c: char) -> char {
    if is_upper(c) {
        ((c as u8) + 32) as char
    } else {
        c
    }
}

/// The ASCII upper case of a character; every other character stands for itself.
pub open spec fn upper_char(c: char) -> char {
    if is_lower(c) {
        ((c as u8) - 32) as char
    } else {
        c
    }
}

pub fn to_lower_char(c: char) -> (r: char)
    ensures
        r == lower_char(c),
{
    if upper(c) {
        let b: u8 = c as u8;
        (b + 32) as char
    } else {
        c
    }
}

pub fn to_upper_char(c: char) -> (r: char)
    ensures
        r == upper_char(c),
{
    if lower(c) {
        let b: u8 = c as u8;
        (b - 32) as char
    } else {
        c
    }
}

pub open spec fn lowered(s: Seq<char>) -> Seq<char> {
    s.map_values(|c: char| lower_char(c))
}

pub open spec fn uppered(s: Seq<char>) -> Seq<char> {
    s.map_values(|c: char| upper_char(c))
}

pub fn to_lower(s: &str) -> (r: String)
    ensures
        r@ == lowered(s@),
{
    let v = chars_of(s);
    let mut out = String::new();
    let mut i: usize = 0;
    while i < v.len()
        invariant
            i <= v@.len(),
            out@ == lowered(v@.take(i as int)),
        decreases v.len() - i,
    {
        out.push(to_lower_char(v[i]));
        i = i + 1;
        assert(lowered(v@.take(i as int)) =~= lowered(v@.take(i - 1)).push(lower_char(v@[i - 1])));
    }
    assert(v@.take(i as int) =~= v@);
    out
}

pub fn to_upper(s: &str) -> (r: String)
    ensures
        r@ == uppered(s@),
{
    let v = chars_of(s);
    let mut out = String::new();
    let mut i: usize = 0;
    while i < v.len()
        invariant
            i <= v@.len(),
            out@ == uppered(v@.take(i as int)),
        decreases v.len() - i,
    {
        out.push(to_upper_char(v[i]));
        i = i + 1;
        assert(uppered(v@.take(i as int)) =~= uppered(v@.take(i - 1)).push(upper_char(v@[i - 1])));
    }
    assert(v@.take(i as int) =~= v@);
    out
}

// ----- trimming -----
/// `s` without its longest prefix of characters that satisfy `p`.
pub open spec fn skip_while(s: Seq<char>, p: spec_fn(char) -> bool) -> Seq<char>
    decreases s.len(),
{
    if s.len() > 0 && p(s[0]) {
        skip_while(s.skip(1), p)
    } else {
        s
    }
}

/// `s` without its longest suffix of characters that satisfy `p`.
pub open spec fn drop_while(s: Seq<char>, p: spec_fn(char) -> bool) -> Seq<char>
    decreases s.len(),
{
    if s.len() > 0 && p(s.last()) {
        drop_while(s.drop_last(), p)
    } else {
        s
    }
}

/// `s` without leading white space.
pub open spec fn trimmed_start(s: Seq<char>) -> Seq<char> {
    skip_while(s, |c: char| is_space(c))
}

/// `s` without leading or trailing white space.
pub open spec fn trimmed(s: Seq<char>) -> Seq<char> {
    drop_while(trimmed_start(s), |c: char| is_space(c))
}

pub proof fn lemma_skip_while(s: Seq<char>, p: spec_fn(char) -> bool, i: int)
    requires
        0 <= i <= s.len(),
        forall|j: int| 0 <= j < i ==> p(#[trigger] s[j]),
        i < s.len() ==> !p(s[i]),
    ensures
        skip_while(s, p) == s.skip(i),
    decreases i,
{
    if i == 0 {
        assert(s.skip(0) =~= s);
    } else {
        assert(p(s[0]));
        assert forall|j: int| 0 <= j < i - 1 implies p(#[trigger] s.skip(1)[j]) by {
            assert(s.skip(1)[j] == s[j + 1]);
        }
        lemma_skip_while(s.skip(1), p, i - 1);
        assert(s.skip(1).skip(i - 1) =~= s.skip(i));
    }
}

pub proof fn lemma_drop_while(s: Seq<char>, p: spec_fn(char) -> bool, i: int)
    requires
        0 <= i <= s.len(),
        forall|j: int| i <= j < s.len() ==> p(#[trigger] s[j]),
        i > 0 ==> !p(s[i - 1]),
    ensures
        drop_while(s, p) == s.take(i),
    decreases s.len() - i,
{
    if i == s.len() {
        assert(s.take(i) =~= s);
    } else {
        assert(p(s.last()));
        assert forall|j: int| i <= j < s.len() - 1 implies p(#[trigger] s.drop_last()[j]) by {
            assert(s.drop_last()[j] == s[j]);
        }
        lemma_drop_while(s.drop_last(), p, i);
        assert(s.drop_last().take(i) =~= s.take(i));
    }
}

/// The index of the first character of `v` that is not white space.
fn first_solid(v: &Vec<char>) -> (i: usize)
    ensures
        i <= v@.len(),
        v@.skip(i as int) == trimmed_start(v@),
{
    let mut i: usize = 0;
    while i < v.len() && space(v[i])
        invariant
            i <= v@.len(),
            forall|j: int| 0 <= j < i ==> is_space(#[trigger] v@[j]),
        decreases v.len() - i,
    {
        i = i + 1;
    }
    proof {
        lemma_skip_while(v@, |c: char| is_space(c), i as int);
    }
    i
}

pub fn trim_start(s: &str) -> (r: String)
    ensures
        r@ == trimmed_start(s@),
{
    let v = chars_of(s);
    let i: usize = first_solid(&v);
    assert(v@.subrange(i as int, v@.len() as int) =~= v@.skip(i as int));
    text_range(&v, i, v.len())
}

pub fn trim(s: &str) -> (r: String)
    ensures
        r@ == trimmed(s@),
{
    let v = chars_of(s);
    let i: usize = first_solid(&v);
    let mut k: usize = v.len();
    while k > i && space(v[k - 1])
        invariant
            i <= k <= v@.len(),
            forall|j: int| k <= j < v@.len() ==> is_space(#[trigger] v@[j]),
        decreases k,
    {
        k = k - 1;
    }
    proof {
        let t = v@.skip(i as int);
        assert forall|j: int| k - i <= j < t.len() implies is_space(#[trigger] t[j]) by {
            assert(t[j] == v@[j + i]);
        }
        lemma_drop_while(t, |c: char| is_space(c), k - i);
        assert(t.take(k - i) =~= v@.subrange(i as int, k as int));
    }
    text_range(&v, i, k)
}

/// `s` without leading characters equal to `c`.
pub fn trim_start_matches(s: &str, c: char) -> (r: String)
    ensures
        r@ == skip_while(s@, |d: char| d == c),
{
    let v = chars_of(s);
    let mut i: usize = 0;
    while i < v.len() && v[i] == c
        invariant
            i <= v@.len(),
            forall|j: int| 0 <= j < i ==> #[trigger] v@[j] == c,
        decreases v.len() - i,
    {
        i = i + 1;
    }
    proof {
        lemma_skip_while(v@, |d: char| d == c, i as int);
        assert(v@.subrange(i as int, v@.len() as int) =~= v@.skip(i as int));
    }
    text_range(&v, i, v.len())
}

/// `s` without trailing characters equal to `c`.
pub fn trim_end_matches(s: &str, c: char) -> (r: String)
    ensures
        r@ == drop_while(s@, |d: char| d == c),
{
    let v = chars_of(s);
    let mut k: usize = v.len();
    while k > 0 && v[k - 1] == c
        invariant
            k <= v@.len(),
            forall|j: int| k <= j < v@.len() ==> #[trigger] v@[j] == c,
        decreases k,
    {
        k = k - 1;
    }
    proof {
        lemma_drop_while(v@, |d: char| d == c, k as int);
        assert(v@.subrange(0, k as int) =~= v@.take(k as int));
    }
    text_range(&v, 0, k)
}

/// `s` without trailing white space.
pub open spec fn trimmed_end(s: Seq<char>) -> Seq<char> {
    drop_while(s, |c: char| is_space(c))
}

pub fn trim_end(s: &str) -> (r: String)
    ensures
        r@ == trimmed_end(s@),
{
    let v = chars_of(s);
    let mut k: usize = v.len();
    while k > 0 && space(v[k - 1])
        invariant
            k <= v@.len(),
            forall|j: int| k <= j < v@.len() ==> is_space(#[trigger] v@[j]),
        decreases k,
    {
        k = k - 1;
    }
    proof {
        lemma_drop_while(v@, |c: char| is_space(c), k as int);
        assert(v@.subrange(0, k as int) =~= v@.take(k as int));
    }
    text_range(&v, 0, k)
}

/// Trimming takes white space off both ends and nothing else: the text is some
/// white space, what is left, and some more white space; and what is left starts
/// and ends in something else, where anything is left at all.
pub proof fn law_trimming_takes_off_white_space_alone(s: Seq<char>)
    ensures
        exists|a: int, b: int|
            0 <= a <= b <= s.len() && trimmed(s) == #[trigger] s.subrange(a, b) && (forall|j: int|
                0 <= j < a || b <= j < s.len() ==> is_space(#[trigger] s[j])),
        trimmed(s).len() > 0 ==> !is_space(trimmed(s)[0]) && !is_space(trimmed(s).last()),
        s.len() > 0 && !is_space(s[0]) && !is_space(s.last()) ==> trimmed(s) == s,
{
    let p = |c: char| is_space(c);
    let a = solid_from(s, p, 0);
    lemma_solid_from(s, p, 0);
    lemma_skip_while(s, p, a);
    let t = s.skip(a);
    let k = solid_until(t, p, t.len() as int);
    lemma_solid_until(t, p, t.len() as int);
    lemma_drop_while(t, p, k);
    assert(t.take(k) =~= s.subrange(a, a + k));
    assert forall|j: int| 0 <= j < a || a + k <= j < s.len() implies is_space(#[trigger] s[j]) by {
        if j < a {
            assert(p(s[j]));
        } else {
            assert(t[j - a] == s[j]);
            assert(p(t[j - a]));
        }
    }
    if k > 0 {
        assert(t[0] == s[a]);
        assert(!p(s[a]));
        assert(!p(t[k - 1]));
    }
    if s.len() > 0 && !is_space(s[0]) && !is_space(s.last()) {
        if a > 0 {
            assert(p(s[0]));
        }
        if a + k < s.len() {
            assert(t[s.len() - 1 - a] == s.last());
            assert(p(t[s.len() - 1 - a]));
        }
        assert(s.subrange(0, s.len() as int) =~= s);
    }
}

spec fn solid_from(s: Seq<char>, p: spec_fn(char) -> bool, i: int) -> int
    decreases s.len() - i,
{
    if i < 0 || i >= s.len() || !p(s[i]) {
        i
    } else {
        solid_from(s, p, i + 1)
    }
}

proof fn lemma_solid_from(s: Seq<char>, p: spec_fn(char) -> bool, i: int)
    requires
        0 <= i <= s.len(),
    ensures
        i <= solid_from(s, p, i) <= s.len(),
        forall|j: int| i <= j < solid_from(s, p, i) ==> p(#[trigger] s[j]),
        solid_from(s, p, i) < s.len() ==> !p(s[solid_from(s, p, i)]),
    decreases s.len() - i,
{
    if i < s.len() && p(s[i]) {
        lemma_solid_from(s, p, i + 1);
    }
}

spec fn solid_until(s: Seq<char>, p: spec_fn(char) -> bool, i: int) -> int
    decreases i,
{
    if i <= 0 || i > s.len() || !p(s[i - 1]) {
        i
    } else {
        solid_until(s, p, i - 1)
    }
}

proof fn lemma_solid_until(s: Seq<char>, p: spec_fn(char) -> bool, i: int)
    requires
        0 <= i <= s.len(),
    ensures
        0 <= solid_until(s, p, i) <= i,
        forall|j: int| solid_until(s, p, i) <= j < i ==> p(#[trigger] s[j]),
        solid_until(s, p, i) > 0 ==> !p(s[solid_until(s, p, i) - 1]),
    decreases i,
{
    if i > 0 && p(s[i - 1]) {
        lemma_solid_until(s, p, i - 1);
    }
}

/// Lower case changes the capital letters A to Z, each to its small one, and
/// nothing else.
pub proof fn law_lower_case_changes_capitals_alone(s: Seq<char>, i: int)
    requires
        0 <= i < s.len(),
    ensures
        lowered(s).len() == s.len(),
        !('A' <= s[i] <= 'Z') ==> lowered(s)[i] == s[i],
        'A' <= s[i] <= 'Z' ==> lowered(s)[i] as u32 == s[i] as u32 + 32,
        !('A' <= lowered(s)[i] <= 'Z'),
{
}

} // verus!
