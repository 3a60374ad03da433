//! Names that other tools accept, made from the names of agents.
use vstd::prelude::*;

use crate::text::{alnum, cat, chars_of, digit, is_alnum, is_digit, text_of};

verus! {

/// A letter or digit, or one of the marks that are let through.
pub open spec fn keeps(c: char, hyphen: bool, underscore: bool) -> bool {
    is_alnum(c) || (hyphen && c == '-') || (underscore && c == '_')
}

/// The name with every other character replaced by `other`.
pub open spec fn kept(name: Seq<char>, hyphen: bool, underscore: bool, other: char) -> Seq<char> {
    name.map_values(
        |c: char|
            if keeps(c, hyphen, underscore) {
                c
            } else {
                other
            },
    )
}

pub fn keep(name: &str, hyphen: bool, underscore: bool, other: char) -> (r: String)
    ensures
        r@ == kept(name@, hyphen, underscore, other),
{
    let v = chars_of(name);
    let mut out: Vec<char> = Vec::new();
    let mut i: usize = 0;
    while i < v.len()
        invariant
            i <= v@.len(),
            v@ == name@,
            out@ =~= kept(name@, hyphen, underscore, other).take(i as int),
        decreases v.len() - i,
    {
        let c = v[i];
        if alnum(c) || (hyphen && c == '-') || (underscore && c == '_') {
            out.push(c);
        } else {
            out.push(other);
        }
        i = i + 1;
    }
    assert(kept(name@, hyphen, underscore, other).take(i as int) =~= kept(
        name@,
        hyphen,
        underscore,
        other,
    ));
    text_of(&out)
}

/// Nothing, or something that starts with a digit.
pub open spec fn digit_led(s: Seq<char>) -> bool {
    s.len() == 0 || is_digit(s[0])
}

fn starts_badly(s: &str) -> (r: bool)
    ensures
        r == digit_led(s@),
{
    let v = chars_of(s);
    v.len() == 0 || digit(v[0])
}

/// A package name made from the name of an agent.
pub open spec fn crate_name_of(name: Seq<char>) -> Seq<char> {
    let k = kept(name, true, true, '_');
    if digit_led(k) {
        "agent-"@ + k
    } else {
        k
    }
}

/// A package name made from the name of an agent.
pub fn sanitize_crate_name(name: &str) -> (r: String)
    ensures
        r@ == crate_name_of(name@),
{
    let k = keep(name, true, true, '_');
    if starts_badly(k.as_str()) {
        cat("agent-", k.as_str())
    } else {
        k
    }
}

/// A package name made from a name, with `separator` for what cannot stand.
pub open spec fn rust_name_of(name: Seq<char>, separator: char) -> Seq<char> {
    let k = kept(name, true, true, separator);
    if digit_led(k) {
        "agent-"@ + k
    } else {
        k
    }
}

/// A package name made from a name, with `separator` for what cannot stand.
pub fn sanitize_rust_name(name: &str, separator: char) -> (r: String)
    ensures
        r@ == rust_name_of(name@, separator),
{
    let k = keep(name, true, true, separator);
    if starts_badly(k.as_str()) {
        cat("agent-", k.as_str())
    } else {
        k
    }
}

/// A module name made from the name of an agent.
pub open spec fn module_of(name: Seq<char>) -> Seq<char> {
    let k = kept(name, false, true, '_');
    if digit_led(k) {
        "_"@ + k
    } else {
        k
    }
}

/// A Python module name made from the name of an agent.
pub fn python_module_name(name: &str) -> (r: String)
    ensures
        r@ == module_of(name@),
{
    let k = keep(name, false, true, '_');
    if starts_badly(k.as_str()) {
        cat("_", k.as_str())
    } else {
        k
    }
}

/// The parameter that stands for a runtime argument.
pub open spec fn py_arg_of(name: Seq<char>) -> Seq<char> {
    kept(name, false, true, '_')
}

/// The Python parameter that stands for a runtime argument.
pub fn py_arg(name: &str) -> (r: String)
    ensures
        r@ == py_arg_of(name@),
{
    keep(name, false, true, '_')
}

/// The name of a schema made from the path of a type.
pub open spec fn schema_name_of(rust_type: Seq<char>) -> Seq<char> {
    kept(rust_type, false, false, '_')
}

/// The name of a schema made from the path of a type.
pub fn schema_name_from_rust_type(rust_type: &str) -> (r: String)
    ensures
        r@ == schema_name_of(rust_type@),
{
    keep(rust_type, false, false, '_')
}

// ----- laws -----
proof fn lemma_kept(name: Seq<char>, hyphen: bool, underscore: bool, other: char)
    requires
        keeps(other, hyphen, underscore),
    ensures
        kept(name, hyphen, underscore, other).len() == name.len(),
        forall|i: int|
            0 <= i < name.len() ==> keeps(
                #[trigger] kept(name, hyphen, underscore, other)[i],
                hyphen,
                underscore,
            ),
        kept(kept(name, hyphen, underscore, other), hyphen, underscore, other) == kept(
            name,
            hyphen,
            underscore,
            other,
        ),
{
    let k = kept(name, hyphen, underscore, other);
    assert(kept(k, hyphen, underscore, other) =~= k);
}

/// A package name is not empty, does not start with a digit, and holds letters,
/// digits, hyphens and underscores alone; a package name stays as it is.
pub proof fn law_crate_names_are_legal(name: Seq<char>)
    ensures
        !digit_led(crate_name_of(name)),
        forall|i: int|
            0 <= i < crate_name_of(name).len() ==> keeps(
                #[trigger] crate_name_of(name)[i],
                true,
                true,
            ),
        crate_name_of(crate_name_of(name)) == crate_name_of(name),
{
    lemma_kept(name, true, true, '_');
    let k = kept(name, true, true, '_');
    let r = crate_name_of(name);
    reveal_strlit("agent-");
    let a = "agent-"@;
    assert(a.len() == 6 && a[0] == 'a' && a[1] == 'g' && a[2] == 'e' && a[3] == 'n' && a[4] == 't'
        && a[5] == '-');
    assert forall|i: int| 0 <= i < r.len() implies keeps(#[trigger] r[i], true, true) by {
        if digit_led(k) && i >= 6 {
            assert(r[i] == k[i - 6]);
        }
    }
    assert(kept(r, true, true, '_') =~= r);
}

/// A module name is not empty, does not start with a digit, and holds letters,
/// digits and underscores alone; a module name stays as it is.
pub proof fn law_module_names_are_legal(name: Seq<char>)
    ensures
        !digit_led(module_of(name)),
        forall|i: int|
            0 <= i < module_of(name).len() ==> keeps(#[trigger] module_of(name)[i], false, true),
        module_of(module_of(name)) == module_of(name),
{
    lemma_kept(name, false, true, '_');
    let k = kept(name, false, true, '_');
    let r = module_of(name);
    reveal_strlit("_");
    assert("_"@.len() == 1 && "_"@[0] == '_');
    assert forall|i: int| 0 <= i < r.len() implies keeps(#[trigger] r[i], false, true) by {
        if digit_led(k) && i >= 1 {
            assert(r[i] == k[i - 1]);
        }
    }
    assert(kept(r, false, true, '_') =~= r);
}

} // verus!
