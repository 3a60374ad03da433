//! The schemas by which tools are advertised to a model.
use vstd::prelude::*;

use crate::json::{
    field, law_the_first_member_of_a_name_counts, no_fields, Data, Field, Json, Members,
};
use crate::text::{owned, views};

verus! {

/// How a tool is advertised: its name, what it does, and what its arguments
/// look like.
#[derive(Debug)]
pub struct ToolSchema {
    pub name: String,
    pub description: String,
    pub parameters: Data,
}

/// What a [`ToolSchema`] denotes.
pub struct Schema {
    pub name: Seq<char>,
    pub description: Seq<char>,
    pub parameters: Json,
}

impl View for ToolSchema {
    type V = Schema;

    open spec fn view(&self) -> Schema {
        Schema {
            name: self.name@,
            description: self.description@,
            parameters: self.parameters@,
        }
    }
}

impl ToolSchema {
    pub fn new(name: &str, description: &str, parameters: Data) -> (r: ToolSchema)
        ensures
            r@ == (Schema {
                name: name@,
                description: description@,
                parameters: parameters@,
            }),
    {
        ToolSchema { name: owned(name), description: owned(description), parameters }
    }

    /// A schema that denotes the same.
    pub fn copy(&self) -> (r: ToolSchema)
        ensures
            r@ == self@,
    {
        ToolSchema {
            name: self.name.clone(),
            description: self.description.clone(),
            parameters: self.parameters.copy(),
        }
    }
}

/// One field, where there is something to put into it.
pub open spec fn optional_field(key: Seq<char>, value: Option<Json>) -> Seq<Field> {
    match value {
        Some(v) => seq![field(key, v)],
        None => Seq::empty(),
    }
}

/// The description of one argument: its type, the least and the greatest
/// number it takes, and what it is for, each as far as it is said.
pub open spec fn argument(
    kind: Seq<char>,
    least: Option<int>,
    greatest: Option<int>,
    what: Option<Seq<char>>,
) -> Json {
    Json::Object(
        seq![field("type"@, Json::Str(kind))] + optional_field(
            "minimum"@,
            match least {
                Some(n) => Some(Json::Int(n)),
                None => None,
            },
        ) + optional_field(
            "maximum"@,
            match greatest {
                Some(n) => Some(Json::Int(n)),
                None => None,
            },
        ) + optional_field(
            "description"@,
            match what {
                Some(t) => Some(Json::Str(t)),
                None => None,
            },
        ),
    )
}

/// The view of an optional number.
pub open spec fn opt_int(n: Option<u64>) -> Option<int> {
    match n {
        Some(n) => Some(n as int),
        None => None,
    }
}

/// Describes one argument.
pub fn describe(kind: &str, least: Option<u64>, greatest: Option<u64>, what: Option<&str>) -> (r:
    Data)
    ensures
        r@ == argument(kind@, opt_int(least), opt_int(greatest), crate::json::opt_str_view(what)),
{
    let mut m = Members::new().with("type", Data::string(kind));
    let ghost a = m@;
    assert(a + Seq::<Field>::empty() =~= a);
    if let Some(n) = least {
        m = m.with("minimum", Data::number(n));
    }
    let ghost b = m@;
    assert(b =~= a + optional_field(
        "minimum"@,
        match opt_int(least) {
            Some(n) => Some(Json::Int(n)),
            None => None,
        },
    ));
    if let Some(n) = greatest {
        m = m.with("maximum", Data::number(n));
    }
    let ghost c = m@;
    assert(c =~= b + optional_field(
        "maximum"@,
        match opt_int(greatest) {
            Some(n) => Some(Json::Int(n)),
            None => None,
        },
    ));
    if let Some(t) = what {
        m = m.with("description", Data::string(t));
    }
    assert(m@ =~= c + optional_field(
        "description"@,
        match crate::json::opt_str_view(what) {
            Some(t) => Some(Json::Str(t)),
            None => None,
        },
    ));
    m.object()
}

/// A text argument.
pub open spec fn text_argument(what: Seq<char>) -> Json {
    argument("string"@, None, None, Some(what))
}

pub fn describe_text(what: &str) -> (r: Data)
    ensures
        r@ == text_argument(what@),
{
    describe("string", None, None, Some(what))
}

/// A whole-number argument within bounds.
pub open spec fn bounded_argument(least: int, greatest: int, what: Seq<char>) -> Json {
    argument("integer"@, Some(least), Some(greatest), Some(what))
}

pub fn describe_bounded(least: u64, greatest: u64, what: &str) -> (r: Data)
    ensures
        r@ == bounded_argument(least as int, greatest as int, what@),
{
    describe("integer", Some(least), Some(greatest), Some(what))
}

/// An array of texts.
pub open spec fn text_array(list: Seq<Seq<char>>) -> Json {
    Json::Array(list.map_values(|s: Seq<char>| Json::Str(s)))
}

/// The arguments of a tool: an object with the given properties and no others,
/// of which the listed ones are required.
pub open spec fn arguments(properties: Seq<Field>, required: Seq<Seq<char>>) -> Json {
    Json::Object(
        no_fields().push(field("type"@, Json::Str("object"@))).push(
            field("properties"@, Json::Object(properties)),
        ).push(field("required"@, text_array(required))).push(
            field("additionalProperties"@, Json::Bool(false)),
        ),
    )
}

/// The arguments of a tool that requires none of them.
pub open spec fn free_arguments(properties: Seq<Field>) -> Json {
    Json::Object(
        no_fields().push(field("type"@, Json::Str("object"@))).push(
            field("properties"@, Json::Object(properties)),
        ).push(field("additionalProperties"@, Json::Bool(false))),
    )
}

pub fn object_schema(properties: Members, required: &Vec<String>) -> (r: Data)
    ensures
        r@ == arguments(properties@, views(required@)),
{
    let req = Data::strings(required);
    assert(required@.map_values(|s: String| Json::Str(s@)) =~= views(required@).map_values(
        |s: Seq<char>| Json::Str(s),
    ));
    Members::new().with("type", Data::string("object")).with(
        "properties",
        properties.object(),
    ).with("required", req).with("additionalProperties", Data::boolean(false)).object()
}

pub fn free_schema(properties: Members) -> (r: Data)
    ensures
        r@ == free_arguments(properties@),
{
    Members::new().with("type", Data::string("object")).with(
        "properties",
        properties.object(),
    ).with("additionalProperties", Data::boolean(false)).object()
}

/// A list of one string.
pub fn one(a: &str) -> (r: Vec<String>)
    ensures
        views(r@) == seq![a@],
{
    let mut v: Vec<String> = Vec::new();
    v.push(owned(a));
    assert(views(v@) =~= seq![a@]);
    v
}

/// A list of two strings.
pub fn two(a: &str, b: &str) -> (r: Vec<String>)
    ensures
        views(r@) == seq![a@, b@],
{
    let mut v: Vec<String> = Vec::new();
    v.push(owned(a));
    v.push(owned(b));
    assert(views(v@) =~= seq![a@, b@]);
    v
}

/// The description of arguments is of an object that has the properties given, needs
/// those that are required and takes no others.
pub proof fn law_arguments_tell_what_is_taken(properties: Seq<Field>, required: Seq<Seq<char>>, i: int)
    ensures
        ({
            let r = arguments(properties, required);
            &&& r.get_str("type"@) == Some("object"@)
            &&& r.get("properties"@) == Some(Json::Object(properties))
            &&& r.get_bool("additionalProperties"@) == Some(false)
            &&& r.get("required"@) matches Some(Json::Array(names)) && names.len() == required.len() && (0 <= i < names.len() ==> names[i] == Json::Str(required[i]))
        }),
{
    reveal_strlit("type");
    reveal_strlit("properties");
    reveal_strlit("required");
    reveal_strlit("additionalProperties");
    assert("type"@.len() == 4);
    assert("properties"@.len() == 10);
    assert("required"@.len() == 8);
    assert("additionalProperties"@.len() == 20);
    let fs = arguments(properties, required)->Object_0;
    assert(fs[0].key == "type"@);
    assert(fs[1].key == "properties"@);
    assert(fs[2].key == "required"@);
    assert(fs[3].key == "additionalProperties"@);
    law_the_first_member_of_a_name_counts(fs, 0);
    law_the_first_member_of_a_name_counts(fs, 1);
    law_the_first_member_of_a_name_counts(fs, 2);
    law_the_first_member_of_a_name_counts(fs, 3);
}

/// An argument is described by its kind, its bounds and what it is for.
pub proof fn law_bounded_arguments_tell_their_bounds(least: int, greatest: int, what: Seq<char>)
    ensures
        ({
            let r = bounded_argument(least, greatest, what);
            &&& r.get_str("type"@) == Some("integer"@)
            &&& r.get("minimum"@) == Some(Json::Int(least))
            &&& r.get("maximum"@) == Some(Json::Int(greatest))
            &&& r.get_str("description"@) == Some(what)
        }),
        text_argument(what).get_str("type"@) == Some("string"@),
        text_argument(what).get_str("description"@) == Some(what),
{
    reveal_strlit("type");
    reveal_strlit("minimum");
    reveal_strlit("maximum");
    reveal_strlit("description");
    assert("type"@.len() == 4);
    assert("minimum"@.len() == 7);
    assert("maximum"@.len() == 7);
    assert("description"@.len() == 11);
    assert("minimum"@[1] != "maximum"@[1]);
    let fs = bounded_argument(least, greatest, what)->Object_0;
    assert(fs[0].key == "type"@);
    assert(fs[1].key == "minimum"@);
    assert(fs[2].key == "maximum"@);
    assert(fs[3].key == "description"@);
    law_the_first_member_of_a_name_counts(fs, 0);
    law_the_first_member_of_a_name_counts(fs, 1);
    law_the_first_member_of_a_name_counts(fs, 2);
    law_the_first_member_of_a_name_counts(fs, 3);
    let gs = text_argument(what)->Object_0;
    assert(gs[0].key == "type"@);
    assert(gs[1].key == "description"@);
    law_the_first_member_of_a_name_counts(gs, 0);
    law_the_first_member_of_a_name_counts(gs, 1);
}

} // verus!
