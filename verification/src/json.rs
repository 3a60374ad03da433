//! JSON-like values: what configurations, tool arguments, tool results and
//! tool schemas are made of.
use vstd::prelude::*;

use crate::text::{views, owned, same};

verus! {

/// A structured value. The members of an object keep the order in which they
/// were put in; a name stands for the first member that has it.
#[derive(Debug)]
pub enum Data {
    Null,
    Bool(bool),
    /// A whole number.
    Int(i128),
    /// A number that is not whole, by its decimal text.
    Float(String),
    Str(String),
    Array(Vec<Data>),
    Object(Vec<Member>),
}

/// A named value in an object.
#[derive(Debug)]
pub struct Member {
    pub key: String,
    pub value: Data,
}

/// What a [`Data`] denotes.
pub enum Json {
    Null,
    Bool(bool),
    Int(int),
    Float(Seq<char>),
    Str(Seq<char>),
    Array(Seq<Json>),
    Object(Seq<Field>),
}

/// What a [`Member`] denotes.
pub struct Field {
    pub key: Seq<char>,
    pub value: Json,
}

/// The field named `key` with the value `value`.
pub open spec fn field(key: Seq<char>, value: Json) -> Field {
    Field { key, value }
}

impl View for Data {
    type V = Json;

    open spec fn view(&self) -> Json
        decreases self,
    {
        match self {
            Data::Null => Json::Null,
            Data::Bool(b) => Json::Bool(*b),
            Data::Int(n) => Json::Int(*n as int),
            Data::Float(t) => Json::Float(t@),
            Data::Str(t) => Json::Str(t@),
            Data::Array(items) => Json::Array(
                Seq::new(
                    items@.len(),
                    |i: int|
                        if 0 <= i < items@.len() {
                            items@[i].view()
                        } else {
                            Json::Null
                        },
                ),
            ),
            Data::Object(members) => Json::Object(
                Seq::new(
                    members@.len(),
                    |i: int|
                        if 0 <= i < members@.len() {
                            Field { key: members@[i].key@, value: members@[i].value.view() }
                        } else {
                            Field { key: Seq::empty(), value: Json::Null }
                        },
                ),
            ),
        }
    }
}

/// No fields: what an object is built up from.
pub open spec fn no_fields() -> Seq<Field> {
    Seq::empty()
}

/// No items: what an array is built up from.
pub open spec fn no_items() -> Seq<Json> {
    Seq::empty()
}

/// The items of an array.
pub open spec fn items_view(items: Seq<Data>) -> Seq<Json> {
    items.map_values(|v: Data| v@)
}

/// The members of an object.
pub open spec fn members_view(members: Seq<Member>) -> Seq<Field> {
    members.map_values(|m: Member| Field { key: m.key@, value: m.value@ })
}

pub broadcast proof fn lemma_array_view(items: Vec<Data>)
    ensures
        #[trigger] Data::Array(items)@ == Json::Array(items_view(items@)),
{
    assert(Data::Array(items)@->Array_0 =~= items_view(items@));
}

pub broadcast proof fn lemma_object_view(members: Vec<Member>)
    ensures
        #[trigger] Data::Object(members)@ == Json::Object(members_view(members@)),
{
    let v = Data::Object(members);
    assert(v@ is Object);
    let shown = v@->Object_0;
    assert(shown.len() == members@.len());
    assert forall|i: int| 0 <= i < shown.len() implies shown[i] == members_view(members@)[i] by {
        assert(shown[i].key == members@[i].key@);
        assert(shown[i].value == members@[i].value@);
    }
    assert(shown =~= members_view(members@));
}

impl Json {
    /// The value of the first member named `key`, of members from index `i` on.
    pub open spec fn member_from(
        members: Seq<Field>,
        key: Seq<char>,
        i: int,
    ) -> Option<Json>
        decreases members.len() - i,
    {
        if i < 0 || i >= members.len() {
            None
        } else if members[i].key == key {
            Some(members[i].value)
        } else {
            Json::member_from(members, key, i + 1)
        }
    }

    /// The member of an object that `key` names.
    pub open spec fn get(self, key: Seq<char>) -> Option<Json> {
        match self {
            Json::Object(members) => Json::member_from(members, key, 0),
            _ => None,
        }
    }

    pub open spec fn str(self) -> Option<Seq<char>> {
        match self {
            Json::Str(t) => Some(t),
            _ => None,
        }
    }

    pub open spec fn bool(self) -> Option<bool> {
        match self {
            Json::Bool(b) => Some(b),
            _ => None,
        }
    }

    /// The number, where it is whole and fits in 64 bits without a sign.
    pub open spec fn u64(self) -> Option<int> {
        match self {
            Json::Int(n) => if 0 <= n <= u64::MAX {
                Some(n)
            } else {
                None
            },
            _ => None,
        }
    }

    pub open spec fn array(self) -> Option<Seq<Json>> {
        match self {
            Json::Array(items) => Some(items),
            _ => None,
        }
    }

    pub open spec fn object(self) -> Option<Seq<Field>> {
        match self {
            Json::Object(members) => Some(members),
            _ => None,
        }
    }

    /// The string that member `key` holds.
    pub open spec fn get_str(self, key: Seq<char>) -> Option<Seq<char>> {
        match self.get(key) {
            Some(v) => v.str(),
            None => None,
        }
    }

    /// The truth value that member `key` holds.
    pub open spec fn get_bool(self, key: Seq<char>) -> Option<bool> {
        match self.get(key) {
            Some(v) => v.bool(),
            None => None,
        }
    }

    /// The whole number that member `key` holds.
    pub open spec fn get_u64(self, key: Seq<char>) -> Option<int> {
        match self.get(key) {
            Some(v) => v.u64(),
            None => None,
        }
    }
}

/// The view of an optional string.
pub open spec fn opt_view(o: Option<String>) -> Option<Seq<char>> {
    match o {
        Some(s) => Some(s@),
        None => None,
    }
}

/// The view of an optional string slice.
pub open spec fn opt_str_view(o: Option<&str>) -> Option<Seq<char>> {
    match o {
        Some(s) => Some(s@),
        None => None,
    }
}

impl Data {
    /// A string value.
    pub fn string(s: &str) -> (r: Data)
        ensures
            r@ == Json::Str(s@),
    {
        Data::Str(owned(s))
    }

    /// A whole number.
    pub fn number(n: u64) -> (r: Data)
        ensures
            r@ == Json::Int(n as int),
    {
        Data::Int(n as i128)
    }

    /// A truth value.
    pub fn boolean(b: bool) -> (r: Data)
        ensures
            r@ == Json::Bool(b),
    {
        Data::Bool(b)
    }

    /// No value.
    pub fn null() -> (r: Data)
        ensures
            r@ == Json::Null,
    {
        Data::Null
    }

    /// An array.
    pub fn array(items: Vec<Data>) -> (r: Data)
        ensures
            r@ == Json::Array(items_view(items@)),
    {
        proof {
            lemma_array_view(items);
        }
        Data::Array(items)
    }

    /// An array of strings.
    pub fn strings(list: &Vec<String>) -> (r: Data)
        ensures
            r@ == Json::Array(list@.map_values(|s: String| Json::Str(s@))),
    {
        let mut items: Vec<Data> = Vec::new();
        let mut i: usize = 0;
        while i < list.len()
            invariant
                i <= list@.len(),
                items_view(items@) =~= list@.map_values(|s: String| Json::Str(s@)).take(i as int),
            decreases list.len() - i,
        {
            let ghost before = items@;
            items.push(Data::Str(list[i].clone()));
            assert(items_view(items@) =~= items_view(before).push(Json::Str(list@[i as int]@)));
            i = i + 1;
        }
        proof {
            lemma_array_view(items);
            assert(items_view(items@) =~= list@.map_values(|s: String| Json::Str(s@)));
        }
        Data::Array(items)
    }

    /// A value that denotes the same.
    pub fn copy(&self) -> (r: Data)
        ensures
            r@ == self@,
        decreases self,
    {
        match self {
            Data::Null => Data::Null,
            Data::Bool(b) => Data::Bool(*b),
            Data::Int(n) => Data::Int(*n),
            Data::Float(t) => Data::Float(t.clone()),
            Data::Str(t) => Data::Str(t.clone()),
            Data::Array(items) => {
                let mut out: Vec<Data> = Vec::new();
                let mut i: usize = 0;
                while i < items.len()
                    invariant
                        self == Data::Array(*items),
                        i <= items@.len(),
                        items_view(out@) =~= items_view(items@).take(i as int),
                    decreases items.len() - i,
                {
                    let ghost before = out@;
                    proof {
                        assert(decreases_to!(*self => self->Array_0));
                        assert(decreases_to!(self->Array_0 => self->Array_0@));
                        assert(decreases_to!(items@ => items@[i as int]));
                    }
                    let item = items[i].copy();
                    out.push(item);
                    assert(items_view(out@) =~= items_view(before).push(item@));
                    i = i + 1;
                }
                proof {
                    lemma_array_view(out);
                    lemma_array_view(*items);
                    assert(items_view(out@) =~= items_view(items@));
                }
                Data::Array(out)
            },
            Data::Object(members) => {
                let mut out: Vec<Member> = Vec::new();
                let mut i: usize = 0;
                while i < members.len()
                    invariant
                        self == Data::Object(*members),
                        i <= members@.len(),
                        members_view(out@) =~= members_view(members@).take(i as int),
                    decreases members.len() - i,
                {
                    let ghost before = out@;
                    proof {
                        assert(decreases_to!(*self => self->Object_0));
                        assert(decreases_to!(self->Object_0 => self->Object_0@));
                        assert(decreases_to!(members@ => members@[i as int]));
                        assert(decreases_to!(members@[i as int] => members@[i as int].value));
                    }
                    let item = members[i].value.copy();
                    let name = members[i].key.clone();
                    out.push(Member { key: name, value: item });
                    assert(members_view(out@) =~= members_view(before).push(field(name@, item@)));
                    i = i + 1;
                }
                proof {
                    lemma_object_view(out);
                    lemma_object_view(*members);
                    assert(members_view(out@) =~= members_view(members@));
                }
                Data::Object(out)
            },
        }
    }

    /// The member of an object that `key` names.
    pub fn get(&self, key: &str) -> (r: Option<&Data>)
        ensures
            match r {
                Some(v) => self@.get(key@) == Some(v@),
                None => self@.get(key@) is None,
            },
    {
        match self {
            Data::Object(members) => {
                proof {
                    lemma_object_view(*members);
                }
                let mut i: usize = 0;
                while i < members.len()
                    invariant
                        i <= members@.len(),
                        self@ == Json::Object(members_view(members@)),
                        self@.get(key@) == Json::member_from(
                            members_view(members@),
                            key@,
                            i as int,
                        ),
                    decreases members.len() - i,
                {
                    assert(members_view(members@)[i as int] == field(
                        members@[i as int].key@,
                        members@[i as int].value@,
                    ));
                    if same(members[i].key.as_str(), key) {
                        return Some(&members[i].value);
                    }
                    i = i + 1;
                }
                None
            },
            _ => None,
        }
    }

    pub fn as_str(&self) -> (r: Option<&str>)
        ensures
            opt_str_view(r) == self@.str(),
    {
        match self {
            Data::Str(t) => Some(t.as_str()),
            _ => None,
        }
    }

    pub fn as_bool(&self) -> (r: Option<bool>)
        ensures
            r == self@.bool(),
    {
        match self {
            Data::Bool(b) => Some(*b),
            _ => None,
        }
    }

    pub fn as_u64(&self) -> (r: Option<u64>)
        ensures
            match r {
                Some(n) => self@.u64() == Some(n as int),
                None => self@.u64() is None,
            },
    {
        match self {
            Data::Int(n) => if 0 <= *n && *n <= u64::MAX as i128 {
                Some(*n as u64)
            } else {
                None
            },
            _ => None,
        }
    }

    pub fn as_array(&self) -> (r: Option<&Vec<Data>>)
        ensures
            match r {
                Some(v) => self@ == Json::Array(items_view(v@)),
                None => self@.array() is None,
            },
    {
        match self {
            Data::Array(items) => {
                proof {
                    lemma_array_view(*items);
                }
                Some(items)
            },
            _ => None,
        }
    }

    pub fn as_object(&self) -> (r: Option<&Vec<Member>>)
        ensures
            match r {
                Some(v) => self@ == Json::Object(members_view(v@)),
                None => self@.object() is None,
            },
    {
        match self {
            Data::Object(members) => {
                proof {
                    lemma_object_view(*members);
                }
                Some(members)
            },
            _ => None,
        }
    }

    pub fn is_null(&self) -> (r: bool)
        ensures
            r == (self@ == Json::Null),
    {
        match self {
            Data::Null => true,
            _ => false,
        }
    }

    /// The string that member `key` holds.
    pub fn get_str(&self, key: &str) -> (r: Option<&str>)
        ensures
            opt_str_view(r) == self@.get_str(key@),
    {
        match self.get(key) {
            Some(v) => v.as_str(),
            None => None,
        }
    }

    /// The truth value that member `key` holds.
    pub fn get_bool(&self, key: &str) -> (r: Option<bool>)
        ensures
            r == self@.get_bool(key@),
    {
        match self.get(key) {
            Some(v) => v.as_bool(),
            None => None,
        }
    }

    /// The whole number that member `key` holds.
    pub fn get_u64(&self, key: &str) -> (r: Option<u64>)
        ensures
            match r {
                Some(n) => self@.get_u64(key@) == Some(n as int),
                None => self@.get_u64(key@) is None,
            },
    {
        match self.get(key) {
            Some(v) => v.as_u64(),
            None => None,
        }
    }
}

/// The strings among the items of an array, in their order.
pub open spec fn strings_in(items: Seq<Json>) -> Seq<Seq<char>>
    decreases items.len(),
{
    if items.len() == 0 {
        Seq::empty()
    } else {
        match items.last().str() {
            Some(t) => strings_in(items.drop_last()).push(t),
            None => strings_in(items.drop_last()),
        }
    }
}

impl Json {
    /// The strings in the array that member `key` holds.
    pub open spec fn get_strings(self, key: Seq<char>) -> Seq<Seq<char>> {
        match self.get(key) {
            Some(v) => match v.array() {
                Some(items) => strings_in(items),
                None => Seq::empty(),
            },
            None => Seq::empty(),
        }
    }
}

fn string_items(items: &Vec<Data>) -> (r: Vec<String>)
    ensures
        views(r@) == strings_in(items_view(items@)),
{
    let ghost all = items_view(items@);
    let mut r: Vec<String> = Vec::new();
    let mut i: usize = 0;
    assert(views(r@) =~= strings_in(all.take(0)));
    while i < items.len()
        invariant
            i <= items@.len(),
            all == items_view(items@),
            views(r@) == strings_in(all.take(i as int)),
        decreases items.len() - i,
    {
        let ghost was = r@;
        assert(all.take(i + 1).drop_last() =~= all.take(i as int));
        assert(all[i as int] == items@[i as int]@);
        if let Some(t) = items[i].as_str() {
            r.push(owned(t));
            assert(views(r@) =~= views(was).push(t@));
        }
        i = i + 1;
    }
    assert(all.take(i as int) =~= all);
    r
}

impl Data {
    /// The strings in the array that member `key` holds.
    pub fn get_strings(&self, key: &str) -> (r: Vec<String>)
        ensures
            views(r@) == self@.get_strings(key@),
    {
        let none: Vec<String> = Vec::new();
        assert(views(none@) =~= Seq::<Seq<char>>::empty());
        match self.get(key) {
            Some(v) => match v.as_array() {
                Some(items) => string_items(items),
                None => none,
            },
            None => none,
        }
    }
}

/// The members with the one named `key` holding `value`: in its place where
/// there is one, else at the end.
pub open spec fn member_set(fields: Seq<Field>, key: Seq<char>, value: Json) -> Seq<Field>
    decreases fields.len(),
{
    if fields.len() == 0 {
        fields.push(field(key, value))
    } else if fields[0].key == key {
        seq![field(key, value)] + fields.skip(1)
    } else {
        seq![fields[0]] + member_set(fields.skip(1), key, value)
    }
}

pub proof fn lemma_member_set(fields: Seq<Field>, key: Seq<char>, value: Json, i: int)
    requires
        0 <= i <= fields.len(),
        forall|k: int| 0 <= k < i ==> (#[trigger] fields[k]).key != key,
        i < fields.len() ==> fields[i].key == key,
    ensures
        member_set(fields, key, value) == if i < fields.len() {
            fields.update(i, field(key, value))
        } else {
            fields.push(field(key, value))
        },
    decreases i,
{
    if fields.len() > 0 {
        if i == 0 {
            assert(seq![field(key, value)] + fields.skip(1) =~= fields.update(
                0,
                field(key, value),
            ));
        } else {
            let rest = fields.skip(1);
            assert forall|k: int| 0 <= k < i - 1 implies (#[trigger] rest[k]).key != key by {
                assert(rest[k] == fields[k + 1]);
            }
            lemma_member_set(rest, key, value, i - 1);
            if i < fields.len() {
                assert(seq![fields[0]] + rest.update(i - 1, field(key, value)) =~= fields.update(
                    i,
                    field(key, value),
                ));
            } else {
                assert(seq![fields[0]] + rest.push(field(key, value)) =~= fields.push(
                    field(key, value),
                ));
            }
        }
    }
}

/// An object under construction.
pub struct Members {
    pub list: Vec<Member>,
}

impl View for Members {
    type V = Seq<Field>;

    open spec fn view(&self) -> Seq<Field> {
        members_view(self.list@)
    }
}

impl Members {
    pub fn new() -> (r: Members)
        ensures
            r@ == no_fields(),
    {
        let r = Members { list: Vec::new() };
        assert(r@ =~= no_fields());
        r
    }

    /// The object with one more member at the end.
    pub fn with(self, key: &str, value: Data) -> (r: Members)
        ensures
            r@ == self@.push(field(key@, value@)),
    {
        let mut list = self.list;
        let ghost before = list@;
        let name = owned(key);
        list.push(Member { key: name, value });
        let r = Members { list };
        assert(r@ =~= members_view(before).push(field(key@, value@)));
        r
    }

    /// The object with the member `key` holding `value`: in its place where there
    /// is one, else at the end.
    pub fn set(self, key: &str, value: Data) -> (r: Members)
        ensures
            r@ == member_set(self@, key@, value@),
    {
        let mut list = self.list;
        let ghost fields = members_view(list@);
        let mut i: usize = 0;
        while i < list.len() && !same(list[i].key.as_str(), key)
            invariant
                i <= list@.len(),
                fields == members_view(list@),
                forall|k: int| 0 <= k < i ==> (#[trigger] fields[k]).key != key@,
            decreases list.len() - i,
        {
            assert(fields[i as int].key == list@[i as int].key@);
            i = i + 1;
        }
        proof {
            if i < list@.len() {
                assert(fields[i as int].key == list@[i as int].key@);
            }
            lemma_member_set(fields, key@, value@, i as int);
        }
        let ghost f = field(key@, value@);
        let one = Member { key: owned(key), value };
        if i < list.len() {
            list.set(i, one);
            assert(members_view(list@) =~= fields.update(i as int, f));
        } else {
            list.push(one);
            assert(members_view(list@) =~= fields.push(f));
        }
        Members { list }
    }

    pub fn object(self) -> (r: Data)
        ensures
            r@ == Json::Object(self@),
    {
        proof {
            lemma_object_view(self.list);
        }
        Data::Object(self.list)
    }
}

proof fn lemma_member_from(fields: Seq<Field>, key: Seq<char>, i: int, k: int)
    requires
        0 <= k <= i <= fields.len(),
        forall|j: int| k <= j < i ==> (#[trigger] fields[j]).key != key,
        i < fields.len() ==> fields[i].key == key,
    ensures
        Json::member_from(fields, key, k) == if i < fields.len() {
            Some(fields[i].value)
        } else {
            None
        },
    decreases i - k,
{
    if k < i {
        lemma_member_from(fields, key, i, k + 1);
    }
}

/// A name stands for the first member of an object that has it.
pub proof fn law_the_first_member_of_a_name_counts(fields: Seq<Field>, i: int)
    requires
        0 <= i < fields.len(),
        forall|j: int| 0 <= j < i ==> (#[trigger] fields[j]).key != fields[i].key,
    ensures
        Json::Object(fields).get(fields[i].key) == Some(fields[i].value),
{
    lemma_member_from(fields, fields[i].key, i, 0);
}

/// A name that no member has stands for nothing; and only objects have members.
pub proof fn law_absent_members_are_not_found(value: Json, key: Seq<char>)
    ensures
        !(value is Object) ==> value.get(key) is None,
        value matches Json::Object(fields) ==> ((forall|j: int|
            0 <= j < fields.len() ==> (#[trigger] fields[j]).key != key) ==> value.get(key) is None),
        value.get(key) is None ==> value.get_str(key) is None && value.get_bool(key) is None
            && value.get_u64(key) is None,
{
    if let Json::Object(fields) = value {
        if forall|j: int| 0 <= j < fields.len() ==> (#[trigger] fields[j]).key != key {
            lemma_member_from(fields, key, fields.len() as int, 0);
        }
    }
}

/// What a member holds is read by its kind: a text as a text, a truth value as a
/// truth value, a whole number of 64 bits as that number; and as nothing by
/// another kind.
pub proof fn law_members_are_read_by_their_kind(value: Json, key: Seq<char>)
    ensures
        value.get(key) matches Some(v) ==> {
            &&& v matches Json::Str(t) ==> value.get_str(key) == Some(t)
            &&& !(v is Str) ==> value.get_str(key) is None
            &&& v matches Json::Bool(b) ==> value.get_bool(key) == Some(b)
            &&& !(v is Bool) ==> value.get_bool(key) is None
            &&& v matches Json::Int(n) ==> (0 <= n <= u64::MAX ==> value.get_u64(key) == Some(n))
            &&& v matches Json::Int(n) ==> (n < 0 || n > u64::MAX ==> value.get_u64(key) is None)
            &&& !(v is Int) ==> value.get_u64(key) is None
        },
{
}

proof fn lemma_set_then_get(fields: Seq<Field>, key: Seq<char>, value: Json, other: Seq<char>)
    ensures
        Json::member_from(member_set(fields, key, value), key, 0) == Some(value),
        other != key ==> Json::member_from(member_set(fields, key, value), other, 0)
            == Json::member_from(fields, other, 0),
    decreases fields.len(),
{
    let set = member_set(fields, key, value);
    if fields.len() == 0 {
        assert(set[0] == field(key, value));
        reveal_with_fuel(Json::member_from, 2);
    } else if fields[0].key == key {
        assert(set[0] == field(key, value));
        if other != key {
            lemma_member_from_tail(set, other);
            lemma_member_from_tail(fields, other);
            assert(set.skip(1) =~= fields.skip(1));
        }
    } else {
        let rest = fields.skip(1);
        lemma_set_then_get(rest, key, value, other);
        assert(set[0] == fields[0]);
        assert(set.skip(1) =~= member_set(rest, key, value));
        lemma_member_from_tail(set, key);
        lemma_member_from_tail(set, other);
        lemma_member_from_tail(fields, other);
    }
}

proof fn lemma_member_from_tail(fields: Seq<Field>, key: Seq<char>)
    requires
        fields.len() > 0,
    ensures
        fields[0].key != key ==> Json::member_from(fields, key, 0) == Json::member_from(
            fields.skip(1),
            key,
            0,
        ),
{
    if fields[0].key != key {
        lemma_member_from_shift(fields, key, 1);
    }
}

proof fn lemma_member_from_shift(fields: Seq<Field>, key: Seq<char>, i: int)
    requires
        1 <= i <= fields.len(),
    ensures
        Json::member_from(fields, key, i) == Json::member_from(fields.skip(1), key, i - 1),
    decreases fields.len() - i,
{
    if i < fields.len() {
        assert(fields.skip(1)[i - 1] == fields[i]);
        lemma_member_from_shift(fields, key, i + 1);
    }
}

/// A member that is set is found with the value that it was set to, and the
/// other members are found as before.
pub proof fn law_set_members_are_found(
    fields: Seq<Field>,
    key: Seq<char>,
    value: Json,
    other: Seq<char>,
)
    ensures
        Json::Object(member_set(fields, key, value)).get(key) == Some(value),
        other != key ==> Json::Object(member_set(fields, key, value)).get(other) == Json::Object(
            fields,
        ).get(other),
{
    lemma_set_then_get(fields, key, value, other);
}

/// The strings of an array are read in their order, and nothing else of it.
pub proof fn law_strings_are_read_in_order(items: Seq<Json>, item: Json)
    ensures
        strings_in(Seq::<Json>::empty()) == Seq::<Seq<char>>::empty(),
        item matches Json::Str(t) ==> strings_in(items.push(item)) == strings_in(items).push(t),
        !(item is Str) ==> strings_in(items.push(item)) == strings_in(items),
{
    assert(items.push(item).drop_last() =~= items);
    assert(items.push(item).last() == item);
}

/// A value denotes what it holds.
pub proof fn law_values_denote_what_they_hold(b: bool, n: i128, t: String)
    ensures
        Data::Null@ == Json::Null,
        Data::Bool(b)@ == Json::Bool(b),
        Data::Int(n)@ == Json::Int(n as int),
        Data::Float(t)@ == Json::Float(t@),
        Data::Str(t)@ == Json::Str(t@),
{
}

} // verus!
