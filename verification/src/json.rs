//! JSON documents as plain trees.
//!
//! `serde_json` reads and writes the text; everything that looks inside a
//! document works on the tree.
use vstd::prelude::*;
use vstd::string::StringExecFns;

use crate::text::{join, same};
#[allow(unused_imports)]
use crate::text::{joined, views};

verus! {

/// `serde_json::Number`: a number that is no integer, carried through as it is.
#[verifier::external_type_specification]
#[verifier::external_body]
pub struct ExNumber(serde_json::Number);

/// `serde_json::Value`: a document as `serde_json` holds it.
#[verifier::external_type_specification]
#[verifier::external_body]
pub struct ExValue(serde_json::Value);

/// `serde_json::Number::clone` gives the same number.
pub assume_specification[ <serde_json::Number as Clone>::clone ](n: &serde_json::Number) -> (out:
    serde_json::Number)
    ensures
        out == *n,
;

/// A JSON document. The members of an object have distinct names.
#[derive(Debug, PartialEq, Eq)]
pub enum Json {
    Null,
    Bool(bool),
    /// An integer from zero up.
    Unsigned(u64),
    /// An integer below zero.
    Negative(i64),
    /// Any other number.
    Float(serde_json::Number),
    Text(String),
    List(Vec<Json>),
    Object(Vec<Member>),
}

/// One member of an object.
#[derive(Debug, PartialEq, Eq)]
pub struct Member {
    pub name: String,
    pub value: Json,
}

/// A JSON document, mathematically.
pub enum JsonV {
    Null,
    Bool(bool),
    Unsigned(u64),
    Negative(i64),
    Float(serde_json::Number),
    Text(Seq<char>),
    List(Seq<JsonV>),
    Object(Seq<(Seq<char>, JsonV)>),
}

/// The mathematical value of a document.
pub open spec fn tree(json: Json) -> JsonV
    decreases json,
{
    match json {
        Json::Null => JsonV::Null,
        Json::Bool(b) => JsonV::Bool(b),
        Json::Unsigned(n) => JsonV::Unsigned(n),
        Json::Negative(n) => JsonV::Negative(n),
        Json::Float(n) => JsonV::Float(n),
        Json::Text(t) => JsonV::Text(t@),
        Json::List(items) => JsonV::List(
            Seq::new(
                items@.len(),
                |i: int|
                    if 0 <= i < items@.len() {
                        tree(items@[i])
                    } else {
                        JsonV::Null
                    },
            ),
        ),
        Json::Object(members) => JsonV::Object(
            Seq::new(
                members@.len(),
                |i: int|
                    if 0 <= i < members@.len() {
                        (members@[i].name@, tree(members@[i].value))
                    } else {
                        (seq![], JsonV::Null)
                    },
            ),
        ),
    }
}

impl View for Json {
    type V = JsonV;

    open spec fn view(&self) -> JsonV {
        tree(*self)
    }
}

/// What a document that is perhaps missing stands for.
pub open spec fn maybe(json: Option<Json>) -> Option<JsonV> {
    match json {
        Some(j) => Some(j@),
        None => None,
    }
}

/// The document that `text` spells in JSON, if it spells one that
/// `serde_json` accepts.
pub uninterp spec fn json_of(text: Seq<char>) -> Option<JsonV>;

/// What `serde_json` says of a text that is no JSON.
pub uninterp spec fn json_error_of(text: Seq<char>) -> Seq<char>;

/// What `serde_json` says of a text that is no JSON object.
pub uninterp spec fn object_error_of(text: Seq<char>) -> Seq<char>;

/// The compact JSON text of a document.
pub uninterp spec fn json_text_of(json: JsonV) -> Seq<char>;

/// The indented JSON text of a document.
pub uninterp spec fn json_pretty_text_of(json: JsonV) -> Seq<char>;

/// How deep lists and objects may stand in one another in a text that
/// `serde_json` reads.
pub const MAX_NESTING: u64 = 127;

/// Whether the names of an object's members are distinct.
pub open spec fn names_distinct(members: Seq<(Seq<char>, JsonV)>) -> bool {
    forall|i: int, j: int|
        0 <= i < j < members.len() ==> (#[trigger] members[i]).0 != (#[trigger] members[j]).0
}

/// The zero that is written `0.0`: a number that is no integer to a reader of
/// JSON.
pub open spec fn zero_point() -> JsonV {
    match json_of("0.0"@) {
        Some(JsonV::Float(n)) => JsonV::Float(n),
        _ => JsonV::Unsigned(0),
    }
}

/// Whether a document is in order: lists and objects nest at most `depth`
/// deep, the members of every object have distinct names, and an integer below
/// zero is below zero. Numbers that are no integers, other than a zero that is
/// written `0.0`, are allowed or not.
pub open spec fn orderly(json: JsonV, depth: int, floats: bool) -> bool
    decreases json,
{
    match json {
        JsonV::Null | JsonV::Bool(_) | JsonV::Unsigned(_) | JsonV::Text(_) => true,
        JsonV::Negative(n) => n < 0,
        JsonV::Float(_) => floats || json == zero_point(),
        JsonV::List(items) => depth > 0 && forall|i: int|
            0 <= i < items.len() ==> orderly(#[trigger] items[i], depth - 1, floats),
        JsonV::Object(members) => depth > 0 && names_distinct(members) && forall|i: int|
            0 <= i < members.len() ==> orderly((#[trigger] members[i]).1, depth - 1, floats),
    }
}

/// Whether two documents are alike: the same but for the order of the members
/// of an object, and for which number stands where a number is that is no
/// integer.
pub open spec fn alike(json: JsonV, other: JsonV) -> bool
    decreases json,
{
    match (json, other) {
        (JsonV::Float(_), JsonV::Float(_)) => true,
        (JsonV::Float(_), JsonV::Unsigned(_)) => true,
        (JsonV::Float(_), JsonV::Negative(_)) => true,
        (JsonV::List(items), JsonV::List(others)) => items.len() == others.len() && forall|i: int|
            0 <= i < items.len() ==> alike(#[trigger] items[i], others[i]),
        (JsonV::Object(members), JsonV::Object(others)) => {
            &&& forall|i: int|
                0 <= i < members.len() ==> match find_member(others, (#[trigger] members[i]).0) {
                    Some(v) => alike(members[i].1, v),
                    None => false,
                }
            &&& forall|i: int|
                0 <= i < others.len() ==> find_member(
                    members,
                    (#[trigger] others[i]).0,
                ) is Some
        },
        _ => json == other,
    }
}

/// Whether a text, where it reads, reads as a document.
pub open spec fn reads_as(text: Seq<char>, json: JsonV) -> bool {
    match json_of(text) {
        Some(back) => alike(json, back),
        None => true,
    }
}

/// Turns a `serde_json` document into a tree, node by node.
#[verifier::external_body]
fn from_value(value: serde_json::Value) -> Json {
    match value {
        serde_json::Value::Null => Json::Null,
        serde_json::Value::Bool(b) => Json::Bool(b),
        serde_json::Value::Number(n) => match (n.as_u64(), n.as_i64()) {
            (Some(u), _) => Json::Unsigned(u),
            (None, Some(i)) => Json::Negative(i),
            (None, None) => Json::Float(n),
        },
        serde_json::Value::String(s) => Json::Text(s),
        serde_json::Value::Array(items) => Json::List(items.into_iter().map(from_value).collect()),
        serde_json::Value::Object(members) => Json::Object(
            members.into_iter().map(|(name, v)| Member { name, value: from_value(v) }).collect(),
        ),
    }
}

/// Turns a tree into a `serde_json` document, node by node.
#[verifier::external_body]
fn to_value(json: &Json) -> serde_json::Value {
    match json {
        Json::Null => serde_json::Value::Null,
        Json::Bool(b) => serde_json::Value::from(*b),
        Json::Unsigned(n) => serde_json::Value::from(*n),
        Json::Negative(n) => serde_json::Value::from(*n),
        Json::Float(n) => serde_json::Value::Number(n.clone()),
        Json::Text(t) => serde_json::Value::from(t.as_str()),
        Json::List(items) => items.iter().map(to_value).collect(),
        Json::Object(members) => members.iter().map(|m| (m.name.clone(), to_value(&m.value))).collect(),
    }
}

/// `serde_json::from_str` on a document: the tree is the one that the text's
/// characters decide, or nothing where the text is no JSON. The reader keeps
/// the members of an object in a map, so their names are distinct, and refuses
/// a text that nests too deep. A number with a point is no integer to it, so
/// `0.0` reads as such a number.
#[verifier::external_body]
pub(crate) fn parse_json(text: &str) -> (out: Option<Json>)
    ensures
        maybe(out) == json_of(text@),
        out matches Some(json) ==> orderly(json@, MAX_NESTING as int, true),
        text@ == "0.0"@ ==> maybe(out) matches Some(JsonV::Float(_)),
{
    serde_json::from_str::<serde_json::Value>(text).ok().map(from_value)
}

/// The message of the error of `serde_json::from_str` on a text that is no
/// JSON: it is the one that the text's characters decide.
#[verifier::external_body]
pub(crate) fn json_error(text: &str) -> (out: String)
    requires
        json_of(text@) is None,
    ensures
        out@ == json_error_of(text@),
{
    serde_json::from_str::<serde_json::Value>(text).err().map(|e| e.to_string()).unwrap_or_default()
}

/// `serde_json::from_str` on an object: its members are those of the document
/// that the text spells, and a text that spells no object is refused with the
/// message that its characters decide. What holds of a document that
/// [`parse_json`] reads holds here too.
#[verifier::external_body]
pub(crate) fn parse_object(text: &str) -> (out: Result<Vec<Member>, String>)
    ensures
        match out {
            Ok(members) => json_of(text@) == Some(JsonV::Object(members_view(members@)))
                && orderly(JsonV::Object(members_view(members@)), MAX_NESTING as int, true),
            Err(reason) => !(json_of(text@) matches Some(JsonV::Object(_))) && reason@
                == object_error_of(text@),
        },
{
    let members = serde_json::from_str::<serde_json::Map<String, serde_json::Value>>(text);
    let members = members.map_err(|e| e.to_string())?.into_iter();
    Ok(members.map(|(name, v)| Member { name, value: from_value(v) }).collect())
}

/// `serde_json::to_string` on a document: the text is the one that the tree
/// decides. Where it reads it reads as the document, and it does read where the
/// document holds no numbers but integers and zeros written `0.0`. Left unsaid:
/// what another number that is no integer reads as. The reader rounds it anew,
/// and can find it out of range.
#[verifier::external_body]
pub(crate) fn json_text(json: &Json) -> (out: String)
    ensures
        out@ == json_text_of(json@),
        orderly(json@, MAX_NESTING as int, true) ==> reads_as(out@, json@),
        orderly(json@, MAX_NESTING as int, false) ==> json_of(out@) is Some,
{
    serde_json::to_string(&to_value(json)).unwrap_or_default()
}

/// `serde_json::to_string_pretty` on a document: the text is the one that the
/// tree decides. It reads as the text of [`json_text`] does.
#[verifier::external_body]
pub(crate) fn json_pretty_text(json: &Json) -> (out: String)
    ensures
        out@ == json_pretty_text_of(json@),
        orderly(json@, MAX_NESTING as int, true) ==> reads_as(out@, json@),
        orderly(json@, MAX_NESTING as int, false) ==> json_of(out@) is Some,
{
    serde_json::to_string_pretty(&to_value(json)).unwrap_or_default()
}

// ---------------------------------------------------------------------------
// Looking inside
// ---------------------------------------------------------------------------
/// The first of the members with a given name.
pub open spec fn find_member(members: Seq<(Seq<char>, JsonV)>, name: Seq<char>) -> Option<JsonV>
    decreases members.len(),
{
    if members.len() == 0 {
        None
    } else if members[0].0 == name {
        Some(members[0].1)
    } else {
        find_member(members.skip(1), name)
    }
}

/// The member of an object with a given name. Anything else has no members.
pub open spec fn member(json: JsonV, name: Seq<char>) -> Option<JsonV> {
    match json {
        JsonV::Object(members) => find_member(members, name),
        _ => None,
    }
}

/// The member of an object with a given name, `Null` where there is none.
pub open spec fn at(json: JsonV, name: Seq<char>) -> JsonV {
    match member(json, name) {
        Some(v) => v,
        None => JsonV::Null,
    }
}

/// The text of a text node.
pub open spec fn as_text(json: JsonV) -> Option<Seq<char>> {
    match json {
        JsonV::Text(t) => Some(t),
        _ => None,
    }
}

/// The flag of a flag node.
pub open spec fn as_bool(json: JsonV) -> Option<bool> {
    match json {
        JsonV::Bool(b) => Some(b),
        _ => None,
    }
}

/// The integer of an integer node that fits `i64`.
pub open spec fn as_i64(json: JsonV) -> Option<int> {
    match json {
        JsonV::Unsigned(n) => if n <= i64::MAX {
            Some(n as int)
        } else {
            None
        },
        JsonV::Negative(n) => Some(n as int),
        _ => None,
    }
}

/// The integer of an integer node from zero up.
pub open spec fn as_u64(json: JsonV) -> Option<u64> {
    match json {
        JsonV::Unsigned(n) => Some(n),
        _ => None,
    }
}

/// The items of a list node; anything else has none.
pub open spec fn items_of(json: JsonV) -> Seq<JsonV> {
    match json {
        JsonV::List(items) => items,
        _ => seq![],
    }
}

/// The trees of a list of documents.
pub open spec fn trees(items: Seq<Json>) -> Seq<JsonV> {
    items.map_values(|j: Json| j@)
}

/// The text of the member with a given name.
pub open spec fn member_text(json: JsonV, name: Seq<char>) -> Option<Seq<char>> {
    match member(json, name) {
        Some(v) => as_text(v),
        None => None,
    }
}

proof fn lemma_item_is_smaller(json: Json, i: int)
    requires
        json is List,
        0 <= i < json->List_0@.len(),
    ensures
        decreases_to!(json => json->List_0@[i]),
{
    assert(decreases_to!(json => json->List_0));
    assert(decreases_to!(json->List_0 => json->List_0@));
    assert(decreases_to!(json->List_0@ => json->List_0@[i]));
}

proof fn lemma_member_is_smaller(json: Json, i: int)
    requires
        json is Object,
        0 <= i < json->Object_0@.len(),
    ensures
        decreases_to!(json => json->Object_0@[i].value),
{
    assert(decreases_to!(json => json->Object_0));
    assert(decreases_to!(json->Object_0 => json->Object_0@));
    assert(decreases_to!(json->Object_0@ => json->Object_0@[i]));
    assert(decreases_to!(json->Object_0@[i] => json->Object_0@[i].value));
}

impl Json {
    /// The member with a given name.
    pub fn get(&self, name: &str) -> (out: Option<&Json>)
        ensures
            match out {
                Some(v) => member(self@, name@) == Some(v@),
                None => member(self@, name@) is None,
            },
    {
        match self {
            Json::Object(members) => {
                let ghost all = self@->Object_0;
                let mut i: usize = 0;
                assert(all.skip(0) =~= all);
                while i < members.len()
                    invariant
                        i <= members.len(),
                        *self == Json::Object(*members),
                        all == self@->Object_0,
                        find_member(all, name@) == find_member(all.skip(i as int), name@),
                    decreases members.len() - i,
                {
                    proof {
                        assert(all.skip(i as int)[0] == (
                            members@[i as int].name@,
                            members@[i as int].value@,
                        ));
                        assert(all.skip(i as int).skip(1) =~= all.skip(i + 1));
                    }
                    if same(members[i].name.as_str(), name) {
                        return Some(&members[i].value);
                    }
                    i = i + 1;
                }
                assert(all.skip(i as int).len() == 0);
                None
            },
            _ => None,
        }
    }

    /// The text of a text node.
    pub fn text(&self) -> (out: Option<&String>)
        ensures
            match out {
                Some(t) => as_text(self@) == Some(t@),
                None => as_text(self@) is None,
            },
    {
        match self {
            Json::Text(t) => Some(t),
            _ => None,
        }
    }

    /// The flag of a flag node.
    pub fn flag(&self) -> (out: Option<bool>)
        ensures
            out == as_bool(self@),
    {
        match self {
            Json::Bool(b) => Some(*b),
            _ => None,
        }
    }

    /// The integer of an integer node that fits.
    pub fn integer(&self) -> (out: Option<i64>)
        ensures
            match out {
                Some(n) => as_i64(self@) == Some(n as int),
                None => as_i64(self@) is None,
            },
    {
        match self {
            Json::Unsigned(n) => if *n <= i64::MAX as u64 {
                Some(*n as i64)
            } else {
                None
            },
            Json::Negative(n) => Some(*n),
            _ => None,
        }
    }

    /// The integer of an integer node from zero up.
    pub fn unsigned(&self) -> (out: Option<u64>)
        ensures
            out == as_u64(self@),
    {
        match self {
            Json::Unsigned(n) => Some(*n),
            _ => None,
        }
    }

    /// Copies of the items of a list node; anything else has none.
    pub fn items(&self) -> (out: Vec<Json>)
        ensures
            trees(out@) == items_of(self@),
    {
        let mut out: Vec<Json> = Vec::new();
        match self {
            Json::List(items) => {
                let mut i: usize = 0;
                while i < items.len()
                    invariant
                        i <= items.len(),
                        *self == Json::List(*items),
                        out@.len() == i,
                        forall|k: int| 0 <= k < i ==> (#[trigger] out@[k])@ == items@[k]@,
                    decreases items.len() - i,
                {
                    out.push(items[i].copy());
                    i = i + 1;
                }
            },
            _ => {},
        }
        assert(trees(out@) =~= items_of(self@));
        out
    }

    /// The text of the member with a given name.
    pub fn text_at(&self, name: &str) -> (out: Option<String>)
        ensures
            match out {
                Some(t) => member_text(self@, name@) == Some(t@),
                None => member_text(self@, name@) is None,
            },
    {
        match self.get(name) {
            Some(v) => match v.text() {
                Some(t) => Some(t.clone()),
                None => None,
            },
            None => None,
        }
    }

    /// The document that a text spells.
    pub fn read(text: &str) -> (out: Option<Json>)
        ensures
            maybe(out) == json_of(text@),
            out matches Some(json) ==> orderly(json@, MAX_NESTING as int, true),
    {
        parse_json(text)
    }

    /// The document's compact text. Reading it gives the document back.
    pub fn write(&self) -> (out: String)
        ensures
            out@ == json_text_of(self@),
            orderly(self@, MAX_NESTING as int, true) ==> reads_as(out@, self@),
            orderly(self@, MAX_NESTING as int, false) ==> json_of(out@) is Some,
    {
        json_text(self)
    }

    /// The document's indented text. Reading it gives the document back.
    pub fn write_pretty(&self) -> (out: String)
        ensures
            out@ == json_pretty_text_of(self@),
            orderly(self@, MAX_NESTING as int, true) ==> reads_as(out@, self@),
            orderly(self@, MAX_NESTING as int, false) ==> json_of(out@) is Some,
    {
        json_pretty_text(self)
    }

    /// A copy of the document.
    pub fn copy(&self) -> (out: Json)
        ensures
            out@ == self@,
        decreases *self,
    {
        match self {
            Json::Null => Json::Null,
            Json::Bool(b) => Json::Bool(*b),
            Json::Unsigned(n) => Json::Unsigned(*n),
            Json::Negative(n) => Json::Negative(*n),
            Json::Float(n) => Json::Float(n.clone()),
            Json::Text(t) => Json::Text(t.clone()),
            Json::List(items) => {
                let mut out: Vec<Json> = Vec::new();
                let mut i: usize = 0;
                while i < items.len()
                    invariant
                        i <= items.len(),
                        *self == Json::List(*items),
                        out@.len() == i,
                        forall|k: int| 0 <= k < i ==> (#[trigger] out@[k])@ == items@[k]@,
                    decreases items.len() - i,
                {
                    proof {
                        lemma_item_is_smaller(*self, i as int);
                    }
                    out.push(items[i].copy());
                    i = i + 1;
                }
                let copied: Json = Json::List(out);
                assert(copied@->List_0 =~= self@->List_0);
                copied
            },
            Json::Object(members) => {
                let mut out: Vec<Member> = Vec::new();
                let mut i: usize = 0;
                while i < members.len()
                    invariant
                        i <= members.len(),
                        *self == Json::Object(*members),
                        out@.len() == i,
                        forall|k: int|
                            0 <= k < i ==> (#[trigger] out@[k]).name@ == members@[k].name@
                                && out@[k].value@ == members@[k].value@,
                    decreases members.len() - i,
                {
                    proof {
                        lemma_member_is_smaller(*self, i as int);
                    }
                    let one: Member = Member {
                        name: members[i].name.clone(),
                        value: members[i].value.copy(),
                    };
                    out.push(one);
                    i = i + 1;
                }
                let copied: Json = Json::Object(out);
                assert(copied@->Object_0 =~= self@->Object_0);
                copied
            },
        }
    }
}

// ---------------------------------------------------------------------------
// Building
// ---------------------------------------------------------------------------
/// The members with one set: replaced where it stands, else added at the end.
pub open spec fn set_member(
    members: Seq<(Seq<char>, JsonV)>,
    name: Seq<char>,
    value: JsonV,
) -> Seq<(Seq<char>, JsonV)>
    decreases members.len(),
{
    if members.len() == 0 {
        seq![(name, value)]
    } else if members[0].0 == name {
        seq![(name, value)] + members.skip(1)
    } else {
        seq![members[0]] + set_member(members.skip(1), name, value)
    }
}

/// A member that is set reads back, and no other member changes.
pub proof fn law_member_after_set(
    members: Seq<(Seq<char>, JsonV)>,
    name: Seq<char>,
    value: JsonV,
    other: Seq<char>,
)
    ensures
        find_member(set_member(members, name, value), other) == if other == name {
            Some(value)
        } else {
            find_member(members, other)
        },
    decreases members.len(),
{
    let after = set_member(members, name, value);
    if members.len() == 0 {
        assert(after.skip(1) =~= seq![]);
        assert(find_member(after.skip(1), other) is None);
    } else if members[0].0 == name {
        assert(after.skip(1) =~= members.skip(1));
    } else {
        law_member_after_set(members.skip(1), name, value, other);
        assert(after.skip(1) =~= set_member(members.skip(1), name, value));
    }
}

/// The member with a name is the first that bears it: the one at `i`, where no
/// earlier one bears the name. A name that no member bears finds nothing.
pub proof fn law_the_first_member_of_a_name_is_found(
    members: Seq<(Seq<char>, JsonV)>,
    name: Seq<char>,
    i: int,
)
    requires
        0 <= i <= members.len(),
        forall|k: int| 0 <= k < i ==> (#[trigger] members[k]).0 != name,
        i < members.len() ==> members[i].0 == name,
    ensures
        member(JsonV::Object(members), name) == if i < members.len() {
            Some(members[i].1)
        } else {
            None
        },
        at(JsonV::Object(members), name) == if i < members.len() {
            members[i].1
        } else {
            JsonV::Null
        },
    decreases members.len(),
{
    if i > 0 {
        let rest = members.skip(1);
        assert(members[0].0 != name);
        assert forall|k: int| 0 <= k < i - 1 implies (#[trigger] rest[k]).0 != name by {
            assert(members[k + 1].0 != name);
        }
        law_the_first_member_of_a_name_is_found(rest, name, i - 1);
    }
}

/// Setting a member moves nothing: each member stays at its place, with its
/// name, and only the first of the set name changes its value. A new name
/// stands at the end.
pub proof fn law_setting_a_member_moves_nothing(
    members: Seq<(Seq<char>, JsonV)>,
    name: Seq<char>,
    value: JsonV,
    i: int,
)
    requires
        0 <= i <= members.len(),
        forall|k: int| 0 <= k < i ==> (#[trigger] members[k]).0 != name,
        i < members.len() ==> members[i].0 == name,
    ensures
        set_member(members, name, value) == if i < members.len() {
            members.update(i, (name, value))
        } else {
            members.push((name, value))
        },
    decreases members.len(),
{
    if members.len() == 0 {
        assert(set_member(members, name, value) =~= members.push((name, value)));
    } else if i == 0 {
        assert(set_member(members, name, value) =~= members.update(0, (name, value)));
    } else {
        let rest = members.skip(1);
        assert(members[0].0 != name);
        assert forall|k: int| 0 <= k < i - 1 implies (#[trigger] rest[k]).0 != name by {
            assert(members[k + 1].0 != name);
        }
        law_setting_a_member_moves_nothing(rest, name, value, i - 1);
        let after = set_member(members, name, value);
        if i < members.len() {
            assert(after =~= members.update(i, (name, value)));
        } else {
            assert(after =~= members.push((name, value)));
        }
    }
}

/// A member that is found stands somewhere, and a name that is not found
/// stands nowhere.
proof fn lemma_find_member(members: Seq<(Seq<char>, JsonV)>, name: Seq<char>)
    ensures
        match find_member(members, name) {
            Some(v) => exists|i: int|
                0 <= i < members.len() && (#[trigger] members[i]).0 == name && members[i].1 == v,
            None => forall|i: int| 0 <= i < members.len() ==> (#[trigger] members[i]).0 != name,
        },
    decreases members.len(),
{
    if members.len() > 0 && members[0].0 != name {
        let rest = members.skip(1);
        lemma_find_member(rest, name);
        match find_member(rest, name) {
            Some(v) => {
                let i = choose|i: int|
                    0 <= i < rest.len() && (#[trigger] rest[i]).0 == name && rest[i].1 == v;
                assert(members[i + 1] == rest[i]);
            },
            None => {
                assert forall|i: int| 0 <= i < members.len() implies (#[trigger] members[i]).0
                    != name by {
                    if i > 0 {
                        assert(rest[i - 1] == members[i]);
                    }
                }
            },
        }
    } else if members.len() > 0 {
        assert(members[0].0 == name);
    }
}

/// A member of an object in order is in order.
pub proof fn lemma_member_is_orderly(
    members: Seq<(Seq<char>, JsonV)>,
    name: Seq<char>,
    depth: int,
    floats: bool,
)
    requires
        orderly(JsonV::Object(members), depth, floats),
    ensures
        find_member(members, name) matches Some(v) ==> orderly(v, depth - 1, floats),
{
    lemma_find_member(members, name);
}

/// The members of documents that are alike are alike, name by name.
pub proof fn law_members_of_alike_documents_are_alike(json: JsonV, other: JsonV, name: Seq<char>)
    requires
        alike(json, other),
    ensures
        match (member(json, name), member(other, name)) {
            (Some(v), Some(w)) => alike(v, w),
            (None, None) => true,
            _ => false,
        },
{
    match (json, other) {
        (JsonV::Object(members), JsonV::Object(others)) => {
            lemma_find_member(members, name);
            lemma_find_member(others, name);
        },
        _ => {},
    }
}

/// Setting a member keeps an object's names distinct and its members in order.
pub proof fn law_setting_a_member_keeps_order(
    members: Seq<(Seq<char>, JsonV)>,
    name: Seq<char>,
    value: JsonV,
    depth: int,
    floats: bool,
)
    requires
        orderly(JsonV::Object(members), depth, floats),
        orderly(value, depth - 1, floats),
    ensures
        orderly(JsonV::Object(set_member(members, name, value)), depth, floats),
    decreases members.len(),
{
    let after = set_member(members, name, value);
    if members.len() > 0 && members[0].0 == name {
        assert(after =~= members.update(0, (name, value)));
    } else if members.len() > 0 {
        let rest = members.skip(1);
        assert(names_distinct(rest)) by {
            assert forall|i: int, j: int| 0 <= i < j < rest.len() implies (#[trigger] rest[i]).0
                != (#[trigger] rest[j]).0 by {
                assert(members[i + 1].0 != members[j + 1].0);
            }
        }
        assert(orderly(JsonV::Object(rest), depth, floats)) by {
            assert forall|i: int| 0 <= i < rest.len() implies orderly(
                (#[trigger] rest[i]).1,
                depth - 1,
                floats,
            ) by {
                assert(rest[i] == members[i + 1]);
            }
        }
        law_setting_a_member_keeps_order(rest, name, value, depth, floats);
        let tail = set_member(rest, name, value);
        assert(after =~= seq![members[0]] + tail);
        assert forall|j: int| 0 <= j < tail.len() implies (#[trigger] tail[j]).0
            != members[0].0 by {
            lemma_set_names(rest, name, value, j);
        }
        assert forall|i: int, j: int| 0 <= i < j < after.len() implies (#[trigger] after[i]).0
            != (#[trigger] after[j]).0 by {
            assert(after[j] == tail[j - 1]);
            if i > 0 {
                assert(after[i] == tail[i - 1]);
            }
        }
        assert forall|i: int| 0 <= i < after.len() implies orderly(
            (#[trigger] after[i]).1,
            depth - 1,
            floats,
        ) by {
            if i > 0 {
                assert(after[i] == tail[i - 1]);
            }
        }
    }
}

/// The names after a member is set are those before, and that one.
proof fn lemma_set_names(
    members: Seq<(Seq<char>, JsonV)>,
    name: Seq<char>,
    value: JsonV,
    j: int,
)
    requires
        0 <= j < set_member(members, name, value).len(),
    ensures
        set_member(members, name, value)[j].0 == name || exists|i: int|
            0 <= i < members.len() && (#[trigger] members[i]).0 == set_member(
                members,
                name,
                value,
            )[j].0,
    decreases members.len(),
{
    let after = set_member(members, name, value);
    if members.len() > 0 {
        let rest = members.skip(1);
        if members[0].0 == name {
            if j > 0 {
                assert(after[j] == rest[j - 1]);
                assert(members[j].0 == after[j].0);
            }
        } else if j > 0 {
            let tail = set_member(rest, name, value);
            assert(after[j] == tail[j - 1]);
            lemma_set_names(rest, name, value, j - 1);
            if after[j].0 != name {
                let i = choose|i: int| 0 <= i < rest.len() && (#[trigger] rest[i]).0 == after[j].0;
                assert(members[i + 1] == rest[i]);
            }
        } else {
            assert(members[0].0 == after[0].0);
        }
    }
}

/// Set one member of an object.
pub fn put_member(members: &mut Vec<Member>, name: &str, value: Json)
    ensures
        Json::Object(*final(members))@->Object_0 == set_member(
            Json::Object(*old(members))@->Object_0,
            name@,
            value@,
        ),
{
    let ghost all = Json::Object(*members)@->Object_0;
    let ghost v = value@;
    let mut i: usize = 0;
    assert(all.skip(0) =~= all);
    assert(all.take(0) + set_member(all.skip(0), name@, v) =~= set_member(all, name@, v));
    while i < members.len()
        invariant
            i <= members.len(),
            *members == *old(members),
            all == Json::Object(*members)@->Object_0,
            v == value@,
            set_member(all, name@, v) == all.take(i as int) + set_member(
                all.skip(i as int),
                name@,
                v,
            ),
        decreases members.len() - i,
    {
        proof {
            assert(all.skip(i as int)[0] == (members@[i as int].name@, members@[i as int].value@));
            assert(all.skip(i as int).skip(1) =~= all.skip(i + 1));
        }
        if same(members[i].name.as_str(), name) {
            let one: Member = Member { name: name.to_string(), value };
            members.set(i, one);
            proof {
                let now = Json::Object(*members)@->Object_0;
                assert(now =~= all.update(i as int, (name@, v)));
                assert(now =~= all.take(i as int) + (seq![(name@, v)] + all.skip(i + 1)));
            }
            return;
        }
        proof {
            let here = all.skip(i as int)[0];
            assert(all.take(i as int) + (seq![here] + set_member(all.skip(i + 1), name@, v))
                =~= all.take(i + 1) + set_member(all.skip(i + 1), name@, v));
        }
        i = i + 1;
    }
    let one: Member = Member { name: name.to_string(), value };
    members.push(one);
    proof {
        let now = Json::Object(*members)@->Object_0;
        assert(all.skip(i as int) =~= seq![]);
        assert(now =~= all.push((name@, v)));
        assert(now =~= all.take(i as int) + seq![(name@, v)]);
    }
}

/// The trees of a list of members.
pub open spec fn members_view(members: Seq<Member>) -> Seq<(Seq<char>, JsonV)> {
    members.map_values(|m: Member| (m.name@, m.value@))
}

/// An object's tree is the object of its members' trees.
pub proof fn lemma_object_view(members: Vec<Member>)
    ensures
        Json::Object(members)@ == JsonV::Object(members_view(members@)),
{
    assert(Json::Object(members)@->Object_0 =~= members_view(members@));
}

/// Add a member to the end of an object under construction.
pub fn push_member(members: &mut Vec<Member>, name: &str, value: Json)
    ensures
        members_view(final(members)@) == members_view(old(members)@).push((name@, value@)),
{
    let one: Member = Member { name: name.to_string(), value };
    members.push(one);
    assert(members_view(members@) =~= members_view(old(members)@).push((name@, value@)));
}

/// The object with these members.
pub fn object(members: Vec<Member>) -> (out: Json)
    ensures
        out@ == JsonV::Object(members_view(members@)),
{
    proof {
        lemma_object_view(members);
    }
    Json::Object(members)
}

/// The text of one member.
pub open spec fn member_line(member: (Seq<char>, JsonV)) -> Seq<char> {
    json_text_of(JsonV::Text(member.0)) + ":"@ + json_text_of(member.1)
}

/// The compact text of an object whose members stand in the order given.
pub open spec fn ordered_text_of(members: Seq<(Seq<char>, JsonV)>) -> Seq<char> {
    "{"@ + joined(members.map_values(|m: (Seq<char>, JsonV)| member_line(m)), ","@) + "}"@
}

/// The compact text of an object whose members stand in the order given.
pub fn ordered_text(members: &Vec<Member>) -> (out: String)
    ensures
        out@ == ordered_text_of(members_view(members@)),
{
    let mut parts: Vec<String> = Vec::new();
    let mut i: usize = 0;
    while i < members.len()
        invariant
            i <= members.len(),
            parts@.len() == i,
            forall|k: int|
                0 <= k < i ==> (#[trigger] parts@[k])@ == member_line(members_view(members@)[k]),
        decreases members.len() - i,
    {
        let mut part: String = json_text(&text_node(members[i].name.as_str()));
        part.append(":");
        part.append(json_text(&members[i].value).as_str());
        parts.push(part);
        i = i + 1;
    }
    assert(views(parts@) =~= members_view(members@).map_values(
        |m: (Seq<char>, JsonV)| member_line(m),
    ));
    let mut out: String = "{".to_string();
    out.append(join(&parts, ",").as_str());
    out.append("}");
    out
}

/// The text node of a text.
pub fn text_node(text: &str) -> (out: Json)
    ensures
        out@ == JsonV::Text(text@),
{
    Json::Text(text.to_string())
}

/// A member of a document, `Null` where there is none.
pub fn child(json: &Json, name: &str) -> (out: Json)
    ensures
        out@ == at(json@, name@),
{
    match json.get(name) {
        Some(v) => v.copy(),
        None => Json::Null,
    }
}

/// The zero that is written `0.0`.
pub fn zero_number() -> (out: Json)
    ensures
        out@ == zero_point(),
        out@ is Float,
{
    match parse_json("0.0") {
        Some(Json::Float(n)) => Json::Float(n),
        _ => Json::Unsigned(0),
    }
}

/// No members yet.
pub fn no_members() -> (out: Vec<Member>)
    ensures
        members_view(out@) == Seq::<(Seq<char>, JsonV)>::empty(),
{
    let out: Vec<Member> = Vec::new();
    assert(members_view(out@) =~= Seq::<(Seq<char>, JsonV)>::empty());
    out
}

} // verus!
