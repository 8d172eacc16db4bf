//! JSON documents.

use crate::decimal::decimal;
use crate::text::same;
use vstd::prelude::*;

verus! {

/// `serde_json::Value`: a parsed document, opaque here.
#[verifier::external_type_specification]
#[verifier::external_body]
pub struct ExValue(serde_json::Value);

/// `serde_json::Number`: an integer or a float of a document, opaque here.
#[verifier::external_type_specification]
#[verifier::external_body]
pub struct ExNumber(serde_json::Number);

/// `serde_json::Error`: why a text is no document, opaque here.
#[verifier::external_type_specification]
#[verifier::external_body]
pub struct ExError(serde_json::Error);

/// A JSON document.
#[derive(Debug, PartialEq)]
pub enum Json {
    Null,
    Bool(bool),
    Number(serde_json::Number),
    Text(String),
    Array(Vec<Json>),
    Object(Vec<(String, Json)>),
}

/// What a JSON document says: the order of an object's members does not matter, and of two
/// members of one name the later stands.
pub enum Doc {
    Null,
    Bool(bool),
    Integer(int),
    Real(serde_json::Number),
    Text(Seq<char>),
    Array(Seq<Doc>),
    Object(Map<Seq<char>, Doc>),
}

/// The integer that a number holds; nothing for a float.
pub uninterp spec fn number_integer(n: serde_json::Number) -> Option<int>;

/// The document that a value holds.
pub uninterp spec fn value_doc(v: serde_json::Value) -> Doc;

/// The text that `serde_json` writes for a document.
pub uninterp spec fn json_text(doc: Doc) -> Seq<char>;

/// The document that `serde_json` reads from a text, if it is one.
pub uninterp spec fn json_parse(text: Seq<char>) -> Option<Doc>;

/// The documents that `serde_json` reads from bytes that spell an array, if they do.
pub uninterp spec fn json_list(bytes: Seq<u8>) -> Option<Seq<Doc>>;

/// The member name that `serde_json` reads in a way of its own.
pub open spec fn reserved_name() -> Seq<char> {
    "$serde_json::private::RawValue"@
}

/// A document that nests at most `depth` arrays and objects, without a member of the reserved
/// name, and without floats unless they are let in.
pub open spec fn fits(d: Doc, depth: nat, floats: bool) -> bool
    decreases depth,
{
    match d {
        Doc::Real(_) => floats,
        Doc::Array(v) => depth > 0 && forall|i: int|
            0 <= i < v.len() ==> fits(#[trigger] v[i], (depth - 1) as nat, floats),
        Doc::Object(m) => depth > 0 && !m.contains_key(reserved_name()) && forall|k: Seq<char>|
            #[trigger] m.contains_key(k) ==> fits(m[k], (depth - 1) as nat, floats),
        _ => true,
    }
}

/// A document whose text can be read again.
pub open spec fn is_readable(d: Doc) -> bool {
    fits(d, 127, true)
}

/// A document whose text reads as that document again. A float need not: reading may round it.
pub open spec fn is_exact(d: Doc) -> bool {
    fits(d, 127, false)
}

/// Neither an array nor an object.
pub open spec fn is_leaf(d: Doc) -> bool {
    !(d is Array) && !(d is Object)
}

/// Leaves only.
pub open spec fn are_leaves(v: Seq<Doc>) -> bool {
    forall|i: int| 0 <= i < v.len() ==> is_leaf(#[trigger] v[i])
}

/// A name that is shorter than the reserved one is another one.
pub proof fn short_name_is_free(name: Seq<char>)
    requires
        name.len() < 30,
    ensures
        name != reserved_name(),
{
    reveal_strlit("$serde_json::private::RawValue");
}

/// An object with no members fits.
pub proof fn no_members_fit(depth: nat, floats: bool)
    requires
        depth > 0,
    ensures
        fits(Doc::Object(Map::empty()), depth, floats),
{
}

/// An object still fits with a member added that fits one level deeper.
pub proof fn member_fits(
    m: Map<Seq<char>, Doc>,
    key: Seq<char>,
    value: Doc,
    depth: nat,
    floats: bool,
)
    requires
        depth > 0,
        fits(Doc::Object(m), depth, floats),
        key.len() < 30,
        fits(value, (depth - 1) as nat, floats),
    ensures
        fits(Doc::Object(m.insert(key, value)), depth, floats),
{
    short_name_is_free(key);
    let n = m.insert(key, value);
    assert forall|k: Seq<char>| #[trigger] n.contains_key(k) implies fits(
        n[k],
        (depth - 1) as nat,
        floats,
    ) by {
        if k != key {
            assert(m.contains_key(k));
        }
    }
}

/// A text that stands in a JSON string as it is, without escapes.
pub open spec fn is_plain_text(s: Seq<char>) -> bool {
    forall|i: int|
        0 <= i < s.len() ==> #[trigger] s[i] != '"' && s[i] != '\\' && s[i] as u32 >= 32
}

/// A text in quotes.
pub open spec fn quoted(s: Seq<char>) -> Seq<char> {
    "\""@ + s + "\""@
}

/// Members of an object as they are written, with commas between: each a name and the text of its
/// value.
pub open spec fn members_text(members: Seq<(Seq<char>, Seq<char>)>) -> Seq<char>
    decreases members.len(),
{
    if members.len() == 0 {
        Seq::empty()
    } else {
        let last = quoted(members.last().0) + ":"@ + members.last().1;
        if members.len() == 1 {
            last
        } else {
            members_text(members.drop_last()) + ","@ + last
        }
    }
}

/// An object as it is written.
pub open spec fn object_text(members: Seq<(Seq<char>, Seq<char>)>) -> Seq<char> {
    "{"@ + members_text(members) + "}"@
}

/// The text of a value that is a string without escapes, a number of at most 128 bits in decimal, or
/// a literal.
pub open spec fn is_simple_value(s: Seq<char>) -> bool {
    ||| exists|t: Seq<char>| s == #[trigger] quoted(t) && is_plain_text(t)
    ||| exists|n: nat| s == #[trigger] decimal(n) && n <= u128::MAX
    ||| s == "true"@
    ||| s == "false"@
    ||| s == "null"@
}

/// A name that needs no escapes, other than the reserved one, and a simple value.
pub open spec fn is_simple_member(member: (Seq<char>, Seq<char>)) -> bool {
    is_plain_text(member.0) && member.0 != reserved_name() && is_simple_value(member.1)
}

/// The text of a JSON object of simple members.
pub open spec fn is_flat_object(text: Seq<char>) -> bool {
    exists|members: Seq<(Seq<char>, Seq<char>)>|
        text == #[trigger] object_text(members) && forall|i: int|
            0 <= i < members.len() ==> is_simple_member(#[trigger] members[i])
}

/// What a number says.
pub open spec fn number_doc(n: serde_json::Number) -> Doc {
    match number_integer(n) {
        Some(i) => Doc::Integer(i),
        None => Doc::Real(n),
    }
}

impl Json {
    /// What the document says.
    pub open spec fn doc(self) -> Doc
        decreases self,
    {
        match self {
            Json::Null => Doc::Null,
            Json::Bool(b) => Doc::Bool(b),
            Json::Number(n) => number_doc(n),
            Json::Text(s) => Doc::Text(s@),
            Json::Array(v) => Doc::Array(Json::docs(v@)),
            Json::Object(v) => Doc::Object(Json::members(v@)),
        }
    }

    /// What the elements of an array say.
    pub open spec fn docs(v: Seq<Json>) -> Seq<Doc>
        decreases v,
    {
        if v.len() == 0 {
            Seq::empty()
        } else {
            Json::docs(v.drop_last()).push(v.last().doc())
        }
    }

    /// What the members of an object say.
    pub open spec fn members(v: Seq<(String, Json)>) -> Map<Seq<char>, Doc>
        decreases v,
    {
        if v.len() == 0 {
            Map::empty()
        } else {
            Json::members(v.drop_last()).insert(v.last().0@, v.last().1.doc())
        }
    }
}

impl View for Json {
    type V = Doc;

    open spec fn view(&self) -> Doc {
        self.doc()
    }
}

/// `serde_json::Number::as_i64`: the integer, where the number holds one in the range of `i64`.
pub assume_specification[ serde_json::Number::as_i64 ](n: &serde_json::Number) -> (r: Option<i64>)
    ensures
        match number_integer(*n) {
            Some(i) => if i64::MIN <= i <= i64::MAX {
                r == Some(i as i64)
            } else {
                r is None
            },
            None => r is None,
        },
;

/// `serde_json::Number::from_i128`: the number that holds an integer, where it is in the range
/// from the least `i64` to the greatest `u64`.
pub assume_specification[ serde_json::Number::from_i128 ](i: i128) -> (r: Option<
    serde_json::Number,
>)
    ensures
        match r {
            Some(n) => number_integer(n) == Some(i as int) && i64::MIN <= i <= u64::MAX,
            None => !(i64::MIN <= i <= u64::MAX),
        },
;

/// Converts a document to a `serde_json::Value`. The members of an object are collected into a
/// `serde_json::Map` in the given order, and a repeated one replaces the earlier one there.
#[verifier::external_body]
fn value_of(doc: &Json) -> (r: serde_json::Value)
    ensures
        value_doc(r) == doc@,
{
    match doc {
        Json::Null => serde_json::Value::Null,
        Json::Bool(b) => serde_json::Value::Bool(*b),
        Json::Number(n) => serde_json::Value::Number(n.clone()),
        Json::Text(s) => serde_json::Value::String(s.clone()),
        Json::Array(v) => serde_json::Value::Array(v.iter().map(value_of).collect()),
        Json::Object(v) => {
            serde_json::Value::Object(v.iter().map(|m| (m.0.clone(), value_of(&m.1))).collect())
        },
    }
}

/// Converts a `serde_json::Value` to a document, with the members of an object in the order in
/// which `serde_json::Map` hands them out.
#[verifier::external_body]
fn document_of(v: serde_json::Value) -> (r: Json)
    ensures
        r@ == value_doc(v),
{
    match v {
        serde_json::Value::Null => Json::Null,
        serde_json::Value::Bool(b) => Json::Bool(b),
        serde_json::Value::Number(n) => Json::Number(n),
        serde_json::Value::String(s) => Json::Text(s),
        serde_json::Value::Array(v) => Json::Array(v.into_iter().map(document_of).collect()),
        serde_json::Value::Object(m) => {
            Json::Object(m.into_iter().map(|(k, v)| (k, document_of(v))).collect())
        },
    }
}

/// `<serde_json::Value as ToString>::to_string`: the compact text of a value. It depends on what
/// the value says alone, since `serde_json::Map` keeps its members in key order. Control
/// characters stand escaped in it, so that it is always a single line. `serde_json::from_str`
/// reads it again, where it nests no deeper than the 127 levels that the reader takes and has no
/// member of the name under which the reader expects raw text, and without floats it reads the
/// same document; a float is always read, perhaps as one nearby.
#[verifier::external_body]
fn value_text(v: &serde_json::Value) -> (r: String)
    ensures
        r@ == json_text(value_doc(*v)),
        !r@.contains('\n') && !r@.contains('\r'),
        is_readable(value_doc(*v)) ==> json_parse(r@) is Some,
        is_exact(value_doc(*v)) ==> json_parse(r@) == Some(value_doc(*v)),
{
    v.to_string()
}

/// `serde_json::from_str::<serde_json::Value>`: the value that a text stands for, or the error
/// where it is no JSON document. The text of an object of simple members is always read.
#[verifier::external_body]
fn read_value(text: &str) -> (r: Result<serde_json::Value, serde_json::Error>)
    ensures
        match r {
            Ok(v) => json_parse(text@) == Some(value_doc(v)),
            Err(_) => json_parse(text@) is None,
        },
        is_flat_object(text@) ==> r is Ok,
{
    serde_json::from_str(text)
}

/// What a list of values says.
pub open spec fn value_docs(v: Seq<serde_json::Value>) -> Seq<Doc> {
    Seq::new(v.len(), |i: int| value_doc(v[i]))
}

/// `serde_json::from_slice::<Vec<serde_json::Value>>`: the values of the array that bytes spell,
/// or the error where they spell none.
#[verifier::external_body]
fn read_values(bytes: &Vec<u8>) -> (r: Result<Vec<serde_json::Value>, serde_json::Error>)
    ensures
        match r {
            Ok(v) => json_list(bytes@) == Some(value_docs(v@)),
            Err(_) => json_list(bytes@) is None,
        },
{
    serde_json::from_slice(bytes)
}

/// Reading an array keeps its length and its elements.
pub proof fn docs_are_elementwise(v: Seq<Json>)
    ensures
        Json::docs(v).len() == v.len(),
        forall|i: int| 0 <= i < v.len() ==> #[trigger] Json::docs(v)[i] == v[i].doc(),
    decreases v.len(),
{
    if v.len() > 0 {
        docs_are_elementwise(v.drop_last());
    }
}

/// The member `key` of a document; nothing where the document is no object or has none.
pub open spec fn member(d: Doc, key: Seq<char>) -> Option<Doc> {
    match d {
        Doc::Object(m) => if m.contains_key(key) {
            Some(m[key])
        } else {
            None
        },
        _ => None,
    }
}

/// The element `i` of a document; nothing where the document is no array or is too short.
pub open spec fn element(d: Doc, i: nat) -> Option<Doc> {
    match d {
        Doc::Array(v) => if i < v.len() {
            Some(v[i as int])
        } else {
            None
        },
        _ => None,
    }
}

/// The text that an optional document is, if it is one.
pub open spec fn text_of(d: Option<Doc>) -> Option<Seq<char>> {
    match d {
        Some(Doc::Text(s)) => Some(s),
        _ => None,
    }
}

/// The integer that an optional document is, if it is one in the range of `i64`.
pub open spec fn integer_of(d: Option<Doc>) -> Option<int> {
    match d {
        Some(Doc::Integer(i)) => if i64::MIN <= i <= i64::MAX {
            Some(i)
        } else {
            None
        },
        _ => None,
    }
}

/// Whether an optional document is a number.
pub open spec fn is_number(d: Option<Doc>) -> bool {
    d matches Some(d) && (d is Integer || d is Real)
}

impl Json {
    /// The document that holds an integer.
    pub fn integer(i: i128) -> (r: Json)
        requires
            i64::MIN <= i <= u64::MAX,
        ensures
            r@ == Doc::Integer(i as int),
    {
        match serde_json::Number::from_i128(i) {
            Some(n) => Json::Number(n),
            None => Json::Null,
        }
    }

    /// Adds a member to the members of an object.
    pub fn add_member(members: &mut Vec<(String, Json)>, key: &str, value: Json)
        ensures
            Json::members(final(members)@) == Json::members(old(members)@).insert(key@, value@),
    {
        members.push((key.to_owned(), value));
        assert(members@.drop_last() == old(members)@);
    }

    /// Adds an element to the elements of an array.
    pub fn add_element(elements: &mut Vec<Json>, value: Json)
        ensures
            Json::docs(final(elements)@) == Json::docs(old(elements)@).push(value@),
    {
        elements.push(value);
        assert(elements@.drop_last() == old(elements)@);
    }

    /// The document that holds a text.
    pub fn text(s: &str) -> (r: Json)
        ensures
            r@ == Doc::Text(s@),
    {
        Json::Text(s.to_owned())
    }

    /// The document's text, on a single line.
    pub fn to_text(&self) -> (r: String)
        ensures
            r@ == json_text(self@),
            !r@.contains('\n') && !r@.contains('\r'),
            is_readable(self@) ==> json_parse(r@) is Some,
            is_exact(self@) ==> json_parse(r@) == Some(self@),
    {
        value_text(&self.to_value())
    }

    /// The document as a `serde_json::Value`.
    pub fn to_value(&self) -> (r: serde_json::Value)
        ensures
            value_doc(r) == self@,
    {
        value_of(self)
    }

    /// The document that a `serde_json::Value` holds.
    pub fn from_value(v: serde_json::Value) -> (r: Json)
        ensures
            r@ == value_doc(v),
    {
        document_of(v)
    }

    /// Reads a document.
    pub fn parse(text: &str) -> (r: Option<Json>)
        ensures
            match r {
                Some(j) => json_parse(text@) == Some(j@),
                None => json_parse(text@) is None,
            },
            is_flat_object(text@) ==> r is Some,
    {
        match read_value(text) {
            Ok(v) => Some(Json::from_value(v)),
            Err(_) => None,
        }
    }

    /// Reads the documents of an array.
    pub fn parse_list(bytes: &Vec<u8>) -> (r: Option<Vec<Json>>)
        ensures
            match r {
                Some(list) => json_list(bytes@) == Some(Json::docs(list@)),
                None => json_list(bytes@) is None,
            },
    {
        let values = match read_values(bytes) {
            Ok(values) => values,
            Err(_) => {
                return None;
            },
        };
        let ghost all = values@;
        let mut list: Vec<Json> = Vec::new();
        assert(Json::docs(list@) =~= value_docs(all.take(0)));
        for value in it: values
            invariant
                it.seq() == all,
                Json::docs(list@) == value_docs(all.take(it.index())),
        {
            Json::add_element(&mut list, Json::from_value(value));
            assert(value_docs(all.take(it.index() + 1)) =~= value_docs(all.take(it.index())).push(
                value_doc(value),
            ));
        }
        assert(all.take(all.len() as int) == all);
        Some(list)
    }

    /// The member `key` of an object.
    pub fn get(&self, key: &str) -> (r: Option<&Json>)
        ensures
            match r {
                Some(j) => member(self@, key@) == Some(j@),
                None => member(self@, key@) is None,
            },
    {
        match self {
            Json::Object(v) => {
                let mut n: usize = v.len();
                assert(v@.take(n as int) == v@);
                while n > 0
                    invariant
                        n <= v@.len(),
                        member(self@, key@) == member(
                            Doc::Object(Json::members(v@.take(n as int))),
                            key@,
                        ),
                    decreases n,
                {
                    let ghost seen = v@.take(n as int);
                    assert(seen.drop_last() == v@.take(n - 1));
                    assert(seen.last() == v@[n - 1]);
                    if same(v[n - 1].0.as_str(), key) {
                        return Some(&v[n - 1].1);
                    }
                    n -= 1;
                }
                None
            },
            _ => None,
        }
    }

    /// The element `i` of an array.
    pub fn at(&self, i: usize) -> (r: Option<&Json>)
        ensures
            match r {
                Some(j) => element(self@, i as nat) == Some(j@),
                None => element(self@, i as nat) is None,
            },
    {
        match self {
            Json::Array(v) => {
                proof {
                    docs_are_elementwise(v@);
                }
                if i < v.len() {
                    Some(&v[i])
                } else {
                    None
                }
            },
            _ => None,
        }
    }

    /// The text of a text document.
    pub fn as_text(&self) -> (r: Option<&String>)
        ensures
            match r {
                Some(s) => text_of(Some(self@)) == Some(s@),
                None => text_of(Some(self@)) is None,
            },
    {
        match self {
            Json::Text(s) => Some(s),
            _ => None,
        }
    }

    /// The integer of a number document, where it holds one in the range of `i64`.
    pub fn as_integer(&self) -> (r: Option<i64>)
        ensures
            match r {
                Some(i) => integer_of(Some(self@)) == Some(i as int),
                None => integer_of(Some(self@)) is None,
            },
    {
        match self {
            Json::Number(n) => n.as_i64(),
            _ => None,
        }
    }
}

/// A member is found under its name, and only in an object that has it; other members do not
/// matter.
pub proof fn members_are_found(
    m: Map<Seq<char>, Doc>,
    key: Seq<char>,
    value: Doc,
    other: Seq<char>,
    d: Doc,
)
    ensures
        member(Doc::Object(m.insert(key, value)), key) == Some(value),
        member(Doc::Object(m.remove(key)), key) is None,
        other != key ==> member(Doc::Object(m.insert(key, value)), other) == member(
            Doc::Object(m),
            other,
        ),
        !(d is Object) ==> member(d, key) is None,
{
}

/// An element is found at its place, and only in an array that reaches so far.
pub proof fn elements_are_found(a: Seq<Doc>, value: Doc, b: Seq<Doc>, i: nat, d: Doc)
    ensures
        element(Doc::Array(a + seq![value] + b), a.len()) == Some(value),
        i >= a.len() ==> element(Doc::Array(a), i) is None,
        !(d is Array) ==> element(d, i) is None,
{
}

/// A text is read as that text, and nothing else as a text.
pub proof fn texts_are_read(s: Seq<char>, d: Doc)
    ensures
        text_of(Some(Doc::Text(s))) == Some(s),
        !(d is Text) ==> text_of(Some(d)) is None,
        text_of(None) is None,
{
}

/// An integer of 64 bits is read as that integer, and nothing else as an integer; integers and
/// floats are numbers, and nothing else is.
pub proof fn numbers_are_read(i: int, d: Doc)
    ensures
        -0x8000_0000_0000_0000 <= i < 0x8000_0000_0000_0000 ==> integer_of(Some(Doc::Integer(i)))
            == Some(i),
        !(-0x8000_0000_0000_0000 <= i < 0x8000_0000_0000_0000) ==> integer_of(
            Some(Doc::Integer(i)),
        ) is None,
        !(d is Integer) ==> integer_of(Some(d)) is None,
        integer_of(None) is None,
        is_number(Some(d)) == (d is Integer || d is Real),
        !is_number(None),
{
}

/// The members of an object are added one by one, the later over the earlier of the same name.
pub proof fn later_members_stand(v: Seq<(String, Json)>, name: String, value: Json)
    ensures
        Json::members(v.push((name, value))) == Json::members(v).insert(name@, value@),
        Json::members(Seq::empty()) == Map::<Seq<char>, Doc>::empty(),
{
    assert(v.push((name, value)).drop_last() =~= v);
}

} // verus!
