//! JSON documents as plain values.
//!
//! `serde_json` reads the text; what it found is taken apart layer by layer
//! into [`Json`], which the rest of the library reads.
use vstd::prelude::*;

use crate::text;

verus! {

/// What a JSON document says.
pub enum Document {
    Null,
    Bool(bool),
    /// A number that is an unsigned 64-bit integer.
    Whole(u64),
    /// A negative number that is a signed 64-bit integer.
    Negative(i64),
    /// Any other number, by the text it is printed as.
    Fraction(Seq<char>),
    Text(Seq<char>),
    List(Seq<Document>),
    /// Members by name, in ascending order of the names.
    Object(Seq<(Seq<char>, Document)>),
}

/// A JSON document.
#[derive(Debug)]
pub enum Json {
    Null,
    Bool(bool),
    /// A number that is an unsigned 64-bit integer.
    Whole(u64),
    /// A negative number that is a signed 64-bit integer.
    Negative(i64),
    /// Any other number, by the text it is printed as.
    Fraction(String),
    Text(String),
    List(Vec<Json>),
    /// Members by name.
    Object(Vec<(String, Json)>),
}

/// What a value says.
pub open spec fn document(value: Json) -> Document
    decreases value,
{
    match value {
        Json::Null => Document::Null,
        Json::Bool(truth) => Document::Bool(truth),
        Json::Whole(number) => Document::Whole(number),
        Json::Negative(number) => Document::Negative(number),
        Json::Fraction(text) => Document::Fraction(text@),
        Json::Text(text) => Document::Text(text@),
        Json::List(entries) => Document::List(
            Seq::new(
                entries@.len(),
                |i: int|
                    if 0 <= i < entries@.len() {
                        document(entries@[i])
                    } else {
                        Document::Null
                    },
            ),
        ),
        Json::Object(entries) => Document::Object(
            Seq::new(
                entries@.len(),
                |i: int|
                    if 0 <= i < entries@.len() {
                        (entries@[i].0@, document(entries@[i].1))
                    } else {
                        (Seq::empty(), Document::Null)
                    },
            ),
        ),
    }
}

impl View for Json {
    type V = Document;

    open spec fn view(&self) -> Document {
        document(*self)
    }
}

/// `serde_json`'s own document type.
#[verifier::external_type_specification]
#[verifier::external_body]
pub struct ExValue(serde_json::Value);

/// What a document of `serde_json` holds.
pub uninterp spec fn held(value: serde_json::Value) -> Document;

/// What `serde_json` reads in a text: a document, or the message of its error.
pub uninterp spec fn read(text: Seq<char>) -> Result<Document, Seq<char>>;

/// The outermost layer of a document.
enum Layer {
    Null,
    Bool(bool),
    Whole(u64),
    Negative(i64),
    Fraction(String),
    Text(String),
    List(Vec<serde_json::Value>),
    Object(Vec<(String, serde_json::Value)>),
}

/// Whether the names of an object's members ascend.
pub open spec fn ascending(members: Seq<(Seq<char>, Document)>) -> bool {
    forall|i: int, j: int| 0 <= i < j < members.len() ==> text::earlier(members[i].0, members[j].0)
}

impl Layer {
    /// Whether this is the outermost layer of a document.
    spec fn tops(self, whole: Document) -> bool {
        match (self, whole) {
            (Layer::Null, Document::Null) => true,
            (Layer::Bool(truth), Document::Bool(wanted)) => truth == wanted,
            (Layer::Whole(number), Document::Whole(wanted)) => number == wanted,
            (Layer::Negative(number), Document::Negative(wanted)) => number == wanted && number < 0,
            (Layer::Fraction(text), Document::Fraction(wanted)) => text@ == wanted,
            (Layer::Text(text), Document::Text(wanted)) => text@ == wanted,
            (Layer::List(entries), Document::List(wanted)) => {
                &&& entries@.len() == wanted.len()
                &&& forall|i: int| 0 <= i < wanted.len() ==> held(entries@[i]) == wanted[i]
            },
            (Layer::Object(entries), Document::Object(wanted)) => {
                &&& entries@.len() == wanted.len()
                &&& forall|i: int|
                    0 <= i < wanted.len() ==> entries@[i].0@ == wanted[i].0 && held(entries@[i].1)
                        == wanted[i].1
                &&& ascending(wanted)
            },
            _ => false,
        }
    }
}

/// Takes the outermost layer off a document: matching on `serde_json::Value`,
/// with `Number::as_u64` and `Number::as_i64` to tell its numbers apart and the
/// number's own text for the rest. The members of an object come out of the
/// map by ascending name, because `serde_json::Map` is a `BTreeMap`.
#[verifier::external_body]
fn opened(value: serde_json::Value) -> (layer: Layer)
    ensures
        layer.tops(held(value)),
{
    match value {
        serde_json::Value::Null => Layer::Null,
        serde_json::Value::Bool(truth) => Layer::Bool(truth),
        serde_json::Value::Number(number) => match (number.as_u64(), number.as_i64()) {
            (Some(whole), _) => Layer::Whole(whole),
            (None, Some(negative)) => Layer::Negative(negative),
            (None, None) => Layer::Fraction(number.to_string()),
        },
        serde_json::Value::String(text) => Layer::Text(text),
        serde_json::Value::Array(entries) => Layer::List(entries),
        serde_json::Value::Object(members) => Layer::Object(members.into_iter().collect()),
    }
}

/// Reads a text with `serde_json::from_str`; the error is kept by its message.
#[verifier::external_body]
fn parsed(text: &str) -> (value: Result<serde_json::Value, String>)
    ensures
        match (value, read(text@)) {
            (Ok(found), Ok(wanted)) => held(found) == wanted,
            (Err(message), Err(wanted)) => message@ == wanted,
            _ => false,
        },
{
    serde_json::from_str::<serde_json::Value>(text).map_err(|cause| cause.to_string())
}

/// What `serde_json` reads from bytes: a document, or what is wrong with them.
pub uninterp spec fn read_bytes(bytes: Seq<u8>) -> Result<Document, Seq<char>>;

/// What the bytes of a text come to, where they are a text.
pub open spec fn reads_alike(
    bytes: Seq<u8>,
    found: Result<serde_json::Value, String>,
) -> bool {
    vstd::utf8::valid_utf8(bytes) ==> match (found, read(vstd::utf8::decode_utf8(bytes))) {
        (Ok(value), Ok(wanted)) => held(value) == wanted,
        (Err(message), Err(wanted)) => message@ == wanted,
        _ => false,
    }
}

/// Reads bytes with `serde_json::from_slice`; the error is kept by its message.
/// Bytes that are UTF-8 are read as the text they are.
#[verifier::external_body]
fn parsed_bytes(bytes: &Vec<u8>) -> (value: Result<serde_json::Value, String>)
    ensures
        match (value, read_bytes(bytes@)) {
            (Ok(found), Ok(wanted)) => held(found) == wanted,
            (Err(message), Err(wanted)) => message@ == wanted,
            _ => false,
        },
        reads_alike(bytes@, value),
{
    serde_json::from_slice::<serde_json::Value>(bytes).map_err(|cause| cause.to_string())
}

/// Whether every object in a document has its members in ascending order.
pub open spec fn ordered(whole: Document) -> bool
    decreases whole,
{
    match whole {
        Document::List(entries) => forall|i: int|
            0 <= i < entries.len() ==> ordered(#[trigger] entries[i]),
        Document::Object(members) => ascending(members) && forall|i: int|
            0 <= i < members.len() ==> ordered((#[trigger] members[i]).1),
        _ => true,
    }
}

impl Json {
    /// Takes a document of `serde_json` over.
    pub fn from_value(value: serde_json::Value) -> (json: Json)
        ensures
            json@ == held(value),
            ordered(json@),
            signed(json@),
        decreases held(value),
    {
        let ghost whole = held(value);
        match opened(value) {
            Layer::Null => Json::Null,
            Layer::Bool(truth) => Json::Bool(truth),
            Layer::Whole(number) => Json::Whole(number),
            Layer::Negative(number) => Json::Negative(number),
            Layer::Fraction(text) => Json::Fraction(text),
            Layer::Text(text) => Json::Text(text),
            Layer::List(entries) => {
                let ghost wanted = whole->List_0;
                let mut list: Vec<Json> = Vec::new();
                for entry in iter: entries
                    invariant
                        iter.seq() == entries@,
                        whole == held(value),
                        whole == Document::List(wanted),
                        entries@.len() == wanted.len(),
                        forall|i: int| 0 <= i < wanted.len() ==> held(entries@[i]) == wanted[i],
                        list@.len() == iter.index(),
                        forall|i: int|
                            0 <= i < list@.len() ==> document(list@[i]) == wanted[i] && ordered(
                                #[trigger] wanted[i],
                            ) && signed(wanted[i]),
                {
                    assert(entry == entries@[iter.index()]);
                    assert(decreases_to!(whole => whole->List_0));
                    assert(decreases_to!(wanted => wanted[iter.index()]));
                    assert(decreases_to!(whole => wanted[iter.index()]));
                    list.push(Json::from_value(entry));
                }
                let json = Json::List(list);
                assert(json@->List_0 =~= wanted);
                json
            },
            Layer::Object(members) => {
                let ghost wanted = whole->Object_0;
                let mut list: Vec<(String, Json)> = Vec::new();
                for member in iter: members
                    invariant
                        iter.seq() == members@,
                        whole == held(value),
                        whole == Document::Object(wanted),
                        members@.len() == wanted.len(),
                        forall|i: int|
                            0 <= i < wanted.len() ==> members@[i].0@ == wanted[i].0 && held(
                                members@[i].1,
                            ) == wanted[i].1,
                        list@.len() == iter.index(),
                        forall|i: int|
                            0 <= i < list@.len() ==> list@[i].0@ == wanted[i].0 && document(
                                list@[i].1,
                            ) == wanted[i].1 && ordered((#[trigger] wanted[i]).1) && signed(wanted[i].1),
                {
                    assert(member == members@[iter.index()]);
                    assert(decreases_to!(whole => whole->Object_0));
                    assert(decreases_to!(wanted => wanted[iter.index()]));
                    assert(decreases_to!(wanted[iter.index()] => wanted[iter.index()].1));
                    assert(decreases_to!(whole => wanted[iter.index()].1));
                    let (name, inner) = member;
                    list.push((name, Json::from_value(inner)));
                }
                let json = Json::Object(list);
                assert(json@->Object_0 =~= wanted);
                json
            },
        }
    }
}

/// The member of that name that comes first.
pub open spec fn member(members: Seq<(Seq<char>, Document)>, name: Seq<char>) -> Option<Document>
    decreases members.len(),
{
    if members.len() == 0 {
        None
    } else if members[0].0 == name {
        Some(members[0].1)
    } else {
        member(members.drop_first(), name)
    }
}

/// A member found stands in the object, and none before it has its name.
pub proof fn lemma_member(members: Seq<(Seq<char>, Document)>, name: Seq<char>)
    ensures
        match member(members, name) {
            Some(found) => exists|i: int|
                0 <= i < members.len() && #[trigger] members[i] == (name, found) && forall|j: int|
                    0 <= j < i ==> (#[trigger] members[j]).0 != name,
            None => forall|j: int| 0 <= j < members.len() ==> (#[trigger] members[j]).0 != name,
        },
    decreases members.len(),
{
    if members.len() > 0 && members[0].0 != name {
        let rest = members.drop_first();
        lemma_member(rest, name);
        assert forall|j: int| 1 <= j < members.len() implies #[trigger] members[j] == rest[j - 1] by {
        }
        match member(rest, name) {
            Some(found) => {
                let i = choose|i: int|
                    0 <= i < rest.len() && #[trigger] rest[i] == (name, found) && forall|j: int|
                        0 <= j < i ==> (#[trigger] rest[j]).0 != name;
                assert(members[i + 1] == (name, found));
                assert forall|j: int| 0 <= j < i + 1 implies (#[trigger] members[j]).0 != name by {
                    if j > 0 {
                        assert(rest[j - 1].0 != name);
                    }
                }
            },
            None => {
                assert forall|j: int| 0 <= j < members.len() implies (#[trigger] members[j]).0
                    != name by {
                    if j > 0 {
                        assert(rest[j - 1].0 != name);
                    }
                }
            },
        }
    } else if members.len() > 0 {
        assert(members[0] == (name, members[0].1));
    }
}

impl Document {
    /// The member of an object.
    pub open spec fn get(self, name: Seq<char>) -> Option<Document> {
        match self {
            Document::Object(members) => member(members, name),
            _ => None,
        }
    }

    /// The member of an object inside an object.
    pub open spec fn within(self, outer: Seq<char>, inner: Seq<char>) -> Option<Document> {
        match self.get(outer) {
            Some(found) => found.get(inner),
            None => None,
        }
    }

    /// The text, where the document is one.
    pub open spec fn text(self) -> Option<Seq<char>> {
        match self {
            Document::Text(text) => Some(text),
            _ => None,
        }
    }

    /// The number, where the document is an unsigned 64-bit integer.
    pub open spec fn whole(self) -> Option<u64> {
        match self {
            Document::Whole(number) => Some(number),
            _ => None,
        }
    }

    /// The members, where the document is an object.
    pub open spec fn members(self) -> Option<Seq<(Seq<char>, Document)>> {
        match self {
            Document::Object(members) => Some(members),
            _ => None,
        }
    }

    /// The text of a member.
    pub open spec fn text_at(self, name: Seq<char>) -> Option<Seq<char>> {
        match self.get(name) {
            Some(found) => found.text(),
            None => None,
        }
    }

    /// The text of a member of a member.
    pub open spec fn text_within(self, outer: Seq<char>, inner: Seq<char>) -> Option<Seq<char>> {
        match self.within(outer, inner) {
            Some(found) => found.text(),
            None => None,
        }
    }

    /// The number of a member of a member.
    pub open spec fn whole_within(self, outer: Seq<char>, inner: Seq<char>) -> Option<u64> {
        match self.within(outer, inner) {
            Some(found) => found.whole(),
            None => None,
        }
    }
}

/// The names of an object's members, in order.
pub open spec fn names(members: Seq<(Seq<char>, Document)>) -> Seq<Seq<char>> {
    Seq::new(members.len(), |i: int| members[i].0)
}

/// What an optional part of a document says.
pub open spec fn shown(part: Option<&Json>) -> Option<Document> {
    match part {
        Some(found) => Some(found@),
        None => None,
    }
}

impl Json {
    /// Reads a text as a JSON document.
    pub fn parse(text: &str) -> (outcome: Result<Json, String>)
        ensures
            match (outcome, read(text@)) {
                (Ok(json), Ok(wanted)) => json@ == wanted && ordered(json@) && signed(json@),
                (Err(message), Err(wanted)) => message@ == wanted,
                _ => false,
            },
    {
        match parsed(text) {
            Ok(value) => Ok(Json::from_value(value)),
            Err(message) => Err(message),
        }
    }

    /// Reads bytes as a JSON document.
    pub fn parse_bytes(bytes: &Vec<u8>) -> (outcome: Result<Json, String>)
        ensures
            match (outcome, read_bytes(bytes@)) {
                (Ok(json), Ok(wanted)) => json@ == wanted && ordered(json@) && signed(json@),
                (Err(message), Err(wanted)) => message@ == wanted,
                _ => false,
            },
            vstd::utf8::valid_utf8(bytes@) ==> read_bytes(bytes@) == read(
                vstd::utf8::decode_utf8(bytes@),
            ),
    {
        match parsed_bytes(bytes) {
            Ok(value) => Ok(Json::from_value(value)),
            Err(message) => Err(message),
        }
    }

    /// The member of an object.
    pub fn get(&self, name: &str) -> (part: Option<&Json>)
        ensures
            shown(part) == self@.get(name@),
    {
        match self {
            Json::Object(entries) => {
                let ghost members = self@->Object_0;
                let mut index: usize = 0;
                assert(members.skip(0) =~= members);
                while index < entries.len()
                    invariant
                        index <= entries@.len(),
                        *self == Json::Object(*entries),
                        members == self@->Object_0,
                        members.len() == entries@.len(),
                        member(members, name@) == member(members.skip(index as int), name@),
                    decreases entries.len() - index,
                {
                    assert(members.skip(index as int)[0] == members[index as int]);
                    assert(members.skip(index as int).drop_first() =~= members.skip(index + 1));
                    if text::same(&entries[index].0, name) {
                        return Some(&entries[index].1);
                    }
                    index += 1;
                }
                None
            },
            _ => None,
        }
    }

    /// The member of an object inside an object.
    pub fn within(&self, outer: &str, inner: &str) -> (part: Option<&Json>)
        ensures
            shown(part) == self@.within(outer@, inner@),
    {
        match self.get(outer) {
            Some(found) => found.get(inner),
            None => None,
        }
    }

    /// The text, where the document is one.
    pub fn text(&self) -> (text: Option<String>)
        ensures
            text::seen(text) == self@.text(),
    {
        match self {
            Json::Text(text) => Some(text.clone()),
            _ => None,
        }
    }

    /// The text of a member.
    pub fn text_at(&self, name: &str) -> (text: Option<String>)
        ensures
            text::seen(text) == self@.text_at(name@),
    {
        match self.get(name) {
            Some(found) => found.text(),
            None => None,
        }
    }

    /// The text of a member of a member.
    pub fn text_within(&self, outer: &str, inner: &str) -> (text: Option<String>)
        ensures
            text::seen(text) == self@.text_within(outer@, inner@),
    {
        match self.within(outer, inner) {
            Some(found) => found.text(),
            None => None,
        }
    }

    /// The number, where the document is an unsigned 64-bit integer.
    pub fn whole(&self) -> (number: Option<u64>)
        ensures
            number == self@.whole(),
    {
        match self {
            Json::Whole(number) => Some(*number),
            _ => None,
        }
    }

    /// The number of a member of a member.
    pub fn whole_within(&self, outer: &str, inner: &str) -> (number: Option<u64>)
        ensures
            number == self@.whole_within(outer@, inner@),
    {
        match self.within(outer, inner) {
            Some(found) => found.whole(),
            None => None,
        }
    }

    /// The names of an object's members, in order.
    pub fn names(&self) -> (list: Option<Vec<String>>)
        ensures
            match (list, self@.members()) {
                (Some(found), Some(members)) => text::texts(found@) == names(members),
                (None, None) => true,
                _ => false,
            },
    {
        match self {
            Json::Object(entries) => {
                let ghost members = self@->Object_0;
                let mut list: Vec<String> = Vec::new();
                let mut index: usize = 0;
                while index < entries.len()
                    invariant
                        index <= entries@.len(),
                        *self == Json::Object(*entries),
                        members == self@->Object_0,
                        members.len() == entries@.len(),
                        text::texts(list@) == names(members).take(index as int),
                    decreases entries.len() - index,
                {
                    let ghost done = text::texts(list@);
                    list.push(entries[index].0.clone());
                    assert(text::texts(list@) =~= done.push(members[index as int].0));
                    assert(text::texts(list@) =~= names(members).take(index + 1));
                    index += 1;
                }
                assert(names(members).take(index as int) =~= names(members));
                Some(list)
            },
            _ => None,
        }
    }

    /// A copy of the document.
    pub fn duplicate(&self) -> (copy: Json)
        ensures
            copy@ == self@,
        decreases *self,
    {
        match self {
            Json::Null => Json::Null,
            Json::Bool(truth) => Json::Bool(*truth),
            Json::Whole(number) => Json::Whole(*number),
            Json::Negative(number) => Json::Negative(*number),
            Json::Fraction(text) => Json::Fraction(text.clone()),
            Json::Text(text) => Json::Text(text.clone()),
            Json::List(entries) => {
                let ghost wanted = self@->List_0;
                let mut list: Vec<Json> = Vec::new();
                let mut index: usize = 0;
                while index < entries.len()
                    invariant
                        index <= entries@.len(),
                        *self == Json::List(*entries),
                        wanted == self@->List_0,
                        list@.len() == index,
                        forall|i: int| 0 <= i < list@.len() ==> document(list@[i]) == wanted[i],
                    decreases entries.len() - index,
                {
                    list.push(entries[index].duplicate());
                    index += 1;
                }
                let copy = Json::List(list);
                assert(copy@->List_0 =~= wanted);
                copy
            },
            Json::Object(entries) => {
                let ghost wanted = self@->Object_0;
                let mut list: Vec<(String, Json)> = Vec::new();
                let mut index: usize = 0;
                while index < entries.len()
                    invariant
                        index <= entries@.len(),
                        *self == Json::Object(*entries),
                        wanted == self@->Object_0,
                        list@.len() == index,
                        forall|i: int|
                            0 <= i < list@.len() ==> list@[i].0@ == wanted[i].0 && document(
                                list@[i].1,
                            ) == wanted[i].1,
                    decreases entries.len() - index,
                {
                    list.push((entries[index].0.clone(), entries[index].1.duplicate()));
                    index += 1;
                }
                let copy = Json::Object(list);
                assert(copy@->Object_0 =~= wanted);
                copy
            },
        }
    }
}

/// Puts the outermost layer on documents: the variants of `serde_json::Value`,
/// with `serde_json::from_str` for the text of a number that is no integer.
#[verifier::external_body]
fn sealed(layer: Layer) -> (value: serde_json::Value)
    requires
        layer matches Layer::Negative(number) ==> number < 0,
        layer matches Layer::Object(entries) ==> forall|i: int, j: int|
            0 <= i < j < entries@.len() ==> text::earlier(entries@[i].0@, entries@[j].0@),
    ensures
        layer !is Fraction ==> layer.tops(held(value)),
        layer matches Layer::Fraction(text) ==> held(value) == reread(text@),
{
    match layer {
        Layer::Null => serde_json::Value::Null,
        Layer::Bool(truth) => serde_json::Value::Bool(truth),
        Layer::Whole(number) => serde_json::Value::from(number),
        Layer::Negative(number) => serde_json::Value::from(number),
        Layer::Fraction(text) => serde_json::from_str(&text).unwrap_or(serde_json::Value::Null),
        Layer::Text(text) => serde_json::Value::String(text),
        Layer::List(entries) => serde_json::Value::Array(entries),
        Layer::Object(members) => serde_json::Value::Object(members.into_iter().collect()),
    }
}

/// What the text of a number gives when it is read.
pub open spec fn reread(number: Seq<char>) -> Document {
    match read(number) {
        Ok(found) => found,
        Err(_) => Document::Null,
    }
}

/// Whether a text is read as a document.
pub open spec fn reads_as(text: Seq<char>, whole: Document) -> bool {
    read(text) == Ok::<Document, Seq<char>>(whole)
}

/// What `serde_json` prints of a document, without white space.
pub uninterp spec fn printed(whole: Document) -> Seq<char>;

/// What `serde_json` prints of a document, on indented lines.
pub uninterp spec fn printed_pretty(whole: Document) -> Seq<char>;

/// Whether every number in a document is an integer and nothing in it lies
/// deeper than `depth`.
pub open spec fn integral(whole: Document, depth: nat) -> bool
    decreases whole,
{
    match whole {
        Document::Fraction(_) => false,
        Document::List(entries) => depth > 0 && forall|i: int|
            0 <= i < entries.len() ==> integral(#[trigger] entries[i], (depth - 1) as nat),
        Document::Object(members) => depth > 0 && forall|i: int|
            0 <= i < members.len() ==> integral((#[trigger] members[i]).1, (depth - 1) as nat),
        _ => true,
    }
}

/// Prints a document with the `Display` of `serde_json::Value`. What was
/// printed of integers, texts, lists and objects is read again as it was, up to
/// the depth at which `serde_json::from_str` gives up.
#[verifier::external_body]
fn printed_text(value: &serde_json::Value) -> (text: String)
    ensures
        text@ == printed(held(*value)),
        integral(held(*value), 100) ==> reads_as(text@, held(*value)),
{
    value.to_string()
}

/// Prints a document with `serde_json::to_string_pretty`, or nothing where
/// that fails. What was printed of integers, texts, lists and objects is read
/// again as it was, up to the depth at which `serde_json::from_str` gives up.
#[verifier::external_body]
fn pretty_text(value: &serde_json::Value) -> (text: String)
    ensures
        text@ == printed_pretty(held(*value)),
        integral(held(*value), 100) ==> reads_as(text@, held(*value)),
{
    serde_json::to_string_pretty(value).unwrap_or_default()
}

/// A document with every number that is no integer read again from its text.
pub open spec fn settled(whole: Document) -> Document
    decreases whole,
{
    match whole {
        Document::Fraction(text) => reread(text),
        Document::List(entries) => Document::List(
            Seq::new(
                entries.len(),
                |i: int|
                    if 0 <= i < entries.len() {
                        settled(entries[i])
                    } else {
                        Document::Null
                    },
            ),
        ),
        Document::Object(members) => Document::Object(
            Seq::new(
                members.len(),
                |i: int|
                    if 0 <= i < members.len() {
                        (members[i].0, settled(members[i].1))
                    } else {
                        (Seq::empty(), Document::Null)
                    },
            ),
        ),
        _ => whole,
    }
}

/// A document of integers, texts, lists and objects is settled.
pub proof fn lemma_integral_settled(whole: Document, depth: nat)
    requires
        integral(whole, depth),
    ensures
        settled(whole) == whole,
    decreases whole,
{
    match whole {
        Document::List(entries) => {
            assert forall|i: int| 0 <= i < entries.len() implies settled(#[trigger] entries[i])
                == entries[i] by {
                lemma_integral_settled(entries[i], (depth - 1) as nat);
            }
            assert(settled(whole)->List_0 =~= entries);
        },
        Document::Object(members) => {
            assert forall|i: int| 0 <= i < members.len() implies settled(
                (#[trigger] members[i]).1,
            ) == members[i].1 by {
                lemma_integral_settled(members[i].1, (depth - 1) as nat);
            }
            assert(settled(whole)->Object_0 =~= members);
        },
        _ => {},
    }
}

/// Whether every negative number in a document is below zero.
pub open spec fn signed(whole: Document) -> bool
    decreases whole,
{
    match whole {
        Document::Negative(number) => number < 0,
        Document::List(entries) => forall|i: int|
            0 <= i < entries.len() ==> signed(#[trigger] entries[i]),
        Document::Object(members) => forall|i: int|
            0 <= i < members.len() ==> signed((#[trigger] members[i]).1),
        _ => true,
    }
}

impl Json {
    /// Hands a document over to `serde_json`.
    pub fn to_value(&self) -> (value: serde_json::Value)
        requires
            ordered(self@),
            signed(self@),
        ensures
            held(value) == settled(self@),
        decreases *self,
    {
        match self {
            Json::Null => sealed(Layer::Null),
            Json::Bool(truth) => sealed(Layer::Bool(*truth)),
            Json::Whole(number) => sealed(Layer::Whole(*number)),
            Json::Negative(number) => sealed(Layer::Negative(*number)),
            Json::Fraction(text) => sealed(Layer::Fraction(text.clone())),
            Json::Text(text) => sealed(Layer::Text(text.clone())),
            Json::List(entries) => {
                let ghost wanted = self@->List_0;
                let mut list: Vec<serde_json::Value> = Vec::new();
                let mut index: usize = 0;
                while index < entries.len()
                    invariant
                        index <= entries@.len(),
                        *self == Json::List(*entries),
                        wanted == self@->List_0,
                        ordered(self@),
                        signed(self@),
                        list@.len() == index,
                        forall|i: int|
                            0 <= i < list@.len() ==> held(list@[i]) == settled(wanted[i]),
                    decreases entries.len() - index,
                {
                    assert(wanted[index as int] == document(entries@[index as int]));
                    list.push(entries[index].to_value());
                    index += 1;
                }
                let value = sealed(Layer::List(list));
                assert(held(value)->List_0 =~= settled(self@)->List_0);
                value
            },
            Json::Object(entries) => {
                let ghost wanted = self@->Object_0;
                let mut list: Vec<(String, serde_json::Value)> = Vec::new();
                let mut index: usize = 0;
                while index < entries.len()
                    invariant
                        index <= entries@.len(),
                        *self == Json::Object(*entries),
                        wanted == self@->Object_0,
                        ordered(self@),
                        signed(self@),
                        list@.len() == index,
                        forall|i: int|
                            0 <= i < list@.len() ==> list@[i].0@ == wanted[i].0 && held(list@[i].1)
                                == settled(wanted[i].1),
                    decreases entries.len() - index,
                {
                    assert(wanted[index as int].1 == document(entries@[index as int].1));
                    list.push((entries[index].0.clone(), entries[index].1.to_value()));
                    index += 1;
                }
                assert forall|i: int, j: int| 0 <= i < j < list@.len() implies text::earlier(
                    list@[i].0@,
                    list@[j].0@,
                ) by {
                    assert(text::earlier(wanted[i].0, wanted[j].0));
                }
                let value = sealed(Layer::Object(list));
                assert(held(value)->Object_0 =~= settled(self@)->Object_0);
                value
            },
        }
    }

    /// Prints a document without white space.
    pub fn print(&self) -> (text: String)
        requires
            ordered(self@),
            signed(self@),
        ensures
            text@ == printed(settled(self@)),
            integral(self@, 100) ==> reads_as(text@, self@),
    {
        let value = self.to_value();
        proof {
            if integral(self@, 100) {
                lemma_integral_settled(self@, 100);
            }
        }
        printed_text(&value)
    }

    /// Prints a document on indented lines.
    pub fn print_pretty(&self) -> (text: String)
        requires
            ordered(self@),
            signed(self@),
        ensures
            text@ == printed_pretty(settled(self@)),
            integral(self@, 100) ==> reads_as(text@, self@),
    {
        let value = self.to_value();
        proof {
            if integral(self@, 100) {
                lemma_integral_settled(self@, 100);
            }
        }
        pretty_text(&value)
    }
}

/// Whether a document can be handed to `serde_json`: its objects are in order and
/// its negative numbers are negative.
pub open spec fn printable(whole: Document) -> bool {
    ordered(whole) && signed(whole)
}

/// An object's members with one of them set: in the place of the one of its
/// name, or else before the first one that comes after it.
pub open spec fn inserted(
    members: Seq<(Seq<char>, Document)>,
    name: Seq<char>,
    value: Document,
) -> Seq<(Seq<char>, Document)>
    decreases members.len(),
{
    if members.len() == 0 {
        seq![(name, value)]
    } else if members[0].0 == name {
        seq![(name, value)] + members.drop_first()
    } else if text::earlier(name, members[0].0) {
        seq![(name, value)] + members
    } else {
        seq![members[0]] + inserted(members.drop_first(), name, value)
    }
}

/// A member that was set is found, and the others are found as before.
pub proof fn lemma_inserted(
    members: Seq<(Seq<char>, Document)>,
    name: Seq<char>,
    value: Document,
    other: Seq<char>,
)
    ensures
        member(inserted(members, name, value), name) == Some(value),
        other != name ==> member(inserted(members, name, value), other) == member(members, other),
    decreases members.len(),
{
    let after = inserted(members, name, value);
    if members.len() == 0 {
        assert(after.drop_first() =~= members);
    } else if members[0].0 == name {
        assert(after.drop_first() =~= members.drop_first());
    } else if text::earlier(name, members[0].0) {
        assert(after.drop_first() =~= members);
    } else {
        lemma_inserted(members.drop_first(), name, value, other);
        assert(after.drop_first() =~= inserted(members.drop_first(), name, value));
    }
}

/// Setting a member adds no name but its own, and keeps the names ascending.
pub proof fn lemma_inserted_ascending(
    members: Seq<(Seq<char>, Document)>,
    name: Seq<char>,
    value: Document,
)
    requires
        ascending(members),
    ensures
        ascending(inserted(members, name, value)),
        forall|i: int|
            0 <= i < inserted(members, name, value).len() ==> (#[trigger] inserted(
                members,
                name,
                value,
            )[i]) == (name, value) || members.contains(inserted(members, name, value)[i]),
    decreases members.len(),
{
    let after = inserted(members, name, value);
    if members.len() == 0 {
    } else if members[0].0 == name {
        assert forall|i: int, j: int| 0 <= i < j < after.len() implies text::earlier(
            after[i].0,
            after[j].0,
        ) by {
            assert(after[j] == members[j]);
            if i > 0 {
                assert(after[i] == members[i]);
            }
        }
        assert forall|i: int| 0 <= i < after.len() implies (#[trigger] after[i]) == (name, value)
            || members.contains(after[i]) by {
            if i > 0 {
                assert(after[i] == members[i]);
            }
        }
    } else if text::earlier(name, members[0].0) {
        assert forall|i: int, j: int| 0 <= i < j < after.len() implies text::earlier(
            after[i].0,
            after[j].0,
        ) by {
            assert(after[j] == members[j - 1]);
            if i > 0 {
                assert(after[i] == members[i - 1]);
            } else if j > 1 {
                assert(text::earlier(members[0].0, members[j - 1].0));
                text::lemma_earlier_transitive(name, members[0].0, members[j - 1].0);
            }
        }
        assert forall|i: int| 0 <= i < after.len() implies (#[trigger] after[i]) == (name, value)
            || members.contains(after[i]) by {
            if i > 0 {
                assert(after[i] == members[i - 1]);
            }
        }
    } else {
        let rest = members.drop_first();
        assert forall|i: int, j: int| 0 <= i < j < rest.len() implies text::earlier(
            rest[i].0,
            rest[j].0,
        ) by {
            assert(text::earlier(members[i + 1].0, members[j + 1].0));
        }
        lemma_inserted_ascending(rest, name, value);
        text::lemma_earlier_total(name, members[0].0);
        let deeper = inserted(rest, name, value);
        assert forall|i: int, j: int| 0 <= i < j < after.len() implies text::earlier(
            after[i].0,
            after[j].0,
        ) by {
            assert(after[j] == deeper[j - 1]);
            if i > 0 {
                assert(after[i] == deeper[i - 1]);
                assert(text::earlier(deeper[i - 1].0, deeper[j - 1].0));
            } else if deeper[j - 1] != (name, value) {
                let k = choose|k: int| 0 <= k < rest.len() && rest[k] == deeper[j - 1];
                assert(members[k + 1] == deeper[j - 1]);
                assert(text::earlier(members[0].0, members[k + 1].0));
            }
        }
        assert forall|i: int| 0 <= i < after.len() implies (#[trigger] after[i]) == (name, value)
            || members.contains(after[i]) by {
            if i == 0 {
                assert(after[0] == members[0]);
            } else {
                assert(after[i] == deeper[i - 1]);
                if deeper[i - 1] != (name, value) {
                    let k = choose|k: int| 0 <= k < rest.len() && rest[k] == deeper[i - 1];
                    assert(members[k + 1] == after[i]);
                }
            }
        }
    }
}

impl Json {
    /// Sets a member of an object; anything else stays as it is.
    pub fn insert(&mut self, name: &str, value: Json)
        ensures
            final(self)@ == (match old(self)@ {
                Document::Object(members) => Document::Object(inserted(members, name@, value@)),
                other => other,
            }),
    {
        let ghost before = self@;
        if let Json::Object(entries) = self {
            let ghost members = before->Object_0;
            let mut at: usize = 0;
            let ghost start = entries@;
            assert(members.skip(0) =~= members);
            assert(members.take(0) + inserted(members, name@, value@) =~= inserted(
                members,
                name@,
                value@,
            ));
            while at < entries.len() && !text::same(&entries[at].0, name) && !text::comes_before(
                name,
                &entries[at].0,
            )
                invariant
                    entries@ == start,
                    at <= start.len(),
                    members.len() == start.len(),
                    forall|i: int|
                        0 <= i < start.len() ==> members[i] == (start[i].0@, document(start[i].1)),
                    inserted(members, name@, value@) == members.take(at as int) + inserted(
                        members.skip(at as int),
                        name@,
                        value@,
                    ),
                decreases start.len() - at,
            {
                assert(members.skip(at as int)[0] == members[at as int]);
                assert(members.skip(at as int).drop_first() =~= members.skip(at + 1));
                assert(members.take(at as int) + (seq![members[at as int]] + inserted(
                    members.skip(at + 1),
                    name@,
                    value@,
                )) =~= members.take(at + 1) + inserted(members.skip(at + 1), name@, value@));
                at += 1;
            }
            let ghost rest = members.skip(at as int);
            if at < entries.len() && text::same(&entries[at].0, name) {
                assert(rest[0] == members[at as int]);
                entries.set(at, (name.to_owned(), value));
                assert(membered(entries@) =~= members.take(at as int) + (seq![(name@, value@)]
                    + rest.drop_first()));
            } else {
                assert(at < members.len() ==> rest[0] == members[at as int]);
                entries.insert(at, (name.to_owned(), value));
                assert(membered(entries@) =~= members.take(at as int) + (seq![(name@, value@)]
                    + rest));
                assert(rest.len() == 0 ==> seq![(name@, value@)] + rest =~= seq![(name@, value@)]);
            }
            assert(membered(entries@) == inserted(members, name@, value@));
        }
        proof {
            if let Document::Object(members) = before {
                assert(self@->Object_0 =~= inserted(members, name@, value@));
            }
        }
    }
}

/// What members of an object say.
pub open spec fn membered(entries: Seq<(String, Json)>) -> Seq<(Seq<char>, Document)> {
    Seq::new(entries.len(), |i: int| (entries[i].0@, document(entries[i].1)))
}

/// A member of an ordered document is ordered.
pub proof fn lemma_member_ordered(whole: Document, name: Seq<char>)
    requires
        ordered(whole),
        whole.get(name) is Some,
    ensures
        ordered(whole.get(name)->0),
{
    let members = whole->Object_0;
    lemma_member(members, name);
    let i = choose|i: int|
        0 <= i < members.len() && #[trigger] members[i] == (name, whole.get(name)->0);
    assert(ordered(members[i].1));
}

/// Setting a member keeps a document one that can be handed to `serde_json`.
pub proof fn lemma_inserted_printable(
    members: Seq<(Seq<char>, Document)>,
    name: Seq<char>,
    value: Document,
)
    requires
        printable(Document::Object(members)),
        printable(value),
    ensures
        printable(Document::Object(inserted(members, name, value))),
{
    lemma_inserted_ascending(members, name, value);
    let after = inserted(members, name, value);
    assert forall|i: int| 0 <= i < after.len() implies ordered((#[trigger] after[i]).1) && signed(
        after[i].1,
    ) by {
        if after[i] != (name, value) {
            let k = choose|k: int| 0 <= k < members.len() && members[k] == after[i];
            assert(ordered(members[k].1) && signed(members[k].1));
        }
    }
}

/// A member of a document that can be handed to `serde_json` can be, too.
pub proof fn lemma_member_printable(whole: Document, name: Seq<char>)
    requires
        printable(whole),
        whole.get(name) is Some,
    ensures
        printable(whole.get(name)->0),
{
    let members = whole->Object_0;
    lemma_member(members, name);
    let i = choose|i: int|
        0 <= i < members.len() && #[trigger] members[i] == (name, whole.get(name)->0);
    assert(ordered(members[i].1) && signed(members[i].1));
}

/// The names of members in ascending order are without repetition.
pub proof fn lemma_names_distinct(members: Seq<(Seq<char>, Document)>)
    requires
        ascending(members),
    ensures
        names(members).no_duplicates(),
{
    let list = names(members);
    assert forall|i: int, j: int| 0 <= i < list.len() && 0 <= j < list.len() && i != j implies list[i]
        != list[j] by {
        text::lemma_earlier_irreflexive(list[i]);
        if i < j {
            assert(text::earlier(members[i].0, members[j].0));
        } else {
            assert(text::earlier(members[j].0, members[i].0));
        }
    }
}

/// A member of an object is found by its name, wherever it stands, and under no
/// other name; nothing else has members.
pub proof fn a_member_is_found_by_its_name(
    members: Seq<(Seq<char>, Document)>,
    at: int,
    name: Seq<char>,
)
    requires
        ascending(members),
    ensures
        0 <= at < members.len() ==> Document::Object(members).get(members[at].0) == Some(
            members[at].1,
        ),
        (forall|i: int| 0 <= i < members.len() ==> (#[trigger] members[i]).0 != name)
            ==> Document::Object(members).get(name) is None,
        Document::Text(name).get(name) is None,
        Document::Null.get(name) is None,
{
    lemma_member(members, name);
    if let Some(found) = member(members, name) {
        let k = choose|k: int| 0 <= k < members.len() && #[trigger] members[k] == (name, found);
        assert(members[k].0 == name);
    }
    if 0 <= at < members.len() {
        let wanted = members[at].0;
        lemma_member(members, wanted);
        match member(members, wanted) {
            Some(found) => {
                let k = choose|k: int|
                    0 <= k < members.len() && #[trigger] members[k] == (wanted, found);
                text::lemma_earlier_irreflexive(wanted);
                if k < at {
                    assert(text::earlier(members[k].0, members[at].0));
                } else if at < k {
                    assert(text::earlier(members[at].0, members[k].0));
                }
            },
            None => {
                assert(members[at].0 != wanted);
            },
        }
    }
}

/// A text, a number or a member within a member is given exactly where one of that
/// kind stands there.
pub proof fn a_part_is_given_as_what_it_is(
    whole: Document,
    outer: Seq<char>,
    inner: Seq<char>,
    text: Seq<char>,
    number: u64,
    part: Document,
)
    ensures
        whole.text_at(outer) == Some(text) <==> whole.get(outer) == Some(Document::Text(text)),
        whole.within(outer, inner) == Some(part) <==> whole.get(outer) is Some && whole.get(
            outer,
        )->0.get(inner) == Some(part),
        whole.text_within(outer, inner) == Some(text) <==> whole.within(outer, inner) == Some(
            Document::Text(text),
        ),
        whole.whole_within(outer, inner) == Some(number) <==> whole.within(outer, inner) == Some(
            Document::Whole(number),
        ),
        part.text() == Some(text) <==> part == Document::Text(text),
        part.whole() == Some(number) <==> part == Document::Whole(number),
{
}

/// A member that is set is found as it was set, every other one as before, and the
/// members stay in order.
pub proof fn a_member_that_is_set_is_found(
    members: Seq<(Seq<char>, Document)>,
    name: Seq<char>,
    value: Document,
    other: Seq<char>,
)
    requires
        ascending(members),
    ensures
        member(inserted(members, name, value), name) == Some(value),
        other != name ==> member(inserted(members, name, value), other) == member(members, other),
        ascending(inserted(members, name, value)),
{
    lemma_inserted(members, name, value, other);
    lemma_inserted_ascending(members, name, value);
}

/// A document is in order exactly where every object in it, however deep, has its
/// members by ascending name.
pub proof fn a_document_is_in_order_all_through(
    first: (Seq<char>, Document),
    second: (Seq<char>, Document),
)
    ensures
        ordered(Document::Object(seq![first, second])) <==> text::earlier(first.0, second.0)
            && ordered(first.1) && ordered(second.1),
        ordered(Document::List(seq![first.1, second.1])) <==> ordered(first.1) && ordered(
            second.1,
        ),
        ordered(Document::Text(first.0)),
{
    reveal_with_fuel(ordered, 2);
    let members = seq![first, second];
    assert(members[0] == first && members[1] == second);
    let entries = seq![first.1, second.1];
    assert(entries[0] == first.1 && entries[1] == second.1);
}

/// A document is printed and read back as it was where no number in it has a fraction
/// and it is not too deep: a list or an object is too deep where no layer is left.
pub proof fn a_fraction_is_never_integral(
    text: Seq<char>,
    number: u64,
    entries: Seq<Document>,
    members: Seq<(Seq<char>, Document)>,
    depth: nat,
)
    ensures
        !integral(Document::Fraction(text), depth),
        integral(Document::Text(text), depth),
        integral(Document::Whole(number), depth),
        !integral(Document::List(entries), 0),
        !integral(Document::Object(members), 0),
{
}

/// A number that counts as negative is below zero; what can be printed is in order and
/// has no other.
pub proof fn a_negative_number_is_below_zero(number: i64, whole: Document)
    ensures
        signed(Document::Negative(number)) <==> number <= -1,
        printable(whole) <==> ordered(whole) && signed(whole),
{
}

/// A part that was found is the part that is seen, and the members of an object are
/// its own.
pub proof fn a_found_part_is_the_part_seen(part: &Json, members: Seq<(Seq<char>, Document)>)
    ensures
        shown(Some(part)) == Some(part@),
        shown(None) is None,
        Document::Object(members).members() == Some(members),
        Document::Null.members() is None,
        Json::Null@ is Null,
{
}

/// A value is seen as what it says: truth, number and text as they are.
pub proof fn a_value_is_seen_as_what_it_says(truth: bool, number: u64, below: i64, text: String)
    ensures
        Json::Bool(truth)@ == Document::Bool(truth),
        Json::Whole(number)@ == Document::Whole(number),
        Json::Negative(below)@ == Document::Negative(below),
        Json::Fraction(text)@ == Document::Fraction(text@),
        Json::Text(text)@ == Document::Text(text@),
{
}

} // verus!
