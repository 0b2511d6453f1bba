//! JSON documents as plain values, and how they are read.
use vstd::prelude::*;

use crate::numbers::{number_read, parse_u64};
use crate::text::{
    chars_of, has_prefix, lemma_pieces_nonempty, pieces, replace, replace_all, same_text, split,
    starts_with, text_of, views,
};

verus! {

/// A JSON number: its value where it is an integer that fits, and its numeral.
#[derive(Debug, PartialEq, Eq)]
pub struct JsonNumber {
    pub unsigned: Option<u64>,
    pub signed: Option<i64>,
    pub numeral: String,
}

/// A JSON document. The entries of an object are held in order.
#[derive(Debug, PartialEq, Eq)]
pub enum Json {
    Null,
    Bool(bool),
    Number(JsonNumber),
    Text(String),
    Array(Vec<Json>),
    Object(Vec<(String, Json)>),
}

/// What a JSON number is.
pub struct NumberTree {
    pub unsigned: Option<u64>,
    pub signed: Option<i64>,
    pub numeral: Seq<char>,
}

/// What a JSON document is: the mathematical model of `Json`.
pub enum JsonTree {
    Null,
    Bool(bool),
    Number(NumberTree),
    Text(Seq<char>),
    Array(Seq<JsonTree>),
    Object(Seq<(Seq<char>, JsonTree)>),
}

impl View for JsonNumber {
    type V = NumberTree;

    open spec fn view(&self) -> NumberTree {
        NumberTree { unsigned: self.unsigned, signed: self.signed, numeral: self.numeral@ }
    }
}

/// The model of a document.
pub open spec fn tree(j: Json) -> JsonTree
    decreases j,
{
    match j {
        Json::Null => JsonTree::Null,
        Json::Bool(b) => JsonTree::Bool(b),
        Json::Number(n) => JsonTree::Number(n@),
        Json::Text(s) => JsonTree::Text(s@),
        Json::Array(items) => JsonTree::Array(
            Seq::new(
                items@.len(),
                |i: int|
                    if 0 <= i < items@.len() {
                        tree(items@[i])
                    } else {
                        JsonTree::Null
                    },
            ),
        ),
        Json::Object(entries) => JsonTree::Object(
            Seq::new(
                entries@.len(),
                |i: int|
                    if 0 <= i < entries@.len() {
                        (entries@[i].0@, tree(entries@[i].1))
                    } else {
                        (Seq::empty(), JsonTree::Null)
                    },
            ),
        ),
    }
}

impl View for Json {
    type V = JsonTree;

    open spec fn view(&self) -> JsonTree {
        tree(*self)
    }
}

/// The models of the items of an array.
pub open spec fn item_trees(items: Seq<Json>) -> Seq<JsonTree> {
    items.map_values(|j: Json| tree(j))
}

/// The models of the entries of an object.
pub open spec fn entry_trees(entries: Seq<(String, Json)>) -> Seq<(Seq<char>, JsonTree)> {
    entries.map_values(|e: (String, Json)| (e.0@, tree(e.1)))
}

/// An array is modelled by the models of its items.
pub broadcast proof fn array_tree(items: Vec<Json>)
    ensures
        #[trigger] tree(Json::Array(items)) == JsonTree::Array(item_trees(items@)),
{
    assert(tree(Json::Array(items))->Array_0 =~= item_trees(items@));
}

/// An object is modelled by the models of its entries.
pub broadcast proof fn object_tree(entries: Vec<(String, Json)>)
    ensures
        #[trigger] tree(Json::Object(entries)) == JsonTree::Object(entry_trees(entries@)),
{
    assert(tree(Json::Object(entries))->Object_0 =~= entry_trees(entries@));
}

// ---------------------------------------------------------------------------
// Reading
// ---------------------------------------------------------------------------

/// The position of the entry with the key among the entries from `i` on.
pub open spec fn entry_from(
    entries: Seq<(Seq<char>, JsonTree)>,
    key: Seq<char>,
    i: int,
) -> Option<int>
    decreases entries.len() - i,
{
    if i < 0 || i >= entries.len() {
        None
    } else if entries[i].0 == key {
        Some(i)
    } else {
        entry_from(entries, key, i + 1)
    }
}

/// The token of a JSON pointer, unescaped.
pub open spec fn pointer_token(raw: Seq<char>) -> Seq<char> {
    replace(replace(raw, "~1"@, "/"@), "~0"@, "~"@)
}

/// The position in an array that a token of a JSON pointer stands for.
pub open spec fn pointer_index(token: Seq<char>) -> Option<nat> {
    if has_prefix(token, "+"@) || (has_prefix(token, "0"@) && token.len() != 1) {
        None
    } else {
        number_read(token, usize::MAX as nat)
    }
}

impl JsonTree {
    /// What stands at a key of an object.
    pub open spec fn get(self, key: Seq<char>) -> Option<JsonTree> {
        match self {
            JsonTree::Object(entries) => match entry_from(entries, key, 0) {
                Some(i) => Some(entries[i].1),
                None => None,
            },
            _ => None,
        }
    }

    /// What stands at a position of an array.
    pub open spec fn item(self, index: nat) -> Option<JsonTree> {
        match self {
            JsonTree::Array(items) => if index < items.len() {
                Some(items[index as int])
            } else {
                None
            },
            _ => None,
        }
    }

    /// The string, if the document is one.
    pub open spec fn text(self) -> Option<Seq<char>> {
        match self {
            JsonTree::Text(s) => Some(s),
            _ => None,
        }
    }

    /// The boolean, if the document is one.
    pub open spec fn truth(self) -> Option<bool> {
        match self {
            JsonTree::Bool(b) => Some(b),
            _ => None,
        }
    }

    /// The items, if the document is an array.
    pub open spec fn items(self) -> Option<Seq<JsonTree>> {
        match self {
            JsonTree::Array(items) => Some(items),
            _ => None,
        }
    }

    /// The number, if the document is an integer that fits in `u64`.
    pub open spec fn unsigned(self) -> Option<u64> {
        match self {
            JsonTree::Number(n) => n.unsigned,
            _ => None,
        }
    }

    /// The number, if the document is an integer that fits in `i64`.
    pub open spec fn signed(self) -> Option<i64> {
        match self {
            JsonTree::Number(n) => n.signed,
            _ => None,
        }
    }

    /// The string at a key.
    pub open spec fn text_at(self, key: Seq<char>) -> Option<Seq<char>> {
        match self.get(key) {
            Some(j) => j.text(),
            None => None,
        }
    }

    /// One step along a JSON pointer.
    pub open spec fn pointer_step(self, token: Seq<char>) -> Option<JsonTree> {
        match self {
            JsonTree::Object(_) => self.get(token),
            JsonTree::Array(_) => match pointer_index(token) {
                Some(i) => self.item(i),
                None => None,
            },
            _ => None,
        }
    }

    /// What the tokens lead to, one step after the other.
    pub open spec fn walk(self, tokens: Seq<Seq<char>>) -> Option<JsonTree>
        decreases tokens.len(),
    {
        if tokens.len() == 0 {
            Some(self)
        } else {
            match self.pointer_step(pointer_token(tokens[0])) {
                Some(j) => j.walk(tokens.drop_first()),
                None => None,
            }
        }
    }

    /// What a JSON pointer leads to.
    pub open spec fn pointer(self, pointer: Seq<char>) -> Option<JsonTree> {
        if pointer.len() == 0 {
            Some(self)
        } else if !has_prefix(pointer, "/"@) {
            None
        } else {
            self.walk(pieces(pointer, seq!['/']).drop_first())
        }
    }
}

/// The model of what a reference refers to, if there is one.
pub open spec fn some_tree(j: Option<&Json>) -> Option<JsonTree> {
    match j {
        Some(j) => Some(j@),
        None => None,
    }
}

/// The view of a string, if there is one.
pub open spec fn some_text(s: Option<&str>) -> Option<Seq<char>> {
    match s {
        Some(s) => Some(s@),
        None => None,
    }
}

/// The view of a string, if there is one.
pub open spec fn some_string(s: Option<String>) -> Option<Seq<char>> {
    match s {
        Some(s) => Some(s@),
        None => None,
    }
}

/// The position of the entry with the key.
pub fn entry_position(entries: &Vec<(String, Json)>, key: &str) -> (r: Option<usize>)
    ensures
        match r {
            Some(i) => entry_from(entry_trees(entries@), key@, 0) == Some(i as int) && i
                < entries.len(),
            None => entry_from(entry_trees(entries@), key@, 0) is None,
        },
{
    let ghost trees = entry_trees(entries@);
    let mut i: usize = 0;
    while i < entries.len()
        invariant
            i <= entries.len(),
            trees == entry_trees(entries@),
            entry_from(trees, key@, 0) == entry_from(trees, key@, i as int),
        decreases entries.len() - i,
    {
        assert(trees[i as int].0 == entries@[i as int].0@);
        if same_text(entries[i].0.as_str(), key) {
            return Some(i);
        }
        i += 1;
    }
    None
}

impl Json {
    /// What stands at a key of an object.
    pub fn get(&self, key: &str) -> (r: Option<&Json>)
        ensures
            some_tree(r) == self@.get(key@),
    {
        broadcast use object_tree;

        match self {
            Json::Object(entries) => match entry_position(entries, key) {
                Some(i) => Some(&entries[i].1),
                None => None,
            },
            _ => None,
        }
    }

    /// What stands at a position of an array.
    pub fn item(&self, index: usize) -> (r: Option<&Json>)
        ensures
            some_tree(r) == self@.item(index as nat),
    {
        broadcast use array_tree;

        match self {
            Json::Array(items) => if index < items.len() {
                Some(&items[index])
            } else {
                None
            },
            _ => None,
        }
    }

    /// The string, if the document is one.
    pub fn as_text(&self) -> (r: Option<&str>)
        ensures
            some_text(r) == self@.text(),
    {
        match self {
            Json::Text(s) => Some(s.as_str()),
            _ => None,
        }
    }

    /// The boolean, if the document is one.
    pub fn as_bool(&self) -> (r: Option<bool>)
        ensures
            r == self@.truth(),
    {
        match self {
            Json::Bool(b) => Some(*b),
            _ => None,
        }
    }

    /// The items, if the document is an array.
    pub fn as_array(&self) -> (r: Option<&Vec<Json>>)
        ensures
            match r {
                Some(items) => self@.items() == Some(item_trees(items@)),
                None => self@.items() is None,
            },
    {
        broadcast use array_tree;

        match self {
            Json::Array(items) => Some(items),
            _ => None,
        }
    }

    /// The number, if the document is an integer that fits in `u64`.
    pub fn as_u64(&self) -> (r: Option<u64>)
        ensures
            r == self@.unsigned(),
    {
        match self {
            Json::Number(n) => n.unsigned,
            _ => None,
        }
    }

    /// The number, if the document is an integer that fits in `i64`.
    pub fn as_i64(&self) -> (r: Option<i64>)
        ensures
            r == self@.signed(),
    {
        match self {
            Json::Number(n) => n.signed,
            _ => None,
        }
    }

    /// The string at a key.
    pub fn text_at(&self, key: &str) -> (r: Option<&str>)
        ensures
            some_text(r) == self@.text_at(key@),
    {
        match self.get(key) {
            Some(j) => j.as_text(),
            None => None,
        }
    }

    /// One step along a JSON pointer.
    fn pointer_step(&self, token: &[char]) -> (r: Option<&Json>)
        ensures
            some_tree(r) == self@.pointer_step(token@),
    {
        match self {
            Json::Object(_) => {
                let key = text_of(token);
                self.get(key.as_str())
            },
            Json::Array(_) => {
                if starts_with(token, "+") || (starts_with(token, "0") && token.len() != 1) {
                    return None;
                }
                match parse_u64(token) {
                    Some(n) => if n <= usize::MAX as u64 {
                        self.item(n as usize)
                    } else {
                        None
                    },
                    None => None,
                }
            },
            _ => None,
        }
    }

    /// What a JSON pointer leads to.
    pub fn pointer(&self, pointer: &str) -> (r: Option<&Json>)
        ensures
            some_tree(r) == self@.pointer(pointer@),
    {
        let cs = chars_of(pointer);
        if cs.len() == 0 {
            return Some(self);
        }
        if !starts_with(cs.as_slice(), "/") {
            return None;
        }
        let slash: [char; 1] = ['/'];
        assert(slash@ == seq!['/']);
        let tokens = split(cs.as_slice(), slash.as_slice());
        let ghost all = views(tokens@);
        proof {
            lemma_pieces_nonempty(cs@, slash@);
        }
        let mut current: &Json = self;
        let mut i: usize = 1;
        assert(all.skip(1) == all.drop_first());
        while i < tokens.len()
            invariant
                1 <= i <= tokens.len(),
                all == views(tokens@),
                self@.pointer(pointer@) == current@.walk(all.skip(i as int)),
            decreases tokens.len() - i,
        {
            proof {
                reveal_strlit("~1");
                reveal_strlit("~0");
            }
            let once = replace_all(tokens[i].as_slice(), "~1", "/");
            let token = replace_all(once.as_slice(), "~0", "~");
            assert(all.skip(i as int)[0] == tokens@[i as int]@);
            assert(all.skip(i as int).drop_first() == all.skip(i + 1));
            match current.pointer_step(token.as_slice()) {
                Some(next) => {
                    current = next;
                },
                None => {
                    return None;
                },
            }
            i += 1;
        }
        Some(current)
    }
}

// ---------------------------------------------------------------------------
// Parsing
// ---------------------------------------------------------------------------

/// `serde_json::Value`, a document as the JSON parser hands it out.
#[verifier::external_type_specification]
#[verifier::external_body]
pub struct ExValue(serde_json::Value);

/// What a parsed document holds.
pub uninterp spec fn value_tree(value: serde_json::Value) -> JsonTree;

/// The document that `serde_json::from_str` reads from a text, if the whole text is one.
pub uninterp spec fn json_document(text: Seq<char>) -> Option<JsonTree>;

/// The document that a `serde_json::Deserializer` reads at the start of a text, if there is one.
pub uninterp spec fn json_prefix(text: Seq<char>) -> Option<JsonTree>;

/// The outermost layer of a parsed document.
pub enum ValueParts<'a> {
    Null,
    Bool(bool),
    Number(JsonNumber),
    Text(&'a String),
    Array(&'a Vec<serde_json::Value>),
    Object(Vec<(&'a String, &'a serde_json::Value)>),
}

/// The model of a document of which the outermost layer is given.
pub open spec fn parts_tree(parts: ValueParts) -> JsonTree {
    match parts {
        ValueParts::Null => JsonTree::Null,
        ValueParts::Bool(b) => JsonTree::Bool(b),
        ValueParts::Number(n) => JsonTree::Number(n@),
        ValueParts::Text(s) => JsonTree::Text(s@),
        ValueParts::Array(items) => JsonTree::Array(
            items@.map_values(|v: serde_json::Value| value_tree(v)),
        ),
        ValueParts::Object(entries) => JsonTree::Object(
            entries@.map_values(|e: (&String, &serde_json::Value)| (e.0@, value_tree(*e.1))),
        ),
    }
}

/// Tells the variants of `serde_json::Value` apart: claims that what comes out is the outermost
/// layer of what the value holds.
#[verifier::external_body]
fn open_value<'a>(value: &'a serde_json::Value) -> (r: ValueParts<'a>)
    ensures
        parts_tree(r) == value_tree(*value),
{
    match value {
        serde_json::Value::Null => ValueParts::Null,
        serde_json::Value::Bool(b) => ValueParts::Bool(*b),
        serde_json::Value::Number(n) => ValueParts::Number(JsonNumber {
            unsigned: n.as_u64(),
            signed: n.as_i64(),
            numeral: n.to_string(),
        }),
        serde_json::Value::String(s) => ValueParts::Text(s),
        serde_json::Value::Array(items) => ValueParts::Array(items),
        serde_json::Value::Object(map) => ValueParts::Object(map.iter().collect()),
    }
}

/// Calls `serde_json::from_str`: the result depends on the text alone, and is named
/// `json_document`.
#[verifier::external_body]
fn parse_value(text: &str) -> (r: Option<serde_json::Value>)
    ensures
        match r {
            Some(v) => json_document(text@) == Some(value_tree(v)),
            None => json_document(text@) is None,
        },
{
    serde_json::from_str(text).ok()
}

/// Reads one value with a `serde_json::Deserializer` and leaves what follows it unread: the
/// result depends on the text alone, and is named `json_prefix`.
#[verifier::external_body]
fn parse_leading_value(text: &str) -> (r: Option<serde_json::Value>)
    ensures
        match r {
            Some(v) => json_prefix(text@) == Some(value_tree(v)),
            None => json_prefix(text@) is None,
        },
{
    let mut deserializer = serde_json::Deserializer::from_str(text);
    serde::Deserialize::deserialize(&mut deserializer).ok()
}

/// The document that a parsed value holds.
fn from_value(value: &serde_json::Value) -> (r: Json)
    ensures
        r@ == value_tree(*value),
    decreases value_tree(*value),
{
    broadcast use array_tree, object_tree;

    match open_value(value) {
        ValueParts::Null => Json::Null,
        ValueParts::Bool(b) => Json::Bool(b),
        ValueParts::Number(n) => Json::Number(n),
        ValueParts::Text(s) => Json::Text(s.clone()),
        ValueParts::Array(items) => {
            let ghost trees = items@.map_values(|v: serde_json::Value| value_tree(v));
            let mut out: Vec<Json> = Vec::new();
            let mut i: usize = 0;
            while i < items.len()
                invariant
                    i <= items.len(),
                    trees == items@.map_values(|v: serde_json::Value| value_tree(v)),
                    value_tree(*value) == JsonTree::Array(trees),
                    item_trees(out@) == trees.take(i as int),
                decreases items.len() - i,
            {
                assert(trees[i as int] == value_tree(items@[i as int]));
                assert(decreases_to!(value_tree(*value) => value_tree(*value)->Array_0));
                assert(decreases_to!(trees => trees[i as int]));
                let ghost before = item_trees(out@);
                out.push(from_value(&items[i]));
                assert(item_trees(out@) == before.push(trees[i as int]));
                assert(trees.take(i + 1) == trees.take(i as int).push(trees[i as int]));
                i += 1;
            }
            assert(trees.take(i as int) == trees);
            Json::Array(out)
        },
        ValueParts::Object(entries) => {
            let ghost trees = entries@.map_values(
                |e: (&String, &serde_json::Value)| (e.0@, value_tree(*e.1)),
            );
            let mut out: Vec<(String, Json)> = Vec::new();
            let mut i: usize = 0;
            while i < entries.len()
                invariant
                    i <= entries.len(),
                    trees == entries@.map_values(
                        |e: (&String, &serde_json::Value)| (e.0@, value_tree(*e.1)),
                    ),
                    value_tree(*value) == JsonTree::Object(trees),
                    entry_trees(out@) == trees.take(i as int),
                decreases entries.len() - i,
            {
                let entry = entries[i];
                assert(trees[i as int] == (entry.0@, value_tree(*entry.1)));
                assert(decreases_to!(value_tree(*value) => value_tree(*value)->Object_0));
                assert(decreases_to!(trees => trees[i as int]));
                assert(decreases_to!(trees[i as int] => trees[i as int].1));
                let ghost before = entry_trees(out@);
                out.push((entry.0.clone(), from_value(entry.1)));
                assert(entry_trees(out@) == before.push(trees[i as int]));
                assert(trees.take(i + 1) == trees.take(i as int).push(trees[i as int]));
                i += 1;
            }
            assert(trees.take(i as int) == trees);
            Json::Object(out)
        },
    }
}

/// Reads a text that is one JSON document.
pub fn parse_json(text: &str) -> (r: Option<Json>)
    ensures
        match r {
            Some(j) => json_document(text@) == Some(j@),
            None => json_document(text@) is None,
        },
{
    match parse_value(text) {
        Some(v) => Some(from_value(&v)),
        None => None,
    }
}

/// Reads the JSON document at the start of a text.
pub fn parse_leading_json(text: &str) -> (r: Option<Json>)
    ensures
        match r {
            Some(j) => json_prefix(text@) == Some(j@),
            None => json_prefix(text@) is None,
        },
{
    match parse_leading_value(text) {
        Some(v) => Some(from_value(&v)),
        None => None,
    }
}

} // verus!
