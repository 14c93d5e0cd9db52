//! JSON values as plain data, and the bridge to `serde_json` for their text.

use vstd::prelude::*;
use crate::text::lemma_lex_irreflexive;
use crate::text::lex_lt;
use crate::text::text_eq;
use crate::views::result_view;
use crate::views::seq_views;

verus! {

/// A JSON value. Numbers keep the distinction that decides how they can be
/// read: a non-negative integer, a negative integer, or anything else, held as
/// its decimal text. An object's fields come in the order of their keys.
#[derive(Debug, PartialEq)]
pub enum Json {
    Null,
    Bool(bool),
    Uint(u64),
    Int(i64),
    Float(String),
    Str(String),
    Array(Vec<Json>),
    Object(Vec<(String, Json)>),
}

/// The mathematical counterpart of [`Json`].
#[verifier::ext_equal]
pub enum JsonView {
    Null,
    Bool(bool),
    Uint(u64),
    Int(i64),
    Float(Seq<char>),
    Str(Seq<char>),
    Array(Seq<JsonView>),
    Object(Seq<(Seq<char>, JsonView)>),
}

/// The tree that a value holds.
pub open spec fn tree(json: Json) -> JsonView
    decreases json,
{
    match json {
        Json::Null => JsonView::Null,
        Json::Bool(b) => JsonView::Bool(b),
        Json::Uint(n) => JsonView::Uint(n),
        Json::Int(n) => JsonView::Int(n),
        Json::Float(t) => JsonView::Float(t@),
        Json::Str(t) => JsonView::Str(t@),
        Json::Array(v) => JsonView::Array(
            Seq::new(
                v@.len(),
                |i: int|
                    if 0 <= i < v@.len() {
                        tree(v@[i])
                    } else {
                        JsonView::Null
                    },
            ),
        ),
        Json::Object(v) => JsonView::Object(
            Seq::new(
                v@.len(),
                |i: int|
                    if 0 <= i < v@.len() {
                        (v@[i].0@, tree(v@[i].1))
                    } else {
                        (Seq::empty(), JsonView::Null)
                    },
            ),
        ),
    }
}

impl View for Json {
    type V = JsonView;

    open spec fn view(&self) -> JsonView {
        tree(*self)
    }
}

/// The views of an object's fields.
pub open spec fn field_views(v: Seq<(String, Json)>) -> Seq<(Seq<char>, JsonView)> {
    Seq::new(v.len(), |i: int| (v[i].0@, v[i].1@))
}

/// The value of the first field with the given key.
pub open spec fn field_of(fields: Seq<(Seq<char>, JsonView)>, key: Seq<char>) -> Option<JsonView>
    decreases fields.len(),
{
    if fields.len() == 0 {
        None
    } else if fields[0].0 == key {
        Some(fields[0].1)
    } else {
        field_of(fields.drop_first(), key)
    }
}

/// With ascending keys every field is found under its key.
pub proof fn lemma_field_at(fields: Seq<(Seq<char>, JsonView)>, i: int)
    requires
        forall|a: int, b: int|
            0 <= a < b < fields.len() ==> lex_lt(
                (#[trigger] fields[a]).0,
                (#[trigger] fields[b]).0,
            ),
        0 <= i < fields.len(),
    ensures
        field_of(fields, fields[i].0) == Some(fields[i].1),
    decreases i,
{
    if i > 0 {
        let rest = fields.drop_first();
        assert(lex_lt(fields[0].0, fields[i].0));
        lemma_lex_irreflexive(fields[0].0);
        assert forall|a: int, b: int| 0 <= a < b < rest.len() implies lex_lt(
            (#[trigger] rest[a]).0,
            (#[trigger] rest[b]).0,
        ) by {
            assert(rest[a] == fields[a + 1] && rest[b] == fields[b + 1]);
        }
        assert(rest[i - 1] == fields[i]);
        lemma_field_at(rest, i - 1);
    }
}

impl JsonView {
    /// The value under a key; nothing when this is no object or lacks the key.
    pub open spec fn get(self, key: Seq<char>) -> Option<JsonView> {
        match self {
            JsonView::Object(fields) => field_of(fields, key),
            _ => None,
        }
    }

    /// The text, when this is a string.
    pub open spec fn text(self) -> Option<Seq<char>> {
        match self {
            JsonView::Str(s) => Some(s),
            _ => None,
        }
    }

    /// The number, when this is an integer in the range of `i64`.
    pub open spec fn int64(self) -> Option<i64> {
        match self {
            JsonView::Uint(n) => if n <= i64::MAX {
                Some(n as i64)
            } else {
                None
            },
            JsonView::Int(n) => Some(n),
            _ => None,
        }
    }

    /// The number, when this is a non-negative integer in the range of `u64`.
    pub open spec fn uint64(self) -> Option<u64> {
        match self {
            JsonView::Uint(n) => Some(n),
            JsonView::Int(n) => if n >= 0 {
                Some(n as u64)
            } else {
                None
            },
            _ => None,
        }
    }

    /// The truth value, when this is one.
    pub open spec fn truth(self) -> Option<bool> {
        match self {
            JsonView::Bool(b) => Some(b),
            _ => None,
        }
    }

    /// The elements, when this is an array.
    pub open spec fn items(self) -> Option<Seq<JsonView>> {
        match self {
            JsonView::Array(v) => Some(v),
            _ => None,
        }
    }

    /// The fields, when this is an object.
    pub open spec fn fields(self) -> Option<Seq<(Seq<char>, JsonView)>> {
        match self {
            JsonView::Object(f) => Some(f),
            _ => None,
        }
    }

    /// The text under a key, when there is one.
    pub open spec fn get_text(self, key: Seq<char>) -> Option<Seq<char>> {
        match self.get(key) {
            Some(v) => v.text(),
            None => None,
        }
    }

    /// A tree that survives a round trip through its text unchanged: integers
    /// only, a negative one in the signed variant, every object's keys in
    /// strictly increasing order, and at most `depth` containers inside one
    /// another.
    pub open spec fn plain(self, depth: nat) -> bool
        decreases self,
    {
        match self {
            JsonView::Int(n) => n < 0,
            JsonView::Float(_) => false,
            JsonView::Array(v) => depth > 0 && forall|i: int|
                0 <= i < v.len() ==> (#[trigger] v[i]).plain((depth - 1) as nat),
            JsonView::Object(f) => {
                &&& depth > 0
                &&& forall|i: int, j: int|
                    0 <= i < j < f.len() ==> lex_lt((#[trigger] f[i]).0, (#[trigger] f[j]).0)
                &&& forall|i: int|
                    0 <= i < f.len() ==> (#[trigger] f[i]).1.plain((depth - 1) as nat)
            },
            _ => true,
        }
    }
}

impl Clone for Json {
    fn clone(&self) -> (r: Json)
        ensures
            r@ == self@,
    {
        copy_json(self)
    }
}

/// Copies a value, keeping every part.
fn copy_json(json: &Json) -> (r: Json)
    ensures
        r@ == json@,
    decreases json,
{
    proof {
        json.lemma_fields();
    }
    match json {
        Json::Null => Json::Null,
        Json::Bool(b) => Json::Bool(*b),
        Json::Uint(n) => Json::Uint(*n),
        Json::Int(n) => Json::Int(*n),
        Json::Float(t) => Json::Float(t.clone()),
        Json::Str(t) => Json::Str(t.clone()),
        Json::Array(v) => {
            let mut out: Vec<Json> = Vec::new();
            let mut i: usize = 0;
            while i < v.len()
                invariant
                    i <= v.len(),
                    i == out.len(),
                    json matches Json::Array(w) && w == v,
                    forall|j: int| 0 <= j < i ==> (#[trigger] out@[j])@ == v@[j]@,
                decreases v.len() - i,
            {
                let one = copy_json(&v[i]);
                out.push(one);
                i = i + 1;
            }
            let r = Json::Array(out);
            proof {
                r.lemma_fields();
                assert(seq_views(out@) =~= seq_views(v@));
            }
            r
        },
        Json::Object(f) => {
            let mut out: Vec<(String, Json)> = Vec::new();
            let mut i: usize = 0;
            while i < f.len()
                invariant
                    i <= f.len(),
                    i == out.len(),
                    json matches Json::Object(w) && w == f,
                    forall|j: int|
                        0 <= j < i ==> (#[trigger] out@[j]).0@ == f@[j].0@ && out@[j].1@ == f@[j].1@,
                decreases f.len() - i,
            {
                let one = copy_json(&f[i].1);
                out.push((f[i].0.clone(), one));
                i = i + 1;
            }
            let r = Json::Object(out);
            proof {
                r.lemma_fields();
                assert(field_views(out@) =~= field_views(f@));
            }
            r
        },
    }
}

impl Json {
    /// The value under a key of an object.
    pub fn get(&self, key: &str) -> (r: Option<&Json>)
        ensures
            match r {
                Some(v) => self@.get(key@) == Some(v@),
                None => self@.get(key@) is None,
            },
    {
        match self {
            Json::Object(fields) => {
                proof {
                    self.lemma_fields();
                }
                let ghost all = field_views(fields@);
                assert(all.skip(0) =~= all);
                let mut i: usize = 0;
                while i < fields.len()
                    invariant
                        i <= fields.len(),
                        all == field_views(fields@),
                        self@.get(key@) == field_of(all.skip(i as int), key@),
                    decreases fields.len() - i,
                {
                    assert(all.skip(i as int)[0] == all[i as int]);
                    assert(all.skip(i as int).drop_first() =~= all.skip(i + 1));
                    if text_eq(fields[i].0.as_str(), key) {
                        return Some(&fields[i].1);
                    }
                    i = i + 1;
                }
                None
            },
            _ => None,
        }
    }

    /// The fields' views, said over the vector itself.
    pub proof fn lemma_fields(&self)
        ensures
            self matches Json::Object(f) ==> self@ == JsonView::Object(field_views(f@)),
            self matches Json::Array(v) ==> self@ == JsonView::Array(seq_views(v@)),
    {
        reveal_with_fuel(tree, 2);
        if let Json::Object(f) = self {
            assert(self@->Object_0 =~= field_views(f@));
        }
        if let Json::Array(v) = self {
            assert(self@->Array_0 =~= seq_views(v@));
        }
    }

    /// The text of a string value.
    pub fn as_str(&self) -> (r: Option<&str>)
        ensures
            match r {
                Some(s) => self@.text() == Some(s@),
                None => self@.text() is None,
            },
    {
        match self {
            Json::Str(s) => Some(s.as_str()),
            _ => None,
        }
    }

    /// The value of an integer that fits `i64`.
    pub fn as_i64(&self) -> (r: Option<i64>)
        ensures
            r == self@.int64(),
    {
        match self {
            Json::Uint(n) => if *n <= 0x7fff_ffff_ffff_ffff {
                Some(*n as i64)
            } else {
                None
            },
            Json::Int(n) => Some(*n),
            _ => None,
        }
    }

    /// The value of a non-negative integer.
    pub fn as_u64(&self) -> (r: Option<u64>)
        ensures
            r == self@.uint64(),
    {
        match self {
            Json::Uint(n) => Some(*n),
            Json::Int(n) => if *n >= 0 {
                Some(*n as u64)
            } else {
                None
            },
            _ => None,
        }
    }

    /// The value of a boolean.
    pub fn as_bool(&self) -> (r: Option<bool>)
        ensures
            r == self@.truth(),
    {
        match self {
            Json::Bool(b) => Some(*b),
            _ => None,
        }
    }

    /// The elements of an array.
    pub fn as_array(&self) -> (r: Option<&Vec<Json>>)
        ensures
            match r {
                Some(v) => self@.items() == Some(seq_views(v@)),
                None => self@.items() is None,
            },
    {
        proof {
            self.lemma_fields();
        }
        match self {
            Json::Array(v) => Some(v),
            _ => None,
        }
    }

    /// The fields of an object.
    pub fn as_object(&self) -> (r: Option<&Vec<(String, Json)>>)
        ensures
            match r {
                Some(f) => self@.fields() == Some(field_views(f@)),
                None => self@.fields() is None,
            },
    {
        proof {
            self.lemma_fields();
        }
        match self {
            Json::Object(f) => Some(f),
            _ => None,
        }
    }

    /// The text under a key of an object, when it holds a string there.
    pub fn get_str(&self, key: &str) -> (r: Option<&str>)
        ensures
            match r {
                Some(s) => self@.get_text(key@) == Some(s@),
                None => self@.get_text(key@) is None,
            },
    {
        match self.get(key) {
            Some(v) => v.as_str(),
            None => None,
        }
    }

    /// Reads a JSON text.
    pub fn parse(text: &str) -> (r: Result<Json, String>)
        ensures
            result_view(r) == json_parse(text@),
    {
        match parse_value(text) {
            Ok(v) => Ok(json_of(v)),
            Err(e) => Err(e),
        }
    }

    /// Renders a JSON text without white space.
    pub fn render(&self) -> (r: String)
        ensures
            r@ == json_text(as_value(self@)),
            self@.plain(PARSE_DEPTH as nat) ==> reads_as(r@, self@),
    {
        let v = value_of(self);
        text_of(&v)
    }
}

/// How many containers may stand inside one another in a text that is read.
pub const PARSE_DEPTH: u64 = 127;

/// `serde_json::Value`, carried through opaquely.
#[verifier::external_type_specification]
#[verifier::external_body]
pub struct ExSerdeValue(serde_json::Value);

/// The tree that a `serde_json::Value` holds, its objects' fields in the order
/// in which the value walks them.
pub uninterp spec fn value_view(v: serde_json::Value) -> JsonView;

/// What `serde_json::from_str` reads from a text: a tree, or the message of the
/// error that it reports.
pub uninterp spec fn json_parse(text: Seq<char>) -> Result<JsonView, Seq<char>>;

/// The tree that `serde_json::Value` keeps of the given one: its maps hold one
/// value per key and its numbers are re-read from their text.
pub uninterp spec fn as_value(tree: JsonView) -> JsonView;

/// The text that `serde_json::to_string` writes for a tree.
pub uninterp spec fn json_text(tree: JsonView) -> Seq<char>;

/// Reading the text gives the tree.
pub open spec fn reads_as(text: Seq<char>, tree: JsonView) -> bool {
    json_parse(text) == Ok::<JsonView, Seq<char>>(tree)
}

/// The outcome of a read, by the tree that the value holds.
pub open spec fn read_result(r: Result<serde_json::Value, String>) -> Result<JsonView, Seq<char>> {
    match r {
        Ok(v) => Ok(value_view(v)),
        Err(e) => Err(e@),
    }
}

/// Calls `serde_json::from_str`. The outcome, value or error message, depends
/// on the text alone.
#[verifier::external_body]
fn parse_value(text: &str) -> (r: Result<serde_json::Value, String>)
    ensures
        json_parse(text@) == read_result(r),
{
    serde_json::from_str(text).map_err(|e| e.to_string())
}

/// Takes a `serde_json::Value` apart, variant by variant.
#[verifier::external_body]
fn json_of(value: serde_json::Value) -> (r: Json)
    ensures
        r@ == value_view(value),
{
    match value {
        serde_json::Value::Null => Json::Null,
        serde_json::Value::Bool(b) => Json::Bool(b),
        serde_json::Value::Number(n) => match (n.as_u64(), n.as_i64()) {
            (Some(u), _) => Json::Uint(u),
            (None, Some(i)) => Json::Int(i),
            (None, None) => Json::Float(n.to_string()),
        },
        serde_json::Value::String(s) => Json::Str(s),
        serde_json::Value::Array(v) => Json::Array(v.into_iter().map(json_of).collect()),
        serde_json::Value::Object(m) => Json::Object(m.into_iter().map(|(k, v)| (k, json_of(v))).collect()),
    }
}

/// Builds the `serde_json::Value` of a tree. A plain tree is kept as it is.
#[verifier::external_body]
fn value_of(tree: &Json) -> (r: serde_json::Value)
    ensures
        value_view(r) == as_value(tree@),
        tree@.plain(PARSE_DEPTH as nat) ==> value_view(r) == tree@,
{
    match tree {
        Json::Null => serde_json::Value::Null,
        Json::Bool(b) => serde_json::Value::Bool(*b),
        Json::Uint(n) => serde_json::Value::from(*n),
        Json::Int(n) => serde_json::Value::from(*n),
        Json::Float(t) => serde_json::from_str(t).unwrap_or(serde_json::Value::Null),
        Json::Str(s) => serde_json::Value::String(s.clone()),
        Json::Array(v) => v.iter().map(value_of).collect(),
        Json::Object(f) => f.iter().map(|(k, v)| (k.clone(), value_of(v))).collect(),
    }
}

/// Calls `serde_json::to_string`, which cannot fail on a `Value`: its keys are
/// strings. Reading the text of a plain tree gives the tree back, as every
/// string is escaped so that it is read unchanged, integers are written in
/// full, and the reader accepts this depth.
#[verifier::external_body]
fn text_of(value: &serde_json::Value) -> (r: String)
    ensures
        r@ == json_text(value_view(*value)),
        value_view(*value).plain(PARSE_DEPTH as nat) ==> reads_as(r@, value_view(*value)),
{
    serde_json::to_string(value).unwrap_or_default()
}

} // verus!
