//! What is read of a JSON value, said of the value itself.

use vstd::prelude::*;
use crate::json::field_of;
use crate::json::Json;
use crate::json::json_parse;
use crate::json::JsonView;
use crate::json::PARSE_DEPTH;
use crate::views::seq_views;

verus! {

/// The field stands in the object, and none before it has its key.
pub open spec fn first_field(
    fields: Seq<(Seq<char>, JsonView)>,
    i: int,
    key: Seq<char>,
) -> bool {
    &&& 0 <= i < fields.len()
    &&& fields[i].0 == key
    &&& forall|j: int| 0 <= j < i ==> (#[trigger] fields[j]).0 != key
}

/// A key finds the first field that has it, and nothing where no field has it.
pub proof fn law_a_key_finds_its_field(fields: Seq<(Seq<char>, JsonView)>, key: Seq<char>)
    ensures
        field_of(fields, key) is None <==> forall|i: int|
            0 <= i < fields.len() ==> (#[trigger] fields[i]).0 != key,
        field_of(fields, key) matches Some(v) ==> exists|i: int| #[trigger]
            first_field(fields, i, key) && fields[i].1 == v,
    decreases fields.len(),
{
    if fields.len() > 0 {
        let rest = fields.drop_first();
        law_a_key_finds_its_field(rest, key);
        assert forall|i: int| 0 <= i < rest.len() implies #[trigger] rest[i] == fields[i + 1] by {}
        if fields[0].0 == key {
            assert(first_field(fields, 0, key));
        } else if field_of(rest, key) is Some {
            let i = choose|i: int| #[trigger]
                first_field(rest, i, key) && rest[i].1 == field_of(rest, key)->0;
            assert forall|j: int| 0 <= j < i + 1 implies (#[trigger] fields[j]).0 != key by {
                if j > 0 {
                    assert(rest[j - 1] == fields[j]);
                }
            }
            assert(first_field(fields, i + 1, key));
            assert(fields[i + 1].0 == key);
        } else {
            assert forall|i: int| 0 <= i < fields.len() implies (#[trigger] fields[i]).0
                != key by {
                if i > 0 {
                    assert(rest[i - 1] == fields[i]);
                }
            }
        }
    }
}

/// What a key finds is what its first field holds; only an object has fields.
pub proof fn law_get(json: &Json, key: &str, r: Option<&Json>)
    requires
        call_ensures(Json::get, (json, key), r),
    ensures
        !(json@ is Object) ==> r is None,
        json@ matches JsonView::Object(fields) ==> match r {
            Some(v) => exists|i: int| #[trigger]
                first_field(fields, i, key@) && fields[i].1 == v@,
            None => forall|i: int| 0 <= i < fields.len() ==> (#[trigger] fields[i]).0 != key@,
        },
{
    if json@ is Object {
        law_a_key_finds_its_field(json@->Object_0, key@);
    }
}

/// Only a string is read as text, and whole.
pub proof fn law_as_str(json: &Json, r: Option<&str>)
    requires
        call_ensures(Json::as_str, (json,), r),
    ensures
        match r {
            Some(s) => json@ == JsonView::Str(s@),
            None => !(json@ is Str),
        },
{
}

/// Text under a key is what the first field with the key holds, if that is a
/// string.
pub proof fn law_get_str(json: &Json, key: &str, r: Option<&str>)
    requires
        call_ensures(Json::get_str, (json, key), r),
    ensures
        match r {
            Some(s) => json@.get(key@) == Some(JsonView::Str(s@)),
            None => !(json@.get(key@) is Some && json@.get(key@)->0 is Str),
        },
{
}

/// An integer is read as the number it is, in the range of the reader.
pub proof fn law_integers_are_read_as_they_are(json: &Json, i: Option<i64>, u: Option<u64>)
    requires
        call_ensures(Json::as_i64, (json,), i),
        call_ensures(Json::as_u64, (json,), u),
    ensures
        match json@ {
            JsonView::Uint(n) => u == Some(n) && (i is Some <==> n <= 0x7fff_ffff_ffff_ffff) && (i
                is Some ==> i->0 == n),
            JsonView::Int(n) => i == Some(n) && (u is Some <==> n >= 0) && (u is Some ==> u->0
                == n),
            _ => i is None && u is None,
        },
{
}

/// Only a truth value is read as one.
pub proof fn law_as_bool(json: &Json, r: Option<bool>)
    requires
        call_ensures(Json::as_bool, (json,), r),
    ensures
        match r {
            Some(b) => json@ == JsonView::Bool(b),
            None => !(json@ is Bool),
        },
{
}

/// Only an array has elements, and all of them are given, in order.
pub proof fn law_as_array(json: &Json, r: Option<&Vec<Json>>)
    requires
        call_ensures(Json::as_array, (json,), r),
    ensures
        match r {
            Some(v) => json@ is Array && json@->Array_0.len() == v@.len() && forall|i: int|
                0 <= i < v@.len() ==> (#[trigger] v@[i])@ == json@->Array_0[i],
            None => !(json@ is Array),
        },
{
    if r is Some {
        let v = r->0;
        assert forall|i: int| 0 <= i < v@.len() implies (#[trigger] v@[i])@
            == json@->Array_0[i] by {
            assert(seq_views(v@)[i] == v@[i]@);
        }
    }
}

/// Only an object has fields, and all of them are given, in order.
pub proof fn law_as_object(json: &Json, r: Option<&Vec<(String, Json)>>)
    requires
        call_ensures(Json::as_object, (json,), r),
    ensures
        match r {
            Some(f) => json@ is Object && json@->Object_0.len() == f@.len() && forall|i: int|
                0 <= i < f@.len() ==> ((#[trigger] f@[i]).0@, f@[i].1@) == json@->Object_0[i],
            None => !(json@ is Object),
        },
{
}

/// A plain value that is written and read again is the same.
pub proof fn law_render_then_parse(
    json: &Json,
    text: String,
    read: &str,
    again: Result<Json, String>,
)
    requires
        json@.plain(PARSE_DEPTH as nat),
        call_ensures(Json::render, (json,), text),
        read@ == text@,
        call_ensures(Json::parse, (read,), again),
    ensures
        again matches Ok(v) && v@ == json@,
{
    assert(json_parse(text@) == Ok::<JsonView, Seq<char>>(json@));
}

} // verus!
