//! The Lua values that imports produce, and the JSON values they come from.

use vstd::prelude::*;

use crate::quote::{json_quoted, lemma_json_quoted_reads_back, lua_string_value};
use crate::text::{decimal, digit_value, lemma_decimal_denotes, numeral_value};

verus! {

/// A Lua value as the packager writes it into the output.
pub enum LuaValue {
    Nil,
    True,
    False,
    /// A number literal, with its text.
    Number(String),
    /// A single-quoted string literal, with its contents as they are
    /// written between the quotes (escapes included).
    Str(String),
    /// A table constructor, with its fields in order; each field is followed
    /// by a comma.
    Table(Vec<LuaField>),
}

/// A field of a table constructor.
pub enum LuaField {
    /// A field without a key: `value,`.
    Positional(LuaValue),
    /// A field with a string key: `['key']=value,`; the key is written as
    /// it stands between the quotes (escapes included).
    Keyed(String, LuaValue),
}

/// A JSON document, with objects as their members in order and numbers as
/// their text.
pub enum JsonValue {
    Null,
    Bool(bool),
    Number(String),
    Str(String),
    Array(Vec<JsonValue>),
    Object(Vec<(String, JsonValue)>),
}

/// `lua` is the Lua value that the packager writes for the JSON value
/// `json`: `null` is `nil`, booleans are `true` and `false`, numbers keep
/// their text, strings become literals of their text quoted by
/// [`json_quoted`], an array is a table of its elements in order, an object a
/// table of its members in order, each keyed by its name, quoted the same
/// way.
pub open spec fn lua_of_json(json: JsonValue, lua: LuaValue) -> bool
    decreases json,
{
    match json {
        JsonValue::Null => lua is Nil,
        JsonValue::Bool(b) => if b {
            lua is True
        } else {
            lua is False
        },
        JsonValue::Number(n) => lua matches LuaValue::Number(t) && t@ == n@,
        JsonValue::Str(s) => lua matches LuaValue::Str(t) && t@ == json_quoted(s@),
        JsonValue::Array(elems) => lua matches LuaValue::Table(fields) && {
            &&& fields@.len() == elems@.len()
            &&& forall|i: int|
                0 <= i < elems@.len() ==> (#[trigger] fields@[i] matches LuaField::Positional(v)
                    && lua_of_json(elems@[i], v))
        },
        JsonValue::Object(members) => lua matches LuaValue::Table(fields) && {
            &&& fields@.len() == members@.len()
            &&& forall|i: int|
                0 <= i < members@.len() ==> (#[trigger] fields@[i] matches LuaField::Keyed(k, v)
                    && k@ == json_quoted(members@[i].0@) && lua_of_json(members@[i].1, v))
        },
    }
}

/// `lua` is the table of numbers that the packager writes for the bytes of
/// a file imported raw: one positional field per byte, in order, each the
/// byte's decimal numeral.
pub open spec fn byte_table(bytes: Seq<u8>, lua: LuaValue) -> bool {
    lua matches LuaValue::Table(fields) && {
        &&& fields@.len() == bytes.len()
        &&& forall|i: int|
            0 <= i < bytes.len() ==> (#[trigger] fields@[i] matches LuaField::Positional(v)
                && v matches LuaValue::Number(t) && t@ == decimal(bytes[i] as nat))
    }
}

/// `a` and `b` are the same Lua value: equal in kind, text and fields.
pub open spec fn same_lua(a: LuaValue, b: LuaValue) -> bool
    decreases a,
{
    match (a, b) {
        (LuaValue::Nil, LuaValue::Nil) => true,
        (LuaValue::True, LuaValue::True) => true,
        (LuaValue::False, LuaValue::False) => true,
        (LuaValue::Number(x), LuaValue::Number(y)) => x@ == y@,
        (LuaValue::Str(x), LuaValue::Str(y)) => x@ == y@,
        (LuaValue::Table(xs), LuaValue::Table(ys)) => {
            &&& xs@.len() == ys@.len()
            &&& forall|i: int|
                0 <= i < xs@.len() ==> match (#[trigger] xs@[i], ys@[i]) {
                    (LuaField::Positional(x), LuaField::Positional(y)) => same_lua(x, y),
                    (LuaField::Keyed(kx, x), LuaField::Keyed(ky, y)) => kx@ == ky@ && same_lua(x, y),
                    _ => false,
                }
        },
        _ => false,
    }
}

/// The Lua value of a JSON value is determined by it: two Lua values of the
/// same JSON value are the same.
pub proof fn lemma_lua_of_json_unique(json: JsonValue, a: LuaValue, b: LuaValue)
    requires
        lua_of_json(json, a),
        lua_of_json(json, b),
    ensures
        same_lua(a, b),
    decreases json,
{
    match json {
        JsonValue::Array(elems) => {
            let xs = a->Table_0;
            let ys = b->Table_0;
            assert forall|i: int| 0 <= i < xs@.len() implies match (#[trigger] xs@[i], ys@[i]) {
                (LuaField::Positional(x), LuaField::Positional(y)) => same_lua(x, y),
                (LuaField::Keyed(kx, x), LuaField::Keyed(ky, y)) => kx@ == ky@ && same_lua(x, y),
                _ => false,
            } by {
                assert(decreases_to!(json => elems));
                lemma_lua_of_json_unique(elems@[i], xs@[i]->Positional_0, ys@[i]->Positional_0);
            }
        },
        JsonValue::Object(members) => {
            let xs = a->Table_0;
            let ys = b->Table_0;
            assert forall|i: int| 0 <= i < xs@.len() implies match (#[trigger] xs@[i], ys@[i]) {
                (LuaField::Positional(x), LuaField::Positional(y)) => same_lua(x, y),
                (LuaField::Keyed(kx, x), LuaField::Keyed(ky, y)) => kx@ == ky@ && same_lua(x, y),
                _ => false,
            } by {
                assert(decreases_to!(json => members));
                lemma_lua_of_json_unique(members@[i].1, xs@[i]->Keyed_1, ys@[i]->Keyed_1);
            }
        },
        _ => {},
    }
}

/// What the packager writes for each kind of JSON value: `null` as `nil`,
/// `true` and `false` as themselves, a number with exactly the text that
/// `serde_json` prints for it (sign, digits, fraction and exponent
/// included), a string as a literal that Lua reads back as the string, an
/// array as a table with one positional field per element, in order, and an
/// object as a table with one keyed field per member, in order, whose key
/// Lua reads back as the member's name.
pub proof fn lemma_lua_of_json_meaning(json: JsonValue, lua: LuaValue)
    requires
        lua_of_json(json, lua),
    ensures
        json is Null ==> lua is Nil,
        json == JsonValue::Bool(true) ==> lua is True,
        json == JsonValue::Bool(false) ==> lua is False,
        json is Number ==> (lua is Number && lua->Number_0@ == json->Number_0@),
        json is Str ==> (lua is Str && lua_string_value(lua->Str_0@) == Some(json->Str_0@)),
        json is Array ==> {
            &&& lua is Table
            &&& lua->Table_0@.len() == json->Array_0@.len()
            &&& forall|i: int|
                0 <= i < json->Array_0@.len() ==> (#[trigger] lua->Table_0@[i]) is Positional
        },
        json is Object ==> {
            &&& lua is Table
            &&& lua->Table_0@.len() == json->Object_0@.len()
            &&& forall|i: int|
                0 <= i < json->Object_0@.len() ==> {
                    &&& (#[trigger] lua->Table_0@[i]) is Keyed
                    &&& lua_string_value(lua->Table_0@[i]->Keyed_0@) == Some(json->Object_0@[i].0@)
                }
        },
{
    match json {
        JsonValue::Str(s) => {
            lemma_json_quoted_reads_back(s@);
        },
        JsonValue::Object(members) => {
            let fields = lua->Table_0;
            assert forall|i: int| 0 <= i < members@.len() implies {
                &&& (#[trigger] fields@[i]) is Keyed
                &&& lua_string_value(fields@[i]->Keyed_0@) == Some(members@[i].0@)
            } by {
                lemma_json_quoted_reads_back(members@[i].0@);
            }
        },
        _ => {},
    }
}

/// A raw import's table has exactly one positional field per byte of the
/// file, in order, each a number written in decimal digits, without a
/// leading zero, that denotes that byte.
pub proof fn lemma_byte_table_meaning(bytes: Seq<u8>, lua: LuaValue)
    requires
        byte_table(bytes, lua),
    ensures
        lua is Table,
        lua->Table_0@.len() == bytes.len(),
        forall|i: int|
            0 <= i < bytes.len() ==> {
                let field = #[trigger] lua->Table_0@[i];
                &&& field is Positional
                &&& field->Positional_0 is Number
                &&& numeral_value(field->Positional_0->Number_0@) == bytes[i] as int
                &&& field->Positional_0->Number_0@.len() > 0
                &&& forall|k: int|
                    0 <= k < field->Positional_0->Number_0@.len() ==> 0 <= #[trigger] digit_value(
                        field->Positional_0->Number_0@[k],
                    ) < 10
                &&& bytes[i] > 0 ==> field->Positional_0->Number_0@[0] != '0'
            },
{
    let fields = lua->Table_0;
    assert forall|i: int| 0 <= i < bytes.len() implies {
        let field = #[trigger] fields@[i];
        &&& field is Positional
        &&& field->Positional_0 is Number
        &&& numeral_value(field->Positional_0->Number_0@) == bytes[i] as int
        &&& field->Positional_0->Number_0@.len() > 0
        &&& forall|k: int|
            0 <= k < field->Positional_0->Number_0@.len() ==> 0 <= #[trigger] digit_value(
                field->Positional_0->Number_0@[k],
            ) < 10
        &&& bytes[i] > 0 ==> field->Positional_0->Number_0@[0] != '0'
    } by {
        lemma_decimal_denotes(bytes[i] as nat);
    }
}

} // verus!
