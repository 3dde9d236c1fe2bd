//! The names of the types of JSON values.

use crate::json::projection::kind_name;
use crate::json::view::JsonView;
use vstd::prelude::*;

verus! {

/// A value is called by its own kind: a truth value is "boolean", a number is
/// "number", a text is "string", and no other value is called so.
pub proof fn a_type_is_named_after_its_kind(value: JsonView)
    ensures
        kind_name(value) == "null"@ <==> value is Null,
        kind_name(value) == "boolean"@ <==> value is Bool,
        kind_name(value) == "number"@ <==> value is Number,
        kind_name(value) == "string"@ <==> value is Text,
        kind_name(value) == "array"@ <==> value is Array,
        kind_name(value) == "object"@ <==> value is Object,
{
    reveal_strlit("null");
    reveal_strlit("boolean");
    reveal_strlit("number");
    reveal_strlit("string");
    reveal_strlit("array");
    reveal_strlit("object");
    assert("null"@.len() == 4 && "boolean"@.len() == 7 && "array"@.len() == 5);
    assert("number"@[0] == 'n' && "string"@[0] == 's' && "object"@[0] == 'o');
}

/// Two values have the same type name exactly where they are of the same kind.
pub proof fn kinds_have_different_names(a: JsonView, b: JsonView)
    ensures
        kind_name(a) == kind_name(b) <==> {
            ||| a is Null && b is Null
            ||| a is Bool && b is Bool
            ||| a is Number && b is Number
            ||| a is Text && b is Text
            ||| a is Array && b is Array
            ||| a is Object && b is Object
        },
{
    a_type_is_named_after_its_kind(a);
    a_type_is_named_after_its_kind(b);
}

} // verus!
