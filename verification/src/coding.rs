//! How the values of every field type travel: their types, and what is written for them
//! and read back, in bytes and in JSON.
use crate::decode::{decode_value_lines, read_lines};
use crate::descriptor::{FieldModel, FieldType};
use crate::instructions::{
    decode_text, encode_text, header_text, json_decode_text, json_encode_text, reference, value_type, Scope,
};
use crate::occurrences::{law_values_are_declared_and_read_before_they_are_stored, line_texts, lines_of};
use crate::text::decimal;
use vstd::prelude::*;

verus! {

/// What stands for a value at each step of its way.
pub struct Coding {
    /// Its Luau type.
    pub luau_type: Seq<char>,
    /// The wire type in its tag.
    pub wire_type: Seq<char>,
    /// What the method is called that writes it, behind `write`.
    pub writer: Seq<char>,
    /// What is handed to that method.
    pub sent: Seq<char>,
    /// What the method is called that reads it, behind `read`.
    pub reader: Seq<char>,
    /// The value again, from what that method gave.
    pub taken: Seq<char>,
    /// Its JSON form.
    pub json: Seq<char>,
    /// The value again, from its JSON form.
    pub from_json: Seq<char>,
}

/// The way of a value in `v` that is written as it is, is a number in Luau and is its own
/// JSON form.
pub open spec fn plain_number(wire_type: Seq<char>, codec: Seq<char>, v: Seq<char>) -> Coding {
    Coding {
        luau_type: "number"@,
        wire_type,
        writer: codec,
        sent: v,
        reader: codec,
        taken: "value"@,
        json: v,
        from_json: v,
    }
}

/// The way of a number in `v` that is zigzag encoded.
pub open spec fn zigzag_number(wire_type: Seq<char>, codec: Seq<char>, v: Seq<char>) -> Coding {
    Coding {
        sent: "proto.encodeZigZag("@ + v + ")"@,
        taken: "proto.decodeZigZag(value)"@,
        ..plain_number(wire_type, codec, v)
    }
}

/// The way of a number in `v` that JSON cannot always hold.
pub open spec fn real_number(wire_type: Seq<char>, codec: Seq<char>, v: Seq<char>) -> Coding {
    Coding {
        json: "proto.json.serializeNumber("@ + v + ")"@,
        from_json: "proto.json.deserializeNumber("@ + v + ")"@,
        ..plain_number(wire_type, codec, v)
    }
}

/// The way of a value in `v`, whose type is `named` where it is an enum or a message.
pub open spec fn coding(field_type: FieldType, named: Seq<char>, v: Seq<char>) -> Coding {
    match field_type {
        FieldType::Int32 => plain_number("varint"@, "VarInt"@, v),
        FieldType::Int64 => plain_number("varint"@, "VarInt"@, v),
        FieldType::Uint32 => plain_number("varint"@, "VarInt"@, v),
        FieldType::Uint64 => plain_number("varint"@, "VarInt"@, v),
        FieldType::Sint32 => zigzag_number("varint"@, "VarInt"@, v),
        FieldType::Sint64 => zigzag_number("varint"@, "VarInt"@, v),
        FieldType::Fixed32 => plain_number("i32"@, "Fixed32"@, v),
        FieldType::Fixed64 => plain_number("i64"@, "Fixed64"@, v),
        FieldType::Sfixed32 => zigzag_number("i32"@, "Fixed32"@, v),
        FieldType::Sfixed64 => zigzag_number("i64"@, "Fixed64"@, v),
        FieldType::Float => real_number("i32"@, "Float"@, v),
        FieldType::Double => real_number("i64"@, "Double"@, v),
        FieldType::Bool => Coding {
            luau_type: "boolean"@,
            sent: "if "@ + v + " then 1 else 0"@,
            taken: "value ~= 0"@,
            ..plain_number("varint"@, "VarInt"@, v)
        },
        FieldType::String => Coding {
            luau_type: "string"@,
            wire_type: "lengthDelimited"@,
            writer: "String"@,
            sent: v,
            reader: "Buffer"@,
            taken: "buffer.tostring(value)"@,
            json: v,
            from_json: v,
        },
        FieldType::Bytes => Coding {
            luau_type: "buffer"@,
            wire_type: "lengthDelimited"@,
            writer: "Buffer"@,
            sent: v,
            reader: "Buffer"@,
            taken: "value"@,
            json: "proto.json.serializeBuffer("@ + v + ")"@,
            from_json: "proto.json.deserializeBuffer("@ + v + ")"@,
        },
        FieldType::Enum => Coding {
            luau_type: named,
            wire_type: "varint"@,
            writer: "VarInt"@,
            sent: named + ".toNumber("@ + v + ")"@,
            reader: "VarInt"@,
            taken: named + ".fromNumber(value) or value"@,
            json: "if typeof("@ + v + ") == \"number\" then "@ + v + " else "@ + named + ".toNumber("@ + v + ")"@,
            from_json: "if typeof("@ + v + ") == \"number\" then ("@ + named + ".fromNumber("@ + v + ") or "@ + v
                + ") else ("@ + named + ".fromName("@ + v + ") or "@ + v + ")"@,
        },
        FieldType::Message | FieldType::Group => Coding {
            luau_type: named,
            wire_type: "lengthDelimited"@,
            writer: "Buffer"@,
            sent: "encoded"@,
            reader: "Buffer"@,
            taken: named + ".decode(value)"@,
            json: named + ".jsonEncode("@ + v + ")"@,
            from_json: named + ".jsonDecode("@ + v + ")"@,
        },
    }
}

/// The way of a value of a field.
pub open spec fn field_coding(field: FieldModel, scope: Scope, v: Seq<char>) -> Coding {
    coding(field.field_type, reference(field.type_path, scope), v)
}

/// The statement that writes a tag.
pub open spec fn tag_statement(number: int, wire_type: Seq<char>) -> Seq<char> {
    "output, cursor = proto.writeTag(output, cursor, "@ + decimal(number) + ", proto.wireTypes."@ + wire_type + ")"@
}

/// The statement that writes a value with the method of that name.
pub open spec fn write_statement(writer: Seq<char>, value: Seq<char>) -> Seq<char> {
    "output, cursor = proto.write"@ + writer + "(output, cursor, "@ + value + ")"@
}

/// A value is written with its tag before it, on the way of its type. A message is encoded
/// first, and its length goes between the tag and its bytes.
pub proof fn law_values_are_written_on_their_way(field: FieldModel, scope: Scope, v: Seq<char>)
    requires
        field.field_type != FieldType::Group,
    ensures
        ({
            let way = field_coding(field, scope, v);
            let tag = tag_statement(field.number, way.wire_type);
            let write = write_statement(way.writer, way.sent);
            &&& value_type(field, scope) == way.luau_type
            &&& encode_text(field, scope, v) == if field.field_type == FieldType::Message {
                "local encoded = "@ + way.luau_type + ".encode("@ + v + ")"@ + "\n"@ + tag + "\n"@ + write_statement(
                    "VarInt"@,
                    "buffer.len(encoded)"@,
                ) + "\n"@ + write
            } else {
                tag + "\n"@ + write
            }
        }),
{
}

/// What was written for a value is read by the reader of its type into `value` once, and
/// the value is taken from there: into a list, into a oneof under the field's name, or
/// into a place of its own.
pub proof fn law_values_are_read_on_their_way(
    this: Seq<char>,
    field: FieldModel,
    scope: Scope,
    is_oneof: bool,
    v: Seq<char>,
)
    requires
        field.field_type != FieldType::Group,
    ensures
        ({
            let way = field_coding(field, scope, v);
            let store = if field.repeated() {
                "table.insert("@ + this + ", "@ + way.taken + ")"@
            } else if is_oneof {
                this + " = { type = \""@ + field.name + "\", value = "@ + way.taken + " }"@
            } else {
                this + " = "@ + way.taken
            };
            &&& decode_text(field, scope) == way.taken
            &&& lines_of(header_text(field.field_type.wire_type())) + line_texts(
                decode_value_lines(this, field, scope, is_oneof),
            ) == seq!["local value"@, "value, cursor = proto.read"@ + way.reader + "(input, cursor)"@, store]
        }),
{
    law_values_are_declared_and_read_before_they_are_stored(this, field, scope, is_oneof);
}

/// A value is put into JSON and taken from it on the way of its type.
pub proof fn law_values_have_the_json_form_of_their_type(field: FieldModel, scope: Scope, v: Seq<char>)
    requires
        field.field_type != FieldType::Group,
    ensures
        json_encode_text(field, scope, v) == field_coding(field, scope, v).json,
        json_decode_text(field, scope, v) == field_coding(field, scope, v).from_json,
{
}

/// The methods that write and read values of fixed width are those of their width, and a
/// value is read before its field is known exactly where its width is not fixed.
pub proof fn law_fixed_widths(field_type: FieldType, v: Seq<char>)
    requires
        field_type != FieldType::Group,
    ensures
        ({
            let way = coding(field_type, Seq::empty(), v);
            &&& read_lines(field_type).len() > 0 <==> way.wire_type == "i32"@ || way.wire_type == "i64"@
            &&& way.wire_type == "i32"@ || way.wire_type == "i64"@ || way.wire_type == "varint"@ ==> way.writer
                == way.reader
        }),
{
    reveal_strlit("varint");
    reveal_strlit("lengthDelimited");
    reveal_strlit("i32");
    reveal_strlit("i64");
    assert("i32"@[1] == '3' && "i64"@[1] == '6');
    assert("varint"@.len() == 6 && "lengthDelimited"@.len() == 15);
}

} // verus!
