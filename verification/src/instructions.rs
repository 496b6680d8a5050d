//! Luau text for the value of one field: its type, and how it is written and read.
use crate::descriptor::{FieldDescriptor, FieldModel, FieldType};
use crate::generator::{BaseFile, ExportMap, ExportModel};
use crate::text::{chars_of, decimal, last_position, lemma_last_position, number_text, push_chars};
use vstd::pervasive::unreached;
use vstd::prelude::*;

verus! {

/// What a type name is looked up in: the exports of all files, and the path of the file
/// in which the name is used.
pub struct Scope {
    pub exports: Map<Seq<char>, ExportModel>,
    pub file: Seq<Seq<char>>,
}

/// The scope of a file.
pub open spec fn scope_of(export_map: &ExportMap, base_file: &BaseFile) -> Scope {
    Scope { exports: export_map@, file: base_file@ }
}

/// Whether a type path starts at the root.
pub open spec fn absolute(type_path: Seq<char>) -> bool {
    type_path.len() > 0 && type_path[0] == '.'
}

/// The last segment of an absolute type path.
pub open spec fn just_type(type_path: Seq<char>) -> Seq<char> {
    let full_name = type_path.skip(1);
    match last_position(full_name, '.') {
        Some(dot) => full_name.skip(dot + 1),
        None => full_name,
    }
}

/// The name under which the type with an absolute type path is exported: the path
/// without its leading dot, where there is a package before the type.
pub open spec fn export_key(type_path: Seq<char>) -> Seq<char> {
    let full_name = type_path.skip(1);
    match last_position(full_name, '.') {
        Some(_) => full_name,
        None => "."@ + full_name,
    }
}

/// The text that names an exported type: it is qualified outside of the type's own file.
pub open spec fn reference(type_path: Seq<char>, scope: Scope) -> Seq<char> {
    let export = scope.exports[export_key(type_path)];
    if export.path == scope.file {
        export.prefix + just_type(type_path)
    } else {
        export.export_name + "."@ + export.prefix + just_type(type_path)
    }
}

impl FieldType {
    /// Whether Luau holds such values as numbers.
    pub open spec fn is_number(self) -> bool {
        match self {
            FieldType::Double | FieldType::Float | FieldType::Int64 | FieldType::Uint64
            | FieldType::Int32 | FieldType::Fixed64 | FieldType::Fixed32 | FieldType::Uint32
            | FieldType::Sfixed32 | FieldType::Sfixed64 | FieldType::Sint32 | FieldType::Sint64 => true,
            _ => false,
        }
    }

    /// Whether such values are zigzag encoded.
    pub open spec fn is_zigzag(self) -> bool {
        match self {
            FieldType::Sfixed32 | FieldType::Sfixed64 | FieldType::Sint32 | FieldType::Sint64 => true,
            _ => false,
        }
    }

    /// Whether such a field names a type that a file exports.
    pub open spec fn is_reference(self) -> bool {
        self == FieldType::Enum || self == FieldType::Message
    }
}

/// Whether the type of a field can be named with these exports: groups cannot, and an
/// enum or a message has an absolute type path that leads to an export.
pub open spec fn nameable_among(field: FieldModel, exports: Map<Seq<char>, ExportModel>) -> bool {
    &&& field.field_type != FieldType::Group
    &&& field.field_type.is_reference() ==> {
        &&& absolute(field.type_path)
        &&& exports.contains_key(export_key(field.type_path))
    }
}

/// Whether the type of a field can be named in a scope.
pub open spec fn nameable(field: FieldModel, scope: Scope) -> bool {
    nameable_among(field, scope.exports)
}

/// The Luau type of one value of a field.
pub open spec fn value_type(field: FieldModel, scope: Scope) -> Seq<char> {
    if field.field_type.is_number() {
        "number"@
    } else {
        match field.field_type {
            FieldType::String => "string"@,
            FieldType::Bool => "boolean"@,
            FieldType::Bytes => "buffer"@,
            _ => reference(field.type_path, scope),
        }
    }
}

/// The export key and the last segment of an absolute type path.
fn split_type_path(type_path: &str) -> (res: (String, String))
    requires
        absolute(type_path@),
    ensures
        res.0@ == export_key(type_path@),
        res.1@ == just_type(type_path@),
{
    let chars = chars_of(type_path);
    let ghost full_name = type_path@.skip(1);
    let mut start: usize = chars.len();
    while start > 1 && chars[start - 1] != '.'
        invariant
            1 <= start <= chars@.len(),
            chars@ == type_path@,
            forall|j: int| start <= j < chars@.len() ==> chars@[j] != '.',
        decreases start,
    {
        start -= 1;
    }
    proof {
        lemma_last_position(full_name, '.');
        assert forall|j: int| start - 2 < j < full_name.len() implies full_name[j] != '.' by {
            assert(full_name[j] == chars@[j + 1]);
        }
        if start > 1 {
            assert(full_name[start - 2] == '.');
            assert(full_name.contains('.'));
        }
    }
    let mut package = String::new();
    if start > 1 {
        push_chars(&mut package, &chars, 1, start - 1);
    }
    let mut just_type = String::new();
    push_chars(&mut just_type, &chars, start, chars.len());
    let key = package.concat(".").concat(just_type.as_str());
    proof {
        reveal_strlit(".");
        assert(just_type@ =~= crate::instructions::just_type(type_path@));
        assert(key@ =~= export_key(type_path@));
    }
    (key, just_type)
}

/// The Luau type of one value of the field.
pub fn type_definition_of_field_descriptor(
    field: &FieldDescriptor,
    export_map: &ExportMap,
    base_file: &BaseFile,
) -> (res: String)
    requires
        nameable(field@, scope_of(export_map, base_file)),
    ensures
        res@ == value_type(field@, scope_of(export_map, base_file)),
{
    match field.field_type() {
        FieldType::Int32
        | FieldType::Uint32
        | FieldType::Int64
        | FieldType::Uint64
        | FieldType::Fixed32
        | FieldType::Fixed64
        | FieldType::Sint32
        | FieldType::Sint64
        | FieldType::Sfixed32
        | FieldType::Sfixed64
        | FieldType::Float
        | FieldType::Double => "number".to_owned(),
        FieldType::String => "string".to_owned(),
        FieldType::Bool => "boolean".to_owned(),
        FieldType::Bytes => "buffer".to_owned(),
        FieldType::Enum | FieldType::Message => {
            let (key, just_type) = split_type_path(field.type_path());
            match export_map.get(key.as_str()) {
                Some(export) => {
                    if base_file.is_module(&export.path) {
                        export.prefix.clone().concat(just_type.as_str())
                    } else {
                        export.export_name.clone().concat(".").concat(export.prefix.as_str()).concat(
                            just_type.as_str(),
                        )
                    }
                },
                None => unreached(),
            }
        },
        FieldType::Group => unreached(),
    }
}

/// Whether the type of the field can be named.
pub fn can_name(field: &FieldDescriptor, export_map: &ExportMap) -> (res: bool)
    ensures
        res == nameable_among(field@, export_map@),
{
    match field.field_type() {
        FieldType::Group => false,
        FieldType::Enum | FieldType::Message => {
            let chars = chars_of(field.type_path());
            if chars.len() == 0 || chars[0] != '.' {
                return false;
            }
            let (key, _) = split_type_path(field.type_path());
            export_map.get(key.as_str()).is_some()
        },
        _ => true,
    }
}

/// How a value stands in the encoded bytes.
#[derive(Clone, Copy, Debug, PartialEq, Eq, Structural)]
pub enum WireType {
    Varint,
    LengthDelimited,
    I32,
    I64,
}

impl FieldType {
    /// How such values stand in the encoded bytes.
    pub open spec fn wire_type(self) -> WireType {
        match self {
            FieldType::Float | FieldType::Fixed32 | FieldType::Sfixed32 => WireType::I32,
            FieldType::Double | FieldType::Fixed64 | FieldType::Sfixed64 => WireType::I64,
            FieldType::String | FieldType::Bytes | FieldType::Message => WireType::LengthDelimited,
            _ => WireType::Varint,
        }
    }

    /// The kind of value that is written for such a field.
    pub open spec fn codec(self) -> Seq<char> {
        match self {
            FieldType::Float => "Float"@,
            FieldType::Double => "Double"@,
            FieldType::Fixed32 | FieldType::Sfixed32 => "Fixed32"@,
            FieldType::Fixed64 | FieldType::Sfixed64 => "Fixed64"@,
            FieldType::String => "String"@,
            FieldType::Bytes | FieldType::Message => "Buffer"@,
            _ => "VarInt"@,
        }
    }
}

/// The name of a wire type in the generated code.
pub open spec fn wire_type_name(wire_type: WireType) -> Seq<char> {
    match wire_type {
        WireType::Varint => "varint"@,
        WireType::LengthDelimited => "lengthDelimited"@,
        WireType::I32 => "i32"@,
        WireType::I64 => "i64"@,
    }
}

/// How the values of the field stand in the encoded bytes.
pub fn wire_type_of_field_descriptor(field: &FieldDescriptor) -> (res: WireType)
    requires
        field@.field_type != FieldType::Group,
    ensures
        res == field@.field_type.wire_type(),
{
    match field.field_type() {
        FieldType::Int32
        | FieldType::Uint32
        | FieldType::Int64
        | FieldType::Uint64
        | FieldType::Sint32
        | FieldType::Sint64
        | FieldType::Enum
        | FieldType::Bool => WireType::Varint,
        FieldType::Float | FieldType::Fixed32 | FieldType::Sfixed32 => WireType::I32,
        FieldType::Double | FieldType::Fixed64 | FieldType::Sfixed64 => WireType::I64,
        FieldType::String | FieldType::Bytes | FieldType::Message => WireType::LengthDelimited,
        FieldType::Group => unreached(),
    }
}

/// The statement that writes the tag of a field.
pub open spec fn tag_text(number: int, wire_type: WireType) -> Seq<char> {
    "output, cursor = proto.writeTag(output, cursor, "@ + decimal(number) + ", proto.wireTypes."@
        + wire_type_name(wire_type) + ")"@
}

/// The statement that writes a value.
pub open spec fn write_text(codec: Seq<char>, value: Seq<char>) -> Seq<char> {
    "output, cursor = proto.write"@ + codec + "(output, cursor, "@ + value + ")"@
}

/// The number, string or buffer that is written for the value of a field.
pub open spec fn sent_value(field: FieldModel, scope: Scope, value_var: Seq<char>) -> Seq<char> {
    if field.field_type.is_zigzag() {
        "proto.encodeZigZag("@ + value_var + ")"@
    } else {
        match field.field_type {
            FieldType::Bool => "if "@ + value_var + " then 1 else 0"@,
            FieldType::Enum => value_type(field, scope) + ".toNumber("@ + value_var + ")"@,
            _ => value_var,
        }
    }
}

/// The statements that write one value of a field with its tag. A message is encoded
/// first, and its length goes before it.
pub open spec fn encode_text(field: FieldModel, scope: Scope, value_var: Seq<char>) -> Seq<char> {
    let tag = tag_text(field.number, field.field_type.wire_type());
    if field.field_type == FieldType::Message {
        "local encoded = "@ + value_type(field, scope) + ".encode("@ + value_var + ")"@ + "\n"@ + tag + "\n"@
            + write_text("VarInt"@, "buffer.len(encoded)"@) + "\n"@ + write_text(
            field.field_type.codec(),
            "encoded"@,
        )
    } else {
        tag + "\n"@ + write_text(field.field_type.codec(), sent_value(field, scope, value_var))
    }
}

/// The statement that writes the tag of a field.
pub fn write_tag(number: i32, wire_type: WireType) -> (res: String)
    ensures
        res@ == tag_text(number as int, wire_type),
{
    let name = match wire_type {
        WireType::Varint => "varint",
        WireType::LengthDelimited => "lengthDelimited",
        WireType::I32 => "i32",
        WireType::I64 => "i64",
    };
    "output, cursor = proto.writeTag(output, cursor, ".to_owned().concat(number_text(number).as_str()).concat(
        ", proto.wireTypes.",
    ).concat(name).concat(")")
}

/// The statement that writes a value.
pub fn write_value(codec: &str, value: &str) -> (res: String)
    ensures
        res@ == write_text(codec@, value@),
{
    "output, cursor = proto.write".to_owned().concat(codec).concat("(output, cursor, ").concat(value).concat(")")
}

fn encode_zigzag(value_var: &str) -> (res: String)
    ensures
        res@ == "proto.encodeZigZag("@ + value_var@ + ")"@,
{
    "proto.encodeZigZag(".to_owned().concat(value_var).concat(")")
}

fn two_lines(first: String, second: String) -> (res: String)
    ensures
        res@ == first@ + "\n"@ + second@,
{
    first.concat("\n").concat(second.as_str())
}

/// The statements that write one value of the field, which stands in `value_var`.
pub fn encode_field_descriptor_ignore_repeated(
    field: &FieldDescriptor,
    export_map: &ExportMap,
    base_file: &BaseFile,
    value_var: &str,
) -> (res: String)
    requires
        nameable(field@, scope_of(export_map, base_file)),
    ensures
        res@ == encode_text(field@, scope_of(export_map, base_file), value_var@),
{
    let number = field.number();
    match field.field_type() {
        FieldType::Int32 | FieldType::Uint32 | FieldType::Int64 | FieldType::Uint64 => {
            two_lines(write_tag(number, WireType::Varint), write_value("VarInt", value_var))
        },
        FieldType::Sint32 | FieldType::Sint64 => {
            two_lines(
                write_tag(number, WireType::Varint),
                write_value("VarInt", encode_zigzag(value_var).as_str()),
            )
        },
        FieldType::Float => {
            two_lines(write_tag(number, WireType::I32), write_value("Float", value_var))
        },
        FieldType::Double => {
            two_lines(write_tag(number, WireType::I64), write_value("Double", value_var))
        },
        FieldType::String => {
            two_lines(write_tag(number, WireType::LengthDelimited), write_value("String", value_var))
        },
        FieldType::Bool => {
            let value = "if ".to_owned().concat(value_var).concat(" then 1 else 0");
            two_lines(write_tag(number, WireType::Varint), write_value("VarInt", value.as_str()))
        },
        FieldType::Bytes => {
            two_lines(write_tag(number, WireType::LengthDelimited), write_value("Buffer", value_var))
        },
        FieldType::Enum => {
            let value = type_definition_of_field_descriptor(field, export_map, base_file).concat(
                ".toNumber(",
            ).concat(value_var).concat(")");
            two_lines(write_tag(number, WireType::Varint), write_value("VarInt", value.as_str()))
        },
        FieldType::Message => {
            let definition = type_definition_of_field_descriptor(field, export_map, base_file);
            "local encoded = ".to_owned().concat(definition.as_str()).concat(".encode(").concat(value_var).concat(
                ")",
            ).concat("\n").concat(write_tag(number, WireType::LengthDelimited).as_str()).concat("\n").concat(
                write_value("VarInt", "buffer.len(encoded)").as_str(),
            ).concat("\n").concat(write_value("Buffer", "encoded").as_str())
        },
        FieldType::Fixed32 => {
            two_lines(write_tag(number, WireType::I32), write_value("Fixed32", value_var))
        },
        FieldType::Fixed64 => {
            two_lines(write_tag(number, WireType::I64), write_value("Fixed64", value_var))
        },
        FieldType::Sfixed32 => {
            two_lines(
                write_tag(number, WireType::I32),
                write_value("Fixed32", encode_zigzag(value_var).as_str()),
            )
        },
        FieldType::Sfixed64 => {
            two_lines(
                write_tag(number, WireType::I64),
                write_value("Fixed64", encode_zigzag(value_var).as_str()),
            )
        },
        FieldType::Group => unreached(),
    }
}

/// The expression that turns the value of a field into its JSON form.
pub open spec fn json_encode_text(field: FieldModel, scope: Scope, value_var: Seq<char>) -> Seq<char> {
    match field.field_type {
        FieldType::Float | FieldType::Double => "proto.json.serializeNumber("@ + value_var + ")"@,
        FieldType::Bytes => "proto.json.serializeBuffer("@ + value_var + ")"@,
        FieldType::Enum => "if typeof("@ + value_var + ") == \"number\" then "@ + value_var + " else "@ + value_type(
            field,
            scope,
        ) + ".toNumber("@ + value_var + ")"@,
        FieldType::Message => value_type(field, scope) + ".jsonEncode("@ + value_var + ")"@,
        _ => value_var,
    }
}

/// The expression that turns the JSON form of a field's value into the value.
pub open spec fn json_decode_text(field: FieldModel, scope: Scope, value_var: Seq<char>) -> Seq<char> {
    match field.field_type {
        FieldType::Float | FieldType::Double => "proto.json.deserializeNumber("@ + value_var + ")"@,
        FieldType::Bytes => "proto.json.deserializeBuffer("@ + value_var + ")"@,
        FieldType::Enum => "if typeof("@ + value_var + ") == \"number\" then ("@ + value_type(field, scope)
            + ".fromNumber("@ + value_var + ") or "@ + value_var + ") else ("@ + value_type(field, scope)
            + ".fromName("@ + value_var + ") or "@ + value_var + ")"@,
        FieldType::Message => value_type(field, scope) + ".jsonDecode("@ + value_var + ")"@,
        _ => value_var,
    }
}

/// The expression that turns the value in `value_var` into its JSON form.
pub fn json_encode_instruction_field_descriptor_ignore_repeated(
    field: &FieldDescriptor,
    export_map: &ExportMap,
    base_file: &BaseFile,
    value_var: &str,
) -> (res: String)
    requires
        nameable(field@, scope_of(export_map, base_file)),
    ensures
        res@ == json_encode_text(field@, scope_of(export_map, base_file), value_var@),
{
    match field.field_type() {
        FieldType::Int32
        | FieldType::Int64
        | FieldType::Uint32
        | FieldType::Uint64
        | FieldType::Fixed32
        | FieldType::Fixed64
        | FieldType::Sint32
        | FieldType::Sint64
        | FieldType::Sfixed32
        | FieldType::Sfixed64
        | FieldType::Bool
        | FieldType::String => value_var.to_owned(),
        FieldType::Float | FieldType::Double => {
            "proto.json.serializeNumber(".to_owned().concat(value_var).concat(")")
        },
        FieldType::Bytes => "proto.json.serializeBuffer(".to_owned().concat(value_var).concat(")"),
        FieldType::Enum => {
            let definition = type_definition_of_field_descriptor(field, export_map, base_file);
            "if typeof(".to_owned().concat(value_var).concat(") == \"number\" then ").concat(value_var).concat(
                " else ",
            ).concat(definition.as_str()).concat(".toNumber(").concat(value_var).concat(")")
        },
        FieldType::Message => {
            type_definition_of_field_descriptor(field, export_map, base_file).concat(".jsonEncode(").concat(
                value_var,
            ).concat(")")
        },
        FieldType::Group => unreached(),
    }
}

/// The expression that turns the JSON form in `value_var` into the value.
pub fn json_decode_instruction_field_descriptor_ignore_repeated(
    field: &FieldDescriptor,
    export_map: &ExportMap,
    base_file: &BaseFile,
    value_var: &str,
) -> (res: String)
    requires
        nameable(field@, scope_of(export_map, base_file)),
    ensures
        res@ == json_decode_text(field@, scope_of(export_map, base_file), value_var@),
{
    match field.field_type() {
        FieldType::Int32
        | FieldType::Int64
        | FieldType::Uint32
        | FieldType::Uint64
        | FieldType::Fixed32
        | FieldType::Fixed64
        | FieldType::Sfixed32
        | FieldType::Sfixed64
        | FieldType::Sint32
        | FieldType::Sint64
        | FieldType::Bool
        | FieldType::String => value_var.to_owned(),
        FieldType::Float | FieldType::Double => {
            "proto.json.deserializeNumber(".to_owned().concat(value_var).concat(")")
        },
        FieldType::Bytes => "proto.json.deserializeBuffer(".to_owned().concat(value_var).concat(")"),
        FieldType::Enum => {
            let qualified_enum = type_definition_of_field_descriptor(field, export_map, base_file);
            "if typeof(".to_owned().concat(value_var).concat(") == \"number\" then (").concat(
                qualified_enum.as_str(),
            ).concat(".fromNumber(").concat(value_var).concat(") or ").concat(value_var).concat(") else (").concat(
                qualified_enum.as_str(),
            ).concat(".fromName(").concat(value_var).concat(") or ").concat(value_var).concat(")")
        },
        FieldType::Message => {
            type_definition_of_field_descriptor(field, export_map, base_file).concat(".jsonDecode(").concat(
                value_var,
            ).concat(")")
        },
        FieldType::Group => unreached(),
    }
}

/// The expression that turns what was read, in the variable `value`, into the value of a
/// field.
pub open spec fn decode_text(field: FieldModel, scope: Scope) -> Seq<char> {
    if field.field_type.is_zigzag() {
        "proto.decodeZigZag(value)"@
    } else {
        match field.field_type {
            FieldType::Bool => "value ~= 0"@,
            FieldType::String => "buffer.tostring(value)"@,
            FieldType::Enum => value_type(field, scope) + ".fromNumber(value) or value"@,
            FieldType::Message => value_type(field, scope) + ".decode(value)"@,
            _ => "value"@,
        }
    }
}

/// The expression that turns what was read into the value of the field.
pub fn decode_instruction_field_descriptor_ignore_repeated(
    field: &FieldDescriptor,
    export_map: &ExportMap,
    base_file: &BaseFile,
) -> (res: String)
    requires
        nameable(field@, scope_of(export_map, base_file)),
    ensures
        res@ == decode_text(field@, scope_of(export_map, base_file)),
{
    match field.field_type() {
        FieldType::Int32
        | FieldType::Uint32
        | FieldType::Int64
        | FieldType::Uint64
        | FieldType::Fixed32
        | FieldType::Fixed64
        | FieldType::Float
        | FieldType::Double
        | FieldType::Bytes => "value".to_owned(),
        FieldType::Sint32 | FieldType::Sint64 | FieldType::Sfixed32 | FieldType::Sfixed64 => {
            "proto.decodeZigZag(value)".to_owned()
        },
        FieldType::Bool => "value ~= 0".to_owned(),
        FieldType::String => "buffer.tostring(value)".to_owned(),
        FieldType::Enum => {
            type_definition_of_field_descriptor(field, export_map, base_file).concat(
                ".fromNumber(value) or value",
            )
        },
        FieldType::Message => {
            type_definition_of_field_descriptor(field, export_map, base_file).concat(".decode(value)")
        },
        FieldType::Group => unreached(),
    }
}

/// The statements that read a value by its wire type alone. The fixed-width wire types
/// have none: their values are read by the type of the field.
pub open spec fn header_text(wire_type: WireType) -> Seq<char> {
    match wire_type {
        WireType::Varint => "local value\nvalue, cursor = proto.readVarInt(input, cursor)"@,
        WireType::LengthDelimited => "local value\nvalue, cursor = proto.readBuffer(input, cursor)"@,
        WireType::I32 | WireType::I64 => ""@,
    }
}

/// The statements that read a value by its wire type alone.
pub fn wire_type_header(wire_type: WireType) -> (res: &'static str)
    ensures
        res@ == header_text(wire_type),
{
    match wire_type {
        WireType::Varint => "local value\nvalue, cursor = proto.readVarInt(input, cursor)",
        WireType::LengthDelimited => "local value\nvalue, cursor = proto.readBuffer(input, cursor)",
        WireType::I32 | WireType::I64 => "",
    }
}

} // verus!
