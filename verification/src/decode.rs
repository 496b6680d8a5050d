//! The statements that read a field from its encoded bytes.
use crate::descriptor::{FieldDescriptor, FieldModel, FieldType};
use crate::generator::{map_view, BaseFile, ExportMap, MapModel, MapType};
use crate::instructions::{
    decode_instruction_field_descriptor_ignore_repeated, type_definition_of_field_descriptor, wire_type_header,
    wire_type_of_field_descriptor, WireType,
};
use crate::instructions::{decode_text, header_text, nameable, scope_of, value_type, Scope};
use crate::string_builder::{line, PieceModel, StringBuilder};
use crate::text::{replace, replaced};
use vstd::prelude::*;

verus! {

/// The statement that reads a value into the variable `value`.
pub open spec fn read_text(codec: Seq<char>) -> Seq<char> {
    "value, cursor = proto.read"@ + codec + "(input, cursor)"@
}

/// The statements that read a value of fixed width, by the type of its field. Values of
/// other wire types have been read when these statements run.
pub open spec fn read_lines(field_type: FieldType) -> Seq<PieceModel> {
    match field_type.wire_type() {
        WireType::I32 | WireType::I64 => seq![line("local value"@), line(read_text(field_type.codec()))],
        _ => Seq::empty(),
    }
}

/// The statement that stores the value of a field in `this`.
pub open spec fn store_text(this: Seq<char>, field: FieldModel, scope: Scope, is_oneof: bool) -> Seq<char> {
    if field.repeated() {
        "table.insert("@ + this + ", "@ + decode_text(field, scope) + ")"@
    } else if is_oneof {
        this + " = { type = \""@ + field.name + "\", value = "@ + decode_text(field, scope) + " }"@
    } else {
        this + " = "@ + decode_text(field, scope)
    }
}

/// The statements that read one value and store it in `this`.
pub open spec fn decode_value_lines(this: Seq<char>, field: FieldModel, scope: Scope, is_oneof: bool) -> Seq<
    PieceModel,
> {
    read_lines(field.field_type).push(line(store_text(this, field, scope, is_oneof)))
}

/// The statements with another variable in place of `value`.
pub open spec fn with_variable(lines: Seq<PieceModel>, variable: Seq<char>) -> Seq<PieceModel> {
    lines.map_values(|piece: PieceModel| piece.replaced("value"@, variable))
}

/// The statements that read the key or the value of a map entry into `variable` and
/// store it in `this`.
pub open spec fn decode_part_lines(
    this: Seq<char>,
    field: FieldModel,
    scope: Scope,
    variable: Seq<char>,
) -> Seq<PieceModel> {
    with_variable(
        seq![line(header_text(field.field_type.wire_type()))] + decode_value_lines(this, field, scope, false),
        variable,
    )
}

/// The statements that read one entry of a map and store it in `this`.
pub open spec fn decode_entry_lines(this: Seq<char>, map: MapModel, scope: Scope) -> Seq<PieceModel> {
    seq![
        line("local mapKey: "@ + value_type(map.key, scope)),
        line("local mapValue: "@ + value_type(map.value, scope)),
        PieceModel::Blank,
    ] + decode_part_lines("mapKey"@, map.key, scope, "readMapKey"@) + seq![PieceModel::Blank]
        + decode_part_lines("mapValue"@, map.value, scope, "readMapValue"@) + seq![
        PieceModel::Blank,
        line(this + "[mapKey] = mapValue"@),
    ]
}

/// Whether the types can be named that the statements for a field speak of: those of the
/// entries for a map, that of the field for another.
pub open spec fn decodable(field: FieldModel, map: Option<MapModel>, scope: Scope) -> bool {
    match map {
        Some(map) => nameable(map.key, scope) && nameable(map.value, scope),
        None => nameable(field, scope),
    }
}

/// The statements that read a field and store it in `this`.
pub open spec fn decode_lines(
    this: Seq<char>,
    field: FieldModel,
    scope: Scope,
    map: Option<MapModel>,
    is_oneof: bool,
) -> Seq<PieceModel> {
    match map {
        Some(map) => decode_entry_lines(this, map, scope),
        None => decode_value_lines(this, field, scope, is_oneof),
    }
}

fn read_value(codec: &str) -> (res: String)
    ensures
        res@ == read_text(codec@),
{
    "value, cursor = proto.read".to_owned().concat(codec).concat("(input, cursor)")
}

/// The statements that read the field and store it in `this`.
pub fn decode_field(
    this: &str,
    field: &FieldDescriptor,
    export_map: &ExportMap,
    base_file: &BaseFile,
    map_type: Option<&MapType>,
    is_oneof: bool,
) -> (res: StringBuilder)
    requires
        decodable(field@, map_view(map_type), scope_of(export_map, base_file)),
    ensures
        res@ == decode_lines(this@, field@, scope_of(export_map, base_file), map_view(map_type), is_oneof),
        res.depth_now() == 0,
    decreases
        (if map_type is Some {
            1int
        } else {
            0int
        }),
{
    let ghost scope = scope_of(export_map, base_file);
    let mut decode = StringBuilder::new();
    if let Some(map_type) = map_type {
        decode.push(
            "local mapKey: ".to_owned().concat(
                type_definition_of_field_descriptor(&map_type.key, export_map, base_file).as_str(),
            ).as_str(),
        );
        decode.push(
            "local mapValue: ".to_owned().concat(
                type_definition_of_field_descriptor(&map_type.value, export_map, base_file).as_str(),
            ).as_str(),
        );
        decode.blank();

        decode.push(
            replace(wire_type_header(wire_type_of_field_descriptor(&map_type.key)), "value", "readMapKey").as_str(),
        );
        let mut key = decode_field("mapKey", &map_type.key, export_map, base_file, None, false).replace(
            "value",
            "readMapKey",
        );
        decode.append(&mut key);
        decode.blank();

        decode.push(
            replace(
                wire_type_header(wire_type_of_field_descriptor(&map_type.value)),
                "value",
                "readMapValue",
            ).as_str(),
        );
        let mut value = decode_field("mapValue", &map_type.value, export_map, base_file, None, false).replace(
            "value",
            "readMapValue",
        );
        decode.append(&mut value);
        decode.blank();

        decode.push(this.to_owned().concat("[mapKey] = mapValue").as_str());
        assert(decode@ =~= decode_entry_lines(this@, map_type@, scope));
    } else {
        match field.field_type() {
            FieldType::Float => {
                decode.push("local value");
                decode.push(read_value("Float").as_str());
            },
            FieldType::Double => {
                decode.push("local value");
                decode.push(read_value("Double").as_str());
            },
            FieldType::Fixed32 | FieldType::Sfixed32 => {
                decode.push("local value");
                decode.push(read_value("Fixed32").as_str());
            },
            FieldType::Fixed64 | FieldType::Sfixed64 => {
                decode.push("local value");
                decode.push(read_value("Fixed64").as_str());
            },
            _ => {},
        }
        assert(decode@ =~= read_lines(field@.field_type));

        let instruction = decode_instruction_field_descriptor_ignore_repeated(field, export_map, base_file);
        if field.is_repeated() {
            decode.push(
                "table.insert(".to_owned().concat(this).concat(", ").concat(instruction.as_str()).concat(")").as_str(),
            );
        } else if is_oneof {
            decode.push(
                this.to_owned().concat(" = { type = \"").concat(field.name()).concat("\", value = ").concat(
                    instruction.as_str(),
                ).concat(" }").as_str(),
            );
        } else {
            decode.push(this.to_owned().concat(" = ").concat(instruction.as_str()).as_str());
        }
    }
    decode
}

} // verus!
