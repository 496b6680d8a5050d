//! What is generated for lists, maps and oneofs, by what is generated for their values.
use crate::coding::{field_coding, tag_statement, write_statement};
use crate::decode::decode_lines;
use crate::descriptor::{FieldModel, FieldType, Label};
use crate::fields::{GeneratorModel, KindModel};
use crate::generator::MapModel;
use crate::if_builder::{if_statement, BranchModel};
use crate::instructions::{encode_text, header_text, json_decode_text, json_encode_text, Scope};
use crate::json::json_names;
use crate::string_builder::{line, PieceModel};
use crate::text::replaced;
use vstd::prelude::*;

verus! {

/// The generator for a field that stands alone.
pub open spec fn alone(field: FieldModel, scope: Scope) -> GeneratorModel {
    GeneratorModel { kind: KindModel::Single(field), scope }
}

/// The generator for a oneof.
pub open spec fn one_of(name: Seq<char>, fields: Seq<FieldModel>, scope: Scope) -> GeneratorModel {
    GeneratorModel { kind: KindModel::OneOf { name, fields }, scope }
}

/// The Luau type of a value of a field.
pub open spec fn luau_type(field: FieldModel, scope: Scope) -> Seq<char> {
    field_coding(field, scope, Seq::empty()).luau_type
}

/// A field with the same value, which is not a list.
pub open spec fn unrepeated(field: FieldModel) -> FieldModel {
    FieldModel { label: Some(Label::Required), ..field }
}

/// A field is a map exactly where its type path, behind the dot, is the full name of a
/// type that is exported as the entries of a map.
pub proof fn law_maps_are_found_by_full_name(field: FieldModel, full_name: Seq<char>, scope: Scope)
    requires
        field.type_path == seq!['.'] + full_name,
    ensures
        alone(field, scope).map_type() == if scope.exports.contains_key(full_name) {
            scope.exports[full_name].map
        } else {
            None
        },
{
    assert(field.type_path.skip(1) =~= full_name);
}

/// A field without a type path is no map, nor is a oneof.
pub proof fn law_only_named_types_are_maps(
    field: FieldModel,
    name: Seq<char>,
    fields: Seq<FieldModel>,
    scope: Scope,
)
    ensures
        field.type_path.len() == 0 ==> alone(field, scope).map_type() is None,
        one_of(name, fields, scope).map_type() is None,
{
}

/// Which fields may be absent, by label and type: optional fields and messages that are
/// neither lists nor maps, and every oneof.
pub proof fn law_which_fields_may_be_absent(
    field: FieldModel,
    name: Seq<char>,
    fields: Seq<FieldModel>,
    scope: Scope,
)
    ensures
        alone(field, scope).map_type() is Some ==> !alone(field, scope).has_presence(),
        alone(field, scope).map_type() is None ==> alone(field, scope).has_presence() == match field.label {
            Some(Label::Optional) => true,
            Some(Label::Repeated) => false,
            _ => field.field_type == FieldType::Message,
        },
        one_of(name, fields, scope).has_presence(),
{
}

/// The type of a list is that of one of its values in braces, whatever the type of the
/// value; the type of one value is that of the value.
pub proof fn law_types_of_lists(field: FieldModel, scope: Scope)
    requires
        field.field_type != FieldType::Group,
        alone(field, scope).map_type() is None,
    ensures
        alone(unrepeated(field), scope).present_type() == luau_type(field, scope),
        field.repeated() ==> alone(field, scope).full_type() == "{ "@ + alone(
            unrepeated(field),
            scope,
        ).present_type() + " }"@,
        field.repeated() ==> alone(field, scope).full_type() != luau_type(field, scope),
        !field.repeated() ==> alone(field, scope).present_type() == luau_type(field, scope),
{
    reveal_strlit("{ ");
    assert(alone(unrepeated(field), scope).map_type() is None);
}

/// The type of a map is an index from the type of its keys to that of its values.
pub proof fn law_types_of_maps(field: FieldModel, map: MapModel, scope: Scope)
    requires
        alone(field, scope).map_type() == Some(map),
        map.key.field_type != FieldType::Group,
        map.value.field_type != FieldType::Group,
    ensures
        alone(field, scope).full_type() == "{ ["@ + luau_type(map.key, scope) + "]: "@ + luau_type(map.value, scope)
            + " }"@,
{
}

/// The type of a oneof grows by a variant for each field, in their order; without its
/// question mark it is a union in brackets.
pub proof fn law_types_of_oneofs(name: Seq<char>, fields: Seq<FieldModel>, field: FieldModel, scope: Scope)
    requires
        field.field_type != FieldType::Group,
    ensures
        ({
            let before = one_of(name, fields, scope);
            let after = one_of(name, fields.push(field), scope);
            let variant = "{ type: \""@ + field.name + "\", value: "@ + luau_type(field, scope) + " }"@;
            let bare = luau_type(field, scope);
            &&& after.full_type() == after.present_type() + "?"@
            &&& fields.len() == 0 ==> after.present_type() == "("@ + variant + ")"@
            &&& fields.len() == 0 ==> after.json_type() == "("@ + bare + ")?"@
            &&& fields.len() > 0 ==> after.present_type() == before.present_type().drop_last() + " | "@ + variant
                + ")"@
            &&& fields.len() > 0 ==> after.json_type() == before.json_type().drop_last().drop_last() + " | "@ + bare
                + ")?"@
        }),
{
    let all = fields.push(field);
    let variants = all.map_values(|field: FieldModel| crate::fields::variant_text(field, scope));
    let bares = all.map_values(|field: FieldModel| crate::instructions::value_type(field, scope));
    let sep = " | "@;
    reveal_strlit(")");
    reveal_strlit(")?");
    reveal_strlit("(");
    assert(variants.drop_last() =~= fields.map_values(
        |field: FieldModel| crate::fields::variant_text(field, scope),
    ));
    assert(bares.drop_last() =~= fields.map_values(
        |field: FieldModel| crate::instructions::value_type(field, scope),
    ));
    let before = one_of(name, fields, scope);
    let after = one_of(name, all, scope);
    let variant = "{ type: \""@ + field.name + "\", value: "@ + luau_type(field, scope) + " }"@;
    let bare = luau_type(field, scope);
    assert(variants.last() == variant);
    assert(bares.last() == bare);
    if fields.len() > 0 {
        let inner = crate::text::joined(variants.drop_last(), sep);
        let inner_bare = crate::text::joined(bares.drop_last(), sep);
        assert(before.present_type() == "("@ + inner + ")"@);
        assert(before.present_type().drop_last() =~= "("@ + inner);
        assert(after.present_type() =~= before.present_type().drop_last() + sep + variant + ")"@);
        assert(before.json_type() == "("@ + inner_bare + ")?"@);
        assert(before.json_type().drop_last().drop_last() =~= "("@ + inner_bare);
        assert(after.json_type() =~= before.json_type().drop_last().drop_last() + sep + bare + ")?"@);
    }
}

/// The JSON form of a field that stands alone has its type with a question mark.
pub proof fn law_json_types(field: FieldModel, scope: Scope)
    ensures
        alone(field, scope).json_type() == alone(field, scope).present_type() + "?"@,
{
}

/// When a field is written, by what it is: a field that may be absent if it is there, a
/// map or a list if it holds something, and a value if it is not that with which Luau
/// code starts, by its type.
pub proof fn law_guards(field: FieldModel, scope: Scope)
    requires
        field.field_type != FieldType::Group,
    ensures
        ({
            let generator = alone(field, scope);
            let this = "self."@ + field.name;
            let value = luau_type(field, scope);
            generator.guard() == if generator.has_presence() {
                this + " ~= nil"@
            } else if generator.map_type() is Some {
                "next("@ + this + ") ~= nil"@
            } else if field.repeated() {
                "#"@ + this + " > 0"@
            } else {
                match field.field_type {
                    FieldType::Bool => this,
                    FieldType::String => this + " ~= \"\""@,
                    FieldType::Bytes => "buffer.len("@ + this + ") > 0"@,
                    FieldType::Enum => this + " ~= 0 or "@ + this + " ~= "@ + value + ".fromNumber(0)"@,
                    _ => this + " ~= 0"@,
                }
            }
        }),
{
}

/// What a field is before it is set, by what it is.
pub proof fn law_defaults(field: FieldModel, scope: Scope)
    requires
        field.field_type != FieldType::Group,
    ensures
        alone(field, scope).default_text() == if alone(field, scope).has_presence() {
            "nil"@
        } else if field.repeated() {
            "{}"@
        } else {
            match field.field_type {
                FieldType::Bool => "false"@,
                FieldType::String => "\"\""@,
                FieldType::Bytes => "buffer.create(0)"@,
                FieldType::Enum => luau_type(field, scope) + ".fromNumber(0)"@,
                FieldType::Message => luau_type(field, scope) + ".new()"@,
                _ => "0"@,
            }
        },
{
}

/// A oneof is written if it is there, and is absent before it is set.
pub proof fn law_oneofs_may_be_absent(name: Seq<char>, fields: Seq<FieldModel>, scope: Scope)
    ensures
        one_of(name, fields, scope).guard() == "self."@ + name + " ~= nil"@,
        one_of(name, fields, scope).default_text() == "nil"@,
{
}

/// One value is written from its place in the message, and each value of a list from the
/// variable of a loop over the list, in the same way.
pub proof fn law_lists_are_written_value_by_value(field: FieldModel, scope: Scope)
    requires
        field.field_type != FieldType::Group,
        alone(field, scope).map_type() is None,
    ensures
        ({
            let generator = alone(field, scope);
            let this = "self."@ + field.name;
            let lines = generator.encode_lines();
            &&& lines[0] == line("if "@ + generator.guard() + " then"@)
            &&& lines.last() == line("end"@)
            &&& !field.repeated() ==> lines.len() == 3 && lines[1] == line(encode_text(field, scope, this))
            &&& field.repeated() ==> {
                &&& lines.len() == 5
                &&& lines[1] == line("for _, value: "@ + luau_type(field, scope) + " in "@ + this + " do"@)
                &&& lines[2] == PieceModel::Text { depth: 1, text: encode_text(unrepeated(field), scope, "value"@) }
                &&& lines[3] == line("end"@)
            }
        }),
{
}

/// The statement with the buffer and the cursor of a map entry in place of those of the
/// message.
pub open spec fn in_entry(statements: Seq<char>) -> Seq<char> {
    replaced(replaced(statements, "cursor"@, "mapCursor"@), "output"@, "mapBuffer"@)
}

/// An entry of a map is written as a message is, with the key and the value as fields: both
/// into a buffer, and that behind a tag with the number of the map field and the
/// length-delimited wire type, and its length.
pub proof fn law_map_entries_are_written_as_messages(field: FieldModel, map: MapModel, scope: Scope)
    requires
        alone(field, scope).map_type() == Some(map),
        map.key.field_type != FieldType::Group,
        map.value.field_type != FieldType::Group,
    ensures
        alone(field, scope).encode_lines() == seq![
            line("if "@ + alone(field, scope).guard() + " then"@),
            line(
                "for key: "@ + luau_type(map.key, scope) + ", value: "@ + luau_type(map.value, scope) + " in "@ + (
                "self."@ + field.name) + " do"@,
            ),
            line("local mapBuffer = buffer.create(0)"@),
            line("local mapCursor = 0"@),
            line(in_entry(encode_text(map.key, scope, "key"@))),
            line(in_entry(encode_text(map.value, scope, "value"@))),
            line(tag_statement(field.number, "lengthDelimited"@)),
            line(write_statement("VarInt"@, "buffer.len(mapBuffer)"@)),
            line(write_statement("Buffer"@, "mapBuffer"@)),
            line("end"@),
            line("end"@),
        ],
{
    let lines = alone(field, scope).encode_lines();
    assert(lines.len() == 11);
    assert(lines =~= seq![
        lines[0], lines[1], lines[2], lines[3], lines[4], lines[5], lines[6], lines[7], lines[8], lines[9], lines[10],
    ]);
}

/// What follows the two parts of a map entry is what follows the encoding of a message
/// with the number of the map: the tag, the length and the bytes, here of the buffer of
/// the entry.
pub proof fn law_map_entries_have_the_frame_of_a_message(
    field: FieldModel,
    map: MapModel,
    scope: Scope,
    message: FieldModel,
    v: Seq<char>,
)
    requires
        alone(field, scope).map_type() == Some(map),
        message.field_type == FieldType::Message,
        message.number == field.number,
    ensures
        ({
            let lines = alone(field, scope).encode_lines();
            let tag = lines[6]->text;
            let length = |bytes: Seq<char>| write_statement("VarInt"@, "buffer.len("@ + bytes + ")"@);
            let bytes = |bytes: Seq<char>| write_statement("Buffer"@, bytes);
            &&& lines.len() == 11
            &&& lines[7]->text == length("mapBuffer"@)
            &&& lines[8]->text == bytes("mapBuffer"@)
            &&& encode_text(message, scope, v) == "local encoded = "@ + luau_type(message, scope) + ".encode("@ + v
                + ")"@ + "\n"@ + tag + "\n"@ + length("encoded"@) + "\n"@ + bytes("encoded"@)
        }),
{
    reveal_strlit("buffer.len(");
    reveal_strlit(")");
    reveal_strlit("mapBuffer");
    reveal_strlit("encoded");
    reveal_strlit("buffer.len(mapBuffer)");
    reveal_strlit("buffer.len(encoded)");
    assert("buffer.len(mapBuffer)"@ =~= "buffer.len("@ + "mapBuffer"@ + ")"@);
    assert("buffer.len(encoded)"@ =~= "buffer.len("@ + "encoded"@ + ")"@);
}

/// A oneof is written by the field that was chosen, each in the way of a field that stands
/// alone, from the value in the oneof.
pub proof fn law_oneofs_are_written_by_their_fields(name: Seq<char>, fields: Seq<FieldModel>, scope: Scope)
    ensures
        exists|branches: Seq<BranchModel>|
            {
                &&& branches.len() == fields.len()
                &&& forall|i: int|
                    0 <= i < fields.len() ==> {
                        &&& (#[trigger] branches[i]).condition == "self."@ + name + ".type == \""@ + fields[i].name
                            + "\""@
                        &&& branches[i].statement == encode_text(fields[i], scope, "self."@ + name + ".value"@)
                    }
                &&& one_of(name, fields, scope).encode_lines() == seq![line("if self."@ + name + " ~= nil then"@)]
                    + #[trigger] if_statement(branches) + seq![line("end"@)]
            },
{
    let generator = one_of(name, fields, scope);
    let branches = fields.map_values(|field: FieldModel| generator.encode_branch(field));
    reveal_strlit("if ");
    reveal_strlit("self.");
    reveal_strlit(" ~= nil");
    reveal_strlit(" then");
    reveal_strlit("if self.");
    reveal_strlit(" ~= nil then");
    assert("if "@ + generator.guard() + " then"@ =~= "if self."@ + name + " ~= nil then"@);
    assert(generator.encode_lines() =~= seq![line("if self."@ + name + " ~= nil then"@)] + if_statement(branches)
        + seq![line("end"@)]);
}

/// The lines that decode one part of a map entry.
pub open spec fn part_lines(this: Seq<char>, field: FieldModel, scope: Scope, variable: Seq<char>) -> Seq<PieceModel> {
    (seq![line(header_text(field.field_type.wire_type()))] + decode_lines(this, field, scope, None, false)).map_values(
        |piece: PieceModel| piece.replaced("value"@, variable),
    )
}

/// An entry of a map is read part by part, the key before the value, each as a field that
/// stands alone is read: by the header for its own wire type and then its own statements,
/// with another variable. Both are declared before and stored in the map behind.
pub proof fn law_map_entries_are_read_part_by_part(
    this: Seq<char>,
    field: FieldModel,
    map: MapModel,
    scope: Scope,
    is_oneof: bool,
)
    requires
        map.key.field_type != FieldType::Group,
        map.value.field_type != FieldType::Group,
    ensures
        decode_lines(this, field, scope, Some(map), is_oneof) == seq![
            line("local mapKey: "@ + luau_type(map.key, scope)),
            line("local mapValue: "@ + luau_type(map.value, scope)),
            PieceModel::Blank,
        ] + part_lines("mapKey"@, map.key, scope, "readMapKey"@) + seq![PieceModel::Blank] + part_lines(
            "mapValue"@,
            map.value,
            scope,
            "readMapValue"@,
        ) + seq![PieceModel::Blank, line(this + "[mapKey] = mapValue"@)],
{
}

/// A field that is no map is read by what wrote it. A value of fixed width is declared and
/// read by the statements of the field, and any other before them by the header for its
/// wire type. Then the value is stored: at the end of a list, in a oneof with the name of
/// its field, or in a place of its own.
pub proof fn law_fields_are_read_by_what_wrote_them(
    this: Seq<char>,
    field: FieldModel,
    scope: Scope,
    is_oneof: bool,
)
    requires
        field.field_type != FieldType::Group,
    ensures
        ({
            let way = field_coding(field, scope, "value"@);
            let declare = "local value"@;
            let read = "value, cursor = proto.read"@ + way.reader + "(input, cursor)"@;
            let store = if field.repeated() {
                "table.insert("@ + this + ", "@ + way.taken + ")"@
            } else if is_oneof {
                this + " = { type = \""@ + field.name + "\", value = "@ + way.taken + " }"@
            } else {
                this + " = "@ + way.taken
            };
            let header = header_text(field.field_type.wire_type());
            let lines = decode_lines(this, field, scope, None, is_oneof);
            match field.field_type {
                FieldType::Fixed32
                | FieldType::Sfixed32
                | FieldType::Float
                | FieldType::Fixed64
                | FieldType::Sfixed64
                | FieldType::Double => {
                    &&& header == Seq::<char>::empty()
                    &&& lines == seq![line(declare), line(read), line(store)]
                },
                _ => {
                    &&& header == declare + "\n"@ + read
                    &&& lines == seq![line(store)]
                },
            }
        }),
        field.field_type != FieldType::String ==> field_coding(field, scope, "value"@).reader == field_coding(
            field,
            scope,
            "value"@,
        ).writer,
{
    reveal_strlit("");
    reveal_strlit("local value");
    reveal_strlit("\n");
    reveal_strlit("value, cursor = proto.read");
    reveal_strlit("(input, cursor)");
    reveal_strlit("VarInt");
    reveal_strlit("Buffer");
    reveal_strlit("local value\nvalue, cursor = proto.readVarInt(input, cursor)");
    reveal_strlit("local value\nvalue, cursor = proto.readBuffer(input, cursor)");
    let read = |codec: Seq<char>| "local value"@ + "\n"@ + ("value, cursor = proto.read"@ + codec + "(input, cursor)"@);
    assert("local value\nvalue, cursor = proto.readVarInt(input, cursor)"@ =~= read("VarInt"@));
    assert("local value\nvalue, cursor = proto.readBuffer(input, cursor)"@ =~= read("Buffer"@));
}

/// The statement that makes an empty list or map.
pub open spec fn empty_output(generator: GeneratorModel) -> PieceModel {
    line("local newOutput: "@ + generator.full_type() + " = {}"@)
}

/// One value is put into JSON in the form of its type, and each value of a list in the same
/// form, from the variable of a loop.
pub proof fn law_lists_are_put_into_json_value_by_value(field: FieldModel, scope: Scope, json_name: Seq<char>)
    requires
        field.field_type != FieldType::Group,
        alone(field, scope).map_type() is None,
    ensures
        ({
            let generator = alone(field, scope);
            let this = "self."@ + field.name;
            let output = "output."@ + json_name;
            generator.json_encode_lines(json_name) == if field.repeated() {
                seq![
                    line("if "@ + generator.guard() + " then"@),
                    empty_output(generator),
                    line("for _, value: "@ + luau_type(field, scope) + " in "@ + this + " do"@),
                    line("table.insert(newOutput, "@ + field_coding(field, scope, "value"@).json + ")"@),
                    line("end"@),
                    line(output + " = newOutput"@),
                    line("end"@),
                ]
            } else {
                seq![
                    line("if "@ + generator.guard() + " then"@),
                    line(output + " = "@ + field_coding(field, scope, this).json),
                    line("end"@),
                ]
            }
        }),
{
    let generator = alone(field, scope);
    let lines = generator.json_encode_lines(json_name);
    if field.repeated() {
        assert(lines.len() == 7);
        assert(lines =~= seq![lines[0], lines[1], lines[2], lines[3], lines[4], lines[5], lines[6]]);
    } else {
        assert(lines.len() == 3);
        assert(lines =~= seq![lines[0], lines[1], lines[2]]);
    }
}

/// A map is put into JSON entry by entry, the key and the value each in the form of its
/// own type.
pub proof fn law_maps_are_put_into_json_entry_by_entry(
    field: FieldModel,
    map: MapModel,
    scope: Scope,
    json_name: Seq<char>,
)
    requires
        alone(field, scope).map_type() == Some(map),
        map.key.field_type != FieldType::Group,
        map.value.field_type != FieldType::Group,
    ensures
        ({
            let generator = alone(field, scope);
            generator.json_encode_lines(json_name) == seq![
                line("if "@ + generator.guard() + " then"@),
                empty_output(generator),
                line(
                    "for key: "@ + luau_type(map.key, scope) + ", value: "@ + luau_type(map.value, scope) + " in "@ + (
                    "self."@ + field.name) + " do"@,
                ),
                line(
                    "newOutput["@ + field_coding(map.key, scope, "key"@).json + "] = "@ + field_coding(
                        map.value,
                        scope,
                        "value"@,
                    ).json,
                ),
                line("end"@),
                line("output."@ + json_name + " = newOutput"@),
                line("end"@),
            ]
        }),
{
    let lines = alone(field, scope).json_encode_lines(json_name);
    assert(lines.len() == 7);
    assert(lines =~= seq![lines[0], lines[1], lines[2], lines[3], lines[4], lines[5], lines[6]]);
}

/// A oneof is put into JSON by the field that was chosen, in the form of its type.
pub proof fn law_oneofs_are_put_into_json_by_their_fields(
    name: Seq<char>,
    fields: Seq<FieldModel>,
    scope: Scope,
    json_name: Seq<char>,
)
    requires
        forall|i: int| 0 <= i < fields.len() ==> (#[trigger] fields[i]).field_type != FieldType::Group,
    ensures
        exists|branches: Seq<BranchModel>|
            {
                &&& branches.len() == fields.len()
                &&& forall|i: int|
                    0 <= i < fields.len() ==> {
                        &&& (#[trigger] branches[i]).condition == "self."@ + name + ".type == \""@ + fields[i].name
                            + "\""@
                        &&& branches[i].statement == "output."@ + json_name + " = "@ + field_coding(
                            fields[i],
                            scope,
                            "self."@ + name + ".value"@,
                        ).json
                    }
                &&& one_of(name, fields, scope).json_encode_lines(json_name) == seq![
                    line("if "@ + one_of(name, fields, scope).guard() + " then"@),
                ] + #[trigger] if_statement(branches) + seq![line("end"@)]
            },
{
    let generator = one_of(name, fields, scope);
    let output = "output."@ + json_name;
    let branches = fields.map_values(|field: FieldModel| generator.json_encode_branch(field, output));
    assert(generator.json_encode_lines(json_name) =~= seq![line("if "@ + generator.guard() + " then"@)]
        + if_statement(branches) + seq![line("end"@)]);
    assert forall|i: int| 0 <= i < fields.len() implies (#[trigger] branches[i]).statement == "output."@ + json_name
        + " = "@ + field_coding(fields[i], scope, "self."@ + name + ".value"@).json by {
        assert(fields[i].field_type != FieldType::Group);
    }
}

/// The statements that take a map from the JSON input under one name: it is asked for by
/// that name, and taken entry by entry, the key and the value each from the form of its
/// own type.
pub proof fn law_maps_are_taken_from_json_entry_by_entry(
    field: FieldModel,
    map: MapModel,
    scope: Scope,
    input_name: Seq<char>,
)
    requires
        alone(field, scope).map_type() == Some(map),
        map.key.field_type != FieldType::Group,
        map.value.field_type != FieldType::Group,
    ensures
        alone(field, scope).json_decode_block(field, input_name) == seq![
            line("if input."@ + input_name + " ~= nil then"@),
            empty_output(alone(field, scope)),
            line("for key, value in input."@ + input_name + " do"@),
            line(
                "newOutput["@ + field_coding(map.key, scope, "key"@).from_json + "] = "@ + field_coding(
                    map.value,
                    scope,
                    "value"@,
                ).from_json,
            ),
            line("end"@),
            PieceModel::Blank,
            line("self."@ + field.name + " = newOutput"@),
            line("end"@),
            PieceModel::Blank,
        ],
{
    let lines = alone(field, scope).json_decode_block(field, input_name);
    assert(lines.len() == 9);
    assert(lines =~= seq![
        lines[0], lines[1], lines[2], lines[3], lines[4], lines[5], lines[6], lines[7], lines[8],
    ]);
}

/// The statements that take a list from the JSON input under one name: it is asked for by
/// that name, and taken value by value, each from the form of its type.
pub proof fn law_lists_are_taken_from_json_value_by_value(
    generator: GeneratorModel,
    field: FieldModel,
    input_name: Seq<char>,
)
    requires
        field.field_type != FieldType::Group,
        generator.map_type() is None,
        field.repeated(),
    ensures
        generator.json_decode_block(field, input_name) == seq![
            line("if input."@ + input_name + " ~= nil then"@),
            empty_output(generator),
            line("for _, value: "@ + luau_type(field, generator.scope) + " in input."@ + input_name + " do"@),
            line("table.insert(newOutput, "@ + field_coding(field, generator.scope, "value"@).from_json + ")"@),
            line("end"@),
            PieceModel::Blank,
            line("self."@ + field.name + " = newOutput"@),
            line("end"@),
            PieceModel::Blank,
        ],
{
    let lines = generator.json_decode_block(field, input_name);
    assert(lines.len() == 9);
    assert(lines =~= seq![
        lines[0], lines[1], lines[2], lines[3], lines[4], lines[5], lines[6], lines[7], lines[8],
    ]);
}

/// The statements that take one value from the JSON input under one name: it is asked for
/// by that name and taken from the form of its type, and stored under the name of its
/// field or, with that name, in its oneof.
pub proof fn law_values_are_taken_from_json_under_a_name(
    generator: GeneratorModel,
    field: FieldModel,
    input_name: Seq<char>,
)
    requires
        field.field_type != FieldType::Group,
        generator.map_type() is None,
        !field.repeated(),
    ensures
        ({
            let value = field_coding(field, generator.scope, "input."@ + input_name).from_json;
            let store = match generator.kind {
                KindModel::Single(_) => "self."@ + field.name + " = "@ + value,
                KindModel::OneOf { name, .. } => "self."@ + name + " = { type = \""@ + field.name + "\", value = "@
                    + value + " }"@,
            };
            generator.json_decode_block(field, input_name) == seq![
                line("if input."@ + input_name + " ~= nil then"@),
                line(store),
                line("end"@),
                PieceModel::Blank,
            ]
        }),
{
    let lines = generator.json_decode_block(field, input_name);
    assert(lines.len() == 4);
    assert(lines =~= seq![lines[0], lines[1], lines[2], lines[3]]);
}

/// The values of lists and of maps, and the keys of maps, are put into JSON and taken from
/// it by the expressions that do so for a single value of their type.
pub proof fn law_json_of_collections_is_that_of_their_values(
    field: FieldModel,
    map: MapModel,
    scope: Scope,
    name: Seq<char>,
)
    ensures
        ({
            let into = alone(field, scope).json_encode_lines(name);
            let from = alone(field, scope).json_decode_block(field, name);
            &&& alone(field, scope).map_type() is None && field.repeated() ==> {
                &&& into[3] == line(
                    "table.insert(newOutput, "@ + json_encode_text(unrepeated(field), scope, "value"@) + ")"@,
                )
                &&& from[3] == line(
                    "table.insert(newOutput, "@ + json_decode_text(unrepeated(field), scope, "value"@) + ")"@,
                )
            }
            &&& alone(field, scope).map_type() == Some(map) ==> {
                &&& into[3] == line(
                    "newOutput["@ + json_encode_text(map.key, scope, "key"@) + "] = "@ + json_encode_text(
                        map.value,
                        scope,
                        "value"@,
                    ),
                )
                &&& from[3] == line(
                    "newOutput["@ + json_decode_text(map.key, scope, "key"@) + "] = "@ + json_decode_text(
                        map.value,
                        scope,
                        "value"@,
                    ),
                )
            }
        }),
{
}

/// The fields are taken from the JSON input one after another, each under its own name and
/// then, where that is another, under its JSON name.
pub proof fn law_fields_are_taken_from_json_in_order(generator: GeneratorModel, names: Seq<Seq<char>>)
    requires
        names.len() == generator.inner_fields().len(),
    ensures
        exists|parts: Seq<Seq<PieceModel>>|
            {
                &&& parts.len() == names.len()
                &&& forall|i: int|
                    0 <= i < names.len() ==> {
                        let field = generator.inner_fields()[i];
                        let own = generator.json_decode_block(field, field.name);
                        #[trigger] parts[i] == if field.name == names[i] {
                            own
                        } else {
                            own + generator.json_decode_block(field, names[i])
                        }
                    }
                &&& generator.json_decode_lines(names) == #[trigger] parts.flatten()
            },
{
    let parts = Seq::new(
        names.len(),
        |i: int| generator.json_decode_field_lines(generator.inner_fields()[i], names[i]),
    );
    assert(generator.json_decode_lines(names) == parts.flatten());
}

/// The fields of a generator, and the names by which they are asked for in JSON.
pub proof fn law_inner_fields(field: FieldModel, name: Seq<char>, fields: Seq<FieldModel>, scope: Scope)
    ensures
        alone(field, scope).inner_fields() == seq![field],
        one_of(name, fields, scope).inner_fields() == fields,
        alone(field, scope).name() == field.name,
        one_of(name, fields, scope).name() == name,
        json_names(fields).len() == fields.len(),
        forall|i: int|
            0 <= i < fields.len() ==> #[trigger] json_names(fields)[i] == crate::json::lower_camel_case_name(
                fields[i].name,
            ),
{
}

} // verus!
