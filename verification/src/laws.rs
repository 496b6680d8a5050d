//! What holds of the generated code as a whole.
use crate::decode::{decode_part_lines, decode_value_lines, read_lines, read_text};
use crate::descriptor::{FieldModel, FieldType};
use crate::fields::{encode_part_text, GeneratorModel, KindModel};
use crate::generator::{module_components, portable_path, BaseFile, ExportMap};
use crate::instructions::{
    decode_text, encode_text, export_key, header_text, json_decode_text, json_encode_text, just_type, nameable,
    scope_of, sent_value, tag_text, value_type, wire_type_name, write_text, Scope, WireType,
};
use crate::json::{json_names, lower_camel_case_name};
use crate::string_builder::{line, PieceModel};
use crate::text::{decimal, digit, digits, last_position, lemma_last_position, replaced};
use vstd::prelude::*;

verus! {

/// Whether `pattern` occurs in `s`.
pub open spec fn occurs(pattern: Seq<char>, s: Seq<char>) -> bool {
    exists|i: int|
        0 <= i && i + pattern.len() <= s.len() && #[trigger] s.subrange(i, i + pattern.len()) == pattern
}

proof fn lemma_replaced_prefix(s: Seq<char>, from: Seq<char>, to: Seq<char>, q: Seq<char>)
    requires
        from.len() > 0,
        to.len() > 0,
        !q.contains(to[0]),
        q.is_prefix_of(replaced(s, from, to)),
    ensures
        q.is_prefix_of(s),
    decreases s.len(),
{
    if q.len() > 0 && s.len() > 0 {
        let r = replaced(s, from, to);
        assert(q[0] == r[0]);
        if from.is_prefix_of(s) {
            assert(r[0] == to[0]);
            assert(q.contains(to[0]));
        } else {
            let rest = replaced(s.skip(1), from, to);
            assert(r == seq![s[0]] + rest);
            assert(q.skip(1) =~= rest.subrange(0, q.len() - 1)) by {
                assert forall|j: int| 0 <= j < q.len() - 1 implies q.skip(1)[j] == rest[j] by {
                    assert(q[j + 1] == r[j + 1]);
                }
            }
            assert(!q.skip(1).contains(to[0])) by {
                if q.skip(1).contains(to[0]) {
                    let j = q.skip(1).index_of(to[0]);
                    assert(q[j + 1] == to[0]);
                }
            }
            lemma_replaced_prefix(s.skip(1), from, to, q.skip(1));
            assert(q =~= s.subrange(0, q.len() as int)) by {
                assert forall|j: int| 0 <= j < q.len() implies q[j] == s[j] by {
                    if j > 0 {
                        assert(q.skip(1)[j - 1] == s.skip(1)[j - 1]);
                    }
                }
            }
        }
    }
}

proof fn lemma_occurs_in_rest(pattern: Seq<char>, s: Seq<char>, n: int)
    requires
        0 <= n <= s.len(),
        occurs(pattern, s.skip(n)),
    ensures
        occurs(pattern, s),
{
    let i = choose|i: int|
        0 <= i && i + pattern.len() <= s.skip(n).len() && #[trigger] s.skip(n).subrange(i, i + pattern.len())
            == pattern;
    assert(s.subrange(i + n, i + n + pattern.len()) =~= pattern);
}

/// Replacing `from` by `to` leaves no occurrence of `pattern` where there was none, or
/// where `pattern` is `from` itself, provided that `to` does not hold the first
/// character of `pattern`, nor `pattern` that of `to`.
pub proof fn law_replace_leaves_no_occurrence(s: Seq<char>, from: Seq<char>, to: Seq<char>, pattern: Seq<char>)
    requires
        from.len() > 0,
        to.len() > 0,
        pattern.len() > 0,
        !pattern.contains(to[0]),
        !to.contains(pattern[0]),
        pattern == from || !occurs(pattern, s),
    ensures
        !occurs(pattern, replaced(s, from, to)),
    decreases s.len(),
{
    let r = replaced(s, from, to);
    if occurs(pattern, r) {
        let i = choose|i: int|
            0 <= i && i + pattern.len() <= r.len() && #[trigger] r.subrange(i, i + pattern.len()) == pattern;
        assert(r[i] == pattern[0]) by {
            assert(r.subrange(i, i + pattern.len())[0] == pattern[0]);
        }
        if from.is_prefix_of(s) {
            let rest = s.skip(from.len() as int);
            if pattern != from && occurs(pattern, rest) {
                lemma_occurs_in_rest(pattern, s, from.len() as int);
            }
            law_replace_leaves_no_occurrence(rest, from, to, pattern);
            if i < to.len() {
                assert(to.contains(to[i]));
            } else {
                let k = i - to.len();
                assert(replaced(rest, from, to).subrange(k, k + pattern.len()) =~= pattern) by {
                    assert(r.subrange(i, i + pattern.len()) =~= replaced(rest, from, to).subrange(
                        k,
                        k + pattern.len(),
                    ));
                }
            }
        } else if s.len() > 0 {
            let rest = s.skip(1);
            if pattern != from && occurs(pattern, rest) {
                lemma_occurs_in_rest(pattern, s, 1);
            }
            law_replace_leaves_no_occurrence(rest, from, to, pattern);
            if i == 0 {
                assert(pattern.is_prefix_of(r));
                lemma_replaced_prefix(s, from, to, pattern);
                assert(s.subrange(0, 0int + pattern.len()) == pattern);
            } else {
                let k = i - 1;
                assert(r.subrange(i, i + pattern.len()) =~= replaced(rest, from, to).subrange(k, k + pattern.len()));
            }
        }
    }
}

/// The statements that write a part of a map entry never name the buffer and the cursor
/// of the message: they write to the buffer of the entry.
pub proof fn law_map_entry_has_its_own_buffer(field: FieldModel, scope: Scope, value_var: Seq<char>)
    ensures
        !occurs("cursor"@, encode_part_text(field, scope, value_var)),
        !occurs("output"@, encode_part_text(field, scope, value_var)),
{
    reveal_strlit("cursor");
    reveal_strlit("output");
    reveal_strlit("mapCursor");
    reveal_strlit("mapBuffer");
    let written = encode_text(field, scope, value_var);
    law_replace_leaves_no_occurrence(written, "cursor"@, "mapCursor"@, "cursor"@);
    let moved = replaced(written, "cursor"@, "mapCursor"@);
    law_replace_leaves_no_occurrence(moved, "output"@, "mapBuffer"@, "cursor"@);
    law_replace_leaves_no_occurrence(moved, "output"@, "mapBuffer"@, "output"@);
}

/// The statements that read a part of a map entry never name the variable `value`: the
/// key and the value are read into variables of their own.
pub proof fn law_map_parts_have_their_own_variables(this: Seq<char>, field: FieldModel, scope: Scope)
    ensures
        forall|i: int|
            0 <= i < decode_part_lines(this, field, scope, "readMapKey"@).len() ==> (
            #[trigger] decode_part_lines(this, field, scope, "readMapKey"@)[i] matches PieceModel::Text { text, .. }
                ==> !occurs("value"@, text)),
        forall|i: int|
            0 <= i < decode_part_lines(this, field, scope, "readMapValue"@).len() ==> (
            #[trigger] decode_part_lines(this, field, scope, "readMapValue"@)[i] matches PieceModel::Text { text, .. }
                ==> !occurs("value"@, text)),
{
    reveal_strlit("value");
    reveal_strlit("readMapKey");
    reveal_strlit("readMapValue");
    let lines = seq![line(header_text(field.field_type.wire_type()))] + decode_value_lines(
        this,
        field,
        scope,
        false,
    );
    assert forall|i: int| 0 <= i < lines.len() implies (
    #[trigger] decode_part_lines(this, field, scope, "readMapKey"@)[i] matches PieceModel::Text { text, .. }
        ==> !occurs("value"@, text)) by {
        if let PieceModel::Text { text, .. } = lines[i] {
            law_replace_leaves_no_occurrence(text, "value"@, "readMapKey"@, "value"@);
        }
    }
    assert forall|i: int| 0 <= i < lines.len() implies (
    #[trigger] decode_part_lines(this, field, scope, "readMapValue"@)[i] matches PieceModel::Text { text, .. }
        ==> !occurs("value"@, text)) by {
        if let PieceModel::Text { text, .. } = lines[i] {
            law_replace_leaves_no_occurrence(text, "value"@, "readMapValue"@, "value"@);
        }
    }
}

/// The tag that goes before a value names the wire type of the field.
pub proof fn law_tag_names_the_wire_type(field: FieldModel, scope: Scope, value_var: Seq<char>)
    requires
        field.field_type != FieldType::Group,
    ensures
        exists|before: Seq<char>, after: Seq<char>|
            encode_text(field, scope, value_var) == #[trigger] (before + tag_text(
                field.number,
                field.field_type.wire_type(),
            ) + after),
{
    let tag = tag_text(field.number, field.field_type.wire_type());
    let text = encode_text(field, scope, value_var);
    if field.field_type == FieldType::Message {
        let before = "local encoded = "@ + value_type(field, scope) + ".encode("@ + value_var + ")"@ + "\n"@;
        let after = "\n"@ + write_text("VarInt"@, "buffer.len(encoded)"@) + "\n"@ + write_text(
            field.field_type.codec(),
            "encoded"@,
        );
        assert(text =~= before + tag + after);
    } else {
        let after = "\n"@ + write_text(field.field_type.codec(), sent_value(field, scope, value_var));
        assert(text =~= Seq::<char>::empty() + tag + after);
    }
}

/// A value is read as it was written: a varint as a varint, a value of fixed width by the
/// codec that wrote it, and a length-delimited value as a buffer.
pub proof fn law_values_are_read_as_written(field: FieldModel, scope: Scope, value_var: Seq<char>)
    requires
        field.field_type != FieldType::Group,
    ensures
        field.field_type != FieldType::Message ==> encode_text(field, scope, value_var) == tag_text(
            field.number,
            field.field_type.wire_type(),
        ) + "\n"@ + write_text(field.field_type.codec(), sent_value(field, scope, value_var)),
        field.field_type.wire_type() == WireType::Varint ==> header_text(WireType::Varint) == "local value\n"@
            + read_text(field.field_type.codec()),
        field.field_type.wire_type() == WireType::I32 || field.field_type.wire_type() == WireType::I64 ==> read_lines(
            field.field_type,
        ) == seq![line("local value"@), line(read_text(field.field_type.codec()))],
        header_text(WireType::LengthDelimited) == "local value\n"@ + read_text("Buffer"@),
{
    reveal_strlit("VarInt");
    reveal_strlit("Buffer");
    reveal_strlit("local value\n");
    reveal_strlit("value, cursor = proto.read");
    reveal_strlit("(input, cursor)");
    reveal_strlit("local value\nvalue, cursor = proto.readVarInt(input, cursor)");
    reveal_strlit("local value\nvalue, cursor = proto.readBuffer(input, cursor)");
    assert(header_text(WireType::Varint) =~= "local value\n"@ + read_text("VarInt"@));
    assert(header_text(WireType::LengthDelimited) =~= "local value\n"@ + read_text("Buffer"@));
}

/// What is zigzag encoded when it is written, and only that, is zigzag decoded when it is
/// read.
pub proof fn law_zigzag_is_undone(field: FieldModel, scope: Scope, value_var: Seq<char>)
    requires
        field.field_type != FieldType::Group,
    ensures
        sent_value(field, scope, value_var) == "proto.encodeZigZag("@ + value_var + ")"@
            <==> field.field_type.is_zigzag(),
        decode_text(field, scope) == "proto.decodeZigZag(value)"@ <==> field.field_type.is_zigzag(),
{
    let encoded = "proto.encodeZigZag("@ + value_var + ")"@;
    let decoded = "proto.decodeZigZag(value)"@;
    reveal_strlit("proto.encodeZigZag(");
    reveal_strlit(")");
    reveal_strlit("proto.decodeZigZag(value)");
    reveal_strlit("value");
    reveal_strlit("value ~= 0");
    reveal_strlit("buffer.tostring(value)");
    reveal_strlit("if ");
    reveal_strlit(" then 1 else 0");
    reveal_strlit(".toNumber(");
    reveal_strlit(".fromNumber(value) or value");
    reveal_strlit(".decode(value)");
    let sent = sent_value(field, scope, value_var);
    let read = decode_text(field, scope);
    let named = value_type(field, scope);
    if field.field_type == FieldType::Enum {
        assert(sent[sent.len() - 1 - value_var.len() - 2] == 'r');
        assert(encoded[encoded.len() - 1 - value_var.len() - 2] == 'g');
        assert(read[read.len() - 1] == 'e');
        assert(decoded[decoded.len() - 1] == ')');
    } else if field.field_type == FieldType::Message {
        assert(sent.len() != encoded.len());
        assert(read[read.len() - 8] == 'e');
        assert(decoded[decoded.len() - 8] == 'g');
    } else if field.field_type == FieldType::Bool {
        assert(sent[0] == 'i');
        assert(encoded[0] == 'p');
        assert(read.len() != decoded.len());
    } else if !field.field_type.is_zigzag() {
        assert(sent.len() != encoded.len());
        assert(read.len() != decoded.len());
    }
}

/// The JSON form of a value is the value itself in both directions or in neither.
pub proof fn law_json_form_is_the_value_both_ways(field: FieldModel, scope: Scope, value_var: Seq<char>)
    requires
        field.field_type != FieldType::Group,
    ensures
        json_encode_text(field, scope, value_var) == value_var <==> json_decode_text(field, scope, value_var)
            == value_var,
{
    reveal_strlit("proto.json.serializeNumber(");
    reveal_strlit("proto.json.serializeBuffer(");
    reveal_strlit("proto.json.deserializeNumber(");
    reveal_strlit("proto.json.deserializeBuffer(");
    reveal_strlit("if typeof(");
    reveal_strlit(".jsonEncode(");
    reveal_strlit(".jsonDecode(");
    let written = json_encode_text(field, scope, value_var);
    let read = json_decode_text(field, scope, value_var);
    match field.field_type {
        FieldType::Float | FieldType::Double | FieldType::Bytes | FieldType::Enum | FieldType::Message => {
            assert(written.len() > value_var.len());
            assert(read.len() > value_var.len());
        },
        _ => {},
    }
}

/// Maps and repeated fields are always there, and a oneof need never be.
pub proof fn law_presence(generator: GeneratorModel)
    ensures
        generator.kind is OneOf ==> generator.has_presence(),
        generator.map_type() is Some ==> !generator.has_presence(),
        generator.kind matches KindModel::Single(field) ==> field.repeated() ==> !generator.has_presence(),
{
}

/// The type of a field has a question mark behind the type of its values if the field may
/// be absent, and only then.
pub proof fn law_type_marks_presence(generator: GeneratorModel)
    ensures
        generator.has_presence() <==> generator.full_type() == generator.present_type() + "?"@,
{
    reveal_strlit("?");
    if !generator.has_presence() {
        assert(generator.full_type().len() != (generator.present_type() + "?"@).len());
    }
}

/// A field that may be absent, and no other, has the default `nil`.
pub proof fn law_absent_fields_are_nil(generator: GeneratorModel)
    requires
        generator.has_default(),
    ensures
        generator.has_presence() <==> generator.default_text() == "nil"@,
{
    reveal_strlit("nil");
    reveal_strlit("{}");
    reveal_strlit("0");
    reveal_strlit("\"\"");
    reveal_strlit("false");
    reveal_strlit("buffer.create(0)");
    reveal_strlit(".fromNumber(0)");
    reveal_strlit(".new()");
    let default = generator.default_text();
    if !generator.has_presence() {
        let field = generator.inner_fields()[0];
        if !field.repeated() && field.field_type.is_reference() {
            assert(default[default.len() - 1] == ')');
            assert("nil"@["nil"@.len() - 1] == 'l');
        } else {
            assert(default.len() != "nil"@.len());
        }
    }
}

/// A field is held against `nil` before it is written if and only if it may be absent.
pub proof fn law_guard_marks_presence(generator: GeneratorModel)
    ensures
        generator.guard() == generator.this() + " ~= nil"@ <==> generator.has_presence(),
{
    reveal_strlit(" ~= nil");
    reveal_strlit("next(");
    reveal_strlit(") ~= nil");
    reveal_strlit("#");
    reveal_strlit(" > 0");
    reveal_strlit(" ~= 0");
    reveal_strlit(" ~= \"\"");
    reveal_strlit("buffer.len(");
    reveal_strlit(") > 0");
    reveal_strlit(" ~= 0 or ");
    if !generator.has_presence() {
        assert(generator.guard().len() != (generator.this() + " ~= nil"@).len());
    }
}

/// A field is written where it is not its default. This is the condition as it stands in
/// the code for fields that may be absent, numbers, strings and enums; an enum is held
/// against its number as well.
pub proof fn law_defaults_are_not_written(generator: GeneratorModel)
    requires
        generator.map_type() is None,
    ensures
        generator.has_presence() ==> generator.guard() == generator.this() + " ~= "@ + generator.default_text(),
        generator.kind matches KindModel::Single(field) ==> !generator.has_presence() && !field.repeated() ==> {
            &&& field.field_type.is_number() || field.field_type == FieldType::String ==> generator.guard()
                == generator.this() + " ~= "@ + generator.default_text()
            &&& field.field_type == FieldType::Enum ==> generator.guard() == generator.this() + " ~= 0 or "@
                + generator.this() + " ~= "@ + generator.default_text()
        },
{
    reveal_strlit(" ~= ");
    reveal_strlit(" ~= nil");
    reveal_strlit("nil");
    reveal_strlit(" ~= 0");
    reveal_strlit("0");
    reveal_strlit(" ~= \"\"");
    reveal_strlit("\"\"");
    let compared = generator.this() + " ~= "@ + generator.default_text();
    if generator.has_presence() {
        assert(generator.guard() =~= compared);
    } else if let KindModel::Single(field) = generator.kind {
        if !field.repeated() {
            if field.field_type.is_number() || field.field_type == FieldType::String {
                assert(generator.guard() =~= compared);
            } else if field.field_type == FieldType::Enum {
                assert(generator.guard() =~= generator.this() + " ~= 0 or "@ + generator.this() + " ~= "@
                    + generator.default_text());
            }
        }
    }
}

/// What is left out of the encoded bytes is left out of the JSON form: both are guarded
/// by the same condition, which stands first, and the block ends last.
pub proof fn law_bytes_and_json_have_one_guard(generator: GeneratorModel, json_name: Seq<char>)
    ensures
        generator.encode_lines().first() == line("if "@ + generator.guard() + " then"@),
        generator.json_encode_lines(json_name).first() == generator.encode_lines().first(),
        generator.encode_lines().last() == line("end"@),
        generator.json_encode_lines(json_name).last() == line("end"@),
{
}

/// The JSON form of a field that stands alone has the type of the field if and only if the
/// field may be absent.
pub proof fn law_json_type_of_absent_field(generator: GeneratorModel)
    requires
        generator.kind is Single,
    ensures
        generator.json_type() == generator.full_type() <==> generator.has_presence(),
{
    reveal_strlit("?");
    if !generator.has_presence() {
        assert(generator.json_type().len() == generator.full_type().len() + 1);
    }
}

/// A type is named without the name of a file in the file that declares it, and behind
/// the name of that file in every other. The name of a file settles its path where every
/// system reads that name in the same way.
pub proof fn law_types_are_qualified_outside_their_file(
    field: FieldModel,
    export_map: &ExportMap,
    base_file: &BaseFile,
)
    requires
        field.field_type.is_reference(),
        nameable(field, scope_of(export_map, base_file)),
    ensures
        ({
            let export = export_map@[export_key(field.type_path)];
            let named = value_type(field, scope_of(export_map, base_file));
            if export.path == base_file@ {
                named == export.prefix + just_type(field.type_path)
            } else {
                named == export.export_name + "."@ + export.prefix + just_type(field.type_path)
            }
        }),
        portable_path(base_file.file_name()) ==> base_file@ == module_components(base_file.file_name()),
{
}

/// A type is exported under its package, a dot and its name, and its name holds no dot.
pub proof fn law_export_key_ends_in_the_type(type_path: Seq<char>)
    ensures
        !just_type(type_path).contains('.'),
        exists|package: Seq<char>| export_key(type_path) == #[trigger] (package + "."@ + just_type(type_path)),
{
    reveal_strlit(".");
    let full_name = type_path.skip(1);
    lemma_last_position(full_name, '.');
    match last_position(full_name, '.') {
        Some(dot) => {
            assert(export_key(type_path) =~= full_name.take(dot) + "."@ + just_type(type_path));
            if just_type(type_path).contains('.') {
                let i = just_type(type_path).index_of('.');
                assert(full_name[i + dot + 1] == '.');
            }
        },
        None => {
            assert(export_key(type_path) =~= Seq::<char>::empty() + "."@ + just_type(type_path));
        },
    }
}

proof fn lemma_digits_are_distinct(a: nat, b: nat)
    requires
        digits(a) == digits(b),
    ensures
        a == b,
    decreases a,
{
    assert(digits(a).last() == digit((a % 10) as int));
    assert(digits(b).last() == digit((b % 10) as int));
    assert(a % 10 == b % 10);
    lemma_digits_not_empty(a / 10);
    lemma_digits_not_empty(b / 10);
    if a >= 10 && b >= 10 {
        assert(digits(a).drop_last() =~= digits(a / 10));
        assert(digits(b).drop_last() =~= digits(b / 10));
        lemma_digits_are_distinct(a / 10, b / 10);
    }
}

proof fn lemma_digits_not_empty(n: nat)
    ensures
        digits(n).len() > 0,
        digits(n)[0] != '-',
    decreases n,
{
    if n >= 10 {
        lemma_digits_not_empty(n / 10);
    }
}

/// Fields with different numbers have different tags.
pub proof fn law_tags_are_distinct(a: int, b: int, wire_type: WireType)
    requires
        tag_text(a, wire_type) == tag_text(b, wire_type),
    ensures
        a == b,
{
    let head = "output, cursor = proto.writeTag(output, cursor, "@;
    let tail = ", proto.wireTypes."@ + wire_type_name(wire_type) + ")"@;
    assert(tag_text(a, wire_type) =~= head + decimal(a) + tail);
    assert(tag_text(b, wire_type) =~= head + decimal(b) + tail);
    let text = tag_text(a, wire_type);
    assert(text.subrange(head.len() as int, text.len() - tail.len()) =~= decimal(a));
    assert(text.subrange(head.len() as int, text.len() - tail.len()) =~= decimal(b));
    if a < 0 {
        lemma_digits_not_empty(b as nat);
        assert(decimal(a)[0] == '-');
        assert(decimal(a).skip(1) =~= digits((-a) as nat));
    } else {
        lemma_digits_not_empty(a as nat);
    }
    if b < 0 {
        assert(decimal(b)[0] == '-');
        assert(decimal(b).skip(1) =~= digits((-b) as nat));
    }
    if a < 0 {
        lemma_digits_are_distinct((-a) as nat, (-b) as nat);
    } else {
        lemma_digits_are_distinct(a as nat, b as nat);
    }
}

/// Whether the lines of `part` stand in `lines` one after another.
pub open spec fn stands_in(part: Seq<PieceModel>, lines: Seq<PieceModel>) -> bool {
    exists|before: Seq<PieceModel>, after: Seq<PieceModel>| lines == #[trigger] (before + part + after)
}

proof fn lemma_stands_in_flatten(parts: Seq<Seq<PieceModel>>, i: int)
    requires
        0 <= i < parts.len(),
    ensures
        stands_in(parts[i], parts.flatten()),
    decreases parts.len(),
{
    let rest = parts.drop_first();
    if i == 0 {
        assert(parts.flatten() =~= Seq::<PieceModel>::empty() + parts[0] + rest.flatten());
    } else {
        lemma_stands_in_flatten(rest, i - 1);
        let (before, after) = choose|before: Seq<PieceModel>, after: Seq<PieceModel>|
            rest.flatten() == #[trigger] (before + parts[i] + after);
        assert(parts.flatten() =~= (parts[0] + before) + parts[i] + after);
    }
}

/// Every field is taken from the JSON input under its own name and under its JSON name.
pub proof fn law_json_is_read_under_both_names(generator: GeneratorModel, json_names: Seq<Seq<char>>, i: int)
    requires
        json_names.len() == generator.inner_fields().len(),
        0 <= i < json_names.len(),
    ensures
        ({
            let field = generator.inner_fields()[i];
            let lines = generator.json_decode_lines(json_names);
            &&& stands_in(generator.json_decode_block(field, field.name), lines)
            &&& stands_in(generator.json_decode_block(field, json_names[i]), lines)
        }),
{
    let field = generator.inner_fields()[i];
    let parts = Seq::new(
        generator.inner_fields().len(),
        |i: int| generator.json_decode_field_lines(generator.inner_fields()[i], json_names[i]),
    );
    lemma_stands_in_flatten(parts, i);
    let (before, after) = choose|before: Seq<PieceModel>, after: Seq<PieceModel>|
        parts.flatten() == #[trigger] (before + parts[i] + after);
    let own = generator.json_decode_block(field, field.name);
    let camel = generator.json_decode_block(field, json_names[i]);
    let lines = generator.json_decode_lines(json_names);
    if field.name == json_names[i] {
        assert(lines =~= before + own + after);
    } else {
        assert(lines =~= before + own + (camel + after));
        assert(lines =~= (before + own) + camel + after);
    }
}

/// A field that stands alone is taken from JSON under the name that it has when it is put
/// there.
pub proof fn law_json_is_read_under_the_name_it_is_written(generator: GeneratorModel)
    requires
        generator.kind is Single,
    ensures
        ({
            let field = generator.inner_fields()[0];
            let name = lower_camel_case_name(generator.name());
            let lines = generator.json_encode_lines(name);
            &&& lines[lines.len() - 2] matches PieceModel::Text { text, .. } && ("output."@ + name).is_prefix_of(text)
            &&& stands_in(
                generator.json_decode_block(field, name),
                generator.json_decode_lines(json_names(generator.inner_fields())),
            )
        }),
{
    let output = "output."@ + lower_camel_case_name(generator.name());
    let body = generator.json_encode_body(output);
    let text = body.last()->text;
    assert(text.subrange(0, output.len() as int) =~= output);
    law_json_is_read_under_both_names(generator, json_names(generator.inner_fields()), 0);
}

} // verus!
