use luau_fields::decode::decode_field;
use luau_fields::descriptor::FieldDescriptor;
use luau_fields::fields::{FieldGenerator, FieldKind};
use luau_fields::generator::{BaseFile, Export, ExportMap, FilePath, MapType};
use luau_fields::instructions::{
    decode_instruction_field_descriptor_ignore_repeated, encode_field_descriptor_ignore_repeated,
    json_decode_instruction_field_descriptor_ignore_repeated, json_encode_instruction_field_descriptor_ignore_repeated,
    type_definition_of_field_descriptor, wire_type_header, wire_type_of_field_descriptor, write_tag, WireType,
};
use luau_fields::string_builder::Piece;
use luau_fields::text::replace;
use prost_types::field_descriptor_proto::{Label, Type};
use std::path::Path;

fn field(name: &str, number: i32, label: Option<Label>, declared: Type, type_path: &str) -> FieldDescriptor {
    FieldDescriptor {
        name: Some(name.to_string()),
        number: Some(number),
        label: label.map(|label| label as i32),
        type_number: Some(declared as i32),
        type_path: if type_path.is_empty() { None } else { Some(type_path.to_string()) },
    }
}

fn export(file: &str, map: Option<MapType>) -> Export {
    Export {
        path: FilePath { components: vec![file.to_string()] },
        export_name: file.to_string(),
        prefix: String::new(),
        map,
    }
}

fn exports() -> ExportMap {
    let mut map = ExportMap::new();
    map.insert("game.Item".to_string(), export("items", None));
    map.insert("game.Color".to_string(), export("colors", None));
    map.insert(
        "game.Entry".to_string(),
        export(
            "items",
            Some(MapType {
                key: field("key", 1, None, Type::Int32, ""),
                value: field("value", 2, None, Type::Enum, ".game.Color"),
            }),
        ),
    );
    map
}

fn all_fields() -> Vec<FieldDescriptor> {
    let mut fields = Vec::new();
    for label in [None, Some(Label::Optional), Some(Label::Required), Some(Label::Repeated)] {
        for code in 1..=18 {
            let declared = Type::try_from(code).unwrap();
            match declared {
                Type::Group => {}
                Type::Enum => fields.push(field("some_name", code, label, declared, ".game.Color")),
                Type::Message => {
                    fields.push(field("some_name", code, label, declared, ".game.Item"));
                    fields.push(field("some_name", code, label, declared, ".game.Entry"));
                }
                _ => fields.push(field("some_name", code, label, declared, "")),
            }
        }
    }
    fields
}

fn single<'a>(field: &'a FieldDescriptor, map: &'a ExportMap, file: &'a BaseFile) -> FieldGenerator<'a> {
    FieldGenerator { field_kind: FieldKind::Single(field), export_map: map, base_file: file }
}

fn text(piece: &Piece) -> &str {
    match piece {
        Piece::Text { text, .. } => text.as_str(),
        Piece::Blank => "",
    }
}

fn is_balanced(pieces: &Vec<Piece>) -> bool {
    let mut level: i32 = 0;
    for piece in pieces {
        if text(piece).starts_with("if ") || text(piece).starts_with("for ") {
            level += 1;
        } else if text(piece) == "end" {
            level -= 1;
        }
        if level < 0 {
            return false;
        }
    }
    level == 0
}

#[test]
fn types_and_labels_are_those_of_the_descriptor_format() {
    for code in -2..25 {
        let f = FieldDescriptor {
            name: None,
            number: None,
            label: Some(code),
            type_number: Some(code),
            type_path: None,
        };
        let declared = Type::try_from(code).unwrap_or_default();
        assert_eq!(format!("{:?}", f.field_type()), format!("{declared:?}"));
        let label = Label::try_from(code).ok();
        assert_eq!(format!("{:?}", f.label()), format!("{label:?}"));
    }
}

#[test]
fn modules_are_paths_without_extension() {
    for name in ["a.proto", "a/b.proto", "a.b/c.d.proto", "a//b", "a/b/", ".x", "a/.x", "a/..", "", "a b/c.proto", "./a.proto", "./a/./b.c"] {
        let stem = Path::new(name).with_extension("");
        let components: Vec<String> = stem.iter().map(|part| part.to_str().unwrap().to_string()).collect();
        assert!(BaseFile::new(name).is_module(&FilePath { components }));
    }
}

#[test]
fn replacing_leaves_no_occurrence() {
    for s in ["cursor", "cursorcursor", "ccursorcursor, cur", "outputcursor"] {
        assert!(!replace(s, "cursor", "mapCursor").contains("cursor"));
    }
}

#[test]
fn entries_of_maps_are_kept_apart() {
    let map = exports();
    let file = BaseFile::new("items.proto");
    let entries = field("entries", 9, Some(Label::Repeated), Type::Message, ".game.Entry");
    let generator = single(&entries, &map, &file);
    let encode = generator.encode();
    for piece in &encode.pieces()[4..6] {
        assert!(!text(piece).contains("cursor"));
        assert!(!text(piece).contains("output"));
    }
    let decode = decode_field("self.entries", &entries, &map, &file, generator.map_type(), false);
    for piece in decode.pieces() {
        assert!(!text(piece).contains("value"));
    }
}

#[test]
fn tags_name_the_wire_type() {
    let map = exports();
    let file = BaseFile::new("items.proto");
    for f in all_fields() {
        let name = match wire_type_of_field_descriptor(&f) {
            WireType::Varint => "varint",
            WireType::LengthDelimited => "lengthDelimited",
            WireType::I32 => "i32",
            WireType::I64 => "i64",
        };
        let tag =
            format!("output, cursor = proto.writeTag(output, cursor, {}, proto.wireTypes.{name})", f.number());
        let text = encode_field_descriptor_ignore_repeated(&f, &map, &file, "v");
        let tags: Vec<&str> = text.split('\n').filter(|line| line.contains("proto.writeTag(")).collect();
        assert_eq!(tags, vec![tag.as_str()]);
        assert_eq!(text.matches("proto.writeTag(").count(), 1);
    }
    assert_ne!(write_tag(1, WireType::I32), write_tag(11, WireType::I32));
}

#[test]
fn values_are_read_once_and_as_written() {
    let map = exports();
    let file = BaseFile::new("items.proto");
    for f in all_fields() {
        let header = wire_type_header(wire_type_of_field_descriptor(&f)).to_string();
        let decode = decode_field("self.x", &f, &map, &file, None, false).build();
        assert_ne!(header.contains("proto.read"), decode.contains("proto.read"));
        assert_eq!(header.is_empty(), decode.contains("proto.read"));
        let lines: Vec<&str> = header.lines().chain(decode.lines()).collect();
        assert_eq!(lines.len(), 3);
        assert_eq!(lines[0], "local value");
        assert!(lines[1].starts_with("value, cursor = proto.read"));
        assert!(lines[2].contains("self.x"));
        let encode = encode_field_descriptor_ignore_repeated(&f, &map, &file, "v");
        let read = format!("{header}\n{decode}");
        for codec in ["VarInt", "Float", "Double", "Fixed32", "Fixed64"] {
            if encode.ends_with(")") && read.contains(&format!("proto.read{codec}(")) {
                assert!(encode.contains(&format!("proto.write{codec}(")));
            }
        }
        let zigzag = decode_instruction_field_descriptor_ignore_repeated(&f, &map, &file);
        assert_eq!(encode.contains("proto.encodeZigZag(v)"), zigzag == "proto.decodeZigZag(value)");
    }
}

#[test]
fn odd_names_do_not_look_like_calls() {
    let mut map = exports();
    map.insert("game.encodeZigZag".to_string(), export("proto", None));
    let file = BaseFile::new("items.proto");
    let odd = field("odd", 1, None, Type::Message, ".game.encodeZigZag");
    let text = encode_field_descriptor_ignore_repeated(&odd, &map, &file, "a\nb");
    assert!(text.contains("proto.encodeZigZag.encode(a\nb)"));
    assert!(!text.contains("proto.encodeZigZag(a\nb)"));
    assert_eq!(text.split('\n').filter(|line| line.contains("proto.writeTag(")).count(), 1);
}

#[test]
fn json_forms_go_both_ways() {
    let map = exports();
    let file = BaseFile::new("items.proto");
    for f in all_fields() {
        let written = json_encode_instruction_field_descriptor_ignore_repeated(&f, &map, &file, "v");
        let read = json_decode_instruction_field_descriptor_ignore_repeated(&f, &map, &file, "v");
        assert_eq!(written == "v", read == "v");
    }
}

#[test]
fn absent_fields_are_nil_and_defaults_are_not_written() {
    let map = exports();
    let file = BaseFile::new("items.proto");
    for f in all_fields() {
        let generator = single(&f, &map, &file);
        assert!(generator.can_generate() && generator.can_default());
        let may_be_absent = generator.type_definition() == generator.type_definition_no_presence() + "?";
        assert_eq!(may_be_absent, generator.default() == "nil");
        assert_eq!(may_be_absent, generator.json_type() == generator.type_definition());
        assert_eq!(may_be_absent, generator.should_encode() == "self.some_name ~= nil");
        if may_be_absent || generator.default() == "0" || generator.default() == "\"\"" {
            assert_eq!(generator.should_encode(), format!("self.some_name ~= {}", generator.default()));
        }
    }
}

#[test]
fn bytes_and_json_have_one_guard_and_closed_blocks() {
    let map = exports();
    let file = BaseFile::new("items.proto");
    let fields = all_fields();
    let mut generators: Vec<FieldGenerator> = fields.iter().map(|f| single(f, &map, &file)).collect();
    generators.push(FieldGenerator {
        field_kind: FieldKind::OneOf { name: "choice".to_string(), fields: fields.iter().take(16).collect() },
        export_map: &map,
        base_file: &file,
    });
    for generator in &generators {
        let encode = generator.encode();
        let json_encode = generator.json_encode();
        let json_decode = generator.json_decode();
        assert_eq!(text(&encode.pieces()[0]), format!("if {} then", generator.should_encode()));
        assert_eq!(text(&encode.pieces()[0]), text(&json_encode.pieces()[0]));
        assert_eq!(text(encode.pieces().last().unwrap()), "end");
        assert!(is_balanced(encode.pieces()));
        assert!(is_balanced(json_encode.pieces()));
        assert!(is_balanced(json_decode.pieces()));
        assert!(json_decode.build().contains("if input.some_name ~= nil then"));
        assert!(json_decode.build().contains("if input.someName ~= nil then"));
    }
}

#[test]
fn exported_names_end_in_the_type() {
    let map = exports();
    let color = field("c", 1, None, Type::Enum, ".game.Color");
    assert_eq!(type_definition_of_field_descriptor(&color, &map, &BaseFile::new("colors.proto")), "Color");
    assert_eq!(type_definition_of_field_descriptor(&color, &map, &BaseFile::new("items.proto")), "colors.Color");
}
