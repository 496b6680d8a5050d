use luau_fields::decode::decode_field;
use luau_fields::descriptor::FieldDescriptor;
use luau_fields::fields::{FieldGenerator, FieldKind};
use luau_fields::generator::{BaseFile, Export, ExportMap, FilePath, MapType};
use luau_fields::instructions::{
    decode_instruction_field_descriptor_ignore_repeated, encode_field_descriptor_ignore_repeated,
};

const DOUBLE: i32 = 1;
const FLOAT: i32 = 2;
const INT64: i32 = 3;
const UINT64: i32 = 4;
const INT32: i32 = 5;
const FIXED64: i32 = 6;
const FIXED32: i32 = 7;
const BOOL: i32 = 8;
const STRING: i32 = 9;
const MESSAGE: i32 = 11;
const BYTES: i32 = 12;
const UINT32: i32 = 13;
const ENUM: i32 = 14;
const SFIXED32: i32 = 15;
const SFIXED64: i32 = 16;
const SINT32: i32 = 17;
const SINT64: i32 = 18;

const OPTIONAL: Option<i32> = Some(1);
const REPEATED: Option<i32> = Some(3);

fn field(name: &str, number: i32, label: Option<i32>, type_number: i32, type_path: &str) -> FieldDescriptor {
    FieldDescriptor {
        name: Some(name.to_string()),
        number: Some(number),
        label,
        type_number: Some(type_number),
        type_path: if type_path.is_empty() { None } else { Some(type_path.to_string()) },
    }
}

fn export(file: &str, export_name: &str, map: Option<MapType>) -> Export {
    Export {
        path: FilePath { components: vec![file.to_string()] },
        export_name: export_name.to_string(),
        prefix: String::new(),
        map,
    }
}

fn exports() -> ExportMap {
    let mut map = ExportMap::new();
    map.insert("game.Item".to_string(), export("items", "items", None));
    map.insert("game.Color".to_string(), export("colors", "colors", None));
    map.insert(
        "game.Item.PricesEntry".to_string(),
        export(
            "items",
            "items",
            Some(MapType {
                key: field("key", 1, OPTIONAL, STRING, ""),
                value: field("value", 2, OPTIONAL, MESSAGE, ".game.Item"),
            }),
        ),
    );
    map.insert(
        "game.Item.RatesEntry".to_string(),
        export(
            "items",
            "items",
            Some(MapType {
                key: field("key", 1, OPTIONAL, SFIXED32, ""),
                value: field("value", 2, OPTIONAL, DOUBLE, ""),
            }),
        ),
    );
    map
}

fn single<'a>(field: &'a FieldDescriptor, map: &'a ExportMap, file: &'a BaseFile) -> FieldGenerator<'a> {
    FieldGenerator { field_kind: FieldKind::Single(field), export_map: map, base_file: file }
}

fn tag(number: i32, wire_type: &str) -> String {
    format!("output, cursor = proto.writeTag(output, cursor, {number}, proto.wireTypes.{wire_type})")
}

#[test]
fn values_of_every_type_are_written() {
    let map = exports();
    let file = BaseFile::new("items.proto");
    for (type_number, wire_type, call) in [
        (INT32, "varint", "writeVarInt(output, cursor, v)"),
        (UINT32, "varint", "writeVarInt(output, cursor, v)"),
        (INT64, "varint", "writeVarInt(output, cursor, v)"),
        (UINT64, "varint", "writeVarInt(output, cursor, v)"),
        (SINT32, "varint", "writeVarInt(output, cursor, proto.encodeZigZag(v))"),
        (SINT64, "varint", "writeVarInt(output, cursor, proto.encodeZigZag(v))"),
        (FLOAT, "i32", "writeFloat(output, cursor, v)"),
        (DOUBLE, "i64", "writeDouble(output, cursor, v)"),
        (STRING, "lengthDelimited", "writeString(output, cursor, v)"),
        (BOOL, "varint", "writeVarInt(output, cursor, if v then 1 else 0)"),
        (BYTES, "lengthDelimited", "writeBuffer(output, cursor, v)"),
        (FIXED32, "i32", "writeFixed32(output, cursor, v)"),
        (FIXED64, "i64", "writeFixed64(output, cursor, v)"),
        (SFIXED32, "i32", "writeFixed32(output, cursor, proto.encodeZigZag(v))"),
        (SFIXED64, "i64", "writeFixed64(output, cursor, proto.encodeZigZag(v))"),
    ] {
        let f = field("f", 12, None, type_number, "");
        assert_eq!(
            encode_field_descriptor_ignore_repeated(&f, &map, &file, "v"),
            format!("{}\noutput, cursor = proto.{call}", tag(12, wire_type))
        );
    }
    let color = field("color", 3, None, ENUM, ".game.Color");
    assert_eq!(
        encode_field_descriptor_ignore_repeated(&color, &map, &file, "v"),
        format!("{}\noutput, cursor = proto.writeVarInt(output, cursor, colors.Color.toNumber(v))", tag(3, "varint"))
    );
    let item = field("item", 4, None, MESSAGE, ".game.Item");
    assert_eq!(
        encode_field_descriptor_ignore_repeated(&item, &map, &file, "v"),
        format!(
            "local encoded = Item.encode(v)\n{}\n\
            output, cursor = proto.writeVarInt(output, cursor, buffer.len(encoded))\n\
            output, cursor = proto.writeBuffer(output, cursor, encoded)",
            tag(4, "lengthDelimited")
        )
    );
}

#[test]
fn a_single_value_is_written() {
    let map = exports();
    let file = BaseFile::new("items.proto");
    let count = field("count", 7, None, INT32, "");
    assert_eq!(
        single(&count, &map, &file).encode().build(),
        "if self.count ~= 0 then\n\
        output, cursor = proto.writeTag(output, cursor, 7, proto.wireTypes.varint)\n\
        output, cursor = proto.writeVarInt(output, cursor, self.count)\n\
        end"
    );
}

#[test]
fn repeated_values_are_written_in_a_loop() {
    let map = exports();
    let file = BaseFile::new("items.proto");
    let names = field("names", 2, REPEATED, STRING, "");
    assert_eq!(
        single(&names, &map, &file).encode().build(),
        "if #self.names > 0 then\n\
        for _, value: string in self.names do\n\
        \toutput, cursor = proto.writeTag(output, cursor, 2, proto.wireTypes.lengthDelimited)\n\
        \toutput, cursor = proto.writeString(output, cursor, value)\n\
        end\n\
        end"
    );
}

#[test]
fn map_entries_are_written_to_their_own_buffer() {
    let map = exports();
    let file = BaseFile::new("items.proto");
    let prices = field("prices", 5, REPEATED, MESSAGE, ".game.Item.PricesEntry");
    assert_eq!(
        single(&prices, &map, &file).encode().build(),
        "if next(self.prices) ~= nil then\n\
        for key: string, value: Item in self.prices do\n\
        local mapBuffer = buffer.create(0)\n\
        local mapCursor = 0\n\
        mapBuffer, mapCursor = proto.writeTag(mapBuffer, mapCursor, 1, proto.wireTypes.lengthDelimited)\n\
        mapBuffer, mapCursor = proto.writeString(mapBuffer, mapCursor, key)\n\
        local encoded = Item.encode(value)\n\
        mapBuffer, mapCursor = proto.writeTag(mapBuffer, mapCursor, 2, proto.wireTypes.lengthDelimited)\n\
        mapBuffer, mapCursor = proto.writeVarInt(mapBuffer, mapCursor, buffer.len(encoded))\n\
        mapBuffer, mapCursor = proto.writeBuffer(mapBuffer, mapCursor, encoded)\n\
        output, cursor = proto.writeTag(output, cursor, 5, proto.wireTypes.lengthDelimited)\n\
        output, cursor = proto.writeVarInt(output, cursor, buffer.len(mapBuffer))\n\
        output, cursor = proto.writeBuffer(output, cursor, mapBuffer)\n\
        end\n\
        end"
    );
}

#[test]
fn the_chosen_field_of_a_oneof_is_written() {
    let map = exports();
    let file = BaseFile::new("items.proto");
    let count = field("count", 1, OPTIONAL, INT32, "");
    let open = field("open", 2, OPTIONAL, BOOL, "");
    let generator = FieldGenerator {
        field_kind: FieldKind::OneOf { name: "choice".to_string(), fields: vec![&count, &open] },
        export_map: &map,
        base_file: &file,
    };
    assert_eq!(
        generator.encode().build(),
        "if self.choice ~= nil then\n\
        if self.choice.type == \"count\" then\n\
        \toutput, cursor = proto.writeTag(output, cursor, 1, proto.wireTypes.varint)\n\
        \toutput, cursor = proto.writeVarInt(output, cursor, self.choice.value)\n\
        elseif self.choice.type == \"open\" then\n\
        \toutput, cursor = proto.writeTag(output, cursor, 2, proto.wireTypes.varint)\n\
        \toutput, cursor = proto.writeVarInt(output, cursor, if self.choice.value then 1 else 0)\n\
        end\n\
        end"
    );
}

#[test]
fn values_of_every_type_are_read() {
    let map = exports();
    let file = BaseFile::new("items.proto");
    for (type_number, instruction) in [
        (INT32, "value"),
        (UINT32, "value"),
        (INT64, "value"),
        (UINT64, "value"),
        (FIXED32, "value"),
        (FIXED64, "value"),
        (FLOAT, "value"),
        (DOUBLE, "value"),
        (BYTES, "value"),
        (SINT32, "proto.decodeZigZag(value)"),
        (SINT64, "proto.decodeZigZag(value)"),
        (SFIXED32, "proto.decodeZigZag(value)"),
        (SFIXED64, "proto.decodeZigZag(value)"),
        (BOOL, "value ~= 0"),
        (STRING, "buffer.tostring(value)"),
    ] {
        let f = field("f", 1, None, type_number, "");
        assert_eq!(decode_instruction_field_descriptor_ignore_repeated(&f, &map, &file), instruction);
    }
    let color = field("color", 3, None, ENUM, ".game.Color");
    assert_eq!(
        decode_instruction_field_descriptor_ignore_repeated(&color, &map, &file),
        "colors.Color.fromNumber(value) or value"
    );
    let item = field("item", 4, None, MESSAGE, ".game.Item");
    assert_eq!(decode_instruction_field_descriptor_ignore_repeated(&item, &map, &file), "Item.decode(value)");
}

#[test]
fn fixed_width_values_are_read_by_their_type() {
    let map = exports();
    let file = BaseFile::new("items.proto");
    for (type_number, reader, value) in [
        (FLOAT, "readFloat", "value"),
        (DOUBLE, "readDouble", "value"),
        (FIXED32, "readFixed32", "value"),
        (FIXED64, "readFixed64", "value"),
        (SFIXED32, "readFixed32", "proto.decodeZigZag(value)"),
        (SFIXED64, "readFixed64", "proto.decodeZigZag(value)"),
    ] {
        let f = field("f", 1, None, type_number, "");
        assert_eq!(
            decode_field("self.f", &f, &map, &file, None, false).build(),
            format!("local value\nvalue, cursor = proto.{reader}(input, cursor)\nself.f = {value}")
        );
    }
}

#[test]
fn values_are_stored_by_kind() {
    let map = exports();
    let file = BaseFile::new("items.proto");
    let names = field("names", 2, REPEATED, STRING, "");
    assert_eq!(
        decode_field("self.names", &names, &map, &file, None, true).build(),
        "table.insert(self.names, buffer.tostring(value))"
    );
    let open = field("open", 2, OPTIONAL, BOOL, "");
    assert_eq!(
        decode_field("self.choice", &open, &map, &file, None, true).build(),
        "self.choice = { type = \"open\", value = value ~= 0 }"
    );
    assert_eq!(decode_field("self.open", &open, &map, &file, None, false).build(), "self.open = value ~= 0");
}

#[test]
fn map_entries_are_read_into_their_own_variables() {
    let map = exports();
    let file = BaseFile::new("items.proto");
    let prices = field("prices", 5, REPEATED, MESSAGE, ".game.Item.PricesEntry");
    let generator = single(&prices, &map, &file);
    assert_eq!(
        decode_field("self.prices", &prices, &map, &file, generator.map_type(), false).build(),
        "local mapKey: string\n\
        local mapValue: Item\n\
        \n\
        local readMapKey\n\
        readMapKey, cursor = proto.readBuffer(input, cursor)\n\
        mapKey = buffer.tostring(readMapKey)\n\
        \n\
        local readMapValue\n\
        readMapValue, cursor = proto.readBuffer(input, cursor)\n\
        mapValue = Item.decode(readMapValue)\n\
        \n\
        self.prices[mapKey] = mapValue"
    );
    let rates = field("rates", 6, REPEATED, MESSAGE, ".game.Item.RatesEntry");
    let generator = single(&rates, &map, &file);
    assert_eq!(
        decode_field("self.rates", &rates, &map, &file, generator.map_type(), false).build(),
        "local mapKey: number\n\
        local mapValue: number\n\
        \n\
        \n\
        local readMapKey\n\
        readMapKey, cursor = proto.readFixed32(input, cursor)\n\
        mapKey = proto.decodeZigZag(readMapKey)\n\
        \n\
        \n\
        local readMapValue\n\
        readMapValue, cursor = proto.readDouble(input, cursor)\n\
        mapValue = readMapValue\n\
        \n\
        self.rates[mapKey] = mapValue"
    );
}
