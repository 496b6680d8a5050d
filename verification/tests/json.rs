use luau_fields::descriptor::FieldDescriptor;
use luau_fields::fields::{FieldGenerator, FieldKind};
use luau_fields::generator::{BaseFile, Export, ExportMap, FilePath, MapType};
use luau_fields::instructions::{
    json_decode_instruction_field_descriptor_ignore_repeated, json_encode_instruction_field_descriptor_ignore_repeated,
};

const DOUBLE: i32 = 1;
const FLOAT: i32 = 2;
const INT64: i32 = 3;
const UINT64: i32 = 4;
const INT32: i32 = 5;
const FIXED64: i32 = 6;
const FIXED32: i32 = 7;
const BOOL: i32 = 8;
const STRING: i32 = 9;
const MESSAGE: i32 = 11;
const BYTES: i32 = 12;
const UINT32: i32 = 13;
const ENUM: i32 = 14;
const SFIXED32: i32 = 15;
const SFIXED64: i32 = 16;
const SINT32: i32 = 17;
const SINT64: i32 = 18;

const OPTIONAL: Option<i32> = Some(1);
const REPEATED: Option<i32> = Some(3);

fn field(name: &str, number: i32, label: Option<i32>, type_number: i32, type_path: &str) -> FieldDescriptor {
    FieldDescriptor {
        name: Some(name.to_string()),
        number: Some(number),
        label,
        type_number: Some(type_number),
        type_path: if type_path.is_empty() { None } else { Some(type_path.to_string()) },
    }
}

fn export(file: &str, export_name: &str, map: Option<MapType>) -> Export {
    Export {
        path: FilePath { components: vec![file.to_string()] },
        export_name: export_name.to_string(),
        prefix: String::new(),
        map,
    }
}

fn exports() -> ExportMap {
    let mut map = ExportMap::new();
    map.insert("game.Item".to_string(), export("items", "items", None));
    map.insert("game.Color".to_string(), export("colors", "colors", None));
    map.insert(
        "game.Item.PricesEntry".to_string(),
        export(
            "items",
            "items",
            Some(MapType {
                key: field("key", 1, OPTIONAL, STRING, ""),
                value: field("value", 2, OPTIONAL, MESSAGE, ".game.Item"),
            }),
        ),
    );
    map.insert(
        "game.Item.RatesEntry".to_string(),
        export(
            "items",
            "items",
            Some(MapType {
                key: field("key", 1, OPTIONAL, SFIXED32, ""),
                value: field("value", 2, OPTIONAL, DOUBLE, ""),
            }),
        ),
    );
    map
}

fn single<'a>(field: &'a FieldDescriptor, map: &'a ExportMap, file: &'a BaseFile) -> FieldGenerator<'a> {
    FieldGenerator { field_kind: FieldKind::Single(field), export_map: map, base_file: file }
}

#[test]
fn json_forms_of_every_type() {
    let map = exports();
    let file = BaseFile::new("items.proto");
    for type_number in [
        INT32, INT64, UINT32, UINT64, FIXED32, FIXED64, SINT32, SINT64, SFIXED32, SFIXED64, BOOL, STRING,
    ] {
        let f = field("f", 1, None, type_number, "");
        assert_eq!(json_encode_instruction_field_descriptor_ignore_repeated(&f, &map, &file, "v"), "v");
        assert_eq!(json_decode_instruction_field_descriptor_ignore_repeated(&f, &map, &file, "v"), "v");
    }
    for (type_number, type_path, encoded, decoded) in [
        (FLOAT, "", "proto.json.serializeNumber(v)", "proto.json.deserializeNumber(v)"),
        (DOUBLE, "", "proto.json.serializeNumber(v)", "proto.json.deserializeNumber(v)"),
        (BYTES, "", "proto.json.serializeBuffer(v)", "proto.json.deserializeBuffer(v)"),
        (
            ENUM,
            ".game.Color",
            "if typeof(v) == \"number\" then v else colors.Color.toNumber(v)",
            "if typeof(v) == \"number\" then (colors.Color.fromNumber(v) or v) \
            else (colors.Color.fromName(v) or v)",
        ),
        (MESSAGE, ".game.Item", "Item.jsonEncode(v)", "Item.jsonDecode(v)"),
    ] {
        let f = field("f", 1, None, type_number, type_path);
        assert_eq!(json_encode_instruction_field_descriptor_ignore_repeated(&f, &map, &file, "v"), encoded);
        assert_eq!(json_decode_instruction_field_descriptor_ignore_repeated(&f, &map, &file, "v"), decoded);
    }
}

#[test]
fn json_names_are_in_lower_camel_case() {
    let map = exports();
    let file = BaseFile::new("items.proto");
    let count = field("item_count", 1, None, DOUBLE, "");
    let generator = single(&count, &map, &file);
    assert_eq!(
        generator.json_encode().build(),
        "if self.item_count ~= 0 then\n\
        output.itemCount = proto.json.serializeNumber(self.item_count)\n\
        end"
    );
    assert_eq!(generator.json_encode_as("n").build(), generator.json_encode().build().replace("itemCount", "n"));
    assert_eq!(
        generator.json_decode().build(),
        "if input.item_count ~= nil then\n\
        self.item_count = proto.json.deserializeNumber(input.item_count)\n\
        end\n\
        \n\
        if input.itemCount ~= nil then\n\
        self.item_count = proto.json.deserializeNumber(input.itemCount)\n\
        end\n"
    );
}

#[test]
fn a_name_in_lower_camel_case_is_read_once() {
    let map = exports();
    let file = BaseFile::new("items.proto");
    let count = field("count", 1, None, INT32, "");
    let generator = single(&count, &map, &file);
    assert_eq!(
        generator.json_decode().build(),
        "if input.count ~= nil then\nself.count = input.count\nend\n"
    );
    assert_eq!(
        generator.json_decode_as(&vec!["total".to_string()]).build(),
        "if input.count ~= nil then\nself.count = input.count\nend\n\n\
        if input.total ~= nil then\nself.count = input.total\nend\n"
    );
}

#[test]
fn repeated_values_in_json() {
    let map = exports();
    let file = BaseFile::new("items.proto");
    let items = field("items", 4, REPEATED, MESSAGE, ".game.Item");
    let generator = single(&items, &map, &file);
    assert_eq!(
        generator.json_encode().build(),
        "if #self.items > 0 then\n\
        local newOutput: { Item } = {}\n\
        for _, value: Item in self.items do\n\
        table.insert(newOutput, Item.jsonEncode(value))\n\
        end\n\
        output.items = newOutput\n\
        end"
    );
    assert_eq!(
        generator.json_decode().build(),
        "if input.items ~= nil then\n\
        local newOutput: { Item } = {}\n\
        for _, value: Item in input.items do\n\
        table.insert(newOutput, Item.jsonDecode(value))\n\
        end\n\
        \n\
        self.items = newOutput\n\
        end\n"
    );
}

#[test]
fn maps_in_json() {
    let map = exports();
    let file = BaseFile::new("items.proto");
    let prices = field("base_prices", 5, REPEATED, MESSAGE, ".game.Item.PricesEntry");
    let generator = single(&prices, &map, &file);
    assert_eq!(
        generator.json_encode().build(),
        "if next(self.base_prices) ~= nil then\n\
        local newOutput: { [string]: Item } = {}\n\
        for key: string, value: Item in self.base_prices do\n\
        newOutput[key] = Item.jsonEncode(value)\n\
        end\n\
        output.basePrices = newOutput\n\
        end"
    );
    let block = "if input.base_prices ~= nil then\n\
        local newOutput: { [string]: Item } = {}\n\
        for key, value in input.base_prices do\n\
        newOutput[key] = Item.jsonDecode(value)\n\
        end\n\
        \n\
        self.base_prices = newOutput\n\
        end\n";
    let camel = block.replace("input.base_prices", "input.basePrices");
    assert_eq!(generator.json_decode().build(), format!("{block}\n{camel}"));
}

#[test]
fn oneofs_in_json() {
    let map = exports();
    let file = BaseFile::new("items.proto");
    let count = field("count", 1, OPTIONAL, INT32, "");
    let data = field("raw_data", 2, OPTIONAL, BYTES, "");
    let generator = FieldGenerator {
        field_kind: FieldKind::OneOf { name: "my_choice".to_string(), fields: vec![&count, &data] },
        export_map: &map,
        base_file: &file,
    };
    assert_eq!(
        generator.json_encode().build(),
        "if self.my_choice ~= nil then\n\
        if self.my_choice.type == \"count\" then\n\
        \toutput.myChoice = self.my_choice.value\n\
        elseif self.my_choice.type == \"raw_data\" then\n\
        \toutput.myChoice = proto.json.serializeBuffer(self.my_choice.value)\n\
        end\n\
        end"
    );
    assert_eq!(
        generator.json_decode().build(),
        "if input.count ~= nil then\n\
        self.my_choice = { type = \"count\", value = input.count }\n\
        end\n\
        \n\
        if input.raw_data ~= nil then\n\
        self.my_choice = { type = \"raw_data\", value = proto.json.deserializeBuffer(input.raw_data) }\n\
        end\n\
        \n\
        if input.rawData ~= nil then\n\
        self.my_choice = { type = \"raw_data\", value = proto.json.deserializeBuffer(input.rawData) }\n\
        end\n"
    );
}

#[test]
fn an_empty_oneof_has_no_branches() {
    let map = exports();
    let file = BaseFile::new("items.proto");
    let generator = FieldGenerator {
        field_kind: FieldKind::OneOf { name: "choice".to_string(), fields: vec![] },
        export_map: &map,
        base_file: &file,
    };
    assert_eq!(generator.json_encode().build(), "if self.choice ~= nil then\nend");
    assert_eq!(generator.encode().build(), "if self.choice ~= nil then\nend");
    assert_eq!(generator.json_decode().build(), "");
    assert_eq!(generator.type_definition(), "()?");
}
