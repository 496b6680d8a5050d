use luau_fields::descriptor::FieldDescriptor;
use luau_fields::fields::{FieldGenerator, FieldKind};
use luau_fields::generator::{BaseFile, Export, ExportMap, FilePath, MapType};
use luau_fields::instructions::{
    can_name, type_definition_of_field_descriptor, wire_type_header, wire_type_of_field_descriptor, WireType,
};

const OPTIONAL: Option<i32> = Some(1);
const REQUIRED: Option<i32> = Some(2);
const REPEATED: Option<i32> = Some(3);

const DOUBLE: i32 = 1;
const FLOAT: i32 = 2;
const INT64: i32 = 3;
const UINT64: i32 = 4;
const INT32: i32 = 5;
const FIXED64: i32 = 6;
const FIXED32: i32 = 7;
const BOOL: i32 = 8;
const STRING: i32 = 9;
const GROUP: i32 = 10;
const MESSAGE: i32 = 11;
const BYTES: i32 = 12;
const UINT32: i32 = 13;
const ENUM: i32 = 14;
const SFIXED32: i32 = 15;
const SFIXED64: i32 = 16;
const SINT32: i32 = 17;
const SINT64: i32 = 18;

const NUMBERS: [i32; 12] = [
    DOUBLE, FLOAT, INT64, UINT64, INT32, FIXED64, FIXED32, UINT32, SFIXED32, SFIXED64, SINT32, SINT64,
];

fn field(name: &str, number: i32, label: Option<i32>, type_number: i32, type_path: &str) -> FieldDescriptor {
    FieldDescriptor {
        name: Some(name.to_string()),
        number: Some(number),
        label,
        type_number: Some(type_number),
        type_path: if type_path.is_empty() { None } else { Some(type_path.to_string()) },
    }
}

fn path(components: &[&str]) -> FilePath {
    FilePath { components: components.iter().map(|part| part.to_string()).collect() }
}

fn export(file: &[&str], export_name: &str, prefix: &str, map: Option<MapType>) -> Export {
    Export { path: path(file), export_name: export_name.to_string(), prefix: prefix.to_string(), map }
}

fn exports() -> ExportMap {
    let mut map = ExportMap::new();
    map.insert("game.Item".to_string(), export(&["game", "items"], "game_items", "", None));
    map.insert("game.Item.Kind".to_string(), export(&["game", "items"], "game_items", "Item_", None));
    map.insert("game.Color".to_string(), export(&["game", "colors"], "game_colors", "Palette_", None));
    map.insert(".Bare".to_string(), export(&["bare"], "bare", "", None));
    map.insert(
        "game.Item.PricesEntry".to_string(),
        export(
            &["game", "items"],
            "game_items",
            "Item_",
            Some(MapType {
                key: field("key", 1, OPTIONAL, STRING, ""),
                value: field("value", 2, OPTIONAL, ENUM, ".game.Color"),
            }),
        ),
    );
    map
}

fn single<'a>(field: &'a FieldDescriptor, map: &'a ExportMap, file: &'a BaseFile) -> FieldGenerator<'a> {
    FieldGenerator { field_kind: FieldKind::Single(field), export_map: map, base_file: file }
}

#[test]
fn numbers_are_numbers() {
    let map = exports();
    let file = BaseFile::new("game/items.proto");
    for type_number in NUMBERS {
        let f = field("count", 1, None, type_number, "");
        let generator = single(&f, &map, &file);
        assert!(generator.can_generate() && generator.can_default());
        assert_eq!(generator.type_definition(), "number");
        assert_eq!(generator.json_type(), "number?");
        assert_eq!(generator.default(), "0");
        assert_eq!(generator.should_encode(), "self.count ~= 0");
    }
}

#[test]
fn strings_booleans_and_bytes() {
    let map = exports();
    let file = BaseFile::new("game/items.proto");

    let text = field("title", 1, None, STRING, "");
    let generator = single(&text, &map, &file);
    assert_eq!(generator.type_definition(), "string");
    assert_eq!(generator.default(), "\"\"");
    assert_eq!(generator.should_encode(), "self.title ~= \"\"");

    let flag = field("open", 2, REQUIRED, BOOL, "");
    let generator = single(&flag, &map, &file);
    assert_eq!(generator.type_definition(), "boolean");
    assert_eq!(generator.default(), "false");
    assert_eq!(generator.should_encode(), "self.open");

    let data = field("blob", 3, None, BYTES, "");
    let generator = single(&data, &map, &file);
    assert_eq!(generator.type_definition(), "buffer");
    assert_eq!(generator.default(), "buffer.create(0)");
    assert_eq!(generator.should_encode(), "buffer.len(self.blob) > 0");
}

#[test]
fn types_are_qualified_outside_their_file() {
    let map = exports();
    let items = BaseFile::new("game/items.proto");
    let colors = BaseFile::new("game/colors.proto");
    let kind = field("kind", 1, None, ENUM, ".game.Item.Kind");
    assert_eq!(type_definition_of_field_descriptor(&kind, &map, &items), "Item_Kind");
    assert_eq!(type_definition_of_field_descriptor(&kind, &map, &colors), "game_items.Item_Kind");

    let color = field("color", 2, None, ENUM, ".game.Color");
    let generator = single(&color, &map, &items);
    assert_eq!(generator.type_definition(), "game_colors.Palette_Color");
    assert_eq!(generator.default(), "game_colors.Palette_Color.fromNumber(0)");
    assert_eq!(
        generator.should_encode(),
        "self.color ~= 0 or self.color ~= game_colors.Palette_Color.fromNumber(0)"
    );
}

#[test]
fn types_without_a_package_are_looked_up_with_a_dot() {
    let map = exports();
    let file = BaseFile::new("bare.proto");
    let bare = field("bare", 1, None, MESSAGE, ".Bare");
    assert!(can_name(&bare, &map));
    assert_eq!(type_definition_of_field_descriptor(&bare, &map, &file), "Bare");
}

#[test]
fn names_of_base_files() {
    let file = BaseFile::new("game/items.proto");
    assert_eq!(file.name(), "game/items.proto");
    assert!(file.is_module(&path(&["game", "items"])));
    assert!(!file.is_module(&path(&["game", "items.proto"])));
    assert!(!file.is_module(&path(&["items"])));
    assert!(BaseFile::new("items").is_module(&path(&["items"])));
    assert!(BaseFile::new("a.b.proto").is_module(&path(&["a.b"])));
    assert!(BaseFile::new("a.b/c.proto").is_module(&path(&["a.b", "c"])));
    assert!(BaseFile::new("a.b/c").is_module(&path(&["a.b", "c"])));
    assert!(BaseFile::new("a/.hidden").is_module(&path(&["a", ".hidden"])));
    assert!(BaseFile::new("a//b/./c.proto").is_module(&path(&["a", "b", "c"])));
    assert!(BaseFile::new("a/c.proto/").is_module(&path(&["a", "c"])));
    assert!(BaseFile::new("a/../c.proto").is_module(&path(&["a", "..", "c"])));
    assert!(BaseFile::new("trailing.").is_module(&path(&["trailing"])));
    assert!(BaseFile::new("./a/c.proto").is_module(&path(&[".", "a", "c"])));
    assert!(BaseFile::new(".//./c.proto").is_module(&path(&[".", "c"])));
    assert!(!BaseFile::new("./c.proto").is_module(&path(&["c"])));
    assert!(BaseFile::new(".").is_module(&path(&["."])));
    assert!(BaseFile::new("./.").is_module(&path(&["."])));
    assert!(BaseFile::new("a/..").is_module(&path(&["a", ".."])));
    assert!(BaseFile::new("../").is_module(&path(&[".."])));
    assert!(BaseFile::new("a/...x").is_module(&path(&["a", ".."])));
    assert!(BaseFile::new("..a.b").is_module(&path(&["..a"])));
    assert!(BaseFile::new("").is_module(&path(&[])));
}

#[test]
fn fields_that_may_be_absent() {
    let map = exports();
    let file = BaseFile::new("game/items.proto");
    let count = field("count", 1, OPTIONAL, INT32, "");
    let generator = single(&count, &map, &file);
    assert_eq!(generator.type_definition_no_presence(), "number");
    assert_eq!(generator.type_definition(), "number?");
    assert_eq!(generator.json_type(), "number?");
    assert_eq!(generator.default(), "nil");
    assert_eq!(generator.should_encode(), "self.count ~= nil");

    let item = field("item", 2, REQUIRED, MESSAGE, ".game.Item");
    let generator = single(&item, &map, &file);
    assert_eq!(generator.type_definition(), "Item?");
    assert_eq!(generator.default(), "nil");
}

#[test]
fn unknown_labels_and_types() {
    let map = exports();
    let file = BaseFile::new("game/items.proto");
    let odd = field("odd", 1, Some(99), 77, "");
    let generator = single(&odd, &map, &file);
    assert_eq!(generator.type_definition(), "number");
    assert_eq!(generator.default(), "0");
    assert!(matches!(wire_type_of_field_descriptor(&odd), WireType::I64));
    let empty = FieldDescriptor { name: None, number: None, label: None, type_number: None, type_path: None };
    assert_eq!(single(&empty, &map, &file).name(), "");
    assert_eq!(single(&odd, &map, &file).inner_fields()[0].label, Some(99));
    assert_eq!(empty.number(), 0);
    assert!(empty.label().is_none());
}

#[test]
fn repeated_fields() {
    let map = exports();
    let file = BaseFile::new("game/items.proto");
    let items = field("items", 4, REPEATED, MESSAGE, ".game.Item");
    let generator = single(&items, &map, &file);
    assert_eq!(generator.type_definition(), "{ Item }");
    assert_eq!(generator.json_type(), "{ Item }?");
    assert_eq!(generator.default(), "{}");
    assert_eq!(generator.should_encode(), "#self.items > 0");
}

#[test]
fn map_fields() {
    let map = exports();
    let file = BaseFile::new("game/items.proto");
    let prices = field("prices", 5, REPEATED, MESSAGE, ".game.Item.PricesEntry");
    let generator = single(&prices, &map, &file);
    let entries = generator.map_type().unwrap();
    assert_eq!(entries.key.name(), "key");
    assert_eq!(entries.value.type_path(), ".game.Color");
    assert_eq!(entries.value.type_number, Some(ENUM));
    assert_eq!(generator.type_definition(), "{ [string]: game_colors.Palette_Color }");
    assert_eq!(generator.default(), "{}");
    assert_eq!(generator.should_encode(), "next(self.prices) ~= nil");

    let alone = field("prices", 5, OPTIONAL, MESSAGE, ".game.Item.PricesEntry");
    let generator = single(&alone, &map, &file);
    assert_eq!(generator.type_definition(), "{ [string]: game_colors.Palette_Color }");
    assert_eq!(generator.default(), "Item_PricesEntry.new()");
}

#[test]
fn oneofs() {
    let map = exports();
    let file = BaseFile::new("game/items.proto");
    let count = field("count", 1, OPTIONAL, INT32, "");
    let item = field("item", 2, OPTIONAL, MESSAGE, ".game.Item");
    let generator = FieldGenerator {
        field_kind: FieldKind::OneOf { name: "choice".to_string(), fields: vec![&count, &item] },
        export_map: &map,
        base_file: &file,
    };
    assert!(generator.can_generate() && generator.can_default());
    assert_eq!(generator.name(), "choice");
    assert_eq!(generator.inner_fields().len(), 2);
    assert!(std::ptr::eq(generator.inner_fields()[0], &count));
    assert!(std::ptr::eq(generator.inner_fields()[1], &item));
    assert!(generator.map_type().is_none());
    assert_eq!(
        generator.type_definition(),
        "({ type: \"count\", value: number } | { type: \"item\", value: Item })?"
    );
    assert_eq!(generator.json_type(), "(number | Item)?");
    assert_eq!(generator.default(), "nil");
    assert_eq!(generator.should_encode(), "self.choice ~= nil");
}

#[test]
fn what_cannot_be_generated() {
    let map = exports();
    let file = BaseFile::new("game/items.proto");
    let relative = field("a", 1, None, ENUM, "game.Color");
    assert!(!single(&relative, &map, &file).can_generate());
    assert!(!single(&relative, &map, &file).can_default());
    let missing = field("b", 2, None, ENUM, ".game.Nothing");
    assert!(!single(&missing, &map, &file).can_generate());
    assert!(!single(&missing, &map, &file).can_default());
    let group = field("c", 3, OPTIONAL, GROUP, "");
    assert!(!single(&group, &map, &file).can_generate());
    assert!(single(&group, &map, &file).can_default());
    assert_eq!(single(&group, &map, &file).default(), "nil");
    let oneof = FieldGenerator {
        field_kind: FieldKind::OneOf { name: "choice".to_string(), fields: vec![&group] },
        export_map: &map,
        base_file: &file,
    };
    assert!(!oneof.can_generate());
    assert!(oneof.can_default());
}

#[test]
fn wire_types() {
    for type_number in [INT32, UINT32, INT64, UINT64, SINT32, SINT64, ENUM, BOOL] {
        let f = field("f", 1, None, type_number, "");
        assert!(matches!(wire_type_of_field_descriptor(&f), WireType::Varint));
    }
    for type_number in [FLOAT, FIXED32, SFIXED32] {
        let f = field("f", 1, None, type_number, "");
        assert!(matches!(wire_type_of_field_descriptor(&f), WireType::I32));
    }
    for type_number in [DOUBLE, FIXED64, SFIXED64] {
        let f = field("f", 1, None, type_number, "");
        assert!(matches!(wire_type_of_field_descriptor(&f), WireType::I64));
    }
    for type_number in [STRING, BYTES, MESSAGE] {
        let f = field("f", 1, None, type_number, "");
        assert!(matches!(wire_type_of_field_descriptor(&f), WireType::LengthDelimited));
    }
}

#[test]
fn wire_type_headers() {
    assert_eq!(
        wire_type_header(WireType::Varint),
        "local value\nvalue, cursor = proto.readVarInt(input, cursor)"
    );
    assert_eq!(
        wire_type_header(WireType::LengthDelimited),
        "local value\nvalue, cursor = proto.readBuffer(input, cursor)"
    );
    assert_eq!(wire_type_header(WireType::I32), "");
    assert_eq!(wire_type_header(WireType::I64), "");
}
