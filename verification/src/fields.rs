//! Generators for the fields of a message.
use crate::descriptor::{FieldDescriptor, FieldModel, FieldType, Label};
use crate::generator::{map_view, BaseFile, ExportMap, MapModel, MapType};
use crate::if_builder::{if_statement, BranchModel, IfBuilder};
use crate::instructions::{
    absolute, encode_text, nameable, scope_of, tag_text, value_type, write_text, Scope,
};
use crate::instructions::{
    can_name, encode_field_descriptor_ignore_repeated, type_definition_of_field_descriptor, write_tag, write_value, WireType,
};
use crate::string_builder::{line, PieceModel, StringBuilder};
use crate::text::{chars_of, join, joined, push_chars, replace, replaced, texts};
use std::borrow::Cow;
use vstd::pervasive::unreached;
use vstd::prelude::*;

verus! {

/// What a generator is for: a field that stands alone, or the fields of a oneof.
#[derive(Debug)]
pub enum FieldKind<'a> {
    Single(&'a FieldDescriptor),
    OneOf { name: String, fields: Vec<&'a FieldDescriptor> },
}

/// What a generator is for: a field that stands alone, or the fields of a oneof.
pub enum KindModel {
    Single(FieldModel),
    OneOf { name: Seq<char>, fields: Seq<FieldModel> },
}

/// What borrowed field descriptors say.
pub open spec fn field_models(fields: Seq<&FieldDescriptor>) -> Seq<FieldModel> {
    fields.map_values(|field: &FieldDescriptor| field@)
}

impl View for FieldKind<'_> {
    type V = KindModel;

    open spec fn view(&self) -> KindModel {
        match *self {
            FieldKind::Single(field) => KindModel::Single(field@),
            FieldKind::OneOf { name, fields } => KindModel::OneOf { name: name@, fields: field_models(fields@) },
        }
    }
}

/// Generates the code for one field, or one oneof, of a message.
pub struct FieldGenerator<'a> {
    pub field_kind: FieldKind<'a>,
    pub export_map: &'a ExportMap,
    pub base_file: &'a BaseFile,
}

/// What a generator knows: what it is for, and where type names are looked up.
pub struct GeneratorModel {
    pub kind: KindModel,
    pub scope: Scope,
}

impl View for FieldGenerator<'_> {
    type V = GeneratorModel;

    open spec fn view(&self) -> GeneratorModel {
        GeneratorModel { kind: self.field_kind@, scope: scope_of(self.export_map, self.base_file) }
    }
}

/// The entries of the map that a field is, if its type path leads to such a type.
pub open spec fn map_of(field: FieldModel, scope: Scope) -> Option<MapModel> {
    let name = field.type_path.skip(1);
    if field.type_path.len() > 0 && scope.exports.contains_key(name) {
        scope.exports[name].map
    } else {
        None
    }
}

/// One variant of the type of a oneof.
pub open spec fn variant_text(field: FieldModel, scope: Scope) -> Seq<char> {
    "{ type: \""@ + field.name + "\", value: "@ + value_type(field, scope) + " }"@
}

/// The statements that write one part of a map entry, to the buffer of the entry.
pub open spec fn encode_part_text(field: FieldModel, scope: Scope, value_var: Seq<char>) -> Seq<char> {
    replaced(
        replaced(encode_text(field, scope, value_var), "cursor"@, "mapCursor"@),
        "output"@,
        "mapBuffer"@,
    )
}

impl GeneratorModel {
    /// Whether it can be told if the field is a map: a type path is absolute, or there
    /// is none.
    pub open spec fn map_known(self) -> bool {
        match self.kind {
            KindModel::Single(field) => field.type_path.len() == 0 || absolute(field.type_path),
            KindModel::OneOf { .. } => true,
        }
    }

    /// The entries of the map that the field is, if it is one.
    pub open spec fn map_type(self) -> Option<MapModel> {
        match self.kind {
            KindModel::Single(field) => map_of(field, self.scope),
            KindModel::OneOf { .. } => None,
        }
    }

    /// Whether the field may be absent: a oneof may, and so may a field that is neither
    /// a map nor repeated and is marked as optional or holds a message.
    pub open spec fn has_presence(self) -> bool {
        match self.kind {
            KindModel::Single(field) => {
                &&& self.map_type() is None
                &&& !field.repeated()
                &&& field.label == Some(Label::Optional) || field.field_type == FieldType::Message
            },
            KindModel::OneOf { .. } => true,
        }
    }

    /// The name of the field or of the oneof.
    pub open spec fn name(self) -> Seq<char> {
        match self.kind {
            KindModel::Single(field) => field.name,
            KindModel::OneOf { name, .. } => name,
        }
    }

    /// The expression for the field in a message.
    pub open spec fn this(self) -> Seq<char> {
        "self."@ + self.name()
    }

    /// The fields that the generator is for.
    pub open spec fn inner_fields(self) -> Seq<FieldModel> {
        match self.kind {
            KindModel::Single(field) => seq![field],
            KindModel::OneOf { fields, .. } => fields,
        }
    }

    /// Whether the types can be named that the code for the field speaks of.
    pub open spec fn generatable(self) -> bool {
        &&& self.map_known()
        &&& match self.map_type() {
            Some(map) => nameable(map.key, self.scope) && nameable(map.value, self.scope),
            None => forall|i: int|
                0 <= i < self.inner_fields().len() ==> nameable(#[trigger] self.inner_fields()[i], self.scope),
        }
    }

    /// The Luau type of the field when it is present.
    pub open spec fn present_type(self) -> Seq<char> {
        match self.kind {
            KindModel::Single(field) => match self.map_type() {
                Some(map) => "{ ["@ + value_type(map.key, self.scope) + "]: "@ + value_type(map.value, self.scope)
                    + " }"@,
                None => if field.repeated() {
                    "{ "@ + value_type(field, self.scope) + " }"@
                } else {
                    value_type(field, self.scope)
                },
            },
            KindModel::OneOf { fields, .. } => "("@ + joined(
                fields.map_values(|field: FieldModel| variant_text(field, self.scope)),
                " | "@,
            ) + ")"@,
        }
    }

    /// The Luau type of the field.
    pub open spec fn full_type(self) -> Seq<char> {
        if self.has_presence() {
            self.present_type() + "?"@
        } else {
            self.present_type()
        }
    }

    /// The Luau type of the JSON form of the field, in which nothing need be present.
    pub open spec fn json_type(self) -> Seq<char> {
        match self.kind {
            KindModel::Single(_) => self.present_type() + "?"@,
            KindModel::OneOf { fields, .. } => "("@ + joined(
                fields.map_values(|field: FieldModel| value_type(field, self.scope)),
                " | "@,
            ) + ")?"@,
        }
    }

    /// Whether the condition under which the field is written can be generated: a field
    /// that is always present, and one value, is not a group and its enum can be named.
    pub open spec fn guardable(self) -> bool {
        &&& self.map_known()
        &&& self.has_presence() || self.map_type() is Some || {
            let field = self.inner_fields()[0];
            field.repeated() || nameable(field, self.scope)
        }
    }

    /// The condition under which the field is written: it is not its default.
    pub open spec fn guard(self) -> Seq<char> {
        let field = self.inner_fields()[0];
        if self.has_presence() {
            self.this() + " ~= nil"@
        } else if self.map_type() is Some {
            "next("@ + self.this() + ") ~= nil"@
        } else if field.repeated() {
            "#"@ + self.this() + " > 0"@
        } else if field.field_type.is_number() {
            self.this() + " ~= 0"@
        } else {
            match field.field_type {
                FieldType::String => self.this() + " ~= \"\""@,
                FieldType::Bool => self.this(),
                FieldType::Bytes => "buffer.len("@ + self.this() + ") > 0"@,
                _ => self.this() + " ~= 0 or "@ + self.this() + " ~= "@ + value_type(field, self.scope)
                    + ".fromNumber(0)"@,
            }
        }
    }

    /// Whether there is a default: a field that is always present and not repeated has
    /// one if its type can be named.
    pub open spec fn has_default(self) -> bool {
        &&& self.map_known()
        &&& self.has_presence() || {
            let field = self.inner_fields()[0];
            field.repeated() || nameable(field, self.scope)
        }
    }

    /// The expression for the value of a field that was not set.
    pub open spec fn default_text(self) -> Seq<char> {
        let field = self.inner_fields()[0];
        if self.has_presence() {
            "nil"@
        } else if field.repeated() {
            "{}"@
        } else if field.field_type.is_number() {
            "0"@
        } else {
            match field.field_type {
                FieldType::String => "\"\""@,
                FieldType::Bool => "false"@,
                FieldType::Bytes => "buffer.create(0)"@,
                FieldType::Enum => value_type(field, self.scope) + ".fromNumber(0)"@,
                _ => value_type(field, self.scope) + ".new()"@,
            }
        }
    }

    /// The header of a loop over the entries of the map that the field is.
    pub open spec fn map_loop(self, map: MapModel) -> Seq<char> {
        "for key: "@ + value_type(map.key, self.scope) + ", value: "@ + value_type(map.value, self.scope) + " in "@
            + self.this() + " do"@
    }

    /// The statements that write one map, entry by entry. An entry is a message with the
    /// key and the value as its fields.
    pub open spec fn encode_map_lines(self, number: int, map: MapModel) -> Seq<PieceModel> {
        seq![
            line(self.map_loop(map)),
            line("local mapBuffer = buffer.create(0)"@),
            line("local mapCursor = 0"@),
            line(encode_part_text(map.key, self.scope, "key"@)),
            line(encode_part_text(map.value, self.scope, "value"@)),
            line(tag_text(number, WireType::LengthDelimited)),
            line(write_text("VarInt"@, "buffer.len(mapBuffer)"@)),
            line(write_text("Buffer"@, "mapBuffer"@)),
            line("end"@),
        ]
    }

    /// The branch of a oneof for one of its fields.
    pub open spec fn encode_branch(self, field: FieldModel) -> BranchModel {
        BranchModel {
            condition: self.this() + ".type == \""@ + field.name + "\""@,
            statement: encode_text(field, self.scope, self.this() + ".value"@),
        }
    }

    /// The statements that write the field, which is not its default.
    pub open spec fn encode_body(self) -> Seq<PieceModel> {
        match self.kind {
            KindModel::Single(field) => match self.map_type() {
                Some(map) => self.encode_map_lines(field.number, map),
                None => if field.repeated() {
                    seq![
                        line("for _, value: "@ + value_type(field, self.scope) + " in "@ + self.this() + " do"@),
                        PieceModel::Text { depth: 1, text: encode_text(field, self.scope, "value"@) },
                        line("end"@),
                    ]
                } else {
                    seq![line(encode_text(field, self.scope, self.this()))]
                },
            },
            KindModel::OneOf { fields, .. } => if_statement(
                fields.map_values(|field: FieldModel| self.encode_branch(field)),
            ),
        }
    }

    /// Statements that run only where the field is not its default.
    pub open spec fn guarded(self, body: Seq<PieceModel>) -> Seq<PieceModel> {
        seq![line("if "@ + self.guard() + " then"@)] + body + seq![line("end"@)]
    }

    /// The statements that write the field.
    pub open spec fn encode_lines(self) -> Seq<PieceModel> {
        self.guarded(self.encode_body())
    }
}

impl<'a> FieldGenerator<'a> {
    /// The descriptors that the generator was given.
    pub open spec fn descriptors(&self) -> Seq<&'a FieldDescriptor> {
        match self.field_kind {
            FieldKind::Single(field) => seq![field],
            FieldKind::OneOf { fields, .. } => fields@,
        }
    }

    /// The map type that is stored for the type of the field, if there is one.
    pub open spec fn stored_map_type(&self) -> Option<MapType> {
        match self.field_kind {
            FieldKind::Single(field) => {
                let name = field@.type_path.skip(1);
                if field@.type_path.len() > 0 && self.export_map.stored().contains_key(name) {
                    self.export_map.stored()[name].map
                } else {
                    None
                }
            },
            FieldKind::OneOf { .. } => None,
        }
    }
}

impl FieldGenerator<'_> {
    /// Whether the field may be absent.
    fn has_presence(&self) -> (res: bool)
        requires
            self@.map_known(),
        ensures
            res == self@.has_presence(),
    {
        match &self.field_kind {
            FieldKind::Single(field) => {
                if self.map_type().is_some() {
                    return false;
                }
                match field.label() {
                    Some(Label::Repeated) => false,
                    Some(Label::Optional) => true,
                    _ => matches!(field.field_type(), FieldType::Message),
                }
            },
            FieldKind::OneOf { .. } => true,
        }
    }

    /// Whether it can be told if the field is a map.
    fn knows_map(&self) -> (res: bool)
        ensures
            res == self@.map_known(),
    {
        match &self.field_kind {
            FieldKind::Single(field) => {
                let type_path = chars_of(field.type_path());
                type_path.len() == 0 || type_path[0] == '.'
            },
            FieldKind::OneOf { .. } => true,
        }
    }

    /// Whether the types can be named that the code for the field speaks of.
    pub fn can_generate(&self) -> (res: bool)
        ensures
            res == self@.generatable(),
    {
        if !self.knows_map() {
            return false;
        }
        if let Some(map_type) = self.map_type() {
            return can_name(&map_type.key, self.export_map) && can_name(&map_type.value, self.export_map);
        }
        let fields = self.inner_fields();
        let ghost models = self@.inner_fields();
        let mut i: usize = 0;
        while i < fields.len()
            invariant
                i <= fields@.len(),
                self@.map_type() is None,
                models == self@.inner_fields(),
                models == field_models(fields@),
                forall|j: int| 0 <= j < i ==> nameable(#[trigger] models[j], self@.scope),
            decreases fields@.len() - i,
        {
            assert(models[i as int] == fields@[i as int]@);
            if !can_name(fields[i], self.export_map) {
                assert(!nameable(self@.inner_fields()[i as int], self@.scope));
                return false;
            }
            i += 1;
        }
        true
    }

    /// Whether the field has a default.
    pub fn can_default(&self) -> (res: bool)
        ensures
            res == self@.has_default(),
    {
        if !self.knows_map() {
            return false;
        }
        if self.has_presence() {
            return true;
        }
        match &self.field_kind {
            FieldKind::Single(field) => {
                assert(self@.inner_fields()[0] == field@);
                field.is_repeated() || can_name(field, self.export_map)
            },
            FieldKind::OneOf { .. } => true,
        }
    }

    /// The name of the field or of the oneof.
    pub fn name(&self) -> (res: &str)
        ensures
            res@ == self@.name(),
    {
        match &self.field_kind {
            FieldKind::Single(field) => field.name(),
            FieldKind::OneOf { name, .. } => name.as_str(),
        }
    }

    /// The entries of the map that the field is, if it is one.
    pub fn map_type(&self) -> (res: Option<&MapType>)
        requires
            self@.map_known(),
        ensures
            match res {
                Some(map_type) => self.stored_map_type() == Some(*map_type),
                None => self.stored_map_type() is None,
            },
            map_view(res) == self@.map_type(),
    {
        match &self.field_kind {
            FieldKind::Single(field) => {
                let type_path = chars_of(field.type_path());
                if type_path.len() == 0 {
                    return None;
                }
                let mut name = String::new();
                push_chars(&mut name, &type_path, 1, type_path.len());
                assert(name@ =~= field@.type_path.skip(1));
                match self.export_map.get(name.as_str()) {
                    Some(export) => export.map.as_ref(),
                    None => None,
                }
            },
            FieldKind::OneOf { .. } => None,
        }
    }

    /// The fields that the generator is for.
    pub fn inner_fields(&self) -> (res: Vec<&FieldDescriptor>)
        ensures
            res@ == self.descriptors(),
            field_models(res@) == self@.inner_fields(),
    {
        let mut res: Vec<&FieldDescriptor> = Vec::new();
        match &self.field_kind {
            FieldKind::Single(field) => {
                res.push(field);
            },
            FieldKind::OneOf { fields, .. } => {
                let mut i: usize = 0;
                while i < fields.len()
                    invariant
                        i <= fields@.len(),
                        res@ == fields@.take(i as int),
                    decreases fields@.len() - i,
                {
                    res.push(fields[i]);
                    i += 1;
                }
            },
        }
        assert(field_models(res@) =~= self@.inner_fields());
        res
    }

    /// The Luau type of the field when it is present.
    pub fn type_definition_no_presence(&self) -> (res: String)
        requires
            self@.generatable(),
        ensures
            res@ == self@.present_type(),
    {
        match &self.field_kind {
            FieldKind::Single(field) => {
                if let Some(map_type) = self.map_type() {
                    "{ [".to_owned().concat(
                        type_definition_of_field_descriptor(&map_type.key, self.export_map, self.base_file).as_str(),
                    ).concat("]: ").concat(
                        type_definition_of_field_descriptor(&map_type.value, self.export_map, self.base_file).as_str(),
                    ).concat(" }")
                } else {
                    assert(self@.inner_fields()[0] == field@);
                    let definition = type_definition_of_field_descriptor(field, self.export_map, self.base_file);
                    if field.is_repeated() {
                        "{ ".to_owned().concat(definition.as_str()).concat(" }")
                    } else {
                        definition
                    }
                }
            },
            FieldKind::OneOf { fields, .. } => {
                let ghost models = field_models(fields@);
                let ghost scope = self@.scope;
                let ghost all = models.map_values(|field: FieldModel| variant_text(field, scope));
                assert(self@.inner_fields() == models);
                let mut variants: Vec<String> = Vec::new();
                let mut i: usize = 0;
                while i < fields.len()
                    invariant
                        i <= fields@.len(),
                        scope == scope_of(self.export_map, self.base_file),
                        models == field_models(fields@),
                        forall|j: int| 0 <= j < models.len() ==> nameable(#[trigger] models[j], scope),
                        all == models.map_values(|field: FieldModel| variant_text(field, scope)),
                        texts(variants@) == all.take(i as int),
                    decreases fields@.len() - i,
                {
                    let field = fields[i];
                    assert(models[i as int] == field@);
                    let variant = "{ type: \"".to_owned().concat(field.name()).concat("\", value: ").concat(
                        type_definition_of_field_descriptor(field, self.export_map, self.base_file).as_str(),
                    ).concat(" }");
                    proof {
                        assert(all[i as int] == variant@);
                        assert(all.take(i + 1) =~= all.take(i as int).push(variant@));
                        assert(texts(variants@.push(variant)) =~= texts(variants@).push(variant@));
                    }
                    variants.push(variant);
                    i += 1;
                }
                assert(all.take(i as int) =~= all);
                "(".to_owned().concat(join(&variants, " | ").as_str()).concat(")")
            },
        }
    }

    /// The Luau type of the field.
    pub fn type_definition(&self) -> (res: String)
        requires
            self@.generatable(),
        ensures
            res@ == self@.full_type(),
    {
        let definition = self.type_definition_no_presence();
        if self.has_presence() {
            definition.concat("?")
        } else {
            definition
        }
    }

    /// The Luau type of the JSON form of the field.
    pub fn json_type(&self) -> (res: String)
        requires
            self@.generatable(),
        ensures
            res@ == self@.json_type(),
    {
        match &self.field_kind {
            FieldKind::Single(_) => self.type_definition_no_presence().concat("?"),
            FieldKind::OneOf { fields, .. } => {
                let ghost models = field_models(fields@);
                let ghost scope = self@.scope;
                let ghost all = models.map_values(|field: FieldModel| value_type(field, scope));
                assert(self@.inner_fields() == models);
                let mut variants: Vec<String> = Vec::new();
                let mut i: usize = 0;
                while i < fields.len()
                    invariant
                        i <= fields@.len(),
                        scope == scope_of(self.export_map, self.base_file),
                        models == field_models(fields@),
                        forall|j: int| 0 <= j < models.len() ==> nameable(#[trigger] models[j], scope),
                        all == models.map_values(|field: FieldModel| value_type(field, scope)),
                        texts(variants@) == all.take(i as int),
                    decreases fields@.len() - i,
                {
                    let field = fields[i];
                    assert(models[i as int] == field@);
                    let variant = type_definition_of_field_descriptor(field, self.export_map, self.base_file);
                    proof {
                        assert(all[i as int] == variant@);
                        assert(all.take(i + 1) =~= all.take(i as int).push(variant@));
                        assert(texts(variants@.push(variant)) =~= texts(variants@).push(variant@));
                    }
                    variants.push(variant);
                    i += 1;
                }
                assert(all.take(i as int) =~= all);
                "(".to_owned().concat(join(&variants, " | ").as_str()).concat(")?")
            },
        }
    }

    /// The expression for the field in a message.
    pub(crate) fn this(&self) -> (res: String)
        ensures
            res@ == self@.this(),
    {
        "self.".to_owned().concat(self.name())
    }

    /// The condition under which the field is written.
    pub fn should_encode(&self) -> (res: String)
        requires
            self@.guardable(),
        ensures
            res@ == self@.guard(),
    {
        let this = self.this();
        if self.has_presence() {
            return this.concat(" ~= nil");
        }
        match &self.field_kind {
            FieldKind::OneOf { .. } => unreached(),
            FieldKind::Single(field) => {
                assert(self@.inner_fields()[0] == field@);
                if self.map_type().is_some() {
                    return "next(".to_owned().concat(this.as_str()).concat(") ~= nil");
                }
                if field.is_repeated() {
                    return "#".to_owned().concat(this.as_str()).concat(" > 0");
                }
                match field.field_type() {
                    FieldType::Int32
                    | FieldType::Uint32
                    | FieldType::Int64
                    | FieldType::Uint64
                    | FieldType::Sint32
                    | FieldType::Sint64
                    | FieldType::Sfixed32
                    | FieldType::Sfixed64
                    | FieldType::Fixed32
                    | FieldType::Fixed64
                    | FieldType::Float
                    | FieldType::Double => this.concat(" ~= 0"),
                    FieldType::String => this.concat(" ~= \"\""),
                    FieldType::Bool => this,
                    FieldType::Bytes => "buffer.len(".to_owned().concat(this.as_str()).concat(") > 0"),
                    FieldType::Enum => {
                        let definition = type_definition_of_field_descriptor(field, self.export_map, self.base_file);
                        this.clone().concat(" ~= 0 or ").concat(this.as_str()).concat(" ~= ").concat(
                            definition.as_str(),
                        ).concat(".fromNumber(0)")
                    },
                    FieldType::Message | FieldType::Group => unreached(),
                }
            },
        }
    }

    /// The expression for the value of a field that was not set.
    pub fn default(&self) -> (res: Cow<'static, str>)
        requires
            self@.has_default(),
        ensures
            res@ == self@.default_text(),
    {
        if self.has_presence() {
            return Cow::Borrowed("nil");
        }
        match &self.field_kind {
            FieldKind::Single(field) => {
                assert(self@.inner_fields()[0] == field@);
                if field.is_repeated() {
                    return Cow::Borrowed("{}");
                }
                match field.field_type() {
                    FieldType::Int32
                    | FieldType::Uint32
                    | FieldType::Int64
                    | FieldType::Uint64
                    | FieldType::Fixed32
                    | FieldType::Fixed64
                    | FieldType::Sint32
                    | FieldType::Sint64
                    | FieldType::Sfixed32
                    | FieldType::Sfixed64
                    | FieldType::Float
                    | FieldType::Double => Cow::Borrowed("0"),
                    FieldType::String => Cow::Borrowed("\"\""),
                    FieldType::Bool => Cow::Borrowed("false"),
                    FieldType::Bytes => Cow::Borrowed("buffer.create(0)"),
                    FieldType::Enum => {
                        let definition = type_definition_of_field_descriptor(field, self.export_map, self.base_file);
                        Cow::Owned(definition.concat(".fromNumber(0)"))
                    },
                    FieldType::Message => {
                        let definition = type_definition_of_field_descriptor(field, self.export_map, self.base_file);
                        Cow::Owned(definition.concat(".new()"))
                    },
                    FieldType::Group => unreached(),
                }
            },
            FieldKind::OneOf { .. } => Cow::Borrowed("nil"),
        }
    }

    /// The header of a loop over the entries of the map that the field is.
    pub(crate) fn map_header(&self, map_type: &MapType) -> (res: String)
        requires
            nameable(map_type@.key, self@.scope),
            nameable(map_type@.value, self@.scope),
        ensures
            res@ == self@.map_loop(map_type@),
    {
        let key = type_definition_of_field_descriptor(&map_type.key, self.export_map, self.base_file);
        let value = type_definition_of_field_descriptor(&map_type.value, self.export_map, self.base_file);
        "for key: ".to_owned().concat(key.as_str()).concat(", value: ").concat(value.as_str()).concat(" in ").concat(
            self.this().as_str(),
        ).concat(" do")
    }

    /// The statements that write the field.
    pub fn encode(&self) -> (res: StringBuilder)
        requires
            self@.generatable(),
        ensures
            res@ == self@.encode_lines(),
            res.depth_now() == 0,
    {
        let ghost scope = self@.scope;
        let this = self.this();
        let mut encode = StringBuilder::new();
        proof {
            if self@.map_type() is None && self@.kind is Single {
                assert(nameable(self@.inner_fields()[0], scope));
            }
        }
        encode.push("if ".to_owned().concat(self.should_encode().as_str()).concat(" then").as_str());

        match &self.field_kind {
            FieldKind::Single(field) => {
                if let Some(map_type) = self.map_type() {
                    encode.push(self.map_header(map_type).as_str());
                    encode.push("local mapBuffer = buffer.create(0)");
                    encode.push("local mapCursor = 0");
                    encode.push(self.encode_part(&map_type.key, "key").as_str());
                    encode.push(self.encode_part(&map_type.value, "value").as_str());
                    encode.push(write_tag(field.number(), WireType::LengthDelimited).as_str());
                    encode.push(write_value("VarInt", "buffer.len(mapBuffer)").as_str());
                    encode.push(write_value("Buffer", "mapBuffer").as_str());
                    encode.push("end");
                } else if field.is_repeated() {
                    encode.push(
                        "for _, value: ".to_owned().concat(
                            type_definition_of_field_descriptor(field, self.export_map, self.base_file).as_str(),
                        ).concat(" in ").concat(this.as_str()).concat(" do").as_str(),
                    );
                    encode.indent();
                    encode.push(
                        encode_field_descriptor_ignore_repeated(
                            field,
                            self.export_map,
                            self.base_file,
                            "value",
                        ).as_str(),
                    );
                    encode.dedent();
                    encode.push("end");
                } else {
                    encode.push(
                        encode_field_descriptor_ignore_repeated(
                            field,
                            self.export_map,
                            self.base_file,
                            this.as_str(),
                        ).as_str(),
                    );
                }
            },
            FieldKind::OneOf { fields, .. } => {
                let ghost models = field_models(fields@);
                let ghost generator = self@;
                let ghost all = models.map_values(|field: FieldModel| generator.encode_branch(field));
                let mut if_builder = IfBuilder::new();
                let mut i: usize = 0;
                assert(all.take(0) =~= Seq::<BranchModel>::empty());
                while i < fields.len()
                    invariant
                        i <= fields@.len(),
                        generator == self@,
                        this@ == generator.this(),
                        models == field_models(fields@),
                        forall|j: int| 0 <= j < models.len() ==> nameable(#[trigger] models[j], generator.scope),
                        all == models.map_values(|field: FieldModel| generator.encode_branch(field)),
                        if_builder@ == all.take(i as int),
                    decreases fields@.len() - i,
                {
                    let field = fields[i];
                    assert(models[i as int] == field@);
                    let condition = this.clone().concat(".type == \"").concat(field.name()).concat("\"");
                    let statement = encode_field_descriptor_ignore_repeated(
                        field,
                        self.export_map,
                        self.base_file,
                        this.clone().concat(".value").as_str(),
                    );
                    if_builder.add_condition(condition.as_str(), statement.as_str());
                    assert(all.take(i + 1) =~= all.take(i as int).push(all[i as int]));
                    i += 1;
                }
                assert(all.take(i as int) =~= all);
                let mut statement = if_builder.into_string_builder();
                encode.append(&mut statement);
            },
        }

        encode.push("end");
        assert(encode@ =~= self@.encode_lines());
        encode
    }

    /// The statements that write the key or the value of a map entry to the buffer of the
    /// entry.
    fn encode_part(&self, field: &FieldDescriptor, value_var: &str) -> (res: String)
        requires
            nameable(field@, self@.scope),
        ensures
            res@ == encode_part_text(field@, self@.scope, value_var@),
    {
        let statements = encode_field_descriptor_ignore_repeated(field, self.export_map, self.base_file, value_var);
        let moved = replace(statements.as_str(), "cursor", "mapCursor");
        replace(moved.as_str(), "output", "mapBuffer")
    }
}

} // verus!
