//! Field descriptors: what a protobuf file declares of one field.
use prost_types::field_descriptor_proto;
use prost_types::field_descriptor_proto::Type;
use vstd::prelude::*;

verus! {

/// The declared type of a field.
#[derive(Clone, Copy, Debug, PartialEq, Eq, Structural)]
pub enum FieldType {
    Double,
    Float,
    Int64,
    Uint64,
    Int32,
    Fixed64,
    Fixed32,
    Bool,
    String,
    Group,
    Message,
    Bytes,
    Uint32,
    Enum,
    Sfixed32,
    Sfixed64,
    Sint32,
    Sint64,
}

/// The declared label of a field.
#[derive(Clone, Copy, Debug, PartialEq, Eq, Structural)]
pub enum Label {
    Optional,
    Required,
    Repeated,
}

/// The field type with the given number in the descriptor format, if there is one.
pub open spec fn numbered_type(code: i32) -> Option<FieldType> {
    if code == 1 { Some(FieldType::Double) }
    else if code == 2 { Some(FieldType::Float) }
    else if code == 3 { Some(FieldType::Int64) }
    else if code == 4 { Some(FieldType::Uint64) }
    else if code == 5 { Some(FieldType::Int32) }
    else if code == 6 { Some(FieldType::Fixed64) }
    else if code == 7 { Some(FieldType::Fixed32) }
    else if code == 8 { Some(FieldType::Bool) }
    else if code == 9 { Some(FieldType::String) }
    else if code == 10 { Some(FieldType::Group) }
    else if code == 11 { Some(FieldType::Message) }
    else if code == 12 { Some(FieldType::Bytes) }
    else if code == 13 { Some(FieldType::Uint32) }
    else if code == 14 { Some(FieldType::Enum) }
    else if code == 15 { Some(FieldType::Sfixed32) }
    else if code == 16 { Some(FieldType::Sfixed64) }
    else if code == 17 { Some(FieldType::Sint32) }
    else if code == 18 { Some(FieldType::Sint64) }
    else { None }
}

/// The label with the given number in the descriptor format, if there is one.
pub open spec fn numbered_label(code: i32) -> Option<Label> {
    if code == 1 { Some(Label::Optional) }
    else if code == 2 { Some(Label::Required) }
    else if code == 3 { Some(Label::Repeated) }
    else { None }
}

/// `field_descriptor_proto::Type::try_from`: a number that stands for a type gives
/// that type, any other number gives an error, here `None`.
#[verifier::external_body]
fn type_from_number(code: i32) -> (res: Option<FieldType>)
    ensures
        res == numbered_type(code),
{
    Some(match Type::try_from(code).ok()? {
        Type::Double => FieldType::Double, Type::Float => FieldType::Float,
        Type::Int64 => FieldType::Int64, Type::Uint64 => FieldType::Uint64,
        Type::Int32 => FieldType::Int32, Type::Fixed64 => FieldType::Fixed64,
        Type::Fixed32 => FieldType::Fixed32, Type::Bool => FieldType::Bool,
        Type::String => FieldType::String, Type::Group => FieldType::Group,
        Type::Message => FieldType::Message, Type::Bytes => FieldType::Bytes,
        Type::Uint32 => FieldType::Uint32, Type::Enum => FieldType::Enum,
        Type::Sfixed32 => FieldType::Sfixed32, Type::Sfixed64 => FieldType::Sfixed64,
        Type::Sint32 => FieldType::Sint32, Type::Sint64 => FieldType::Sint64,
    })
}

/// `field_descriptor_proto::Label::try_from`: a number that stands for a label gives
/// that label, any other number gives an error, here `None`.
#[verifier::external_body]
fn label_from_number(code: i32) -> (res: Option<Label>)
    ensures
        res == numbered_label(code),
{
    match field_descriptor_proto::Label::try_from(code) {
        Ok(field_descriptor_proto::Label::Optional) => Some(Label::Optional),
        Ok(field_descriptor_proto::Label::Required) => Some(Label::Required),
        Ok(field_descriptor_proto::Label::Repeated) => Some(Label::Repeated),
        Err(_) => None,
    }
}

/// One field as a descriptor file declares it. Every part may be absent, and `label`
/// and `type_number` hold the numbers of the descriptor format as they were read.
#[derive(Debug)]
pub struct FieldDescriptor {
    pub name: Option<String>,
    pub number: Option<i32>,
    pub label: Option<i32>,
    pub type_number: Option<i32>,
    pub type_path: Option<String>,
}

/// What a field descriptor says: absent names are empty, an absent number is zero, an
/// absent or unknown type is the first one, `Double`.
pub struct FieldModel {
    pub name: Seq<char>,
    pub number: int,
    pub label: Option<Label>,
    pub field_type: FieldType,
    pub type_path: Seq<char>,
}

/// The text of a string that may be absent.
pub open spec fn text_or_empty(s: Option<String>) -> Seq<char> {
    match s {
        Some(text) => text@,
        None => Seq::empty(),
    }
}

impl View for FieldDescriptor {
    type V = FieldModel;

    open spec fn view(&self) -> FieldModel {
        FieldModel {
            name: text_or_empty(self.name),
            number: match self.number {
                Some(number) => number as int,
                None => 0,
            },
            label: match self.label {
                Some(code) => numbered_label(code),
                None => None,
            },
            field_type: match self.type_number {
                Some(code) => match numbered_type(code) {
                    Some(field_type) => field_type,
                    None => FieldType::Double,
                },
                None => FieldType::Double,
            },
            type_path: text_or_empty(self.type_path),
        }
    }
}

impl FieldModel {
    /// Whether the field holds a list of values.
    pub open spec fn repeated(self) -> bool {
        self.label == Some(Label::Repeated)
    }
}

fn string_or_empty(s: &Option<String>) -> (res: &str)
    ensures
        res@ == text_or_empty(*s),
{
    match s {
        Some(text) => text.as_str(),
        None => {
            proof {
                reveal_strlit("");
            }
            assert(""@ =~= Seq::<char>::empty());
            ""
        },
    }
}

impl FieldDescriptor {
    /// The name of the field, empty where there is none.
    pub fn name(&self) -> (res: &str)
        ensures
            res@ == self@.name,
    {
        string_or_empty(&self.name)
    }

    /// The number of the field, zero where there is none.
    pub fn number(&self) -> (res: i32)
        ensures
            res == self@.number,
    {
        match self.number {
            Some(number) => number,
            None => 0,
        }
    }

    /// The label of the field, if it has a known one.
    pub fn label(&self) -> (res: Option<Label>)
        ensures
            res == self@.label,
    {
        match self.label {
            Some(code) => label_from_number(code),
            None => None,
        }
    }

    /// The type of the field, `Double` where there is no known one.
    pub fn field_type(&self) -> (res: FieldType)
        ensures
            res == self@.field_type,
    {
        match self.type_number {
            Some(code) => match type_from_number(code) {
                Some(field_type) => field_type,
                None => FieldType::Double,
            },
            None => FieldType::Double,
        }
    }

    /// The name of the message or enum that is the field's type, empty where there is none.
    pub fn type_path(&self) -> (res: &str)
        ensures
            res@ == self@.type_path,
    {
        string_or_empty(&self.type_path)
    }

    /// Whether the field holds a list of values.
    pub fn is_repeated(&self) -> (res: bool)
        ensures
            res == self@.repeated(),
    {
        match self.label() {
            Some(Label::Repeated) => true,
            _ => false,
        }
    }
}

} // verus!
