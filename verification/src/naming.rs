//! What descriptors, type names and file names stand for.
use crate::collections::{alone, one_of};
use crate::descriptor::{numbered_label, numbered_type, FieldDescriptor, FieldModel, FieldType, Label};
use crate::fields::{FieldGenerator, FieldKind};
use crate::generator::{file_stem, map_view, module_components, path_components, portable_path};
use crate::generator::{Export, ExportMap, FilePath, MapType};
use crate::instructions::{export_key, just_type, nameable, nameable_among, reference, value_type, Scope};
use crate::layout::{law_splitting_at_a_separator, law_splitting_is_undone_by_joining};
use crate::text::{last_position, lemma_last_position, split};
use vstd::prelude::*;

verus! {

/// The number of a field type in the descriptor format.
pub open spec fn type_number(field_type: FieldType) -> int {
    match field_type {
        FieldType::Double => 1,
        FieldType::Float => 2,
        FieldType::Int64 => 3,
        FieldType::Uint64 => 4,
        FieldType::Int32 => 5,
        FieldType::Fixed64 => 6,
        FieldType::Fixed32 => 7,
        FieldType::Bool => 8,
        FieldType::String => 9,
        FieldType::Group => 10,
        FieldType::Message => 11,
        FieldType::Bytes => 12,
        FieldType::Uint32 => 13,
        FieldType::Enum => 14,
        FieldType::Sfixed32 => 15,
        FieldType::Sfixed64 => 16,
        FieldType::Sint32 => 17,
        FieldType::Sint64 => 18,
    }
}

/// The number of a label in the descriptor format.
pub open spec fn label_number(label: Label) -> int {
    match label {
        Label::Optional => 1,
        Label::Required => 2,
        Label::Repeated => 3,
    }
}

/// A number stands for the field type, and for the label, whose number it is, and for no
/// other.
pub proof fn law_numbers_of_types_and_labels(code: i32, field_type: FieldType, label: Label)
    ensures
        numbered_type(code) == Some(field_type) <==> code == type_number(field_type),
        numbered_label(code) == Some(label) <==> code == label_number(label),
        numbered_type(code) is None <==> !(1 <= code <= 18),
        numbered_label(code) is None <==> !(1 <= code <= 3),
{
}

/// A descriptor says what it holds, and where it holds nothing: an empty name, the number
/// zero, no label, the type `Double` and an empty type path.
pub proof fn law_what_a_descriptor_says(descriptor: FieldDescriptor)
    ensures
        descriptor@.name == match descriptor.name {
            Some(name) => name@,
            None => Seq::<char>::empty(),
        },
        descriptor@.number == match descriptor.number {
            Some(number) => number as int,
            None => 0,
        },
        descriptor.label is None ==> descriptor@.label is None,
        descriptor.label matches Some(code) ==> descriptor@.label == numbered_label(code),
        descriptor.type_number is None ==> descriptor@.field_type == FieldType::Double,
        descriptor.type_number matches Some(code) ==> {
            if 1 <= code <= 18 {
                type_number(descriptor@.field_type) == code
            } else {
                descriptor@.field_type == FieldType::Double
            }
        },
        descriptor@.type_path == match descriptor.type_path {
            Some(path) => path@,
            None => Seq::<char>::empty(),
        },
        descriptor@.repeated() <==> descriptor.label == Some(3i32),
{
}

/// A generator is for the field, or for the oneof with the fields, that it was given, and
/// looks types up in the exports and the file that it was given.
pub proof fn law_what_a_generator_is_for(generator: FieldGenerator<'_>)
    ensures
        generator@.scope.exports == generator.export_map@,
        generator@.scope.file == generator.base_file@,
        generator.field_kind matches FieldKind::Single(field) ==> generator@ == alone(field@, generator@.scope),
        generator.field_kind matches FieldKind::OneOf { name, fields } ==> {
            &&& generator@ == one_of(name@, generator@.inner_fields(), generator@.scope)
            &&& generator@.inner_fields().len() == fields@.len()
            &&& forall|i: int|
                0 <= i < fields@.len() ==> #[trigger] generator@.inner_fields()[i] == fields@[i]@
        },
{
}

/// A map type is that of its key and its value, and an export says what it holds. The
/// exports are those that are stored, under the same names, and a path is its components
/// in their order.
pub proof fn law_what_an_export_says(
    map_type: MapType,
    export: Export,
    export_map: ExportMap,
    path: FilePath,
    name: Seq<char>,
)
    ensures
        map_type@.key == map_type.key@,
        map_type@.value == map_type.value@,
        map_view(Some(&map_type)) == Some(map_type@),
        map_view(None) is None,
        export@.path == export.path@,
        export@.export_name == export.export_name@,
        export@.prefix == export.prefix@,
        export.map is None ==> export@.map is None,
        export.map matches Some(map) ==> export@.map == Some(map@),
        export_map@.contains_key(name) <==> export_map.stored().contains_key(name),
        export_map.stored().contains_key(name) ==> export_map@[name] == export_map.stored()[name]@,
        path@.len() == path.components@.len(),
        forall|i: int| 0 <= i < path.components@.len() ==> #[trigger] path@[i] == path.components@[i]@,
{
}

/// A type in a package is exported under the package, a dot and its name, and one without
/// a package under a dot and its name.
pub proof fn law_export_keys(package: Seq<char>, name: Seq<char>)
    requires
        !name.contains('.'),
    ensures
        export_key(seq!['.'] + package + seq!['.'] + name) == package + seq!['.'] + name,
        just_type(seq!['.'] + package + seq!['.'] + name) == name,
        export_key(seq!['.'] + name) == seq!['.'] + name,
        just_type(seq!['.'] + name) == name,
{
    reveal_strlit(".");
    assert("."@ =~= seq!['.']);
    let full_name = package + seq!['.'] + name;
    assert((seq!['.'] + package + seq!['.'] + name).skip(1) =~= full_name);
    assert((seq!['.'] + name).skip(1) =~= name);
    lemma_last_position(name, '.');
    lemma_last_position(full_name, '.');
    assert(full_name[package.len() as int] == '.');
    assert(full_name.contains('.'));
    let dot = last_position(full_name, '.')->0;
    if dot > package.len() {
        assert(name[dot - package.len() - 1] == '.');
        assert(name.contains('.'));
    }
    assert(full_name.skip(dot + 1) =~= name);
}

/// A type is called by the prefix of its export and its name in the file that exports it,
/// and behind the name of that file and a dot everywhere else.
pub proof fn law_names_of_types(package: Seq<char>, name: Seq<char>, field: FieldModel, scope: Scope)
    requires
        !name.contains('.'),
        field.type_path == seq!['.'] + package + seq!['.'] + name || field.type_path == seq!['.'] + name,
    ensures
        ({
            let key = if field.type_path == seq!['.'] + name {
                seq!['.'] + name
            } else {
                package + seq!['.'] + name
            };
            let export = scope.exports[key];
            let own = export.prefix + name;
            &&& export.path == scope.file ==> reference(field.type_path, scope) == own
            &&& export.path != scope.file ==> reference(field.type_path, scope) == export.export_name + seq!['.'] + own
            &&& field.field_type == FieldType::Enum || field.field_type == FieldType::Message ==> {
                &&& value_type(field, scope) == reference(field.type_path, scope)
                &&& nameable(field, scope) <==> scope.exports.contains_key(key)
            }
        }),
{
    reveal_strlit(".");
    assert("."@ =~= seq!['.']);
    law_export_keys(package, name);
    let export = scope.exports[export_key(field.type_path)];
    assert(export.export_name + seq!['.'] + export.prefix + name =~= export.export_name + seq!['.'] + (export.prefix
        + name));
}

/// Every type but a group can be named, and of enums and messages those whose type path
/// starts with a dot and leads to an export.
pub proof fn law_which_types_can_be_named(field: FieldModel, scope: Scope)
    ensures
        nameable(field, scope) == nameable_among(field, scope.exports),
        nameable(field, scope) == match field.field_type {
            FieldType::Group => false,
            FieldType::Enum | FieldType::Message => field.type_path.len() > 0 && field.type_path[0] == '.'
                && scope.exports.contains_key(export_key(field.type_path)),
            _ => true,
        },
{
}

/// Code can be generated for a map if both parts of its entries can be named, for another
/// field if its type can be named, and for a oneof if it can for each of its fields. For
/// a type path that does not start with a dot it never can. A default, and the condition
/// under which a field is written, name its type only where it is always there and holds
/// one value; no condition names the types of a map.
pub proof fn law_what_can_be_generated(
    field: FieldModel,
    name: Seq<char>,
    fields: Seq<FieldModel>,
    scope: Scope,
)
    ensures
        field.type_path.len() > 0 && field.type_path[0] != '.' ==> !alone(field, scope).generatable()
            && !alone(field, scope).has_default() && !alone(field, scope).guardable(),
        field.type_path.len() == 0 || field.type_path[0] == '.' ==> {
            &&& alone(field, scope).generatable() == match alone(field, scope).map_type() {
                Some(map) => nameable(map.key, scope) && nameable(map.value, scope),
                None => nameable(field, scope),
            }
            &&& alone(field, scope).has_default() == (alone(field, scope).has_presence() || field.repeated()
                || nameable(field, scope))
            &&& alone(field, scope).guardable() == (alone(field, scope).has_presence() || alone(
                field,
                scope,
            ).map_type() is Some || field.repeated() || nameable(field, scope))
        },
        one_of(name, Seq::empty(), scope).generatable(),
        one_of(name, fields.push(field), scope).generatable() <==> one_of(name, fields, scope).generatable()
            && nameable(field, scope),
        one_of(name, fields, scope).has_default(),
        one_of(name, fields, scope).guardable(),
{
    let after = one_of(name, fields.push(field), scope);
    let before = one_of(name, fields, scope);
    if field.type_path.len() == 0 || field.type_path[0] == '.' {
        assert(alone(field, scope).inner_fields()[0] == field);
    }
    if after.generatable() {
        assert(nameable(after.inner_fields()[fields.len() as int], scope));
        assert forall|i: int| 0 <= i < fields.len() implies nameable(#[trigger] before.inner_fields()[i], scope) by {
            assert(nameable(after.inner_fields()[i], scope));
        }
    }
}

/// A file name loses its last dot and what follows, unless nothing stands before that dot.
pub proof fn law_stems_of_file_names(stem: Seq<char>, extension: Seq<char>)
    requires
        !extension.contains('.'),
    ensures
        file_stem(extension) == extension,
        stem.len() > 0 ==> file_stem(stem + seq!['.'] + extension) == stem,
        file_stem(seq!['.'] + extension) == seq!['.'] + extension,
{
    lemma_last_position(extension, '.');
    let file = stem + seq!['.'] + extension;
    let hidden = seq!['.'] + extension;
    lemma_last_position(file, '.');
    assert(file[stem.len() as int] == '.');
    assert(file.contains('.'));
    let dot = last_position(file, '.')->0;
    if dot > stem.len() {
        assert(extension[dot - stem.len() - 1] == '.');
        assert(extension.contains('.'));
    }
    assert(file.take(stem.len() as int) =~= stem);
    lemma_last_position(hidden, '.');
    assert(hidden[0] == '.');
    assert(hidden.contains('.'));
    let first = last_position(hidden, '.')->0;
    if first > 0 {
        assert(extension[first - 1] == '.');
        assert(extension.contains('.'));
    }
}

/// A path without a slash is its only component, unless it is empty. Behind a slash there
/// is one component more, unless nothing or a dot stands there.
pub proof fn law_components_of_paths(directory: Seq<char>, name: Seq<char>)
    requires
        !name.contains('/'),
    ensures
        path_components(name) == if name.len() == 0 {
            Seq::empty()
        } else {
            seq![name]
        },
        path_components(directory + seq!['/'] + name) == if name.len() == 0 || name == seq!['.'] {
            path_components(directory)
        } else {
            path_components(directory).push(name)
        },
{
    let named = |part: Seq<char>| part.len() > 0 && part != seq!['.'];
    law_splitting_at_a_separator(directory, '/', name);
    reveal(Seq::filter);
    assert(seq![name].drop_last() =~= Seq::empty());
    assert(seq![name].drop_last().filter(named) =~= Seq::empty());
    if name.len() == 0 {
        assert(name =~= Seq::empty());
    }
    assert(path_components(name) =~= if name.len() == 0 {
        Seq::empty()
    } else {
        seq![name]
    });
    let parts = split(directory, '/');
    law_splitting_is_undone_by_joining(directory, '/');
    assert(parts.push(name).drop_last() =~= parts);
    assert(parts.push(name)[0] == parts[0]);
    let all = split(directory + seq!['/'] + name, '/');
    assert(all == parts.push(name));
    assert(all.filter(named) == if named(name) {
        parts.filter(named).push(name)
    } else {
        parts.filter(named)
    });
    if name.len() != 0 && name != seq!['.'] {
        assert(path_components(directory + seq!['/'] + name) =~= path_components(directory).push(name));
    }
}

/// The module of a file stands in the directory of the file and is called by the stem of
/// its name. A path that ends in two dots has no file name, and keeps them.
pub proof fn law_modules_of_files(directory: Seq<char>, name: Seq<char>)
    requires
        !name.contains('/'),
        name.len() > 0,
        name != seq!['.'],
    ensures
        name != seq!['.', '.'] ==> module_components(name) == seq![file_stem(name)],
        name != seq!['.', '.'] ==> module_components(directory + seq!['/'] + name) == path_components(directory).push(
            file_stem(name),
        ),
        module_components(directory + seq!['/', '.', '.']) == path_components(directory).push(seq!['.', '.']),
        module_components(seq!['.']) == seq![seq!['.']],
{
    law_components_of_paths(directory, name);
    assert(seq![name].drop_last().push(file_stem(name)) =~= seq![file_stem(name)]);
    assert(path_components(directory).push(name).drop_last() =~= path_components(directory));
    law_components_of_paths(directory, seq!['.', '.']);
    law_components_of_paths(directory, seq!['.']);
    assert(directory + seq!['/', '.', '.'] =~= directory + seq!['/'] + seq!['.', '.']);
}

/// A relative path without backslashes and colons, whose last component does not start
/// with a dot, is read in the same way by every system.
pub proof fn law_ordinary_paths_are_portable(path: Seq<char>)
    requires
        !path.contains('\\'),
        !path.contains(':'),
        path.len() > 0 ==> path[0] != '/',
        path_components(path).len() > 0 ==> path_components(path).last().len() > 0,
        path_components(path).len() > 0 ==> path_components(path).last()[0] != '.',
    ensures
        portable_path(path),
{
    if path_components(path).len() > 0 {
        let file = path_components(path).last();
        lemma_last_position(file, '.');
        if file_stem(file) == seq!['.'] {
            assert(file_stem(file)[0] == '.');
            assert(file[0] == '.');
        }
    }
}

} // verus!
