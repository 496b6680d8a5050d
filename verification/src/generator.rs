//! What the files of a program export to one another.
use crate::descriptor::{FieldDescriptor, FieldModel};
use crate::text::{last_position, split, texts};
use std::path::Path;
use vstd::hash_map::StringHashMap;
use vstd::prelude::*;

verus! {

/// A path, as the list of its components. Two paths are the same when their
/// components are.
#[derive(Debug)]
pub struct FilePath {
    pub components: Vec<String>,
}

impl View for FilePath {
    type V = Seq<Seq<char>>;

    open spec fn view(&self) -> Seq<Seq<char>> {
        texts(self.components@)
    }
}

impl FilePath {
    /// Whether the two paths are the same.
    pub fn same(&self, other: &FilePath) -> (res: bool)
        ensures
            res == (self@ == other@),
    {
        if self.components.len() != other.components.len() {
            assert(self@.len() != other@.len());
            return false;
        }
        let mut i: usize = 0;
        while i < self.components.len()
            invariant
                i <= self.components@.len() == other.components@.len(),
                forall|j: int| 0 <= j < i ==> self@[j] == other@[j],
            decreases self.components@.len() - i,
        {
            if self.components[i] != other.components[i] {
                assert(self@[i as int] != other@[i as int]);
                return false;
            }
            i += 1;
        }
        assert(self@ =~= other@);
        true
    }
}

/// A file name without its extension: without its last dot and what follows, unless
/// that dot comes first.
pub open spec fn file_stem(file: Seq<char>) -> Seq<char> {
    match last_position(file, '.') {
        Some(dot) if dot > 0 => file.take(dot),
        _ => file,
    }
}

/// The components of a relative path with `/` between them. Empty components do not
/// count, and `.` does only where the path starts with it.
pub open spec fn path_components(path: Seq<char>) -> Seq<Seq<char>> {
    let parts = split(path, '/');
    let named = parts.filter(|part: Seq<char>| part.len() > 0 && part != seq!['.']);
    if parts[0] == seq!['.'] {
        seq![parts[0]] + named
    } else {
        named
    }
}

/// Whether a component is `.` or `..`: these are not the names of files.
pub open spec fn is_dots(component: Seq<char>) -> bool {
    component == seq!['.'] || component == seq!['.', '.']
}

/// Whether every system reads `path` in the same way: as a relative path with `/`
/// between its components, of which the last is not a file name that would lose all but
/// its first dot.
pub open spec fn portable_path(path: Seq<char>) -> bool {
    let components = path_components(path);
    &&& !path.contains('\\')
    &&& !path.contains(':')
    &&& path.len() > 0 ==> path[0] != '/'
    &&& components.len() > 0 && !is_dots(components.last()) ==> file_stem(components.last()) != seq!['.']
}

/// The components of a path whose file name has lost its extension. A path that ends in
/// `.` or `..` has no file name.
pub open spec fn module_components(path: Seq<char>) -> Seq<Seq<char>> {
    let parts = path_components(path);
    if parts.len() == 0 || is_dots(parts.last()) {
        parts
    } else {
        parts.drop_last().push(file_stem(parts.last()))
    }
}

/// `Path::with_extension` with an empty extension: the path with its file name reduced
/// to the file stem, here as its components. What a path means depends on the system
/// where it holds a backslash or a colon or starts with `/`, and nothing is claimed of
/// those. Nor is anything claimed of file names such as `..x`, whose stem is a single
/// dot: the outcome differs with what follows the name in the path.
#[verifier::external_body]
fn without_extension(path: &str) -> (res: Vec<String>)
    ensures
        portable_path(path@) ==> texts(res@) == module_components(path@),
{
    Path::new(path).with_extension("").iter().map(|part| part.to_string_lossy().into_owned()).collect()
}

/// The file for which code is generated.
pub struct BaseFile {
    name: String,
    module: FilePath,
}

impl View for BaseFile {
    type V = Seq<Seq<char>>;

    /// The path of the file without its extension. Its name settles it where every
    /// system reads that name in the same way.
    open spec fn view(&self) -> Seq<Seq<char>> {
        if portable_path(self.file_name()) {
            module_components(self.file_name())
        } else {
            self.system_path()
        }
    }
}

impl BaseFile {
    /// The name of the file, with its extension.
    pub closed spec fn file_name(&self) -> Seq<char> {
        self.name@
    }

    /// What the system makes of the name: the path without the extension.
    pub closed spec fn system_path(&self) -> Seq<Seq<char>> {
        self.module@
    }

    #[verifier::type_invariant]
    spec fn well_formed(self) -> bool {
        portable_path(self.name@) ==> self.module@ == module_components(self.name@)
    }

    /// The file with the given name.
    pub fn new(name: &str) -> (res: BaseFile)
        ensures
            res.file_name() == name@,
            portable_path(name@) ==> res@ == module_components(name@),
    {
        BaseFile { name: name.to_owned(), module: FilePath { components: without_extension(name) } }
    }

    /// The name of the file, with its extension.
    pub fn name(&self) -> (res: &str)
        ensures
            res@ == self.file_name(),
    {
        self.name.as_str()
    }

    /// Whether `path` is the path of this file without its extension.
    pub fn is_module(&self, path: &FilePath) -> (res: bool)
        ensures
            res == (path@ == self@),
    {
        proof {
            use_type_invariant(self);
        }
        path.same(&self.module)
    }
}

/// The fields of the entries of a map field.
#[derive(Debug)]
pub struct MapType {
    pub key: FieldDescriptor,
    pub value: FieldDescriptor,
}

/// The fields of the entries of a map field.
pub struct MapModel {
    pub key: FieldModel,
    pub value: FieldModel,
}

impl View for MapType {
    type V = MapModel;

    open spec fn view(&self) -> MapModel {
        MapModel { key: self.key@, value: self.value@ }
    }
}

/// What a borrowed map type says, if there is one.
pub open spec fn map_view(map_type: Option<&MapType>) -> Option<MapModel> {
    match map_type {
        Some(map_type) => Some(map_type@),
        None => None,
    }
}

/// A type that a file exports.
#[derive(Debug)]
pub struct Export {
    /// The path of the file, without its extension.
    pub path: FilePath,
    /// The name by which other files refer to that file.
    pub export_name: String,
    /// What stands before the name of the type in its file.
    pub prefix: String,
    /// The entries, where the type is that of a map field's entries.
    pub map: Option<MapType>,
}

/// A type that a file exports.
pub struct ExportModel {
    pub path: Seq<Seq<char>>,
    pub export_name: Seq<char>,
    pub prefix: Seq<char>,
    pub map: Option<MapModel>,
}

/// What an optional map type says.
pub open spec fn map_model(map: Option<MapType>) -> Option<MapModel> {
    match map {
        Some(map) => Some(map@),
        None => None,
    }
}

impl View for Export {
    type V = ExportModel;

    open spec fn view(&self) -> ExportModel {
        ExportModel {
            path: self.path@,
            export_name: self.export_name@,
            prefix: self.prefix@,
            map: map_model(self.map),
        }
    }
}

/// The exported types of all files, by their full names.
pub struct ExportMap {
    exports: StringHashMap<Export>,
}

impl View for ExportMap {
    type V = Map<Seq<char>, ExportModel>;

    /// What the exports say.
    open spec fn view(&self) -> Map<Seq<char>, ExportModel> {
        self.stored().map_values(|export: Export| export@)
    }
}

impl ExportMap {
    /// The exports themselves.
    pub closed spec fn stored(&self) -> Map<Seq<char>, Export> {
        self.exports@
    }

    /// No exports.
    pub fn new() -> (res: ExportMap)
        ensures
            res.stored() == Map::<Seq<char>, Export>::empty(),
            res@ == Map::<Seq<char>, ExportModel>::empty(),
    {
        let res = ExportMap { exports: StringHashMap::new() };
        assert(res@ =~= Map::<Seq<char>, ExportModel>::empty());
        res
    }

    /// Adds the export under the given full name, in place of one that stood there.
    pub fn insert(&mut self, name: String, export: Export)
        ensures
            final(self).stored() == old(self).stored().insert(name@, export),
            final(self)@ == old(self)@.insert(name@, export@),
    {
        self.exports.insert(name, export);
        assert(self@ =~= old(self)@.insert(name@, export@));
    }

    /// The export with the given full name.
    pub fn get(&self, name: &str) -> (res: Option<&Export>)
        ensures
            match res {
                Some(export) => {
                    &&& self.stored().contains_key(name@) && *export == self.stored()[name@]
                    &&& self@.contains_key(name@) && export@ == self@[name@]
                },
                None => !self.stored().contains_key(name@) && !self@.contains_key(name@),
            },
    {
        self.exports.get(name)
    }
}

} // verus!
