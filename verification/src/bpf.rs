//! The loader and the registry of loaded maps and programs.

use crate::btf::{Btf, BtfError};
use crate::load::{config_of, LoadConfig, LoadStep, LoadStepView, Loading, LoadingView, StageView};
use crate::maps::{MapData, MapError, MapErrorView, MapView};
use crate::obj::ParseError;
use crate::programs::{Program, ProgramError, ProgramErrorView, ProgramView};
use crate::relocation::{RelocationError, RelocationErrorView};
use crate::table::{
    entries_map, lemma_entries_push, lemma_entries_remove, lemma_entries_update, NameTable,
};
use vstd::prelude::*;

verus! {

/// The error type of loading.
#[derive(Debug)]
#[allow(inconsistent_fields)]
pub enum BpfError {
    /// A file could not be read.
    FileError { path: String, error: std::io::Error },
    /// A map asks to be pinned by name, and the loader has no pin path.
    NoPinPath,
    /// A number that stands for no pinning type.
    UnexpectedPinningType { name: u32 },
    /// A path that the kernel cannot take.
    InvalidPath { error: String },
    /// The object file could not be parsed.
    ParseError(ParseError),
    /// The debug-type information could not be applied.
    BtfError(BtfError),
    /// A relocation record of the program `function` did not resolve.
    RelocationError { function: String, error: RelocationError },
    /// An operation on a map failed.
    MapError(MapError),
    /// An operation on a program failed.
    ProgramError(ProgramError),
}

/// The model of a `BpfError`.
#[allow(inconsistent_fields)]
pub enum BpfErrorView {
    FileError { path: Seq<char>, error: std::io::Error },
    NoPinPath,
    UnexpectedPinningType { name: u32 },
    InvalidPath { error: Seq<char> },
    ParseError(Seq<char>),
    BtfError(Seq<char>),
    RelocationError { function: Seq<char>, error: RelocationErrorView },
    MapError(MapErrorView),
    ProgramError(ProgramErrorView),
}

impl View for BpfError {
    type V = BpfErrorView;

    open spec fn view(&self) -> BpfErrorView {
        match self {
            BpfError::FileError { path, error } => BpfErrorView::FileError {
                path: path@,
                error: *error,
            },
            BpfError::NoPinPath => BpfErrorView::NoPinPath,
            BpfError::UnexpectedPinningType { name } => BpfErrorView::UnexpectedPinningType {
                name: *name,
            },
            BpfError::InvalidPath { error } => BpfErrorView::InvalidPath { error: error@ },
            BpfError::ParseError(e) => BpfErrorView::ParseError(e.message@),
            BpfError::BtfError(e) => BpfErrorView::BtfError(e.message@),
            BpfError::RelocationError { function, error } => BpfErrorView::RelocationError {
                function: function@,
                error: error@,
            },
            BpfError::MapError(e) => BpfErrorView::MapError(e@),
            BpfError::ProgramError(e) => BpfErrorView::ProgramError(e@),
        }
    }
}


/// A failure to parse is a failure to load.
impl From<ParseError> for BpfError {
    fn from(error: ParseError) -> (result: BpfError) {
        BpfError::ParseError(error)
    }
}

impl vstd::std_specs::convert::FromSpecImpl<ParseError> for BpfError {
    open spec fn obeys_from_spec() -> bool {
        true
    }

    open spec fn from_spec(error: ParseError) -> BpfError {
        BpfError::ParseError(error)
    }
}

/// A failure of the debug-type information is a failure to load.
impl From<BtfError> for BpfError {
    fn from(error: BtfError) -> (result: BpfError) {
        BpfError::BtfError(error)
    }
}

impl vstd::std_specs::convert::FromSpecImpl<BtfError> for BpfError {
    open spec fn obeys_from_spec() -> bool {
        true
    }

    open spec fn from_spec(error: BtfError) -> BpfError {
        BpfError::BtfError(error)
    }
}

/// A failure of a map is a failure to load.
impl From<MapError> for BpfError {
    fn from(error: MapError) -> (result: BpfError) {
        BpfError::MapError(error)
    }
}

impl vstd::std_specs::convert::FromSpecImpl<MapError> for BpfError {
    open spec fn obeys_from_spec() -> bool {
        true
    }

    open spec fn from_spec(error: MapError) -> BpfError {
        BpfError::MapError(error)
    }
}

/// A failure of a program is a failure to load.
impl From<ProgramError> for BpfError {
    fn from(error: ProgramError) -> (result: BpfError) {
        BpfError::ProgramError(error)
    }
}

impl vstd::std_specs::convert::FromSpecImpl<ProgramError> for BpfError {
    open spec fn obeys_from_spec() -> bool {
        true
    }

    open spec fn from_spec(error: ProgramError) -> BpfError {
        BpfError::ProgramError(error)
    }
}

/// Builder style API for advanced loading of programs.
///
/// Loading involves a few steps, including loading maps and applying
/// relocations. A `BpfLoader` holds the options of a load: the debug-type
/// information to relocate by, and the path below which maps are pinned. It
/// starts with neither. Where the programs are to be relocated by the
/// debug-type information of the running kernel, the caller reads it and
/// hands it to `btf`.
#[derive(Debug)]
pub struct BpfLoader<'a> {
    btf: Option<&'a Btf>,
    map_pin_path: Option<String>,
}

impl<'a> View for BpfLoader<'a> {
    type V = LoadConfig;

    closed spec fn view(&self) -> LoadConfig {
        config_of(self.map_pin_path, self.btf)
    }
}

impl<'a> BpfLoader<'a> {
    /// Creates a new loader instance, without debug-type information and
    /// without a pin path.
    pub fn new() -> (loader: BpfLoader<'a>)
        ensures
            loader@ == (LoadConfig { pin_path: None, btf: None }),
    {
        BpfLoader { btf: None, map_pin_path: None }
    }

    /// Sets the debug-type information to relocate by. With `None` the
    /// programs are not relocated by debug-type information.
    pub fn btf(&mut self, btf: Option<&'a Btf>) -> (loader: &mut BpfLoader<'a>)
        ensures
            loader@ == (LoadConfig {
                btf: match btf {
                    Some(btf) => Some(*btf),
                    None => None,
                },
                ..old(self)@
            }),
            *final(self) == *final(loader),
    {
        self.btf = btf;
        self
    }

    /// Sets the base directory path for pinned maps. A map that is pinned by
    /// name is kept at the path of its name below it.
    pub fn map_pin_path(&mut self, path: &str) -> (loader: &mut BpfLoader<'a>)
        ensures
            loader@ == (LoadConfig { pin_path: Some(path@), ..old(self)@ }),
            *final(self) == *final(loader),
    {
        self.map_pin_path = Some(path.to_owned());
        self
    }

    /// Starts the load of the object file at the path: the file is to be
    /// read first.
    pub fn load_file(&mut self, path: &str) -> (step: LoadStep<'a>)
        ensures
            *final(self) == *old(self),
            step@ == LoadStepView::Pending(
                LoadingView { config: old(self)@, stage: StageView::ReadFile { path: path@ } },
            ),
    {
        LoadStep::Pending(Loading::from_file(self.pin_path(), self.btf, path))
    }

    /// Starts the load of the object file with these bytes: they are to be
    /// parsed first.
    pub fn load(&mut self, data: &[u8]) -> (step: LoadStep<'a>)
        ensures
            *final(self) == *old(self),
            step@ == LoadStepView::Pending(
                LoadingView { config: old(self)@, stage: StageView::Parse { data: data@ } },
            ),
    {
        LoadStep::Pending(Loading::from_bytes(self.pin_path(), self.btf, data))
    }

    /// The pin path, for a load to keep.
    fn pin_path(&self) -> (path: Option<String>)
        ensures
            config_of(path, self.btf) == self@,
    {
        match &self.map_pin_path {
            Some(path) => Some(path.clone()),
            None => None,
        }
    }
}

impl<'a> Default for BpfLoader<'a> {
    fn default() -> (loader: BpfLoader<'a>)
        ensures
            loader@ == (LoadConfig { pin_path: None, btf: None }),
    {
        BpfLoader::new()
    }
}

/// The main entry point into the library: the maps and programs of a loaded
/// object, each under its name. The registry owns them. A map can be taken
/// out and handed back, and is never in two places.
#[derive(Debug)]
pub struct Bpf {
    pub(crate) maps: NameTable<MapData>,
    pub(crate) programs: NameTable<Program>,
}

/// The model of a `Bpf`, by the models of what it holds.
pub struct BpfView {
    pub map_names: Seq<Seq<char>>,
    pub maps: Seq<MapView>,
    pub program_names: Seq<Seq<char>>,
    pub programs: Seq<ProgramView>,
}

/// The models of the maps, in order.
pub open spec fn map_views(maps: Seq<MapData>) -> Seq<MapView> {
    Seq::new(maps.len(), |i: int| maps[i]@)
}

/// The models of the programs, in order.
pub open spec fn program_views(programs: Seq<Program>) -> Seq<ProgramView> {
    Seq::new(programs.len(), |i: int| programs[i]@)
}

impl View for Bpf {
    type V = BpfView;

    open spec fn view(&self) -> BpfView {
        BpfView {
            map_names: self.map_names(),
            maps: map_views(self.map_values()),
            program_names: self.program_names(),
            programs: program_views(self.program_values()),
        }
    }
}

impl Bpf {
    /// The names of the maps, in the order in which they came in.
    pub closed spec fn map_names(&self) -> Seq<Seq<char>> {
        self.maps.names()
    }

    /// The maps, each at the position of its name.
    pub closed spec fn map_values(&self) -> Seq<MapData> {
        self.maps.values()
    }

    /// The names of the programs, in the order of the object.
    pub closed spec fn program_names(&self) -> Seq<Seq<char>> {
        self.programs.names()
    }

    /// The programs, each at the position of its name.
    pub closed spec fn program_values(&self) -> Seq<Program> {
        self.programs.values()
    }

    /// Every name has its entry, and no name occurs twice among the maps or
    /// among the programs.
    pub open spec fn wf(&self) -> bool {
        &&& self.map_names().len() == self.map_values().len()
        &&& self.map_names().no_duplicates()
        &&& self.program_names().len() == self.program_values().len()
        &&& self.program_names().no_duplicates()
    }

    /// The maps by name.
    pub open spec fn maps_by_name(&self) -> Map<Seq<char>, MapData> {
        entries_map(self.map_names(), self.map_values())
    }

    /// The programs by name.
    pub open spec fn programs_by_name(&self) -> Map<Seq<char>, Program> {
        entries_map(self.program_names(), self.program_values())
    }

    /// The programs are the same in both.
    pub open spec fn same_programs(&self, other: &Bpf) -> bool {
        &&& self.program_names() == other.program_names()
        &&& self.program_values() == other.program_values()
    }

    /// The maps are the same in both.
    pub open spec fn same_maps(&self, other: &Bpf) -> bool {
        &&& self.map_names() == other.map_names()
        &&& self.map_values() == other.map_values()
    }

    /// The registry of these maps and programs.
    pub(crate) fn from_tables(maps: NameTable<MapData>, programs: NameTable<Program>) -> (bpf: Bpf)
        ensures
            bpf.wf(),
            bpf.map_names() == maps.names(),
            bpf.map_values() == maps.values(),
            bpf.program_names() == programs.names(),
            bpf.program_values() == programs.values(),
    {
        proof {
            use_type_invariant(&maps);
            use_type_invariant(&programs);
            maps.lemma_wf();
            programs.lemma_wf();
        }
        Bpf { maps, programs }
    }

    /// Starts the load of the object file at the path, with the debug-type
    /// information of the running kernel where the caller has it, and
    /// without a pin path.
    pub fn load_file<'a>(path: &str, btf: Option<&'a Btf>) -> (step: LoadStep<'a>)
        ensures
            step@ == LoadStepView::Pending(
                LoadingView {
                    config: config_of(None, btf),
                    stage: StageView::ReadFile { path: path@ },
                },
            ),
    {
        let mut loader = BpfLoader::new();
        loader.btf(btf).load_file(path)
    }

    /// Starts the load of the object file with these bytes, with the
    /// debug-type information of the running kernel where the caller has
    /// it, and without a pin path.
    pub fn load<'a>(data: &[u8], btf: Option<&'a Btf>) -> (step: LoadStep<'a>)
        ensures
            step@ == LoadStepView::Pending(
                LoadingView {
                    config: config_of(None, btf),
                    stage: StageView::Parse { data: data@ },
                },
            ),
    {
        let mut loader = BpfLoader::new();
        loader.btf(btf).load(data)
    }

    /// Returns a reference to the map with the given name, or `NotFound`.
    pub fn map(&self, name: &str) -> (result: Result<&MapData, MapError>)
        ensures
            self.wf(),
            match result {
                Ok(map) => self.maps_by_name().contains_key(name@) && *map
                    == self.maps_by_name()[name@],
                Err(e) => !self.maps_by_name().contains_key(name@) && e@ == MapErrorView::NotFound,
            },
    {
        match self.map_opt(name) {
            Some(map) => Ok(map),
            None => Err(MapError::NotFound),
        }
    }

    /// Returns a reference to the map with the given name, if there is one.
    pub fn map_opt(&self, name: &str) -> (result: Option<&MapData>)
        ensures
            self.wf(),
            match result {
                Some(map) => self.maps_by_name().contains_key(name@) && *map
                    == self.maps_by_name()[name@],
                None => !self.maps_by_name().contains_key(name@),
            },
    {
        proof {
            use_type_invariant(&self.maps);
            use_type_invariant(&self.programs);
            self.maps.lemma_wf();
            self.programs.lemma_wf();
        }
        match self.maps.find(name) {
            Some(i) => Some(self.maps.value_at(i)),
            None => None,
        }
    }

    /// Returns a mutable reference to the map with the given name, or
    /// `NotFound`.
    pub fn map_mut(&mut self, name: &str) -> (result: Result<&mut MapData, MapError>)
        ensures
            final(self).wf(),
            final(self).same_programs(old(self)),
            final(self).map_names() == old(self).map_names(),
            match result {
                Ok(map) => {
                    &&& old(self).maps_by_name().contains_key(name@)
                    &&& *map == old(self).maps_by_name()[name@]
                    &&& final(self).maps_by_name() == old(self).maps_by_name().insert(
                        name@,
                        *final(map),
                    )
                },
                Err(e) => {
                    &&& !old(self).maps_by_name().contains_key(name@)
                    &&& e@ == MapErrorView::NotFound
                    &&& final(self).map_values() == old(self).map_values()
                },
            },
    {
        match self.map_mut_opt(name) {
            Some(map) => Ok(map),
            None => Err(MapError::NotFound),
        }
    }

    /// Returns a mutable reference to the map with the given name, if there
    /// is one.
    pub fn map_mut_opt(&mut self, name: &str) -> (result: Option<&mut MapData>)
        ensures
            final(self).wf(),
            final(self).same_programs(old(self)),
            final(self).map_names() == old(self).map_names(),
            match result {
                Some(map) => {
                    &&& old(self).maps_by_name().contains_key(name@)
                    &&& *map == old(self).maps_by_name()[name@]
                    &&& final(self).maps_by_name() == old(self).maps_by_name().insert(
                        name@,
                        *final(map),
                    )
                },
                None => {
                    &&& !old(self).maps_by_name().contains_key(name@)
                    &&& final(self).map_values() == old(self).map_values()
                },
            },
    {
        proof {
            use_type_invariant(&self.maps);
            use_type_invariant(&self.programs);
            self.maps.lemma_wf();
            self.programs.lemma_wf();
        }
        match self.maps.find(name) {
            Some(i) => {
                let map = self.maps.value_at_mut(i);
                proof {
                    lemma_entries_update(
                        old(self).map_names(),
                        old(self).map_values(),
                        i as int,
                        *final(map),
                    );
                }
                Some(map)
            },
            None => None,
        }
    }

    /// Takes the map with the given name out of the registry, or reports
    /// `NotFound`.
    pub fn take_map(&mut self, name: &str) -> (result: Result<(String, MapData), MapError>)
        ensures
            final(self).wf(),
            final(self).same_programs(old(self)),
            match result {
                Ok((key, map)) => {
                    &&& old(self).maps_by_name().contains_key(name@)
                    &&& key@ == name@
                    &&& map == old(self).maps_by_name()[name@]
                    &&& final(self).maps_by_name() == old(self).maps_by_name().remove(name@)
                    &&& final(self).map_names() == old(self).map_names().remove(
                        old(self).map_names().index_of(name@),
                    )
                },
                Err(e) => {
                    &&& !old(self).maps_by_name().contains_key(name@)
                    &&& e@ == MapErrorView::NotFound
                    &&& final(self).same_maps(old(self))
                },
            },
    {
        match self.take_map_opt(name) {
            Some(taken) => Ok(taken),
            None => Err(MapError::NotFound),
        }
    }

    /// Takes the map with the given name out of the registry, if there is
    /// one.
    pub fn take_map_opt(&mut self, name: &str) -> (result: Option<(String, MapData)>)
        ensures
            final(self).wf(),
            final(self).same_programs(old(self)),
            match result {
                Some((key, map)) => {
                    &&& old(self).maps_by_name().contains_key(name@)
                    &&& key@ == name@
                    &&& map == old(self).maps_by_name()[name@]
                    &&& final(self).maps_by_name() == old(self).maps_by_name().remove(name@)
                    &&& final(self).map_names() == old(self).map_names().remove(
                        old(self).map_names().index_of(name@),
                    )
                },
                None => {
                    &&& !old(self).maps_by_name().contains_key(name@)
                    &&& final(self).same_maps(old(self))
                },
            },
    {
        proof {
            use_type_invariant(&self.maps);
            use_type_invariant(&self.programs);
            self.maps.lemma_wf();
            self.programs.lemma_wf();
            if old(self).map_names().contains(name@) {
                let i = old(self).map_names().index_of(name@);
                lemma_entries_remove(old(self).map_names(), old(self).map_values(), i);
            }
        }
        self.maps.remove(name)
    }

    /// Hands a map back to the registry under the given name. Where the
    /// registry has a map of that name, it stays as it was and `Occupied` is
    /// reported.
    pub fn return_map(&mut self, name: String, map: MapData) -> (result: Result<(), MapError>)
        ensures
            final(self).wf(),
            final(self).same_programs(old(self)),
            match result {
                Ok(_) => {
                    &&& !old(self).maps_by_name().contains_key(name@)
                    &&& final(self).maps_by_name() == old(self).maps_by_name().insert(name@, map)
                    &&& final(self).map_names() == old(self).map_names().push(name@)
                    &&& final(self).map_values() == old(self).map_values().push(map)
                },
                Err(e) => {
                    &&& old(self).maps_by_name().contains_key(name@)
                    &&& e@ == MapErrorView::Occupied
                    &&& final(self).same_maps(old(self))
                },
            },
    {
        proof {
            use_type_invariant(&self.maps);
            use_type_invariant(&self.programs);
            self.maps.lemma_wf();
            self.programs.lemma_wf();
            if !old(self).map_names().contains(name@) {
                lemma_entries_push(old(self).map_names(), old(self).map_values(), name@, map);
            }
        }
        match self.maps.insert(name, map) {
            None => Ok(()),
            Some(_) => Err(MapError::Occupied),
        }
    }

    /// All the maps with their names.
    pub fn maps(&self) -> (entries: Vec<(&str, &MapData)>)
        ensures
            self.wf(),
            entries.len() == self.map_names().len(),
            forall|i: int|
                0 <= i < entries.len() ==> (#[trigger] entries[i]).0@ == self.map_names()[i]
                    && *entries[i].1 == self.map_values()[i],
    {
        proof {
            use_type_invariant(&self.maps);
            use_type_invariant(&self.programs);
            self.maps.lemma_wf();
            self.programs.lemma_wf();
        }
        self.maps.entries()
    }

    /// Returns a reference to the program with the given name, or
    /// `NotFound`.
    pub fn program(&self, name: &str) -> (result: Result<&Program, ProgramError>)
        ensures
            self.wf(),
            match result {
                Ok(program) => self.programs_by_name().contains_key(name@) && *program
                    == self.programs_by_name()[name@],
                Err(e) => !self.programs_by_name().contains_key(name@) && e@
                    == ProgramErrorView::NotFound,
            },
    {
        match self.program_opt(name) {
            Some(program) => Ok(program),
            None => Err(ProgramError::NotFound),
        }
    }

    /// Returns a reference to the program with the given name, if there is
    /// one.
    pub fn program_opt(&self, name: &str) -> (result: Option<&Program>)
        ensures
            self.wf(),
            match result {
                Some(program) => self.programs_by_name().contains_key(name@) && *program
                    == self.programs_by_name()[name@],
                None => !self.programs_by_name().contains_key(name@),
            },
    {
        proof {
            use_type_invariant(&self.maps);
            use_type_invariant(&self.programs);
            self.maps.lemma_wf();
            self.programs.lemma_wf();
        }
        match self.programs.find(name) {
            Some(i) => Some(self.programs.value_at(i)),
            None => None,
        }
    }

    /// Returns a mutable reference to the program with the given name, or
    /// `NotFound`.
    pub fn program_mut(&mut self, name: &str) -> (result: Result<&mut Program, ProgramError>)
        ensures
            final(self).wf(),
            final(self).same_maps(old(self)),
            final(self).program_names() == old(self).program_names(),
            match result {
                Ok(program) => {
                    &&& old(self).programs_by_name().contains_key(name@)
                    &&& *program == old(self).programs_by_name()[name@]
                    &&& final(self).programs_by_name() == old(self).programs_by_name().insert(
                        name@,
                        *final(program),
                    )
                },
                Err(e) => {
                    &&& !old(self).programs_by_name().contains_key(name@)
                    &&& e@ == ProgramErrorView::NotFound
                    &&& final(self).program_values() == old(self).program_values()
                },
            },
    {
        match self.program_mut_opt(name) {
            Some(program) => Ok(program),
            None => Err(ProgramError::NotFound),
        }
    }

    /// Returns a mutable reference to the program with the given name, if
    /// there is one.
    pub fn program_mut_opt(&mut self, name: &str) -> (result: Option<&mut Program>)
        ensures
            final(self).wf(),
            final(self).same_maps(old(self)),
            final(self).program_names() == old(self).program_names(),
            match result {
                Some(program) => {
                    &&& old(self).programs_by_name().contains_key(name@)
                    &&& *program == old(self).programs_by_name()[name@]
                    &&& final(self).programs_by_name() == old(self).programs_by_name().insert(
                        name@,
                        *final(program),
                    )
                },
                None => {
                    &&& !old(self).programs_by_name().contains_key(name@)
                    &&& final(self).program_values() == old(self).program_values()
                },
            },
    {
        proof {
            use_type_invariant(&self.maps);
            use_type_invariant(&self.programs);
            self.maps.lemma_wf();
            self.programs.lemma_wf();
        }
        match self.programs.find(name) {
            Some(i) => {
                let program = self.programs.value_at_mut(i);
                proof {
                    lemma_entries_update(
                        old(self).program_names(),
                        old(self).program_values(),
                        i as int,
                        *final(program),
                    );
                }
                Some(program)
            },
            None => None,
        }
    }

    /// All the programs with their names.
    pub fn programs(&self) -> (entries: Vec<(&str, &Program)>)
        ensures
            self.wf(),
            entries.len() == self.program_names().len(),
            forall|i: int|
                0 <= i < entries.len() ==> (#[trigger] entries[i]).0@ == self.program_names()[i]
                    && *entries[i].1 == self.program_values()[i],
    {
        proof {
            use_type_invariant(&self.maps);
            use_type_invariant(&self.programs);
            self.maps.lemma_wf();
            self.programs.lemma_wf();
        }
        self.programs.entries()
    }

    /// The program at a position, with its name, for writing; `None` past the
    /// last program. Going through the positions from 0 visits all the
    /// programs.
    pub fn programs_mut(&mut self, index: usize) -> (result: Option<(&str, &mut Program)>)
        ensures
            final(self).wf(),
            final(self).same_maps(old(self)),
            final(self).program_names() == old(self).program_names(),
            match result {
                Some((name, program)) => {
                    &&& index < old(self).program_names().len()
                    &&& name@ == old(self).program_names()[index as int]
                    &&& *program == old(self).program_values()[index as int]
                    &&& final(self).program_values() == old(self).program_values().update(
                        index as int,
                        *final(program),
                    )
                },
                None => index >= old(self).program_names().len() && final(self).program_values()
                    == old(self).program_values(),
            },
    {
        proof {
            use_type_invariant(&self.maps);
            use_type_invariant(&self.programs);
            self.maps.lemma_wf();
            self.programs.lemma_wf();
        }
        if index < self.programs.len() {
            Some(self.programs.entry_at_mut(index))
        } else {
            None
        }
    }
}

/// Taking a map out of a registry and handing it back under its name leaves
/// the registry with the maps it had, each under its name and with the
/// value it had.
pub proof fn law_take_then_return(before: Bpf, taken: Bpf, after: Bpf, name: Seq<char>)
    requires
        before.wf(),
        before.maps_by_name().contains_key(name),
        taken.maps_by_name() == before.maps_by_name().remove(name),
        after.maps_by_name() == taken.maps_by_name().insert(name, before.maps_by_name()[name]),
        taken.same_programs(&before),
        after.same_programs(&taken),
    ensures
        !taken.maps_by_name().contains_key(name),
        after.maps_by_name() == before.maps_by_name(),
        after.maps_by_name().dom() == before.maps_by_name().dom(),
        after.maps_by_name()[name]@.fd == before.maps_by_name()[name]@.fd,
        after.same_programs(&before),
{
    assert(after.maps_by_name() =~= before.maps_by_name());
}

} // verus!
