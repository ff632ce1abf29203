//! What an object file describes: maps with their initial data, and programs
//! with their instructions and relocation records.
//!
//! An `Object` is built by whoever reads the object file. The library takes
//! it as a value.

use crate::maps::MapDefinition;
use crate::table::NameTable;
use vstd::prelude::*;

verus! {

/// Why an object file could not be parsed.
#[derive(Debug)]
pub struct ParseError {
    pub message: String,
}

/// A map as the object file describes it.
#[derive(Debug)]
pub struct MapObject {
    pub def: MapDefinition,
    pub data: Vec<u8>,
}

/// The model of a `MapObject`.
pub struct MapObjectView {
    pub def: MapDefinition,
    pub data: Seq<u8>,
}

impl View for MapObject {
    type V = MapObjectView;

    open spec fn view(&self) -> MapObjectView {
        MapObjectView { def: self.def, data: self.data@ }
    }
}

/// The kind of section a program was compiled into. It says at which kind of
/// trigger point the program is meant to run.
#[derive(Copy, Clone, Debug, PartialEq, Eq, Structural)]
pub enum ProgramSection {
    KProbe,
    KRetProbe,
    UProbe,
    URetProbe,
    TracePoint,
    SocketFilter,
    Xdp,
    SkMsg,
    SkSkbStreamParser,
    SkSkbStreamVerdict,
    SockOps,
    SchedClassifier,
    CgroupSkbIngress,
    CgroupSkbEgress,
    LircMode2,
    PerfEvent,
    RawTracePoint,
    Lsm,
    BtfTracePoint,
}

/// What the symbol of a relocation record stands for.
#[derive(Copy, Clone, Debug, PartialEq, Eq, Structural)]
pub enum SymbolKind {
    /// A map of the object.
    MapReference,
    /// A program of the object, the target of a call.
    Call,
}

/// A symbol that an instruction refers to.
#[derive(Debug)]
pub struct Symbol {
    pub kind: SymbolKind,
    pub name: String,
}

/// A relocation record: the instruction word at `offset` refers to `symbol`.
#[derive(Debug)]
pub struct Relocation {
    pub offset: usize,
    pub symbol: Symbol,
}

/// The model of a `Relocation`.
pub struct RelocationView {
    pub offset: usize,
    pub kind: SymbolKind,
    pub name: Seq<char>,
}

impl View for Relocation {
    type V = RelocationView;

    open spec fn view(&self) -> RelocationView {
        RelocationView { offset: self.offset, kind: self.symbol.kind, name: self.symbol.name@ }
    }
}

/// A program as the object file describes it.
#[derive(Debug)]
pub struct ProgramObject {
    pub section: ProgramSection,
    pub instructions: Vec<u64>,
    pub relocations: Vec<Relocation>,
}

/// The model of a `ProgramObject`.
pub struct ProgramObjectView {
    pub section: ProgramSection,
    pub instructions: Seq<u64>,
    pub relocations: Seq<RelocationView>,
}

/// The models of the records, in order.
pub open spec fn relocation_views(relocations: Seq<Relocation>) -> Seq<RelocationView> {
    Seq::new(relocations.len(), |i: int| relocations[i]@)
}

impl View for ProgramObject {
    type V = ProgramObjectView;

    open spec fn view(&self) -> ProgramObjectView {
        ProgramObjectView {
            section: self.section,
            instructions: self.instructions@,
            relocations: relocation_views(self.relocations@),
        }
    }
}

/// The maps and programs of one object file, each under its name.
#[derive(Debug)]
pub struct Object {
    pub maps: NameTable<MapObject>,
    pub programs: NameTable<ProgramObject>,
}

/// The model of an `Object`: names and descriptions, position by position.
pub struct ObjectView {
    pub map_names: Seq<Seq<char>>,
    pub maps: Seq<MapObjectView>,
    pub program_names: Seq<Seq<char>>,
    pub programs: Seq<ProgramObjectView>,
}

/// The models of the map descriptions, in order.
pub open spec fn map_object_views(maps: Seq<MapObject>) -> Seq<MapObjectView> {
    Seq::new(maps.len(), |i: int| maps[i]@)
}

/// The models of the program descriptions, in order.
pub open spec fn program_object_views(programs: Seq<ProgramObject>) -> Seq<ProgramObjectView> {
    Seq::new(programs.len(), |i: int| programs[i]@)
}

impl View for Object {
    type V = ObjectView;

    open spec fn view(&self) -> ObjectView {
        ObjectView {
            map_names: self.maps.names(),
            maps: map_object_views(self.maps.values()),
            program_names: self.programs.names(),
            programs: program_object_views(self.programs.values()),
        }
    }
}

impl ObjectView {
    /// Every name has a description, and no name occurs twice among the maps
    /// or among the programs.
    pub open spec fn wf(self) -> bool {
        &&& self.map_names.len() == self.maps.len()
        &&& self.map_names.no_duplicates()
        &&& self.program_names.len() == self.programs.len()
        &&& self.program_names.no_duplicates()
    }
}

impl Object {
    /// An object without maps and without programs.
    pub fn new() -> (object: Object)
        ensures
            object@.map_names.len() == 0,
            object@.maps.len() == 0,
            object@.program_names.len() == 0,
            object@.programs.len() == 0,
            object@.wf(),
    {
        Object { maps: NameTable::new(), programs: NameTable::new() }
    }

    /// Adds a map under a name that no map of the object has yet. Where the
    /// name is taken, the object stays as it was and the map comes back.
    pub fn add_map(&mut self, name: String, map: MapObject) -> (refused: Option<
        (String, MapObject),
    >)
        ensures
            old(self)@.map_names.contains(name@) ==> {
                &&& refused == Some((name, map))
                &&& final(self)@ == old(self)@
            },
            !old(self)@.map_names.contains(name@) ==> {
                &&& refused.is_none()
                &&& final(self)@ == (ObjectView {
                    map_names: old(self)@.map_names.push(name@),
                    maps: old(self)@.maps.push(map@),
                    ..old(self)@
                })
            },
    {
        let refused = self.maps.insert(name, map);
        proof {
            if !old(self)@.map_names.contains(name@) {
                assert(final(self)@.maps =~= old(self)@.maps.push(map@));
            }
        }
        refused
    }

    /// Adds a program under a name that no program of the object has yet.
    /// Where the name is taken, the object stays as it was and the program
    /// comes back.
    pub fn add_program(&mut self, name: String, program: ProgramObject) -> (refused: Option<
        (String, ProgramObject),
    >)
        ensures
            old(self)@.program_names.contains(name@) ==> {
                &&& refused == Some((name, program))
                &&& final(self)@ == old(self)@
            },
            !old(self)@.program_names.contains(name@) ==> {
                &&& refused.is_none()
                &&& final(self)@ == (ObjectView {
                    program_names: old(self)@.program_names.push(name@),
                    programs: old(self)@.programs.push(program@),
                    ..old(self)@
                })
            },
    {
        let refused = self.programs.insert(name, program);
        proof {
            if !old(self)@.program_names.contains(name@) {
                assert(final(self)@.programs =~= old(self)@.programs.push(program@));
            }
        }
        refused
    }
}

} // verus!
