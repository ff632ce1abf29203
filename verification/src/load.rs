//! The load pipeline, step by step.
//!
//! Loading an object takes work that only the outside can do: reading a
//! file, parsing it, asking for the number of CPUs, and calling the kernel.
//! The pipeline does none of it. It is a state machine: a `Loading` says
//! which `Request` is due, and `resume` takes the `Outcome` of that request
//! and gives the next step. A driver performs each request and hands the
//! outcome back until the step is `Loaded` or `Failed`.
//!
//! The maps are made in the order of the object, all of them before any
//! relocation. The map pass and the call pass follow, then every program is
//! given its kind. A failure ends the load, and names every handle that the
//! load had acquired, so that the driver can release them.

use crate::abi::BPF_MAP_TYPE_PERF_EVENT_ARRAY;
use crate::bpf::{map_views, Bpf, BpfError, BpfErrorView, BpfView};
use crate::btf::{Btf, BtfError};
use crate::maps::{MapData, MapDefinition, MapError, MapErrorView, MapView, PinningType};
use crate::obj::{
    map_object_views, program_object_views, MapObject, MapObjectView, Object, ObjectView,
    ParseError, ProgramObject, ProgramObjectView, ProgramSection,
};
use crate::programs::{classified, Program, ProgramView};
use crate::relocation::{
    handles_of, relocate_calls, relocate_maps, relocate_named, ResolverView,
};
use crate::sys::{Handle, SysError};
use crate::table::NameTable;
use vstd::prelude::*;

verus! {

/// Where the numbers of the possible CPUs are read.
pub const POSSIBLE_CPUS: &'static str = "/sys/devices/system/cpu/possible";

/// The name of the section that holds only zeroes. A map of that name is
/// not filled.
pub const BSS_SECTION: &'static str = ".bss";

/// What the loader was set up with.
pub struct LoadConfig {
    pub pin_path: Option<Seq<char>>,
    pub btf: Option<Btf>,
}

/// The maps and programs of the object on their way through the pipeline.
pub struct LoadTables {
    pub map_names: Seq<Seq<char>>,
    pub maps: Seq<MapView>,
    pub program_names: Seq<Seq<char>>,
    pub programs: Seq<ProgramObjectView>,
}

/// What the pipeline waits for, for the map it is working on.
#[derive(Copy, Clone, Debug, PartialEq, Eq, Structural)]
pub enum MapPhase {
    /// The number of possible CPUs, to size the map by.
    Cpus,
    /// The map as found under its pin path.
    Open,
    /// The map as made anew.
    Create,
    /// The pin of the map that was made.
    Pin,
    /// The initial data as written into the map.
    Populate,
}

/// The model of the stage that a load is in.
pub enum StageView {
    ReadFile { path: Seq<char> },
    Parse { data: Seq<u8> },
    Btf { object: ObjectView },
    Maps { tables: LoadTables, next: int, phase: MapPhase },
}

/// The model of a `Loading`.
pub struct LoadingView {
    pub config: LoadConfig,
    pub stage: StageView,
}

/// The model of a `Request`.
pub enum RequestView {
    ReadFile { path: Seq<char> },
    Parse { data: Seq<u8> },
    RelocateBtf { btf: Btf, object: ObjectView },
    PossibleCpus,
    OpenPinned { path: Seq<char> },
    CreateMap { name: Seq<char>, def: MapDefinition },
    PinMap { fd: Handle, path: Seq<char> },
    UpdateElem { fd: Handle, key: u32, value: Seq<u8>, flags: u64 },
}

/// The model of an `Outcome`.
pub enum OutcomeView {
    FileRead(Result<Seq<u8>, std::io::Error>),
    Parsed(Result<ObjectView, Seq<char>>),
    BtfRelocated(Result<Seq<Seq<u64>>, Seq<char>>),
    PossibleCpus(Result<u32, std::io::Error>),
    Opened(Result<Handle, SysError>),
    Created(Result<Handle, SysError>),
    Pinned(Result<(), SysError>),
    Updated(Result<(), SysError>),
}

/// The model of a `LoadStep`.
pub enum LoadStepView {
    Pending(LoadingView),
    Loaded(BpfView),
    Failed { error: BpfErrorView, release: Seq<Handle> },
}

/// The path under which a map is pinned: its name below the pin path.
pub open spec fn pin_target(base: Seq<char>, name: Seq<char>) -> Seq<char> {
    base + "/"@ + name
}

/// The handles that the maps have, in the order of the maps.
pub open spec fn held_handles(maps: Seq<MapView>) -> Seq<Handle>
    decreases maps.len(),
{
    if maps.len() == 0 {
        Seq::empty()
    } else {
        match maps.last().fd {
            Some(fd) => held_handles(maps.drop_last()).push(fd),
            None => held_handles(maps.drop_last()),
        }
    }
}

/// The handle of each map, position by position.
pub open spec fn map_handles(maps: Seq<MapView>) -> Seq<Option<Handle>> {
    Seq::new(maps.len(), |i: int| maps[i].fd)
}

/// The maps of an object before the kernel knows them.
pub open spec fn unloaded_maps(maps: Seq<MapObjectView>) -> Seq<MapView> {
    Seq::new(
        maps.len(),
        |i: int| MapView { def: maps[i].def, data: maps[i].data, fd: None, pinned: false },
    )
}

/// The programs with the given instruction streams in place of their own.
pub open spec fn with_instructions(programs: Seq<ProgramObjectView>, streams: Seq<Seq<u64>>) -> Seq<
    ProgramObjectView,
> {
    Seq::new(
        programs.len(),
        |i: int| ProgramObjectView { instructions: streams[i], ..programs[i] },
    )
}

/// Each program as one of the kind of its section.
pub open spec fn classify_all(names: Seq<Seq<char>>, programs: Seq<ProgramObjectView>) -> Seq<
    ProgramView,
> {
    Seq::new(programs.len(), |i: int| classified(names[i], programs[i]))
}

impl LoadTables {
    /// The tables that an object starts with.
    pub open spec fn of_object(object: ObjectView) -> LoadTables {
        LoadTables {
            map_names: object.map_names,
            maps: unloaded_maps(object.maps),
            program_names: object.program_names,
            programs: object.programs,
        }
    }

    /// Every name has its entry, and no name occurs twice among the maps or
    /// among the programs.
    pub open spec fn wf(self) -> bool {
        &&& self.map_names.len() == self.maps.len()
        &&& self.map_names.no_duplicates()
        &&& self.program_names.len() == self.programs.len()
        &&& self.program_names.no_duplicates()
        &&& self.program_names.len() <= usize::MAX
    }

    /// The tables with another map at a position.
    pub open spec fn with_map(self, at: int, map: MapView) -> LoadTables {
        LoadTables { maps: self.maps.update(at, map), ..self }
    }
}

impl LoadingView {
    /// What holds of every state that the pipeline reaches.
    pub open spec fn wf(self) -> bool {
        match self.stage {
            StageView::ReadFile { .. } => true,
            StageView::Parse { .. } => true,
            StageView::Btf { object } => self.config.btf is Some && object.wf()
                && object.program_names.len() <= usize::MAX,
            StageView::Maps { tables, next, phase } => {
                &&& tables.wf()
                &&& 0 <= next < tables.maps.len()
                &&& phase != MapPhase::Cpus && tables.maps[next].def.pinning == PinningType::ByName
                    ==> self.config.pin_path is Some
                &&& phase == MapPhase::Open || phase == MapPhase::Pin ==> tables.maps[next].def.pinning
                    == PinningType::ByName
                &&& phase == MapPhase::Pin || phase == MapPhase::Populate
                    ==> tables.maps[next].fd is Some
            },
        }
    }
}

/// The load has failed: the error, and every handle that the maps hold.
pub open spec fn failed(error: BpfErrorView, tables: LoadTables) -> LoadStepView {
    LoadStepView::Failed { error, release: held_handles(tables.maps) }
}

/// The pipeline waits, in a phase, for the map at `next`.
pub open spec fn waiting(
    config: LoadConfig,
    tables: LoadTables,
    next: int,
    phase: MapPhase,
) -> LoadStepView {
    LoadStepView::Pending(LoadingView { config, stage: StageView::Maps { tables, next, phase } })
}

/// All maps are made: the map pass, the call pass, and the kinds of the
/// programs.
pub open spec fn finished(tables: LoadTables) -> LoadStepView {
    match relocate_named(
        tables.program_names,
        tables.programs,
        ResolverView::Maps { names: tables.map_names, handles: map_handles(tables.maps) },
    ) {
        Err(e) => failed(e, tables),
        Ok(with_maps) => match relocate_named(
            tables.program_names,
            with_maps,
            ResolverView::Calls { names: tables.program_names },
        ) {
            Err(e) => failed(e, tables),
            Ok(with_calls) => LoadStepView::Loaded(
                BpfView {
                    map_names: tables.map_names,
                    maps: tables.maps,
                    program_names: tables.program_names,
                    programs: classify_all(tables.program_names, with_calls),
                },
            ),
        },
    }
}

/// The map at `next` has its size: it is opened from its pin where it is
/// pinned by name, which takes a pin path, and made anew where it is not.
pub open spec fn placed(config: LoadConfig, tables: LoadTables, next: int) -> LoadStepView {
    match tables.maps[next].def.pinning {
        PinningType::ByName => match config.pin_path {
            None => failed(BpfErrorView::NoPinPath, tables),
            Some(_) => waiting(config, tables, next, MapPhase::Open),
        },
        PinningType::Unpinned => waiting(config, tables, next, MapPhase::Create),
    }
}

/// The pipeline turns to the map at `next`, or to the programs after the
/// last map. A perf event array without a number of entries is first sized
/// by the number of possible CPUs.
pub open spec fn started(config: LoadConfig, tables: LoadTables, next: int) -> LoadStepView {
    if next >= tables.maps.len() {
        finished(tables)
    } else if tables.maps[next].def.map_type == BPF_MAP_TYPE_PERF_EVENT_ARRAY
        && tables.maps[next].def.max_entries == 0 {
        waiting(config, tables, next, MapPhase::Cpus)
    } else {
        placed(config, tables, next)
    }
}

/// The map at `next` has its handle: its initial data is written, unless it
/// has none or is the section of zeroes.
pub open spec fn filled(config: LoadConfig, tables: LoadTables, next: int) -> LoadStepView {
    if tables.maps[next].data.len() > 0 && tables.map_names[next] != BSS_SECTION@ {
        waiting(config, tables, next, MapPhase::Populate)
    } else {
        started(config, tables, next + 1)
    }
}

/// The pipeline has the object: it turns to the first map.
pub open spec fn begun(config: LoadConfig, object: ObjectView) -> LoadStepView {
    started(config, LoadTables::of_object(object), 0)
}

/// The error of a failed system call on a map.
pub open spec fn syscall_error(call: Seq<char>, e: SysError) -> BpfErrorView {
    BpfErrorView::MapError(MapErrorView::SyscallError { call, code: e.code, io_error: e.io_error })
}

/// What is due in a state.
pub open spec fn request_of(loading: LoadingView) -> RequestView {
    match loading.stage {
        StageView::ReadFile { path } => RequestView::ReadFile { path },
        StageView::Parse { data } => RequestView::Parse { data },
        StageView::Btf { object } => RequestView::RelocateBtf {
            btf: loading.config.btf->Some_0,
            object,
        },
        StageView::Maps { tables, next, phase } => match phase {
            MapPhase::Cpus => RequestView::PossibleCpus,
            MapPhase::Open => RequestView::OpenPinned {
                path: pin_target(loading.config.pin_path->Some_0, tables.map_names[next]),
            },
            MapPhase::Create => RequestView::CreateMap {
                name: tables.map_names[next],
                def: tables.maps[next].def,
            },
            MapPhase::Pin => RequestView::PinMap {
                fd: tables.maps[next].fd->Some_0,
                path: pin_target(loading.config.pin_path->Some_0, tables.map_names[next]),
            },
            MapPhase::Populate => RequestView::UpdateElem {
                fd: tables.maps[next].fd->Some_0,
                key: 0,
                value: tables.maps[next].data,
                flags: 0,
            },
        },
    }
}

/// The step that follows a state once the outcome of its request is known.
/// An outcome that does not answer the request is passed over: the state
/// stays, and the request is still due.
pub open spec fn resume_of(loading: LoadingView, outcome: OutcomeView) -> LoadStepView {
    let config = loading.config;
    match (loading.stage, outcome) {
        (StageView::ReadFile { path }, OutcomeView::FileRead(read)) => match read {
            Err(error) => LoadStepView::Failed {
                error: BpfErrorView::FileError { path, error },
                release: Seq::empty(),
            },
            Ok(data) => LoadStepView::Pending(
                LoadingView { config, stage: StageView::Parse { data } },
            ),
        },
        (StageView::Parse { data }, OutcomeView::Parsed(parsed)) => match parsed {
            Err(message) => LoadStepView::Failed {
                error: BpfErrorView::ParseError(message),
                release: Seq::empty(),
            },
            Ok(object) => if config.btf is Some {
                LoadStepView::Pending(LoadingView { config, stage: StageView::Btf { object } })
            } else {
                begun(config, object)
            },
        },
        (StageView::Btf { object }, OutcomeView::BtfRelocated(relocated)) => match relocated {
            Err(message) => LoadStepView::Failed {
                error: BpfErrorView::BtfError(message),
                release: Seq::empty(),
            },
            Ok(streams) => if streams.len() == object.programs.len() {
                begun(
                    config,
                    ObjectView { programs: with_instructions(object.programs, streams), ..object },
                )
            } else {
                LoadStepView::Pending(loading)
            },
        },
        (
            StageView::Maps { tables, next, phase: MapPhase::Cpus },
            OutcomeView::PossibleCpus(counted),
        ) => match counted {
            Err(error) => failed(BpfErrorView::FileError { path: POSSIBLE_CPUS@, error }, tables),
            Ok(cpus) => placed(
                config,
                tables.with_map(
                    next,
                    MapView {
                        def: MapDefinition { max_entries: cpus, ..tables.maps[next].def },
                        ..tables.maps[next]
                    },
                ),
                next,
            ),
        },
        (
            StageView::Maps { tables, next, phase: MapPhase::Open },
            OutcomeView::Opened(opened),
        ) => match opened {
            Ok(fd) => filled(
                config,
                tables.with_map(next, MapView { fd: Some(fd), pinned: true, ..tables.maps[next] }),
                next,
            ),
            Err(_) => waiting(config, tables, next, MapPhase::Create),
        },
        (
            StageView::Maps { tables, next, phase: MapPhase::Create },
            OutcomeView::Created(created),
        ) => match created {
            Err(e) => failed(syscall_error("bpf_create_map"@, e), tables),
            Ok(fd) => {
                let made = tables.with_map(next, MapView { fd: Some(fd), ..tables.maps[next] });
                if tables.maps[next].def.pinning == PinningType::ByName && config.pin_path is Some {
                    waiting(config, made, next, MapPhase::Pin)
                } else {
                    filled(config, made, next)
                }
            },
        },
        (
            StageView::Maps { tables, next, phase: MapPhase::Pin },
            OutcomeView::Pinned(pinned),
        ) => match pinned {
            Err(e) => failed(syscall_error("bpf_pin_object"@, e), tables),
            Ok(_) => filled(
                config,
                tables.with_map(next, MapView { pinned: true, ..tables.maps[next] }),
                next,
            ),
        },
        (
            StageView::Maps { tables, next, phase: MapPhase::Populate },
            OutcomeView::Updated(updated),
        ) => match updated {
            Err(e) => failed(syscall_error("bpf_map_update_elem"@, e), tables),
            Ok(_) => started(config, tables, next + 1),
        },
        _ => LoadStepView::Pending(loading),
    }
}

/// Where the pipeline stands after a run of outcomes, each handed to the
/// state that the one before it led to. Outcomes that come after the load
/// has ended change nothing.
pub open spec fn run(step: LoadStepView, outcomes: Seq<OutcomeView>) -> LoadStepView
    decreases outcomes.len(),
{
    if outcomes.len() == 0 {
        step
    } else {
        match run(step, outcomes.drop_last()) {
            LoadStepView::Pending(loading) => resume_of(loading, outcomes.last()),
            ended => ended,
        }
    }
}

/// What a load asks its driver to do.
#[derive(Debug)]
pub enum Request<'r> {
    /// Read the file at the path.
    ReadFile { path: &'r str },
    /// Parse the bytes of an object file.
    Parse { data: &'r [u8] },
    /// Relocate the programs of the object by the debug-type information,
    /// and give the instructions of each program, in the order of the
    /// object.
    RelocateBtf { btf: &'r Btf, object: &'r Object },
    /// Count the possible CPUs.
    PossibleCpus,
    /// Open the map that is pinned at the path.
    OpenPinned { path: &'r str },
    /// Create a map.
    CreateMap { name: &'r str, def: &'r MapDefinition },
    /// Pin the map at the path.
    PinMap { fd: Handle, path: &'r str },
    /// Write the value under the key into the map.
    UpdateElem { fd: Handle, key: u32, value: &'r [u8], flags: u64 },
}

impl<'r> View for Request<'r> {
    type V = RequestView;

    open spec fn view(&self) -> RequestView {
        match self {
            Request::ReadFile { path } => RequestView::ReadFile { path: path@ },
            Request::Parse { data } => RequestView::Parse { data: data@ },
            Request::RelocateBtf { btf, object } => RequestView::RelocateBtf {
                btf: **btf,
                object: object@,
            },
            Request::PossibleCpus => RequestView::PossibleCpus,
            Request::OpenPinned { path } => RequestView::OpenPinned { path: path@ },
            Request::CreateMap { name, def } => RequestView::CreateMap { name: name@, def: **def },
            Request::PinMap { fd, path } => RequestView::PinMap { fd: *fd, path: path@ },
            Request::UpdateElem { fd, key, value, flags } => RequestView::UpdateElem {
                fd: *fd,
                key: *key,
                value: value@,
                flags: *flags,
            },
        }
    }
}

/// What came of a request.
#[derive(Debug)]
pub enum Outcome {
    FileRead(Result<Vec<u8>, std::io::Error>),
    Parsed(Result<Object, ParseError>),
    BtfRelocated(Result<Vec<Vec<u64>>, BtfError>),
    PossibleCpus(Result<u32, std::io::Error>),
    Opened(Result<Handle, SysError>),
    Created(Result<Handle, SysError>),
    Pinned(Result<(), SysError>),
    Updated(Result<(), SysError>),
}

/// The instruction streams, each as a sequence.
pub open spec fn stream_views(streams: Seq<Vec<u64>>) -> Seq<Seq<u64>> {
    Seq::new(streams.len(), |i: int| streams[i]@)
}

impl View for Outcome {
    type V = OutcomeView;

    open spec fn view(&self) -> OutcomeView {
        match self {
            Outcome::FileRead(read) => OutcomeView::FileRead(
                match read {
                    Ok(data) => Ok(data@),
                    Err(e) => Err(*e),
                },
            ),
            Outcome::Parsed(parsed) => OutcomeView::Parsed(
                match parsed {
                    Ok(object) => Ok(object@),
                    Err(e) => Err(e.message@),
                },
            ),
            Outcome::BtfRelocated(relocated) => OutcomeView::BtfRelocated(
                match relocated {
                    Ok(streams) => Ok(stream_views(streams@)),
                    Err(e) => Err(e.message@),
                },
            ),
            Outcome::PossibleCpus(counted) => OutcomeView::PossibleCpus(*counted),
            Outcome::Opened(opened) => OutcomeView::Opened(*opened),
            Outcome::Created(created) => OutcomeView::Created(*created),
            Outcome::Pinned(pinned) => OutcomeView::Pinned(*pinned),
            Outcome::Updated(updated) => OutcomeView::Updated(*updated),
        }
    }
}

/// The stage that a load is in, with what it holds.
#[derive(Debug)]
enum Stage {
    ReadFile { path: String },
    Parse { data: Vec<u8> },
    Btf { object: Object },
    Maps {
        maps: NameTable<MapData>,
        programs: NameTable<ProgramObject>,
        next: usize,
        phase: MapPhase,
        path: String,
    },
}

/// A load that waits for the outcome of a request.
#[derive(Debug)]
pub struct Loading<'a> {
    pin_path: Option<String>,
    btf: Option<&'a Btf>,
    stage: Stage,
}

/// The model of what the loader was set up with.
pub open spec fn config_of(pin_path: Option<String>, btf: Option<&Btf>) -> LoadConfig {
    LoadConfig {
        pin_path: match pin_path {
            Some(path) => Some(path@),
            None => None,
        },
        btf: match btf {
            Some(btf) => Some(*btf),
            None => None,
        },
    }
}

/// The model of the tables of a load.
pub open spec fn tables_of(
    maps: &NameTable<MapData>,
    programs: &NameTable<ProgramObject>,
) -> LoadTables {
    LoadTables {
        map_names: maps.names(),
        maps: map_views(maps.values()),
        program_names: programs.names(),
        programs: program_object_views(programs.values()),
    }
}

impl<'a> View for Loading<'a> {
    type V = LoadingView;

    closed spec fn view(&self) -> LoadingView {
        LoadingView {
            config: config_of(self.pin_path, self.btf),
            stage: match self.stage {
                Stage::ReadFile { path } => StageView::ReadFile { path: path@ },
                Stage::Parse { data } => StageView::Parse { data: data@ },
                Stage::Btf { object } => StageView::Btf { object: object@ },
                Stage::Maps { maps, programs, next, phase, path } => StageView::Maps {
                    tables: tables_of(&maps, &programs),
                    next: next as int,
                    phase,
                },
            },
        }
    }
}

/// The outcome of one step of a load.
#[derive(Debug)]
pub enum LoadStep<'a> {
    /// The load waits for the outcome of a request.
    Pending(Loading<'a>),
    /// The load is done.
    Loaded(Bpf),
    /// The load has failed. The handles in `release` were acquired on the
    /// way and are to be released.
    Failed { error: BpfError, release: Vec<Handle> },
}

impl<'a> View for LoadStep<'a> {
    type V = LoadStepView;

    open spec fn view(&self) -> LoadStepView {
        match self {
            LoadStep::Pending(loading) => LoadStepView::Pending(loading@),
            LoadStep::Loaded(bpf) => LoadStepView::Loaded(bpf@),
            LoadStep::Failed { error, release } => LoadStepView::Failed {
                error: error@,
                release: release@,
            },
        }
    }
}

/// The handles of the first maps come before the handle of the map after
/// them.
proof fn lemma_held_handles_step(maps: Seq<MapView>, i: int)
    requires
        0 <= i < maps.len(),
    ensures
        held_handles(maps.take(i + 1)) == match maps[i].fd {
            Some(fd) => held_handles(maps.take(i)).push(fd),
            None => held_handles(maps.take(i)),
        },
{
    assert(maps.take(i + 1).drop_last() =~= maps.take(i));
}

/// The error of a failed system call on a map.
fn syscall_failure(call: &str, e: SysError) -> (error: BpfError)
    ensures
        error@ == syscall_error(call@, e),
{
    BpfError::MapError(
        MapError::SyscallError { call: call.to_owned(), code: e.code, io_error: e.io_error },
    )
}

/// Ends a load with an error, and names the handles that the maps hold.
fn fail<'a>(error: BpfError, maps: &NameTable<MapData>) -> (step: LoadStep<'a>)
    ensures
        step@ == (LoadStepView::Failed {
            error: error@,
            release: held_handles(map_views(maps.values())),
        }),
{
    let ghost views = map_views(maps.values());
    let count = maps.len();
    let mut release: Vec<Handle> = Vec::new();
    let mut i: usize = 0;
    while i < count
        invariant
            i <= count,
            count == maps.values().len(),
            views == map_views(maps.values()),
            release@ == held_handles(views.take(i as int)),
        decreases count - i,
    {
        proof {
            lemma_held_handles_step(views, i as int);
        }
        match maps.value_at(i).fd() {
            Some(fd) => {
                release.push(fd);
            },
            None => {},
        }
        i += 1;
    }
    assert(views.take(count as int) =~= views);
    LoadStep::Failed { error, release }
}

/// Gives every program its kind.
fn classify_programs(programs: NameTable<ProgramObject>) -> (classified: NameTable<Program>)
    ensures
        classified.wf(),
        classified.names() == programs.names(),
        crate::bpf::program_views(classified.values()) == classify_all(
            programs.names(),
            program_object_views(programs.values()),
        ),
{
    let ghost before = programs.values();
    let (names, mut values) = programs.into_parts();
    let count = values.len();
    let mut made: Vec<Program> = Vec::new();
    let mut i: usize = 0;
    while i < count
        invariant
            i <= count,
            count == values.len(),
            count == names.names().len(),
            before.len() == count,
            made.len() == i,
            forall|j: int| i <= j < count ==> values[j] == before[j],
            forall|j: int| 0 <= j < i ==> (#[trigger] made[j])@ == classified(names.names()[j], before[j]@),
        decreases count - i,
    {
        let mut taken = ProgramObject {
            section: ProgramSection::KProbe,
            instructions: Vec::new(),
            relocations: Vec::new(),
        };
        core::mem::swap(&mut values[i], &mut taken);
        made.push(Program::classify(names.name_at(i), taken));
        i += 1;
    }
    let table = names.with_values(made);
    assert(crate::bpf::program_views(table.values()) =~= classify_all(
        programs.names(),
        program_object_views(programs.values()),
    ));
    table
}

/// Makes of every map of the object a map that the kernel does not know
/// yet.
fn unload_maps(maps: NameTable<MapObject>) -> (unloaded: NameTable<MapData>)
    ensures
        unloaded.wf(),
        unloaded.names() == maps.names(),
        map_views(unloaded.values()) == unloaded_maps(map_object_views(maps.values())),
{
    let ghost before = maps.values();
    let (names, mut values) = maps.into_parts();
    let count = values.len();
    let mut made: Vec<MapData> = Vec::new();
    let mut i: usize = 0;
    while i < count
        invariant
            i <= count,
            count == values.len(),
            before.len() == count,
            made.len() == i,
            forall|j: int| i <= j < count ==> values[j] == before[j],
            forall|j: int|
                0 <= j < i ==> (#[trigger] made[j])@ == (MapView {
                    def: before[j].def,
                    data: before[j].data@,
                    fd: None,
                    pinned: false,
                }),
        decreases count - i,
    {
        let mut taken = MapObject { def: values[i].def, data: Vec::new() };
        core::mem::swap(&mut values[i], &mut taken);
        made.push(MapData::new(taken));
        i += 1;
    }
    let table = names.with_values(made);
    assert(map_views(table.values()) =~= unloaded_maps(map_object_views(maps.values())));
    table
}

/// Puts the given instructions in the place of those of each program.
fn install_streams(programs: &mut NameTable<ProgramObject>, streams: Vec<Vec<u64>>)
    requires
        streams.len() == old(programs).values().len(),
    ensures
        final(programs).wf(),
        final(programs).names() == old(programs).names(),
        program_object_views(final(programs).values()) == with_instructions(
            program_object_views(old(programs).values()),
            stream_views(streams@),
        ),
{
    let mut streams = streams;
    let ghost given = streams@;
    let count = programs.len();
    let mut i: usize = 0;
    while i < count
        invariant
            programs.wf(),
            i <= count,
            count == streams.len(),
            count == given.len(),
            count == programs.values().len(),
            programs.names() == old(programs).names(),
            programs.values().len() == old(programs).values().len(),
            forall|j: int| i <= j < count ==> streams[j] == given[j],
            forall|j: int| i <= j < count ==> programs.values()[j] == old(programs).values()[j],
            forall|j: int|
                0 <= j < i ==> (#[trigger] programs.values()[j])@ == (ProgramObjectView {
                    instructions: given[j]@,
                    ..old(programs).values()[j]@
                }),
        decreases count - i,
    {
        let mut stream: Vec<u64> = Vec::new();
        core::mem::swap(&mut streams[i], &mut stream);
        let program = programs.value_at_mut(i);
        program.instructions = stream;
        i += 1;
    }
    assert(program_object_views(programs.values()) =~= with_instructions(
        program_object_views(old(programs).values()),
        stream_views(given),
    ));
}


/// Whether `path` is where the map of that name is pinned.
spec fn path_fits(pin_path: Option<String>, path: String, name: Seq<char>) -> bool {
    pin_path matches Some(base) && path@ == pin_target(base@, name)
}

/// A load that waits, in a phase, for the map at `next`.
fn wait<'a>(
    pin_path: Option<String>,
    btf: Option<&'a Btf>,
    maps: NameTable<MapData>,
    programs: NameTable<ProgramObject>,
    next: usize,
    phase: MapPhase,
    path: String,
) -> (step: LoadStep<'a>)
    requires
        next < maps.values().len(),
        phase != MapPhase::Cpus && maps.values()[next as int]@.def.pinning == PinningType::ByName
            ==> pin_path is Some,
        phase == MapPhase::Open || phase == MapPhase::Pin ==> maps.values()[next as int]@.def.pinning
            == PinningType::ByName,
        phase == MapPhase::Pin || phase == MapPhase::Populate ==> maps.values()[next as int]@.fd is Some,
        phase != MapPhase::Cpus && phase != MapPhase::Populate && maps.values()[next as int]@.def.pinning
            == PinningType::ByName ==> path_fits(pin_path, path, maps.names()[next as int]),
    ensures
        step@ == waiting(config_of(pin_path, btf), tables_of(&maps, &programs), next as int, phase),
{
    proof {
        use_type_invariant(&maps);
        use_type_invariant(&programs);
        maps.lemma_wf();
        programs.lemma_wf();
    }
    LoadStep::Pending(
        Loading { pin_path, btf, stage: Stage::Maps { maps, programs, next, phase, path } },
    )
}

/// All maps are made: the map pass, the call pass, and the kinds of the
/// programs.
fn finish<'a>(maps: NameTable<MapData>, programs: NameTable<ProgramObject>) -> (step: LoadStep<'a>)
    ensures
        step@ == finished(tables_of(&maps, &programs)),
{
    let ghost tables = tables_of(&maps, &programs);
    let mut programs = programs;
    assert(handles_of(maps.values()) =~= map_handles(map_views(maps.values())));
    match relocate_maps(&mut programs, &maps) {
        Err(e) => {
            return fail(e, &maps);
        },
        Ok(_) => {},
    }
    match relocate_calls(&mut programs) {
        Err(e) => {
            return fail(e, &maps);
        },
        Ok(_) => {},
    }
    let programs = classify_programs(programs);
    LoadStep::Loaded(Bpf::from_tables(maps, programs))
}

/// The map at `next` has its size: it is opened from its pin, or made anew.
fn place_map<'a>(
    pin_path: Option<String>,
    btf: Option<&'a Btf>,
    maps: NameTable<MapData>,
    programs: NameTable<ProgramObject>,
    next: usize,
) -> (step: LoadStep<'a>)
    requires
        next < maps.values().len(),
    ensures
        step@ == placed(config_of(pin_path, btf), tables_of(&maps, &programs), next as int),
{
    proof {
        use_type_invariant(&maps);
        maps.lemma_wf();
    }
    match maps.value_at(next).definition().pinning {
        PinningType::ByName => {
            let path = match &pin_path {
                None => {
                    return fail(BpfError::NoPinPath, &maps);
                },
                Some(base) => base.clone().concat("/").concat(maps.name_at(next)),
            };
            wait(pin_path, btf, maps, programs, next, MapPhase::Open, path)
        },
        PinningType::Unpinned => wait(
            pin_path,
            btf,
            maps,
            programs,
            next,
            MapPhase::Create,
            String::new(),
        ),
    }
}

/// The pipeline turns to the map at `next`, or to the programs after the
/// last map.
fn start_map<'a>(
    pin_path: Option<String>,
    btf: Option<&'a Btf>,
    maps: NameTable<MapData>,
    programs: NameTable<ProgramObject>,
    next: usize,
) -> (step: LoadStep<'a>)
    ensures
        step@ == started(config_of(pin_path, btf), tables_of(&maps, &programs), next as int),
{
    if next >= maps.len() {
        return finish(maps, programs);
    }
    let def = maps.value_at(next).definition();
    if def.map_type == BPF_MAP_TYPE_PERF_EVENT_ARRAY && def.max_entries == 0 {
        wait(pin_path, btf, maps, programs, next, MapPhase::Cpus, String::new())
    } else {
        place_map(pin_path, btf, maps, programs, next)
    }
}

/// The map at `next` has its handle: its initial data is written, unless it
/// has none or is the section of zeroes.
fn fill_map<'a>(
    pin_path: Option<String>,
    btf: Option<&'a Btf>,
    maps: NameTable<MapData>,
    programs: NameTable<ProgramObject>,
    next: usize,
) -> (step: LoadStep<'a>)
    requires
        next < maps.values().len(),
        maps.values()[next as int]@.fd is Some,
        maps.values()[next as int]@.def.pinning == PinningType::ByName ==> pin_path is Some,
    ensures
        step@ == filled(config_of(pin_path, btf), tables_of(&maps, &programs), next as int),
{
    proof {
        use_type_invariant(&maps);
        maps.lemma_wf();
    }
    if maps.value_at(next).data().len() > 0 && !maps.name_equals(next, BSS_SECTION) {
        wait(pin_path, btf, maps, programs, next, MapPhase::Populate, String::new())
    } else {
        start_map(pin_path, btf, maps, programs, next + 1)
    }
}

/// The pipeline has the object: it turns to the first map.
fn begin<'a>(pin_path: Option<String>, btf: Option<&'a Btf>, object: Object) -> (step: LoadStep<'a>)
    ensures
        step@ == begun(config_of(pin_path, btf), object@),
{
    let Object { maps, programs } = object;
    let maps = unload_maps(maps);
    start_map(pin_path, btf, maps, programs, 0)
}

impl<'a> Loading<'a> {
    /// What holds of every load: its model is well formed, and the path of
    /// the pin is the one that belongs to the map in work.
    #[verifier::type_invariant]
    closed spec fn inv(&self) -> bool {
        &&& self@.wf()
        &&& match self.stage {
            Stage::Maps { maps, programs, next, phase, path } => phase != MapPhase::Cpus && phase
                != MapPhase::Populate && maps.values()[next as int]@.def.pinning
                == PinningType::ByName ==> path_fits(
                self.pin_path,
                path,
                maps.names()[next as int],
            ),
            _ => true,
        }
    }

    /// A load of the object file at the path.
    pub fn from_file(pin_path: Option<String>, btf: Option<&'a Btf>, path: &str) -> (loading:
        Loading<'a>)
        ensures
            loading@ == (LoadingView {
                config: config_of(pin_path, btf),
                stage: StageView::ReadFile { path: path@ },
            }),
            loading@.wf(),
    {
        Loading { pin_path, btf, stage: Stage::ReadFile { path: path.to_owned() } }
    }

    /// A load of the object file with these bytes.
    pub fn from_bytes(pin_path: Option<String>, btf: Option<&'a Btf>, data: &[u8]) -> (loading:
        Loading<'a>)
        ensures
            loading@ == (LoadingView {
                config: config_of(pin_path, btf),
                stage: StageView::Parse { data: data@ },
            }),
            loading@.wf(),
    {
        Loading { pin_path, btf, stage: Stage::Parse { data: vstd::slice::slice_to_vec(data) } }
    }

    /// The request that is due.
    pub fn request(&self) -> (request: Request<'_>)
        ensures
            self@.wf(),
            request@ == request_of(self@),
    {
        proof {
            use_type_invariant(self);
        }
        match &self.stage {
            Stage::ReadFile { path } => Request::ReadFile { path: path.as_str() },
            Stage::Parse { data } => Request::Parse { data: data.as_slice() },
            Stage::Btf { object } => Request::RelocateBtf { btf: self.btf.unwrap(), object },
            Stage::Maps { maps, programs, next, phase, path } => {
                let map = maps.value_at(*next);
                match phase {
                    MapPhase::Cpus => Request::PossibleCpus,
                    MapPhase::Open => Request::OpenPinned { path: path.as_str() },
                    MapPhase::Create => Request::CreateMap {
                        name: maps.name_at(*next),
                        def: map.definition(),
                    },
                    MapPhase::Pin => Request::PinMap { fd: map.fd().unwrap(), path: path.as_str() },
                    MapPhase::Populate => Request::UpdateElem {
                        fd: map.fd().unwrap(),
                        key: 0,
                        value: map.data(),
                        flags: 0,
                    },
                }
            },
        }
    }

    /// Takes the outcome of the request that was due, and gives the step
    /// that follows. An outcome that does not answer the request is passed
    /// over: the load stays where it was, and the request is still due.
    pub fn resume(self, outcome: Outcome) -> (step: LoadStep<'a>)
        ensures
            self@.wf(),
            step@ == resume_of(self@, outcome@),
    {
        proof {
            use_type_invariant(&self);
        }
        let Loading { pin_path, btf, stage } = self;
        match stage {
            Stage::ReadFile { path } => match outcome {
                Outcome::FileRead(Err(error)) => LoadStep::Failed {
                    error: BpfError::FileError { path, error },
                    release: Vec::new(),
                },
                Outcome::FileRead(Ok(data)) => LoadStep::Pending(
                    Loading { pin_path, btf, stage: Stage::Parse { data } },
                ),
                _ => LoadStep::Pending(Loading { pin_path, btf, stage: Stage::ReadFile { path } }),
            },
            Stage::Parse { data } => match outcome {
                Outcome::Parsed(Err(e)) => LoadStep::Failed {
                    error: BpfError::ParseError(e),
                    release: Vec::new(),
                },
                Outcome::Parsed(Ok(object)) => {
                    if btf.is_some() {
                        proof {
                            use_type_invariant(&object.maps);
                            use_type_invariant(&object.programs);
                            object.maps.lemma_wf();
                            object.programs.lemma_wf();
                        }
                        LoadStep::Pending(Loading { pin_path, btf, stage: Stage::Btf { object } })
                    } else {
                        begin(pin_path, btf, object)
                    }
                },
                _ => LoadStep::Pending(Loading { pin_path, btf, stage: Stage::Parse { data } }),
            },
            Stage::Btf { object } => match outcome {
                Outcome::BtfRelocated(Err(e)) => LoadStep::Failed {
                    error: BpfError::BtfError(e),
                    release: Vec::new(),
                },
                Outcome::BtfRelocated(Ok(streams)) => {
                    if streams.len() == object.programs.len() {
                        let Object { maps, programs } = object;
                        let mut programs = programs;
                        install_streams(&mut programs, streams);
                        begin(pin_path, btf, Object { maps, programs })
                    } else {
                        LoadStep::Pending(Loading { pin_path, btf, stage: Stage::Btf { object } })
                    }
                },
                _ => LoadStep::Pending(Loading { pin_path, btf, stage: Stage::Btf { object } }),
            },
            Stage::Maps { maps, programs, next, phase, path } => {
                let mut maps = maps;
                proof {
                    use_type_invariant(&maps);
                    maps.lemma_wf();
                }
                match (phase, outcome) {
                    (MapPhase::Cpus, Outcome::PossibleCpus(Err(error))) => fail(
                        BpfError::FileError { path: POSSIBLE_CPUS.to_owned(), error },
                        &maps,
                    ),
                    (MapPhase::Cpus, Outcome::PossibleCpus(Ok(cpus))) => {
                        maps.value_at_mut(next).set_max_entries(cpus);
                        assert(map_views(maps.values()) =~= map_views(old_maps(self)).update(
                            next as int,
                            maps.values()[next as int]@,
                        ));
                        place_map(pin_path, btf, maps, programs, next)
                    },
                    (MapPhase::Open, Outcome::Opened(Ok(fd))) => {
                        let map = maps.value_at_mut(next);
                        map.set_created(fd);
                        map.set_pinned();
                        assert(map_views(maps.values()) =~= map_views(old_maps(self)).update(
                            next as int,
                            maps.values()[next as int]@,
                        ));
                        fill_map(pin_path, btf, maps, programs, next)
                    },
                    (MapPhase::Open, Outcome::Opened(Err(_))) => wait(
                        pin_path,
                        btf,
                        maps,
                        programs,
                        next,
                        MapPhase::Create,
                        path,
                    ),
                    (MapPhase::Create, Outcome::Created(Err(e))) => fail(
                        syscall_failure("bpf_create_map", e),
                        &maps,
                    ),
                    (MapPhase::Create, Outcome::Created(Ok(fd))) => {
                        let by_name = match maps.value_at(next).definition().pinning {
                            PinningType::ByName => true,
                            PinningType::Unpinned => false,
                        };
                        maps.value_at_mut(next).set_created(fd);
                        assert(map_views(maps.values()) =~= map_views(old_maps(self)).update(
                            next as int,
                            maps.values()[next as int]@,
                        ));
                        if by_name && pin_path.is_some() {
                            wait(pin_path, btf, maps, programs, next, MapPhase::Pin, path)
                        } else {
                            fill_map(pin_path, btf, maps, programs, next)
                        }
                    },
                    (MapPhase::Pin, Outcome::Pinned(Err(e))) => fail(
                        syscall_failure("bpf_pin_object", e),
                        &maps,
                    ),
                    (MapPhase::Pin, Outcome::Pinned(Ok(_))) => {
                        maps.value_at_mut(next).set_pinned();
                        assert(map_views(maps.values()) =~= map_views(old_maps(self)).update(
                            next as int,
                            maps.values()[next as int]@,
                        ));
                        fill_map(pin_path, btf, maps, programs, next)
                    },
                    (MapPhase::Populate, Outcome::Updated(Err(e))) => fail(
                        syscall_failure("bpf_map_update_elem", e),
                        &maps,
                    ),
                    (MapPhase::Populate, Outcome::Updated(Ok(_))) => start_map(
                        pin_path,
                        btf,
                        maps,
                        programs,
                        next + 1,
                    ),
                    _ => LoadStep::Pending(
                        Loading {
                            pin_path,
                            btf,
                            stage: Stage::Maps { maps, programs, next, phase, path },
                        },
                    ),
                }
            },
        }
    }
}

/// The maps that a load in the stage of the maps holds.
spec fn old_maps(loading: Loading) -> Seq<MapData> {
    match loading.stage {
        Stage::Maps { maps, .. } => maps.values(),
        _ => Seq::empty(),
    }
}

} // verus!
