//! What holds of every load, whatever the outside answers.
//!
//! The laws speak of the model of the pipeline: of `begun`, the step that
//! follows once the object is at hand, of `resume_of`, the step that follows
//! an outcome, and of `run`, where a load stands after a run of outcomes.

use crate::abi::BPF_MAP_TYPE_PERF_EVENT_ARRAY;
use crate::bpf::BpfView;
use crate::load::{
    begun, classify_all, filled, finished, held_handles, map_handles, placed, request_of,
    resume_of, run, started, LoadConfig, LoadStepView, LoadTables, LoadingView, MapPhase,
    OutcomeView, RequestView, StageView,
};
use crate::maps::{MapDefinition, MapView, PinningType};
use crate::obj::{MapObjectView, ObjectView, ProgramObjectView, SymbolKind};
use crate::relocation::{
    law_relocated_word, lemma_apply_patches_len, lemma_no_failure, lemma_patch_origin,
    lemma_resolved_each, lemma_unpatched_word, relocate_named, relocate_program, resolve_records,
    ResolverView,
};
use crate::sys::Handle;
use vstd::prelude::*;

verus! {

/// Whether a map is declared as one to be sized by the number of CPUs.
pub open spec fn needs_sizing(declared: MapDefinition) -> bool {
    declared.map_type == BPF_MAP_TYPE_PERF_EVENT_ARRAY && declared.max_entries == 0
}

/// Whether a map has the layout and the data that the object declares for
/// it: all of it, but for the number of entries of a map that is sized by
/// the number of CPUs.
pub open spec fn as_declared(map: MapView, declared: MapObjectView) -> bool {
    &&& map.data == declared.data
    &&& map.def == MapDefinition { max_entries: map.def.max_entries, ..declared.def }
    &&& !needs_sizing(declared.def) ==> map.def == declared.def
}

/// Whether a map is as the object declares it and nothing was done to it.
pub open spec fn untouched(map: MapView, declared: MapObjectView) -> bool {
    map == (MapView { def: declared.def, data: declared.data, fd: None, pinned: false })
}

/// Whether a map is made: as declared, with a handle, pinned exactly where
/// it is pinned by name, which takes a pin path, and sized by `cpus` where
/// that is the number of CPUs that every count gave.
pub open spec fn made(
    map: MapView,
    declared: MapObjectView,
    config: LoadConfig,
    cpus: Option<u32>,
) -> bool {
    &&& as_declared(map, declared)
    &&& map.fd is Some
    &&& map.pinned == (declared.def.pinning == PinningType::ByName)
    &&& declared.def.pinning == PinningType::ByName ==> config.pin_path is Some
    &&& needs_sizing(declared.def) && cpus is Some ==> map.def.max_entries == cpus->Some_0
}

/// Whether the map in work is as far as its phase says.
pub open spec fn in_work(
    map: MapView,
    declared: MapObjectView,
    config: LoadConfig,
    cpus: Option<u32>,
    phase: MapPhase,
) -> bool {
    &&& as_declared(map, declared)
    &&& match phase {
        MapPhase::Cpus => untouched(map, declared) && needs_sizing(declared.def),
        MapPhase::Open => map.fd is None && !map.pinned,
        MapPhase::Create => map.fd is None && !map.pinned,
        MapPhase::Pin => map.fd is Some && !map.pinned,
        MapPhase::Populate => made(map, declared, config, cpus),
    }
    &&& phase != MapPhase::Cpus && needs_sizing(declared.def) && cpus is Some
        ==> map.def.max_entries == cpus->Some_0
}

/// Whether the tables are those of the object with the maps before `next`
/// made and the maps from `next` on untouched.
pub open spec fn made_up_to(
    tables: LoadTables,
    next: int,
    config: LoadConfig,
    object: ObjectView,
    cpus: Option<u32>,
) -> bool {
    &&& tables.wf()
    &&& tables.map_names == object.map_names
    &&& tables.program_names == object.program_names
    &&& tables.programs == object.programs
    &&& tables.maps.len() == object.maps.len()
    &&& forall|j: int|
        0 <= j < next && j < tables.maps.len() ==> made(
            #[trigger] tables.maps[j],
            object.maps[j],
            config,
            cpus,
        )
    &&& forall|j: int|
        next <= j < tables.maps.len() ==> untouched(#[trigger] tables.maps[j], object.maps[j])
}

/// Whether a state of the pipeline follows the object: the maps before the
/// one in work are made, the one in work is as far as its phase says, and
/// the maps after it are untouched.
pub open spec fn tracks(
    loading: LoadingView,
    config: LoadConfig,
    object: ObjectView,
    cpus: Option<u32>,
) -> bool {
    &&& loading.wf()
    &&& loading.config == config
    &&& loading.stage matches StageView::Maps { tables, next, phase }
    &&& tables.map_names == object.map_names
    &&& tables.program_names == object.program_names
    &&& tables.programs == object.programs
    &&& tables.maps.len() == object.maps.len()
    &&& forall|j: int|
        0 <= j < next ==> made(#[trigger] tables.maps[j], object.maps[j], config, cpus)
    &&& in_work(tables.maps[next], object.maps[next], config, cpus, phase)
    &&& forall|j: int|
        next < j < tables.maps.len() ==> untouched(#[trigger] tables.maps[j], object.maps[j])
}

/// The programs of an object after both passes, where both succeed.
pub open spec fn relocated_programs(
    names: Seq<Seq<char>>,
    maps: Seq<MapView>,
    object: ObjectView,
) -> Seq<
    ProgramObjectView,
> {
    relocate_named(
        object.program_names,
        relocate_named(
            object.program_names,
            object.programs,
            ResolverView::Maps { names, handles: map_handles(maps) },
        )->Ok_0,
        ResolverView::Calls { names: object.program_names },
    )->Ok_0
}

/// Whether a registry is what the object loads to: the maps and programs of
/// the object under their names and in their order, every map made, and
/// every program relocated and of the kind of its section.
pub open spec fn loads_to(
    bpf: BpfView,
    config: LoadConfig,
    object: ObjectView,
    cpus: Option<u32>,
) -> bool {
    &&& bpf.map_names == object.map_names
    &&& bpf.program_names == object.program_names
    &&& bpf.maps.len() == object.maps.len()
    &&& bpf.programs.len() == object.programs.len()
    &&& forall|j: int|
        0 <= j < bpf.maps.len() ==> made(#[trigger] bpf.maps[j], object.maps[j], config, cpus)
    &&& bpf.programs == classify_all(
        object.program_names,
        relocated_programs(bpf.map_names, bpf.maps, object),
    )
}

/// Whether a step follows the object.
pub open spec fn step_tracks(
    step: LoadStepView,
    config: LoadConfig,
    object: ObjectView,
    cpus: Option<u32>,
) -> bool {
    match step {
        LoadStepView::Pending(loading) => tracks(loading, config, object, cpus),
        LoadStepView::Loaded(bpf) => loads_to(bpf, config, object, cpus),
        LoadStepView::Failed { .. } => true,
    }
}

/// Whether every count of the CPUs among the outcomes gave `cpus`, where
/// that is a number.
pub open spec fn counts_agree(outcomes: Seq<OutcomeView>, cpus: Option<u32>) -> bool {
    cpus is Some ==> forall|i: int|
        0 <= i < outcomes.len() ==> (#[trigger] outcomes[i] matches OutcomeView::PossibleCpus(Ok(n))
            ==> n == cpus->Some_0)
}

proof fn lemma_finished_tracks(
    tables: LoadTables,
    config: LoadConfig,
    object: ObjectView,
    cpus: Option<u32>,
)
    requires
        made_up_to(tables, tables.maps.len() as int, config, object, cpus),
    ensures
        step_tracks(finished(tables), config, object, cpus),
{
}

proof fn lemma_placed_tracks(
    tables: LoadTables,
    next: int,
    config: LoadConfig,
    object: ObjectView,
    cpus: Option<u32>,
)
    requires
        tables.wf(),
        tables.map_names == object.map_names,
        tables.program_names == object.program_names,
        tables.programs == object.programs,
        tables.maps.len() == object.maps.len(),
        0 <= next < tables.maps.len(),
        forall|j: int| 0 <= j < next ==> made(#[trigger] tables.maps[j], object.maps[j], config, cpus),
        forall|j: int|
            next < j < tables.maps.len() ==> untouched(#[trigger] tables.maps[j], object.maps[j]),
        as_declared(tables.maps[next], object.maps[next]),
        tables.maps[next].fd is None,
        !tables.maps[next].pinned,
        needs_sizing(object.maps[next].def) && cpus is Some ==> tables.maps[next].def.max_entries
            == cpus->Some_0,
    ensures
        step_tracks(placed(config, tables, next), config, object, cpus),
{
}

proof fn lemma_started_tracks(
    tables: LoadTables,
    next: int,
    config: LoadConfig,
    object: ObjectView,
    cpus: Option<u32>,
)
    requires
        0 <= next <= tables.maps.len(),
        made_up_to(tables, next, config, object, cpus),
    ensures
        step_tracks(started(config, tables, next), config, object, cpus),
{
    if next >= tables.maps.len() {
        lemma_finished_tracks(tables, config, object, cpus);
    } else {
        assert(untouched(tables.maps[next], object.maps[next]));
        if needs_sizing(tables.maps[next].def) {
        } else {
            lemma_placed_tracks(tables, next, config, object, cpus);
        }
    }
}

proof fn lemma_filled_tracks(
    tables: LoadTables,
    next: int,
    config: LoadConfig,
    object: ObjectView,
    cpus: Option<u32>,
)
    requires
        tables.wf(),
        tables.map_names == object.map_names,
        tables.program_names == object.program_names,
        tables.programs == object.programs,
        tables.maps.len() == object.maps.len(),
        0 <= next < tables.maps.len(),
        forall|j: int| 0 <= j < next ==> made(#[trigger] tables.maps[j], object.maps[j], config, cpus),
        forall|j: int|
            next < j < tables.maps.len() ==> untouched(#[trigger] tables.maps[j], object.maps[j]),
        made(tables.maps[next], object.maps[next], config, cpus),
    ensures
        step_tracks(filled(config, tables, next), config, object, cpus),
{
    if tables.maps[next].data.len() > 0 && tables.map_names[next] != crate::load::BSS_SECTION@ {
    } else {
        assert forall|j: int| 0 <= j < next + 1 && j < tables.maps.len() implies made(
            #[trigger] tables.maps[j],
            object.maps[j],
            config,
            cpus,
        ) by {}
        lemma_started_tracks(tables, next + 1, config, object, cpus);
    }
}

/// A step of the pipeline keeps following the object.
proof fn lemma_resume_tracks(
    loading: LoadingView,
    outcome: OutcomeView,
    config: LoadConfig,
    object: ObjectView,
    cpus: Option<u32>,
)
    requires
        tracks(loading, config, object, cpus),
        cpus is Some ==> (outcome matches OutcomeView::PossibleCpus(Ok(n)) ==> n == cpus->Some_0),
    ensures
        step_tracks(resume_of(loading, outcome), config, object, cpus),
{
    let tables = loading.stage->Maps_tables;
    let next = loading.stage->Maps_next;
    let phase = loading.stage->Maps_phase;
    let map = tables.maps[next];
    match (phase, outcome) {
        (MapPhase::Cpus, OutcomeView::PossibleCpus(Ok(n))) => {
            let sized = tables.with_map(
                next,
                MapView { def: MapDefinition { max_entries: n, ..map.def }, ..map },
            );
            lemma_placed_tracks(sized, next, config, object, cpus);
        },
        (MapPhase::Open, OutcomeView::Opened(Ok(fd))) => {
            let opened = tables.with_map(next, MapView { fd: Some(fd), pinned: true, ..map });
            lemma_filled_tracks(opened, next, config, object, cpus);
        },
        (MapPhase::Create, OutcomeView::Created(Ok(fd))) => {
            let created = tables.with_map(next, MapView { fd: Some(fd), ..map });
            if map.def.pinning == PinningType::ByName && config.pin_path is Some {
            } else {
                lemma_filled_tracks(created, next, config, object, cpus);
            }
        },
        (MapPhase::Pin, OutcomeView::Pinned(Ok(_))) => {
            let pinned = tables.with_map(next, MapView { pinned: true, ..map });
            lemma_filled_tracks(pinned, next, config, object, cpus);
        },
        (MapPhase::Populate, OutcomeView::Updated(Ok(_))) => {
            assert forall|j: int| 0 <= j < next + 1 && j < tables.maps.len() implies made(
                #[trigger] tables.maps[j],
                object.maps[j],
                config,
                cpus,
            ) by {}
            lemma_started_tracks(tables, next + 1, config, object, cpus);
        },
        _ => {},
    }
}

/// A load that has the object follows the object from its first step.
proof fn lemma_begun_tracks(config: LoadConfig, object: ObjectView, cpus: Option<u32>)
    requires
        object.wf(),
        object.program_names.len() <= usize::MAX,
    ensures
        step_tracks(begun(config, object), config, object, cpus),
{
    lemma_started_tracks(LoadTables::of_object(object), 0, config, object, cpus);
}

/// A run of the pipeline keeps following the object.
proof fn lemma_run_tracks(
    step: LoadStepView,
    outcomes: Seq<OutcomeView>,
    config: LoadConfig,
    object: ObjectView,
    cpus: Option<u32>,
)
    requires
        step_tracks(step, config, object, cpus),
        counts_agree(outcomes, cpus),
    ensures
        step_tracks(run(step, outcomes), config, object, cpus),
    decreases outcomes.len(),
{
    if outcomes.len() > 0 {
        let before = outcomes.drop_last();
        assert forall|i: int| 0 <= i < before.len() implies before[i] == outcomes[i] by {}
        lemma_run_tracks(step, before, config, object, cpus);
        match run(step, before) {
            LoadStepView::Pending(loading) => {
                let last = outcomes.last();
                assert(last == outcomes[outcomes.len() - 1]);
                lemma_resume_tracks(loading, last, config, object, cpus);
            },
            _ => {},
        }
    }
}

/// A load that ends well gives a registry with exactly the maps and the
/// programs that the object declares: under the same names, in the same
/// order, and no name twice.
pub proof fn law_loaded_names(
    config: LoadConfig,
    object: ObjectView,
    outcomes: Seq<OutcomeView>,
)
    requires
        object.wf(),
        object.program_names.len() <= usize::MAX,
        run(begun(config, object), outcomes) is Loaded,
    ensures
        ({
            let bpf = run(begun(config, object), outcomes)->Loaded_0;
            &&& bpf.map_names == object.map_names
            &&& bpf.program_names == object.program_names
            &&& bpf.maps.len() == object.maps.len()
            &&& bpf.programs.len() == object.programs.len()
            &&& bpf.map_names.no_duplicates()
            &&& bpf.program_names.no_duplicates()
        }),
{
    lemma_begun_tracks(config, object, None);
    lemma_run_tracks(begun(config, object), outcomes, config, object, None);
}

/// Whether what an outcome carries is well formed: a parsed object has every
/// name once.
pub open spec fn outcome_wf(outcome: OutcomeView) -> bool {
    outcome matches OutcomeView::Parsed(Ok(object)) ==> object.wf() && object.program_names.len()
        <= usize::MAX
}

/// Every state that a step leads to is well formed, where the state before
/// it was.
pub proof fn law_resume_keeps_wf(loading: LoadingView, outcome: OutcomeView)
    requires
        loading.wf(),
        outcome_wf(outcome),
    ensures
        resume_of(loading, outcome) matches LoadStepView::Pending(next) ==> next.wf(),
{
}

/// Whether an outcome answers the request that is due in a state.
pub open spec fn answers(loading: LoadingView, outcome: OutcomeView) -> bool {
    match (loading.stage, outcome) {
        (StageView::ReadFile { .. }, OutcomeView::FileRead(_)) => true,
        (StageView::Parse { .. }, OutcomeView::Parsed(_)) => true,
        (StageView::Btf { object }, OutcomeView::BtfRelocated(relocated)) => relocated matches Ok(
            streams,
        ) ==> streams.len() == object.programs.len(),
        (StageView::Maps { phase: MapPhase::Cpus, .. }, OutcomeView::PossibleCpus(_)) => true,
        (StageView::Maps { phase: MapPhase::Open, .. }, OutcomeView::Opened(_)) => true,
        (StageView::Maps { phase: MapPhase::Create, .. }, OutcomeView::Created(_)) => true,
        (StageView::Maps { phase: MapPhase::Pin, .. }, OutcomeView::Pinned(_)) => true,
        (StageView::Maps { phase: MapPhase::Populate, .. }, OutcomeView::Updated(_)) => true,
        _ => false,
    }
}

/// How far a load has come: first by its stage, then, among the maps, by
/// the requests that may still be due. Every map takes at most five
/// requests.
pub open spec fn progress(loading: LoadingView) -> (int, int) {
    match loading.stage {
        StageView::ReadFile { .. } => (0, 0),
        StageView::Parse { .. } => (1, 0),
        StageView::Btf { .. } => (2, 0),
        StageView::Maps { tables, next, phase } => (
            3,
            5 * next + match phase {
                MapPhase::Cpus => 0int,
                MapPhase::Open => 1,
                MapPhase::Create => 2,
                MapPhase::Pin => 3,
                MapPhase::Populate => 4,
            } - 5 * tables.maps.len(),
        ),
    }
}

/// Every outcome that answers the request ends the load or brings it
/// forward, and among the maps it cannot do so more than five times for
/// each map: a driver that answers every request comes to an end. An
/// outcome that does not answer the request leaves the load as it is.
pub proof fn law_every_answer_advances(loading: LoadingView, outcome: OutcomeView)
    requires
        loading.wf(),
    ensures
        !answers(loading, outcome) ==> resume_of(loading, outcome) == LoadStepView::Pending(loading),
        answers(loading, outcome) ==> (resume_of(loading, outcome) matches LoadStepView::Pending(
            next,
        ) ==> {
            ||| progress(next).0 > progress(loading).0
            ||| progress(next).0 == progress(loading).0 && progress(loading).1 < progress(next).1
                < 0
        }),
{
}

/// Once the object file is parsed, the load has the object: without
/// debug-type information it turns to the first map at once, with it the
/// programs are first relocated by it.
pub proof fn law_parsed_object_is_loaded(loading: LoadingView, object: ObjectView)
    requires
        loading.stage is Parse,
    ensures
        loading.config.btf is None ==> resume_of(loading, OutcomeView::Parsed(Ok(object))) == begun(
            loading.config,
            object,
        ),
        loading.config.btf is Some ==> resume_of(loading, OutcomeView::Parsed(Ok(object)))
            == LoadStepView::Pending(
            LoadingView { config: loading.config, stage: StageView::Btf { object } },
        ),
{
}

/// Relocation by debug-type information changes no name: the load goes on
/// with the maps and the programs of the object, each program with the
/// instructions that the relocation gave it.
pub proof fn law_btf_keeps_names(loading: LoadingView, streams: Seq<Seq<u64>>)
    requires
        loading.wf(),
        loading.stage is Btf,
        streams.len() == loading.stage->Btf_object.programs.len(),
    ensures
        ({
            let object = loading.stage->Btf_object;
            let relocated = ObjectView {
                programs: crate::load::with_instructions(object.programs, streams),
                ..object
            };
            &&& resume_of(loading, OutcomeView::BtfRelocated(Ok(streams))) == begun(
                loading.config,
                relocated,
            )
            &&& relocated.wf()
            &&& relocated.map_names == object.map_names
            &&& relocated.program_names == object.program_names
        }),
{
}

/// A load that ends well has made every map of the object: each has a
/// handle, the layout and the data that the object declares, and is pinned
/// exactly where the object pins it by name.
pub proof fn law_loaded_maps(
    config: LoadConfig,
    object: ObjectView,
    outcomes: Seq<OutcomeView>,
    j: int,
)
    requires
        object.wf(),
        object.program_names.len() <= usize::MAX,
        run(begun(config, object), outcomes) is Loaded,
        0 <= j < object.maps.len(),
    ensures
        ({
            let bpf = run(begun(config, object), outcomes)->Loaded_0;
            &&& bpf.maps[j].fd is Some
            &&& bpf.maps[j].data == object.maps[j].data
            &&& bpf.maps[j].def == MapDefinition {
                max_entries: bpf.maps[j].def.max_entries,
                ..object.maps[j].def
            }
            &&& !needs_sizing(object.maps[j].def) ==> bpf.maps[j].def == object.maps[j].def
            &&& bpf.maps[j].pinned == (object.maps[j].def.pinning == PinningType::ByName)
        }),
{
    lemma_begun_tracks(config, object, None);
    lemma_run_tracks(begun(config, object), outcomes, config, object, None);
    let bpf = run(begun(config, object), outcomes)->Loaded_0;
    assert(made(bpf.maps[j], object.maps[j], config, None));
}

/// No program is relocated before every map is made: as long as the load
/// waits for a map, the programs are as the object declares them. A load
/// that ends well has relocated every program by both passes, against the
/// maps as the registry has them, and has given it the kind of its section.
pub proof fn law_programs_wait_for_maps(
    config: LoadConfig,
    object: ObjectView,
    outcomes: Seq<OutcomeView>,
)
    requires
        object.wf(),
        object.program_names.len() <= usize::MAX,
    ensures
        run(begun(config, object), outcomes) matches LoadStepView::Pending(loading) ==> {
            &&& loading.stage matches StageView::Maps { tables, .. }
            &&& tables.programs == object.programs
            &&& tables.program_names == object.program_names
        },
        run(begun(config, object), outcomes) matches LoadStepView::Loaded(bpf) ==> bpf.programs
            == classify_all(
            object.program_names,
            relocated_programs(bpf.map_names, bpf.maps, object),
        ),
{
    lemma_begun_tracks(config, object, None);
    lemma_run_tracks(begun(config, object), outcomes, config, object, None);
}

/// A perf event array that the object declares without a number of entries
/// has, after the load, as many entries as there are possible CPUs: the
/// number that the counts of the CPUs gave during the load.
pub proof fn law_sized_by_cpus(
    config: LoadConfig,
    object: ObjectView,
    outcomes: Seq<OutcomeView>,
    cpus: u32,
    j: int,
)
    requires
        object.wf(),
        object.program_names.len() <= usize::MAX,
        forall|i: int|
            0 <= i < outcomes.len() ==> (#[trigger] outcomes[i] matches OutcomeView::PossibleCpus(
                Ok(n),
            ) ==> n == cpus),
        run(begun(config, object), outcomes) is Loaded,
        0 <= j < object.maps.len(),
        object.maps[j].def.map_type == BPF_MAP_TYPE_PERF_EVENT_ARRAY,
        object.maps[j].def.max_entries == 0,
    ensures
        run(begun(config, object), outcomes)->Loaded_0.maps[j].def.max_entries == cpus,
{
    lemma_begun_tracks(config, object, Some(cpus));
    lemma_run_tracks(begun(config, object), outcomes, config, object, Some(cpus));
    let bpf = run(begun(config, object), outcomes)->Loaded_0;
    assert(made(bpf.maps[j], object.maps[j], config, Some(cpus)));
}

/// Without a pin path, an object with a map that is pinned by name does not
/// load, whatever the outside answers.
pub proof fn law_no_pin_path(
    config: LoadConfig,
    object: ObjectView,
    outcomes: Seq<OutcomeView>,
    j: int,
)
    requires
        object.wf(),
        object.program_names.len() <= usize::MAX,
        config.pin_path is None,
        0 <= j < object.maps.len(),
        object.maps[j].def.pinning == PinningType::ByName,
    ensures
        !(run(begun(config, object), outcomes) is Loaded),
{
    lemma_begun_tracks(config, object, None);
    lemma_run_tracks(begun(config, object), outcomes, config, object, None);
    if run(begun(config, object), outcomes) is Loaded {
        let bpf = run(begun(config, object), outcomes)->Loaded_0;
        assert(made(bpf.maps[j], object.maps[j], config, None));
    }
}

/// Without a pin path, the load fails with `NoPinPath` as soon as it comes
/// to place a map that is pinned by name; with a pin path it goes on to open
/// the map from its pin.
pub proof fn law_pin_path_decides(config: LoadConfig, tables: LoadTables, next: int)
    requires
        0 <= next < tables.maps.len(),
        tables.maps[next].def.pinning == PinningType::ByName,
    ensures
        config.pin_path is None ==> (placed(config, tables, next) matches LoadStepView::Failed {
            error,
            ..
        } && error == crate::bpf::BpfErrorView::NoPinPath),
        config.pin_path is Some ==> (placed(config, tables, next) matches LoadStepView::Pending(
            loading,
        ) && request_of(loading) == (RequestView::OpenPinned {
            path: crate::load::pin_target(config.pin_path->Some_0, tables.map_names[next]),
        })),
{
}

/// The handle that an outcome hands to the load: the handle of a map that
/// was opened or created as the load had asked.
pub open spec fn acquired_by(loading: LoadingView, outcome: OutcomeView) -> Option<Handle> {
    match (loading.stage, outcome) {
        (StageView::Maps { phase: MapPhase::Open, .. }, OutcomeView::Opened(Ok(fd))) => Some(fd),
        (StageView::Maps { phase: MapPhase::Create, .. }, OutcomeView::Created(Ok(fd))) => Some(
            fd,
        ),
        _ => None,
    }
}

/// The handles that a run of outcomes hands to the load, in the order in
/// which they come.
pub open spec fn acquired(step: LoadStepView, outcomes: Seq<OutcomeView>) -> Seq<Handle>
    decreases outcomes.len(),
{
    if outcomes.len() == 0 {
        Seq::empty()
    } else {
        let before = acquired(step, outcomes.drop_last());
        match run(step, outcomes.drop_last()) {
            LoadStepView::Pending(loading) => match acquired_by(loading, outcomes.last()) {
                Some(fd) => before.push(fd),
                None => before,
            },
            _ => before,
        }
    }
}

/// The handles that a step accounts for: those of the maps of a load that
/// goes on or has ended well, and those that a failed load gives up.
pub open spec fn held(step: LoadStepView) -> Seq<Handle> {
    match step {
        LoadStepView::Pending(loading) => match loading.stage {
            StageView::Maps { tables, .. } => held_handles(tables.maps),
            _ => Seq::empty(),
        },
        LoadStepView::Loaded(bpf) => held_handles(bpf.maps),
        LoadStepView::Failed { release, .. } => release,
    }
}

/// Maps with the same handles hold the same handles.
proof fn lemma_held_same(maps: Seq<MapView>, others: Seq<MapView>)
    requires
        maps.len() == others.len(),
        forall|j: int| 0 <= j < maps.len() ==> (#[trigger] maps[j]).fd == others[j].fd,
    ensures
        held_handles(maps) == held_handles(others),
    decreases maps.len(),
{
    if maps.len() > 0 {
        lemma_held_same(maps.drop_last(), others.drop_last());
    }
}

/// Maps without handles hold none.
proof fn lemma_held_none(maps: Seq<MapView>)
    requires
        forall|j: int| 0 <= j < maps.len() ==> (#[trigger] maps[j]).fd is None,
    ensures
        held_handles(maps) == Seq::<Handle>::empty(),
    decreases maps.len(),
{
    if maps.len() > 0 {
        lemma_held_none(maps.drop_last());
    }
}

/// A handle for the first map that has none comes after the handles that
/// are held.
proof fn lemma_held_push(maps: Seq<MapView>, at: int, map: MapView, fd: Handle)
    requires
        0 <= at < maps.len(),
        map.fd == Some(fd),
        forall|j: int| at <= j < maps.len() ==> (#[trigger] maps[j]).fd is None,
    ensures
        held_handles(maps.update(at, map)) == held_handles(maps).push(fd),
    decreases maps.len(),
{
    let updated = maps.update(at, map);
    if at == maps.len() - 1 {
        assert(updated.drop_last() =~= maps.drop_last());
    } else {
        assert(updated.drop_last() =~= maps.drop_last().update(at, map));
        lemma_held_push(maps.drop_last(), at, map, fd);
    }
}

/// Turning to a map, placing it, filling it and finishing neither take nor
/// give up a handle.
proof fn lemma_held_through(config: LoadConfig, tables: LoadTables, next: int)
    ensures
        held(finished(tables)) == held_handles(tables.maps),
        held(placed(config, tables, next)) == held_handles(tables.maps),
        held(started(config, tables, next)) == held_handles(tables.maps),
        held(started(config, tables, next + 1)) == held_handles(tables.maps),
        held(filled(config, tables, next)) == held_handles(tables.maps),
{
}

/// A step accounts for the handles that the state before it held, and for
/// the handle that the outcome hands over.
proof fn lemma_resume_held(
    loading: LoadingView,
    outcome: OutcomeView,
    config: LoadConfig,
    object: ObjectView,
)
    requires
        tracks(loading, config, object, None),
    ensures
        held(resume_of(loading, outcome)) == match acquired_by(loading, outcome) {
            Some(fd) => held(LoadStepView::Pending(loading)).push(fd),
            None => held(LoadStepView::Pending(loading)),
        },
{
    let tables = loading.stage->Maps_tables;
    let next = loading.stage->Maps_next;
    let phase = loading.stage->Maps_phase;
    let map = tables.maps[next];
    match (phase, outcome) {
        (MapPhase::Cpus, OutcomeView::PossibleCpus(Ok(n))) => {
            let sized = tables.with_map(
                next,
                MapView { def: MapDefinition { max_entries: n, ..map.def }, ..map },
            );
            lemma_held_through(config, sized, next);
            lemma_held_same(tables.maps, sized.maps);
        },
        (MapPhase::Open, OutcomeView::Opened(Ok(fd))) => {
            let opened = MapView { fd: Some(fd), pinned: true, ..map };
            lemma_held_through(config, tables.with_map(next, opened), next);
            lemma_held_push(tables.maps, next, opened, fd);
        },
        (MapPhase::Create, OutcomeView::Created(Ok(fd))) => {
            let created = MapView { fd: Some(fd), ..map };
            lemma_held_through(config, tables.with_map(next, created), next);
            lemma_held_push(tables.maps, next, created, fd);
        },
        (MapPhase::Pin, OutcomeView::Pinned(Ok(_))) => {
            let pinned = tables.with_map(next, MapView { pinned: true, ..map });
            lemma_held_through(config, pinned, next);
            lemma_held_same(tables.maps, pinned.maps);
        },
        (MapPhase::Populate, OutcomeView::Updated(Ok(_))) => {
            lemma_held_through(config, tables, next);
        },
        _ => {},
    }
}

/// A load accounts for every handle that it was handed, and for no other. A
/// load that fails gives up exactly the handles that it had acquired, in the
/// order in which it acquired them; a load that goes on or ends well holds
/// exactly those.
pub proof fn law_handles_are_accounted_for(
    config: LoadConfig,
    object: ObjectView,
    outcomes: Seq<OutcomeView>,
)
    requires
        object.wf(),
        object.program_names.len() <= usize::MAX,
    ensures
        held(run(begun(config, object), outcomes)) == acquired(begun(config, object), outcomes),
    decreases outcomes.len(),
{
    let first = begun(config, object);
    if outcomes.len() == 0 {
        let tables = LoadTables::of_object(object);
        lemma_held_through(config, tables, 0);
        lemma_held_none(tables.maps);
    } else {
        let before = outcomes.drop_last();
        law_handles_are_accounted_for(config, object, before);
        lemma_begun_tracks(config, object, None);
        lemma_run_tracks(first, before, config, object, None);
        match run(first, before) {
            LoadStepView::Pending(loading) => {
                lemma_resume_held(loading, outcomes.last(), config, object);
            },
            _ => {},
        }
    }
}

/// Whether the map at `at` is settled in a state: the pipeline is past it,
/// or only its data is left to write, and it is `map`.
pub open spec fn settled(
    loading: LoadingView,
    config: LoadConfig,
    at: int,
    name: Seq<char>,
    map: MapView,
) -> bool {
    &&& loading.wf()
    &&& loading.config == config
    &&& loading.stage matches StageView::Maps { tables, next, phase }
    &&& 0 <= at < tables.maps.len()
    &&& tables.maps[at] == map
    &&& tables.map_names[at] == name
    &&& at < next || (at == next && phase == MapPhase::Populate)
}

/// Whether the map at `at` is settled in a step.
pub open spec fn step_settled(
    step: LoadStepView,
    config: LoadConfig,
    at: int,
    name: Seq<char>,
    map: MapView,
) -> bool {
    match step {
        LoadStepView::Pending(loading) => settled(loading, config, at, name, map),
        LoadStepView::Loaded(bpf) => 0 <= at < bpf.maps.len() && at < bpf.map_names.len()
            && bpf.maps[at] == map && bpf.map_names[at] == name,
        LoadStepView::Failed { .. } => true,
    }
}

proof fn lemma_started_settled(config: LoadConfig, tables: LoadTables, next: int, at: int)
    requires
        tables.wf(),
        0 <= at < next <= tables.maps.len(),
    ensures
        step_settled(started(config, tables, next), config, at, tables.map_names[at], tables.maps[at]),
{
}

proof fn lemma_filled_settled(config: LoadConfig, tables: LoadTables, next: int, at: int)
    requires
        tables.wf(),
        0 <= at <= next < tables.maps.len(),
        tables.maps[next].fd is Some,
        tables.maps[next].def.pinning == PinningType::ByName ==> config.pin_path is Some,
    ensures
        step_settled(filled(config, tables, next), config, at, tables.map_names[at], tables.maps[at]),
{
    lemma_started_settled(config, tables, next + 1, at);
}

proof fn lemma_resume_settled(
    loading: LoadingView,
    outcome: OutcomeView,
    config: LoadConfig,
    at: int,
    name: Seq<char>,
    map: MapView,
)
    requires
        settled(loading, config, at, name, map),
    ensures
        step_settled(resume_of(loading, outcome), config, at, name, map),
{
    let tables = loading.stage->Maps_tables;
    let next = loading.stage->Maps_next;
    let phase = loading.stage->Maps_phase;
    let current = tables.maps[next];
    match (phase, outcome) {
        (MapPhase::Cpus, OutcomeView::PossibleCpus(Ok(n))) => {},
        (MapPhase::Open, OutcomeView::Opened(Ok(fd))) => {
            lemma_filled_settled(
                config,
                tables.with_map(next, MapView { fd: Some(fd), pinned: true, ..current }),
                next,
                at,
            );
        },
        (MapPhase::Create, OutcomeView::Created(Ok(fd))) => {
            if !(current.def.pinning == PinningType::ByName && config.pin_path is Some) {
                lemma_filled_settled(
                    config,
                    tables.with_map(next, MapView { fd: Some(fd), ..current }),
                    next,
                    at,
                );
            }
        },
        (MapPhase::Pin, OutcomeView::Pinned(Ok(_))) => {
            lemma_filled_settled(
                config,
                tables.with_map(next, MapView { pinned: true, ..current }),
                next,
                at,
            );
        },
        (MapPhase::Populate, OutcomeView::Updated(Ok(_))) => {
            lemma_started_settled(config, tables, next + 1, at);
        },
        _ => {},
    }
}

proof fn lemma_run_settled(
    step: LoadStepView,
    outcomes: Seq<OutcomeView>,
    config: LoadConfig,
    at: int,
    name: Seq<char>,
    map: MapView,
)
    requires
        step_settled(step, config, at, name, map),
    ensures
        step_settled(run(step, outcomes), config, at, name, map),
    decreases outcomes.len(),
{
    if outcomes.len() > 0 {
        lemma_run_settled(step, outcomes.drop_last(), config, at, name, map);
        match run(step, outcomes.drop_last()) {
            LoadStepView::Pending(loading) => {
                lemma_resume_settled(loading, outcomes.last(), config, at, name, map);
            },
            _ => {},
        }
    }
}

/// A map that is found under its pin path is taken as it is found: the load
/// keeps the handle that opening gave, marks the map as pinned, never again
/// asks to open, to create or to pin that map, and hands it over in the
/// registry with that handle.
pub proof fn law_pin_reuse(loading: LoadingView, fd: Handle, outcomes: Seq<OutcomeView>)
    requires
        loading.wf(),
        loading.stage matches StageView::Maps { phase: MapPhase::Open, .. },
    ensures
        ({
            let tables = loading.stage->Maps_tables;
            let at = loading.stage->Maps_next;
            let name = tables.map_names[at];
            let path = crate::load::pin_target(loading.config.pin_path->Some_0, name);
            let opened = MapView { fd: Some(fd), pinned: true, ..tables.maps[at] };
            let after = run(resume_of(loading, OutcomeView::Opened(Ok(fd))), outcomes);
            &&& after matches LoadStepView::Loaded(bpf) ==> bpf.maps[at] == opened
                && bpf.map_names[at] == name
            &&& after matches LoadStepView::Pending(later) ==> {
                &&& later.stage matches StageView::Maps { tables: then, .. } && then.maps[at]
                    == opened
                &&& request_of(later) matches RequestView::CreateMap { name: other, .. } ==> other
                    != name
                &&& request_of(later) matches RequestView::PinMap { path: other, .. } ==> other
                    != path
                &&& request_of(later) matches RequestView::OpenPinned { path: other } ==> other
                    != path
            }
        }),
{
    let tables = loading.stage->Maps_tables;
    let at = loading.stage->Maps_next;
    let config = loading.config;
    let name = tables.map_names[at];
    let opened = MapView { fd: Some(fd), pinned: true, ..tables.maps[at] };
    let first = resume_of(loading, OutcomeView::Opened(Ok(fd)));
    let made = tables.with_map(at, opened);
    assert(first == filled(config, made, at));
    lemma_filled_settled(config, made, at, at);
    lemma_run_settled(first, outcomes, config, at, name, opened);
    match run(first, outcomes) {
        LoadStepView::Pending(later) => {
            let then = later.stage->Maps_tables;
            let next = later.stage->Maps_next;
            if next != at {
                assert(then.map_names[next] != then.map_names[at]);
                let base = config.pin_path->Some_0;
                lemma_pin_target_injective(base, then.map_names[next], then.map_names[at]);
            }
        },
        _ => {},
    }
}

/// In a loaded registry, the instruction word that a relocation record
/// names holds the handle of the map that the record names, as the registry
/// has it. This holds of every map record whose word no other record of the
/// program names.
pub proof fn law_loaded_map_word(tables: LoadTables, i: int, k: int)
    requires
        tables.wf(),
        finished(tables) is Loaded,
        0 <= i < tables.programs.len(),
        0 <= k < tables.programs[i].relocations.len(),
        tables.programs[i].relocations[k].kind == SymbolKind::MapReference,
        forall|j: int|
            0 <= j < tables.programs[i].relocations.len() && j != k ==> (
            #[trigger] tables.programs[i].relocations[j]).offset
                != tables.programs[i].relocations[k].offset,
    ensures
        ({
            let record = tables.programs[i].relocations[k];
            let bpf = finished(tables)->Loaded_0;
            let words = bpf.programs[i].data.obj.instructions;
            &&& bpf.map_names == tables.map_names
            &&& bpf.maps == tables.maps
            &&& bpf.map_names.contains(record.name)
            &&& bpf.maps[bpf.map_names.index_of(record.name)].fd matches Some(fd)
            &&& record.offset < words.len()
            &&& words[record.offset as int] == fd
        }),
{
    let names = tables.program_names;
    let by_maps = ResolverView::Maps { names: tables.map_names, handles: map_handles(tables.maps) };
    let by_calls = ResolverView::Calls { names };
    let declared = tables.programs;
    let with_maps = relocate_named(names, declared, by_maps)->Ok_0;
    let with_calls = relocate_named(names, with_maps, by_calls)->Ok_0;
    let program = declared[i];
    let record = program.relocations[k];
    let len = program.instructions.len() as int;

    lemma_no_failure(declared, by_maps, declared.len(), i);
    lemma_resolved_each(program.relocations, len, by_maps, program.relocations.len(), k);
    assert forall|j: int| k < j < program.relocations.len() implies (resolve_record_offset_differs(
        program,
        by_maps,
        j,
        k,
    )) by {}
    law_relocated_word(program, by_maps, k);
    let mapped = with_maps[i];
    assert(mapped == relocate_program(program, by_maps)->Ok_0);

    lemma_no_failure(with_maps, by_calls, with_maps.len(), i);
    let patches = resolve_records(mapped.relocations, len, by_calls, mapped.relocations.len())->Ok_0;
    assert forall|q: int| 0 <= q < patches.len() implies (#[trigger] patches[q]).offset
        != record.offset by {
        let j = lemma_patch_origin(mapped.relocations, len, by_calls, mapped.relocations.len(), q);
        assert(mapped.relocations[j].kind == SymbolKind::Call);
        assert(j != k);
    }
    lemma_unpatched_word(mapped.instructions, patches, patches.len(), record.offset as int);
    lemma_apply_patches_len(mapped.instructions, patches, patches.len());
    assert(with_calls[i] == relocate_program(mapped, by_calls)->Ok_0);
}

/// Whether the record at `j`, where the pass resolves it, names another word
/// than the record at `k`.
spec fn resolve_record_offset_differs(
    program: ProgramObjectView,
    resolver: ResolverView,
    j: int,
    k: int,
) -> bool {
    crate::relocation::resolve_record(
        program.relocations[j],
        j,
        program.instructions.len() as int,
        resolver,
    ) matches Ok(Some(later)) ==> later.offset != program.relocations[k].offset
}

/// Two names that are pinned at the same path below one pin path are the
/// same name.
pub proof fn lemma_pin_target_injective(base: Seq<char>, a: Seq<char>, b: Seq<char>)
    ensures
        crate::load::pin_target(base, a) == crate::load::pin_target(base, b) ==> a == b,
{
    let pa = crate::load::pin_target(base, a);
    let pb = crate::load::pin_target(base, b);
    if pa == pb {
        let k = (base + "/"@).len() as int;
        assert(pa.subrange(k, pa.len() as int) =~= a);
        assert(pb.subrange(k, pb.len() as int) =~= b);
    }
}

} // verus!
