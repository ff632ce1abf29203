//! Relocation: rewriting the instruction words that refer to a symbol.
//!
//! A relocation record names an instruction word and a symbol. The map pass
//! writes the handle of the named map into the word; the call pass writes
//! the position, among the programs of the object, of the named program.
//! Each pass first resolves every record of every program, and writes only
//! once all of them resolved: a pass that fails leaves the object untouched.

use crate::bpf::{BpfError, BpfErrorView};
use crate::maps::MapData;
use crate::obj::{
    program_object_views, relocation_views, Object, ObjectView, ProgramObject, ProgramObjectView,
    Relocation, RelocationView, SymbolKind,
};
use crate::sys::Handle;
use crate::table::NameTable;
use vstd::prelude::*;

verus! {

/// Why a relocation record could not be resolved.
#[derive(Debug)]
pub enum RelocationError {
    /// The record names a map that the object does not have.
    UnknownMap { name: String },
    /// The record names a map that has no handle in the kernel.
    MapNotCreated { name: String },
    /// The record names a call target that is no program of the object.
    UnknownFunction { name: String },
    /// The record names an instruction word that the program does not have.
    InvalidRelocationOffset { offset: usize, relocation_number: usize },
}

/// The model of a `RelocationError`.
pub enum RelocationErrorView {
    UnknownMap { name: Seq<char> },
    MapNotCreated { name: Seq<char> },
    UnknownFunction { name: Seq<char> },
    InvalidRelocationOffset { offset: usize, relocation_number: usize },
}

impl View for RelocationError {
    type V = RelocationErrorView;

    open spec fn view(&self) -> RelocationErrorView {
        match self {
            RelocationError::UnknownMap { name } => RelocationErrorView::UnknownMap { name: name@ },
            RelocationError::MapNotCreated { name } => RelocationErrorView::MapNotCreated {
                name: name@,
            },
            RelocationError::UnknownFunction { name } => RelocationErrorView::UnknownFunction {
                name: name@,
            },
            RelocationError::InvalidRelocationOffset {
                offset,
                relocation_number,
            } => RelocationErrorView::InvalidRelocationOffset {
                offset: *offset,
                relocation_number: *relocation_number,
            },
        }
    }
}

/// A word to write: `word` goes to the instruction word at `offset`.
#[derive(Copy, Clone, Debug, PartialEq, Eq, Structural)]
pub struct Patch {
    pub offset: usize,
    pub word: u64,
}

/// What a pass resolves symbols against.
enum Resolver<'a> {
    /// The map pass: the maps of the object, with their handles.
    Maps(&'a NameTable<MapData>),
    /// The call pass: the programs of the object.
    Calls(&'a NameTable<ProgramObject>),
}

/// The model of a `Resolver`.
pub enum ResolverView {
    Maps { names: Seq<Seq<char>>, handles: Seq<Option<Handle>> },
    Calls { names: Seq<Seq<char>> },
}

/// The handle of each map, position by position.
pub open spec fn handles_of(maps: Seq<MapData>) -> Seq<Option<Handle>> {
    Seq::new(maps.len(), |i: int| maps[i]@.fd)
}

impl<'a> View for Resolver<'a> {
    type V = ResolverView;

    closed spec fn view(&self) -> ResolverView {
        match self {
            Resolver::Maps(maps) => ResolverView::Maps {
                names: maps.names(),
                handles: handles_of(maps.values()),
            },
            Resolver::Calls(programs) => ResolverView::Calls { names: programs.names() },
        }
    }
}

impl ResolverView {
    /// Every name has its entry, no name occurs twice, and the positions
    /// fit into an instruction word.
    pub open spec fn wf(self) -> bool {
        match self {
            ResolverView::Maps { names, handles } => names.no_duplicates() && names.len()
                == handles.len(),
            ResolverView::Calls { names } => names.no_duplicates() && names.len() <= u64::MAX,
        }
    }
}

/// What one record asks of a pass, for a program of `len` instruction words:
/// nothing, where the record belongs to the other pass; a patch; or an
/// error. The offset is checked first, then the name, then the handle.
pub open spec fn resolve_record(
    record: RelocationView,
    number: int,
    len: int,
    resolver: ResolverView,
) -> Result<Option<Patch>, RelocationErrorView> {
    match resolver {
        ResolverView::Maps { names, handles } => {
            if record.kind != SymbolKind::MapReference {
                Ok(None)
            } else if record.offset >= len {
                Err(
                    RelocationErrorView::InvalidRelocationOffset {
                        offset: record.offset,
                        relocation_number: number as usize,
                    },
                )
            } else if !names.contains(record.name) {
                Err(RelocationErrorView::UnknownMap { name: record.name })
            } else {
                match handles[names.index_of(record.name)] {
                    None => Err(RelocationErrorView::MapNotCreated { name: record.name }),
                    Some(fd) => Ok(Some(Patch { offset: record.offset, word: fd as u64 })),
                }
            }
        },
        ResolverView::Calls { names } => {
            if record.kind != SymbolKind::Call {
                Ok(None)
            } else if record.offset >= len {
                Err(
                    RelocationErrorView::InvalidRelocationOffset {
                        offset: record.offset,
                        relocation_number: number as usize,
                    },
                )
            } else if !names.contains(record.name) {
                Err(RelocationErrorView::UnknownFunction { name: record.name })
            } else {
                Ok(Some(Patch { offset: record.offset, word: names.index_of(record.name) as u64 }))
            }
        },
    }
}

/// The patches that the first `count` records ask for, in the order of the
/// records, or the error of the first record that does not resolve.
pub open spec fn resolve_records(
    records: Seq<RelocationView>,
    len: int,
    resolver: ResolverView,
    count: nat,
) -> Result<Seq<Patch>, RelocationErrorView>
    decreases count,
{
    if count == 0 {
        Ok(Seq::empty())
    } else {
        match resolve_records(records, len, resolver, (count - 1) as nat) {
            Err(e) => Err(e),
            Ok(patches) => match resolve_record(records[count - 1], count - 1, len, resolver) {
                Err(e) => Err(e),
                Ok(None) => Ok(patches),
                Ok(Some(patch)) => Ok(patches.push(patch)),
            },
        }
    }
}

/// The instruction words after one patch was written. A patch that names no
/// word of the program changes nothing.
pub open spec fn apply_patch(instructions: Seq<u64>, patch: Patch) -> Seq<u64> {
    if patch.offset < instructions.len() {
        instructions.update(patch.offset as int, patch.word)
    } else {
        instructions
    }
}

/// The instruction words after the first `count` patches were written, one
/// after the other.
pub open spec fn apply_patches(instructions: Seq<u64>, patches: Seq<Patch>, count: nat) -> Seq<u64>
    decreases count,
{
    if count == 0 {
        instructions
    } else {
        apply_patch(apply_patches(instructions, patches, (count - 1) as nat), patches[count - 1])
    }
}

/// The patches that the records of a program ask for, or the error of its
/// first record that does not resolve.
pub open spec fn program_patches(program: ProgramObjectView, resolver: ResolverView) -> Result<
    Seq<Patch>,
    RelocationErrorView,
> {
    resolve_records(
        program.relocations,
        program.instructions.len() as int,
        resolver,
        program.relocations.len(),
    )
}

/// A program with the patches written into its instructions.
pub open spec fn patched(program: ProgramObjectView, patches: Seq<Patch>) -> ProgramObjectView {
    ProgramObjectView {
        instructions: apply_patches(program.instructions, patches, patches.len()),
        ..program
    }
}

/// A program after one pass, or the error of its first record that does not
/// resolve.
pub open spec fn relocate_program(program: ProgramObjectView, resolver: ResolverView) -> Result<
    ProgramObjectView,
    RelocationErrorView,
> {
    match program_patches(program, resolver) {
        Err(e) => Err(e),
        Ok(patches) => Ok(patched(program, patches)),
    }
}

/// The position of the first program, among the first `count`, that has a
/// record which does not resolve.
pub open spec fn first_failure(
    programs: Seq<ProgramObjectView>,
    resolver: ResolverView,
    count: nat,
) -> Option<int>
    decreases count,
{
    if count == 0 {
        None
    } else {
        match first_failure(programs, resolver, (count - 1) as nat) {
            Some(i) => Some(i),
            None => if relocate_program(programs[count - 1], resolver) is Err {
                Some(count - 1)
            } else {
                None
            },
        }
    }
}

/// The programs after one pass, where every record resolves.
pub open spec fn relocate_programs(programs: Seq<ProgramObjectView>, resolver: ResolverView) -> Seq<
    ProgramObjectView,
> {
    Seq::new(programs.len(), |i: int| relocate_program(programs[i], resolver)->Ok_0)
}

/// A patch leaves the number of instruction words as it is.
pub proof fn lemma_apply_patches_len(instructions: Seq<u64>, patches: Seq<Patch>, count: nat)
    requires
        count <= patches.len(),
    ensures
        apply_patches(instructions, patches, count).len() == instructions.len(),
    decreases count,
{
    if count > 0 {
        lemma_apply_patches_len(instructions, patches, (count - 1) as nat);
    }
}

/// A word that no patch names stays as it was.
pub proof fn lemma_unpatched_word(instructions: Seq<u64>, patches: Seq<Patch>, count: nat, at: int)
    requires
        count <= patches.len(),
        0 <= at < instructions.len(),
        forall|j: int| 0 <= j < count ==> (#[trigger] patches[j]).offset != at,
    ensures
        apply_patches(instructions, patches, count)[at] == instructions[at],
    decreases count,
{
    if count > 0 {
        lemma_apply_patches_len(instructions, patches, (count - 1) as nat);
        lemma_unpatched_word(instructions, patches, (count - 1) as nat, at);
    }
}


/// What one record asks of a pass.
fn resolve_one(
    record: &Relocation,
    number: usize,
    len: usize,
    resolver: &Resolver,
) -> (result: Result<
    Option<Patch>,
    RelocationError,
>)
    requires
        resolver@.wf(),
    ensures
        match resolve_record(record@, number as int, len as int, resolver@) {
            Ok(patch) => result == Ok::<Option<Patch>, RelocationError>(patch),
            Err(e) => result matches Err(x) && x@ == e,
        },
{
    match resolver {
        Resolver::Maps(maps) => {
            match record.symbol.kind {
                SymbolKind::Call => Ok(None),
                SymbolKind::MapReference => {
                    if record.offset >= len {
                        return Err(
                            RelocationError::InvalidRelocationOffset {
                                offset: record.offset,
                                relocation_number: number,
                            },
                        );
                    }
                    match maps.find(record.symbol.name.as_str()) {
                        None => Err(
                            RelocationError::UnknownMap { name: record.symbol.name.clone() },
                        ),
                        Some(i) => match maps.value_at(i).fd() {
                            None => Err(
                                RelocationError::MapNotCreated { name: record.symbol.name.clone() },
                            ),
                            Some(fd) => Ok(Some(Patch { offset: record.offset, word: fd as u64 })),
                        },
                    }
                },
            }
        },
        Resolver::Calls(programs) => {
            match record.symbol.kind {
                SymbolKind::MapReference => Ok(None),
                SymbolKind::Call => {
                    if record.offset >= len {
                        return Err(
                            RelocationError::InvalidRelocationOffset {
                                offset: record.offset,
                                relocation_number: number,
                            },
                        );
                    }
                    match programs.find(record.symbol.name.as_str()) {
                        None => Err(
                            RelocationError::UnknownFunction { name: record.symbol.name.clone() },
                        ),
                        Some(i) => Ok(Some(Patch { offset: record.offset, word: i as u64 })),
                    }
                },
            }
        },
    }
}

/// The patches that the records of one program ask for.
fn resolve_all(records: &Vec<Relocation>, len: usize, resolver: &Resolver) -> (result: Result<
    Vec<Patch>,
    RelocationError,
>)
    requires
        resolver@.wf(),
    ensures
        match resolve_records(relocation_views(records@), len as int, resolver@, records.len() as nat) {
            Ok(patches) => result matches Ok(found) && found@ == patches,
            Err(e) => result matches Err(x) && x@ == e,
        },
{
    let mut patches: Vec<Patch> = Vec::new();
    let mut k: usize = 0;
    while k < records.len()
        invariant
            resolver@.wf(),
            k <= records.len(),
            resolve_records(relocation_views(records@), len as int, resolver@, k as nat) == Ok::<
                Seq<Patch>,
                RelocationErrorView,
            >(patches@),
        decreases records.len() - k,
    {
        assert(relocation_views(records@)[k as int] == records[k as int]@);
        match resolve_one(&records[k], k, len, resolver) {
            Err(e) => {
                proof {
                    lemma_resolve_error_stays(
                        relocation_views(records@),
                        len as int,
                        resolver@,
                        (k + 1) as nat,
                        records.len() as nat,
                    );
                }
                return Err(e);
            },
            Ok(None) => {},
            Ok(Some(patch)) => {
                patches.push(patch);
            },
        }
        k += 1;
    }
    Ok(patches)
}

/// Writes the patches, one after the other.
fn apply_all(instructions: &mut Vec<u64>, patches: &Vec<Patch>)
    ensures
        final(instructions)@ == apply_patches(old(instructions)@, patches@, patches.len() as nat),
{
    let mut k: usize = 0;
    while k < patches.len()
        invariant
            k <= patches.len(),
            instructions@ == apply_patches(old(instructions)@, patches@, k as nat),
        decreases patches.len() - k,
    {
        let patch = patches[k];
        if patch.offset < instructions.len() {
            instructions.set(patch.offset, patch.word);
        }
        k += 1;
    }
}

/// The patches that each program asks for, or the error of the first
/// program that has a record which does not resolve.
fn resolve_programs(programs: &NameTable<ProgramObject>, resolver: &Resolver) -> (result: Result<
    Vec<Vec<Patch>>,
    BpfError,
>)
    requires
        resolver@.wf(),
    ensures
        programs.wf(),
        match first_failure(
            program_object_views(programs.values()),
            resolver@,
            programs.values().len(),
        ) {
            Some(i) => result matches Err(e) && e@ == (BpfErrorView::RelocationError {
                function: programs.names()[i],
                error: relocate_program(program_object_views(programs.values())[i], resolver@)->Err_0,
            }),
            None => {
                &&& result matches Ok(all)
                &&& all.len() == programs.values().len()
                &&& forall|i: int|
                    0 <= i < all.len() ==> program_patches(
                        #[trigger] program_object_views(programs.values())[i],
                        resolver@,
                    ) == Ok::<Seq<Patch>, RelocationErrorView>(all[i]@)
            },
        },
{
    let ghost views = program_object_views(programs.values());
    let count = programs.len();
    let mut all: Vec<Vec<Patch>> = Vec::new();
    let mut i: usize = 0;
    while i < count
        invariant
            resolver@.wf(),
            programs.wf(),
            count == programs.values().len(),
            count == programs.names().len(),
            views == program_object_views(programs.values()),
            i <= count,
            all.len() == i,
            first_failure(views, resolver@, i as nat).is_none(),
            forall|j: int|
                0 <= j < i ==> program_patches(#[trigger] views[j], resolver@) == Ok::<
                    Seq<Patch>,
                    RelocationErrorView,
                >(all[j]@),
        decreases count - i,
    {
        let program = programs.value_at(i);
        assert(views[i as int] == program@);
        match resolve_all(&program.relocations, program.instructions.len(), resolver) {
            Err(error) => {
                let function = programs.name_at(i).to_owned();
                proof {
                    lemma_first_failure_stays(views, resolver@, (i + 1) as nat, count as nat);
                }
                return Err(BpfError::RelocationError { function, error });
            },
            Ok(patches) => {
                all.push(patches);
            },
        }
        i += 1;
    }
    Ok(all)
}

/// Writes the patches of each program into its instructions.
fn apply_programs(programs: &mut NameTable<ProgramObject>, all: &Vec<Vec<Patch>>)
    requires
        all.len() == old(programs).values().len(),
    ensures
        final(programs).wf(),
        final(programs).names() == old(programs).names(),
        final(programs).values().len() == old(programs).values().len(),
        forall|i: int|
            0 <= i < all.len() ==> (#[trigger] final(programs).values()[i])@ == patched(
                old(programs).values()[i]@,
                all[i]@,
            ),
{
    let count = programs.len();
    let mut i: usize = 0;
    while i < count
        invariant
            programs.wf(),
            i <= count,
            count == all.len(),
            programs.names() == old(programs).names(),
            programs.values().len() == old(programs).values().len(),
            count == programs.values().len(),
            forall|j: int| i <= j < count ==> programs.values()[j] == old(programs).values()[j],
            forall|j: int|
                0 <= j < i ==> (#[trigger] programs.values()[j])@ == patched(
                    old(programs).values()[j]@,
                    all[j]@,
                ),
        decreases count - i,
    {
        let program = programs.value_at_mut(i);
        apply_all(&mut program.instructions, &all[i]);
        i += 1;
    }
}

/// Once a record does not resolve, the records after it change nothing.
proof fn lemma_resolve_error_stays(
    records: Seq<RelocationView>,
    len: int,
    resolver: ResolverView,
    failed: nat,
    count: nat,
)
    requires
        failed <= count,
        resolve_records(records, len, resolver, failed) is Err,
    ensures
        resolve_records(records, len, resolver, count) == resolve_records(
            records,
            len,
            resolver,
            failed,
        ),
    decreases count,
{
    if failed < count {
        lemma_resolve_error_stays(records, len, resolver, failed, (count - 1) as nat);
    }
}

/// Once a program fails, it stays the first that fails.
proof fn lemma_first_failure_stays(
    programs: Seq<ProgramObjectView>,
    resolver: ResolverView,
    failed: nat,
    count: nat,
)
    requires
        failed <= count,
        first_failure(programs, resolver, failed) is Some,
    ensures
        first_failure(programs, resolver, count) == first_failure(programs, resolver, failed),
    decreases count,
{
    if failed < count {
        lemma_first_failure_stays(programs, resolver, failed, (count - 1) as nat);
    }
}

/// Writing the first patches does not depend on the patches after them.
proof fn lemma_apply_patches_prefix(
    instructions: Seq<u64>,
    patches: Seq<Patch>,
    more: Seq<Patch>,
    count: nat,
)
    requires
        count <= patches.len(),
        patches.len() <= more.len(),
        forall|j: int| 0 <= j < patches.len() ==> more[j] == patches[j],
    ensures
        apply_patches(instructions, more, count) == apply_patches(instructions, patches, count),
    decreases count,
{
    if count > 0 {
        lemma_apply_patches_prefix(instructions, patches, more, (count - 1) as nat);
    }
}

/// The word that a record leaves behind, over the first `count` records.
proof fn lemma_record_word(
    instructions: Seq<u64>,
    records: Seq<RelocationView>,
    resolver: ResolverView,
    count: nat,
    k: int,
)
    requires
        0 <= k < count <= records.len(),
        resolve_records(records, instructions.len() as int, resolver, count) is Ok,
        resolve_record(records[k], k, instructions.len() as int, resolver) matches Ok(Some(_)),
        forall|j: int|
            k < j < count ==> (resolve_record(
                #[trigger] records[j],
                j,
                instructions.len() as int,
                resolver,
            ) matches Ok(Some(later)) ==> later.offset != records[k].offset),
    ensures
        ({
            let patches = resolve_records(records, instructions.len() as int, resolver, count)->Ok_0;
            let patch = resolve_record(records[k], k, instructions.len() as int, resolver)->Ok_0->Some_0;
            &&& patch.offset == records[k].offset
            &&& patch.offset < instructions.len()
            &&& apply_patches(instructions, patches, patches.len())[patch.offset as int] == patch.word
        }),
    decreases count,
{
    let len = instructions.len() as int;
    let before = resolve_records(records, len, resolver, (count - 1) as nat)->Ok_0;
    let after = resolve_records(records, len, resolver, count)->Ok_0;
    let last = resolve_record(records[count - 1], count - 1, len, resolver);
    lemma_apply_patches_len(instructions, before, before.len());
    if k < count - 1 {
        lemma_record_word(instructions, records, resolver, (count - 1) as nat, k);
    }
    match last {
        Ok(Some(patch)) => {
            assert(after == before.push(patch));
            lemma_apply_patches_prefix(instructions, before, after, before.len());
        },
        _ => {},
    }
}

/// After a pass over a program, the instruction word that a record of the
/// pass names holds the word that the record resolves to: for a record of
/// the map pass, the handle of the map that it names. This holds of every
/// record after which the pass resolves no other record of the same offset.
pub proof fn law_relocated_word(program: ProgramObjectView, resolver: ResolverView, k: int)
    requires
        resolver.wf(),
        0 <= k < program.relocations.len(),
        relocate_program(program, resolver) is Ok,
        resolve_record(program.relocations[k], k, program.instructions.len() as int, resolver) matches Ok(
            Some(_),
        ),
        forall|j: int|
            k < j < program.relocations.len() ==> (resolve_record(
                #[trigger] program.relocations[j],
                j,
                program.instructions.len() as int,
                resolver,
            ) matches Ok(Some(later)) ==> later.offset != program.relocations[k].offset),
    ensures
        ({
            let record = program.relocations[k];
            let after = relocate_program(program, resolver)->Ok_0;
            &&& record.offset < after.instructions.len()
            &&& after.instructions.len() == program.instructions.len()
            &&& resolver matches ResolverView::Maps { names, handles } ==> {
                &&& names.contains(record.name)
                &&& handles[names.index_of(record.name)] matches Some(fd)
                &&& after.instructions[record.offset as int] == fd
            }
            &&& resolver matches ResolverView::Calls { names } ==> {
                &&& names.contains(record.name)
                &&& after.instructions[record.offset as int] == names.index_of(record.name)
            }
        }),
{
    let len = program.instructions.len() as int;
    let patches = resolve_records(program.relocations, len, resolver, program.relocations.len())->Ok_0;
    lemma_record_word(program.instructions, program.relocations, resolver, program.relocations.len(), k);
    lemma_apply_patches_len(program.instructions, patches, patches.len());
}

/// Where no program fails, every program is relocated.
pub proof fn lemma_no_failure(
    programs: Seq<ProgramObjectView>,
    resolver: ResolverView,
    count: nat,
    i: int,
)
    requires
        first_failure(programs, resolver, count) is None,
        0 <= i < count,
    ensures
        relocate_program(programs[i], resolver) is Ok,
    decreases count,
{
    if i < count - 1 {
        lemma_no_failure(programs, resolver, (count - 1) as nat, i);
    }
}

/// Where the records resolve, each of them resolves.
pub proof fn lemma_resolved_each(
    records: Seq<RelocationView>,
    len: int,
    resolver: ResolverView,
    count: nat,
    j: int,
)
    requires
        resolve_records(records, len, resolver, count) is Ok,
        0 <= j < count,
    ensures
        resolve_record(records[j], j, len, resolver) is Ok,
    decreases count,
{
    if j < count - 1 {
        lemma_resolved_each(records, len, resolver, (count - 1) as nat, j);
    }
}

/// Every patch of a pass comes from a record that the pass resolves.
pub proof fn lemma_patch_origin(
    records: Seq<RelocationView>,
    len: int,
    resolver: ResolverView,
    count: nat,
    q: int,
) -> (j: int)
    requires
        resolve_records(records, len, resolver, count) is Ok,
        0 <= q < resolve_records(records, len, resolver, count)->Ok_0.len(),
    ensures
        0 <= j < count,
        resolve_record(records[j], j, len, resolver) == Ok::<Option<Patch>, RelocationErrorView>(
            Some(resolve_records(records, len, resolver, count)->Ok_0[q]),
        ),
    decreases count,
{
    let before = resolve_records(records, len, resolver, (count - 1) as nat)->Ok_0;
    if q < before.len() {
        lemma_patch_origin(records, len, resolver, (count - 1) as nat, q)
    } else {
        count - 1
    }
}

/// One pass over the programs of an object, as a whole: the programs with
/// every record of the pass written, or the error of the first program that
/// has a record which does not resolve, under that program's name.
pub open spec fn relocate_named(
    names: Seq<Seq<char>>,
    programs: Seq<ProgramObjectView>,
    resolver: ResolverView,
) -> Result<Seq<ProgramObjectView>, BpfErrorView> {
    match first_failure(programs, resolver, programs.len()) {
        Some(i) => Err(
            BpfErrorView::RelocationError {
                function: names[i],
                error: relocate_program(programs[i], resolver)->Err_0,
            },
        ),
        None => Ok(relocate_programs(programs, resolver)),
    }
}

/// The resolver of the map pass over these maps.
pub open spec fn map_resolver(maps: &NameTable<MapData>) -> ResolverView {
    ResolverView::Maps { names: maps.names(), handles: handles_of(maps.values()) }
}

/// The resolver of the call pass over the programs of these names.
pub open spec fn call_resolver(names: Seq<Seq<char>>) -> ResolverView {
    ResolverView::Calls { names }
}

/// The map pass: writes, for every record that names a map, the handle of
/// that map into the instruction word that the record names. Where a record
/// does not resolve, nothing is written and the error names the program with
/// that record.
pub fn relocate_maps(programs: &mut NameTable<ProgramObject>, maps: &NameTable<MapData>) -> (result:
    Result<(), BpfError>)
    ensures
        final(programs).wf(),
        final(programs).names() == old(programs).names(),
        match relocate_named(
            old(programs).names(),
            program_object_views(old(programs).values()),
            map_resolver(maps),
        ) {
            Ok(relocated) => {
                &&& result is Ok
                &&& program_object_views(final(programs).values()) == relocated
            },
            Err(e) => {
                &&& result matches Err(x)
                &&& x@ == e
                &&& final(programs).values() == old(programs).values()
            },
        },
{
    proof {
        use_type_invariant(maps);
        maps.lemma_wf();
    }
    let resolver = Resolver::Maps(maps);
    match resolve_programs(programs, &resolver) {
        Err(e) => Err(e),
        Ok(all) => {
            apply_programs(programs, &all);
            assert(program_object_views(programs.values()) =~= relocate_programs(
                program_object_views(old(programs).values()),
                map_resolver(maps),
            ));
            Ok(())
        },
    }
}

/// The call pass: writes, for every record that names a call target, the
/// position of the target among the programs of the object into the
/// instruction word that the record names. Where a record does not resolve,
/// nothing is written and the error names the program with that record.
pub fn relocate_calls(programs: &mut NameTable<ProgramObject>) -> (result: Result<(), BpfError>)
    ensures
        final(programs).wf(),
        final(programs).names() == old(programs).names(),
        match relocate_named(
            old(programs).names(),
            program_object_views(old(programs).values()),
            call_resolver(old(programs).names()),
        ) {
            Ok(relocated) => {
                &&& result is Ok
                &&& program_object_views(final(programs).values()) == relocated
            },
            Err(e) => {
                &&& result matches Err(x)
                &&& x@ == e
                &&& final(programs).values() == old(programs).values()
            },
        },
{
    proof {
        use_type_invariant(&*programs);
        programs.lemma_wf();
    }
    let resolved = {
        let resolver = Resolver::Calls(&*programs);
        resolve_programs(&*programs, &resolver)
    };
    match resolved {
        Err(e) => Err(e),
        Ok(all) => {
            apply_programs(programs, &all);
            assert(program_object_views(programs.values()) =~= relocate_programs(
                program_object_views(old(programs).values()),
                call_resolver(old(programs).names()),
            ));
            Ok(())
        },
    }
}

impl Object {
    /// The map pass over the programs of the object.
    pub fn relocate_maps(&mut self, maps: &NameTable<MapData>) -> (result: Result<(), BpfError>)
        ensures
            match relocate_named(old(self)@.program_names, old(self)@.programs, map_resolver(maps)) {
                Ok(relocated) => result is Ok && final(self)@ == (ObjectView {
                    programs: relocated,
                    ..old(self)@
                }),
                Err(e) => result matches Err(x) && x@ == e && final(self)@ == old(self)@,
            },
    {
        relocate_maps(&mut self.programs, maps)
    }

    /// The call pass over the programs of the object.
    pub fn relocate_calls(&mut self) -> (result: Result<(), BpfError>)
        ensures
            match relocate_named(
                old(self)@.program_names,
                old(self)@.programs,
                call_resolver(old(self)@.program_names),
            ) {
                Ok(relocated) => result is Ok && final(self)@ == (ObjectView {
                    programs: relocated,
                    ..old(self)@
                }),
                Err(e) => result matches Err(x) && x@ == e && final(self)@ == old(self)@,
            },
    {
        relocate_calls(&mut self.programs)
    }
}

} // verus!
