use aya::bpf::{Bpf, BpfError, BpfLoader};
use aya::load::{LoadStep, Outcome};
use aya::maps::{MapData, MapDefinition, PinningType};
use aya::obj::{MapObject, Object, ProgramObject, ProgramSection, Relocation, Symbol, SymbolKind};
use aya::relocation::{relocate_calls, relocate_maps, RelocationError};
use aya::table::NameTable;

fn record(kind: SymbolKind, offset: usize, name: &str) -> Relocation {
    Relocation { offset, symbol: Symbol { kind, name: name.to_string() } }
}

fn map_ref(offset: usize, name: &str) -> Relocation {
    record(SymbolKind::MapReference, offset, name)
}

fn call(offset: usize, name: &str) -> Relocation {
    record(SymbolKind::Call, offset, name)
}

fn programs(all: Vec<(&str, Vec<u64>, Vec<Relocation>)>) -> NameTable<ProgramObject> {
    let mut table = NameTable::new();
    for (name, instructions, relocations) in all {
        let program = ProgramObject { section: ProgramSection::KProbe, instructions, relocations };
        assert!(table.insert(name.to_string(), program).is_none());
    }
    table
}

fn words(table: &NameTable<ProgramObject>, at: usize) -> Vec<u64> {
    table.value_at(at).instructions.clone()
}

/// The maps `A` (handle 20) and `B` (handle 21), made by a load.
fn maps() -> Bpf {
    let mut object = Object::new();
    for name in ["A", "B"] {
        let def = MapDefinition {
            map_type: 1,
            key_size: 4,
            value_size: 4,
            max_entries: 1,
            map_flags: 0,
            id: 0,
            pinning: PinningType::Unpinned,
        };
        assert!(object.add_map(name.to_string(), MapObject { def, data: Vec::new() }).is_none());
    }
    let mut step = BpfLoader::new().load(&[]);
    let mut fd = 20;
    let mut parsed = Some(object);
    loop {
        step = match step {
            LoadStep::Pending(loading) => match parsed.take() {
                Some(object) => loading.resume(Outcome::Parsed(Ok(object))),
                None => {
                    fd += 1;
                    loading.resume(Outcome::Created(Ok(fd - 1)))
                }
            },
            LoadStep::Loaded(bpf) => return bpf,
            LoadStep::Failed { .. } => panic!("the load is to end well"),
        };
    }
}

fn map_table() -> NameTable<MapData> {
    let mut bpf = maps();
    let mut table = NameTable::new();
    for name in ["A", "B"] {
        let (name, map) = bpf.take_map(name).unwrap();
        assert!(table.insert(name, map).is_none());
    }
    table
}

#[test]
fn map_pass_writes_the_handle() {
    let maps = map_table();
    let mut table = programs(vec![
        ("p", vec![1, 2, 3, 4], vec![map_ref(2, "B")]),
        ("q", vec![5, 6], vec![map_ref(0, "A"), map_ref(1, "B")]),
    ]);
    assert!(relocate_maps(&mut table, &maps).is_ok());
    assert_eq!(words(&table, 0), vec![1, 2, 21, 4]);
    assert_eq!(words(&table, 1), vec![20, 21]);
}

#[test]
fn map_pass_writes_later_records_over_earlier_ones() {
    let maps = map_table();
    let mut table = programs(vec![("p", vec![0], vec![map_ref(0, "A"), map_ref(0, "B")])]);
    assert!(relocate_maps(&mut table, &maps).is_ok());
    assert_eq!(words(&table, 0), vec![21]);
}

#[test]
fn map_pass_leaves_calls_alone() {
    let maps = map_table();
    let mut table = programs(vec![("p", vec![7, 8], vec![call(0, "nowhere"), map_ref(1, "A")])]);
    assert!(relocate_maps(&mut table, &maps).is_ok());
    assert_eq!(words(&table, 0), vec![7, 20]);
}

#[test]
fn map_pass_without_records_changes_nothing() {
    let maps = map_table();
    let mut table = programs(vec![("p", vec![7, 8], vec![])]);
    assert!(relocate_maps(&mut table, &maps).is_ok());
    assert_eq!(words(&table, 0), vec![7, 8]);
}

#[test]
fn unknown_map_is_an_error_and_nothing_is_written() {
    let maps = map_table();
    let mut table = programs(vec![
        ("p", vec![1], vec![map_ref(0, "A")]),
        ("q", vec![2, 3], vec![map_ref(0, "B"), map_ref(1, "C")]),
    ]);
    match relocate_maps(&mut table, &maps) {
        Err(BpfError::RelocationError { function, error: RelocationError::UnknownMap { name } }) => {
            assert_eq!(function, "q");
            assert_eq!(name, "C");
        }
        _ => panic!("the pass is to fail"),
    }
    assert_eq!(words(&table, 0), vec![1]);
    assert_eq!(words(&table, 1), vec![2, 3]);
}

#[test]
fn offset_past_the_program_is_an_error() {
    let maps = map_table();
    let mut table = programs(vec![("p", vec![1, 2], vec![map_ref(1, "A"), map_ref(2, "A")])]);
    match relocate_maps(&mut table, &maps) {
        Err(BpfError::RelocationError {
            function,
            error: RelocationError::InvalidRelocationOffset { offset, relocation_number },
        }) => {
            assert_eq!(function, "p");
            assert_eq!(offset, 2);
            assert_eq!(relocation_number, 1);
        }
        _ => panic!("the pass is to fail"),
    }
    assert_eq!(words(&table, 0), vec![1, 2]);
}

#[test]
fn offset_is_looked_at_before_the_name() {
    let maps = map_table();
    let mut table = programs(vec![("p", vec![], vec![map_ref(0, "MISSING")])]);
    assert!(matches!(
        relocate_maps(&mut table, &maps),
        Err(BpfError::RelocationError {
            error: RelocationError::InvalidRelocationOffset { offset: 0, relocation_number: 0 },
            ..
        })
    ));
}

#[test]
fn map_without_handle_is_an_error() {
    let mut maps = map_table();
    let def = *maps.value_at(0).definition();
    assert!(maps.insert("C".to_string(), MapData::new(MapObject { def, data: vec![] })).is_none());
    let mut table = programs(vec![("p", vec![1], vec![map_ref(0, "C")])]);
    match relocate_maps(&mut table, &maps) {
        Err(BpfError::RelocationError {
            function,
            error: RelocationError::MapNotCreated { name },
        }) => {
            assert_eq!(function, "p");
            assert_eq!(name, "C");
        }
        _ => panic!("the pass is to fail"),
    }
}

#[test]
fn first_failing_program_is_named() {
    let maps = map_table();
    let mut table = programs(vec![
        ("p", vec![1], vec![map_ref(0, "X")]),
        ("q", vec![1], vec![map_ref(0, "Y")]),
    ]);
    match relocate_maps(&mut table, &maps) {
        Err(BpfError::RelocationError { function, error: RelocationError::UnknownMap { name } }) => {
            assert_eq!(function, "p");
            assert_eq!(name, "X");
        }
        _ => panic!("the pass is to fail"),
    }
}

#[test]
fn call_pass_writes_the_position_of_the_target() {
    let mut table = programs(vec![
        ("main", vec![9, 9, 9], vec![call(0, "second"), call(2, "main")]),
        ("first", vec![9], vec![]),
        ("second", vec![9], vec![call(0, "first")]),
    ]);
    assert!(relocate_calls(&mut table).is_ok());
    assert_eq!(words(&table, 0), vec![2, 9, 0]);
    assert_eq!(words(&table, 1), vec![9]);
    assert_eq!(words(&table, 2), vec![1]);
}

#[test]
fn call_pass_leaves_map_records_alone() {
    let mut table = programs(vec![("main", vec![9, 9], vec![map_ref(0, "nowhere"), call(1, "main")])]);
    assert!(relocate_calls(&mut table).is_ok());
    assert_eq!(words(&table, 0), vec![9, 0]);
}

#[test]
fn unknown_call_target_is_an_error_and_nothing_is_written() {
    let mut table = programs(vec![
        ("main", vec![9, 9], vec![call(0, "main"), call(1, "helper")]),
    ]);
    match relocate_calls(&mut table) {
        Err(BpfError::RelocationError {
            function,
            error: RelocationError::UnknownFunction { name },
        }) => {
            assert_eq!(function, "main");
            assert_eq!(name, "helper");
        }
        _ => panic!("the pass is to fail"),
    }
    assert_eq!(words(&table, 0), vec![9, 9]);
}

#[test]
fn call_past_the_program_is_an_error() {
    let mut table = programs(vec![("main", vec![9], vec![call(1, "main")])]);
    assert!(matches!(
        relocate_calls(&mut table),
        Err(BpfError::RelocationError {
            error: RelocationError::InvalidRelocationOffset { offset: 1, relocation_number: 0 },
            ..
        })
    ));
}

#[test]
fn object_passes_relocate_its_programs() {
    let maps = map_table();
    let mut object = Object::new();
    let program = ProgramObject {
        section: ProgramSection::Xdp,
        instructions: vec![0, 0],
        relocations: vec![map_ref(0, "B"), call(1, "p")],
    };
    assert!(object.add_program("p".to_string(), program).is_none());
    assert!(object.relocate_maps(&maps).is_ok());
    assert_eq!(object.programs.value_at(0).instructions, vec![21, 0]);
    assert!(object.relocate_calls().is_ok());
    assert_eq!(object.programs.value_at(0).instructions, vec![21, 0]);
    assert_eq!(object.programs.value_at(0).relocations.len(), 2);

    let mut other = Object::new();
    let program = ProgramObject {
        section: ProgramSection::Xdp,
        instructions: vec![5],
        relocations: vec![map_ref(0, "Z")],
    };
    assert!(other.add_program("p".to_string(), program).is_none());
    assert!(other.relocate_maps(&maps).is_err());
    assert_eq!(other.programs.value_at(0).instructions, vec![5]);
}

#[test]
fn table_keeps_names_apart() {
    let mut table: NameTable<u32> = NameTable::new();
    assert_eq!(table.len(), 0);
    assert!(table.insert("a".to_string(), 1).is_none());
    assert!(table.insert("b".to_string(), 2).is_none());
    assert_eq!(table.insert("a".to_string(), 3), Some(("a".to_string(), 3)));
    assert_eq!(table.len(), 2);
    assert_eq!(table.find("b"), Some(1));
    assert_eq!(table.find("c"), None);
    assert_eq!(table.name_at(0), "a");
    assert_eq!(*table.value_at(0), 1);
    assert!(table.name_equals(1, "b"));
    assert!(!table.name_equals(1, "a"));
    *table.value_at_mut(1) = 5;
    let entry = table.entry_at_mut(0);
    assert_eq!(entry.0, "a");
    *entry.1 = 4;
    assert_eq!(table.entries(), vec![("a", &4), ("b", &5)]);
    assert_eq!(table.remove("a"), Some(("a".to_string(), 4)));
    assert_eq!(table.remove("a"), None);
    assert_eq!(table.entries(), vec![("b", &5)]);
    let (names, values) = table.into_parts();
    assert_eq!(names.len(), 1);
    assert_eq!(names.name_at(0), "b");
    assert_eq!(values, vec![5]);
    let table = names.with_values(vec!["x"]);
    assert_eq!(table.entries(), vec![("b", &"x")]);
}
