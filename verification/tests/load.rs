use aya::abi::BPF_MAP_TYPE_PERF_EVENT_ARRAY;
use aya::bpf::{Bpf, BpfError, BpfLoader};
use aya::btf::{Btf, BtfError};
use aya::load::{LoadStep, Outcome, Request, POSSIBLE_CPUS};
use aya::maps::{MapDefinition, MapError, PinningType};
use aya::obj::{
    MapObject, Object, ParseError, ProgramObject, ProgramSection, Relocation, Symbol, SymbolKind,
};
use aya::programs::Program;
use aya::relocation::RelocationError;
use aya::sys::SysError;
use std::io;

const HASH: u32 = 1;

fn definition(map_type: u32, max_entries: u32, pinning: PinningType) -> MapDefinition {
    MapDefinition {
        map_type,
        key_size: 4,
        value_size: 4,
        max_entries,
        map_flags: 0,
        id: 0,
        pinning,
    }
}

fn map(map_type: u32, max_entries: u32, pinning: PinningType, data: Vec<u8>) -> MapObject {
    MapObject { def: definition(map_type, max_entries, pinning), data }
}

fn program(instructions: Vec<u64>, relocations: Vec<Relocation>) -> ProgramObject {
    ProgramObject { section: ProgramSection::Xdp, instructions, relocations }
}

fn map_ref(offset: usize, name: &str) -> Relocation {
    Relocation {
        offset,
        symbol: Symbol { kind: SymbolKind::MapReference, name: name.to_string() },
    }
}

fn sys_error(code: i64) -> SysError {
    SysError { code, io_error: io::Error::from_raw_os_error(1) }
}

/// A kernel that keeps what it is asked, for the tests to look at.
struct Kernel {
    next_fd: u32,
    cpus: u32,
    pinned: Vec<(String, u32)>,
    calls: Vec<String>,
    written: Vec<(u32, Vec<u8>)>,
    fail_create: bool,
    fail_pin: bool,
    fail_update: bool,
    object: Option<Object>,
}

fn kernel(object: Object) -> Kernel {
    Kernel {
        next_fd: 3,
        cpus: 8,
        pinned: Vec::new(),
        calls: Vec::new(),
        written: Vec::new(),
        fail_create: false,
        fail_pin: false,
        fail_update: false,
        object: Some(object),
    }
}

fn perform(kernel: &mut Kernel, request: Request) -> Outcome {
    match request {
        Request::ReadFile { path } => {
            kernel.calls.push(format!("read {}", path));
            Outcome::FileRead(Ok(vec![0x7f, b'E', b'L', b'F']))
        }
        Request::Parse { data } => {
            kernel.calls.push(format!("parse {}", data.len()));
            match kernel.object.take() {
                Some(object) => Outcome::Parsed(Ok(object)),
                None => Outcome::Parsed(Err(ParseError { message: "no object".to_string() })),
            }
        }
        Request::RelocateBtf { object, .. } => {
            kernel.calls.push("btf".to_string());
            let mut streams = Vec::new();
            for i in 0..object.programs.len() {
                let mut stream = object.programs.value_at(i).instructions.clone();
                for word in stream.iter_mut() {
                    *word += 1;
                }
                streams.push(stream);
            }
            Outcome::BtfRelocated(Ok(streams))
        }
        Request::PossibleCpus => {
            kernel.calls.push("cpus".to_string());
            Outcome::PossibleCpus(Ok(kernel.cpus))
        }
        Request::OpenPinned { path } => {
            kernel.calls.push(format!("open {}", path));
            let mut found = None;
            for (pinned, fd) in kernel.pinned.iter() {
                if pinned == path {
                    found = Some(*fd);
                }
            }
            match found {
                Some(fd) => Outcome::Opened(Ok(fd + 100)),
                None => Outcome::Opened(Err(sys_error(-2))),
            }
        }
        Request::CreateMap { name, def } => {
            kernel.calls.push(format!("create {} {}", name, def.max_entries));
            if kernel.fail_create {
                return Outcome::Created(Err(sys_error(-12)));
            }
            let fd = kernel.next_fd;
            kernel.next_fd += 1;
            Outcome::Created(Ok(fd))
        }
        Request::PinMap { fd, path } => {
            kernel.calls.push(format!("pin {} {}", fd, path));
            if kernel.fail_pin {
                return Outcome::Pinned(Err(sys_error(-13)));
            }
            kernel.pinned.push((path.to_string(), fd));
            Outcome::Pinned(Ok(()))
        }
        Request::UpdateElem { fd, key, value, flags } => {
            kernel.calls.push(format!("update {} {} {}", fd, key, flags));
            if kernel.fail_update {
                return Outcome::Updated(Err(sys_error(-14)));
            }
            kernel.written.push((fd, value.to_vec()));
            Outcome::Updated(Ok(()))
        }
    }
}

fn drive(mut step: LoadStep, kernel: &mut Kernel) -> Result<Bpf, (BpfError, Vec<u32>)> {
    loop {
        match step {
            LoadStep::Pending(loading) => {
                let outcome = perform(kernel, loading.request());
                step = loading.resume(outcome);
            }
            LoadStep::Loaded(bpf) => return Ok(bpf),
            LoadStep::Failed { error, release } => return Err((error, release)),
        }
    }
}

fn one_map(name: &str, map: MapObject) -> Object {
    let mut object = Object::new();
    assert!(object.add_map(name.to_string(), map).is_none());
    object
}

#[test]
fn load_makes_every_map_and_program_of_the_object() {
    let mut object = Object::new();
    assert!(object.add_map("A".to_string(), map(HASH, 4, PinningType::Unpinned, vec![])).is_none());
    assert!(object.add_map("B".to_string(), map(HASH, 8, PinningType::Unpinned, vec![])).is_none());
    assert!(object.add_program("first".to_string(), program(vec![1, 2], vec![])).is_none());
    assert!(object.add_program("second".to_string(), program(vec![3], vec![])).is_none());
    let mut kernel = kernel(object);
    let bpf = drive(BpfLoader::new().load(&[1, 2, 3]), &mut kernel).unwrap();
    let maps: Vec<&str> = bpf.maps().iter().map(|entry| entry.0).collect();
    assert_eq!(maps, vec!["A", "B"]);
    let programs: Vec<&str> = bpf.programs().iter().map(|entry| entry.0).collect();
    assert_eq!(programs, vec!["first", "second"]);
    assert_eq!(bpf.map("A").unwrap().fd(), Some(3));
    assert_eq!(bpf.map("B").unwrap().fd(), Some(4));
    assert_eq!(kernel.calls, vec!["parse 3", "create A 4", "create B 8"]);
}

#[test]
fn load_of_an_empty_object_gives_an_empty_registry() {
    let mut kernel = kernel(Object::new());
    let bpf = drive(BpfLoader::new().load(&[]), &mut kernel).unwrap();
    assert_eq!(bpf.maps().len(), 0);
    assert_eq!(bpf.programs().len(), 0);
    assert_eq!(kernel.calls, vec!["parse 0"]);
}

#[test]
fn perf_event_array_is_sized_by_the_cpus() {
    let object = one_map("EVENTS", map(BPF_MAP_TYPE_PERF_EVENT_ARRAY, 0, PinningType::Unpinned, vec![]));
    let mut kernel = kernel(object);
    let bpf = drive(BpfLoader::new().load(&[0]), &mut kernel).unwrap();
    let events = bpf.map("EVENTS").unwrap();
    assert_eq!(events.definition().max_entries, 8);
    assert_eq!(events.definition().map_type, BPF_MAP_TYPE_PERF_EVENT_ARRAY);
    assert_eq!(kernel.calls, vec!["parse 1", "cpus", "create EVENTS 8"]);
}

#[test]
fn perf_event_array_with_entries_keeps_them() {
    let object = one_map("EVENTS", map(BPF_MAP_TYPE_PERF_EVENT_ARRAY, 2, PinningType::Unpinned, vec![]));
    let mut kernel = kernel(object);
    let bpf = drive(BpfLoader::new().load(&[0]), &mut kernel).unwrap();
    assert_eq!(bpf.map("EVENTS").unwrap().definition().max_entries, 2);
    assert_eq!(kernel.calls, vec!["parse 1", "create EVENTS 2"]);
}

#[test]
fn other_map_without_entries_is_not_sized() {
    let object = one_map("EMPTY", map(HASH, 0, PinningType::Unpinned, vec![]));
    let mut kernel = kernel(object);
    let bpf = drive(BpfLoader::new().load(&[0]), &mut kernel).unwrap();
    assert_eq!(bpf.map("EMPTY").unwrap().definition().max_entries, 0);
    assert_eq!(kernel.calls, vec!["parse 1", "create EMPTY 0"]);
}

#[test]
fn failed_count_of_cpus_names_the_path() {
    let object = one_map("EVENTS", map(BPF_MAP_TYPE_PERF_EVENT_ARRAY, 0, PinningType::Unpinned, vec![]));
    let loading = match BpfLoader::new().load(&[0]) {
        LoadStep::Pending(loading) => loading,
        _ => panic!("the load is to wait"),
    };
    let loading = match loading.resume(Outcome::Parsed(Ok(object))) {
        LoadStep::Pending(loading) => loading,
        _ => panic!("the load is to wait"),
    };
    assert!(matches!(loading.request(), Request::PossibleCpus));
    let step = loading.resume(Outcome::PossibleCpus(Err(io::Error::from_raw_os_error(2))));
    match step {
        LoadStep::Failed { error: BpfError::FileError { path, error }, release } => {
            assert_eq!(path, "/sys/devices/system/cpu/possible");
            assert_eq!(path, POSSIBLE_CPUS);
            assert_eq!(error.raw_os_error(), Some(2));
            assert!(release.is_empty());
        }
        _ => panic!("the load is to fail on the count"),
    }
}

#[test]
fn pinned_map_without_pin_path_fails() {
    let object = one_map("SHARED", map(HASH, 4, PinningType::ByName, vec![]));
    let mut kernel = kernel(object);
    let failure = drive(BpfLoader::new().load(&[0]), &mut kernel).unwrap_err();
    assert!(matches!(failure.0, BpfError::NoPinPath));
    assert!(failure.1.is_empty());
    assert_eq!(kernel.calls, vec!["parse 1"]);
}

#[test]
fn pinned_map_without_pin_path_releases_the_maps_before_it() {
    let mut object = Object::new();
    assert!(object.add_map("A".to_string(), map(HASH, 4, PinningType::Unpinned, vec![])).is_none());
    assert!(object.add_map("B".to_string(), map(HASH, 4, PinningType::Unpinned, vec![])).is_none());
    assert!(object.add_map("SHARED".to_string(), map(HASH, 4, PinningType::ByName, vec![])).is_none());
    let mut kernel = kernel(object);
    let failure = drive(BpfLoader::new().load(&[0]), &mut kernel).unwrap_err();
    assert!(matches!(failure.0, BpfError::NoPinPath));
    assert_eq!(failure.1, vec![3, 4]);
}

#[test]
fn pinned_map_with_pin_path_is_created_and_pinned() {
    let object = one_map("SHARED", map(HASH, 4, PinningType::ByName, vec![]));
    let mut kernel = kernel(object);
    let mut loader = BpfLoader::new();
    loader.map_pin_path("/sys/fs/bpf/app");
    let bpf = drive(loader.load(&[0]), &mut kernel).unwrap();
    let shared = bpf.map("SHARED").unwrap();
    assert!(shared.pinned());
    assert_eq!(shared.fd(), Some(3));
    assert_eq!(
        kernel.calls,
        vec![
            "parse 1",
            "open /sys/fs/bpf/app/SHARED",
            "create SHARED 4",
            "pin 3 /sys/fs/bpf/app/SHARED"
        ]
    );
}

#[test]
fn second_load_opens_the_pinned_map() {
    let mut kernel = kernel(one_map("SHARED", map(HASH, 4, PinningType::ByName, vec![])));
    let mut loader = BpfLoader::new();
    loader.map_pin_path("/sys/fs/bpf/app");
    let first = drive(loader.load(&[0]), &mut kernel).unwrap();
    assert_eq!(first.map("SHARED").unwrap().fd(), Some(3));

    kernel.calls.clear();
    kernel.object = Some(one_map("SHARED", map(HASH, 4, PinningType::ByName, vec![])));
    let second = drive(loader.load(&[0]), &mut kernel).unwrap();
    let shared = second.map("SHARED").unwrap();
    assert!(shared.pinned());
    assert_eq!(shared.fd(), Some(103));
    assert_eq!(kernel.calls, vec!["parse 1", "open /sys/fs/bpf/app/SHARED"]);
    assert_eq!(kernel.pinned.len(), 1);
}

#[test]
fn unpinned_map_is_not_pinned() {
    let object = one_map("LOCAL", map(HASH, 4, PinningType::Unpinned, vec![]));
    let mut kernel = kernel(object);
    let mut loader = BpfLoader::new();
    loader.map_pin_path("/sys/fs/bpf/app");
    let bpf = drive(loader.load(&[0]), &mut kernel).unwrap();
    assert!(!bpf.map("LOCAL").unwrap().pinned());
    assert_eq!(kernel.calls, vec!["parse 1", "create LOCAL 4"]);
}

#[test]
fn failed_create_reports_the_call() {
    let mut object = Object::new();
    assert!(object.add_map("A".to_string(), map(HASH, 4, PinningType::Unpinned, vec![])).is_none());
    assert!(object.add_map("B".to_string(), map(HASH, 4, PinningType::Unpinned, vec![])).is_none());
    let loading = match BpfLoader::new().load(&[0]) {
        LoadStep::Pending(loading) => loading,
        _ => panic!("the load is to wait"),
    };
    let loading = match loading.resume(Outcome::Parsed(Ok(object))) {
        LoadStep::Pending(loading) => loading,
        _ => panic!("the load is to wait"),
    };
    let loading = match loading.resume(Outcome::Created(Ok(11))) {
        LoadStep::Pending(loading) => loading,
        _ => panic!("the load is to wait"),
    };
    match loading.resume(Outcome::Created(Err(sys_error(-12)))) {
        LoadStep::Failed {
            error: BpfError::MapError(MapError::SyscallError { call, code, io_error }),
            release,
        } => {
            assert_eq!(call, "bpf_create_map");
            assert_eq!(code, -12);
            assert_eq!(io_error.raw_os_error(), Some(1));
            assert_eq!(release, vec![11]);
        }
        _ => panic!("the load is to fail on the second map"),
    }
}

#[test]
fn failed_pin_reports_the_call_and_releases_the_map() {
    let object = one_map("SHARED", map(HASH, 4, PinningType::ByName, vec![]));
    let mut kernel = kernel(object);
    kernel.fail_pin = true;
    let mut loader = BpfLoader::new();
    loader.map_pin_path("/pins");
    let failure = drive(loader.load(&[0]), &mut kernel).unwrap_err();
    match failure.0 {
        BpfError::MapError(MapError::SyscallError { call, code, .. }) => {
            assert_eq!(call, "bpf_pin_object");
            assert_eq!(code, -13);
        }
        _ => panic!("the load is to fail on the pin"),
    }
    assert_eq!(failure.1, vec![3]);
}

#[test]
fn initial_data_is_written_at_key_zero() {
    let object = one_map(".data", map(HASH, 1, PinningType::Unpinned, vec![9, 8, 7]));
    let mut kernel = kernel(object);
    let bpf = drive(BpfLoader::new().load(&[0]), &mut kernel).unwrap();
    assert_eq!(bpf.map(".data").unwrap().data(), &[9, 8, 7]);
    assert_eq!(kernel.calls, vec!["parse 1", "create .data 1", "update 3 0 0"]);
    assert_eq!(kernel.written, vec![(3, vec![9, 8, 7])]);
}

#[test]
fn zero_section_is_not_written() {
    let object = one_map(".bss", map(HASH, 1, PinningType::Unpinned, vec![0, 0, 0, 0]));
    let mut kernel = kernel(object);
    let bpf = drive(BpfLoader::new().load(&[0]), &mut kernel).unwrap();
    assert_eq!(bpf.map(".bss").unwrap().fd(), Some(3));
    assert_eq!(kernel.calls, vec!["parse 1", "create .bss 1"]);
    assert!(kernel.written.is_empty());
}

#[test]
fn map_without_data_is_not_written() {
    let object = one_map(".data", map(HASH, 1, PinningType::Unpinned, vec![]));
    let mut kernel = kernel(object);
    drive(BpfLoader::new().load(&[0]), &mut kernel).unwrap();
    assert!(kernel.written.is_empty());
}

#[test]
fn failed_write_reports_the_call() {
    let object = one_map(".data", map(HASH, 1, PinningType::Unpinned, vec![1]));
    let mut kernel = kernel(object);
    kernel.fail_update = true;
    let failure = drive(BpfLoader::new().load(&[0]), &mut kernel).unwrap_err();
    match failure.0 {
        BpfError::MapError(MapError::SyscallError { call, code, .. }) => {
            assert_eq!(call, "bpf_map_update_elem");
            assert_eq!(code, -14);
        }
        _ => panic!("the load is to fail on the write"),
    }
    assert_eq!(failure.1, vec![3]);
}

#[test]
fn opened_map_is_filled_too() {
    let mut kernel = kernel(one_map("SHARED", map(HASH, 4, PinningType::ByName, vec![5])));
    kernel.pinned.push(("/pins/SHARED".to_string(), 1));
    let mut loader = BpfLoader::new();
    loader.map_pin_path("/pins");
    let bpf = drive(loader.load(&[0]), &mut kernel).unwrap();
    assert_eq!(bpf.map("SHARED").unwrap().fd(), Some(101));
    assert_eq!(kernel.calls, vec!["parse 1", "open /pins/SHARED", "update 101 0 0"]);
}

#[test]
fn failed_parse_ends_the_load() {
    let loading = match BpfLoader::new().load(&[1]) {
        LoadStep::Pending(loading) => loading,
        _ => panic!("the load is to wait"),
    };
    let step = loading.resume(Outcome::Parsed(Err(ParseError { message: "bad magic".to_string() })));
    match step {
        LoadStep::Failed { error: BpfError::ParseError(e), release } => {
            assert_eq!(e.message, "bad magic");
            assert!(release.is_empty());
        }
        _ => panic!("the load is to fail"),
    }
}

#[test]
fn load_file_reads_then_parses() {
    let mut kernel = kernel(one_map("A", map(HASH, 4, PinningType::Unpinned, vec![])));
    let bpf = drive(BpfLoader::new().load_file("/tmp/prog.o"), &mut kernel).unwrap();
    assert_eq!(bpf.maps().len(), 1);
    assert_eq!(kernel.calls, vec!["read /tmp/prog.o", "parse 4", "create A 4"]);
}

#[test]
fn failed_read_names_the_file() {
    let loading = match BpfLoader::new().load_file("/tmp/missing.o") {
        LoadStep::Pending(loading) => loading,
        _ => panic!("the load is to wait"),
    };
    assert!(matches!(loading.request(), Request::ReadFile { path: "/tmp/missing.o" }));
    match loading.resume(Outcome::FileRead(Err(io::Error::from_raw_os_error(2)))) {
        LoadStep::Failed { error: BpfError::FileError { path, error }, release } => {
            assert_eq!(path, "/tmp/missing.o");
            assert_eq!(error.raw_os_error(), Some(2));
            assert!(release.is_empty());
        }
        _ => panic!("the load is to fail"),
    }
}

#[test]
fn bpf_load_starts_without_pin_path() {
    let mut kernel = kernel(one_map("SHARED", map(HASH, 4, PinningType::ByName, vec![])));
    let failure = drive(Bpf::load(&[0], None), &mut kernel).unwrap_err();
    assert!(matches!(failure.0, BpfError::NoPinPath));
    let mut kernel = kernel_with_file();
    assert!(drive(Bpf::load_file("/tmp/prog.o", None), &mut kernel).is_ok());
    assert_eq!(kernel.calls[0], "read /tmp/prog.o");
}

fn kernel_with_file() -> Kernel {
    kernel(one_map("A", map(HASH, 4, PinningType::Unpinned, vec![])))
}

#[test]
fn debug_types_relocate_before_the_maps() {
    let btf = Btf { data: vec![1, 2, 3] };
    let mut object = one_map("A", map(HASH, 4, PinningType::Unpinned, vec![]));
    assert!(object.add_program("p".to_string(), program(vec![10, 20], vec![map_ref(1, "A")])).is_none());
    let mut kernel = kernel(object);
    let mut loader = BpfLoader::new();
    loader.btf(Some(&btf));
    let bpf = drive(loader.load(&[0]), &mut kernel).unwrap();
    assert_eq!(kernel.calls, vec!["parse 1", "btf", "create A 4"]);
    assert_eq!(bpf.program("p").unwrap().data().instructions(), &[11, 3]);
}

#[test]
fn without_debug_types_nothing_is_relocated_by_them() {
    let btf = Btf { data: vec![1] };
    let mut object = Object::new();
    assert!(object.add_program("p".to_string(), program(vec![10, 20], vec![])).is_none());
    let mut kernel = kernel(object);
    let mut loader = BpfLoader::new();
    loader.btf(Some(&btf)).btf(None);
    let bpf = drive(loader.load(&[0]), &mut kernel).unwrap();
    assert_eq!(kernel.calls, vec!["parse 1"]);
    assert_eq!(bpf.program("p").unwrap().data().instructions(), &[10, 20]);
}

#[test]
fn failed_debug_types_end_the_load() {
    let btf = Btf { data: vec![] };
    let mut loader = BpfLoader::new();
    loader.btf(Some(&btf));
    let loading = match loader.load(&[0]) {
        LoadStep::Pending(loading) => loading,
        _ => panic!("the load is to wait"),
    };
    let loading = match loading.resume(Outcome::Parsed(Ok(Object::new()))) {
        LoadStep::Pending(loading) => loading,
        _ => panic!("the load is to wait for the debug types"),
    };
    assert!(matches!(loading.request(), Request::RelocateBtf { .. }));
    match loading.resume(Outcome::BtfRelocated(Err(BtfError { message: "no types".to_string() }))) {
        LoadStep::Failed { error: BpfError::BtfError(e), .. } => assert_eq!(e.message, "no types"),
        _ => panic!("the load is to fail"),
    }
}

#[test]
fn streams_of_the_wrong_number_are_passed_over() {
    let btf = Btf { data: vec![] };
    let mut loader = BpfLoader::new();
    loader.btf(Some(&btf));
    let mut object = Object::new();
    assert!(object.add_program("p".to_string(), program(vec![1], vec![])).is_none());
    let loading = match loader.load(&[0]) {
        LoadStep::Pending(loading) => loading,
        _ => panic!("the load is to wait"),
    };
    let loading = match loading.resume(Outcome::Parsed(Ok(object))) {
        LoadStep::Pending(loading) => loading,
        _ => panic!("the load is to wait"),
    };
    let loading = match loading.resume(Outcome::BtfRelocated(Ok(vec![]))) {
        LoadStep::Pending(loading) => loading,
        _ => panic!("the load is to stay"),
    };
    assert!(matches!(loading.request(), Request::RelocateBtf { .. }));
    match loading.resume(Outcome::BtfRelocated(Ok(vec![vec![7, 7]]))) {
        LoadStep::Loaded(bpf) => {
            assert_eq!(bpf.program("p").unwrap().data().instructions(), &[7, 7]);
        }
        _ => panic!("the load is to end"),
    }
}

#[test]
fn outcome_of_another_request_is_passed_over() {
    let object = one_map("A", map(HASH, 4, PinningType::Unpinned, vec![]));
    let loading = match BpfLoader::new().load(&[5]) {
        LoadStep::Pending(loading) => loading,
        _ => panic!("the load is to wait"),
    };
    let loading = match loading.resume(Outcome::Created(Ok(9))) {
        LoadStep::Pending(loading) => loading,
        _ => panic!("the load is to stay"),
    };
    assert!(matches!(loading.request(), Request::Parse { data } if data == [5]));
    let loading = match loading.resume(Outcome::Parsed(Ok(object))) {
        LoadStep::Pending(loading) => loading,
        _ => panic!("the load is to wait"),
    };
    let loading = match loading.resume(Outcome::Pinned(Ok(()))) {
        LoadStep::Pending(loading) => loading,
        _ => panic!("the load is to stay"),
    };
    assert!(matches!(loading.request(), Request::CreateMap { name: "A", .. }));
    assert!(matches!(loading.resume(Outcome::Created(Ok(9))), LoadStep::Loaded(_)));
}

#[test]
fn create_request_carries_the_definition() {
    let object = one_map("A", map(HASH, 4, PinningType::Unpinned, vec![]));
    let loading = match BpfLoader::new().load(&[5]) {
        LoadStep::Pending(loading) => loading,
        _ => panic!("the load is to wait"),
    };
    let loading = match loading.resume(Outcome::Parsed(Ok(object))) {
        LoadStep::Pending(loading) => loading,
        _ => panic!("the load is to wait"),
    };
    match loading.request() {
        Request::CreateMap { name, def } => {
            assert_eq!(name, "A");
            assert_eq!(*def, definition(HASH, 4, PinningType::Unpinned));
        }
        _ => panic!("a map is to be created"),
    }
}

#[test]
fn loaded_program_refers_to_the_handle_of_its_map() {
    let mut object = Object::new();
    assert!(object.add_map("A".to_string(), map(HASH, 4, PinningType::Unpinned, vec![])).is_none());
    assert!(object.add_map("B".to_string(), map(HASH, 4, PinningType::Unpinned, vec![])).is_none());
    assert!(object
        .add_program(
            "p".to_string(),
            program(vec![0, 0, 0, 0], vec![map_ref(1, "B"), map_ref(3, "A")]),
        )
        .is_none());
    let mut kernel = kernel(object);
    let bpf = drive(BpfLoader::new().load(&[0]), &mut kernel).unwrap();
    let b = bpf.map("B").unwrap().fd().unwrap();
    let a = bpf.map("A").unwrap().fd().unwrap();
    assert_eq!(bpf.program("p").unwrap().data().instructions(), &[0, b as u64, 0, a as u64]);
    assert_eq!((a, b), (3, 4));
}

#[test]
fn unknown_map_in_a_program_fails_the_load_and_releases_the_maps() {
    let mut object = Object::new();
    assert!(object.add_map("A".to_string(), map(HASH, 4, PinningType::Unpinned, vec![])).is_none());
    assert!(object.add_program("p".to_string(), program(vec![0], vec![map_ref(0, "MISSING")])).is_none());
    let mut kernel = kernel(object);
    let failure = drive(BpfLoader::new().load(&[0]), &mut kernel).unwrap_err();
    match failure.0 {
        BpfError::RelocationError { function, error: RelocationError::UnknownMap { name } } => {
            assert_eq!(function, "p");
            assert_eq!(name, "MISSING");
        }
        _ => panic!("the load is to fail on the relocation"),
    }
    assert_eq!(failure.1, vec![3]);
}

#[test]
fn loaded_programs_are_of_the_kind_of_their_section() {
    let mut object = Object::new();
    assert!(object
        .add_program(
            "x".to_string(),
            ProgramObject { section: ProgramSection::Xdp, instructions: vec![], relocations: vec![] },
        )
        .is_none());
    assert!(object
        .add_program(
            "k".to_string(),
            ProgramObject {
                section: ProgramSection::KRetProbe,
                instructions: vec![],
                relocations: vec![],
            },
        )
        .is_none());
    let mut kernel = kernel(object);
    let bpf = drive(BpfLoader::new().load(&[0]), &mut kernel).unwrap();
    assert!(matches!(bpf.program("x").unwrap(), Program::Xdp(_)));
    assert!(matches!(bpf.program("k").unwrap(), Program::KProbe(_)));
    assert_eq!(bpf.program("x").unwrap().fd(), None);
}

#[test]
fn loader_default_is_new() {
    let mut kernel = kernel(one_map("SHARED", map(HASH, 4, PinningType::ByName, vec![])));
    let mut loader = BpfLoader::default();
    let failure = drive(loader.load(&[0]), &mut kernel).unwrap_err();
    assert!(matches!(failure.0, BpfError::NoPinPath));
}

#[test]
fn object_refuses_a_name_twice() {
    let mut object = Object::new();
    assert!(object.add_map("A".to_string(), map(HASH, 4, PinningType::Unpinned, vec![1])).is_none());
    let refused = object.add_map("A".to_string(), map(HASH, 9, PinningType::Unpinned, vec![2]));
    let (name, back) = refused.unwrap();
    assert_eq!(name, "A");
    assert_eq!(back.def.max_entries, 9);
    assert_eq!(object.maps.len(), 1);
    assert_eq!(object.maps.value_at(0).data, vec![1]);
    assert!(object.add_program("A".to_string(), program(vec![], vec![])).is_none());
    assert!(object.add_program("A".to_string(), program(vec![1], vec![])).is_some());
    assert_eq!(object.programs.len(), 1);
}
