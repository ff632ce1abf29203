use aya::abi::{AttachType, BPF_MAP_TYPE_PERF_EVENT_ARRAY, BPF_PROG_TYPE_SK_SKB};
use aya::bpf::{Bpf, BpfLoader};
use aya::load::{LoadStep, Outcome};
use aya::maps::{MapData, MapDefinition, MapError, PinningType};
use aya::obj::{MapObject, Object, ProgramObject, ProgramSection};
use aya::pod::Pod;
use aya::programs::sk_skb::{ProgramState, SkSkbKind};
use aya::programs::{CgroupSkbAttachType, ProbeKind, Program, ProgramData, ProgramError};
use aya::sys::SysError;
use std::io;

fn described(section: ProgramSection) -> ProgramObject {
    ProgramObject { section, instructions: vec![1, 2, 3], relocations: Vec::new() }
}

fn sk_skb(section: ProgramSection) -> Program {
    Program::classify("intercept", described(section))
}

fn failure() -> SysError {
    SysError { code: -1, io_error: io::Error::from_raw_os_error(13) }
}

/// A socket map with the handle 40, made by a load.
fn sock_map() -> MapData {
    let mut object = Object::new();
    let def = MapDefinition {
        map_type: 15,
        key_size: 4,
        value_size: 4,
        max_entries: 2,
        map_flags: 0,
        id: 0,
        pinning: PinningType::Unpinned,
    };
    assert!(object.add_map("SOCKS".to_string(), MapObject { def, data: Vec::new() }).is_none());
    let loading = match BpfLoader::new().load(&[]) {
        LoadStep::Pending(loading) => loading,
        _ => panic!("the load is to wait"),
    };
    let loading = match loading.resume(Outcome::Parsed(Ok(object))) {
        LoadStep::Pending(loading) => loading,
        _ => panic!("the load is to wait"),
    };
    let mut bpf: Bpf = match loading.resume(Outcome::Created(Ok(40))) {
        LoadStep::Loaded(bpf) => bpf,
        _ => panic!("the load is to end"),
    };
    bpf.take_map("SOCKS").unwrap().1
}

#[test]
fn every_section_has_its_kind() {
    assert!(matches!(
        Program::classify("a", described(ProgramSection::KProbe)),
        Program::KProbe(p) if p.kind() == ProbeKind::KProbe
    ));
    assert!(matches!(
        Program::classify("a", described(ProgramSection::KRetProbe)),
        Program::KProbe(p) if p.kind() == ProbeKind::KRetProbe
    ));
    assert!(matches!(
        Program::classify("a", described(ProgramSection::UProbe)),
        Program::UProbe(p) if p.kind() == ProbeKind::UProbe
    ));
    assert!(matches!(
        Program::classify("a", described(ProgramSection::URetProbe)),
        Program::UProbe(p) if p.kind() == ProbeKind::URetProbe
    ));
    assert!(matches!(
        Program::classify("a", described(ProgramSection::TracePoint)),
        Program::TracePoint(_)
    ));
    assert!(matches!(
        Program::classify("a", described(ProgramSection::SocketFilter)),
        Program::SocketFilter(_)
    ));
    assert!(matches!(Program::classify("a", described(ProgramSection::Xdp)), Program::Xdp(_)));
    assert!(matches!(Program::classify("a", described(ProgramSection::SkMsg)), Program::SkMsg(_)));
    assert!(matches!(
        Program::classify("a", described(ProgramSection::SkSkbStreamParser)),
        Program::SkSkb(p) if p.kind() == SkSkbKind::StreamParser
    ));
    assert!(matches!(
        Program::classify("a", described(ProgramSection::SkSkbStreamVerdict)),
        Program::SkSkb(p) if p.kind() == SkSkbKind::StreamVerdict
    ));
    assert!(matches!(
        Program::classify("a", described(ProgramSection::SockOps)),
        Program::SockOps(_)
    ));
    assert!(matches!(
        Program::classify("a", described(ProgramSection::CgroupSkbIngress)),
        Program::CgroupSkb(p) if p.expected_attach_type() == Some(CgroupSkbAttachType::Ingress)
    ));
    assert!(matches!(
        Program::classify("a", described(ProgramSection::CgroupSkbEgress)),
        Program::CgroupSkb(p) if p.expected_attach_type() == Some(CgroupSkbAttachType::Egress)
    ));
    assert!(matches!(
        Program::classify("a", described(ProgramSection::LircMode2)),
        Program::LircMode2(_)
    ));
    assert!(matches!(
        Program::classify("a", described(ProgramSection::PerfEvent)),
        Program::PerfEvent(_)
    ));
    assert!(matches!(
        Program::classify("a", described(ProgramSection::RawTracePoint)),
        Program::RawTracePoint(_)
    ));
    assert!(matches!(Program::classify("a", described(ProgramSection::Lsm)), Program::Lsm(_)));
    assert!(matches!(
        Program::classify("a", described(ProgramSection::BtfTracePoint)),
        Program::BtfTracePoint(_)
    ));
}

#[test]
fn classifier_takes_the_name_of_the_program() {
    match Program::classify("ingress_filter", described(ProgramSection::SchedClassifier)) {
        Program::SchedClassifier(p) => {
            assert_eq!(p.name(), "ingress_filter");
            assert_eq!(p.data().fd(), None);
        }
        _ => panic!("a classifier is to come out"),
    }
}

#[test]
fn classified_program_is_not_loaded_and_keeps_its_description() {
    let program = Program::classify("a", described(ProgramSection::Lsm));
    assert_eq!(program.fd(), None);
    assert_eq!(program.data().section(), ProgramSection::Lsm);
    assert_eq!(program.data().instructions(), &[1, 2, 3]);
    assert!(matches!(program.data().fd_or_err(), Err(ProgramError::NotLoaded)));
    let data = ProgramData::new(described(ProgramSection::Xdp));
    assert_eq!(data.fd(), None);
    assert_eq!(data.section(), ProgramSection::Xdp);
}

#[test]
fn program_of_another_kind_is_no_sk_skb() {
    let mut program = Program::classify("a", described(ProgramSection::Xdp));
    assert!(matches!(program.as_sk_skb(), Err(ProgramError::UnexpectedProgramType)));
    assert!(matches!(program.as_sk_skb_mut(), Err(ProgramError::UnexpectedProgramType)));
    let mut program = sk_skb(ProgramSection::SkSkbStreamParser);
    assert!(program.as_sk_skb().is_ok());
    assert!(program.as_sk_skb_mut().is_ok());
}

#[test]
fn load_hands_out_the_instructions_and_the_type() {
    let program = sk_skb(ProgramSection::SkSkbStreamParser);
    let program = program.as_sk_skb().unwrap();
    let request = program.load().unwrap();
    assert_eq!(request.prog_type, BPF_PROG_TYPE_SK_SKB);
    assert_eq!(request.prog_type, 14);
    assert_eq!(request.instructions, &[1, 2, 3]);
}

#[test]
fn loaded_program_has_the_handle() {
    let mut program = sk_skb(ProgramSection::SkSkbStreamParser);
    let inner = program.as_sk_skb_mut().unwrap();
    assert!(inner.loaded(Ok(7)).is_ok());
    assert_eq!(inner.data().fd(), Some(7));
    assert_eq!(program.fd(), Some(7));
}

#[test]
fn load_twice_is_refused() {
    let mut program = sk_skb(ProgramSection::SkSkbStreamParser);
    let program = program.as_sk_skb_mut().unwrap();
    assert!(program.loaded(Ok(7)).is_ok());
    assert!(matches!(program.load(), Err(ProgramError::AlreadyLoaded)));
    assert!(matches!(program.loaded(Ok(8)), Err(ProgramError::AlreadyLoaded)));
    assert_eq!(program.data().fd(), Some(7));
}

#[test]
fn failed_load_leaves_the_program_unloaded() {
    let mut program = sk_skb(ProgramSection::SkSkbStreamParser);
    let program = program.as_sk_skb_mut().unwrap();
    match program.loaded(Err(failure())) {
        Err(ProgramError::SyscallError { call, io_error }) => {
            assert_eq!(call, "bpf_load_program");
            assert_eq!(io_error.raw_os_error(), Some(13));
        }
        _ => panic!("the load is to fail"),
    }
    assert_eq!(program.data().fd(), None);
    assert!(program.load().is_ok());
}

#[test]
fn attach_before_load_is_not_loaded() {
    let map = sock_map();
    for section in [ProgramSection::SkSkbStreamParser, ProgramSection::SkSkbStreamVerdict] {
        let program = sk_skb(section);
        let program = program.as_sk_skb().unwrap();
        assert!(matches!(program.attach(&map), Err(ProgramError::NotLoaded)));
    }
}

#[test]
fn attach_to_a_map_without_handle_fails() {
    let def = *sock_map().definition();
    let map = MapData::new(MapObject { def, data: Vec::new() });
    let mut program = sk_skb(ProgramSection::SkSkbStreamParser);
    let program = program.as_sk_skb_mut().unwrap();
    assert!(program.loaded(Ok(7)).is_ok());
    assert!(matches!(
        program.attach(&map),
        Err(ProgramError::MapError(MapError::NotCreated))
    ));
}

#[test]
fn program_without_handle_is_reported_before_the_map() {
    let def = *sock_map().definition();
    let map = MapData::new(MapObject { def, data: Vec::new() });
    let program = sk_skb(ProgramSection::SkSkbStreamParser);
    assert!(matches!(
        program.as_sk_skb().unwrap().attach(&map),
        Err(ProgramError::NotLoaded)
    ));
}

#[test]
fn stream_verdict_attaches_as_verdict() {
    let map = sock_map();
    let mut program = sk_skb(ProgramSection::SkSkbStreamVerdict);
    let program = program.as_sk_skb_mut().unwrap();
    assert!(program.loaded(Ok(7)).is_ok());
    let request = program.attach(&map).unwrap();
    assert_eq!(request.attach_type(), AttachType::SkSkbStreamVerdict);
    assert_ne!(request.attach_type(), AttachType::SkSkbStreamParser);
    assert_eq!(request.attach_type().raw(), 5);
    assert_eq!(request.prog_fd(), 7);
    assert_eq!(request.target_fd(), 40);
}

#[test]
fn stream_parser_attaches_as_parser() {
    let map = sock_map();
    let mut program = sk_skb(ProgramSection::SkSkbStreamParser);
    let program = program.as_sk_skb_mut().unwrap();
    assert!(program.loaded(Ok(9)).is_ok());
    let request = program.attach(&map).unwrap();
    assert_eq!(request.attach_type(), AttachType::SkSkbStreamParser);
    assert_eq!(request.attach_type().raw(), 4);
    assert_eq!(request.prog_fd(), 9);
    assert_eq!(request.target_fd(), 40);
}

#[test]
fn link_holds_the_attachment_until_it_is_released() {
    let map = sock_map();
    let mut program = sk_skb(ProgramSection::SkSkbStreamVerdict);
    let program = program.as_sk_skb_mut().unwrap();
    assert!(program.loaded(Ok(7)).is_ok());
    let mut link = program.attach(&map).unwrap().attached(Ok(())).unwrap();
    assert!(link.is_attached());
    let undo = link.detach().unwrap();
    assert_eq!(undo.prog_fd(), 7);
    assert_eq!(undo.target_fd(), 40);
    assert_eq!(undo.attach_type(), AttachType::SkSkbStreamVerdict);
    assert!(!link.is_attached());
    assert!(matches!(link.detach(), Err(ProgramError::AlreadyDetached)));
    assert!(matches!(link.detach(), Err(ProgramError::AlreadyDetached)));
}

#[test]
fn program_goes_through_its_states() {
    let map = sock_map();
    let mut program = sk_skb(ProgramSection::SkSkbStreamVerdict);
    let program = program.as_sk_skb_mut().unwrap();
    assert_eq!(program.state(None), ProgramState::Unloaded);
    assert!(program.loaded(Err(failure())).is_err());
    assert_eq!(program.state(None), ProgramState::Unloaded);
    assert!(program.loaded(Ok(7)).is_ok());
    assert_eq!(program.state(None), ProgramState::Loaded);
    assert!(program.attach(&map).unwrap().attached(Err(failure())).is_err());
    assert_eq!(program.state(None), ProgramState::Loaded);
    let mut link = program.attach(&map).unwrap().attached(Ok(())).unwrap();
    assert_eq!(program.state(Some(&link)), ProgramState::Attached);
    assert!(link.detach().is_ok());
    assert_eq!(program.state(Some(&link)), ProgramState::Loaded);

    let mut other = sk_skb(ProgramSection::SkSkbStreamParser);
    let other = other.as_sk_skb_mut().unwrap();
    assert!(other.loaded(Ok(8)).is_ok());
    let link = program.attach(&map).unwrap().attached(Ok(())).unwrap();
    assert_eq!(other.state(Some(&link)), ProgramState::Loaded);
    assert_eq!(program.state(Some(&link)), ProgramState::Attached);
}

#[test]
fn failed_attach_reports_the_call_and_can_be_tried_again() {
    let map = sock_map();
    let mut program = sk_skb(ProgramSection::SkSkbStreamParser);
    let program = program.as_sk_skb_mut().unwrap();
    assert!(program.loaded(Ok(7)).is_ok());
    match program.attach(&map).unwrap().attached(Err(failure())) {
        Err(ProgramError::SyscallError { call, io_error }) => {
            assert_eq!(call, "bpf_prog_attach");
            assert_eq!(io_error.raw_os_error(), Some(13));
        }
        _ => panic!("the attachment is to fail"),
    }
    assert_eq!(program.data().fd(), Some(7));
    assert!(program.attach(&map).unwrap().attached(Ok(())).is_ok());
}

#[test]
fn numbers_of_the_kernel_interface() {
    assert_eq!(BPF_MAP_TYPE_PERF_EVENT_ARRAY, 4);
    assert_eq!(BPF_PROG_TYPE_SK_SKB, 14);
    assert_eq!(AttachType::SkSkbStreamParser.raw(), 4);
    assert_eq!(AttachType::SkSkbStreamVerdict.raw(), 5);
}

fn bytes_of<T: Pod>(_value: T) -> usize {
    std::mem::size_of::<T>()
}

#[test]
fn integers_are_plain_data() {
    assert_eq!(bytes_of(0i8), 1);
    assert_eq!(bytes_of(0u8), 1);
    assert_eq!(bytes_of(0i16), 2);
    assert_eq!(bytes_of(0u16), 2);
    assert_eq!(bytes_of(0i32), 4);
    assert_eq!(bytes_of(0u32), 4);
    assert_eq!(bytes_of(0i64), 8);
    assert_eq!(bytes_of(0u64), 8);
}
