//! Programs: bytecode that runs in the kernel at a trigger point.

pub mod sk_skb;

use crate::maps::{MapError, MapErrorView};
use crate::obj::{ProgramObject, ProgramObjectView, ProgramSection};
use crate::programs::sk_skb::{SkSkb, SkSkbKind};
use crate::sys::{Handle, SysError};
use vstd::prelude::*;

verus! {

/// What can go wrong with a program.
#[derive(Debug)]
pub enum ProgramError {
    /// No program of that name is in the registry.
    NotFound,
    /// The program is loaded already.
    AlreadyLoaded,
    /// The program is not loaded.
    NotLoaded,
    /// The link was released already.
    AlreadyDetached,
    /// The program is of another kind than the one asked for.
    UnexpectedProgramType,
    /// The map that the program was to be attached to is in no state for it.
    MapError(MapError),
    /// A system call on the program failed.
    SyscallError { call: String, io_error: std::io::Error },
}

/// The model of a `ProgramError`.
pub enum ProgramErrorView {
    NotFound,
    AlreadyLoaded,
    NotLoaded,
    AlreadyDetached,
    UnexpectedProgramType,
    MapError(MapErrorView),
    SyscallError { call: Seq<char>, io_error: std::io::Error },
}

impl View for ProgramError {
    type V = ProgramErrorView;

    open spec fn view(&self) -> ProgramErrorView {
        match self {
            ProgramError::NotFound => ProgramErrorView::NotFound,
            ProgramError::AlreadyLoaded => ProgramErrorView::AlreadyLoaded,
            ProgramError::NotLoaded => ProgramErrorView::NotLoaded,
            ProgramError::AlreadyDetached => ProgramErrorView::AlreadyDetached,
            ProgramError::UnexpectedProgramType => ProgramErrorView::UnexpectedProgramType,
            ProgramError::MapError(e) => ProgramErrorView::MapError(e@),
            ProgramError::SyscallError { call, io_error } => ProgramErrorView::SyscallError {
                call: call@,
                io_error: *io_error,
            },
        }
    }
}


/// A failure of the map that a program is attached to is a failure of the
/// program.
impl From<MapError> for ProgramError {
    fn from(error: MapError) -> (result: ProgramError) {
        ProgramError::MapError(error)
    }
}

impl vstd::std_specs::convert::FromSpecImpl<MapError> for ProgramError {
    open spec fn obeys_from_spec() -> bool {
        true
    }

    open spec fn from_spec(error: MapError) -> ProgramError {
        ProgramError::MapError(error)
    }
}

/// What every kind of program has: its description from the object file,
/// and its handle once the kernel has loaded it.
#[derive(Debug)]
pub struct ProgramData {
    obj: ProgramObject,
    fd: Option<Handle>,
    expected_attach_type: Option<u32>,
    attach_btf_obj_fd: Option<u32>,
    attach_btf_id: Option<u32>,
}

/// The model of a `ProgramData`.
pub struct ProgramDataView {
    pub obj: ProgramObjectView,
    pub fd: Option<Handle>,
    pub expected_attach_type: Option<u32>,
    pub attach_btf_obj_fd: Option<u32>,
    pub attach_btf_id: Option<u32>,
}

/// The data of a program that the kernel has not loaded.
pub open spec fn unloaded(obj: ProgramObjectView) -> ProgramDataView {
    ProgramDataView {
        obj,
        fd: None,
        expected_attach_type: None,
        attach_btf_obj_fd: None,
        attach_btf_id: None,
    }
}

impl View for ProgramData {
    type V = ProgramDataView;

    closed spec fn view(&self) -> ProgramDataView {
        ProgramDataView {
            obj: self.obj@,
            fd: self.fd,
            expected_attach_type: self.expected_attach_type,
            attach_btf_obj_fd: self.attach_btf_obj_fd,
            attach_btf_id: self.attach_btf_id,
        }
    }
}

/// What is handed to the kernel to load a program.
#[derive(Debug)]
pub struct ProgramLoad<'a> {
    pub prog_type: u32,
    pub instructions: &'a [u64],
}

/// What the load of a program, asked for in the state `data`, comes to once
/// the kernel has answered: the error, or the data with the handle.
pub open spec fn load_result(data: ProgramDataView, outcome: Result<Handle, SysError>) -> Result<
    ProgramDataView,
    ProgramErrorView,
> {
    match data.fd {
        Some(_) => Err(ProgramErrorView::AlreadyLoaded),
        None => match outcome {
            Ok(fd) => Ok(ProgramDataView { fd: Some(fd), ..data }),
            Err(e) => Err(
                ProgramErrorView::SyscallError { call: "bpf_load_program"@, io_error: e.io_error },
            ),
        },
    }
}

impl ProgramData {
    /// The data of a program that the kernel has not loaded.
    pub fn new(obj: ProgramObject) -> (data: ProgramData)
        ensures
            data@ == unloaded(obj@),
    {
        ProgramData {
            obj,
            fd: None,
            expected_attach_type: None,
            attach_btf_obj_fd: None,
            attach_btf_id: None,
        }
    }

    /// The handle of the program, if the kernel has loaded it.
    pub fn fd(&self) -> (fd: Option<Handle>)
        ensures
            fd == self@.fd,
    {
        self.fd
    }

    /// The handle of the program, or `NotLoaded` where it has none.
    pub fn fd_or_err(&self) -> (result: Result<Handle, ProgramError>)
        ensures
            match self@.fd {
                Some(fd) => result == Ok::<Handle, ProgramError>(fd),
                None => result matches Err(e) && e@ == ProgramErrorView::NotLoaded,
            },
    {
        match self.fd {
            Some(fd) => Ok(fd),
            None => Err(ProgramError::NotLoaded),
        }
    }

    /// The kind of section the program comes from.
    pub fn section(&self) -> (section: ProgramSection)
        ensures
            section == self@.obj.section,
    {
        self.obj.section
    }

    /// The instructions of the program.
    pub fn instructions(&self) -> (instructions: &[u64])
        ensures
            instructions@ == self@.obj.instructions,
    {
        self.obj.instructions.as_slice()
    }

    /// What to hand to the kernel to load the program as one of the type
    /// `prog_type`; `AlreadyLoaded` where the program has a handle.
    pub fn load(&self, prog_type: u32) -> (result: Result<ProgramLoad<'_>, ProgramError>)
        ensures
            match self@.fd {
                Some(_) => result matches Err(e) && e@ == ProgramErrorView::AlreadyLoaded,
                None => result matches Ok(request) && request.prog_type == prog_type
                    && request.instructions@ == self@.obj.instructions,
            },
    {
        match self.fd {
            Some(_) => Err(ProgramError::AlreadyLoaded),
            None => Ok(ProgramLoad { prog_type, instructions: self.obj.instructions.as_slice() }),
        }
    }

    /// Takes the kernel's answer to a load. On success the program has the
    /// handle from then on; on failure it stays as it was.
    pub fn loaded(&mut self, outcome: Result<Handle, SysError>) -> (result: Result<
        (),
        ProgramError,
    >)
        ensures
            match load_result(old(self)@, outcome) {
                Ok(data) => result is Ok && final(self)@ == data,
                Err(e) => result matches Err(x) && x@ == e && final(self)@ == old(self)@,
            },
    {
        if self.fd.is_some() {
            return Err(ProgramError::AlreadyLoaded);
        }
        match outcome {
            Ok(fd) => {
                self.fd = Some(fd);
                Ok(())
            },
            Err(e) => Err(
                ProgramError::SyscallError { call: "bpf_load_program".to_owned(), io_error: e.io_error },
            ),
        }
    }
}

/// Whether a probe runs on entry or on return, of a kernel or a user
/// function.
#[derive(Copy, Clone, Debug, PartialEq, Eq, Structural)]
pub enum ProbeKind {
    KProbe,
    KRetProbe,
    UProbe,
    URetProbe,
}

/// Whether a program sees the packets that come in or those that go out.
#[derive(Copy, Clone, Debug, PartialEq, Eq, Structural)]
pub enum CgroupSkbAttachType {
    Ingress,
    Egress,
}

/// A probe on a kernel function.
#[derive(Debug)]
pub struct KProbe {
    pub(crate) data: ProgramData,
    pub(crate) kind: ProbeKind,
}

impl KProbe {
    /// The model of what every kind of program has.
    pub closed spec fn spec_data(&self) -> ProgramDataView {
        self.data@
    }

    /// What every kind of program has.
    pub fn data(&self) -> (data: &ProgramData)
        ensures
            data@ == self.spec_data(),
    {
        &self.data
    }

    /// Whether the probe runs on entry or on return.
    pub closed spec fn spec_kind(&self) -> ProbeKind {
        self.kind
    }

    /// Whether the probe runs on entry or on return.
    pub fn kind(&self) -> (kind: ProbeKind)
        ensures
            kind == self.spec_kind(),
    {
        self.kind
    }
}

/// A probe on a user function.
#[derive(Debug)]
pub struct UProbe {
    pub(crate) data: ProgramData,
    pub(crate) kind: ProbeKind,
}

impl UProbe {
    /// The model of what every kind of program has.
    pub closed spec fn spec_data(&self) -> ProgramDataView {
        self.data@
    }

    /// What every kind of program has.
    pub fn data(&self) -> (data: &ProgramData)
        ensures
            data@ == self.spec_data(),
    {
        &self.data
    }

    /// Whether the probe runs on entry or on return.
    pub closed spec fn spec_kind(&self) -> ProbeKind {
        self.kind
    }

    /// Whether the probe runs on entry or on return.
    pub fn kind(&self) -> (kind: ProbeKind)
        ensures
            kind == self.spec_kind(),
    {
        self.kind
    }
}

/// A program on a kernel tracepoint.
#[derive(Debug)]
pub struct TracePoint {
    pub(crate) data: ProgramData,
}

impl TracePoint {
    /// The model of what every kind of program has.
    pub closed spec fn spec_data(&self) -> ProgramDataView {
        self.data@
    }

    /// What every kind of program has.
    pub fn data(&self) -> (data: &ProgramData)
        ensures
            data@ == self.spec_data(),
    {
        &self.data
    }
}

/// A program that filters the packets of a socket.
#[derive(Debug)]
pub struct SocketFilter {
    pub(crate) data: ProgramData,
}

impl SocketFilter {
    /// The model of what every kind of program has.
    pub closed spec fn spec_data(&self) -> ProgramDataView {
        self.data@
    }

    /// What every kind of program has.
    pub fn data(&self) -> (data: &ProgramData)
        ensures
            data@ == self.spec_data(),
    {
        &self.data
    }
}

/// A program on the receive path of a network device.
#[derive(Debug)]
pub struct Xdp {
    pub(crate) data: ProgramData,
}

impl Xdp {
    /// The model of what every kind of program has.
    pub closed spec fn spec_data(&self) -> ProgramDataView {
        self.data@
    }

    /// What every kind of program has.
    pub fn data(&self) -> (data: &ProgramData)
        ensures
            data@ == self.spec_data(),
    {
        &self.data
    }
}

/// A program on the messages sent through a socket.
#[derive(Debug)]
pub struct SkMsg {
    pub(crate) data: ProgramData,
}

impl SkMsg {
    /// The model of what every kind of program has.
    pub closed spec fn spec_data(&self) -> ProgramDataView {
        self.data@
    }

    /// What every kind of program has.
    pub fn data(&self) -> (data: &ProgramData)
        ensures
            data@ == self.spec_data(),
    {
        &self.data
    }
}

/// A program on the socket operations of a control group.
#[derive(Debug)]
pub struct SockOps {
    pub(crate) data: ProgramData,
}

impl SockOps {
    /// The model of what every kind of program has.
    pub closed spec fn spec_data(&self) -> ProgramDataView {
        self.data@
    }

    /// What every kind of program has.
    pub fn data(&self) -> (data: &ProgramData)
        ensures
            data@ == self.spec_data(),
    {
        &self.data
    }
}

/// A traffic classifier. The kernel shows it under its name.
#[derive(Debug)]
pub struct SchedClassifier {
    pub(crate) data: ProgramData,
    pub(crate) name: String,
}

impl SchedClassifier {
    /// The model of what every kind of program has.
    pub closed spec fn spec_data(&self) -> ProgramDataView {
        self.data@
    }

    /// What every kind of program has.
    pub fn data(&self) -> (data: &ProgramData)
        ensures
            data@ == self.spec_data(),
    {
        &self.data
    }

    /// The name that the kernel shows the classifier under.
    pub closed spec fn spec_name(&self) -> Seq<char> {
        self.name@
    }

    /// The name that the kernel shows the classifier under.
    pub fn name(&self) -> (name: &str)
        ensures
            name@ == self.spec_name(),
    {
        self.name.as_str()
    }
}

/// A program on the packets of a control group.
#[derive(Debug)]
pub struct CgroupSkb {
    pub(crate) data: ProgramData,
    pub(crate) expected_attach_type: Option<CgroupSkbAttachType>,
}

impl CgroupSkb {
    /// The model of what every kind of program has.
    pub closed spec fn spec_data(&self) -> ProgramDataView {
        self.data@
    }

    /// What every kind of program has.
    pub fn data(&self) -> (data: &ProgramData)
        ensures
            data@ == self.spec_data(),
    {
        &self.data
    }

    /// Whether the program sees the packets that come in or those that go out.
    pub closed spec fn spec_expected_attach_type(&self) -> Option<CgroupSkbAttachType> {
        self.expected_attach_type
    }

    /// Whether the program sees the packets that come in or those that go out.
    pub fn expected_attach_type(&self) -> (expected_attach_type: Option<CgroupSkbAttachType>)
        ensures
            expected_attach_type == self.spec_expected_attach_type(),
    {
        self.expected_attach_type
    }
}

/// A decoder of infrared signals.
#[derive(Debug)]
pub struct LircMode2 {
    pub(crate) data: ProgramData,
}

impl LircMode2 {
    /// The model of what every kind of program has.
    pub closed spec fn spec_data(&self) -> ProgramDataView {
        self.data@
    }

    /// What every kind of program has.
    pub fn data(&self) -> (data: &ProgramData)
        ensures
            data@ == self.spec_data(),
    {
        &self.data
    }
}

/// A program on a performance event.
#[derive(Debug)]
pub struct PerfEvent {
    pub(crate) data: ProgramData,
}

impl PerfEvent {
    /// The model of what every kind of program has.
    pub closed spec fn spec_data(&self) -> ProgramDataView {
        self.data@
    }

    /// What every kind of program has.
    pub fn data(&self) -> (data: &ProgramData)
        ensures
            data@ == self.spec_data(),
    {
        &self.data
    }
}

/// A program on a raw kernel tracepoint.
#[derive(Debug)]
pub struct RawTracePoint {
    pub(crate) data: ProgramData,
}

impl RawTracePoint {
    /// The model of what every kind of program has.
    pub closed spec fn spec_data(&self) -> ProgramDataView {
        self.data@
    }

    /// What every kind of program has.
    pub fn data(&self) -> (data: &ProgramData)
        ensures
            data@ == self.spec_data(),
    {
        &self.data
    }
}

/// A program on a security hook.
#[derive(Debug)]
pub struct Lsm {
    pub(crate) data: ProgramData,
}

impl Lsm {
    /// The model of what every kind of program has.
    pub closed spec fn spec_data(&self) -> ProgramDataView {
        self.data@
    }

    /// What every kind of program has.
    pub fn data(&self) -> (data: &ProgramData)
        ensures
            data@ == self.spec_data(),
    {
        &self.data
    }
}

/// A program on a tracepoint, with the debug types of its arguments.
#[derive(Debug)]
pub struct BtfTracePoint {
    pub(crate) data: ProgramData,
}

impl BtfTracePoint {
    /// The model of what every kind of program has.
    pub closed spec fn spec_data(&self) -> ProgramDataView {
        self.data@
    }

    /// What every kind of program has.
    pub fn data(&self) -> (data: &ProgramData)
        ensures
            data@ == self.spec_data(),
    {
        &self.data
    }
}

/// A program of one of the kinds that the library knows.
#[derive(Debug)]
pub enum Program {
    KProbe(KProbe),
    UProbe(UProbe),
    TracePoint(TracePoint),
    SocketFilter(SocketFilter),
    Xdp(Xdp),
    SkMsg(SkMsg),
    SkSkb(SkSkb),
    SockOps(SockOps),
    SchedClassifier(SchedClassifier),
    CgroupSkb(CgroupSkb),
    LircMode2(LircMode2),
    PerfEvent(PerfEvent),
    RawTracePoint(RawTracePoint),
    Lsm(Lsm),
    BtfTracePoint(BtfTracePoint),
}

/// The kind of a program, with what only that kind has.
pub enum ProgramKind {
    KProbe(ProbeKind),
    UProbe(ProbeKind),
    TracePoint,
    SocketFilter,
    Xdp,
    SkMsg,
    SkSkb(SkSkbKind),
    SockOps,
    SchedClassifier(Seq<char>),
    CgroupSkb(Option<CgroupSkbAttachType>),
    LircMode2,
    PerfEvent,
    RawTracePoint,
    Lsm,
    BtfTracePoint,
}

/// The model of a `Program`: its kind and its data.
pub struct ProgramView {
    pub kind: ProgramKind,
    pub data: ProgramDataView,
}

impl View for Program {
    type V = ProgramView;

    open spec fn view(&self) -> ProgramView {
        match self {
            Program::KProbe(p) => ProgramView {
                kind: ProgramKind::KProbe(p.spec_kind()),
                data: p.spec_data(),
            },
            Program::UProbe(p) => ProgramView {
                kind: ProgramKind::UProbe(p.spec_kind()),
                data: p.spec_data(),
            },
            Program::TracePoint(p) => ProgramView {
                kind: ProgramKind::TracePoint,
                data: p.spec_data(),
            },
            Program::SocketFilter(p) => ProgramView {
                kind: ProgramKind::SocketFilter,
                data: p.spec_data(),
            },
            Program::Xdp(p) => ProgramView { kind: ProgramKind::Xdp, data: p.spec_data() },
            Program::SkMsg(p) => ProgramView { kind: ProgramKind::SkMsg, data: p.spec_data() },
            Program::SkSkb(p) => p@,
            Program::SockOps(p) => ProgramView { kind: ProgramKind::SockOps, data: p.spec_data() },
            Program::SchedClassifier(p) => ProgramView {
                kind: ProgramKind::SchedClassifier(p.spec_name()),
                data: p.spec_data(),
            },
            Program::CgroupSkb(p) => ProgramView {
                kind: ProgramKind::CgroupSkb(p.spec_expected_attach_type()),
                data: p.spec_data(),
            },
            Program::LircMode2(p) => ProgramView {
                kind: ProgramKind::LircMode2,
                data: p.spec_data(),
            },
            Program::PerfEvent(p) => ProgramView {
                kind: ProgramKind::PerfEvent,
                data: p.spec_data(),
            },
            Program::RawTracePoint(p) => ProgramView {
                kind: ProgramKind::RawTracePoint,
                data: p.spec_data(),
            },
            Program::Lsm(p) => ProgramView { kind: ProgramKind::Lsm, data: p.spec_data() },
            Program::BtfTracePoint(p) => ProgramView {
                kind: ProgramKind::BtfTracePoint,
                data: p.spec_data(),
            },
        }
    }
}

/// The kind of program that a section kind stands for. A traffic classifier
/// takes the name of the program along.
pub open spec fn program_kind(section: ProgramSection, name: Seq<char>) -> ProgramKind {
    match section {
        ProgramSection::KProbe => ProgramKind::KProbe(ProbeKind::KProbe),
        ProgramSection::KRetProbe => ProgramKind::KProbe(ProbeKind::KRetProbe),
        ProgramSection::UProbe => ProgramKind::UProbe(ProbeKind::UProbe),
        ProgramSection::URetProbe => ProgramKind::UProbe(ProbeKind::URetProbe),
        ProgramSection::TracePoint => ProgramKind::TracePoint,
        ProgramSection::SocketFilter => ProgramKind::SocketFilter,
        ProgramSection::Xdp => ProgramKind::Xdp,
        ProgramSection::SkMsg => ProgramKind::SkMsg,
        ProgramSection::SkSkbStreamParser => ProgramKind::SkSkb(SkSkbKind::StreamParser),
        ProgramSection::SkSkbStreamVerdict => ProgramKind::SkSkb(SkSkbKind::StreamVerdict),
        ProgramSection::SockOps => ProgramKind::SockOps,
        ProgramSection::SchedClassifier => ProgramKind::SchedClassifier(name),
        ProgramSection::CgroupSkbIngress => ProgramKind::CgroupSkb(
            Some(CgroupSkbAttachType::Ingress),
        ),
        ProgramSection::CgroupSkbEgress => ProgramKind::CgroupSkb(Some(CgroupSkbAttachType::Egress)),
        ProgramSection::LircMode2 => ProgramKind::LircMode2,
        ProgramSection::PerfEvent => ProgramKind::PerfEvent,
        ProgramSection::RawTracePoint => ProgramKind::RawTracePoint,
        ProgramSection::Lsm => ProgramKind::Lsm,
        ProgramSection::BtfTracePoint => ProgramKind::BtfTracePoint,
    }
}

/// The program that a description of the object file becomes: of the kind
/// of its section, and not loaded.
pub open spec fn classified(name: Seq<char>, obj: ProgramObjectView) -> ProgramView {
    ProgramView { kind: program_kind(obj.section, name), data: unloaded(obj) }
}

impl Program {
    /// Makes the program that a description of the object file stands for.
    pub fn classify(name: &str, obj: ProgramObject) -> (program: Program)
        ensures
            program@ == classified(name@, obj@),
    {
        let section = obj.section;
        let data = ProgramData::new(obj);
        match section {
            ProgramSection::KProbe => Program::KProbe(KProbe { data, kind: ProbeKind::KProbe }),
            ProgramSection::KRetProbe => Program::KProbe(
                KProbe { data, kind: ProbeKind::KRetProbe },
            ),
            ProgramSection::UProbe => Program::UProbe(UProbe { data, kind: ProbeKind::UProbe }),
            ProgramSection::URetProbe => Program::UProbe(
                UProbe { data, kind: ProbeKind::URetProbe },
            ),
            ProgramSection::TracePoint => Program::TracePoint(TracePoint { data }),
            ProgramSection::SocketFilter => Program::SocketFilter(SocketFilter { data }),
            ProgramSection::Xdp => Program::Xdp(Xdp { data }),
            ProgramSection::SkMsg => Program::SkMsg(SkMsg { data }),
            ProgramSection::SkSkbStreamParser => Program::SkSkb(
                SkSkb::new(data, SkSkbKind::StreamParser),
            ),
            ProgramSection::SkSkbStreamVerdict => Program::SkSkb(
                SkSkb::new(data, SkSkbKind::StreamVerdict),
            ),
            ProgramSection::SockOps => Program::SockOps(SockOps { data }),
            ProgramSection::SchedClassifier => Program::SchedClassifier(
                SchedClassifier { data, name: name.to_owned() },
            ),
            ProgramSection::CgroupSkbIngress => Program::CgroupSkb(
                CgroupSkb { data, expected_attach_type: Some(CgroupSkbAttachType::Ingress) },
            ),
            ProgramSection::CgroupSkbEgress => Program::CgroupSkb(
                CgroupSkb { data, expected_attach_type: Some(CgroupSkbAttachType::Egress) },
            ),
            ProgramSection::LircMode2 => Program::LircMode2(LircMode2 { data }),
            ProgramSection::PerfEvent => Program::PerfEvent(PerfEvent { data }),
            ProgramSection::RawTracePoint => Program::RawTracePoint(RawTracePoint { data }),
            ProgramSection::Lsm => Program::Lsm(Lsm { data }),
            ProgramSection::BtfTracePoint => Program::BtfTracePoint(BtfTracePoint { data }),
        }
    }

    /// What every kind of program has.
    pub fn data(&self) -> (data: &ProgramData)
        ensures
            data@ == self@.data,
    {
        match self {
            Program::KProbe(p) => p.data(),
            Program::UProbe(p) => p.data(),
            Program::TracePoint(p) => p.data(),
            Program::SocketFilter(p) => p.data(),
            Program::Xdp(p) => p.data(),
            Program::SkMsg(p) => p.data(),
            Program::SkSkb(p) => p.data(),
            Program::SockOps(p) => p.data(),
            Program::SchedClassifier(p) => p.data(),
            Program::CgroupSkb(p) => p.data(),
            Program::LircMode2(p) => p.data(),
            Program::PerfEvent(p) => p.data(),
            Program::RawTracePoint(p) => p.data(),
            Program::Lsm(p) => p.data(),
            Program::BtfTracePoint(p) => p.data(),
        }
    }

    /// The handle of the program, if the kernel has loaded it.
    pub fn fd(&self) -> (fd: Option<Handle>)
        ensures
            fd == self@.data.fd,
    {
        self.data().fd()
    }

    /// The program as one that intercepts socket buffers;
    /// `UnexpectedProgramType` where it is of another kind.
    pub fn as_sk_skb(&self) -> (result: Result<&SkSkb, ProgramError>)
        ensures
            match self@.kind {
                ProgramKind::SkSkb(_) => result matches Ok(p) && p@ == self@,
                _ => result matches Err(e) && e@ == ProgramErrorView::UnexpectedProgramType,
            },
    {
        match self {
            Program::SkSkb(p) => {
                proof {
                    p.lemma_kind();
                }
                Ok(p)
            },
            _ => Err(ProgramError::UnexpectedProgramType),
        }
    }

    /// The program as one that intercepts socket buffers, for loading and
    /// attaching; `UnexpectedProgramType` where it is of another kind.
    pub fn as_sk_skb_mut(&mut self) -> (result: Result<&mut SkSkb, ProgramError>)
        ensures
            match old(self)@.kind {
                ProgramKind::SkSkb(_) => result matches Ok(p) && p@ == old(self)@ && final(self)@
                    == final(p)@,
                _ => result matches Err(e) && e@ == ProgramErrorView::UnexpectedProgramType
                    && final(self)@ == old(self)@,
            },
    {
        match self {
            Program::SkSkb(p) => {
                proof {
                    p.lemma_kind();
                }
                Ok(p)
            },
            _ => Err(ProgramError::UnexpectedProgramType),
        }
    }
}

} // verus!
