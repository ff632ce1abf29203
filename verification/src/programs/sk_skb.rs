//! Programs that intercept the buffers that arrive at the sockets of a
//! socket map.
//!
//! Such a program is first not loaded, then loaded, then attached. The
//! library makes no system call: `load` and `attach` say what to hand to the
//! kernel, and `loaded` and `attached` take the kernel's answer.

use crate::abi::{AttachType, BPF_PROG_TYPE_SK_SKB};
use crate::maps::{MapData, MapErrorView};
use crate::programs::{
    load_result, ProgramData, ProgramError, ProgramErrorView, ProgramKind, ProgramLoad,
    ProgramView,
};
use crate::sys::{Handle, SysError};
use vstd::prelude::*;

verus! {

/// The kind of a [`SkSkb`] program.
#[derive(Copy, Clone, Debug, PartialEq, Eq, Structural)]
pub enum SkSkbKind {
    StreamParser,
    StreamVerdict,
}

/// The attach type that the kernel knows a kind by.
pub open spec fn attach_type_of(kind: SkSkbKind) -> AttachType {
    match kind {
        SkSkbKind::StreamParser => AttachType::SkSkbStreamParser,
        SkSkbKind::StreamVerdict => AttachType::SkSkbStreamVerdict,
    }
}

/// A program used to intercept ingress socket buffers.
#[derive(Debug)]
pub struct SkSkb {
    pub(crate) data: ProgramData,
    pub(crate) kind: SkSkbKind,
}

impl View for SkSkb {
    type V = ProgramView;

    closed spec fn view(&self) -> ProgramView {
        ProgramView { kind: ProgramKind::SkSkb(self.kind), data: self.data@ }
    }
}

/// An attachment that the kernel is asked to make: the program, the socket
/// map it is attached to, and the attach type.
#[derive(Debug)]
pub struct ProgAttach {
    prog_fd: Handle,
    target_fd: Handle,
    attach_type: AttachType,
}

/// The model of an attachment, asked for or made.
pub struct AttachView {
    pub prog_fd: Handle,
    pub target_fd: Handle,
    pub attach_type: AttachType,
}

impl View for ProgAttach {
    type V = AttachView;

    closed spec fn view(&self) -> AttachView {
        AttachView {
            prog_fd: self.prog_fd,
            target_fd: self.target_fd,
            attach_type: self.attach_type,
        }
    }
}

/// An attachment that was made. It holds what it takes to undo the
/// attachment, until it is released.
#[derive(Debug)]
pub struct ProgAttachLink {
    prog_fd: Option<Handle>,
    target_fd: Option<Handle>,
    attach_type: AttachType,
}

impl View for ProgAttachLink {
    type V = Option<AttachView>;

    /// The attachment that the link still holds.
    closed spec fn view(&self) -> Option<AttachView> {
        match (self.prog_fd, self.target_fd) {
            (Some(prog_fd), Some(target_fd)) => Some(
                AttachView { prog_fd, target_fd, attach_type: self.attach_type },
            ),
            _ => None,
        }
    }
}

impl ProgAttachLink {
    /// The link of an attachment that was made.
    pub(crate) fn new(prog_fd: Handle, target_fd: Handle, attach_type: AttachType) -> (link:
        ProgAttachLink)
        ensures
            link@ == Some(AttachView { prog_fd, target_fd, attach_type }),
    {
        ProgAttachLink { prog_fd: Some(prog_fd), target_fd: Some(target_fd), attach_type }
    }

    /// Releases the link: hands out the attachment that the kernel is to
    /// undo, once. A link that was released already reports `AlreadyDetached`.
    pub fn detach(&mut self) -> (result: Result<ProgAttach, ProgramError>)
        ensures
            final(self)@.is_none(),
            match old(self)@ {
                Some(attachment) => result matches Ok(undo) && undo@ == attachment,
                None => result matches Err(e) && e@ == ProgramErrorView::AlreadyDetached,
            },
    {
        let prog_fd = self.prog_fd.take();
        let target_fd = self.target_fd.take();
        match (prog_fd, target_fd) {
            (Some(prog_fd), Some(target_fd)) => Ok(
                ProgAttach { prog_fd, target_fd, attach_type: self.attach_type },
            ),
            _ => Err(ProgramError::AlreadyDetached),
        }
    }
}

/// A link that its holder owns: releasing it undoes the attachment.
#[derive(Debug)]
pub struct OwnedLink {
    inner: ProgAttachLink,
}

impl View for OwnedLink {
    type V = Option<AttachView>;

    /// The attachment that the link still holds.
    closed spec fn view(&self) -> Option<AttachView> {
        self.inner@
    }
}

impl OwnedLink {
    /// Whether the link still holds its attachment.
    pub fn is_attached(&self) -> (attached: bool)
        ensures
            attached == self@.is_some(),
    {
        self.inner.prog_fd.is_some() && self.inner.target_fd.is_some()
    }

    /// Releases the link: hands out the attachment that the kernel is to
    /// undo, once. A link that was released already reports `AlreadyDetached`.
    pub fn detach(&mut self) -> (result: Result<ProgAttach, ProgramError>)
        ensures
            final(self)@.is_none(),
            match old(self)@ {
                Some(attachment) => result matches Ok(undo) && undo@ == attachment,
                None => result matches Err(e) && e@ == ProgramErrorView::AlreadyDetached,
            },
    {
        self.inner.detach()
    }
}

impl ProgAttach {
    /// The handle of the program.
    pub fn prog_fd(&self) -> (fd: Handle)
        ensures
            fd == self@.prog_fd,
    {
        self.prog_fd
    }

    /// The handle of the socket map.
    pub fn target_fd(&self) -> (fd: Handle)
        ensures
            fd == self@.target_fd,
    {
        self.target_fd
    }

    /// The attach type.
    pub fn attach_type(&self) -> (attach_type: AttachType)
        ensures
            attach_type == self@.attach_type,
    {
        self.attach_type
    }

    /// Takes the kernel's answer to the attachment. On success the link
    /// holds exactly what was asked for; on failure the error names the call
    /// and carries the system's error.
    pub fn attached(self, outcome: Result<(), SysError>) -> (result: Result<
        OwnedLink,
        ProgramError,
    >)
        ensures
            match outcome {
                Ok(_) => result matches Ok(link) && link@ == Some(self@),
                Err(e) => result matches Err(x) && x@ == (ProgramErrorView::SyscallError {
                    call: "bpf_prog_attach"@,
                    io_error: e.io_error,
                }),
            },
    {
        match outcome {
            Ok(_) => Ok(
                OwnedLink { inner: ProgAttachLink::new(self.prog_fd, self.target_fd, self.attach_type) },
            ),
            Err(e) => Err(
                ProgramError::SyscallError { call: "bpf_prog_attach".to_owned(), io_error: e.io_error },
            ),
        }
    }
}

/// What `attach` comes to for a program and a socket map with these
/// handles: `NotLoaded` without a program handle, `NotCreated` without a map
/// handle, else the attachment to ask for, with the attach type of the kind.
pub open spec fn attach_result(
    kind: SkSkbKind,
    prog_fd: Option<Handle>,
    map_fd: Option<Handle>,
) -> Result<
    AttachView,
    ProgramErrorView,
> {
    match prog_fd {
        None => Err(ProgramErrorView::NotLoaded),
        Some(prog_fd) => match map_fd {
            None => Err(ProgramErrorView::MapError(MapErrorView::NotCreated)),
            Some(target_fd) => Ok(
                AttachView { prog_fd, target_fd, attach_type: attach_type_of(kind) },
            ),
        },
    }
}

/// Where a program stands on its way into the kernel.
#[derive(Copy, Clone, Debug, PartialEq, Eq, Structural)]
pub enum ProgramState {
    /// The kernel does not know the program.
    Unloaded,
    /// The kernel has the program, and nothing triggers it.
    Loaded,
    /// The program is attached by the link that is looked at.
    Attached,
}

/// Where a program with this handle stands, given what a link holds: it is
/// unloaded without a handle, attached where the link holds an attachment
/// of its handle, and loaded else.
pub open spec fn state_of(fd: Option<Handle>, link: Option<AttachView>) -> ProgramState {
    match fd {
        None => ProgramState::Unloaded,
        Some(fd) => match link {
            Some(attachment) => if attachment.prog_fd == fd {
                ProgramState::Attached
            } else {
                ProgramState::Loaded
            },
            None => ProgramState::Loaded,
        },
    }
}

/// A program goes from unloaded to loaded by a load that succeeds, from
/// loaded to attached by an attachment that succeeds, and back to loaded
/// when the link is released. A load or an attachment that fails leaves the
/// program where it stood.
pub proof fn law_program_states(
    kind: SkSkbKind,
    data: crate::programs::ProgramDataView,
    map_fd: Handle,
    load: Result<Handle, SysError>,
    attach: Result<(), SysError>,
)
    requires
        data.fd is None,
    ensures
        state_of(data.fd, None) == ProgramState::Unloaded,
        load_result(data, load) matches Ok(loaded) ==> {
            &&& load is Ok
            &&& state_of(loaded.fd, None) == ProgramState::Loaded
            &&& attach_result(kind, loaded.fd, Some(map_fd)) matches Ok(request)
            &&& attach is Ok ==> state_of(loaded.fd, Some(request)) == ProgramState::Attached
        },
        load is Err ==> load_result(data, load) is Err,
{
}

/// A program that is not loaded cannot be attached: whatever its kind and
/// whatever the socket map, `attach` reports `NotLoaded`.
pub proof fn law_attach_needs_load(kind: SkSkbKind, map_fd: Option<Handle>)
    ensures
        attach_result(kind, None, map_fd) == Err::<AttachView, ProgramErrorView>(
            ProgramErrorView::NotLoaded,
        ),
{
}

/// A program is loaded once: after a load that succeeded, every further
/// load is refused with `AlreadyLoaded` and leaves the handle as it is. A
/// load that failed leaves the program to be loaded again.
pub proof fn law_load_once(
    data: crate::programs::ProgramDataView,
    first: Result<Handle, SysError>,
    second: Result<Handle, SysError>,
)
    requires
        data.fd is None,
    ensures
        first matches Ok(fd) ==> load_result(data, first) == Ok::<
            crate::programs::ProgramDataView,
            ProgramErrorView,
        >(crate::programs::ProgramDataView { fd: Some(fd), ..data }) && load_result(
            load_result(data, first)->Ok_0,
            second,
        ) == Err::<crate::programs::ProgramDataView, ProgramErrorView>(
            ProgramErrorView::AlreadyLoaded,
        ),
        first is Err ==> load_result(data, first) is Err && !(load_result(data, second)
            matches Err(e) && e == ProgramErrorView::AlreadyLoaded),
{
}

/// A loaded program and a socket map with a handle can be attached, and the
/// attach type is that of the kind of the program: a stream verdict is
/// attached as a stream verdict and never as a stream parser, and the other
/// way round. The numbers of the two attach types differ.
pub proof fn law_attach_type_follows_kind(kind: SkSkbKind, prog_fd: Handle, map_fd: Handle)
    ensures
        attach_result(kind, Some(prog_fd), Some(map_fd)) == Ok::<AttachView, ProgramErrorView>(
            AttachView { prog_fd, target_fd: map_fd, attach_type: attach_type_of(kind) },
        ),
        kind == SkSkbKind::StreamVerdict <==> attach_type_of(kind) == AttachType::SkSkbStreamVerdict,
        kind == SkSkbKind::StreamParser <==> attach_type_of(kind) == AttachType::SkSkbStreamParser,
        AttachType::SkSkbStreamVerdict.spec_raw() != AttachType::SkSkbStreamParser.spec_raw(),
{
}

impl SkSkb {
    /// The model of a program that intercepts socket buffers is of that
    /// kind.
    pub proof fn lemma_kind(&self)
        ensures
            self@.kind is SkSkb,
    {
    }

    /// A program of that kind.
    pub(crate) fn new(data: ProgramData, kind: SkSkbKind) -> (program: SkSkb)
        ensures
            program@ == (ProgramView { kind: ProgramKind::SkSkb(kind), data: data@ }),
    {
        SkSkb { data, kind }
    }

    /// Where the program stands, given the link of its attachment if there
    /// is one.
    pub fn state(&self, link: Option<&OwnedLink>) -> (state: ProgramState)
        ensures
            state == state_of(
                self@.data.fd,
                match link {
                    Some(link) => link@,
                    None => None,
                },
            ),
    {
        match self.data.fd() {
            None => ProgramState::Unloaded,
            Some(fd) => match link {
                Some(link) => match (link.inner.prog_fd, link.inner.target_fd) {
                    (Some(prog_fd), Some(_)) => if prog_fd == fd {
                        ProgramState::Attached
                    } else {
                        ProgramState::Loaded
                    },
                    _ => ProgramState::Loaded,
                },
                None => ProgramState::Loaded,
            },
        }
    }

    /// The kind of the program.
    pub fn kind(&self) -> (kind: SkSkbKind)
        ensures
            self@.kind == ProgramKind::SkSkb(kind),
    {
        self.kind
    }

    /// What every kind of program has.
    pub fn data(&self) -> (data: &ProgramData)
        ensures
            data@ == self@.data,
    {
        &self.data
    }

    /// What to hand to the kernel to load the program; `AlreadyLoaded` where
    /// the program has a handle.
    pub fn load(&self) -> (result: Result<ProgramLoad<'_>, ProgramError>)
        ensures
            match self@.data.fd {
                Some(_) => result matches Err(e) && e@ == ProgramErrorView::AlreadyLoaded,
                None => result matches Ok(request) && request.prog_type == BPF_PROG_TYPE_SK_SKB
                    && request.instructions@ == self@.data.obj.instructions,
            },
    {
        self.data.load(BPF_PROG_TYPE_SK_SKB)
    }

    /// Takes the kernel's answer to a load. On success the program is loaded
    /// under the handle from then on; on failure it stays as it was.
    pub fn loaded(&mut self, outcome: Result<Handle, SysError>) -> (result: Result<
        (),
        ProgramError,
    >)
        ensures
            match load_result(old(self)@.data, outcome) {
                Ok(data) => result is Ok && final(self)@ == (ProgramView { data, ..old(self)@ }),
                Err(e) => result matches Err(x) && x@ == e && final(self)@ == old(self)@,
            },
    {
        self.data.loaded(outcome)
    }

    /// What to hand to the kernel to attach the program to the given socket
    /// map. The program must be loaded and the map must have a handle.
    pub fn attach(&self, map: &MapData) -> (result: Result<ProgAttach, ProgramError>)
        ensures
            self@.kind matches ProgramKind::SkSkb(kind) && match attach_result(
                kind,
                self@.data.fd,
                map@.fd,
            ) {
                Ok(attachment) => result matches Ok(request) && request@ == attachment,
                Err(e) => result matches Err(x) && x@ == e,
            },
    {
        let prog_fd = match self.data.fd_or_err() {
            Ok(fd) => fd,
            Err(e) => {
                return Err(e);
            },
        };
        let map_fd = match map.fd_or_err() {
            Ok(fd) => fd,
            Err(e) => {
                return Err(ProgramError::MapError(e));
            },
        };
        let attach_type = match self.kind {
            SkSkbKind::StreamParser => AttachType::SkSkbStreamParser,
            SkSkbKind::StreamVerdict => AttachType::SkSkbStreamVerdict,
        };
        Ok(ProgAttach { prog_fd, target_fd: map_fd, attach_type })
    }
}

} // verus!
