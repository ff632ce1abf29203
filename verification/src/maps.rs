//! Maps: tables that live in the kernel and that programs and user space
//! share.

use crate::bpf::{BpfError, BpfErrorView};
use crate::obj::MapObject;
use crate::sys::Handle;
use vstd::prelude::*;

verus! {

/// Whether a map is kept alive under a path of its name.
#[derive(Copy, Clone, Debug, PartialEq, Eq, Structural)]
pub enum PinningType {
    Unpinned,
    ByName,
}

impl Default for PinningType {
    fn default() -> (pinning: PinningType)
        ensures
            pinning == PinningType::Unpinned,
    {
        PinningType::Unpinned
    }
}

impl PinningType {
    /// The pinning type that a number of the object file stands for: 0 for
    /// none, 1 for pinning by name; `UnexpectedPinningType` for any other.
    pub fn from_raw(raw: u32) -> (result: Result<PinningType, BpfError>)
        ensures
            match result {
                Ok(pinning) => raw == 0 && pinning == PinningType::Unpinned || raw == 1 && pinning
                    == PinningType::ByName,
                Err(e) => raw > 1 && e@ == (BpfErrorView::UnexpectedPinningType { name: raw }),
            },
    {
        if raw == 0 {
            Ok(PinningType::Unpinned)
        } else if raw == 1 {
            Ok(PinningType::ByName)
        } else {
            Err(BpfError::UnexpectedPinningType { name: raw })
        }
    }
}

/// How a map is laid out, as its object file declares it.
#[derive(Copy, Clone, Debug, Default, PartialEq, Eq, Structural)]
pub struct MapDefinition {
    pub map_type: u32,
    pub key_size: u32,
    pub value_size: u32,
    pub max_entries: u32,
    pub map_flags: u32,
    pub id: u32,
    pub pinning: PinningType,
}

/// What can go wrong with a map.
#[derive(Debug)]
pub enum MapError {
    /// No map of that name is in the registry.
    NotFound,
    /// A map of that name is in the registry already.
    Occupied,
    /// The map has no handle in the kernel.
    NotCreated,
    /// A system call on the map failed.
    SyscallError { call: String, code: i64, io_error: std::io::Error },
}

/// The model of a `MapError`.
pub enum MapErrorView {
    NotFound,
    Occupied,
    NotCreated,
    SyscallError { call: Seq<char>, code: i64, io_error: std::io::Error },
}

impl View for MapError {
    type V = MapErrorView;

    open spec fn view(&self) -> MapErrorView {
        match self {
            MapError::NotFound => MapErrorView::NotFound,
            MapError::Occupied => MapErrorView::Occupied,
            MapError::NotCreated => MapErrorView::NotCreated,
            MapError::SyscallError { call, code, io_error } => MapErrorView::SyscallError {
                call: call@,
                code: *code,
                io_error: *io_error,
            },
        }
    }
}

/// A map of a loaded object. It has a handle once it was created in the
/// kernel or opened from its pin, and not before.
#[derive(Debug)]
pub struct MapData {
    obj: MapObject,
    fd: Option<Handle>,
    pinned: bool,
}

/// The model of a `MapData`.
pub struct MapView {
    pub def: MapDefinition,
    pub data: Seq<u8>,
    pub fd: Option<Handle>,
    pub pinned: bool,
}

impl View for MapData {
    type V = MapView;

    closed spec fn view(&self) -> MapView {
        MapView { def: self.obj.def, data: self.obj.data@, fd: self.fd, pinned: self.pinned }
    }
}

impl MapData {
    /// A map that the kernel does not know yet.
    pub fn new(obj: MapObject) -> (map: MapData)
        ensures
            map@ == (MapView { def: obj.def, data: obj.data@, fd: None, pinned: false }),
    {
        MapData { obj, fd: None, pinned: false }
    }

    /// The layout of the map.
    pub fn definition(&self) -> (def: &MapDefinition)
        ensures
            *def == self@.def,
    {
        &self.obj.def
    }

    /// The data that the object file gave the map.
    pub fn data(&self) -> (data: &[u8])
        ensures
            data@ == self@.data,
    {
        self.obj.data.as_slice()
    }

    /// The handle of the map, if it has one.
    pub fn fd(&self) -> (fd: Option<Handle>)
        ensures
            fd == self@.fd,
    {
        self.fd
    }

    /// Whether the map is kept under its pin path.
    pub fn pinned(&self) -> (pinned: bool)
        ensures
            pinned == self@.pinned,
    {
        self.pinned
    }

    /// The handle of the map, or `NotCreated` where it has none.
    pub fn fd_or_err(&self) -> (result: Result<Handle, MapError>)
        ensures
            match self@.fd {
                Some(fd) => result == Ok::<Handle, MapError>(fd),
                None => result matches Err(e) && e@ == MapErrorView::NotCreated,
            },
    {
        match self.fd {
            Some(fd) => Ok(fd),
            None => Err(MapError::NotCreated),
        }
    }

    /// Sets the number of entries.
    pub(crate) fn set_max_entries(&mut self, max_entries: u32)
        ensures
            final(self)@ == (MapView {
                def: MapDefinition { max_entries, ..old(self)@.def },
                ..old(self)@
            }),
    {
        self.obj.def.max_entries = max_entries;
    }

    /// Records the handle under which the kernel created the map.
    pub(crate) fn set_created(&mut self, fd: Handle)
        ensures
            final(self)@ == (MapView { fd: Some(fd), ..old(self)@ }),
    {
        self.fd = Some(fd);
    }

    /// Records that the map is kept under its pin path.
    pub(crate) fn set_pinned(&mut self)
        ensures
            final(self)@ == (MapView { pinned: true, ..old(self)@ }),
    {
        self.pinned = true;
    }
}

} // verus!
