//! Numbers of the kernel interface.

use vstd::prelude::*;

verus! {

/// The map type of a perf event array, which holds one entry per CPU.
pub const BPF_MAP_TYPE_PERF_EVENT_ARRAY: u32 = 4;

/// The program type of programs that intercept socket buffers.
pub const BPF_PROG_TYPE_SK_SKB: u32 = 14;

/// How a program is attached to its target.
#[derive(Copy, Clone, Debug, PartialEq, Eq, Structural)]
pub enum AttachType {
    /// As the parser of the streams of a socket map.
    SkSkbStreamParser,
    /// As the judge of the messages of a socket map.
    SkSkbStreamVerdict,
}

impl AttachType {
    /// The number that the kernel knows the attach type by.
    pub open spec fn spec_raw(self) -> u32 {
        match self {
            AttachType::SkSkbStreamParser => 4,
            AttachType::SkSkbStreamVerdict => 5,
        }
    }

    /// The number that the kernel knows the attach type by.
    #[verifier::when_used_as_spec(spec_raw)]
    pub fn raw(self) -> (raw: u32)
        ensures
            raw == self.spec_raw(),
    {
        match self {
            AttachType::SkSkbStreamParser => 4,
            AttachType::SkSkbStreamVerdict => 5,
        }
    }
}

} // verus!
