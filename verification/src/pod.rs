//! Values that may be copied byte for byte into kernel map memory.

use vstd::prelude::*;

verus! {

/// Marker for types whose values have a fixed size, no padding and a trivial
/// copy, so that their bytes may be handed to the kernel as they are.
///
/// An implementation states the width of the type and proves that the layout
/// of the type has that width.
pub trait Pod: Copy + Sized {
    /// The number of bytes a value of the type occupies.
    spec fn width() -> nat;

    /// The layout of the type is `width()` bytes wide, and not empty.
    proof fn layout_is_fixed()
        ensures
            vstd::layout::size_of::<Self>() == Self::width(),
            Self::width() > 0,
    ;
}

impl Pod for i8 {
    open spec fn width() -> nat {
        1
    }

    proof fn layout_is_fixed() {
        broadcast use vstd::layout::layout_of_primitives;

    }
}

impl Pod for u8 {
    open spec fn width() -> nat {
        1
    }

    proof fn layout_is_fixed() {
        broadcast use vstd::layout::layout_of_primitives;

    }
}

impl Pod for i16 {
    open spec fn width() -> nat {
        2
    }

    proof fn layout_is_fixed() {
        broadcast use vstd::layout::layout_of_primitives;

    }
}

impl Pod for u16 {
    open spec fn width() -> nat {
        2
    }

    proof fn layout_is_fixed() {
        broadcast use vstd::layout::layout_of_primitives;

    }
}

impl Pod for i32 {
    open spec fn width() -> nat {
        4
    }

    proof fn layout_is_fixed() {
        broadcast use vstd::layout::layout_of_primitives;

    }
}

impl Pod for u32 {
    open spec fn width() -> nat {
        4
    }

    proof fn layout_is_fixed() {
        broadcast use vstd::layout::layout_of_primitives;

    }
}

impl Pod for i64 {
    open spec fn width() -> nat {
        8
    }

    proof fn layout_is_fixed() {
        broadcast use vstd::layout::layout_of_primitives;

    }
}

impl Pod for u64 {
    open spec fn width() -> nat {
        8
    }

    proof fn layout_is_fixed() {
        broadcast use vstd::layout::layout_of_primitives;

    }
}

} // verus!
