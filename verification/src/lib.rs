//! Loading and managing kernel-resident programs and maps.
//!
//! An object file describes maps and programs. Loading it makes every map in
//! the kernel, rewrites the instructions that refer to a map or to another
//! program, and gives every program the kind of its section. What comes out
//! is a [`Bpf`]: the registry of the maps and programs, each under its name.
//!
//! The library calls neither the kernel nor the file system. A load is a
//! state machine ([`load`]) that says which call is due and takes its
//! outcome; loading and attaching a program ([`programs::sk_skb`]) hand out
//! what to ask of the kernel and take the answer. Whoever embeds the library
//! makes the calls.

pub mod abi;
pub mod bpf;
pub mod btf;
pub mod laws;
pub mod load;
pub mod maps;
pub mod obj;
pub mod pod;
pub mod programs;
pub mod relocation;
pub mod sys;
pub mod table;

pub use crate::bpf::{Bpf, BpfError, BpfLoader};
pub use crate::btf::Btf;
pub use crate::pod::Pod;
