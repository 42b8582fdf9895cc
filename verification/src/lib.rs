//! A verified core for local interprocess communication.
//!
//! Nothing in this crate talks to the operating system. Every operation is
//! described as a [`sys::Syscall`] for the embedding program to perform, and
//! every decision is taken from the [`sys::SysReturn`] that the program hands
//! back. What is decided, and what may never happen to a descriptor, is stated
//! in the contracts and proved.

pub mod fdops;
pub mod instancer;
pub mod listener;
pub mod named_pipe;
pub mod stream;
pub mod sys;
pub mod wide;
