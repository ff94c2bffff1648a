//! Per-OS kernel interface decoding.
//!
//! Each submodule holds the pure decoding rules of one kernel interface:
//! the translation between that system's native protection bits and the
//! common [`Protection`](crate::Protection) model, and — where the kernel
//! hands out text or records — the parsing of those. The system calls
//! themselves live outside this crate, with its embedder.

pub mod bytes;
pub mod freebsd;
pub mod illumos;
pub mod linux;
pub mod macos;
pub mod openbsd;
pub mod unix;
pub mod windows;
