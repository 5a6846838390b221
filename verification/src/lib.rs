//! Execution instrumentation for a register-based virtual machine running
//! RISC-V-style code: call-stack-aware cost profiling over a reconstructed
//! call trie, source-line coverage, heap/stack-overlap detection, and raw
//! step logging, driven once per executed instruction.

pub mod coverage;
pub mod debuginfo;
pub mod decode_text;
pub mod driver;
pub mod flamegraph;
pub mod image;
pub mod inst;
pub mod misc;
pub mod overlap;
pub mod resolver;
pub mod steplog;
pub mod tags;
pub mod trie;
pub mod trie_laws;
pub mod vm;
