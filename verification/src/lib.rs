//! A static-analysis core that classifies source functions by the essence
//! of the low-level operations they perform: raw-pointer dereferences,
//! pointer offset arithmetic, unchecked casts, calls inside unsafe regions.
//!
//! An external front-end parses the source language and hands over, per
//! function, an identifier and a tree of operation nodes. The `ir` module
//! validates that tree's unsafe-region markers eagerly; the `walker`
//! traverses it in program order, tracking the unsafe-context depth and
//! consulting the declarative rule set of `catalog` at every node; the
//! `signature` module reduces the ordered findings to a per-function
//! essence signature; `report` ties the stages together and exposes the
//! batch result. The `laws` module states and proves the engine's
//! guarantees: depth bookkeeping, determinism, and that unsafe-requiring
//! rules never fire outside a region. The core performs no I/O and keeps
//! no shared mutable state.

pub mod catalog;
pub mod error;
pub mod ir;
pub mod laws;
pub mod report;
pub mod signature;
pub mod walker;
