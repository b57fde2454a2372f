//! Core libraries of a small rendering and immediate-mode UI toolkit:
//! integer geometry, renderer resource descriptors, a UI layout engine,
//! and the bookkeeping structures behind them.

pub mod geometry;
pub mod ui;
pub mod renderer;
pub mod scene;

use vstd::prelude::*;

verus! {

/// Whether an input event was consumed by the receiver.
pub enum UpdateResult {
    Handled,
    Unhandled,
}

} // verus!
