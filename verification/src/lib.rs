//! Core of a live terminal dashboard for per-device hardware telemetry.
//!
//! The crate models the concurrent device-session and refresh pipeline:
//! per-device sessions that are either Active or Suspended, a sampler tick
//! that refreshes active sessions and probes suspended ones for promotion,
//! display buffers with a staging/published commit protocol, and an
//! opportunistically read bandwidth cell. Rendering and device I/O live
//! outside this crate; every function here is pure logic over plain values.

pub mod fmt;
pub mod select;
pub mod sensors;
pub mod smi;
pub mod device;
pub mod telemetry;
pub mod text;
pub mod tui;

use vstd::prelude::*;

verus! {

/// The key-toggle help line shown under the panels.
pub const TOGGLE_HELP: &'static str = " (f)dinfo (s)ensor (m)etrics (q)uit";

/// The sort keys offered for the process table.
#[derive(Clone, Copy, PartialEq, Eq, Structural)]
pub enum FdInfoSortType {
    Pid,
    Vram,
    Gtt,
    Cpu,
    Gfx,
    MediaEngine,
}

impl Default for FdInfoSortType {
    fn default() -> (r: Self)
        ensures
            r == FdInfoSortType::Pid,
    {
        FdInfoSortType::Pid
    }
}

/// The process-wide toggle record: written by UI key handlers, read by the
/// sampler once per tick. A change is picked up on the next tick.
#[derive(Clone, Copy, PartialEq, Eq, Structural)]
pub struct ToggleOptions {
    pub fdinfo: bool,
    pub fdinfo_sort: FdInfoSortType,
    pub reverse_sort: bool,
    pub sensor: bool,
    pub gpu_metrics: bool,
}

impl Default for ToggleOptions {
    /// Every panel visible, processes sorted by id, not reversed.
    fn default() -> (r: Self)
        ensures
            r == (ToggleOptions {
                fdinfo: true,
                fdinfo_sort: FdInfoSortType::Pid,
                reverse_sort: false,
                sensor: true,
                gpu_metrics: true,
            }),
    {
        ToggleOptions {
            fdinfo: true,
            fdinfo_sort: FdInfoSortType::Pid,
            reverse_sort: false,
            sensor: true,
            gpu_metrics: true,
        }
    }
}

/// Fixed sampling cadence, in milliseconds, driving one tick of the sampler.
pub struct Sampling {
    pub millis: u64,
}

impl Sampling {
    /// The compact view's cadence: one second per tick.
    pub fn low() -> (r: Self)
        ensures
            r.millis == 1000,
    {
        Sampling { millis: 1000 }
    }

    /// The detailed view's cadence: ten ticks per second.
    pub fn high() -> (r: Self)
        ensures
            r.millis == 100,
    {
        Sampling { millis: 100 }
    }
}

} // verus!
