//! Plain-value snapshots of everything the telemetry source reports for one
//! device, and the shared bandwidth cell read opportunistically by the
//! sampler. Acquiring handles and reading hardware happens outside this
//! crate; a tick hands these values in.

use vstd::prelude::*;

verus! {

/// Sensor readings of one sample; every field is individually optional,
/// absence meaning "not supported on this device", never an error.
#[derive(Clone)]
pub struct Sensors {
    pub sclk: Option<u64>,
    pub mclk: Option<u64>,
    pub vddnb: Option<u64>,
    pub vddgfx: Option<u64>,
    /// Temperature in millidegrees.
    pub temp: Option<u64>,
    pub critical_temp: Option<u64>,
    /// Edge temperature in degrees.
    pub edge_temp: Option<u64>,
    pub power: Option<u64>,
    pub power_cap: Option<u64>,
    pub fan_rpm: Option<u64>,
    pub fan_max_rpm: Option<u64>,
    /// Human-readable bus address.
    pub bus_info: String,
    pub cur_gen: u64,
    pub cur_width: u64,
    pub max_gen: u64,
    pub max_width: u64,
}

/// Counters of the independent bandwidth producer.
#[derive(Clone, Copy)]
pub struct PcieBw {
    pub sent: u64,
    pub received: u64,
    pub max_payload_size: u64,
}

/// One memory heap's usage, in bytes.
#[derive(Clone, Copy)]
pub struct MemHeap {
    pub heap_usage: u64,
    pub total_heap_size: u64,
}

/// Video and GTT memory usage.
#[derive(Clone, Copy)]
pub struct VramUsage {
    pub vram: MemHeap,
    pub gtt: MemHeap,
}

/// Engine activity, in percent; absent when the device does not report it.
#[derive(Clone, Copy)]
pub struct Activity {
    pub gfx: Option<u64>,
    pub umc: Option<u64>,
    pub media: Option<u64>,
}

/// Accumulated memory error counters.
#[derive(Clone, Copy)]
pub struct MemoryErrorCount {
    pub corrected: u64,
    pub uncorrected: u64,
}

/// Version header of the device's metrics table.
#[derive(Clone, Copy)]
pub struct MetricsHeader {
    pub format_revision: u64,
    pub content_revision: u64,
}

/// Device-internal metrics blob, reduced to what the panels show.
#[derive(Clone)]
pub struct GpuMetrics {
    pub header: Option<MetricsHeader>,
    /// Rendered list of active throttlers, when the table reports one.
    pub throttle_status: Option<String>,
}

/// One named performance counter's load, in percent.
#[derive(Clone)]
pub struct CounterValue {
    pub name: String,
    pub pct: u64,
}

/// A block of performance counters.
#[derive(Clone)]
pub struct PerfCounter {
    pub counters: Vec<CounterValue>,
}

/// Whether the graphics core was powered off when last probed.
#[derive(Clone, Copy, PartialEq, Eq, Structural)]
pub enum GfxoffStatus {
    InGfxoff,
    NotInGfxoff,
}

/// The shared cell the bandwidth producer fills on its own clock. `held`
/// models the producer currently holding the cell for writing; a reader
/// never waits for it.
#[derive(Clone, Copy)]
pub struct BandwidthCell {
    pub held: bool,
    pub value: Option<PcieBw>,
}

impl BandwidthCell {
    pub fn new(value: Option<PcieBw>) -> (r: Self)
        ensures
            r.held == false,
            r.value == value,
    {
        BandwidthCell { held: false, value }
    }

    /// Non-blocking read: the counters exactly when the producer is not
    /// holding the cell and has published a value; `None` otherwise, at
    /// once, never waiting.
    pub fn try_read(&self) -> (r: Option<&PcieBw>)
        ensures
            r is Some <==> (!self.held && self.value is Some),
            r matches Some(b) ==> self.value == Some(*b),
    {
        if self.held {
            None
        } else {
            self.value.as_ref()
        }
    }
}

/// Everything one sample reports for one device.
#[derive(Clone)]
pub struct AppAmdgpuTopStat {
    pub grbm: PerfCounter,
    pub grbm2: PerfCounter,
    pub vram_usage: VramUsage,
    pub activity: Activity,
    pub sensors: Option<Sensors>,
    /// Formatted process rows, already ordered by the toggled sort key.
    pub fdinfo: Vec<String>,
    pub memory_error_count: Option<MemoryErrorCount>,
    pub metrics: Option<GpuMetrics>,
    /// The bandwidth producer's cell, when the device supports it.
    pub arc_pcie_bw: Option<BandwidthCell>,
}

} // verus!
