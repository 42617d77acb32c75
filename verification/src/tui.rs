//! The detailed per-device view: the per-session display buffer, the
//! Active and Suspended session shapes, the one allowed transition between
//! them, and the per-tick refresh that formats a sample into the buffer's
//! slots according to the toggle state.

use crate::device::{
    info_bar_spec, label_line, label_string, AppAmdgpuTop, AppOption, DeviceData, DevicePath,
    ListNameInfoBar,
};
use crate::fmt::{dec_str, push_dec};
use crate::sensors::{bw_line, push_bw_line, push_sensors_text, sensors_text_spec};
use crate::telemetry::{
    Activity, AppAmdgpuTopStat, CounterValue, GpuMetrics, MemHeap, MemoryErrorCount, PerfCounter,
    VramUsage,
};
use crate::text::{fdinfo_text, AppTextView};
use crate::ToggleOptions;
use vstd::prelude::*;
use vstd::string::StringExecFns;

verus! {

/// Two counter lists hold the same values.
pub open spec fn counters_like(a: Seq<CounterValue>, b: Seq<CounterValue>) -> bool {
    a.len() == b.len() && forall|i: int|
        0 <= i < a.len() ==> (#[trigger] a[i]).name@ == b[i].name@ && a[i].pct == b[i].pct
}

/// A fresh list holding the same counter values.
fn duplicate_counters(v: &Vec<CounterValue>) -> (r: Vec<CounterValue>)
    ensures
        counters_like(r@, v@),
{
    let mut r: Vec<CounterValue> = Vec::new();
    let mut i: usize = 0;
    while i < v.len()
        invariant
            i <= v@.len(),
            r@.len() == i,
            forall|t: int|
                0 <= t < i ==> (#[trigger] r@[t]).name@ == v@[t].name@ && r@[t].pct == v@[t].pct,
        decreases v@.len() - i,
    {
        r.push(CounterValue { name: v[i].name.clone(), pct: v[i].pct });
        i = i + 1;
    }
    r
}

/// The performance-counter widget of one session: its place in the
/// listing and the counter values it shows.
pub struct PerfCounterView {
    pub index: usize,
    pub counters: Vec<CounterValue>,
}

impl PerfCounterView {
    /// A widget with no values yet.
    pub fn reserve(index: usize) -> (r: Self)
        ensures
            r.index == index,
            r.counters@.len() == 0,
    {
        PerfCounterView { index, counters: Vec::new() }
    }

    /// A widget seeded from a first sample's counters.
    pub fn new(pc: &PerfCounter, index: usize) -> (r: Self)
        ensures
            r.index == index,
            counters_like(r.counters@, pc.counters@),
    {
        PerfCounterView { index, counters: duplicate_counters(&pc.counters) }
    }

    /// Adopts a sample's counter values.
    pub fn set_value(&mut self, pc: &PerfCounter)
        ensures
            final(self).index == old(self).index,
            counters_like(final(self).counters@, pc.counters@),
    {
        self.counters = duplicate_counters(&pc.counters);
    }
}

/// The memory-usage widget of one session.
pub struct VramUsageView {
    pub index: usize,
    pub usage: VramUsage,
}

impl VramUsageView {
    pub fn new(index: usize) -> (r: Self)
        ensures
            r.index == index,
            r.usage.vram.heap_usage == 0 && r.usage.vram.total_heap_size == 0,
            r.usage.gtt.heap_usage == 0 && r.usage.gtt.total_heap_size == 0,
    {
        VramUsageView {
            index,
            usage: VramUsage {
                vram: MemHeap { heap_usage: 0, total_heap_size: 0 },
                gtt: MemHeap { heap_usage: 0, total_heap_size: 0 },
            },
        }
    }

    pub fn set_value(&mut self, usage: &VramUsage)
        ensures
            final(self).index == old(self).index,
            final(self).usage == *usage,
    {
        self.usage = *usage;
    }
}

/// The engine-activity widget of one session.
pub struct ActivityView {
    pub index: usize,
    pub activity: Activity,
}

impl ActivityView {
    pub fn new(index: usize) -> (r: Self)
        ensures
            r.index == index,
            r.activity.gfx is None && r.activity.umc is None && r.activity.media is None,
    {
        ActivityView { index, activity: Activity { gfx: None, umc: None, media: None } }
    }

    pub fn set_value(&mut self, activity: &Activity)
        ensures
            final(self).index == old(self).index,
            final(self).activity == *activity,
    {
        self.activity = *activity;
    }
}

/// The error-counter panel text.
pub open spec fn ecc_text_spec(e: MemoryErrorCount) -> Seq<char> {
    "Corrected Errors: "@ + dec_str(e.corrected as nat) + "\nUnCorrectable Errors: "@ + dec_str(
        e.uncorrected as nat,
    ) + "\n"@
}

/// The metrics panel text: the rendered throttle status, or its
/// placeholder.
pub open spec fn metrics_text_spec(m: GpuMetrics) -> Seq<char> {
    "Throttle Status: "@ + (match m.throttle_status {
        Some(t) => t@,
        None => "N/A"@,
    }) + "\n"@
}

/// The metrics panel's title: versioned when the table has a header.
pub open spec fn metrics_title(m: GpuMetrics) -> Seq<char> {
    match m.header {
        Some(h) => "GPU Metrics v"@ + dec_str(h.format_revision as nat) + "."@ + dec_str(
            h.content_revision as nat,
        ),
        None => "GPU Metrics"@,
    }
}

impl AppTextView {
    /// Restages the sensor panel from a sample's readings.
    pub fn print_sensors(&mut self, s: &crate::telemetry::Sensors)
        ensures
            final(self).text.buf@ == sensors_text_spec(*s),
            final(self).text.spec_published() == old(self).text.spec_published(),
    {
        self.text.clear();
        push_sensors_text(&mut self.text.buf, s);
    }

    /// Appends the bandwidth line to the staged sensor panel.
    pub fn print_pcie_bw(&mut self, bw: &crate::telemetry::PcieBw)
        requires
            bw.sent * bw.max_payload_size <= u64::MAX,
            bw.received * bw.max_payload_size <= u64::MAX,
        ensures
            final(self).text.buf@ == old(self).text.buf@ + bw_line(*bw),
            final(self).text.spec_published() == old(self).text.spec_published(),
    {
        push_bw_line(&mut self.text.buf, bw);
    }

    /// Restages the error-counter panel.
    pub fn print_memory_error_count(&mut self, e: &MemoryErrorCount)
        ensures
            final(self).text.buf@ == ecc_text_spec(*e),
            final(self).text.spec_published() == old(self).text.spec_published(),
    {
        self.text.clear();
        let b = &mut self.text.buf;
        b.append("Corrected Errors: ");
        push_dec(b, e.corrected);
        b.append("\nUnCorrectable Errors: ");
        push_dec(b, e.uncorrected);
        b.append("\n");
        proof {
            assert(b@ =~= ecc_text_spec(*e));
        }
    }

    /// Restages the metrics panel.
    pub fn print_gpu_metrics(&mut self, m: &GpuMetrics)
        ensures
            final(self).text.buf@ == metrics_text_spec(*m),
            final(self).text.spec_published() == old(self).text.spec_published(),
    {
        self.text.clear();
        let b = &mut self.text.buf;
        b.append("Throttle Status: ");
        match &m.throttle_status {
            Some(t) => {
                b.append(t.as_str());
            },
            None => {
                b.append("N/A");
            },
        }
        b.append("\n");
        proof {
            assert(b@ =~= metrics_text_spec(*m));
        }
    }
}

/// The per-session display buffer: the named slots and widgets one device
/// session owns, living exactly as long as the session.
pub struct AppLayout {
    pub no_pc: bool,
    pub grbm_view: PerfCounterView,
    pub grbm2_view: PerfCounterView,
    pub vram_usage_view: VramUsageView,
    pub activity_view: ActivityView,
    pub fdinfo_view: AppTextView,
    pub sensors_view: AppTextView,
    pub gpu_metrics_view: AppTextView,
    pub ecc_view: AppTextView,
}

/// All text slots empty, staged and published.
pub open spec fn layout_slots_empty(l: AppLayout) -> bool {
    &&& l.fdinfo_view.text.buf@ == Seq::<char>::empty()
    &&& l.fdinfo_view.text.spec_published() == Seq::<char>::empty()
    &&& l.sensors_view.text.buf@ == Seq::<char>::empty()
    &&& l.sensors_view.text.spec_published() == Seq::<char>::empty()
    &&& l.gpu_metrics_view.text.buf@ == Seq::<char>::empty()
    &&& l.gpu_metrics_view.text.spec_published() == Seq::<char>::empty()
    &&& l.ecc_view.text.buf@ == Seq::<char>::empty()
    &&& l.ecc_view.text.spec_published() == Seq::<char>::empty()
}

/// Two display buffers hold the same content.
pub open spec fn layout_like(a: AppLayout, b: AppLayout) -> bool {
    &&& a.no_pc == b.no_pc
    &&& a.grbm_view.index == b.grbm_view.index
    &&& counters_like(a.grbm_view.counters@, b.grbm_view.counters@)
    &&& a.grbm2_view.index == b.grbm2_view.index
    &&& counters_like(a.grbm2_view.counters@, b.grbm2_view.counters@)
    &&& a.vram_usage_view.index == b.vram_usage_view.index
    &&& a.vram_usage_view.usage == b.vram_usage_view.usage
    &&& a.activity_view.index == b.activity_view.index
    &&& a.activity_view.activity == b.activity_view.activity
    &&& a.fdinfo_view.text.buf@ == b.fdinfo_view.text.buf@
    &&& a.fdinfo_view.text.spec_published() == b.fdinfo_view.text.spec_published()
    &&& a.sensors_view.text.buf@ == b.sensors_view.text.buf@
    &&& a.sensors_view.text.spec_published() == b.sensors_view.text.spec_published()
    &&& a.gpu_metrics_view.text.buf@ == b.gpu_metrics_view.text.buf@
    &&& a.gpu_metrics_view.text.spec_published() == b.gpu_metrics_view.text.spec_published()
    &&& a.ecc_view.text.buf@ == b.ecc_view.text.buf@
    &&& a.ecc_view.text.spec_published() == b.ecc_view.text.spec_published()
}

/// What one redraw composes, all taken from published values and the
/// current sample: the renderer lays these out without further logic.
pub struct LayoutPlan {
    pub title: String,
    pub info_bar: String,
    /// The two counter blocks, shown only when performance counters are
    /// enabled.
    pub show_perf_counters: bool,
    pub grbm: Vec<CounterValue>,
    pub grbm2: Vec<CounterValue>,
    pub vram: VramUsage,
    pub activity: Activity,
    pub fdinfo_text: String,
    /// Present exactly when the device reports sensors.
    pub sensors_text: Option<String>,
    /// Present exactly when the device reports error counters.
    pub ecc_text: Option<String>,
    /// Panel title and text, present exactly when the device reports a
    /// metrics table.
    pub metrics: Option<(String, String)>,
    pub help: String,
}

impl AppLayout {
    /// A fresh display buffer with empty slots and no counter values.
    pub fn new(no_pc: bool, index: usize) -> (r: Self)
        ensures
            r.no_pc == no_pc,
            r.grbm_view.index == index && r.grbm_view.counters@.len() == 0,
            r.grbm2_view.index == index && r.grbm2_view.counters@.len() == 0,
            r.vram_usage_view.index == index,
            r.activity_view.index == index,
            layout_slots_empty(r),
    {
        AppLayout {
            no_pc,
            grbm_view: PerfCounterView::reserve(index),
            grbm2_view: PerfCounterView::reserve(index),
            vram_usage_view: VramUsageView::new(index),
            activity_view: ActivityView::new(index),
            fdinfo_view: AppTextView::new(),
            sensors_view: AppTextView::new(),
            gpu_metrics_view: AppTextView::new(),
            ecc_view: AppTextView::new(),
        }
    }

    /// A fresh display buffer whose counter widgets are seeded from an
    /// acquired device's first sample.
    pub fn new_with_app(app_amdgpu_top: &AppAmdgpuTop, no_pc: bool, index: usize) -> (r: Self)
        ensures
            r.no_pc == no_pc,
            r.grbm_view.index == index,
            counters_like(r.grbm_view.counters@, app_amdgpu_top.stat.grbm.counters@),
            r.grbm2_view.index == index,
            counters_like(r.grbm2_view.counters@, app_amdgpu_top.stat.grbm2.counters@),
            r.vram_usage_view.index == index,
            r.activity_view.index == index,
            layout_slots_empty(r),
    {
        let grbm_view = PerfCounterView::new(&app_amdgpu_top.stat.grbm, index);
        let grbm2_view = PerfCounterView::new(&app_amdgpu_top.stat.grbm2, index);

        AppLayout {
            no_pc,
            grbm_view,
            grbm2_view,
            vram_usage_view: VramUsageView::new(index),
            activity_view: ActivityView::new(index),
            fdinfo_view: AppTextView::new(),
            sensors_view: AppTextView::new(),
            gpu_metrics_view: AppTextView::new(),
            ecc_view: AppTextView::new(),
        }
    }

    /// A display buffer with the same content.
    pub fn duplicate(&self) -> (r: Self)
        ensures
            layout_like(r, *self),
    {
        AppLayout {
            no_pc: self.no_pc,
            grbm_view: PerfCounterView {
                index: self.grbm_view.index,
                counters: duplicate_counters(&self.grbm_view.counters),
            },
            grbm2_view: PerfCounterView {
                index: self.grbm2_view.index,
                counters: duplicate_counters(&self.grbm2_view.counters),
            },
            vram_usage_view: VramUsageView {
                index: self.vram_usage_view.index,
                usage: self.vram_usage_view.usage,
            },
            activity_view: ActivityView {
                index: self.activity_view.index,
                activity: self.activity_view.activity,
            },
            fdinfo_view: self.fdinfo_view.duplicate(),
            sensors_view: self.sensors_view.duplicate(),
            gpu_metrics_view: self.gpu_metrics_view.duplicate(),
            ecc_view: self.ecc_view.duplicate(),
        }
    }

    /// Composes one redraw from the published slot values and the current
    /// sample: which panels appear, under which titles, with which text.
    pub fn view(&self, title: &str, info_bar: String, stat: &AppAmdgpuTopStat) -> (r: LayoutPlan)
        ensures
            r.title@ == title@,
            r.info_bar@ == info_bar@,
            r.show_perf_counters == !self.no_pc,
            counters_like(r.grbm@, stat.grbm.counters@),
            counters_like(r.grbm2@, stat.grbm2.counters@),
            r.vram == stat.vram_usage,
            r.activity == stat.activity,
            r.fdinfo_text@ == self.fdinfo_view.text.spec_published(),
            r.sensors_text is Some <==> stat.sensors is Some,
            r.sensors_text matches Some(t) ==> t@ == self.sensors_view.text.spec_published(),
            r.ecc_text is Some <==> stat.memory_error_count is Some,
            r.ecc_text matches Some(t) ==> t@ == self.ecc_view.text.spec_published(),
            r.metrics is Some <==> stat.metrics is Some,
            stat.metrics matches Some(m) ==> r.metrics matches Some(p) && p.0@ == metrics_title(m)
                && p.1@ == self.gpu_metrics_view.text.spec_published(),
            r.help@ == crate::TOGGLE_HELP@,
    {
        let metrics: Option<(String, String)> = match &stat.metrics {
            Some(m) => {
                let mut t = String::new();
                match &m.header {
                    Some(h) => {
                        t.append("GPU Metrics v");
                        push_dec(&mut t, h.format_revision);
                        t.append(".");
                        push_dec(&mut t, h.content_revision);
                        proof {
                            assert(t@ =~= metrics_title(*m));
                        }
                    },
                    None => {
                        t.append("GPU Metrics");
                        proof {
                            assert(t@ =~= metrics_title(*m));
                        }
                    },
                }
                Some((t, self.gpu_metrics_view.text.published().clone()))
            },
            None => None,
        };
        LayoutPlan {
            title: String::from_str(title),
            info_bar,
            show_perf_counters: !self.no_pc,
            grbm: duplicate_counters(&stat.grbm.counters),
            grbm2: duplicate_counters(&stat.grbm2.counters),
            vram: stat.vram_usage,
            activity: stat.activity,
            fdinfo_text: self.fdinfo_view.text.published().clone(),
            sensors_text: match &stat.sensors {
                Some(_) => Some(self.sensors_view.text.published().clone()),
                None => None,
            },
            ecc_text: match &stat.memory_error_count {
                Some(_) => Some(self.ecc_view.text.published().clone()),
                None => None,
            },
            metrics,
            help: String::from_str(crate::TOGGLE_HELP),
        }
    }
}

/// What the sensor slot's staging buffer holds after one tick with the
/// sensor panel visible: the formatted readings when the sample has any
/// (the previous staging otherwise), then the bandwidth line exactly when
/// the cell exists, is not held by its producer, and has a value. A held
/// cell costs nothing but the line: the read never blocks.
pub open spec fn tui_sensors_staged(pre_buf: Seq<char>, stat: AppAmdgpuTopStat) -> Seq<char> {
    (match stat.sensors {
        Some(s) => sensors_text_spec(s),
        None => pre_buf,
    }) + (match stat.arc_pcie_bw {
        Some(cell) => if !cell.held && cell.value is Some {
            bw_line(cell.value.unwrap())
        } else {
            Seq::empty()
        },
        None => Seq::empty(),
    })
}

/// An Active session of the detailed view: the device's application state
/// and its display buffer.
pub struct TuiApp {
    pub app_amdgpu_top: AppAmdgpuTop,
    pub no_pc: bool,
    pub index: usize,
    pub layout: AppLayout,
}

impl TuiApp {
    /// Wraps an acquired device, its display buffer seeded from the first
    /// sample.
    pub fn new_with_app(app_amdgpu_top: AppAmdgpuTop, no_pc: bool, index: usize) -> (r: Self)
        ensures
            r.app_amdgpu_top == app_amdgpu_top,
            r.no_pc == no_pc,
            r.index == index,
            r.layout.no_pc == no_pc,
            layout_slots_empty(r.layout),
            counters_like(r.layout.grbm_view.counters@, app_amdgpu_top.stat.grbm.counters@),
            counters_like(r.layout.grbm2_view.counters@, app_amdgpu_top.stat.grbm2.counters@),
    {
        let layout = AppLayout::new_with_app(&app_amdgpu_top, no_pc, index);
        TuiApp { app_amdgpu_top, no_pc, index, layout }
    }

    /// Composes one redraw of this session.
    pub fn view(&self, title: &str) -> (r: LayoutPlan)
        ensures
            r.title@ == title@,
            r.info_bar@ == info_bar_spec(self.app_amdgpu_top.device_info),
            r.show_perf_counters == !self.layout.no_pc,
            r.fdinfo_text@ == self.layout.fdinfo_view.text.spec_published(),
            r.sensors_text is Some <==> self.app_amdgpu_top.stat.sensors is Some,
            r.sensors_text matches Some(t) ==> t@
                == self.layout.sensors_view.text.spec_published(),
            r.ecc_text is Some <==> self.app_amdgpu_top.stat.memory_error_count is Some,
            r.metrics is Some <==> self.app_amdgpu_top.stat.metrics is Some,
    {
        self.layout.view(title, self.app_amdgpu_top.device_info.info_bar(), &self.app_amdgpu_top.stat)
    }

    /// One tick's refresh: folds the sample in and restages every slot
    /// according to the toggle state, then commits the touched slots. A
    /// hidden panel's slot is cleared, not formatted; its cost is skipped.
    /// The bandwidth line appears only if the cell's non-blocking read
    /// succeeds this tick; a held cell only omits the line.
    pub fn update(&mut self, flags: &ToggleOptions, stat: AppAmdgpuTopStat)
        requires
            (match stat.arc_pcie_bw {
                Some(cell) => match cell.value {
                    Some(bw) => bw.sent * bw.max_payload_size <= u64::MAX && bw.received
                        * bw.max_payload_size <= u64::MAX,
                    None => true,
                },
                None => true,
            }),
        ensures
            final(self).app_amdgpu_top.stat == stat,
            final(self).app_amdgpu_top.device_path == old(self).app_amdgpu_top.device_path,
            final(self).app_amdgpu_top.device_info == old(self).app_amdgpu_top.device_info,
            final(self).no_pc == old(self).no_pc,
            final(self).index == old(self).index,
            flags.fdinfo ==> final(self).layout.fdinfo_view.text.spec_published() == fdinfo_text(
                stat.fdinfo@.map_values(|r: String| r@),
                flags.reverse_sort,
            ),
            !flags.fdinfo ==> final(self).layout.fdinfo_view.text.spec_published() == Seq::<
                char,
            >::empty(),
            flags.sensor ==> final(self).layout.sensors_view.text.spec_published()
                == tui_sensors_staged(old(self).layout.sensors_view.text.buf@, stat),
            !flags.sensor ==> final(self).layout.sensors_view.text.spec_published() == Seq::<
                char,
            >::empty(),
            stat.memory_error_count matches Some(e) ==> final(self).layout.ecc_view.text.spec_published() == ecc_text_spec(e),
            stat.memory_error_count is None ==> final(self).layout.ecc_view.text.spec_published() == old(self).layout.ecc_view.text.buf@,
            flags.gpu_metrics && stat.metrics is Some ==> final(self).layout.gpu_metrics_view.text.spec_published() == metrics_text_spec(
                stat.metrics.unwrap(),
            ),
            !(flags.gpu_metrics && stat.metrics is Some) ==> final(self).layout.gpu_metrics_view.text.spec_published() == Seq::<char>::empty(),
            final(self).layout.vram_usage_view.usage == stat.vram_usage,
            final(self).layout.activity_view.activity == stat.activity,
            !old(self).no_pc ==> counters_like(
                final(self).layout.grbm_view.counters@,
                stat.grbm.counters@,
            ) && counters_like(final(self).layout.grbm2_view.counters@, stat.grbm2.counters@),
    {
        self.app_amdgpu_top.update(stat);

        if flags.fdinfo {
            self.layout.fdinfo_view.print_fdinfo(
                &self.app_amdgpu_top.stat.fdinfo,
                flags.reverse_sort,
            );
        } else {
            self.layout.fdinfo_view.text.clear();
        }

        self.layout.vram_usage_view.set_value(&self.app_amdgpu_top.stat.vram_usage);
        self.layout.activity_view.set_value(&self.app_amdgpu_top.stat.activity);

        if flags.sensor {
            match &self.app_amdgpu_top.stat.sensors {
                Some(sensors) => {
                    self.layout.sensors_view.print_sensors(sensors);
                },
                None => {},
            }
            match &self.app_amdgpu_top.stat.arc_pcie_bw {
                Some(arc_pcie_bw) => {
                    let lock = arc_pcie_bw.try_read();
                    match lock {
                        Some(pcie_bw) => {
                            self.layout.sensors_view.print_pcie_bw(pcie_bw);
                        },
                        None => {},
                    }
                },
                None => {},
            }
            proof {
                if self.app_amdgpu_top.stat.sensors is Some
                    || self.app_amdgpu_top.stat.arc_pcie_bw is Some {
                    assert(self.layout.sensors_view.text.buf@ =~= tui_sensors_staged(
                        old(self).layout.sensors_view.text.buf@,
                        stat,
                    ));
                } else {
                    assert(self.layout.sensors_view.text.buf@ =~= tui_sensors_staged(
                        old(self).layout.sensors_view.text.buf@,
                        stat,
                    ));
                }
            }
        } else {
            self.layout.sensors_view.text.clear();
        }

        match &self.app_amdgpu_top.stat.memory_error_count {
            Some(ecc) => {
                let e = *ecc;
                self.layout.ecc_view.print_memory_error_count(&e);
            },
            None => {},
        }

        if flags.gpu_metrics {
            let m: Option<GpuMetrics> = match &self.app_amdgpu_top.stat.metrics {
                Some(metrics) => Some(
                    GpuMetrics {
                        header: metrics.header,
                        throttle_status: match &metrics.throttle_status {
                            Some(t) => Some(t.clone()),
                            None => None,
                        },
                    },
                ),
                None => None,
            };
            match m {
                Some(metrics) => {
                    self.layout.gpu_metrics_view.print_gpu_metrics(&metrics);
                },
                None => {
                    self.layout.gpu_metrics_view.text.clear();
                },
            }
        } else {
            self.layout.gpu_metrics_view.text.clear();
        }

        if !self.no_pc {
            self.layout.grbm_view.set_value(&self.app_amdgpu_top.stat.grbm);
            self.layout.grbm2_view.set_value(&self.app_amdgpu_top.stat.grbm2);
        }

        self.layout.sensors_view.text.set();
        self.layout.fdinfo_view.text.set();
        self.layout.ecc_view.text.set();
        self.layout.gpu_metrics_view.text.set();
    }

    /// The session's listing label.
    pub fn label(&self) -> (r: String)
        ensures
            r@ == label_line(
                self.index as nat,
                self.app_amdgpu_top.device_path.device_name@,
            ),
    {
        label_string(self.index, self.app_amdgpu_top.device_path.menu_entry().as_str())
    }
}

/// A Suspended session of the detailed view: only the device's identity
/// and its display buffer, kept so a later promotion carries the buffer
/// over.
pub struct SuspendedTuiApp {
    pub device_path: DevicePath,
    pub no_pc: bool,
    pub index: usize,
    pub layout: AppLayout,
}

impl SuspendedTuiApp {
    /// A fresh suspended session with an empty display buffer.
    pub fn new(device_path: DevicePath, no_pc: bool, index: usize) -> (r: Self)
        ensures
            r.device_path == device_path,
            r.no_pc == no_pc,
            r.index == index,
            r.layout.no_pc == no_pc,
            layout_slots_empty(r.layout),
    {
        let layout = AppLayout::new(no_pc, index);
        SuspendedTuiApp { device_path, no_pc, index, layout }
    }

    /// Attempts promotion, the probe's outcome handed in. On success the
    /// new Active session keeps this session's index and display buffer,
    /// preserving whatever was last rendered until the first sample
    /// overwrites it; the bandwidth cell is kept. On failure the session
    /// stays suspended, to be probed again next tick.
    pub fn to_tui_app(&self, acquired: Option<DeviceData>) -> (r: Option<TuiApp>)
        ensures
            r is Some <==> acquired is Some,
            acquired matches Some(data) ==> r matches Some(app) && app.index == self.index
                && app.no_pc == self.no_pc && app.app_amdgpu_top.device_path.pci
                == self.device_path.pci && app.app_amdgpu_top.device_info == data.device_info
                && app.app_amdgpu_top.stat == data.stat && layout_like(app.layout, self.layout),
    {
        match acquired {
            Some(data) => {
                let app_amdgpu_top = AppAmdgpuTop::new(
                    data,
                    self.device_path.duplicate(),
                    &AppOption { pcie_bw: true },
                );
                Some(
                    TuiApp {
                        app_amdgpu_top,
                        no_pc: self.no_pc,
                        index: self.index,
                        layout: self.layout.duplicate(),
                    },
                )
            },
            None => None,
        }
    }

    /// The session's listing label, marked `(Suspended)`.
    pub fn label(&self) -> (r: String)
        ensures
            r@ == label_line(self.index as nat, self.device_path.device_name@)
                + " (Suspended)"@,
    {
        let mut s = label_string(self.index, self.device_path.menu_entry().as_str());
        s.append(" (Suspended)");
        s
    }
}

} // verus!
