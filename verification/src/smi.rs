//! The compact multi-device view: one three-line info block per device,
//! a process panel per device, and the per-tick state machine that
//! refreshes active sessions, probes suspended ones, promotes them on
//! success and applies deferred removals.

use crate::device::{AppAmdgpuTop, AppDeviceInfo, AppOption, DeviceData, DevicePath};
use crate::fmt::{
    dec_str, pad_left, pad_right, push_dec_pad_left, push_dec_pad_right, push_pad_left,
    push_pad_right, push_truncated, truncated,
};
use crate::telemetry::{AppAmdgpuTopStat, GfxoffStatus, MemoryErrorCount, Sensors};
use crate::text::{AppTextView, Text};
use vstd::prelude::*;
use vstd::string::StringExecFns;

verus! {

/// Characters of the device name shown in the compact view.
pub const GPU_NAME_LEN: usize = 25;

/// Width of the throttle-status column.
pub const THR_LEN: usize = 48;

/// Width of the memory-error column.
pub const ECC_LEN: usize = 9;

/// The clock field: a right-aligned reading, or the fixed placeholder when
/// the sensor is absent.
pub open spec fn clk_piece(v: Option<u64>) -> Seq<char> {
    match v {
        Some(n) => pad_left(dec_str(n as nat), 4) + "MHz "@,
        None => "____MHz "@,
    }
}

/// The voltage field, placeholder when absent.
pub open spec fn volt_piece(v: Option<u64>) -> Seq<char> {
    match v {
        Some(n) => pad_left(dec_str(n as nat), 4) + "mV "@,
        None => "____mV "@,
    }
}

/// The power field: draw and cap, each degrading to a placeholder.
pub open spec fn power_piece(power: Option<u64>, cap: Option<u64>) -> Seq<char> {
    match (power, cap) {
        (Some(p), Some(c)) => " "@ + pad_left(dec_str(p as nat), 3) + "/"@ + pad_left(
            dec_str(c as nat),
            3,
        ) + "W "@,
        (Some(p), None) => " "@ + pad_left(dec_str(p as nat), 3) + "/___W "@,
        _ => " ___/___W "@,
    }
}

/// The graphics-off marker, shown only when the core is known to be off.
pub open spec fn gfxoff_piece(g: Option<GfxoffStatus>) -> Seq<char> {
    match g {
        Some(GfxoffStatus::InGfxoff) => "GFXOFF |"@,
        _ => "       |"@,
    }
}

/// One engine-activity field, placeholder when absent.
pub open spec fn usage_piece(u: Option<u64>) -> Seq<char> {
    match u {
        Some(n) => " "@ + pad_left(dec_str(n as nat), 3) + "%"@,
        None => " ___%"@,
    }
}

/// The temperature field, placeholder when absent.
pub open spec fn temp_piece(t: Option<u64>) -> Seq<char> {
    match t {
        Some(n) => " "@ + pad_left(dec_str(n as nat), 3) + "C "@,
        None => " ___C "@,
    }
}

/// The fan field, placeholder when absent.
pub open spec fn fan_piece(f: Option<u64>) -> Seq<char> {
    match f {
        Some(n) => "  "@ + pad_left(dec_str(n as nat), 4) + "RPM "@,
        None => "  ____RPM "@,
    }
}

/// The uncorrected-error field, `N/A` when the device has no counter.
pub open spec fn ecc_piece(e: Option<MemoryErrorCount>) -> Seq<char> {
    match e {
        Some(c) => "["@ + pad_left(dec_str(c.uncorrected as nat), ECC_LEN as nat) + "] "@,
        None => "["@ + pad_left("N/A"@, ECC_LEN as nat) + "] "@,
    }
}

/// The throttle-status column, truncated to its width, `N/A` when absent.
pub open spec fn thr_piece(t: Option<Seq<char>>) -> Seq<char> {
    match t {
        Some(s) => pad_right(truncated(s, THR_LEN as nat), THR_LEN as nat) + "|"@,
        None => pad_right("N/A"@, THR_LEN as nat) + "|"@,
    }
}

/// The first compact line: index, truncated name, target version, bus and
/// video memory usage.
pub open spec fn smi_line1(
    index: nat,
    name: Seq<char>,
    gfx_ver: Seq<char>,
    pci: Seq<char>,
    vu: nat,
    vt: nat,
) -> Seq<char> {
    "#"@ + pad_right(dec_str(index), 2) + " ["@ + pad_right(
        truncated(name, GPU_NAME_LEN as nat),
        GPU_NAME_LEN as nat,
    ) + "]("@ + pad_left(gfx_ver, 7) + ")| "@ + pci + "   |"@ + pad_left(dec_str(vu), 6) + "/"@
        + pad_left(dec_str(vt), 6) + " MiB |\n"@
}

/// End of the second compact line: GTT memory usage.
pub open spec fn gtt_tail(gu: nat, gt: nat) -> Seq<char> {
    " |"@ + pad_left(dec_str(gu), 6) + "/"@ + pad_left(dec_str(gt), 6) + " MiB |\n"@
}

pub open spec fn sens_sclk(s: Option<Sensors>) -> Option<u64> {
    match s {
        Some(se) => se.sclk,
        None => None,
    }
}

pub open spec fn sens_mclk(s: Option<Sensors>) -> Option<u64> {
    match s {
        Some(se) => se.mclk,
        None => None,
    }
}

pub open spec fn sens_vddgfx(s: Option<Sensors>) -> Option<u64> {
    match s {
        Some(se) => se.vddgfx,
        None => None,
    }
}

pub open spec fn sens_power(s: Option<Sensors>) -> Option<u64> {
    match s {
        Some(se) => se.power,
        None => None,
    }
}

pub open spec fn sens_power_cap(s: Option<Sensors>) -> Option<u64> {
    match s {
        Some(se) => se.power_cap,
        None => None,
    }
}

pub open spec fn sens_edge_temp(s: Option<Sensors>) -> Option<u64> {
    match s {
        Some(se) => se.edge_temp,
        None => None,
    }
}

pub open spec fn sens_fan_rpm(s: Option<Sensors>) -> Option<u64> {
    match s {
        Some(se) => se.fan_rpm,
        None => None,
    }
}

/// The target version shown in the first line: the reported one, or empty.
pub open spec fn gfx_ver_of(info: AppDeviceInfo) -> Seq<char> {
    match info.gfx_target_version {
        Some(v) => v@,
        None => Seq::empty(),
    }
}

/// The rendered throttle status, when the metrics table reports one.
pub open spec fn throttle_of(stat: AppAmdgpuTopStat) -> Option<Seq<char>> {
    match stat.metrics {
        Some(m) => match m.throttle_status {
            Some(t) => Some(t@),
            None => None,
        },
        None => None,
    }
}

/// The whole three-line compact info block of one device. Every absent
/// sensor degrades to its fixed placeholder; nothing else changes.
pub open spec fn smi_info_text_spec(
    index: nat,
    info: AppDeviceInfo,
    stat: AppAmdgpuTopStat,
    gfxoff: Option<GfxoffStatus>,
) -> Seq<char> {
    smi_line1(
        index,
        info.marketing_name@,
        gfx_ver_of(info),
        info.pci_bus@,
        (stat.vram_usage.vram.heap_usage >> 20) as nat,
        (stat.vram_usage.vram.total_heap_size >> 20) as nat,
    ) + clk_piece(sens_sclk(stat.sensors)) + clk_piece(sens_mclk(stat.sensors)) + volt_piece(
        sens_vddgfx(stat.sensors),
    ) + power_piece(sens_power(stat.sensors), sens_power_cap(stat.sensors)) + gfxoff_piece(gfxoff)
        + usage_piece(stat.activity.gfx) + usage_piece(stat.activity.umc) + usage_piece(
        stat.activity.media,
    ) + gtt_tail(
        (stat.vram_usage.gtt.heap_usage >> 20) as nat,
        (stat.vram_usage.gtt.total_heap_size >> 20) as nat,
    ) + temp_piece(sens_edge_temp(stat.sensors)) + fan_piece(sens_fan_rpm(stat.sensors))
        + ecc_piece(stat.memory_error_count) + thr_piece(throttle_of(stat))
}

fn push_clk(b: &mut String, v: Option<u64>)
    ensures
        final(b)@ == old(b)@ + clk_piece(v),
{
    match v {
        Some(n) => {
            push_dec_pad_left(b, n, 4);
            b.append("MHz ");
            proof {
                assert(final(b)@ =~= old(b)@ + clk_piece(v));
            }
        },
        None => {
            b.append("____MHz ");
        },
    }
}

fn push_volt(b: &mut String, v: Option<u64>)
    ensures
        final(b)@ == old(b)@ + volt_piece(v),
{
    match v {
        Some(n) => {
            push_dec_pad_left(b, n, 4);
            b.append("mV ");
            proof {
                assert(final(b)@ =~= old(b)@ + volt_piece(v));
            }
        },
        None => {
            b.append("____mV ");
        },
    }
}

fn push_power(b: &mut String, power: Option<u64>, cap: Option<u64>)
    ensures
        final(b)@ == old(b)@ + power_piece(power, cap),
{
    match (power, cap) {
        (Some(p), Some(c)) => {
            b.append(" ");
            push_dec_pad_left(b, p, 3);
            b.append("/");
            push_dec_pad_left(b, c, 3);
            b.append("W ");
            proof {
                assert(final(b)@ =~= old(b)@ + power_piece(power, cap));
            }
        },
        (Some(p), None) => {
            b.append(" ");
            push_dec_pad_left(b, p, 3);
            b.append("/___W ");
            proof {
                assert(final(b)@ =~= old(b)@ + power_piece(power, cap));
            }
        },
        _ => {
            b.append(" ___/___W ");
            proof {
                assert(final(b)@ =~= old(b)@ + power_piece(power, cap));
            }
        },
    }
}

fn push_gfxoff(b: &mut String, g: Option<GfxoffStatus>)
    ensures
        final(b)@ == old(b)@ + gfxoff_piece(g),
{
    match g {
        Some(GfxoffStatus::InGfxoff) => {
            b.append("GFXOFF |");
        },
        _ => {
            b.append("       |");
        },
    }
}

fn push_usage(b: &mut String, u: Option<u64>)
    ensures
        final(b)@ == old(b)@ + usage_piece(u),
{
    match u {
        Some(n) => {
            b.append(" ");
            push_dec_pad_left(b, n, 3);
            b.append("%");
            proof {
                assert(final(b)@ =~= old(b)@ + usage_piece(u));
            }
        },
        None => {
            b.append(" ___%");
        },
    }
}

fn push_temp(b: &mut String, t: Option<u64>)
    ensures
        final(b)@ == old(b)@ + temp_piece(t),
{
    match t {
        Some(n) => {
            b.append(" ");
            push_dec_pad_left(b, n, 3);
            b.append("C ");
            proof {
                assert(final(b)@ =~= old(b)@ + temp_piece(t));
            }
        },
        None => {
            b.append(" ___C ");
        },
    }
}

fn push_fan(b: &mut String, f: Option<u64>)
    ensures
        final(b)@ == old(b)@ + fan_piece(f),
{
    match f {
        Some(n) => {
            b.append("  ");
            push_dec_pad_left(b, n, 4);
            b.append("RPM ");
            proof {
                assert(final(b)@ =~= old(b)@ + fan_piece(f));
            }
        },
        None => {
            b.append("  ____RPM ");
        },
    }
}

fn push_ecc(b: &mut String, e: &Option<MemoryErrorCount>)
    ensures
        final(b)@ == old(b)@ + ecc_piece(*e),
{
    match e {
        Some(c) => {
            b.append("[");
            push_dec_pad_left(b, c.uncorrected, ECC_LEN);
            b.append("] ");
            proof {
                assert(final(b)@ =~= old(b)@ + ecc_piece(*e));
            }
        },
        None => {
            b.append("[");
            push_pad_left(b, "N/A", ECC_LEN);
            b.append("] ");
            proof {
                assert(final(b)@ =~= old(b)@ + ecc_piece(*e));
            }
        },
    }
}

fn push_thr(b: &mut String, t: &Option<String>)
    ensures
        final(b)@ == old(b)@ + thr_piece(
            match *t {
                Some(s) => Some(s@),
                None => None,
            },
        ),
{
    match t {
        Some(s) => {
            let mut cell = String::new();
            push_truncated(&mut cell, s.as_str(), THR_LEN);
            push_pad_right(b, cell.as_str(), THR_LEN);
            b.append("|");
            proof {
                assert(cell@ =~= truncated(s@, THR_LEN as nat));
                assert(final(b)@ =~= old(b)@ + thr_piece(Some(s@)));
            }
        },
        None => {
            push_pad_right(b, "N/A", THR_LEN);
            b.append("|");
            proof {
                assert(final(b)@ =~= old(b)@ + thr_piece(None::<Seq<char>>));
            }
        },
    }
}

fn push_smi_line1(b: &mut String, index: usize, name: &str, gfx_ver: &str, pci: &str, vu: u64, vt: u64)
    ensures
        final(b)@ == old(b)@ + smi_line1(index as nat, name@, gfx_ver@, pci@, vu as nat, vt as nat),
{
    b.append("#");
    push_dec_pad_right(b, index as u64, 2);
    b.append(" [");
    let mut cell = String::new();
    push_truncated(&mut cell, name, GPU_NAME_LEN);
    push_pad_right(b, cell.as_str(), GPU_NAME_LEN);
    b.append("](");
    push_pad_left(b, gfx_ver, 7);
    b.append(")| ");
    b.append(pci);
    b.append("   |");
    push_dec_pad_left(b, vu, 6);
    b.append("/");
    push_dec_pad_left(b, vt, 6);
    b.append(" MiB |\n");
    proof {
        assert(cell@ =~= truncated(name@, GPU_NAME_LEN as nat));
        assert(final(b)@ =~= old(b)@ + smi_line1(
            index as nat,
            name@,
            gfx_ver@,
            pci@,
            vu as nat,
            vt as nat,
        ));
    }
}

fn push_gtt_tail(b: &mut String, gu: u64, gt: u64)
    ensures
        final(b)@ == old(b)@ + gtt_tail(gu as nat, gt as nat),
{
    b.append(" |");
    push_dec_pad_left(b, gu, 6);
    b.append("/");
    push_dec_pad_left(b, gt, 6);
    b.append(" MiB |\n");
    proof {
        assert(final(b)@ =~= old(b)@ + gtt_tail(gu as nat, gt as nat));
    }
}

/// One device's compact-view session: its application state, its place in
/// the listing, the last known graphics-off status, and its two slots.
pub struct SmiApp {
    pub app_amdgpu_top: AppAmdgpuTop,
    pub index: usize,
    /// Last probed graphics-off status; absent until first probed or when
    /// the device exposes none.
    pub gfxoff: Option<GfxoffStatus>,
    pub fdinfo_view: AppTextView,
    pub info_text: Text,
}

impl SmiApp {
    /// Wraps a freshly acquired device. Both slots start empty; the
    /// graphics-off status is unknown until the first tick probes it.
    pub fn new(app_amdgpu_top: AppAmdgpuTop, index: usize) -> (r: Option<Self>)
        ensures
            r matches Some(a) && a.app_amdgpu_top == app_amdgpu_top && a.index == index
                && a.gfxoff is None && a.info_text.buf@ == Seq::<char>::empty()
                && a.info_text.spec_published() == Seq::<char>::empty()
                && a.fdinfo_view.text.buf@ == Seq::<char>::empty()
                && a.fdinfo_view.text.spec_published() == Seq::<char>::empty(),
    {
        Some(
            SmiApp {
                app_amdgpu_top,
                index,
                gfxoff: None,
                fdinfo_view: AppTextView::new(),
                info_text: Text::new(),
            },
        )
    }

    /// The fixed column header above the per-device info blocks.
    pub fn info_header() -> (r: String)
        ensures
            r@ == smi_header(),
    {
        let mut s = String::new();
        s.append("GPU Name                      ");
        s.append("          |");
        s.append(" PCI Bus        |");
        s.append("    VRAM Usage    |\n");
        s.append("SCLK    MCLK    VDDGFX  Power           | GFX% UMC%Media%|");
        s.append("     GTT Usage    |\n");
        s.append("Temp    Fan     ECC_UnCorr. ");
        s.append("Throttle_Status                                 |");
        proof {
            assert(s@ =~= smi_header());
        }
        s
    }

    /// The key of the device this session belongs to.
    pub open spec fn key(&self) -> u64 {
        self.app_amdgpu_top.device_path.pci
    }

    /// Restages and commits the three-line info block from the current
    /// sample. Absent fields show their fixed placeholders.
    pub fn update_info_text(&mut self)
        ensures
            final(self).info_text.buf@ == smi_info_text_spec(
                old(self).index as nat,
                old(self).app_amdgpu_top.device_info,
                old(self).app_amdgpu_top.stat,
                old(self).gfxoff,
            ),
            final(self).info_text.spec_published() == final(self).info_text.buf@,
            *final(self) == (SmiApp { info_text: final(self).info_text, ..*old(self) }),
    {
        self.info_text.clear();
        let info = &self.app_amdgpu_top.device_info;
        let stat = &self.app_amdgpu_top.stat;
        let gfx_ver: &str = match &info.gfx_target_version {
            Some(v) => v.as_str(),
            None => "",
        };
        proof {
            reveal_strlit("");
            assert(gfx_ver@ == gfx_ver_of(*info));
        }
        let sensors = &stat.sensors;
        let sclk: Option<u64> = match sensors {
            Some(se) => se.sclk,
            None => None,
        };
        let mclk: Option<u64> = match sensors {
            Some(se) => se.mclk,
            None => None,
        };
        let vddgfx: Option<u64> = match sensors {
            Some(se) => se.vddgfx,
            None => None,
        };
        let power: Option<u64> = match sensors {
            Some(se) => se.power,
            None => None,
        };
        let power_cap: Option<u64> = match sensors {
            Some(se) => se.power_cap,
            None => None,
        };
        let edge_temp: Option<u64> = match sensors {
            Some(se) => se.edge_temp,
            None => None,
        };
        let fan_rpm: Option<u64> = match sensors {
            Some(se) => se.fan_rpm,
            None => None,
        };
        let b = &mut self.info_text.buf;
        push_smi_line1(
            b,
            self.index,
            info.marketing_name.as_str(),
            gfx_ver,
            info.pci_bus.as_str(),
            stat.vram_usage.vram.heap_usage >> 20u64,
            stat.vram_usage.vram.total_heap_size >> 20u64,
        );
        proof {
            assert(Seq::<char>::empty() + smi_line1(
                self.index as nat,
                info.marketing_name@,
                gfx_ver_of(*info),
                info.pci_bus@,
                (stat.vram_usage.vram.heap_usage >> 20) as nat,
                (stat.vram_usage.vram.total_heap_size >> 20) as nat,
            ) =~= smi_line1(
                self.index as nat,
                info.marketing_name@,
                gfx_ver_of(*info),
                info.pci_bus@,
                (stat.vram_usage.vram.heap_usage >> 20) as nat,
                (stat.vram_usage.vram.total_heap_size >> 20) as nat,
            ));
        }
        push_clk(b, sclk);
        push_clk(b, mclk);
        push_volt(b, vddgfx);
        push_power(b, power, power_cap);
        push_gfxoff(b, self.gfxoff);
        push_usage(b, stat.activity.gfx);
        push_usage(b, stat.activity.umc);
        push_usage(b, stat.activity.media);
        push_gtt_tail(
            b,
            stat.vram_usage.gtt.heap_usage >> 20u64,
            stat.vram_usage.gtt.total_heap_size >> 20u64,
        );
        push_temp(b, edge_temp);
        push_fan(b, fan_rpm);
        push_ecc(b, &stat.memory_error_count);
        let thr: Option<String> = match &stat.metrics {
            Some(m) => match &m.throttle_status {
                Some(t) => Some(t.clone()),
                None => None,
            },
            None => None,
        };
        push_thr(b, &thr);
        self.info_text.set();
    }

    /// One tick's refresh of this session: fold the fresh sample and
    /// graphics-off probe in, restage and commit the process panel and the
    /// info block.
    pub fn update(&mut self, stat: AppAmdgpuTopStat, gfxoff: Option<GfxoffStatus>)
        ensures
            final(self).app_amdgpu_top.stat == stat,
            final(self).gfxoff == gfxoff,
            final(self).index == old(self).index,
            final(self).app_amdgpu_top.device_path == old(self).app_amdgpu_top.device_path,
            final(self).app_amdgpu_top.device_info == old(self).app_amdgpu_top.device_info,
            final(self).fdinfo_view.text.spec_published() == crate::text::fdinfo_text(
                stat.fdinfo@.map_values(|r: String| r@),
                false,
            ),
            final(self).info_text.spec_published() == smi_info_text_spec(
                old(self).index as nat,
                old(self).app_amdgpu_top.device_info,
                stat,
                gfxoff,
            ),
    {
        self.app_amdgpu_top.update(stat);
        self.gfxoff = gfxoff;
        self.fdinfo_view.print_fdinfo(&self.app_amdgpu_top.stat.fdinfo, false);
        self.update_info_text();
        self.fdinfo_view.text.set();
    }

    /// The title of this session's process panel.
    pub fn fdinfo_panel(&self) -> (r: String)
        ensures
            r@ == crate::device::label_line(
                self.index as nat,
                self.app_amdgpu_top.device_info.marketing_name@,
            ),
    {
        crate::device::label_string(self.index, self.app_amdgpu_top.device_info.marketing_name.as_str())
    }

    /// The committed info block, as the renderer composes it.
    pub fn info_text(&self) -> (r: &String)
        ensures
            r@ == self.info_text.spec_published(),
    {
        self.info_text.published()
    }
}

/// The header text: column names for name, bus, memory, clocks, power,
/// activity, temperature, fan, errors and throttle status.
pub open spec fn smi_header() -> Seq<char> {
    "GPU Name                      "@ + "          |"@ + " PCI Bus        |"@
        + "    VRAM Usage    |\n"@
        + "SCLK    MCLK    VDDGFX  Power           | GFX% UMC%Media%|"@
        + "     GTT Usage    |\n"@ + "Temp    Fan     ECC_UnCorr. "@
        + "Throttle_Status                                 |"@
}

/// The committed one-line block of a suspended device: identity fields and
/// the `Suspended` marker.
pub open spec fn suspended_line(index: nat, path: DevicePath) -> Seq<char> {
    "#"@ + pad_right(dec_str(index), 2) + " ["@ + pad_right(path.device_name@, 20) + " ("@ + "0x"@
        + crate::fmt::hex_str(path.device_id as nat) + ":"@ + "0x"@ + crate::fmt::hex_str(
        path.revision_id as nat,
    ) + ")]| "@ + path.pci_bus@ + "   | Suspended\n"@
}

/// A suspended device's session: identity, its place in the listing, and
/// its two slots. Its info slot holds the committed `Suspended` line until
/// a promotion's first sample overwrites it.
pub struct SuspendedApp {
    pub device_path: DevicePath,
    pub index: usize,
    pub fdinfo_view: AppTextView,
    pub info_text: Text,
}

impl SuspendedApp {
    /// A fresh suspended session, its `Suspended` line already committed.
    pub fn new(device_path: DevicePath, index: usize) -> (r: Self)
        ensures
            r.device_path == device_path,
            r.index == index,
            r.info_text.buf@ == suspended_line(index as nat, device_path),
            r.info_text.spec_published() == suspended_line(index as nat, device_path),
            r.fdinfo_view.text.buf@ == Seq::<char>::empty(),
            r.fdinfo_view.text.spec_published() == Seq::<char>::empty(),
    {
        let mut info_text = Text::new();
        let b = &mut info_text.buf;
        b.append("#");
        push_dec_pad_right(b, index as u64, 2);
        b.append(" [");
        push_pad_right(b, device_path.device_name.as_str(), 20);
        b.append(" (");
        crate::fmt::push_hex_prefixed(b, device_path.device_id, 0);
        b.append(":");
        crate::fmt::push_hex_prefixed(b, device_path.revision_id, 0);
        b.append(")]| ");
        b.append(device_path.pci_bus.as_str());
        b.append("   | Suspended\n");
        proof {
            assert(b@ =~= suspended_line(index as nat, device_path));
        }
        info_text.set();
        SuspendedApp { device_path, index, fdinfo_view: AppTextView::new(), info_text }
    }

    /// The key of the device this session belongs to.
    pub open spec fn key(&self) -> u64 {
        self.device_path.pci
    }

    /// The committed info line, as the renderer composes it.
    pub fn info_text(&self) -> (r: &String)
        ensures
            r@ == self.info_text.spec_published(),
    {
        self.info_text.published()
    }

    /// The title of this session's process panel.
    pub fn fdinfo_panel(&self) -> (r: String)
        ensures
            r@ == crate::device::label_line(self.index as nat, self.device_path.device_name@),
    {
        crate::device::label_string(self.index, self.device_path.device_name.as_str())
    }

    /// Attempts promotion. The probe's outcome is handed in: an acquired
    /// device on success, nothing when the device is still unreachable.
    /// On success the new Active session keeps this session's index and
    /// both slots, published content included, so the `Suspended` line
    /// stays on screen until the first sample overwrites it. On failure
    /// the session stays suspended; that is a normal steady state, not an
    /// error.
    pub fn to_smi_app(&self, acquired: Option<DeviceData>) -> (r: Option<SmiApp>)
        ensures
            r is Some <==> acquired is Some,
            acquired matches Some(data) ==> r matches Some(app) && promoted_like(
                *self,
                data,
                app,
            ),
    {
        match acquired {
            Some(data) => {
                let app_amdgpu_top = AppAmdgpuTop::new(
                    data,
                    self.device_path.duplicate(),
                    &AppOption::default(),
                );
                Some(
                    SmiApp {
                        app_amdgpu_top,
                        index: self.index,
                        gfxoff: None,
                        fdinfo_view: self.fdinfo_view.duplicate(),
                        info_text: self.info_text.duplicate(),
                    },
                )
            },
            None => None,
        }
    }
}

/// How a just-promoted Active session relates to the suspended session it
/// came from and the acquired device data: same key and index, the data's
/// static information and first sample (without a bandwidth cell), and
/// both slots carried over unchanged.
pub open spec fn promoted_like(sus: SuspendedApp, data: DeviceData, app: SmiApp) -> bool {
    &&& app.key() == sus.key()
    &&& app.app_amdgpu_top.device_path.device_name@ == sus.device_path.device_name@
    &&& app.app_amdgpu_top.device_path.pci_bus@ == sus.device_path.pci_bus@
    &&& app.index == sus.index
    &&& app.gfxoff is None
    &&& app.app_amdgpu_top.device_info == data.device_info
    &&& app.app_amdgpu_top.stat == (AppAmdgpuTopStat { arc_pcie_bw: None, ..data.stat })
    &&& app.app_amdgpu_top.sample_cursor == 0
    &&& app.info_text.buf@ == sus.info_text.buf@
    &&& app.info_text.spec_published() == sus.info_text.spec_published()
    &&& app.fdinfo_view.text.buf@ == sus.fdinfo_view.text.buf@
    &&& app.fdinfo_view.text.spec_published() == sus.fdinfo_view.text.spec_published()
}

/// The devices of the partition input whose handle acquisition succeeded,
/// with their data, in input order.
pub open spec fn some_entries(devs: Seq<(DevicePath, Option<DeviceData>)>) -> Seq<
    (DevicePath, DeviceData),
>
    decreases devs.len(),
{
    if devs.len() == 0 {
        Seq::empty()
    } else {
        let rest = some_entries(devs.drop_last());
        match devs.last().1 {
            Some(d) => rest.push((devs.last().0, d)),
            None => rest,
        }
    }
}

/// The devices of the partition input whose handle acquisition failed, in
/// input order.
pub open spec fn none_entries(devs: Seq<(DevicePath, Option<DeviceData>)>) -> Seq<DevicePath>
    decreases devs.len(),
{
    if devs.len() == 0 {
        Seq::empty()
    } else {
        let rest = none_entries(devs.drop_last());
        match devs.last().1 {
            Some(_) => rest,
            None => rest.push(devs.last().0),
        }
    }
}

/// Whether some input device carries the key `k`.
pub open spec fn devs_has_key(devs: Seq<(DevicePath, Option<DeviceData>)>, k: u64) -> bool {
    exists|j: int| 0 <= j < devs.len() && devs[j].0.pci == k
}

/// Together the two partitions cover the input.
pub proof fn lemma_entries_len(devs: Seq<(DevicePath, Option<DeviceData>)>)
    ensures
        some_entries(devs).len() + none_entries(devs).len() == devs.len(),
    decreases devs.len(),
{
    if devs.len() > 0 {
        lemma_entries_len(devs.drop_last());
    }
}

/// Every partitioned entry's key comes from the input.
pub proof fn lemma_entries_key_sub(devs: Seq<(DevicePath, Option<DeviceData>)>)
    ensures
        forall|i: int|
            0 <= i < some_entries(devs).len() ==> devs_has_key(
                devs,
                #[trigger] some_entries(devs)[i].0.pci,
            ),
        forall|i: int|
            0 <= i < none_entries(devs).len() ==> devs_has_key(
                devs,
                #[trigger] none_entries(devs)[i].pci,
            ),
    decreases devs.len(),
{
    if devs.len() > 0 {
        let rest = devs.drop_last();
        lemma_entries_key_sub(rest);
        assert forall|i: int| 0 <= i < some_entries(devs).len() implies devs_has_key(
            devs,
            #[trigger] some_entries(devs)[i].0.pci,
        ) by {
            if i < some_entries(rest).len() {
                assert(some_entries(devs)[i] == some_entries(rest)[i]);
                let j = choose|j: int| 0 <= j < rest.len() && rest[j].0.pci == some_entries(
                    rest,
                )[i].0.pci;
                assert(devs[j].0.pci == some_entries(devs)[i].0.pci);
            } else {
                assert(some_entries(devs)[i].0 == devs.last().0);
                assert(devs[devs.len() - 1].0.pci == some_entries(devs)[i].0.pci);
            }
        }
        assert forall|i: int| 0 <= i < none_entries(devs).len() implies devs_has_key(
            devs,
            #[trigger] none_entries(devs)[i].pci,
        ) by {
            if i < none_entries(rest).len() {
                assert(none_entries(devs)[i] == none_entries(rest)[i]);
                let j = choose|j: int| 0 <= j < rest.len() && rest[j].0.pci == none_entries(
                    rest,
                )[i].pci;
                assert(devs[j].0.pci == none_entries(devs)[i].pci);
            } else {
                assert(none_entries(devs)[i] == devs.last().0);
                assert(devs[devs.len() - 1].0.pci == none_entries(devs)[i].pci);
            }
        }
    }
}

/// Distinct input keys partition into pairwise distinct, mutually disjoint
/// key sets.
pub proof fn lemma_entries_distinct(devs: Seq<(DevicePath, Option<DeviceData>)>)
    requires
        forall|i: int, j: int|
            0 <= i < j < devs.len() ==> #[trigger] devs[i].0.pci != #[trigger] devs[j].0.pci,
    ensures
        forall|i: int, j: int|
            0 <= i < j < some_entries(devs).len() ==> #[trigger] some_entries(devs)[i].0.pci
                != #[trigger] some_entries(devs)[j].0.pci,
        forall|i: int, j: int|
            0 <= i < j < none_entries(devs).len() ==> #[trigger] none_entries(devs)[i].pci
                != #[trigger] none_entries(devs)[j].pci,
        forall|i: int, j: int|
            0 <= i < some_entries(devs).len() && 0 <= j < none_entries(devs).len()
                ==> #[trigger] some_entries(devs)[i].0.pci != #[trigger] none_entries(devs)[j].pci,
    decreases devs.len(),
{
    if devs.len() > 0 {
        let rest = devs.drop_last();
        lemma_entries_distinct(rest);
        lemma_entries_key_sub(rest);
        let s = some_entries(devs);
        let n = none_entries(devs);
        let srest = some_entries(rest);
        let nrest = none_entries(rest);
        assert forall|t: int| 0 <= t < srest.len() implies devs.last().0.pci
            != #[trigger] srest[t].0.pci by {
            let j = choose|j: int| 0 <= j < rest.len() && rest[j].0.pci == srest[t].0.pci;
            assert(devs[j].0.pci != devs[devs.len() - 1].0.pci);
        }
        assert forall|t: int| 0 <= t < nrest.len() implies devs.last().0.pci
            != #[trigger] nrest[t].pci by {
            let j = choose|j: int| 0 <= j < rest.len() && rest[j].0.pci == nrest[t].pci;
            assert(devs[j].0.pci != devs[devs.len() - 1].0.pci);
        }
        assert forall|i: int, j: int| 0 <= i < j < s.len() implies #[trigger] s[i].0.pci
            != #[trigger] s[j].0.pci by {
            assert(s[i] == srest[i]);
            if j < srest.len() {
                assert(s[j] == srest[j]);
            } else {
                assert(s[j].0 == devs.last().0);
            }
        }
        assert forall|i: int, j: int| 0 <= i < j < n.len() implies #[trigger] n[i].pci
            != #[trigger] n[j].pci by {
            assert(n[i] == nrest[i]);
            if j < nrest.len() {
                assert(n[j] == nrest[j]);
            } else {
                assert(n[j] == devs.last().0);
            }
        }
        assert forall|i: int, j: int|
            0 <= i < s.len() && 0 <= j < n.len() implies #[trigger] s[i].0.pci
            != #[trigger] n[j].pci by {
            if i < srest.len() {
                assert(s[i] == srest[i]);
                if j < nrest.len() {
                    assert(n[j] == nrest[j]);
                } else {
                    assert(n[j] == devs.last().0);
                }
            } else {
                assert(s[i].0 == devs.last().0);
                assert(n[j] == nrest[j]);
            }
        }
    }
}

/// The suspended sessions kept once the removal queue is applied: those
/// whose key is not queued, in order.
pub open spec fn retained(sus: Seq<SuspendedApp>, removal: Seq<u64>) -> Seq<SuspendedApp>
    decreases sus.len(),
{
    if sus.len() == 0 {
        Seq::empty()
    } else {
        let rest = retained(sus.drop_last(), removal);
        if removal.contains(sus.last().device_path.pci) {
            rest
        } else {
            rest.push(sus.last())
        }
    }
}

/// Every retained session is one of the originals, in particular its key
/// is one of the pool's; and none is queued for removal.
pub proof fn lemma_retained_sub(sus: Seq<SuspendedApp>, removal: Seq<u64>)
    ensures
        forall|i: int|
            0 <= i < retained(sus, removal).len() ==> exists|j: int|
                0 <= j < sus.len() && #[trigger] retained(sus, removal)[i] == sus[j],
        forall|i: int|
            0 <= i < retained(sus, removal).len() ==> !removal.contains(
                #[trigger] retained(sus, removal)[i].device_path.pci,
            ),
    decreases sus.len(),
{
    if sus.len() > 0 {
        let rest = retained(sus.drop_last(), removal);
        lemma_retained_sub(sus.drop_last(), removal);
        assert forall|i: int| 0 <= i < retained(sus, removal).len() implies exists|j: int|
            0 <= j < sus.len() && #[trigger] retained(sus, removal)[i] == sus[j] by {
            if i < rest.len() {
                let j = choose|j: int|
                    0 <= j < sus.drop_last().len() && rest[i] == sus.drop_last()[j];
                assert(retained(sus, removal)[i] == sus[j]);
            } else {
                assert(retained(sus, removal)[i] == sus[sus.len() - 1]);
            }
        }
    }
}

/// The sessions promoted in one pass: each suspended session whose probe
/// acquired a device, paired with that device's data, in pool order.
pub open spec fn promoted_entries(sus: Seq<SuspendedApp>, probes: Seq<Option<DeviceData>>) -> Seq<
    (SuspendedApp, DeviceData),
>
    decreases sus.len(),
{
    if sus.len() == 0 || probes.len() < sus.len() {
        Seq::empty()
    } else {
        let rest = promoted_entries(sus.drop_last(), probes.drop_last());
        match probes.last() {
            Some(d) => rest.push((sus.last(), d)),
            None => rest,
        }
    }
}

/// The keys of the promoted sessions, in promotion order.
pub open spec fn promoted_keys(sus: Seq<SuspendedApp>, probes: Seq<Option<DeviceData>>) -> Seq<
    u64,
> {
    promoted_entries(sus, probes).map_values(|e: (SuspendedApp, DeviceData)| e.0.device_path.pci)
}

/// Every promoted session is one of the pool's, so promotion only ever
/// targets members of the suspended pool.
pub proof fn lemma_promoted_sub(sus: Seq<SuspendedApp>, probes: Seq<Option<DeviceData>>)
    requires
        sus.len() == probes.len(),
    ensures
        forall|i: int|
            0 <= i < promoted_entries(sus, probes).len() ==> exists|j: int|
                0 <= j < sus.len() && #[trigger] promoted_entries(sus, probes)[i].0 == sus[j],
    decreases sus.len(),
{
    if sus.len() > 0 {
        let rest = promoted_entries(sus.drop_last(), probes.drop_last());
        lemma_promoted_sub(sus.drop_last(), probes.drop_last());
        assert forall|i: int| 0 <= i < promoted_entries(sus, probes).len() implies exists|j: int|
            0 <= j < sus.len() && #[trigger] promoted_entries(sus, probes)[i].0 == sus[j] by {
            if i < rest.len() {
                let j = choose|j: int|
                    0 <= j < sus.drop_last().len() && rest[i].0 == sus.drop_last()[j];
                assert(promoted_entries(sus, probes)[i].0 == sus[j]);
            } else {
                assert(promoted_entries(sus, probes)[i].0 == sus[sus.len() - 1]);
            }
        }
    }
}

/// Suspended sessions whose keys remain pairwise distinct stay pairwise
/// distinct after the removal queue is applied.
pub proof fn lemma_retained_distinct(sus: Seq<SuspendedApp>, removal: Seq<u64>)
    requires
        forall|i: int, j: int|
            0 <= i < j < sus.len() ==> #[trigger] sus[i].device_path.pci
                != #[trigger] sus[j].device_path.pci,
    ensures
        forall|i: int, j: int|
            0 <= i < j < retained(sus, removal).len() ==> #[trigger] retained(
                sus,
                removal,
            )[i].device_path.pci != #[trigger] retained(sus, removal)[j].device_path.pci,
    decreases sus.len(),
{
    if sus.len() > 0 {
        let rest = retained(sus.drop_last(), removal);
        lemma_retained_distinct(sus.drop_last(), removal);
        lemma_retained_sub(sus.drop_last(), removal);
        assert forall|t: int| 0 <= t < rest.len() implies sus.last().device_path.pci
            != #[trigger] rest[t].device_path.pci by {
            let j = choose|j: int| 0 <= j < sus.drop_last().len() && rest[t] == sus.drop_last()[j];
            assert(sus[j].device_path.pci != sus[sus.len() - 1].device_path.pci);
        }
        assert forall|i: int, j: int|
            0 <= i < j < retained(sus, removal).len() implies #[trigger] retained(
            sus,
            removal,
        )[i].device_path.pci != #[trigger] retained(sus, removal)[j].device_path.pci by {
            assert(retained(sus, removal)[i] == rest[i]);
            if j < rest.len() {
                assert(retained(sus, removal)[j] == rest[j]);
            } else {
                assert(retained(sus, removal)[j] == sus.last());
            }
        }
    }
}

/// Promotions out of a pool with pairwise distinct keys carry pairwise
/// distinct keys.
pub proof fn lemma_promoted_distinct(sus: Seq<SuspendedApp>, probes: Seq<Option<DeviceData>>)
    requires
        sus.len() == probes.len(),
        forall|i: int, j: int|
            0 <= i < j < sus.len() ==> #[trigger] sus[i].device_path.pci
                != #[trigger] sus[j].device_path.pci,
    ensures
        forall|i: int, j: int|
            0 <= i < j < promoted_entries(sus, probes).len() ==> #[trigger] promoted_entries(
                sus,
                probes,
            )[i].0.device_path.pci != #[trigger] promoted_entries(sus, probes)[j].0.device_path.pci,
    decreases sus.len(),
{
    if sus.len() > 0 {
        let rest = promoted_entries(sus.drop_last(), probes.drop_last());
        lemma_promoted_distinct(sus.drop_last(), probes.drop_last());
        lemma_promoted_sub(sus.drop_last(), probes.drop_last());
        assert forall|t: int| 0 <= t < rest.len() implies sus.last().device_path.pci
            != #[trigger] rest[t].0.device_path.pci by {
            let j = choose|j: int|
                0 <= j < sus.drop_last().len() && rest[t].0 == sus.drop_last()[j];
            assert(sus[j].device_path.pci != sus[sus.len() - 1].device_path.pci);
        }
        assert forall|i: int, j: int|
            0 <= i < j < promoted_entries(sus, probes).len() implies #[trigger] promoted_entries(
            sus,
            probes,
        )[i].0.device_path.pci != #[trigger] promoted_entries(
            sus,
            probes,
        )[j].0.device_path.pci by {
            assert(promoted_entries(sus, probes)[i] == rest[i]);
            if j < rest.len() {
                assert(promoted_entries(sus, probes)[j] == rest[j]);
            } else {
                assert(promoted_entries(sus, probes)[j].0 == sus.last());
            }
        }
    }
}

/// Whether some Active session carries the key `k`.
pub open spec fn app_has(apps: Seq<SmiApp>, k: u64) -> bool {
    exists|i: int| 0 <= i < apps.len() && apps[i].key() == k
}

/// Whether some Suspended session carries the key `k`.
pub open spec fn sus_has(sus: Seq<SuspendedApp>, k: u64) -> bool {
    exists|i: int| 0 <= i < sus.len() && sus[i].key() == k
}

/// How a refreshed Active session relates to its pre-tick self and the
/// tick's sample: identity kept, the sample adopted, both slots restaged
/// from it and committed.
pub open spec fn refreshed_like(
    pre: SmiApp,
    stat: AppAmdgpuTopStat,
    gfxoff: Option<GfxoffStatus>,
    post: SmiApp,
) -> bool {
    &&& post.index == pre.index
    &&& post.app_amdgpu_top.device_path == pre.app_amdgpu_top.device_path
    &&& post.app_amdgpu_top.device_info == pre.app_amdgpu_top.device_info
    &&& post.app_amdgpu_top.stat == stat
    &&& post.gfxoff == gfxoff
    &&& post.fdinfo_view.text.spec_published() == crate::text::fdinfo_text(
        stat.fdinfo@.map_values(|r: String| r@),
        false,
    )
    &&& post.info_text.spec_published() == smi_info_text_spec(
        pre.index as nat,
        pre.app_amdgpu_top.device_info,
        stat,
        gfxoff,
    )
}

/// Whether `keys` holds `k`; the removal queue's membership test.
fn contains_key(keys: &Vec<u64>, k: u64) -> (r: bool)
    ensures
        r == keys@.contains(k),
{
    let mut i: usize = 0;
    while i < keys.len()
        invariant
            i <= keys@.len(),
            forall|t: int| 0 <= t < i ==> keys@[t] != k,
        decreases keys@.len() - i,
    {
        if keys[i] == k {
            return true;
        }
        i = i + 1;
    }
    false
}

/// The compact view's whole session state: the Active pool, the Suspended
/// pool (probed in stable insertion order), the removal queue of keys
/// promoted during the current tick, and the count of frame-ready signals
/// posted to the renderer.
///
/// The one allowed transition is Suspended to Active. Deliberately, there
/// is no demotion path: an Active session whose device stops responding
/// keeps its last state and simply stops refreshing.
pub struct SmiState {
    pub vec_app: Vec<SmiApp>,
    pub sus_app: Vec<SuspendedApp>,
    pub remove_sus_devices: Vec<u64>,
    pub frames: u64,
}

impl SmiState {
    /// The pool partition invariant, checked at every tick boundary: keys
    /// are pairwise distinct within each pool; a key in both pools is
    /// exactly one mid-promotion, queued for removal; and every queued key
    /// already has its Active session.
    pub open spec fn wf(&self) -> bool {
        &&& forall|i: int, j: int|
            0 <= i < j < self.vec_app@.len() ==> #[trigger] self.vec_app@[i].key()
                != #[trigger] self.vec_app@[j].key()
        &&& forall|i: int, j: int|
            0 <= i < j < self.sus_app@.len() ==> #[trigger] self.sus_app@[i].key()
                != #[trigger] self.sus_app@[j].key()
        &&& forall|i: int, j: int|
            0 <= i < self.vec_app@.len() && 0 <= j < self.sus_app@.len()
                && #[trigger] self.vec_app@[i].key() == #[trigger] self.sus_app@[j].key()
                ==> self.remove_sus_devices@.contains(self.vec_app@[i].key())
        &&& forall|k: u64|
            self.remove_sus_devices@.contains(k) ==> app_has(self.vec_app@, k)
    }

    /// The key belongs to some Active session.
    pub open spec fn active_has(&self, k: u64) -> bool {
        app_has(self.vec_app@, k)
    }

    /// The key belongs to a Suspended session whose promotion is not
    /// pending: the pool an outside observer sees as Suspended.
    pub open spec fn live_suspended_has(&self, k: u64) -> bool {
        sus_has(self.sus_app@, k) && !self.remove_sus_devices@.contains(k)
    }

    /// The key belongs to some tracked device.
    pub open spec fn known_key(&self, k: u64) -> bool {
        app_has(self.vec_app@, k) || sus_has(self.sus_app@, k)
    }
}

/// A device key is a member of exactly one pool: no key is both Active and
/// (live) Suspended, and every tracked key is one of the two. A session
/// mid-promotion counts as Active, its leftover Suspended entry being
/// queued for removal.
pub proof fn lemma_pool_partition(s: SmiState, k: u64)
    requires
        s.wf(),
    ensures
        !(s.active_has(k) && s.live_suspended_has(k)),
        s.known_key(k) ==> (s.active_has(k) || s.live_suspended_has(k)),
{
    if s.active_has(k) && s.live_suspended_has(k) {
        let i = choose|i: int| 0 <= i < s.vec_app@.len() && s.vec_app@[i].key() == k;
        let j = choose|j: int| 0 <= j < s.sus_app@.len() && s.sus_app@[j].key() == k;
        assert(s.remove_sus_devices@.contains(s.vec_app@[i].key()));
    }
    if s.known_key(k) && !s.active_has(k) {
        if s.remove_sus_devices@.contains(k) {
            assert(app_has(s.vec_app@, k));
        }
    }
}

impl SmiState {
    /// Partitions the discovered devices: each with an acquired handle
    /// becomes an Active session, the rest become Suspended sessions, in
    /// input order, with Active sessions indexed first.
    pub fn new(devices: Vec<(DevicePath, Option<DeviceData>)>) -> (r: Self)
        requires
            forall|i: int, j: int|
                0 <= i < j < devices@.len() ==> #[trigger] devices@[i].0.pci
                    != #[trigger] devices@[j].0.pci,
        ensures
            r.wf(),
            r.vec_app@.len() == some_entries(devices@).len(),
            r.sus_app@.len() == none_entries(devices@).len(),
            forall|i: int|
                0 <= i < r.vec_app@.len() ==> promoted_like(
                    SuspendedApp {
                        device_path: some_entries(devices@)[i].0,
                        index: i as usize,
                        fdinfo_view: #[trigger] r.vec_app@[i].fdinfo_view,
                        info_text: r.vec_app@[i].info_text,
                    },
                    some_entries(devices@)[i].1,
                    r.vec_app@[i],
                ),
            forall|i: int|
                0 <= i < r.vec_app@.len() ==> (#[trigger] r.vec_app@[i]).index == i
                    && r.vec_app@[i].app_amdgpu_top.device_path == some_entries(devices@)[i].0
                    && r.vec_app@[i].app_amdgpu_top.device_info == some_entries(
                    devices@,
                )[i].1.device_info && r.vec_app@[i].app_amdgpu_top.stat == (AppAmdgpuTopStat {
                    arc_pcie_bw: None,
                    ..some_entries(devices@)[i].1.stat
                }) && r.vec_app@[i].info_text.spec_published() == Seq::<char>::empty(),
            forall|j: int|
                0 <= j < r.sus_app@.len() ==> (#[trigger] r.sus_app@[j]).device_path
                    == none_entries(devices@)[j] && r.sus_app@[j].index == some_entries(
                    devices@,
                ).len() + j && r.sus_app@[j].info_text.spec_published() == suspended_line(
                    (some_entries(devices@).len() + j) as nat,
                    none_entries(devices@)[j],
                ),
            r.remove_sus_devices@ == Seq::<u64>::empty(),
            r.frames == 0,
    {
        let ghost devs = devices@;
        let total = devices.len();
        let mut devices = devices;
        let mut actives: Vec<(DevicePath, DeviceData)> = Vec::new();
        let mut sus_paths: Vec<DevicePath> = Vec::new();
        let ghost mut seen: int = 0;
        while devices.len() > 0
            invariant
                0 <= seen <= devs.len(),
                devices@ == devs.skip(seen),
                total == devs.len(),
                actives@ == some_entries(devs.take(seen)),
                sus_paths@ == none_entries(devs.take(seen)),
                forall|i: int, j: int|
                    0 <= i < j < devs.len() ==> #[trigger] devs[i].0.pci != #[trigger] devs[j].0.pci,
            decreases devices@.len(),
        {
            let e = devices.remove(0);
            proof {
                assert(devs.skip(seen).remove(0) =~= devs.skip(seen + 1));
                assert(devs.skip(seen)[0] == devs[seen]);
                assert(devs.take(seen + 1).drop_last() =~= devs.take(seen));
                assert(devs.take(seen + 1).last() == devs[seen]);
            }
            match e.1 {
                Some(d) => {
                    actives.push((e.0, d));
                },
                None => {
                    sus_paths.push(e.0);
                },
            }
            proof {
                seen = seen + 1;
            }
        }
        proof {
            assert(devs.take(seen) =~= devs);
            lemma_entries_distinct(devs);
            lemma_entries_len(devs);
        }

        let mut vec_app: Vec<SmiApp> = Vec::new();
        let ghost some_devs = some_entries(devs);
        let mut i: usize = 0;
        let n_act = actives.len();
        while actives.len() > 0
            invariant
                i <= some_devs.len(),
                some_devs.len() <= usize::MAX,
                actives@ == some_devs.skip(i as int),
                vec_app@.len() == i,
                forall|t: int|
                    0 <= t < i ==> (#[trigger] vec_app@[t]).index == t
                        && vec_app@[t].app_amdgpu_top.device_path == some_devs[t].0
                        && vec_app@[t].app_amdgpu_top.device_info == some_devs[t].1.device_info
                        && vec_app@[t].app_amdgpu_top.stat == (AppAmdgpuTopStat {
                        arc_pcie_bw: None,
                        ..some_devs[t].1.stat
                    }) && vec_app@[t].gfxoff is None && vec_app@[t].app_amdgpu_top.sample_cursor
                        == 0 && vec_app@[t].info_text.buf@ == Seq::<char>::empty()
                        && vec_app@[t].info_text.spec_published() == Seq::<char>::empty()
                        && vec_app@[t].fdinfo_view.text.buf@ == Seq::<char>::empty()
                        && vec_app@[t].fdinfo_view.text.spec_published() == Seq::<char>::empty(),
            decreases actives@.len(),
        {
            let (path, data) = actives.remove(0);
            proof {
                assert(some_devs.skip(i as int).remove(0) =~= some_devs.skip(i + 1));
                assert(some_devs.skip(i as int)[0] == some_devs[i as int]);
            }
            let app = AppAmdgpuTop::new(data, path, &AppOption { pcie_bw: false });
            match SmiApp::new(app, i) {
                Some(sa) => {
                    vec_app.push(sa);
                },
                None => {},
            }
            i = i + 1;
            proof {
                assert(actives@ == some_devs.skip(i as int));
            }
        }
        proof {
            assert(vec_app@.len() == some_devs.len());
        }

        let mut sus_app: Vec<SuspendedApp> = Vec::new();
        let ghost none_devs = none_entries(devs);
        let mut j: usize = 0;
        while sus_paths.len() > 0
            invariant
                j <= none_devs.len(),
                sus_paths@ == none_devs.skip(j as int),
                n_act + none_devs.len() <= usize::MAX,
                j <= none_devs.len(),
                n_act == some_entries(devs).len(),
                n_act + none_devs.len() == devs.len(),
                sus_app@.len() == j,
                forall|t: int|
                    0 <= t < j ==> (#[trigger] sus_app@[t]).device_path == none_devs[t]
                        && sus_app@[t].index == n_act + t && sus_app@[t].info_text.spec_published()
                        == suspended_line((n_act + t) as nat, none_devs[t])
                        && sus_app@[t].info_text.buf@ == suspended_line(
                        (n_act + t) as nat,
                        none_devs[t],
                    ) && sus_app@[t].fdinfo_view.text.spec_published() == Seq::<char>::empty(),
            decreases sus_paths@.len(),
        {
            let path = sus_paths.remove(0);
            proof {
                assert(none_devs.skip(j as int).remove(0) =~= none_devs.skip(j + 1));
                assert(none_devs.skip(j as int)[0] == none_devs[j as int]);
            }
            let sa = SuspendedApp::new(path, n_act + j);
            sus_app.push(sa);
            j = j + 1;
        }

        let r = SmiState { vec_app, sus_app, remove_sus_devices: Vec::new(), frames: 0 };
        proof {
            assert forall|a: int, b: int|
                0 <= a < r.vec_app@.len() && 0 <= b < r.sus_app@.len() implies #[trigger] r.vec_app@[a].key() != #[trigger] r.sus_app@[b].key() by {
                assert(r.vec_app@[a].key() == some_devs[a].0.pci);
                assert(r.sus_app@[b].key() == none_devs[b].pci);
            }
            assert forall|a: int, b: int| 0 <= a < b < r.vec_app@.len() implies #[trigger] r.vec_app@[a].key() != #[trigger] r.vec_app@[b].key() by {
                assert(r.vec_app@[a].key() == some_devs[a].0.pci);
                assert(r.vec_app@[b].key() == some_devs[b].0.pci);
            }
            assert forall|a: int, b: int| 0 <= a < b < r.sus_app@.len() implies #[trigger] r.sus_app@[a].key() != #[trigger] r.sus_app@[b].key() by {
                assert(r.sus_app@[a].key() == none_devs[a].pci);
                assert(r.sus_app@[b].key() == none_devs[b].pci);
            }
        }
        r
    }
}

impl SmiState {
    /// One sampler tick, the single driver of all state mutation. In
    /// order: the previous tick's removal queue is applied to the
    /// Suspended pool; every Active session is refreshed with its sample;
    /// every Suspended session is probed in pool order, and each acquired
    /// one is promoted at once, its key queued for removal; finally a
    /// frame-ready signal is posted. `samples` pairs with the Active pool;
    /// `probes` pairs with the Suspended pool as it stands after the
    /// removals, `None` meaning the device is still unreachable (retried
    /// next tick, silently, indefinitely).
    pub fn tick(
        &mut self,
        samples: Vec<(AppAmdgpuTopStat, Option<GfxoffStatus>)>,
        probes: Vec<Option<DeviceData>>,
    )
        requires
            old(self).wf(),
            samples@.len() == old(self).vec_app@.len(),
            probes@.len() == retained(old(self).sus_app@, old(self).remove_sus_devices@).len(),
            old(self).frames < u64::MAX,
            old(self).vec_app@.len() + probes@.len() <= usize::MAX,
        ensures
            final(self).wf(),
            final(self).sus_app@ == retained(old(self).sus_app@, old(self).remove_sus_devices@),
            final(self).vec_app@.len() == old(self).vec_app@.len() + promoted_entries(
                final(self).sus_app@,
                probes@,
            ).len(),
            forall|i: int|
                0 <= i < old(self).vec_app@.len() ==> refreshed_like(
                    old(self).vec_app@[i],
                    samples@[i].0,
                    samples@[i].1,
                    #[trigger] final(self).vec_app@[i],
                ),
            forall|p: int|
                0 <= p < promoted_entries(final(self).sus_app@, probes@).len() ==> promoted_like(
                    promoted_entries(final(self).sus_app@, probes@)[p].0,
                    promoted_entries(final(self).sus_app@, probes@)[p].1,
                    #[trigger] final(self).vec_app@[old(self).vec_app@.len() + p],
                ),
            final(self).remove_sus_devices@ == promoted_keys(final(self).sus_app@, probes@),
            final(self).frames == old(self).frames + 1,
    {
        let ghost sus0 = self.sus_app@;
        let ghost removal0 = self.remove_sus_devices@;

        // Apply the removal queue collected during the previous tick; the
        // iteration that filled it has completed, so this is safe.
        let mut kept: Vec<SuspendedApp> = Vec::new();
        let ghost mut seen: int = 0;
        while self.sus_app.len() > 0
            invariant
                0 <= seen <= sus0.len(),
                self.sus_app@ == sus0.skip(seen),
                self.remove_sus_devices@ == removal0,
                kept@ == retained(sus0.take(seen), removal0),
                self.vec_app@ == old(self).vec_app@,
                self.frames == old(self).frames,
            decreases self.sus_app@.len(),
        {
            let a = self.sus_app.remove(0);
            proof {
                assert(sus0.skip(seen).remove(0) =~= sus0.skip(seen + 1));
                assert(sus0.skip(seen)[0] == sus0[seen]);
                assert(sus0.take(seen + 1).drop_last() =~= sus0.take(seen));
                assert(sus0.take(seen + 1).last() == sus0[seen]);
            }
            if !contains_key(&self.remove_sus_devices, a.device_path.pci) {
                kept.push(a);
            }
            proof {
                seen = seen + 1;
            }
        }
        proof {
            assert(sus0.take(seen) =~= sus0);
        }
        self.sus_app = kept;
        self.remove_sus_devices = Vec::new();
        let ghost sus1 = self.sus_app@;

        // Refresh every Active session with its sample.
        let ghost apps0 = self.vec_app@;
        let ghost samples0 = samples@;
        let n_apps = self.vec_app.len();
        let mut samples = samples;
        let mut i: usize = 0;
        while samples.len() > 0
            invariant
                0 <= i <= apps0.len(),
                n_apps == apps0.len(),
                samples@ == samples0.skip(i as int),
                samples0.len() == apps0.len(),
                self.vec_app@.len() == apps0.len(),
                forall|t: int|
                    0 <= t < i ==> refreshed_like(
                        apps0[t],
                        samples0[t].0,
                        samples0[t].1,
                        #[trigger] self.vec_app@[t],
                    ),
                forall|t: int| i <= t < apps0.len() ==> self.vec_app@[t] == apps0[t],
                self.sus_app@ == sus1,
                self.remove_sus_devices@ == Seq::<u64>::empty(),
                self.frames == old(self).frames,
            decreases samples@.len(),
        {
            let (stat, gfxoff) = samples.remove(0);
            proof {
                assert(samples0.skip(i as int).remove(0) =~= samples0.skip(i + 1));
                assert(samples0.skip(i as int)[0] == samples0[i as int]);
            }
            let mut a = self.vec_app.remove(i);
            a.update(stat, gfxoff);
            self.vec_app.insert(i, a);
            i = i + 1;
        }

        // Probe every Suspended session, in stable pool order; promote
        // each acquired one at once and queue its key for removal. A
        // failed probe is silent; the session stays for the next tick.
        let ghost apps1 = self.vec_app@;
        let ghost probes0 = probes@;
        let mut probes = probes;
        let base = self.vec_app.len();
        let mut j: usize = 0;
        while probes.len() > 0
            invariant
                0 <= j <= sus1.len(),
                probes@ == probes0.skip(j as int),
                probes0.len() == sus1.len(),
                base == apps1.len(),
                base + probes0.len() <= usize::MAX,
                self.sus_app@ == sus1,
                self.vec_app@.len() == base + promoted_entries(
                    sus1.take(j as int),
                    probes0.take(j as int),
                ).len(),
                forall|t: int| 0 <= t < base ==> self.vec_app@[t] == apps1[t],
                forall|p: int|
                    0 <= p < promoted_entries(sus1.take(j as int), probes0.take(j as int)).len()
                        ==> promoted_like(
                        promoted_entries(sus1.take(j as int), probes0.take(j as int))[p].0,
                        promoted_entries(sus1.take(j as int), probes0.take(j as int))[p].1,
                        #[trigger] self.vec_app@[base + p],
                    ),
                self.remove_sus_devices@ == promoted_keys(
                    sus1.take(j as int),
                    probes0.take(j as int),
                ),
                self.frames == old(self).frames,
            decreases probes@.len(),
        {
            let probe = probes.remove(0);
            proof {
                assert(probes0.skip(j as int).remove(0) =~= probes0.skip(j + 1));
                assert(probes0.skip(j as int)[0] == probes0[j as int]);
                assert(sus1.take(j + 1).drop_last() =~= sus1.take(j as int));
                assert(probes0.take(j + 1).drop_last() =~= probes0.take(j as int));
                assert(sus1.take(j + 1).last() == sus1[j as int]);
                assert(probes0.take(j + 1).last() == probes0[j as int]);
            }
            let ghost pre = promoted_entries(sus1.take(j as int), probes0.take(j as int));
            match self.sus_app[j].to_smi_app(probe) {
                Some(smi_app) => {
                    self.vec_app.push(smi_app);
                    self.remove_sus_devices.push(self.sus_app[j].device_path.pci);
                    proof {
                        let post = promoted_entries(sus1.take(j + 1), probes0.take(j + 1));
                        assert(post == pre.push((sus1[j as int], probes0[j as int].unwrap())));
                        assert(promoted_keys(sus1.take(j + 1), probes0.take(j + 1)) =~= promoted_keys(
                            sus1.take(j as int),
                            probes0.take(j as int),
                        ).push(sus1[j as int].device_path.pci));
                    }
                },
                None => {
                    proof {
                        assert(promoted_entries(sus1.take(j + 1), probes0.take(j + 1)) == pre);
                        assert(promoted_keys(sus1.take(j + 1), probes0.take(j + 1)) =~= promoted_keys(
                            sus1.take(j as int),
                            probes0.take(j as int),
                        ));
                    }
                },
            }
            j = j + 1;
        }
        proof {
            assert(sus1.take(j as int) =~= sus1);
            assert(probes0.take(j as int) =~= probes0);
        }

        // Signal the renderer that a new frame is ready.
        self.frames = self.frames + 1;

        proof {
            assert forall|a: int, b: int| 0 <= a < b < sus0.len() implies #[trigger] sus0[a].device_path.pci != #[trigger] sus0[b].device_path.pci by {
                assert(old(self).sus_app@[a].key() != old(self).sus_app@[b].key());
            }
            lemma_retained_sub(sus0, removal0);
            lemma_retained_distinct(sus0, removal0);
            assert forall|a: int, b: int| 0 <= a < b < sus1.len() implies #[trigger] sus1[a].device_path.pci != #[trigger] sus1[b].device_path.pci by {
                assert(sus1[a].device_path.pci != sus1[b].device_path.pci);
            }
            lemma_promoted_sub(sus1, probes0);
            lemma_promoted_distinct(sus1, probes0);
            let pe = promoted_entries(sus1, probes0);
            let nap = self.vec_app@;
            let base = apps1.len() as int;
            assert forall|t: int| 0 <= t < apps0.len() implies refreshed_like(
                apps0[t],
                samples0[t].0,
                samples0[t].1,
                #[trigger] nap[t],
            ) by {
                assert(nap[t] == apps1[t]);
                assert(refreshed_like(apps0[t], samples0[t].0, samples0[t].1, apps1[t]));
            }
            // Keys of retained sessions were in the old suspended pool and
            // not queued; so they collide with no old Active key.
            assert forall|t: int| 0 <= t < sus1.len() implies !app_has(
                apps1,
                #[trigger] sus1[t].key(),
            ) by {
                let j0 = choose|j0: int| 0 <= j0 < sus0.len() && sus1[t] == sus0[j0];
                if app_has(apps1, sus1[t].key()) {
                    let a = choose|a: int| 0 <= a < apps1.len() && apps1[a].key() == sus1[t].key();
                    assert(old(self).vec_app@[a].key() == apps1[a].key());
                    assert(removal0.contains(old(self).vec_app@[a].key()));
                }
            }
            // Distinctness of the new Active pool.
            assert forall|a: int, b: int| 0 <= a < b < nap.len() implies #[trigger] nap[a].key()
                != #[trigger] nap[b].key() by {
                if a < base && b < base {
                    assert(apps1[a].key() == old(self).vec_app@[a].key());
                    assert(apps1[b].key() == old(self).vec_app@[b].key());
                } else if a < base && b >= base {
                    let p = b - base;
                    assert(promoted_like(pe[p].0, pe[p].1, nap[base + p]));
                    assert(nap[b].key() == pe[p].0.key());
                    let t = choose|t: int| 0 <= t < sus1.len() && pe[p].0 == sus1[t];
                    assert(!app_has(apps1, sus1[t].key()));
                    assert(nap[a].key() == apps1[a].key());
                } else {
                    let pa = a - base;
                    let pb = b - base;
                    assert(promoted_like(pe[pa].0, pe[pa].1, nap[base + pa]));
                    assert(promoted_like(pe[pb].0, pe[pb].1, nap[base + pb]));
                    assert(nap[a].key() == pe[pa].0.device_path.pci);
                    assert(nap[b].key() == pe[pb].0.device_path.pci);
                }
            }
            // A key in both pools is mid-promotion: queued for removal.
            assert forall|a: int, b: int|
                0 <= a < nap.len() && 0 <= b < sus1.len() && #[trigger] nap[a].key()
                    == #[trigger] sus1[b].key() implies self.remove_sus_devices@.contains(
                nap[a].key(),
            ) by {
                if a < base {
                    assert(nap[a].key() == apps1[a].key());
                    assert(!app_has(apps1, sus1[b].key()));
                } else {
                    let p = a - base;
                    assert(promoted_like(pe[p].0, pe[p].1, nap[base + p]));
                    assert(nap[a].key() == pe[p].0.device_path.pci);
                    assert(self.remove_sus_devices@[p] == pe[p].0.device_path.pci);
                }
            }
            // Every queued key has its Active session.
            assert forall|k: u64| self.remove_sus_devices@.contains(k) implies app_has(
                nap,
                k,
            ) by {
                let p = choose|p: int|
                    0 <= p < self.remove_sus_devices@.len() && self.remove_sus_devices@[p] == k;
                assert(self.remove_sus_devices@[p] == pe[p].0.device_path.pci);
                assert(promoted_like(pe[p].0, pe[p].1, nap[base + p]));
                assert(nap[base + p].key() == k);
            }
        }
    }
}

} // verus!
