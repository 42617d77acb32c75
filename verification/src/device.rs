//! Device identity, static device information, and the per-device
//! application state an Active session carries.

use crate::fmt::{
    dec_str, hex_str, push_dec, push_hex_prefixed, zero_pad,
};
use crate::telemetry::AppAmdgpuTopStat;
use vstd::prelude::*;
use vstd::string::StringExecFns;

verus! {

/// Immutable identity of one device, discovered at startup and never
/// mutated. Devices are keyed by `pci` alone.
#[derive(Clone, Debug)]
pub struct DevicePath {
    /// Bus address, the device key.
    pub pci: u64,
    /// Human-readable bus address.
    pub pci_bus: String,
    pub device_id: u64,
    pub revision_id: u64,
    pub device_name: String,
}

impl DevicePath {
    /// The name under which the device appears in menus and labels.
    pub fn menu_entry(&self) -> (r: String)
        ensures
            r@ == self.device_name@,
    {
        self.device_name.clone()
    }

    /// An identity with the same key and the same descriptive fields.
    pub fn duplicate(&self) -> (r: Self)
        ensures
            r.pci == self.pci,
            r.pci_bus@ == self.pci_bus@,
            r.device_id == self.device_id,
            r.revision_id == self.revision_id,
            r.device_name@ == self.device_name@,
    {
        DevicePath {
            pci: self.pci,
            pci_bus: self.pci_bus.clone(),
            device_id: self.device_id,
            revision_id: self.revision_id,
            device_name: self.device_name.clone(),
        }
    }
}

/// Static information of one device, as the telemetry source reports it
/// once at acquisition time.
#[derive(Clone)]
pub struct AppDeviceInfo {
    pub marketing_name: String,
    pub pci_bus: String,
    pub device_id: u64,
    pub pci_rev_id: u64,
    pub asic_name: String,
    pub is_apu: bool,
    pub chip_class: String,
    pub gfx_target_version: Option<String>,
    pub cu_active_number: u64,
    pub min_gpu_clk: u64,
    pub max_gpu_clk: u64,
    pub vram_type: String,
    pub vram_bit_width: u64,
    /// Total video memory, in bytes.
    pub vram_total_heap_size: u64,
    pub min_mem_clk: u64,
    pub max_mem_clk: u64,
}

/// A session's listing label: its index in a two-character column, then
/// its name.
pub open spec fn label_line(index: nat, name: Seq<char>) -> Seq<char> {
    "#"@ + crate::fmt::pad_right(dec_str(index), 2) + " "@ + name
}

/// Builds [`label_line`] for a concrete session.
pub fn label_string(index: usize, name: &str) -> (r: String)
    ensures
        r@ == label_line(index as nat, name@),
{
    let mut s = String::new();
    s.append("#");
    crate::fmt::push_dec_pad_right(&mut s, index as u64, 2);
    s.append(" ");
    s.append(name);
    proof {
        assert(s@ =~= label_line(index as nat, name@));
    }
    s
}

/// The optional part between the chip class and the compute-unit count:
/// the target version, when the device reports one.
pub open spec fn gfx_ver_piece(v: Option<Seq<char>>) -> Seq<char> {
    match v {
        Some(ver) => " "@ + ver + ","@,
        None => Seq::empty(),
    }
}

/// First info-bar line: name and bus/device/revision identity.
pub open spec fn info_bar_line1(d: AppDeviceInfo) -> Seq<char> {
    d.marketing_name@ + " ("@ + d.pci_bus@ + ", "@ + "0x"@ + zero_pad(
        hex_str(d.device_id as nat),
        4,
    ) + ":"@ + "0x"@ + zero_pad(hex_str(d.pci_rev_id as nat), 2) + ")\n"@
}

/// Second info-bar line: chip identity, compute units and engine clocks.
pub open spec fn info_bar_line2(d: AppDeviceInfo) -> Seq<char> {
    d.asic_name@ + ", "@ + (if d.is_apu {
        "APU"@
    } else {
        "dGPU"@
    }) + ", "@ + d.chip_class@ + ","@ + gfx_ver_piece(
        match d.gfx_target_version {
            Some(v) => Some(v@),
            None => None,
        },
    ) + " "@ + dec_str(d.cu_active_number as nat) + " CU, "@ + dec_str(d.min_gpu_clk as nat)
        + "-"@ + dec_str(d.max_gpu_clk as nat) + " MHz\n"@
}

/// Third info-bar line: memory type, size and clocks.
pub open spec fn info_bar_line3(d: AppDeviceInfo) -> Seq<char> {
    d.vram_type@ + " "@ + dec_str(d.vram_bit_width as nat) + "-bit, "@ + dec_str(
        (d.vram_total_heap_size >> 20) as nat,
    ) + " MiB, "@ + dec_str(d.min_mem_clk as nat) + "-"@ + dec_str(d.max_mem_clk as nat) + " MHz"@
}

/// The whole three-line info bar of a device.
pub open spec fn info_bar_spec(d: AppDeviceInfo) -> Seq<char> {
    info_bar_line1(d) + info_bar_line2(d) + info_bar_line3(d)
}

/// A session's label line above its panels.
pub trait ListNameInfoBar {
    /// The formatted info bar shown in the session's top panel.
    fn info_bar(&self) -> String;
}

impl ListNameInfoBar for AppDeviceInfo {
    /// Three lines: identity, chip and clocks, memory. Matches
    /// [`info_bar_spec`] exactly.
    #[verifier::rlimit(60)]
    fn info_bar(&self) -> (r: String)
        ensures
            r@ == info_bar_spec(*self),
    {
        let mut s = String::new();

        // Line 1
        s.append(self.marketing_name.as_str());
        s.append(" (");
        s.append(self.pci_bus.as_str());
        s.append(", ");
        push_hex_prefixed(&mut s, self.device_id, 4);
        s.append(":");
        push_hex_prefixed(&mut s, self.pci_rev_id, 2);
        s.append(")\n");
        proof {
            assert(s@ =~= info_bar_line1(*self));
        }
        let ghost l1 = s@;

        // Line 2
        s.append(self.asic_name.as_str());
        s.append(", ");
        if self.is_apu {
            s.append("APU");
        } else {
            s.append("dGPU");
        }
        s.append(", ");
        s.append(self.chip_class.as_str());
        s.append(",");
        match &self.gfx_target_version {
            Some(v) => {
                s.append(" ");
                s.append(v.as_str());
                s.append(",");
            },
            None => {},
        }
        s.append(" ");
        push_dec(&mut s, self.cu_active_number);
        s.append(" CU, ");
        push_dec(&mut s, self.min_gpu_clk);
        s.append("-");
        push_dec(&mut s, self.max_gpu_clk);
        s.append(" MHz\n");
        proof {
            assert(s@ =~= l1 + info_bar_line2(*self));
        }
        let ghost l12 = s@;

        // Line 3
        s.append(self.vram_type.as_str());
        s.append(" ");
        push_dec(&mut s, self.vram_bit_width);
        s.append("-bit, ");
        push_dec(&mut s, self.vram_total_heap_size >> 20u64);
        s.append(" MiB, ");
        push_dec(&mut s, self.min_mem_clk);
        s.append("-");
        push_dec(&mut s, self.max_mem_clk);
        s.append(" MHz");
        proof {
            assert(s@ =~= l12 + info_bar_line3(*self));
            assert(s@ =~= info_bar_spec(*self));
        }
        s
    }
}

/// What a successful handle acquisition yields: the device's static
/// information and its first sample.
#[derive(Clone)]
pub struct DeviceData {
    pub device_info: AppDeviceInfo,
    pub stat: AppAmdgpuTopStat,
}

/// Construction options for a per-device application state.
#[derive(Clone)]
pub struct AppOption {
    /// Whether the bandwidth producer's cell is attached.
    pub pcie_bw: bool,
}

impl Default for AppOption {
    fn default() -> (r: Self)
        ensures
            r.pcie_bw == false,
    {
        AppOption { pcie_bw: false }
    }
}

/// The per-device application state behind one Active session: identity,
/// static information, the latest sample, and the sample cursor counting
/// samples folded into rate-based fields.
pub struct AppAmdgpuTop {
    pub device_path: DevicePath,
    pub device_info: AppDeviceInfo,
    pub stat: AppAmdgpuTopStat,
    pub sample_cursor: u64,
}

impl AppAmdgpuTop {
    /// Wraps freshly acquired device data. The bandwidth cell is attached
    /// only when the options ask for it.
    pub fn new(data: DeviceData, device_path: DevicePath, opt: &AppOption) -> (r: Self)
        ensures
            r.device_path == device_path,
            r.device_info == data.device_info,
            r.sample_cursor == 0,
            opt.pcie_bw ==> r.stat == data.stat,
            !opt.pcie_bw ==> r.stat == (AppAmdgpuTopStat { arc_pcie_bw: None, ..data.stat }),
    {
        let mut stat = data.stat;
        if !opt.pcie_bw {
            stat.arc_pcie_bw = None;
        }
        AppAmdgpuTop { device_path, device_info: data.device_info, stat, sample_cursor: 0 }
    }

    /// Folds one fresh sample in: the snapshot replaces the previous one
    /// and the sample cursor advances (saturating at its maximum).
    pub fn update(&mut self, stat: AppAmdgpuTopStat)
        ensures
            final(self).stat == stat,
            final(self).device_path == old(self).device_path,
            final(self).device_info == old(self).device_info,
            final(self).sample_cursor == if old(self).sample_cursor < u64::MAX {
                old(self).sample_cursor + 1
            } else {
                old(self).sample_cursor as int
            },
    {
        self.stat = stat;
        if self.sample_cursor < u64::MAX {
            self.sample_cursor = self.sample_cursor + 1;
        }
    }
}

} // verus!
