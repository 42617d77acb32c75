use amdgpu_top_tui::device::{
    label_string, AppAmdgpuTop, AppDeviceInfo, AppOption, DeviceData, DevicePath, ListNameInfoBar,
};
use amdgpu_top_tui::telemetry::{
    Activity, AppAmdgpuTopStat, BandwidthCell, MemHeap, PcieBw, PerfCounter, VramUsage,
};
use amdgpu_top_tui::Sampling;

fn sample_info() -> AppDeviceInfo {
    AppDeviceInfo {
        marketing_name: String::from("AMD Radeon RX 6700 XT"),
        pci_bus: String::from("0000:03:00.0"),
        device_id: 0x73DF,
        pci_rev_id: 0xC1,
        asic_name: String::from("Navi22"),
        is_apu: false,
        chip_class: String::from("GFX10_3"),
        gfx_target_version: Some(String::from("gfx1031")),
        cu_active_number: 40,
        min_gpu_clk: 500,
        max_gpu_clk: 2855,
        vram_type: String::from("GDDR6"),
        vram_bit_width: 192,
        vram_total_heap_size: 12 << 30,
        min_mem_clk: 96,
        max_mem_clk: 1000,
    }
}

fn empty_stat() -> AppAmdgpuTopStat {
    AppAmdgpuTopStat {
        grbm: PerfCounter { counters: Vec::new() },
        grbm2: PerfCounter { counters: Vec::new() },
        vram_usage: VramUsage {
            vram: MemHeap { heap_usage: 0, total_heap_size: 0 },
            gtt: MemHeap { heap_usage: 0, total_heap_size: 0 },
        },
        activity: Activity { gfx: None, umc: None, media: None },
        sensors: None,
        fdinfo: Vec::new(),
        memory_error_count: None,
        metrics: None,
        arc_pcie_bw: None,
    }
}

#[test]
fn info_bar_exact_text() {
    let d = sample_info();
    let expected = format!(
        "{mark_name} ({pci}, {did:#06X}:{rid:#04X})\n{asic}, {gpu_type}, {chip_class},{gfx_ver} {num_cu} CU, {min_gpu_clk}-{max_gpu_clk} MHz\n{vram_type} {vram_bus_width}-bit, {vram_size} MiB, {min_memory_clk}-{max_memory_clk} MHz",
        mark_name = "AMD Radeon RX 6700 XT",
        pci = "0000:03:00.0",
        did = 0x73DF,
        rid = 0xC1,
        asic = "Navi22",
        gpu_type = "dGPU",
        chip_class = "GFX10_3",
        gfx_ver = " gfx1031,",
        num_cu = 40,
        min_gpu_clk = 500,
        max_gpu_clk = 2855,
        vram_type = "GDDR6",
        vram_bus_width = 192,
        vram_size = (12u64 << 30) >> 20,
        min_memory_clk = 96,
        max_memory_clk = 1000,
    );
    assert_eq!(d.info_bar(), expected);
}

#[test]
fn info_bar_apu_without_target_version() {
    let mut d = sample_info();
    d.is_apu = true;
    d.gfx_target_version = None;
    let bar = d.info_bar();
    assert!(bar.contains(", APU, "));
    assert!(bar.contains("GFX10_3, 40 CU"));
}

#[test]
fn label_pads_index_to_two() {
    assert_eq!(label_string(3, "Navi22"), "#3  Navi22");
    assert_eq!(label_string(12, "Navi22"), "#12 Navi22");
}

#[test]
fn menu_entry_is_device_name() {
    let p = DevicePath {
        pci: 7,
        pci_bus: String::from("0000:07:00.0"),
        device_id: 1,
        revision_id: 2,
        device_name: String::from("Navi22"),
    };
    assert_eq!(p.menu_entry(), "Navi22");
    let q = p.duplicate();
    assert_eq!(q.pci, 7);
    assert_eq!(q.device_name, "Navi22");
}

#[test]
fn app_new_drops_cell_unless_asked() {
    let p = DevicePath {
        pci: 1,
        pci_bus: String::from("0000:01:00.0"),
        device_id: 1,
        revision_id: 0,
        device_name: String::from("d"),
    };
    let mut stat = empty_stat();
    stat.arc_pcie_bw = Some(BandwidthCell::new(Some(PcieBw {
        sent: 1,
        received: 1,
        max_payload_size: 128,
    })));
    let data = DeviceData { device_info: sample_info(), stat };
    let app = AppAmdgpuTop::new(data, p.duplicate(), &AppOption::default());
    assert!(app.stat.arc_pcie_bw.is_none());
    let mut stat2 = empty_stat();
    stat2.arc_pcie_bw = Some(BandwidthCell::new(None));
    let data2 = DeviceData { device_info: sample_info(), stat: stat2 };
    let app2 = AppAmdgpuTop::new(data2, p, &AppOption { pcie_bw: true });
    assert!(app2.stat.arc_pcie_bw.is_some());
}

#[test]
fn update_advances_sample_cursor() {
    let p = DevicePath {
        pci: 1,
        pci_bus: String::from("0000:01:00.0"),
        device_id: 1,
        revision_id: 0,
        device_name: String::from("d"),
    };
    let data = DeviceData { device_info: sample_info(), stat: empty_stat() };
    let mut app = AppAmdgpuTop::new(data, p, &AppOption::default());
    assert_eq!(app.sample_cursor, 0);
    app.update(empty_stat());
    app.update(empty_stat());
    assert_eq!(app.sample_cursor, 2);
}

#[test]
fn sampling_cadences() {
    assert_eq!(Sampling::low().millis, 1000);
    assert_eq!(Sampling::high().millis, 100);
}

#[test]
fn bandwidth_cell_read_is_opportunistic() {
    let bw = PcieBw { sent: 10, received: 20, max_payload_size: 128 };
    let free = BandwidthCell { held: false, value: Some(bw) };
    assert_eq!(free.try_read().unwrap().sent, 10);
    let held = BandwidthCell { held: true, value: Some(bw) };
    assert!(held.try_read().is_none());
    let empty = BandwidthCell::new(None);
    assert!(empty.try_read().is_none());
}
