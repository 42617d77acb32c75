use amdgpu_top_tui::device::{AppAmdgpuTop, AppDeviceInfo, AppOption, DeviceData, DevicePath};
use amdgpu_top_tui::smi::{SmiApp, SmiState, SuspendedApp};
use amdgpu_top_tui::telemetry::{
    Activity, AppAmdgpuTopStat, GfxoffStatus, GpuMetrics, MemHeap, MemoryErrorCount, PerfCounter,
    Sensors, VramUsage,
};

fn path(pci: u64, name: &str) -> DevicePath {
    DevicePath {
        pci,
        pci_bus: format!("0000:{:02x}:00.0", pci),
        device_id: 0x73DF,
        revision_id: 0xC1,
        device_name: String::from(name),
    }
}

fn info(name: &str) -> AppDeviceInfo {
    AppDeviceInfo {
        marketing_name: String::from(name),
        pci_bus: String::from("0000:03:00.0"),
        device_id: 0x73DF,
        pci_rev_id: 0xC1,
        asic_name: String::from("Navi22"),
        is_apu: false,
        chip_class: String::from("GFX10_3"),
        gfx_target_version: Some(String::from("gfx1031")),
        cu_active_number: 40,
        min_gpu_clk: 500,
        max_gpu_clk: 2855,
        vram_type: String::from("GDDR6"),
        vram_bit_width: 192,
        vram_total_heap_size: 12 << 30,
        min_mem_clk: 96,
        max_mem_clk: 1000,
    }
}

fn full_sensors() -> Sensors {
    Sensors {
        sclk: Some(800),
        mclk: Some(1000),
        vddnb: None,
        vddgfx: Some(762),
        temp: Some(56_000),
        critical_temp: Some(100),
        edge_temp: Some(56),
        power: Some(30),
        power_cap: Some(186),
        fan_rpm: Some(780),
        fan_max_rpm: Some(3200),
        bus_info: String::from("0000:03:00.0"),
        cur_gen: 4,
        cur_width: 16,
        max_gen: 4,
        max_width: 16,
    }
}

fn stat(marker_rows: &[&str]) -> AppAmdgpuTopStat {
    AppAmdgpuTopStat {
        grbm: PerfCounter { counters: Vec::new() },
        grbm2: PerfCounter { counters: Vec::new() },
        vram_usage: VramUsage {
            vram: MemHeap { heap_usage: 1024 << 20, total_heap_size: 12288 << 20 },
            gtt: MemHeap { heap_usage: 52 << 20, total_heap_size: 7168 << 20 },
        },
        activity: Activity { gfx: Some(7), umc: Some(12), media: Some(0) },
        sensors: Some(full_sensors()),
        fdinfo: marker_rows.iter().map(|r| String::from(*r)).collect(),
        memory_error_count: Some(MemoryErrorCount { corrected: 0, uncorrected: 3 }),
        metrics: Some(GpuMetrics {
            header: None,
            throttle_status: Some(String::from("[Ppt]")),
        }),
        arc_pcie_bw: None,
    }
}

fn smi_app(pci: u64, name: &str, index: usize) -> SmiApp {
    let data = DeviceData { device_info: info(name), stat: stat(&[]) };
    let app = AppAmdgpuTop::new(data, path(pci, name), &AppOption::default());
    SmiApp::new(app, index).unwrap()
}

#[test]
fn info_header_exact_text() {
    let expected = format!(
        "GPU {name:<25} {pad:10}|{pci:<16}|{vram:^18}|\nSCLK    MCLK    VDDGFX  Power           | GFX% UMC%Media%|{gtt:^18}|\nTemp    {fan:<7} {ecc} {thr:<48}|",
        name = "Name",
        pad = "",
        pci = " PCI Bus",
        vram = "VRAM Usage",
        gtt = " GTT Usage",
        fan = "Fan",
        ecc = "ECC_UnCorr.",
        thr = "Throttle_Status",
    );
    assert_eq!(SmiApp::info_header(), expected);
}

#[test]
fn info_line_exact_text() {
    let mut app = smi_app(3, "AMD Radeon RX 6700 XT", 0);
    app.update(stat(&[]), Some(GfxoffStatus::NotInGfxoff));
    let expected = format!(
        "#{i:<2} [{name:<25}]({gfx_ver:>7})| {pci}   |{vu:>6}/{vt:>6} MiB |\n{sclk:>4}MHz {mclk:>4}MHz {vddgfx:>4}mV  {power:>3}/{cap:>3}W        | {g:>3}% {u:>3}% {m:>3}% |{gu:>6}/{gt:>6} MiB |\n {temp:>3}C   {fan:>4}RPM [{ecc:>9}] {thr:<48}|",
        i = 0,
        name = "AMD Radeon RX 6700 XT",
        gfx_ver = "gfx1031",
        pci = "0000:03:00.0",
        vu = 1024,
        vt = 12288,
        sclk = 800,
        mclk = 1000,
        vddgfx = 762,
        power = 30,
        cap = 186,
        g = 7,
        u = 12,
        m = 0,
        gu = 52,
        gt = 7168,
        temp = 56,
        fan = 780,
        ecc = 3,
        thr = "[Ppt]",
    );
    assert_eq!(app.info_text(), &expected);
}

#[test]
fn absent_sensors_show_placeholders() {
    let mut app = smi_app(3, "iGPU", 2);
    let mut s = stat(&[]);
    s.sensors = None;
    s.activity = Activity { gfx: None, umc: None, media: None };
    s.memory_error_count = None;
    s.metrics = None;
    app.update(s, None);
    let line = app.info_text().clone();
    // The fixed placeholder tokens, never an empty field, never a crash.
    assert!(line.contains("____MHz ____MHz ____mV  ___/___W"));
    assert!(line.contains(" ___% ___% ___%"));
    assert!(line.contains(" ___C "));
    assert!(line.contains("____RPM"));
    assert!(line.contains(&format!("[{:>9}] ", "N/A")));
    assert!(line.contains(&format!("{:<48}|", "N/A")));
}

#[test]
fn gfxoff_marker_only_when_off() {
    let mut app = smi_app(1, "d", 0);
    app.update(stat(&[]), Some(GfxoffStatus::InGfxoff));
    assert!(app.info_text().contains("GFXOFF |"));
    app.update(stat(&[]), Some(GfxoffStatus::NotInGfxoff));
    assert!(!app.info_text().contains("GFXOFF"));
}

#[test]
fn suspended_line_exact_text() {
    let sus = SuspendedApp::new(path(5, "Navi22"), 1);
    let expected = format!(
        "#{index:<2} [{name:<20} ({did:#X}:{rid:#X})]| {pci}   | Suspended\n",
        index = 1,
        name = "Navi22",
        did = 0x73DF,
        rid = 0xC1,
        pci = "0000:05:00.0",
    );
    assert_eq!(sus.info_text(), &expected);
}

#[test]
fn partition_splits_by_acquisition() {
    let devices = vec![
        (path(1, "a"), Some(DeviceData { device_info: info("a"), stat: stat(&[]) })),
        (path(2, "b"), None),
        (path(3, "c"), Some(DeviceData { device_info: info("c"), stat: stat(&[]) })),
    ];
    let s = SmiState::new(devices);
    assert_eq!(s.vec_app.len(), 2);
    assert_eq!(s.sus_app.len(), 1);
    assert_eq!(s.vec_app[0].app_amdgpu_top.device_path.pci, 1);
    assert_eq!(s.vec_app[0].index, 0);
    assert_eq!(s.vec_app[1].app_amdgpu_top.device_path.pci, 3);
    assert_eq!(s.vec_app[1].index, 1);
    assert_eq!(s.sus_app[0].device_path.pci, 2);
    assert_eq!(s.sus_app[0].index, 2);
    assert!(s.remove_sus_devices.is_empty());
    assert_eq!(s.frames, 0);
}

fn two_device_state() -> SmiState {
    let devices = vec![
        (path(1, "D1"), Some(DeviceData { device_info: info("D1"), stat: stat(&[]) })),
        (path(2, "D2"), None),
    ];
    SmiState::new(devices)
}

#[test]
fn tick_refreshes_active_and_keeps_suspended() {
    // Two devices: D1 initially Active, D2 initially Suspended and its
    // liveness probe failing. After tick 1, D1's info slot reflects a
    // fresh sample; D2 stays in the Suspended pool with its unchanged
    // `Suspended` label.
    let mut s = two_device_state();
    let before = s.sus_app[0].info_text().clone();
    s.tick(vec![(stat(&[]), None)], vec![None]);
    assert!(s.vec_app[0].info_text().contains("D1"));
    assert!(s.vec_app[0].info_text().contains("MiB |"));
    assert_eq!(s.sus_app.len(), 1);
    assert_eq!(s.sus_app[0].info_text(), &before);
    assert!(before.contains("Suspended"));
    assert!(s.remove_sus_devices.is_empty());
    assert_eq!(s.frames, 1);
}

#[test]
fn promotion_moves_device_to_active_pool() {
    // D2 becomes reachable before tick 5's probe: by the end of tick 5 it
    // is in the Active pool and no longer counted Suspended; by tick 6 its
    // info slot shows sampled values, not the suspended placeholder.
    let mut s = two_device_state();
    for _ in 0..4 {
        s.tick(vec![(stat(&[]), None)], vec![None]);
    }
    assert_eq!(s.vec_app.len(), 1);
    s.tick(
        vec![(stat(&[]), None)],
        vec![Some(DeviceData { device_info: info("D2"), stat: stat(&[]) })],
    );
    // In the Active pool at once...
    assert_eq!(s.vec_app.len(), 2);
    assert_eq!(s.vec_app[1].app_amdgpu_top.device_path.pci, 2);
    assert_eq!(s.vec_app[1].index, 1);
    // ...and no longer an observable Suspended member: its leftover entry
    // is queued for removal.
    assert_eq!(s.remove_sus_devices, vec![2]);
    // The carried-over slot still shows the suspended label until the
    // first sample.
    assert!(s.vec_app[1].info_text().contains("Suspended"));
    // Tick 6: the removal is applied and the promoted session samples.
    s.tick(vec![(stat(&[]), None), (stat(&[]), None)], vec![]);
    assert!(s.sus_app.is_empty());
    assert!(s.remove_sus_devices.is_empty());
    assert!(!s.vec_app[1].info_text().contains("Suspended"));
    assert!(s.vec_app[1].info_text().contains("MiB |"));
}

#[test]
fn failed_promotion_is_retried_silently() {
    let mut s = two_device_state();
    for _ in 0..3 {
        s.tick(vec![(stat(&[]), None)], vec![None]);
        assert_eq!(s.vec_app.len(), 1);
        assert_eq!(s.sus_app.len(), 1);
        assert!(s.remove_sus_devices.is_empty());
    }
    assert_eq!(s.frames, 3);
}

#[test]
fn promotion_only_targets_suspended_members() {
    // Promotion comes from probing the Suspended pool alone: every key
    // appended to the Active pool was a Suspended member, and Active
    // sessions are never probed.
    let mut s = two_device_state();
    let active_keys_before: Vec<u64> =
        s.vec_app.iter().map(|a| a.app_amdgpu_top.device_path.pci).collect();
    let sus_keys: Vec<u64> = s.sus_app.iter().map(|a| a.device_path.pci).collect();
    s.tick(
        vec![(stat(&[]), None)],
        vec![Some(DeviceData { device_info: info("D2"), stat: stat(&[]) })],
    );
    for a in s.vec_app.iter().skip(active_keys_before.len()) {
        let k = a.app_amdgpu_top.device_path.pci;
        assert!(sus_keys.contains(&k));
        assert!(!active_keys_before.contains(&k));
    }
}

#[test]
fn pools_partition_every_key() {
    // A device key is a member of exactly one pool: Active, or Suspended
    // with no pending removal.
    let mut s = two_device_state();
    s.tick(
        vec![(stat(&[]), None)],
        vec![Some(DeviceData { device_info: info("D2"), stat: stat(&[]) })],
    );
    for k in [1u64, 2u64] {
        let active = s.vec_app.iter().any(|a| a.app_amdgpu_top.device_path.pci == k);
        let live_suspended = s.sus_app.iter().any(|a| a.device_path.pci == k)
            && !s.remove_sus_devices.contains(&k);
        assert!(active ^ live_suspended);
    }
}

#[test]
fn fdinfo_panel_title_and_rows() {
    let mut app = smi_app(1, "AMD Radeon", 4);
    assert_eq!(app.fdinfo_panel(), "#4  AMD Radeon");
    app.update(stat(&["row one", "row two"]), None);
    assert_eq!(app.fdinfo_view.text.published(), "row one\nrow two\n");
}
