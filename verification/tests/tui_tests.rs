use amdgpu_top_tui::device::{AppAmdgpuTop, AppDeviceInfo, AppOption, DeviceData, DevicePath};
use amdgpu_top_tui::sensors::SensorsView;
use amdgpu_top_tui::telemetry::{
    Activity, AppAmdgpuTopStat, BandwidthCell, GpuMetrics, MemHeap, MemoryErrorCount,
    MetricsHeader, PcieBw, PerfCounter, Sensors, VramUsage,
};
use amdgpu_top_tui::tui::{SuspendedTuiApp, TuiApp};
use amdgpu_top_tui::ToggleOptions;

fn tpath(pci: u64, name: &str) -> DevicePath {
    DevicePath {
        pci,
        pci_bus: format!("0000:{:02x}:00.0", pci),
        device_id: 0x73DF,
        revision_id: 0xC1,
        device_name: String::from(name),
    }
}

fn tinfo(name: &str) -> AppDeviceInfo {
    AppDeviceInfo {
        marketing_name: String::from(name),
        pci_bus: String::from("0000:03:00.0"),
        device_id: 0x73DF,
        pci_rev_id: 0xC1,
        asic_name: String::from("Navi22"),
        is_apu: false,
        chip_class: String::from("GFX10_3"),
        gfx_target_version: None,
        cu_active_number: 40,
        min_gpu_clk: 500,
        max_gpu_clk: 2855,
        vram_type: String::from("GDDR6"),
        vram_bit_width: 192,
        vram_total_heap_size: 12 << 30,
        min_mem_clk: 96,
        max_mem_clk: 1000,
    }
}

fn tsensors() -> Sensors {
    Sensors {
        sclk: Some(800),
        mclk: Some(1000),
        vddnb: Some(768),
        vddgfx: Some(762),
        temp: Some(56_000),
        critical_temp: Some(100),
        edge_temp: Some(56),
        power: Some(30),
        power_cap: Some(186),
        fan_rpm: Some(780),
        fan_max_rpm: Some(3200),
        bus_info: String::from("0000:03:00.0"),
        cur_gen: 4,
        cur_width: 16,
        max_gen: 4,
        max_width: 16,
    }
}

fn tstat() -> AppAmdgpuTopStat {
    AppAmdgpuTopStat {
        grbm: PerfCounter { counters: Vec::new() },
        grbm2: PerfCounter { counters: Vec::new() },
        vram_usage: VramUsage {
            vram: MemHeap { heap_usage: 1024 << 20, total_heap_size: 12288 << 20 },
            gtt: MemHeap { heap_usage: 52 << 20, total_heap_size: 7168 << 20 },
        },
        activity: Activity { gfx: Some(7), umc: Some(12), media: Some(0) },
        sensors: Some(tsensors()),
        fdinfo: vec![String::from("row a"), String::from("row b")],
        memory_error_count: Some(MemoryErrorCount { corrected: 0, uncorrected: 3 }),
        metrics: Some(GpuMetrics {
            header: Some(MetricsHeader { format_revision: 1, content_revision: 3 }),
            throttle_status: Some(String::from("[Ppt]")),
        }),
        arc_pcie_bw: None,
    }
}

fn tui_app() -> TuiApp {
    let data = DeviceData { device_info: tinfo("D1"), stat: tstat() };
    let app = AppAmdgpuTop::new(data, tpath(1, "D1"), &AppOption { pcie_bw: true });
    TuiApp::new_with_app(app, false, 0)
}

fn expected_sensors_text() -> String {
    // The two-column block of the four clock/voltage sensors, then the
    // temperature, power, fan and link lines.
    let mut out = String::new();
    let mut c = 0;
    for (name, val, unit) in [
        ("GFX_SCLK", 800, "MHz"),
        ("GFX_MCLK", 1000, "MHz"),
        ("VDDNB", 768, "mV"),
        ("VDDGFX", 762, "mV"),
    ] {
        c += 1;
        out.push_str(&format!(
            " {:<35} ",
            format!("{name:<10} => {val:>5} {unit:<3}")
        ));
        if c % 2 == 0 {
            out.push('\n');
        }
    }
    out.push_str(" GPU Temp. =>  56 C (Crit. 100 C)\n");
    out.push_str(" GPU Power =>  30 W (Cap. 186 W)\n");
    out.push_str(" Fan =>  780 RPM (Max. 3200 RPM)\n");
    out.push_str(" PCI (0000:03:00.0) => Gen4x16 (Max. Gen4x16)\n");
    out
}

#[test]
fn sensors_print_exact_text() {
    let mut v = SensorsView::new(tsensors());
    v.print();
    v.text.set();
    assert_eq!(v.text.published(), &expected_sensors_text());
}

#[test]
fn sensors_pairs_wrap_after_two_cells() {
    let mut s = tsensors();
    s.mclk = None;
    s.vddnb = None;
    // Two present cells: one row, closed once.
    let mut v = SensorsView::new(s);
    v.print();
    let text = v.text.buf.clone();
    let first_line = text.lines().next().unwrap();
    assert!(first_line.contains("GFX_SCLK"));
    assert!(first_line.contains("VDDGFX"));
}

#[test]
fn sensors_odd_cell_count_still_ends_line() {
    let mut s = tsensors();
    s.mclk = None;
    s.vddnb = None;
    s.vddgfx = None;
    let mut v = SensorsView::new(s);
    v.print();
    let text = v.text.buf.clone();
    assert!(text.starts_with(&format!(
        " {:<35} \n",
        format!("{:<10} => {:>5} {:<3}", "GFX_SCLK", 800, "MHz")
    )));
}

#[test]
fn pcie_bw_line_exact() {
    let mut v = SensorsView::new(tsensors());
    v.print();
    let bw = PcieBw { sent: 8_388_608, received: 4_194_304, max_payload_size: 128 };
    v.print_pcie_bw(&bw);
    v.text.set();
    let expected = format!(
        " PCIe Bandwidth Usage => Sent: {:>6} MiB/s, Received: {:>6} MiB/s\n",
        1024, 512
    );
    assert!(v.text.published().ends_with(&expected));
}

#[test]
fn held_cell_omits_bandwidth_line() {
    // If the bandwidth cell is continuously held by its writer, the
    // formatted sensor panel omits the bandwidth line; the tick completes
    // without waiting.
    let mut app = tui_app();
    let mut s = tstat();
    s.arc_pcie_bw = Some(BandwidthCell {
        held: true,
        value: Some(PcieBw { sent: 8_388_608, received: 4_194_304, max_payload_size: 128 }),
    });
    app.update(&ToggleOptions::default(), s);
    let published = app.layout.sensors_view.text.published().clone();
    assert!(!published.contains("PCIe Bandwidth"));
    assert_eq!(published, expected_sensors_text());
}

#[test]
fn free_cell_appends_bandwidth_line() {
    let mut app = tui_app();
    let mut s = tstat();
    s.arc_pcie_bw = Some(BandwidthCell {
        held: false,
        value: Some(PcieBw { sent: 8_388_608, received: 4_194_304, max_payload_size: 128 }),
    });
    app.update(&ToggleOptions::default(), s);
    let published = app.layout.sensors_view.text.published().clone();
    assert!(published.starts_with(&expected_sensors_text()));
    assert!(published.ends_with(&format!(
        " PCIe Bandwidth Usage => Sent: {:>6} MiB/s, Received: {:>6} MiB/s\n",
        1024, 512
    )));
}

#[test]
fn hidden_panel_clears_within_one_tick() {
    // The user toggles a panel hidden: within one tick its slot is
    // cleared; the remaining panels still render.
    let mut app = tui_app();
    app.update(&ToggleOptions::default(), tstat());
    assert!(!app.layout.fdinfo_view.text.published().is_empty());
    let flags = ToggleOptions { fdinfo: false, ..ToggleOptions::default() };
    app.update(&flags, tstat());
    assert_eq!(app.layout.fdinfo_view.text.published(), "");
    // The other panels still carry their content.
    assert!(!app.layout.sensors_view.text.published().is_empty());
    let plan = app.view("title");
    assert_eq!(plan.fdinfo_text, "");
    assert!(plan.sensors_text.is_some());
}

#[test]
fn hidden_sensor_and_metrics_panels_clear() {
    let mut app = tui_app();
    app.update(&ToggleOptions::default(), tstat());
    let flags = ToggleOptions { sensor: false, gpu_metrics: false, ..ToggleOptions::default() };
    app.update(&flags, tstat());
    assert_eq!(app.layout.sensors_view.text.published(), "");
    assert_eq!(app.layout.gpu_metrics_view.text.published(), "");
}

#[test]
fn fdinfo_rows_follow_reverse_toggle() {
    let mut app = tui_app();
    app.update(&ToggleOptions::default(), tstat());
    assert_eq!(app.layout.fdinfo_view.text.published(), "row a\nrow b\n");
    let flags = ToggleOptions { reverse_sort: true, ..ToggleOptions::default() };
    app.update(&flags, tstat());
    assert_eq!(app.layout.fdinfo_view.text.published(), "row b\nrow a\n");
}

#[test]
fn ecc_and_metrics_panels() {
    let mut app = tui_app();
    app.update(&ToggleOptions::default(), tstat());
    assert_eq!(
        app.layout.ecc_view.text.published(),
        "Corrected Errors: 0\nUnCorrectable Errors: 3\n"
    );
    assert_eq!(
        app.layout.gpu_metrics_view.text.published(),
        "Throttle Status: [Ppt]\n"
    );
}

#[test]
fn layout_plan_panels_follow_sample() {
    let mut app = tui_app();
    app.update(&ToggleOptions::default(), tstat());
    let plan = app.view("dashboard");
    assert_eq!(plan.title, "dashboard");
    assert!(plan.show_perf_counters);
    let (title, _) = plan.metrics.unwrap();
    assert_eq!(title, "GPU Metrics v1.3");
    assert!(plan.sensors_text.is_some());
    assert!(plan.ecc_text.is_some());
    let mut bare = tstat();
    bare.sensors = None;
    bare.memory_error_count = None;
    bare.metrics = Some(GpuMetrics { header: None, throttle_status: None });
    app.update(&ToggleOptions::default(), bare);
    let plan2 = app.view("dashboard");
    assert!(plan2.sensors_text.is_none());
    assert!(plan2.ecc_text.is_none());
    let (title2, _) = plan2.metrics.unwrap();
    assert_eq!(title2, "GPU Metrics");
}

#[test]
fn sensor_toggle_flips() {
    let mut opt = ToggleOptions::default();
    assert!(opt.sensor);
    SensorsView::cb(&mut opt);
    assert!(!opt.sensor);
    SensorsView::cb(&mut opt);
    assert!(opt.sensor);
    assert!(opt.fdinfo);
}

#[test]
fn suspended_session_promotes_with_buffer_carried() {
    let sus = SuspendedTuiApp::new(tpath(2, "D2"), false, 1);
    assert_eq!(sus.label(), "#1  D2 (Suspended)");
    assert!(sus.to_tui_app(None).is_none());
    let mut st = tstat();
    st.arc_pcie_bw = Some(BandwidthCell { held: false, value: None });
    let data = DeviceData { device_info: tinfo("D2"), stat: st };
    let app = sus.to_tui_app(Some(data)).unwrap();
    assert_eq!(app.index, 1);
    assert_eq!(app.app_amdgpu_top.device_path.pci, 2);
    assert_eq!(app.label(), "#1  D2");
    // The promoted session keeps the bandwidth cell.
    assert!(app.app_amdgpu_top.stat.arc_pcie_bw.is_some());
}

#[test]
fn sensors_update_replaces_readings() {
    let mut v = SensorsView::new(tsensors());
    let mut s = tsensors();
    s.sclk = Some(123);
    v.update(s);
    v.print();
    assert!(v.text.buf.contains("  123 MHz"));
}
