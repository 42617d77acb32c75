use amdgpu_top_tui::device::DevicePath;
use amdgpu_top_tui::select::{device_list, from_main_opt, select_apu, DeviceListEntry, SelectError};

fn spath(pci: u64, name: &str) -> DevicePath {
    DevicePath {
        pci,
        pci_bus: format!("0000:{:02x}:00.0", pci),
        device_id: 0x73DF,
        revision_id: 0xC1,
        device_name: String::from(name),
    }
}

#[test]
fn device_list_formats_each_acquired_device() {
    let entries = vec![
        Some(DeviceListEntry {
            name: String::from("AMD Radeon RX 6700 XT"),
            device_id: 0x73DF,
            revision_id: 0xC1,
        }),
        None,
        Some(DeviceListEntry {
            name: String::from("AMD Ryzen iGPU"),
            device_id: 0x1638,
            revision_id: 0xC4,
        }),
    ];
    let expected = format!(
        "#0:\n    AMD Radeon RX 6700 XT ({:#X}.{:#X})\n#2:\n    AMD Ryzen iGPU ({:#X}.{:#X})\n",
        0x73DF, 0xC1, 0x1638, 0xC4
    );
    assert_eq!(device_list(&entries), expected);
}

#[test]
fn selection_by_pci_finds_first_match() {
    let list = vec![spath(1, "a"), spath(2, "b"), spath(3, "c")];
    let d = from_main_opt(Some(2), None, &list).unwrap();
    assert_eq!(d.pci, 2);
    assert_eq!(d.device_name, "b");
}

#[test]
fn selection_by_unknown_pci_errs() {
    let list = vec![spath(1, "a")];
    assert_eq!(
        from_main_opt(Some(9), None, &list).unwrap_err(),
        SelectError::PciNotFound
    );
}

#[test]
fn selection_by_instance() {
    let list = vec![spath(1, "a"), spath(2, "b")];
    let d = from_main_opt(None, Some(1), &list).unwrap();
    assert_eq!(d.pci, 2);
    assert_eq!(
        from_main_opt(None, Some(2), &list).unwrap_err(),
        SelectError::IndexOutOfBounds
    );
}

#[test]
fn selection_defaults_to_first() {
    let list = vec![spath(7, "first"), spath(8, "second")];
    let d = from_main_opt(None, None, &list).unwrap();
    assert_eq!(d.pci, 7);
}

#[test]
fn pci_takes_precedence_over_instance() {
    let list = vec![spath(1, "a"), spath(2, "b")];
    let d = from_main_opt(Some(1), Some(1), &list).unwrap();
    assert_eq!(d.pci, 1);
}

#[test]
fn apu_search_skips_unreachable_devices() {
    let probed = vec![
        (spath(1, "dgpu"), Some(false)),
        (spath(2, "broken"), None),
        (spath(3, "apu"), Some(true)),
        (spath(4, "apu2"), Some(true)),
    ];
    let d = select_apu(&probed).unwrap();
    assert_eq!(d.pci, 3);
    assert_eq!(d.device_name, "apu");
}

#[test]
fn apu_search_errs_when_none_integrated() {
    let probed = vec![(spath(1, "dgpu"), Some(false)), (spath(2, "broken"), None)];
    assert_eq!(select_apu(&probed).unwrap_err(), SelectError::NoApu);
}
