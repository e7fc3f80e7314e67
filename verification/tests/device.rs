use co2mon::{
    find_device, CO2MonitorInfo, Candidate, CO2MON_HID_PRODUCT_ID, CO2MON_HID_VENDOR_ID,
};

fn monitor(path: &str) -> Candidate {
    Candidate {
        vendor_id: CO2MON_HID_VENDOR_ID,
        product_id: CO2MON_HID_PRODUCT_ID,
        path: Some(path.to_owned()),
    }
}

fn other(vendor_id: u16, product_id: u16, path: &str) -> Candidate {
    Candidate { vendor_id, product_id, path: Some(path.to_owned()) }
}

#[test]
fn monitor_identifiers() {
    assert_eq!(CO2MON_HID_VENDOR_ID, 0x04d9);
    assert_eq!(CO2MON_HID_PRODUCT_ID, 0xa052);
}

#[test]
fn first_monitor_is_chosen_without_a_path() {
    let devices = vec![
        other(0x046d, 0xc52b, "1-1:1.0"),
        other(0x04d9, 0x0001, "1-2:1.0"),
        other(0x0001, 0xa052, "1-3:1.0"),
        monitor("1-13:1.0"),
        monitor("1-14:1.0"),
    ];
    assert_eq!(find_device(&devices, &None), Some(3));
}

#[test]
fn monitor_with_unreadable_path_is_chosen_without_a_path() {
    let devices = vec![Candidate {
        vendor_id: CO2MON_HID_VENDOR_ID,
        product_id: CO2MON_HID_PRODUCT_ID,
        path: None,
    }];
    assert_eq!(find_device(&devices, &None), Some(0));
}

#[test]
fn monitor_at_the_wanted_path_is_chosen() {
    let devices = vec![
        other(0x046d, 0xc52b, "1-14:1.0"),
        monitor("1-13:1.0"),
        monitor("1-14:1.0"),
        monitor("1-14:1.0"),
    ];
    assert_eq!(find_device(&devices, &Some("1-14:1.0".to_owned())), Some(2));
    assert_eq!(find_device(&devices, &Some("1-13:1.0".to_owned())), Some(1));
}

#[test]
fn no_device_is_chosen_when_none_fits() {
    let devices = vec![other(0x046d, 0xc52b, "1-1:1.0"), monitor("1-13:1.0")];
    assert_eq!(find_device(&devices, &Some("1-13:1.1".to_owned())), None);
    assert_eq!(find_device(&devices, &Some("1-1:1.0".to_owned())), None);
    assert_eq!(find_device(&Vec::new(), &None), None);
    assert_eq!(find_device(&vec![other(1, 2, "x")], &None), None);
}

#[test]
fn info_keeps_what_the_device_gives() {
    let info = CO2MonitorInfo::assemble(
        0x04d9,
        0xa052,
        Some("1-13:1.0".to_owned()),
        Some("Holtek".to_owned()),
        Some("USB-zyTemp".to_owned()),
        Some("1.40".to_owned()),
    );
    assert_eq!(info.vendor_id, 0x04d9);
    assert_eq!(info.product_id, 0xa052);
    assert_eq!(info.path, "1-13:1.0");
    assert_eq!(info.manufacturer, "Holtek");
    assert_eq!(info.product_name, "USB-zyTemp");
    assert_eq!(info.serial_no, "1.40");
}

#[test]
fn info_fills_in_what_the_device_lacks() {
    let info = CO2MonitorInfo::assemble(1, 2, None, None, None, None);
    assert_eq!(info.vendor_id, 1);
    assert_eq!(info.product_id, 2);
    assert_eq!(info.path, "Error");
    assert_eq!(info.manufacturer, "None provided");
    assert_eq!(info.product_name, "None provided");
    assert_eq!(info.serial_no, "None provided");
    let mixed = CO2MonitorInfo::assemble(1, 2, Some("p".to_owned()), None, Some("n".to_owned()), None);
    assert_eq!(mixed.path, "p");
    assert_eq!(mixed.manufacturer, "None provided");
    assert_eq!(mixed.product_name, "n");
    assert_eq!(mixed.serial_no, "None provided");
}
