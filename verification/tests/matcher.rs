use bbusb::device_error::DeviceError;
use bbusb::enumerate;
use bbusb::usb_transport::{find_usb_device, product_id_allowed, DeviceInfo};

fn device(vendor_id: u16, product_id: u16) -> DeviceInfo {
    DeviceInfo {
        bus_number: 1,
        address: 4,
        vendor_id,
        product_id,
    }
}

#[test]
fn product_allow_list_is_exact() {
    assert!(product_id_allowed(0x8004));
    assert!(product_id_allowed(0x8007));
    assert!(!product_id_allowed(0x9999));
    assert!(!product_id_allowed(0x8005));
    assert!(!product_id_allowed(0x0000));
}

#[test]
fn matcher_selects_matching_device() {
    let scan = vec![
        None,
        Some(device(0x1234, 0x8004)),
        Some(device(0x0FCA, 0x8004)),
    ];
    assert!(matches!(find_usb_device(&scan), Ok(2)));
}

#[test]
fn matcher_empty_scan_is_no_device() {
    let scan: Vec<Option<DeviceInfo>> = Vec::new();
    assert!(matches!(
        find_usb_device(&scan),
        Err(DeviceError::NoDeviceFound)
    ));
}

#[test]
fn matcher_only_nonmatching_is_no_device() {
    let scan = vec![
        Some(device(0x1234, 0x8004)),
        Some(device(0x0FCA, 0x9999)),
        None,
    ];
    assert!(matches!(
        find_usb_device(&scan),
        Err(DeviceError::NoDeviceFound)
    ));
}

#[test]
fn matcher_skips_failed_descriptor_reads() {
    let scan = vec![None, None, Some(device(0x0FCA, 0x8007))];
    assert!(matches!(find_usb_device(&scan), Ok(2)));
}

#[test]
fn matcher_requires_both_vendor_and_product() {
    let wrong_vendor = vec![Some(device(0x1234, 0x8007))];
    assert!(matches!(
        find_usb_device(&wrong_vendor),
        Err(DeviceError::NoDeviceFound)
    ));
    let wrong_product = vec![Some(device(0x0FCA, 0x8005))];
    assert!(matches!(
        find_usb_device(&wrong_product),
        Err(DeviceError::NoDeviceFound)
    ));
}

#[test]
fn matcher_first_match_wins() {
    let scan = vec![
        Some(device(0x0FCA, 0x8004)),
        Some(device(0x0FCA, 0x8007)),
    ];
    assert!(matches!(find_usb_device(&scan), Ok(0)));
}

#[test]
fn matcher_single_match_is_selected() {
    let scan = vec![
        Some(device(0x0FCA, 0x9999)),
        Some(device(0x0FCA, 0x8007)),
        Some(device(0x1234, 0x8004)),
    ];
    assert!(matches!(find_usb_device(&scan), Ok(1)));
}

#[test]
fn enumerate_skips_unreadable_descriptors() {
    let first = device(0x0FCA, 0x8004);
    let second = device(0x1234, 0x5678);
    let scan = vec![Some(first), None, Some(second)];
    let listed = enumerate(&scan);
    assert_eq!(listed.len(), 2);
    assert_eq!(listed[0], first);
    assert_eq!(listed[1], second);
}

#[test]
fn enumerate_empty_scan_lists_nothing() {
    let scan: Vec<Option<DeviceInfo>> = Vec::new();
    assert!(enumerate(&scan).is_empty());
}
