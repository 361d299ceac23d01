use mouse_sensitivity::hid::{
    device_from_properties, devices_from_services, is_excluded_device, HidError, PointerDevice, ServiceProperties,
};

#[test]
fn trackpads_keyboards_and_spi_are_not_mice() {
    assert!(is_excluded_device("Magic Trackpad", None));
    assert!(is_excluded_device("Apple Internal KEYBOARD / Trackpad", Some("SPI")));
    assert!(is_excluded_device("Something", Some("SPI")));
    assert!(!is_excluded_device("Razer Viper", Some("USB")));
    assert!(!is_excluded_device("Razer Viper", Some("spi")));
}

#[test]
fn devices_from_service_properties() {
    assert_eq!(
        device_from_properties(None, Some("Bluetooth".to_string()), Some(1), None),
        Some(PointerDevice { name: "Unknown Device".to_string(), vendor_id: Some(1), product_id: None })
    );
    assert_eq!(device_from_properties(Some("Magic Trackpad 2".to_string()), None, Some(1), Some(2)), None);
}

#[test]
fn hid_error_messages() {
    assert_eq!(HidError::ClientCreationFailed.message(), "Failed to create HID event system client");
    assert_eq!(HidError::NoDevicesFound.message(), "No mouse devices found");
    assert_eq!(
        HidError::PropertySetFailed("acceleration".to_string()).message(),
        "Failed to set property: acceleration"
    );
}

fn service(product: Option<&str>, transport: Option<&str>, vid: Option<i64>, pid: Option<i64>) -> ServiceProperties {
    ServiceProperties {
        product: product.map(|s| s.to_string()),
        transport: transport.map(|s| s.to_string()),
        vendor_id: vid,
        product_id: pid,
    }
}

#[test]
fn no_services_is_no_devices_found() {
    assert!(matches!(devices_from_services(&Vec::new()), Err(HidError::NoDevicesFound)));
}

#[test]
fn mice_among_services_keep_their_order_and_position() {
    let services = vec![
        service(Some("Apple Internal Keyboard / Trackpad"), Some("SPI"), Some(0x05AC), Some(1)),
        service(Some("Razer Viper"), Some("USB"), Some(0x1532), Some(0x78)),
        service(Some("Magic Trackpad"), Some("Bluetooth"), Some(0x05AC), Some(2)),
        service(None, None, None, None),
    ];
    let found = devices_from_services(&services).unwrap();
    assert_eq!(
        found,
        vec![
            (1, PointerDevice { name: "Razer Viper".to_string(), vendor_id: Some(0x1532), product_id: Some(0x78) }),
            (3, PointerDevice { name: "Unknown Device".to_string(), vendor_id: None, product_id: None }),
        ]
    );
    let only_trackpads = vec![service(Some("Magic Trackpad"), None, Some(1), Some(2))];
    assert_eq!(devices_from_services(&only_trackpads), Ok(vec![]));
}
