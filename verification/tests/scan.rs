use ble_transfer::scan::readable_devices;

#[test]
fn peripherals_with_properties_are_kept_in_order() {
    let found: Vec<(Result<Option<&str>, String>, u32)> = vec![
        (Ok(Some("lamp")), 1),
        (Ok(None), 2),
        (Err("gone".to_string()), 3),
        (Ok(Some("strip")), 4),
        (Ok(Some("lamp")), 5),
    ];
    assert_eq!(readable_devices(found), vec![(1, "lamp"), (4, "strip"), (5, "lamp")]);
}

#[test]
fn nothing_seen_nothing_shown() {
    let found: Vec<(Result<Option<u8>, ()>, u8)> = Vec::new();
    assert!(readable_devices(found).is_empty());
}

#[test]
fn unreadable_peripherals_are_left_out() {
    let found: Vec<(Result<Option<u8>, ()>, u8)> = vec![(Err(()), 1), (Ok(None), 2), (Err(()), 3)];
    assert!(readable_devices(found).is_empty());
}
