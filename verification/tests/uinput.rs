use gigatype::uinput::{device_setup_bytes, input_event_bytes, key_event_bytes, sync_event_bytes};

#[test]
fn key_events_are_laid_out_field_by_field() {
    let mut expected = vec![0u8; 16];
    expected.extend_from_slice(&[1, 0, 29, 0, 1, 0, 0, 0]);
    assert_eq!(key_event_bytes(29, 1, 16, true), expected);
    assert_eq!(key_event_bytes(29, 1, 16, true).len(), 24);
}

#[test]
fn sync_events_are_all_zero_after_the_timestamp() {
    assert_eq!(sync_event_bytes(16, true), vec![0u8; 24]);
    assert_eq!(sync_event_bytes(8, false), vec![0u8; 16]);
}

#[test]
fn negative_values_use_twos_complement_and_byte_order_is_honoured() {
    let mut expected = vec![0u8; 8];
    expected.extend_from_slice(&[0, 1, 0x12, 0x34, 0xff, 0xff, 0xff, 0xfe]);
    assert_eq!(input_event_bytes(1, 0x1234, -2, 8, false), expected);
    let little = input_event_bytes(1, 0x1234, 0x0102_0304, 0, true);
    assert_eq!(little, vec![1, 0, 0x34, 0x12, 4, 3, 2, 1]);
}

#[test]
fn virtual_keyboard_description() {
    let setup = device_setup_bytes(true);
    assert_eq!(setup.len(), 1116);
    let name = b"GigaType virtual keyboard";
    assert_eq!(&setup[..name.len()], name);
    assert!(setup[name.len()..80].iter().all(|&b| b == 0));
    assert_eq!(&setup[80..88], &[3, 0, 0x49, 0x47, 0x59, 0x54, 1, 0]);
    assert!(setup[88..].iter().all(|&b| b == 0));
    let big = device_setup_bytes(false);
    assert_eq!(&big[80..88], &[0, 3, 0x47, 0x49, 0x54, 0x59, 0, 1]);
}
