use payjoin_blackpill_test::device::{
    heap_bytes, is_own_script, receiver_script, usb_product_id, usb_product_name,
    usb_serial_number, waits_for_port_open, FirmwareRole, USB_VENDOR_ID,
};

#[test]
fn product_ids() {
    assert_eq!(USB_VENDOR_ID, 0x16c0);
    assert_eq!(usb_product_id(FirmwareRole::Echo), 0x27dd);
    assert_eq!(usb_product_id(FirmwareRole::Receiver), 0x27dd);
    assert_eq!(usb_product_id(FirmwareRole::Sender), 0x27de);
    assert_eq!(usb_product_id(FirmwareRole::V2Probe), 0x27df);
}

#[test]
fn payjoin_roles_distinguishable() {
    let roles = [FirmwareRole::Receiver, FirmwareRole::Sender, FirmwareRole::V2Probe];
    for a in roles {
        for b in roles {
            if a != b {
                assert_ne!(usb_product_id(a), usb_product_id(b));
                assert_ne!(usb_product_name(a), usb_product_name(b));
            }
        }
    }
}

#[test]
fn strings_and_settings() {
    assert_eq!(usb_product_name(FirmwareRole::Echo), "harness-device USB CDC");
    assert_eq!(usb_product_name(FirmwareRole::Sender), "harness-device sender");
    assert_eq!(usb_serial_number(FirmwareRole::Receiver), "0001");
    assert_eq!(usb_serial_number(FirmwareRole::V2Probe), "0003");
    assert_eq!(heap_bytes(FirmwareRole::Receiver), 16 * 1024);
    assert_eq!(heap_bytes(FirmwareRole::V2Probe), 8 * 1024);
    assert!(waits_for_port_open(FirmwareRole::Sender));
    assert!(!waits_for_port_open(FirmwareRole::Receiver));
}

#[test]
fn receiver_script_is_p2wpkh() {
    let script = receiver_script();
    let mut expected = vec![0x00u8, 0x14];
    expected.extend_from_slice(&[0x22; 20]);
    assert_eq!(script, expected);
    assert!(is_own_script(&script, &expected));
    let mut other = expected.clone();
    other[21] = 0x23;
    assert!(!is_own_script(&script, &other));
    assert!(!is_own_script(&script, &expected[..21]));
}
