use sidewinder_wheel::devices::{list_devices, open_failure_message, DeviceEntry};

fn wheel() -> DeviceEntry {
    DeviceEntry {
        vendor_id: 0x045e,
        product_id: 0x001b,
        usage_page: 0x0001,
        usage: 0x0004,
        manufacturer: Some("Microsoft".to_string()),
        product: None,
        serial: None,
        path: "/dev/hidraw0".to_string(),
    }
}

#[test]
fn empty_listing() {
    assert_eq!(
        list_devices(&[]),
        vec![
            "┌─────────────────────────────────────────────────────────────────┐",
            "│  HID device list                                                │",
            "└─────────────────────────────────────────────────────────────────┘",
            "  (no HID devices found — check permissions or udev rules)",
        ]
    );
}

#[test]
fn listing_of_one_device() {
    let lines = list_devices(&[wheel()]);
    assert_eq!(
        lines[3..].to_vec(),
        vec![
            "  VID=0x045e  PID=0x001b  usage_page=0x0001  usage=0x0004",
            "    manufacturer : Microsoft",
            "    product      : (none)",
            "    serial       : (none)",
            "    path         : /dev/hidraw0",
            "",
        ]
    );
}

#[test]
fn listing_holds_every_device_in_order() {
    let mut devices: Vec<DeviceEntry> = Vec::new();
    for i in 0u16..20 {
        devices.push(DeviceEntry {
            product_id: i * 0x0c31,
            product: Some(format!("device {}", i)),
            serial: Some(format!("s{}", i)),
            ..wheel()
        });
    }
    let lines = list_devices(&devices);
    assert_eq!(lines.len(), 3 + 6 * devices.len());
    for (i, d) in devices.iter().enumerate() {
        assert_eq!(
            lines[3 + 6 * i],
            format!("  VID=0x045e  PID=0x{:04x}  usage_page=0x0001  usage=0x0004", d.product_id)
        );
        assert_eq!(lines[5 + 6 * i], format!("    product      : device {}", i));
        assert_eq!(lines[6 + 6 * i], format!("    serial       : s{}", i));
    }
}

#[test]
fn message_when_the_wheel_cannot_be_opened() {
    assert_eq!(
        open_failure_message(0x045e, 0x001b, "no such device"),
        "Could not open HID device VID=0x045e PID=0x001b: no such device\n\n\
         Troubleshooting:\n\
         • Run `sidewinder-wheel --list` to enumerate devices.\n\
         • Verify VID/PID with `lsusb | grep -i sidewinder`.\n\
         • Check permissions: `ls -l /dev/hidraw*`\n\
         • Add udev rules (see README) or run with: sudo sidewinder-wheel\n\
         • The wheel may need a different PID — use --pid 0xXXXX to override."
    );
}
