use print_transport::error::ErrorKind;
use print_transport::listing::{describe_ports, serial_list_ports};
use print_transport::ports::{Attachment, BusType, PortDescriptor, ReportedPort, UsbIdentity};

fn plain(name: &str, attachment: Attachment) -> ReportedPort {
    ReportedPort { name: name.to_string(), attachment }
}

fn usb(vendor_id: u16, product_id: u16) -> Attachment {
    Attachment::Usb(UsbIdentity {
        vendor_id,
        product_id,
        serial_number: None,
        manufacturer: None,
        product: None,
    })
}

fn names(listing: &[PortDescriptor]) -> Vec<String> {
    listing.iter().map(|port| port.name().clone()).collect()
}

#[test]
fn lists_com1_before_com3() {
    let reported = vec![plain("COM3", Attachment::Unknown), plain("COM1", Attachment::Unknown)];
    let listing = describe_ports(reported);
    assert_eq!(names(&listing), vec!["COM1".to_string(), "COM3".to_string()]);
}

#[test]
fn lists_nothing_where_nothing_is_reported() {
    let listing = describe_ports(Vec::new());
    assert!(listing.is_empty());
    let outcome = serial_list_ports(Ok(Vec::new()));
    assert!(matches!(outcome, Ok(ref ports) if ports.is_empty()));
}

#[test]
fn keeps_a_single_port() {
    let listing = describe_ports(vec![plain("/dev/ttyS0", Attachment::Pci)]);
    assert_eq!(listing.len(), 1);
    assert_eq!(listing[0].name(), "/dev/ttyS0");
    assert_eq!(listing[0].bus_type(), BusType::Pci);
}

#[test]
fn orders_names_by_their_bytes() {
    let reported = vec![
        plain("com1", Attachment::Unknown),
        plain("/dev/ttyUSB2", Attachment::Unknown),
        plain("COM10", Attachment::Unknown),
        plain("é", Attachment::Unknown),
        plain("/dev/ttyUSB10", Attachment::Unknown),
        plain("", Attachment::Unknown),
        plain("COM1", Attachment::Unknown),
        plain("z", Attachment::Unknown),
        plain("COM", Attachment::Unknown),
    ];
    let listing = describe_ports(reported);
    assert_eq!(
        names(&listing),
        vec![
            "".to_string(),
            "/dev/ttyUSB10".to_string(),
            "/dev/ttyUSB2".to_string(),
            "COM".to_string(),
            "COM1".to_string(),
            "COM10".to_string(),
            "com1".to_string(),
            "z".to_string(),
            "é".to_string(),
        ]
    );
}

#[test]
fn listing_names_never_descend() {
    let reported = vec![
        plain("ttyS3", Attachment::Pci),
        plain("rfcomm0", Attachment::Bluetooth),
        plain("ttyUSB1", usb(0x0483, 0x5740)),
        plain("ttyACM0", usb(0x1a86, 0x7523)),
        plain("ttyS0", Attachment::Pci),
        plain("ttyUSB0", usb(0x04b8, 0x0202)),
    ];
    let listing = describe_ports(reported);
    assert_eq!(listing.len(), 6);
    for pair in listing.windows(2) {
        assert!(pair[0].name() <= pair[1].name());
    }
}

#[test]
fn ports_of_one_name_keep_their_order() {
    let reported = vec![
        plain("COM7", Attachment::Bluetooth),
        plain("COM2", Attachment::Pci),
        plain("COM7", usb(1, 2)),
        plain("COM2", Attachment::Unknown),
        plain("COM7", Attachment::Pci),
    ];
    let listing = describe_ports(reported);
    let seen: Vec<(String, BusType)> =
        listing.iter().map(|port| (port.name().clone(), port.bus_type())).collect();
    assert_eq!(
        seen,
        vec![
            ("COM2".to_string(), BusType::Pci),
            ("COM2".to_string(), BusType::Unknown),
            ("COM7".to_string(), BusType::Bluetooth),
            ("COM7".to_string(), BusType::Usb),
            ("COM7".to_string(), BusType::Pci),
        ]
    );
}

#[test]
fn listing_agrees_with_a_stable_sort() {
    let mut state: u32 = 0x2545_f491;
    for round in 0..40 {
        let mut reported = Vec::new();
        let count = round % 13;
        for index in 0..count {
            state = state.wrapping_mul(1_664_525).wrapping_add(1_013_904_223);
            let letter = (b'a' + ((state >> 24) % 3) as u8) as char;
            state = state.wrapping_mul(1_664_525).wrapping_add(1_013_904_223);
            let digits = (state >> 24) % 4;
            let name = format!("{}{}", letter, "1".repeat(digits as usize));
            reported.push(plain(&name, usb(index as u16, round as u16)));
        }
        let mut expected: Vec<(String, Option<u16>)> =
            reported.iter().enumerate().map(|(i, port)| (port.name.clone(), Some(i as u16))).collect();
        expected.sort_by_key(|entry| entry.0.clone());
        let listing = describe_ports(reported);
        let seen: Vec<(String, Option<u16>)> =
            listing.iter().map(|port| (port.name().clone(), port.vendor_id())).collect();
        assert_eq!(seen, expected);
    }
}

#[test]
fn usb_port_carries_what_the_driver_reports() {
    let reported = vec![plain(
        "/dev/ttyUSB0",
        Attachment::Usb(UsbIdentity {
            vendor_id: 0x04b8,
            product_id: 0x0e15,
            serial_number: Some("583834".to_string()),
            manufacturer: Some("EPSON".to_string()),
            product: Some("TM-T20II".to_string()),
        }),
    )];
    let listing = describe_ports(reported);
    let port = &listing[0];
    assert_eq!(port.name(), "/dev/ttyUSB0");
    assert_eq!(port.bus_type(), BusType::Usb);
    assert_eq!(port.vendor_id(), Some(0x04b8));
    assert_eq!(port.product_id(), Some(0x0e15));
    assert_eq!(port.serial_number(), &Some("583834".to_string()));
    assert_eq!(port.manufacturer(), &Some("EPSON".to_string()));
    assert_eq!(port.product(), &Some("TM-T20II".to_string()));
}

#[test]
fn usb_port_without_strings_still_has_both_ids() {
    let listing = describe_ports(vec![plain("COM4", usb(0, 0xffff))]);
    let port = &listing[0];
    assert_eq!(port.bus_type(), BusType::Usb);
    assert_eq!(port.vendor_id(), Some(0));
    assert_eq!(port.product_id(), Some(0xffff));
    assert_eq!(port.serial_number(), &None);
    assert_eq!(port.manufacturer(), &None);
    assert_eq!(port.product(), &None);
}

#[test]
fn usb_port_may_lack_any_of_the_strings() {
    let listing = describe_ports(vec![plain(
        "COM9",
        Attachment::Usb(UsbIdentity {
            vendor_id: 7,
            product_id: 8,
            serial_number: None,
            manufacturer: Some("ACME".to_string()),
            product: None,
        }),
    )]);
    let port = &listing[0];
    assert_eq!(port.manufacturer(), &Some("ACME".to_string()));
    assert_eq!(port.serial_number(), &None);
    assert_eq!(port.product(), &None);
}

#[test]
fn other_buses_carry_no_usb_fields() {
    let reported = vec![
        plain("a", Attachment::Bluetooth),
        plain("b", Attachment::Pci),
        plain("c", Attachment::Unknown),
    ];
    let listing = describe_ports(reported);
    let buses: Vec<BusType> = listing.iter().map(|port| port.bus_type()).collect();
    assert_eq!(buses, vec![BusType::Bluetooth, BusType::Pci, BusType::Unknown]);
    for port in &listing {
        assert_eq!(port.vendor_id(), None);
        assert_eq!(port.product_id(), None);
        assert_eq!(port.serial_number(), &None);
        assert_eq!(port.manufacturer(), &None);
        assert_eq!(port.product(), &None);
    }
}

#[test]
fn ids_are_present_exactly_on_usb_ports() {
    let reported = vec![
        plain("p4", usb(1, 1)),
        plain("p3", Attachment::Bluetooth),
        plain("p2", usb(2, 2)),
        plain("p1", Attachment::Pci),
        plain("p0", Attachment::Unknown),
    ];
    for port in describe_ports(reported) {
        let is_usb = port.bus_type() == BusType::Usb;
        assert_eq!(port.vendor_id().is_some(), is_usb);
        assert_eq!(port.product_id().is_some(), is_usb);
    }
}

#[test]
fn describes_one_reported_port() {
    let port = PortDescriptor::describe(plain("rfcomm0", Attachment::Bluetooth));
    assert_eq!(port.name(), "rfcomm0");
    assert_eq!(port.bus_type(), BusType::Bluetooth);
    assert_eq!(port.vendor_id(), None);
}

#[test]
fn a_copy_of_a_descriptor_holds_the_same() {
    let port = PortDescriptor::describe(plain(
        "COM5",
        Attachment::Usb(UsbIdentity {
            vendor_id: 10,
            product_id: 20,
            serial_number: Some("s".to_string()),
            manufacturer: None,
            product: Some("p".to_string()),
        }),
    ));
    let copy = port.clone();
    assert_eq!(copy.name(), port.name());
    assert_eq!(copy.bus_type(), port.bus_type());
    assert_eq!(copy.vendor_id(), Some(10));
    assert_eq!(copy.product_id(), Some(20));
    assert_eq!(copy.serial_number(), &Some("s".to_string()));
    assert_eq!(copy.manufacturer(), &None);
    assert_eq!(copy.product(), &Some("p".to_string()));
}

#[test]
fn bus_types_have_lower_case_labels() {
    assert_eq!(BusType::Usb.label(), "usb");
    assert_eq!(BusType::Bluetooth.label(), "bluetooth");
    assert_eq!(BusType::Pci.label(), "pci");
    assert_eq!(BusType::Unknown.label(), "unknown");
}

#[test]
fn a_scan_that_worked_gives_the_listing() {
    let scan = Ok(vec![plain("COM3", usb(5, 6)), plain("COM1", Attachment::Pci)]);
    let listing = serial_list_ports(scan).expect("a listing");
    assert_eq!(names(&listing), vec!["COM1".to_string(), "COM3".to_string()]);
    assert_eq!(listing[1].vendor_id(), Some(5));
}

#[test]
fn a_scan_that_failed_fails_the_call() {
    let outcome = serial_list_ports(Err("permission denied".to_string()));
    let error = outcome.expect_err("no listing");
    assert_eq!(error.kind, ErrorKind::EnumerationError);
    assert_eq!(error.message, "Unable to list serial ports: permission denied");
}
