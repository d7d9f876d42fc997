use kmbox_isp::session::{plural_suffix, retry_scan, select_transport, RetryScan, TransportKind};

#[test]
fn usb_is_preferred() {
    assert_eq!(select_transport(true, false), TransportKind::Usb);
    assert_eq!(select_transport(true, true), TransportKind::Usb);
    assert_eq!(select_transport(false, true), TransportKind::Serial);
}

#[test]
fn retry_choices() {
    assert_eq!(retry_scan(0, true, false), RetryScan::Off);
    assert_eq!(retry_scan(0, false, false), RetryScan::Off);
    assert_eq!(retry_scan(5, false, false), RetryScan::NoTransport);
    assert_eq!(retry_scan(5, true, false), RetryScan::Usb);
    assert_eq!(retry_scan(5, true, true), RetryScan::Usb);
    assert_eq!(retry_scan(5, false, true), RetryScan::Serial);
}

#[test]
fn plural_endings() {
    assert_eq!(plural_suffix(0), "s");
    assert_eq!(plural_suffix(1), "");
    assert_eq!(plural_suffix(2), "s");
}
