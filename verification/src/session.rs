//! Choices the command-line front end makes before it talks to a device.

use vstd::prelude::*;

verus! {

/// The transport layer a session runs over.
#[derive(Debug, Clone, Copy, PartialEq, Eq, Structural)]
pub enum TransportKind {
    /// A USB device.
    Usb,
    /// A serial port.
    Serial,
}

/// The transport a flashing session opens: USB when it is selected,
/// otherwise the serial port; at least one of the two must be selected.
pub fn select_transport(usb: bool, serial: bool) -> (kind: TransportKind)
    requires
        usb || serial,
    ensures
        kind == (if usb {
            TransportKind::Usb
        } else {
            TransportKind::Serial
        }),
{
    if usb {
        TransportKind::Usb
    } else {
        TransportKind::Serial
    }
}

/// What to do before running a command when a retry time was given.
#[derive(Debug, Clone, Copy, PartialEq, Eq, Structural)]
pub enum RetryScan {
    /// No retry time: go on at once.
    Off,
    /// A retry time but no transport selected: warn and go on.
    NoTransport,
    /// Scan for USB devices until one is found or the time is up.
    Usb,
    /// Scan for serial ports until one is found or the time is up.
    Serial,
}

/// How the scan before a command is retried: not at all for a retry time of
/// zero seconds, a warning when neither transport is selected, else a scan
/// of the USB devices (preferred) or of the serial ports.
pub fn retry_scan(retry_secs: u32, usb: bool, serial: bool) -> (r: RetryScan)
    ensures
        r == (if retry_secs == 0 {
            RetryScan::Off
        } else if !usb && !serial {
            RetryScan::NoTransport
        } else if usb {
            RetryScan::Usb
        } else {
            RetryScan::Serial
        }),
{
    if retry_secs == 0 {
        RetryScan::Off
    } else if !usb && !serial {
        RetryScan::NoTransport
    } else if usb {
        RetryScan::Usb
    } else {
        RetryScan::Serial
    }
}

/// The plural ending of a count in messages: none for exactly one, `s`
/// otherwise.
pub fn plural_suffix(count: usize) -> (suffix: &'static str)
    ensures
        suffix@ == (if count == 1 {
            ""@
        } else {
            "s"@
        }),
{
    match count {
        1 => "",
        _ => "s",
    }
}

} // verus!
