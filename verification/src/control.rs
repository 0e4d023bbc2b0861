//! Control-transfer setup values, with the `bmRequestType` byte computed by
//! `rusb::request_type`.

use vstd::prelude::*;
use rusb::{Direction, Recipient, RequestType};

verus! {

/// Direction of a control request's data stage.
#[derive(Debug, Clone, Copy, PartialEq, Eq, Structural)]
pub enum RequestDirection {
    In,
    Out,
}

/// Who defines a control request.
#[derive(Debug, Clone, Copy, PartialEq, Eq, Structural)]
pub enum RequestKind {
    Standard,
    Class,
    Vendor,
    Reserved,
}

/// Who receives a control request.
#[derive(Debug, Clone, Copy, PartialEq, Eq, Structural)]
pub enum RequestRecipient {
    Device,
    Interface,
    Endpoint,
    Other,
}

/// Bit 7 of `bmRequestType`.
pub open spec fn direction_bits(d: RequestDirection) -> int {
    match d {
        RequestDirection::In => 0x80,
        RequestDirection::Out => 0x00,
    }
}

/// Bits 5 and 6 of `bmRequestType`.
pub open spec fn kind_bits(k: RequestKind) -> int {
    match k {
        RequestKind::Standard => 0x00,
        RequestKind::Class => 0x20,
        RequestKind::Vendor => 0x40,
        RequestKind::Reserved => 0x60,
    }
}

/// Bits 0 to 4 of `bmRequestType`.
pub open spec fn recipient_bits(r: RequestRecipient) -> int {
    match r {
        RequestRecipient::Device => 0,
        RequestRecipient::Interface => 1,
        RequestRecipient::Endpoint => 2,
        RequestRecipient::Other => 3,
    }
}

/// `rusb::request_type`: ORs the direction bit (IN 0x80, OUT 0x00), the
/// request type (standard 0x00, class 0x20, vendor 0x40, reserved 0x60) and
/// the recipient (device 0, interface 1, endpoint 2, other 3), as its
/// source does with the libusb constants; the fields do not overlap, so the
/// OR is their sum.
#[verifier::external_body]
fn usb_request_type(d: RequestDirection, k: RequestKind, r: RequestRecipient) -> (t: u8)
    ensures
        t == direction_bits(d) + kind_bits(k) + recipient_bits(r),
{
    rusb::request_type(
        match d { RequestDirection::In => Direction::In, RequestDirection::Out => Direction::Out },
        match k {
            RequestKind::Standard => RequestType::Standard, RequestKind::Class => RequestType::Class,
            RequestKind::Vendor => RequestType::Vendor, RequestKind::Reserved => RequestType::Reserved,
        },
        match r {
            RequestRecipient::Device => Recipient::Device, RequestRecipient::Interface => Recipient::Interface,
            RequestRecipient::Endpoint => Recipient::Endpoint, RequestRecipient::Other => Recipient::Other,
        },
    )
}

/// The setup stage of a control transfer.
#[derive(Debug, Clone, Copy, PartialEq, Eq, Structural)]
pub struct ControlSetup {
    pub request_type: u8,
    pub request: u8,
    pub value: u16,
    pub index: u16,
}

/// `bRequest` of the Bulk-Only Mass Storage Reset.
pub const BULK_ONLY_RESET: u8 = 0xFF;

/// The Bulk-Only Mass Storage Reset of interface `interface_number`: a
/// class request to the interface with no data stage.
pub fn mass_storage_reset(interface_number: u8) -> (s: ControlSetup)
    ensures
        s.request_type == 0x21,
        s.request == BULK_ONLY_RESET,
        s.value == 0,
        s.index == interface_number,
{
    let request_type = usb_request_type(RequestDirection::Out, RequestKind::Class, RequestRecipient::Interface);
    ControlSetup { request_type, request: BULK_ONLY_RESET, value: 0, index: interface_number as u16 }
}

} // verus!
