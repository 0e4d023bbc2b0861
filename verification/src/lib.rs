//! Verified core of a USB benchmarking and capture toolkit: the byte-level
//! Bulk-Only Transport (mass storage) protocol, the decisions of the
//! benchmark drivers, and the UVC frame handling of the webcam guest.

pub mod bytes_le;
pub mod bytes_buf;
pub mod cbw;
pub mod csw;
pub mod transfer;
pub mod storage;
pub mod window;
pub mod args;
pub mod bench;
pub mod descriptor;
pub mod control;
pub mod camera;
pub mod jpeg;
pub mod uvc;
