use wasi_usb::csw::{validate_csw, CswError, CSW_LEN, CSW_SIGNATURE};
use wasi_usb::transfer::{
    BulkTransfer, DataDirection, TransferAction, TransferError, TransferEvent, TransferPolicy,
};

fn csw(tag: u32, status: u8) -> Vec<u8> {
    let mut v = CSW_SIGNATURE.to_le_bytes().to_vec();
    v.extend_from_slice(&tag.to_le_bytes());
    v.extend_from_slice(&[0, 0, 0, 0, status]);
    v
}

const STRICT: TransferPolicy = TransferPolicy { whole_command: true, repeat: true, check_status: true };
const SINGLE: TransferPolicy = TransferPolicy { whole_command: true, repeat: false, check_status: true };
const LOOSE: TransferPolicy = TransferPolicy { whole_command: false, repeat: false, check_status: false };

#[test]
fn csw_signature_spells_usbs() {
    assert_eq!(CSW_SIGNATURE.to_le_bytes(), *b"USBS");
    assert_eq!(csw(1, 0).len(), CSW_LEN);
}

#[test]
fn csw_echo_is_accepted() {
    assert_eq!(validate_csw(&csw(77, 0), 77), Ok(()));
}

#[test]
fn csw_bad_signature() {
    let mut c = csw(5, 0);
    c[3] = 0x43;
    assert_eq!(validate_csw(&c, 5), Err(CswError::BadSignature { signature: 0x4342_5355 }));
}

#[test]
fn csw_tag_mismatch() {
    assert_eq!(
        validate_csw(&csw(5, 0), 6),
        Err(CswError::TagMismatch { received: 5, expected: 6 })
    );
}

#[test]
fn csw_failed_status() {
    assert_eq!(validate_csw(&csw(5, 1), 5), Err(CswError::Failed { status: 1 }));
    assert_eq!(validate_csw(&csw(5, 2), 6), Err(CswError::TagMismatch { received: 5, expected: 6 }));
}

#[test]
fn transfer_read_in_pieces_succeeds() {
    let mut t = BulkTransfer::new(STRICT, 7, DataDirection::FromDevice, 1024);
    assert!(matches!(t.action(), TransferAction::SendCommand));
    assert_eq!(t.data_transfer_length(), 1024);
    assert!(matches!(t.step(TransferEvent::Wrote { count: 31 }), TransferAction::ReceiveData { offset: 0 }));
    assert!(matches!(t.step(TransferEvent::ReadData { count: 512 }), TransferAction::ReceiveData { offset: 512 }));
    assert!(matches!(t.step(TransferEvent::ReadData { count: 512 }), TransferAction::ReceiveStatus { offset: 0 }));
    let c = csw(7, 0);
    assert!(matches!(
        t.step(TransferEvent::ReadStatus { bytes: c[..5].to_vec() }),
        TransferAction::ReceiveStatus { offset: 5 }
    ));
    assert!(matches!(
        t.step(TransferEvent::ReadStatus { bytes: c[5..].to_vec() }),
        TransferAction::Complete { outcome: Ok(()) }
    ));
}

#[test]
fn transfer_short_command_fails() {
    let mut t = BulkTransfer::new(STRICT, 1, DataDirection::ToDevice, 512);
    assert!(matches!(
        t.step(TransferEvent::Wrote { count: 20 }),
        TransferAction::Complete { outcome: Err(TransferError::ShortCommand { sent: 20 }) }
    ));
}

#[test]
fn transfer_short_status_fails_when_repeating() {
    let mut t = BulkTransfer::new(STRICT, 3, DataDirection::NoData, 0);
    assert_eq!(t.data_transfer_length(), 0);
    assert!(matches!(t.step(TransferEvent::Wrote { count: 31 }), TransferAction::ReceiveStatus { offset: 0 }));
    let c = csw(3, 0);
    assert!(matches!(
        t.step(TransferEvent::ReadStatus { bytes: c[..5].to_vec() }),
        TransferAction::ReceiveStatus { offset: 5 }
    ));
    assert!(matches!(
        t.step(TransferEvent::ReadStatus { bytes: Vec::new() }),
        TransferAction::Complete { outcome: Err(TransferError::Status(CswError::Short { length: 5 })) }
    ));
}

#[test]
fn transfer_write_repeats_until_all_sent() {
    let mut t = BulkTransfer::new(STRICT, 9, DataDirection::ToDevice, 512);
    assert!(matches!(t.step(TransferEvent::Wrote { count: 31 }), TransferAction::SendData { offset: 0 }));
    assert!(matches!(t.step(TransferEvent::Wrote { count: 100 }), TransferAction::SendData { offset: 100 }));
    assert!(matches!(t.step(TransferEvent::Wrote { count: 412 }), TransferAction::ReceiveStatus { offset: 0 }));
    assert!(matches!(
        t.step(TransferEvent::ReadStatus { bytes: csw(9, 0) }),
        TransferAction::Complete { outcome: Ok(()) }
    ));
}

#[test]
fn transfer_read_stops_when_device_sends_nothing() {
    let mut t = BulkTransfer::new(STRICT, 2, DataDirection::FromDevice, 4096);
    t.step(TransferEvent::Wrote { count: 31 });
    assert!(matches!(t.step(TransferEvent::ReadData { count: 0 }), TransferAction::ReceiveStatus { offset: 0 }));
}

#[test]
fn transfer_single_pass_checks_tag() {
    let mut t = BulkTransfer::new(SINGLE, 10, DataDirection::FromDevice, 512);
    assert!(matches!(t.step(TransferEvent::Wrote { count: 31 }), TransferAction::ReceiveData { offset: 0 }));
    assert!(matches!(t.step(TransferEvent::ReadData { count: 100 }), TransferAction::ReceiveStatus { offset: 0 }));
    assert!(matches!(
        t.step(TransferEvent::ReadStatus { bytes: csw(11, 0) }),
        TransferAction::Complete {
            outcome: Err(TransferError::Status(CswError::TagMismatch { received: 11, expected: 10 }))
        }
    ));
}

#[test]
fn transfer_single_pass_pads_short_status() {
    let mut t = BulkTransfer::new(SINGLE, 4, DataDirection::NoData, 0);
    t.step(TransferEvent::Wrote { count: 31 });
    let c = csw(4, 0);
    assert!(matches!(
        t.step(TransferEvent::ReadStatus { bytes: c[..12].to_vec() }),
        TransferAction::Complete { outcome: Ok(()) }
    ));
}

#[test]
fn transfer_loose_policy_ignores_status() {
    let mut t = BulkTransfer::new(LOOSE, 1, DataDirection::FromDevice, 512);
    assert!(matches!(t.step(TransferEvent::Wrote { count: 10 }), TransferAction::ReceiveData { offset: 0 }));
    assert!(matches!(t.step(TransferEvent::ReadData { count: 512 }), TransferAction::ReceiveStatus { offset: 0 }));
    assert!(matches!(
        t.step(TransferEvent::ReadStatus { bytes: vec![0xAA; 3] }),
        TransferAction::Complete { outcome: Ok(()) }
    ));
}
