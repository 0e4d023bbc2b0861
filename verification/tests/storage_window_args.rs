use wasi_usb::args::{parse_unsigned, strip_hex, IntErrorKind};
use wasi_usb::storage::{
    copy_window, read_capacity_response, BlockRead, DeviceCapacity, MassStorageState, ReadDecision,
    SeekTarget,
};
use wasi_usb::window::{StreamWindow, WindowError};

fn ready_reader() -> MassStorageState {
    let mut s = MassStorageState::new();
    let cap = read_capacity_response(&[0, 0, 0x0F, 0xFF, 0, 0, 2, 0]);
    s.set_capacity(cap);
    s
}

#[test]
fn read_capacity_decodes_big_endian() {
    let cap = read_capacity_response(&[0, 0, 0x0F, 0xFF, 0, 0, 2, 0]);
    assert_eq!(cap, DeviceCapacity { size: 4096 * 512, block_length: 512 });
    let big = read_capacity_response(&[0xFF, 0xFF, 0xFF, 0xFF, 0, 0, 0x10, 0]);
    assert_eq!(big, DeviceCapacity { size: (1u64 << 32) * 4096, block_length: 4096 });
}

#[test]
fn default_capacity_is_empty() {
    assert_eq!(DeviceCapacity::default(), DeviceCapacity { size: 0, block_length: 0 });
    let s = MassStorageState::new();
    assert_eq!(s.capacity(), DeviceCapacity::default());
    assert_eq!(s.seek_position(), 0);
}

#[test]
fn tags_count_up_from_one() {
    let mut s = MassStorageState::new();
    assert_eq!(s.next_tag(), 1);
    assert_eq!(s.next_tag(), 2);
    assert_eq!(s.next_tag(), 3);
}

#[test]
fn seek_saturates_at_both_ends() {
    let mut s = ready_reader();
    assert_eq!(s.seek(SeekTarget::Start(100)), 100);
    assert_eq!(s.seek(SeekTarget::Current(-200)), 0);
    assert_eq!(s.seek(SeekTarget::End(-512)), 4096 * 512 - 512);
    assert_eq!(s.seek(SeekTarget::End(10)), 4096 * 512 + 10);
    assert_eq!(s.seek(SeekTarget::Start(u64::MAX - 1)), u64::MAX - 1);
    assert_eq!(s.seek(SeekTarget::Current(5)), u64::MAX);
    assert_eq!(s.seek_position(), u64::MAX);
}

#[test]
fn plan_read_inside_one_block() {
    let mut s = ready_reader();
    s.seek(SeekTarget::Start(1000));
    let d = s.plan_read(10);
    assert_eq!(d, ReadDecision::Fetch(BlockRead { block_address: 1, block_count: 1, offset: 488, copy_len: 10 }));
}

#[test]
fn plan_read_across_blocks_and_finish() {
    let mut s = ready_reader();
    s.seek(SeekTarget::Start(1000));
    let d = s.plan_read(100);
    let expected = BlockRead { block_address: 1, block_count: 2, offset: 488, copy_len: 100 };
    assert_eq!(d, ReadDecision::Fetch(expected));
    s.finish_read(expected, 100);
    assert_eq!(s.seek_position(), 1100);
}

#[test]
fn plan_read_empty_and_past_end() {
    let mut s = ready_reader();
    assert_eq!(s.plan_read(0), ReadDecision::Empty);
    s.seek(SeekTarget::End(-10));
    assert_eq!(s.plan_read(11), ReadDecision::PastEnd);
    assert_eq!(
        s.plan_read(10),
        ReadDecision::Fetch(BlockRead { block_address: 4095, block_count: 1, offset: 502, copy_len: 10 })
    );
}

#[test]
fn copy_window_takes_the_slice() {
    let data: Vec<u8> = (0u8..32).collect();
    let mut buf = [0u8; 5];
    copy_window(&data, 10, &mut buf);
    assert_eq!(buf, [10, 11, 12, 13, 14]);
}

#[test]
fn window_refuses_empty_range() {
    assert!(matches!(StreamWindow::new(10, 5), Err(WindowError::InvalidRange)));
    assert!(matches!(StreamWindow::new(5, 5), Err(WindowError::InvalidRange)));
}

#[test]
fn window_limits_reads_and_seeks() {
    let mut w = match StreamWindow::new(100, 200) {
        Ok(w) => w,
        Err(_) => panic!("valid window refused"),
    };
    assert_eq!(w.position(), 100);
    assert_eq!(w.read_limit(1000), 100);
    w.advance(60);
    assert_eq!(w.read_limit(1000), 40);
    assert_eq!(w.read_limit(10), 10);
    w.advance(40);
    assert_eq!(w.read_limit(10), 0);
    assert_eq!(w.seek(SeekTarget::Start(50)), Ok(50));
    assert_eq!(w.position(), 150);
    assert_eq!(w.seek(SeekTarget::Start(101)), Err(WindowError::OutOfRange));
    assert_eq!(w.position(), 150);
    assert_eq!(w.seek(SeekTarget::Current(-60)), Err(WindowError::OutOfRange));
    assert_eq!(w.seek(SeekTarget::Current(-50)), Ok(0));
    assert_eq!(w.seek(SeekTarget::End(0)), Ok(100));
    assert_eq!(w.seek(SeekTarget::End(1)), Err(WindowError::OutOfRange));
    assert_eq!(w.seek(SeekTarget::End(-1)), Err(WindowError::OutOfRange));
    assert_eq!(w.position(), 200);
}

#[test]
fn parse_unsigned_matches_from_str_radix() {
    let cases: [&str; 14] = ["123", "255", "256", "", "+", "-", "-5", "+5", "0", "00012", "12a", " 1", "+-1", "99999999999"];
    for c in cases.iter() {
        let ours = parse_unsigned(c.as_bytes(), 10, u8::MAX as u64);
        match u8::from_str_radix(c, 10) {
            Ok(v) => assert_eq!(ours, Ok(v as u64), "{}", c),
            Err(e) => {
                let kind = match e.kind() {
                    std::num::IntErrorKind::Empty => IntErrorKind::Empty,
                    std::num::IntErrorKind::InvalidDigit => IntErrorKind::InvalidDigit,
                    std::num::IntErrorKind::PosOverflow => IntErrorKind::PosOverflow,
                    _ => panic!("unexpected kind"),
                };
                assert_eq!(ours, Err(kind), "{}", c);
            }
        }
    }
}

#[test]
fn parse_unsigned_hexadecimal() {
    assert_eq!(parse_unsigned(b"ff", 16, 0xFF), Ok(255));
    assert_eq!(parse_unsigned(b"FF", 16, 0xFF), Ok(255));
    assert_eq!(parse_unsigned(b"100", 16, 0xFF), Err(IntErrorKind::PosOverflow));
    assert_eq!(parse_unsigned(b"g", 16, 0xFF), Err(IntErrorKind::InvalidDigit));
    assert_eq!(parse_unsigned(b"046d", 16, 0xFFFF), Ok(0x046d));
    assert_eq!(parse_unsigned(b"18446744073709551615", 10, u64::MAX), Ok(u64::MAX));
    assert_eq!(parse_unsigned(b"18446744073709551616", 10, u64::MAX), Err(IntErrorKind::PosOverflow));
}

#[test]
fn strip_hex_removes_every_prefix() {
    assert_eq!(strip_hex(b"0x0x12"), b"12");
    assert_eq!(strip_hex(b"0x"), b"");
    assert_eq!(strip_hex(b"x12"), b"x12");
    assert_eq!(strip_hex(b"0X12"), b"0X12");
    assert_eq!("0x0x12".trim_start_matches("0x").as_bytes(), strip_hex(b"0x0x12"));
}

#[test]
fn served_read_returns_device_bytes() {
    let disk: Vec<u8> = (0..8 * 512u32).map(|i| (i % 251) as u8).collect();
    let mut s = MassStorageState::new();
    s.set_capacity(DeviceCapacity { size: disk.len() as u64, block_length: 512 });
    s.seek(SeekTarget::Start(700));
    let mut buf = [0u8; 900];
    assert!(s.read_is_servable(buf.len()));
    match s.plan_read(buf.len()) {
        ReadDecision::Fetch(r) => {
            let base = r.block_address as usize * 512;
            let data = &disk[base..base + r.block_count as usize * 512];
            copy_window(data, r.offset, &mut buf);
            s.finish_read(r, buf.len());
        }
        _ => panic!("read not served"),
    }
    assert_eq!(&buf[..], &disk[700..1600]);
    assert_eq!(s.seek_position(), 1600);
}

#[test]
fn oversized_read_is_not_servable() {
    let mut s = MassStorageState::new();
    s.set_capacity(DeviceCapacity { size: 1 << 40, block_length: 512 });
    assert!(s.read_is_servable(65535 * 512));
    assert!(!s.read_is_servable(65536 * 512));
    s.seek(SeekTarget::Start(100));
    assert!(!s.read_is_servable(65535 * 512));
}

#[test]
fn relative_seek_is_undone_by_opposite_seek() {
    let mut s = ready_reader();
    s.seek(SeekTarget::Start(5000));
    assert_eq!(s.seek(SeekTarget::Current(1234)), 6234);
    assert_eq!(s.seek(SeekTarget::Current(-1234)), 5000);
    assert_eq!(s.seek(SeekTarget::Current(-5000)), 0);
    assert_eq!(s.seek(SeekTarget::Current(5000)), 5000);
}
