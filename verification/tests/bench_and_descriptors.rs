use wasi_usb::args::IntErrorKind;
use wasi_usb::bench::{
    parse_latency_args, parse_throughput_args, run_base_tag, total_blocks, Chunk, ChunkCursor,
    LatencyArgsError, RttStats, ThroughputArgsError, CHUNK_BLOCKS, ITERATIONS,
};
use wasi_usb::control::{mass_storage_reset, ControlSetup, BULK_ONLY_RESET};
use wasi_usb::descriptor::{
    find_bulk_endpoints, find_device_index, first_used_partition, partition_byte_range,
    AltSettingInfo, EndpointInfo, PartitionEntry, TransferKind,
};

fn args(list: &[&str]) -> Vec<Vec<u8>> {
    list.iter().map(|s| s.as_bytes().to_vec()).collect()
}

#[test]
fn throughput_args_full() {
    let a = args(&["prog", "0x0781", "5567", "0", "0x02", "0x81", "2048", "16", "3"]);
    let c = match parse_throughput_args(&a) {
        Ok(c) => c,
        Err(e) => panic!("refused: {:?}", e),
    };
    assert_eq!((c.vid, c.pid, c.iface, c.ep_out, c.ep_in), (0x0781, 0x5567, 0, 0x02, 0x81));
    assert_eq!((c.start_lba, c.size_mb, c.runs), (2048, 16, 3));
    assert_eq!(c.variant, b"rusb_native".to_vec());
}

#[test]
fn throughput_args_defaults_and_variant() {
    let a = args(&["prog", "1", "2", "3", "4", "5", "x", "", "-1", "wasi"]);
    let c = match parse_throughput_args(&a) {
        Ok(c) => c,
        Err(e) => panic!("refused: {:?}", e),
    };
    assert_eq!((c.start_lba, c.size_mb, c.runs), (0, 1, 10));
    assert_eq!(c.variant, b"wasi".to_vec());
}

#[test]
fn throughput_args_errors() {
    assert!(matches!(parse_throughput_args(&args(&["prog", "1"])), Err(ThroughputArgsError::Usage)));
    let bad_vid = args(&["prog", "zz", "1", "0", "1", "81", "0", "1", "1"]);
    assert!(matches!(parse_throughput_args(&bad_vid), Err(ThroughputArgsError::Vid(IntErrorKind::InvalidDigit))));
    let bad_pid = args(&["prog", "1", "10000", "0", "1", "81", "0", "1", "1"]);
    assert!(matches!(parse_throughput_args(&bad_pid), Err(ThroughputArgsError::Pid(IntErrorKind::PosOverflow))));
    let bad_iface = args(&["prog", "1", "1", "300", "1", "81", "0", "1", "1"]);
    assert!(matches!(parse_throughput_args(&bad_iface), Err(ThroughputArgsError::Interface(IntErrorKind::PosOverflow))));
    let bad_out = args(&["prog", "1", "1", "0", "", "81", "0", "1", "1"]);
    assert!(matches!(parse_throughput_args(&bad_out), Err(ThroughputArgsError::EpOut(IntErrorKind::Empty))));
    let bad_in = args(&["prog", "1", "1", "0", "1", "0x", "0", "1", "1"]);
    assert!(matches!(parse_throughput_args(&bad_in), Err(ThroughputArgsError::EpIn(IntErrorKind::Empty))));
}

#[test]
fn latency_args_defaults() {
    let a = args(&["prog", "1234", "5678", "1", "01", "81", "512"]);
    let c = match parse_latency_args(&a) {
        Ok(c) => c,
        Err(e) => panic!("refused: {:?}", e),
    };
    assert_eq!((c.vid, c.pid, c.interface, c.ep_out, c.ep_in), (0x1234, 0x5678, 1, 1, 0x81));
    assert_eq!((c.size_bytes, c.iterations), (512, ITERATIONS));
    assert_eq!(c.variant, b"rusb_native".to_vec());
    let b = args(&["prog", "1234", "5678", "1", "01", "81", "64", "50", "wasm"]);
    let d = match parse_latency_args(&b) {
        Ok(d) => d,
        Err(e) => panic!("refused: {:?}", e),
    };
    assert_eq!((d.size_bytes, d.iterations), (64, 50));
    assert_eq!(d.variant, b"wasm".to_vec());
    let e = args(&["prog", "1234", "5678", "1", "01", "81", "64", "many"]);
    assert!(matches!(parse_latency_args(&e), Ok(cfg) if cfg.iterations == ITERATIONS));
}

#[test]
fn latency_args_errors() {
    assert!(matches!(parse_latency_args(&args(&["prog"])), Err(LatencyArgsError::Usage)));
    let size = args(&["prog", "1", "1", "0", "1", "81", "100"]);
    assert!(matches!(parse_latency_args(&size), Err(LatencyArgsError::SizeNotMultiple { size_bytes: 100 })));
    let zero = args(&["prog", "1", "1", "0", "1", "81", "0"]);
    assert!(matches!(parse_latency_args(&zero), Err(LatencyArgsError::SizeNotMultiple { size_bytes: 0 })));
    let bad = args(&["prog", "1", "1", "0", "1", "81", "ten"]);
    assert!(matches!(parse_latency_args(&bad), Err(LatencyArgsError::Parse(IntErrorKind::InvalidDigit))));
    let bad_vid = args(&["prog", "", "1", "0", "1", "81", "64"]);
    assert!(matches!(parse_latency_args(&bad_vid), Err(LatencyArgsError::Parse(IntErrorKind::Empty))));
}

#[test]
fn throughput_sizes_and_tags() {
    assert_eq!(total_blocks(16), 32768);
    assert_eq!(total_blocks(0), 0);
    assert_eq!(run_base_tag(0), 1);
    assert_eq!(run_base_tag(2), 4001);
    assert_eq!(CHUNK_BLOCKS, 128);
}

#[test]
fn chunk_cursor_tiles_a_pass() {
    let mut c = ChunkCursor::new(100, 300, 1);
    let mut seen = Vec::new();
    while let Some(ch) = c.next() {
        seen.push(ch);
        c.advance();
    }
    assert_eq!(
        seen,
        vec![
            Chunk { lba: 100, blocks: 128, tag: 1 },
            Chunk { lba: 228, blocks: 128, tag: 2 },
            Chunk { lba: 356, blocks: 44, tag: 3 },
        ]
    );
    assert_eq!(c.lba(), 400);
    assert_eq!(c.tag(), 4);
    let total: usize = seen.iter().map(|ch| ch.blocks).sum();
    assert_eq!(total, 300);
}

#[test]
fn chunk_cursor_empty_pass() {
    let c = ChunkCursor::new(7, 0, 9);
    assert_eq!(c.next(), None);
    assert_eq!(c.tag(), 9);
}

#[test]
fn rtt_stats_track_total_min_max() {
    let mut s = RttStats::new();
    assert_eq!(s.count(), 0);
    assert_eq!(s.min(), None);
    assert_eq!(s.max(), 0);
    for r in [5u128, 3, 9, 4] {
        s.record(r);
    }
    assert_eq!(s.count(), 4);
    assert_eq!(s.total(), 21);
    assert_eq!(s.min(), Some(3));
    assert_eq!(s.max(), 9);
}

fn ep(address: u8, kind: TransferKind) -> EndpointInfo {
    EndpointInfo { address, kind }
}

#[test]
fn bulk_endpoints_first_setting_with_both() {
    let alts = vec![
        AltSettingInfo { interface_number: 0, endpoints: vec![ep(0x83, TransferKind::Interrupt)] },
        AltSettingInfo { interface_number: 1, endpoints: vec![ep(0x81, TransferKind::Bulk)] },
        AltSettingInfo {
            interface_number: 1,
            endpoints: vec![ep(0x81, TransferKind::Bulk), ep(0x83, TransferKind::Bulk), ep(0x02, TransferKind::Bulk)],
        },
        AltSettingInfo { interface_number: 1, endpoints: vec![ep(0x84, TransferKind::Bulk), ep(0x05, TransferKind::Bulk)] },
    ];
    assert_eq!(find_bulk_endpoints(&alts, 1), Some((0x83, 0x02)));
    assert_eq!(find_bulk_endpoints(&alts, 0), None);
    assert_eq!(find_bulk_endpoints(&alts, 2), None);
}

#[test]
fn device_index_first_match() {
    let ids = vec![(1u16, 2u16), (0x0781, 0x5567), (0x0781, 0x5567)];
    assert_eq!(find_device_index(&ids, 0x0781, 0x5567), Some(1));
    assert_eq!(find_device_index(&ids, 0x0781, 0x5568), None);
}

#[test]
fn first_used_partition_and_range() {
    let empty = PartitionEntry { sys: 0, starting_lba: 0, sectors: 0 };
    let used = PartitionEntry { sys: 7, starting_lba: 2048, sectors: 100 };
    let other = PartitionEntry { sys: 0x0C, starting_lba: 9999, sectors: 1 };
    assert_eq!(first_used_partition(&vec![empty, used, other]), Some(used));
    assert_eq!(first_used_partition(&vec![empty, empty]), None);
    assert_eq!(partition_byte_range(used, 512), (1_048_576, 2148 * 512));
}

#[test]
fn reset_request_is_class_interface_out() {
    assert_eq!(
        mass_storage_reset(2),
        ControlSetup { request_type: 0x21, request: BULK_ONLY_RESET, value: 0, index: 2 }
    );
    assert_eq!(BULK_ONLY_RESET, 0xFF);
}
