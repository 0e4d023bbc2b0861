use wasi_usb::camera::{
    order_formats, parse_camera_choice, parse_format_choice, parse_mode, retry_delay_ms,
    simple_mode_formats, CameraFormatInfo, FormatChoice, FrameKind, OPEN_ATTEMPTS,
};
use wasi_usb::jpeg::{find_marker, inject_standard_dht, is_complete_jpeg};
use wasi_usb::uvc::{
    guess_resolution, negotiated_frame_size, patch_probe, select_stream_endpoint, select_uvc_device,
    DeviceSummary, FrameAssembler, PacketOutcome, StreamChoice, UvcEndpoint, UvcInterface, BRIO_PID,
    BRIO_VID,
};

fn fmt(width: u32, height: u32, kind: FrameKind) -> CameraFormatInfo {
    CameraFormatInfo { width, height, kind, fps: 30 }
}

#[test]
fn camera_prompt_answers() {
    assert_eq!(parse_camera_choice(b"1", 3), Some(1));
    assert_eq!(parse_camera_choice(b"3", 3), None);
    assert_eq!(parse_camera_choice(b"x", 3), None);
    assert_eq!(parse_camera_choice(b"", 3), None);
    assert_eq!(parse_mode(b"1"), Some(1));
    assert_eq!(parse_mode(b"2"), Some(2));
    assert_eq!(parse_mode(b"3"), None);
    assert_eq!(parse_mode(b"12"), None);
    assert_eq!(parse_mode(b""), None);
}

#[test]
fn format_prompt_answers() {
    assert_eq!(parse_format_choice(b"", 5), FormatChoice::Default);
    assert_eq!(parse_format_choice(b"2", 5), FormatChoice::Index(2));
    assert_eq!(parse_format_choice(b"5", 5), FormatChoice::Invalid);
    assert_eq!(parse_format_choice(b"a", 5), FormatChoice::Invalid);
}

#[test]
fn simple_mode_tries_mjpeg_first() {
    assert_eq!(
        simple_mode_formats(),
        vec![
            fmt(1920, 1080, FrameKind::MJPEG),
            fmt(1280, 720, FrameKind::MJPEG),
            fmt(640, 480, FrameKind::MJPEG),
            fmt(640, 480, FrameKind::YUYV),
        ]
    );
}

#[test]
fn order_formats_moves_mjpeg_to_front_stably() {
    let reported = vec![
        fmt(640, 480, FrameKind::YUYV),
        fmt(1280, 720, FrameKind::MJPEG),
        fmt(320, 240, FrameKind::NV12),
        fmt(1920, 1080, FrameKind::MJPEG),
    ];
    let offered = order_formats(reported.clone());
    assert_eq!(
        offered,
        vec![
            fmt(1280, 720, FrameKind::MJPEG),
            fmt(1920, 1080, FrameKind::MJPEG),
            fmt(640, 480, FrameKind::YUYV),
            fmt(320, 240, FrameKind::NV12),
        ]
    );
    for f in reported.iter() {
        assert_eq!(
            offered.iter().filter(|g| *g == f).count(),
            reported.iter().filter(|g| *g == f).count()
        );
    }
}

#[test]
fn order_formats_falls_back_when_none_reported() {
    let offered = order_formats(Vec::new());
    assert_eq!(offered.len(), 5);
    assert_eq!(offered[0], fmt(1280, 720, FrameKind::MJPEG));
    assert_eq!(offered[4], fmt(1280, 720, FrameKind::YUYV));
}

#[test]
fn retry_delays_grow() {
    assert_eq!(OPEN_ATTEMPTS, 3);
    assert_eq!(retry_delay_ms(1), 300);
    assert_eq!(retry_delay_ms(3), 900);
}

#[test]
fn complete_jpeg_needs_soi_and_eoi() {
    assert!(is_complete_jpeg(&[0xFF, 0xD8, 0xFF, 0xD9]));
    assert!(is_complete_jpeg(&[0xFF, 0xD8, 1, 2, 0xFF, 0xD9]));
    assert!(!is_complete_jpeg(&[0xFF, 0xD8, 0xD9]));
    assert!(!is_complete_jpeg(&[0xFF, 0xD8, 1, 2, 0xFF, 0xD8]));
    assert!(!is_complete_jpeg(&[]));
}

#[test]
fn find_marker_first_occurrence() {
    assert_eq!(find_marker(&[0x00, 0xFF, 0xDA, 0x01, 0xFF, 0xDA], 0xDA), Some(1));
    assert_eq!(find_marker(&[0xFF, 0xFF, 0xDA], 0xDA), Some(1));
    assert_eq!(find_marker(&[0xFF], 0xDA), None);
    assert_eq!(find_marker(&[0xDA, 0xFF], 0xDA), None);
}

#[test]
fn tables_inserted_before_sos_once() {
    let frame = [0xFF, 0xD8, 0xFF, 0xDA, 0x01, 0xFF, 0xD9];
    let out = inject_standard_dht(&frame);
    assert_eq!(out.len(), frame.len() + 432);
    assert_eq!(&out[..2], &[0xFF, 0xD8]);
    assert_eq!(&out[2..7], &[0xFF, 0xC4, 0x00, 0x1F, 0x00]);
    assert_eq!(&out[434..], &frame[2..]);
    let mut back = out[..2].to_vec();
    back.extend_from_slice(&out[434..]);
    assert_eq!(back, frame.to_vec());
    assert_eq!(inject_standard_dht(&out), out);
}

#[test]
fn tables_left_alone_when_present_or_no_sos() {
    let with_dht = [0xFF, 0xD8, 0xFF, 0xC4, 0x00, 0xFF, 0xDA, 0xFF, 0xD9];
    assert_eq!(inject_standard_dht(&with_dht), with_dht.to_vec());
    let no_sos = [0xFF, 0xD8, 0x00, 0xFF, 0xD9];
    assert_eq!(inject_standard_dht(&no_sos), no_sos.to_vec());
}

fn dev(vendor_id: u16, product_id: u16, device_class: u8) -> DeviceSummary {
    DeviceSummary { vendor_id, product_id, device_class }
}

#[test]
fn uvc_device_prefers_brio() {
    let devs = vec![dev(0x1d6b, 2, 0x09), dev(0x1234, 0x5678, 0xEF), dev(0x0bda, 0x1111, 0x00), dev(BRIO_VID, BRIO_PID, 0x0E)];
    assert_eq!(select_uvc_device(&devs, 0), Some(3));
    assert_eq!(select_uvc_device(&devs, 7), Some(3));
}

#[test]
fn uvc_device_by_candidate_index() {
    let devs = vec![dev(0x1d6b, 2, 0x09), dev(0x1234, 0x5678, 0xEF), dev(BRIO_VID, BRIO_PID, 0x09), dev(0x0bda, 0x1111, 0x00)];
    assert_eq!(select_uvc_device(&devs, 0), Some(1));
    assert_eq!(select_uvc_device(&devs, 1), Some(3));
    assert_eq!(select_uvc_device(&devs, 2), None);
}

fn uvc_if(number: u8, alt: u8, subclass: u8, endpoints: Vec<UvcEndpoint>) -> UvcInterface {
    UvcInterface { number, alternate_setting: alt, class: 0x0E, subclass, endpoints }
}

fn uvc_ep(address: u8, attributes: u8, max_packet_size: u16) -> UvcEndpoint {
    UvcEndpoint { address, attributes, max_packet_size }
}

#[test]
fn stream_endpoint_largest_bandwidth() {
    let ifaces = vec![
        uvc_if(0, 0, 0x01, vec![uvc_ep(0x81, 0x01, 0x1400)]),
        uvc_if(1, 1, 0x02, vec![uvc_ep(0x81, 0x05, 0x0400)]),
        uvc_if(1, 2, 0x02, vec![uvc_ep(0x02, 0x01, 0x1400), uvc_ep(0x81, 0x05, 0x1400)]),
        uvc_if(1, 3, 0x02, vec![uvc_ep(0x81, 0x05, 0x0C00)]),
        uvc_if(1, 4, 0x02, vec![uvc_ep(0x82, 0x02, 0x0200)]),
        uvc_if(1, 5, 0x02, vec![uvc_ep(0x83, 0x05, 0x1400)]),
    ];
    assert_eq!(
        select_stream_endpoint(&ifaces),
        Some(StreamChoice { interface: 1, alternate_setting: 2, endpoint: 0x81, packet_size: 3072 })
    );
    let control_only = vec![uvc_if(0, 0, 0x01, vec![uvc_ep(0x81, 0x01, 0x1400)])];
    assert_eq!(select_stream_endpoint(&control_only), None);
}

#[test]
fn probe_patch_and_frame_size() {
    let mut probe = vec![0u8; 26];
    patch_probe(&mut probe);
    assert_eq!(&probe[..4], &[0, 0, 2, 1]);
    let mut short = vec![9u8; 3];
    patch_probe(&mut short);
    assert_eq!(short, vec![9u8; 3]);
    let mut negotiated = vec![0u8; 26];
    negotiated[18..22].copy_from_slice(&[0x00, 0x60, 0x09, 0x00]);
    assert_eq!(negotiated_frame_size(&negotiated), 614_400);
    assert_eq!(negotiated_frame_size(&negotiated[..21]), 0);
}

#[test]
fn resolution_guess_within_five_percent() {
    assert_eq!(guess_resolution(614_400, 0), (640, 480));
    assert_eq!(guess_resolution(1920 * 1080 * 2, 0), (1920, 1080));
    assert_eq!(guess_resolution(1280 * 720 * 2 + 40_000, 0), (1280, 720));
    assert_eq!(guess_resolution(38_000, 0), (160, 120));
    assert_eq!(guess_resolution(300_000, 0), (640, 480));
    assert_eq!(guess_resolution(0, 0), (640, 480));
}

#[test]
fn assembler_closes_on_eof() {
    let mut a = FrameAssembler::new();
    assert!(matches!(a.push_packet(&[2, 0x00, 0xFF, 0xD8, 0x01]), PacketOutcome::Pending));
    match a.push_packet(&[2, 0x02, 0x02, 0xFF, 0xD9]) {
        PacketOutcome::Frame(v) => assert_eq!(v, vec![0xFF, 0xD8, 0x01, 0x02, 0xFF, 0xD9]),
        _ => panic!("frame not closed"),
    }
}

#[test]
fn assembler_closes_on_fid_toggle_and_drops_partial() {
    let mut a = FrameAssembler::new();
    assert!(matches!(a.push_packet(&[2, 0x01, 0xFF, 0xD8, 0x05]), PacketOutcome::Pending));
    assert!(matches!(a.push_packet(&[2, 0x00, 0xAA]), PacketOutcome::Dropped(3)));
    assert!(matches!(a.push_packet(&[1, 0x00]), PacketOutcome::Pending));
    assert!(matches!(a.push_packet(&[5, 0x00, 0x01]), PacketOutcome::Pending));
    assert!(matches!(a.push_packet(&[2]), PacketOutcome::Pending));
}

#[test]
fn assembler_skips_empty_packets_before_start() {
    let mut a = FrameAssembler::new();
    assert!(matches!(a.push_packet(&[2, 0x02]), PacketOutcome::Pending));
    assert!(matches!(a.push_packet(&[12, 0x00, 0, 0, 0, 0, 0, 0, 0, 0, 0, 0]), PacketOutcome::Pending));
    assert!(matches!(a.push_packet(&[2, 0x02, 0xFF, 0xD8, 0xFF, 0xD9]), PacketOutcome::Frame(_)));
}

#[test]
fn transfer_packets_assemble_frame() {
    let mut data = vec![0u8; 24];
    data[..5].copy_from_slice(&[2, 0x00, 0xFF, 0xD8, 0x07]);
    data[16..21].copy_from_slice(&[2, 0x02, 0x08, 0xFF, 0xD9]);
    let mut a = FrameAssembler::new();
    let r = a.push_transfer(&data, &[5, 0, 5], 8);
    assert_eq!(r.frame, Some(vec![0xFF, 0xD8, 0x07, 0x08, 0xFF, 0xD9]));
    assert!(r.dropped.is_empty());
}

#[test]
fn transfer_packets_report_dropped() {
    let mut data = vec![0u8; 16];
    data[..5].copy_from_slice(&[2, 0x00, 0xFF, 0xD8, 0x07]);
    data[8..11].copy_from_slice(&[2, 0x01, 0x33]);
    let mut a = FrameAssembler::new();
    let r = a.push_transfer(&data, &[5, 3], 8);
    assert_eq!(r.frame, None);
    assert_eq!(r.dropped, vec![3]);
}
