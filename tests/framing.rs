use usb_solver::discovery::{matching_ports, PortInfo, PortKind, PID, VID};
use usb_solver::frame::Framer;

#[test]
fn two_frames_read_whole() {
    let stream = [1u8, 2, 3, 0x5A, 0xC3, 4, 5, 0x5A, 0xC3];
    let mut framer = Framer::new();
    assert_eq!(framer.feed(&stream), vec![vec![1, 2, 3], vec![4, 5]]);
    assert_eq!(framer.feed(&[]), Vec::<Vec<u8>>::new());
}

#[test]
fn two_frames_read_byte_by_byte() {
    let stream = [1u8, 2, 3, 0x5A, 0xC3, 4, 5, 0x5A, 0xC3];
    let mut framer = Framer::new();
    let mut frames = Vec::new();
    for b in stream.iter() {
        frames.extend(framer.feed(&[*b]));
    }
    assert_eq!(frames, vec![vec![1, 2, 3], vec![4, 5]]);
}

#[test]
fn frame_split_across_reads_waits_for_ender() {
    let mut framer = Framer::new();
    assert!(framer.feed(&[7, 8, 0x5A]).is_empty());
    assert_eq!(framer.feed(&[0xC3, 9]), vec![vec![7, 8]]);
    assert_eq!(framer.feed(&[0x5A, 0xC3]), vec![vec![9]]);
}

#[test]
fn lone_ender_byte_stays_in_frame() {
    let mut framer = Framer::new();
    assert_eq!(framer.feed(&[0x5A, 1, 0xC3, 0x5A, 0xC3]), vec![vec![0x5A, 1, 0xC3]]);
}

fn port(name: &str, kind: PortKind) -> PortInfo {
    PortInfo { port_name: name.to_string(), port_type: kind }
}

#[test]
fn discovery_keeps_only_matching_usb_ports() {
    let ports = vec![
        port("/dev/ttyACM0", PortKind::Usb { vid: VID, pid: PID }),
        port("/dev/ttyACM1", PortKind::Usb { vid: VID, pid: 1 }),
        port("/dev/ttyS0", PortKind::Other),
        port("/dev/ttyUSB0", PortKind::Usb { vid: 2, pid: PID }),
        port("/dev/ttyACM2", PortKind::Usb { vid: 1155, pid: 22336 }),
    ];
    assert_eq!(
        matching_ports(&ports, VID, PID),
        vec!["/dev/ttyACM0".to_string(), "/dev/ttyACM2".to_string()]
    );
}

#[test]
fn discovery_of_empty_list_is_empty() {
    assert!(matching_ports(&[], VID, PID).is_empty());
}
