use usb_solver::device::{can_open_with, expect_state, Config, DeviceError};
use usb_solver::proto::{DeriveResponse, Message, State};
use usb_solver::target::difficulty_to_target_u32;

fn pow2_difficulty(bit: usize) -> [u8; 32] {
    let mut d = [0u8; 32];
    d[31 - bit / 8] = 1u8 << (bit % 8);
    d
}

#[test]
fn target_of_difficulty_one_is_all_ones() {
    assert_eq!(difficulty_to_target_u32(&pow2_difficulty(0)), 0xFFFF_FFFF);
}

#[test]
fn target_of_two_pow_250() {
    // (2^256 - 1) / 2^250 = 63, far below the top 32 bits.
    assert_eq!(difficulty_to_target_u32(&pow2_difficulty(250)), 0);
}

#[test]
fn target_of_two_pow_26() {
    // (2^256 - 1) / 2^26 = 2^230 - 1, whose top 32 bits are 0x3F.
    assert_eq!(difficulty_to_target_u32(&pow2_difficulty(26)), 0x0000_003F);
}

#[test]
fn target_of_two_pow_8() {
    assert_eq!(difficulty_to_target_u32(&pow2_difficulty(8)), 0x00FF_FFFF);
}

#[test]
fn target_never_grows_with_difficulty() {
    let mut last = u32::MAX;
    for bit in 0..256usize {
        let t = difficulty_to_target_u32(&pow2_difficulty(bit));
        assert!(t <= last);
        last = t;
    }
}

#[test]
fn target_of_three() {
    let mut d = [0u8; 32];
    d[31] = 3;
    assert_eq!(difficulty_to_target_u32(&d), 0x5555_5555);
}

#[test]
fn get_state_frame() {
    assert_eq!(Message::get_state_msg(), vec![0xA5, 0x3C, 0x01, 0x5A, 0xC3]);
}

#[test]
fn hw_params_frame() {
    assert_eq!(
        Message::set_hw_params_msg(600, 750),
        vec![0xA5, 0x3C, 0x02, 0x02, 0x58, 0x02, 0xEE, 0x5A, 0xC3]
    );
    assert_eq!(Config::default().hw_params_msg(), Message::set_hw_params_msg(600, 750));
}

#[test]
fn write_job_frame_layout() {
    let msg = Message::write_job_msg(7, 0x1234_5678, &[9, 8, 7]);
    assert_eq!(
        msg,
        vec![0xA5, 0x3C, 0x03, 7, 0x12, 0x34, 0x56, 0x78, 9, 8, 7, 0x5A, 0xC3]
    );
}

#[test]
fn opcode_and_reboot_frames() {
    assert_eq!(Message::opcode_msg(), vec![0xA5, 0x3C, 0x04, 0x5A, 0xC3]);
    assert_eq!(Message::reboot_msg(), vec![0xA5, 0x3C, 0x05, 0x5A, 0xC3]);
}

#[test]
fn decode_state_frame() {
    let f = [0xA5, 0x3C, 0x81, 0x00, 0x10, 0x00, 0x02, 0x02, 0x58, 0x02, 0xEE];
    match DeriveResponse::decode(&f) {
        DeriveResponse::State(s) => {
            assert_eq!(
                s,
                State { goodcores: 16, badcores: 2, frequency: 600, voltage: 750 }
            );
        }
        other => panic!("unexpected {:?}", other),
    }
}

fn solved_frame(job_id: u8, nonce: u32, hash: &[u8; 32]) -> Vec<u8> {
    let mut f = vec![0xA5, 0x3C, 0x83, job_id];
    f.extend_from_slice(&nonce.to_be_bytes());
    f.extend_from_slice(hash);
    f
}

#[test]
fn decode_solved_frame() {
    let hash = [0x11u8; 32];
    match DeriveResponse::decode(&solved_frame(3, 0xDEAD_BEEF, &hash)) {
        DeriveResponse::SolvedJob(seal) => {
            assert_eq!(seal.job_id, 3);
            assert_eq!(seal.nonce, 0xDEAD_BEEF);
            assert_eq!(seal.hash, hash.to_vec());
        }
        other => panic!("unexpected {:?}", other),
    }
}

#[test]
fn write_job_then_echoed_solution_round_trip() {
    let msg = Message::write_job_msg(0x5C, 0x40, &[1, 2, 3, 4]);
    let hash = [0x22u8; 32];
    match DeriveResponse::decode(&solved_frame(msg[3], 0x42, &hash)) {
        DeriveResponse::SolvedJob(seal) => {
            assert_eq!(seal.job_id, 0x5C);
            assert_eq!(seal.nonce, 0x42);
            assert_ne!(seal.nonce, 0x40);
        }
        other => panic!("unexpected {:?}", other),
    }
}

#[test]
fn decode_noise_is_other() {
    for f in [vec![], vec![0xA5], vec![0xA5, 0x3C, 0x81, 0x00], vec![1, 2, 3, 4, 5]] {
        match DeriveResponse::decode(&f) {
            DeriveResponse::Other(raw) => assert_eq!(raw, f),
            other => panic!("unexpected {:?}", other),
        }
    }
    let mut long = solved_frame(1, 2, &[0u8; 32]);
    long.push(0);
    assert!(matches!(DeriveResponse::decode(&long), DeriveResponse::Other(_)));
}

#[test]
fn config_defaults() {
    let c = Config::default();
    assert_eq!(c.target_freq, 600);
    assert_eq!(c.target_voltage, 750);
    assert_eq!(c.read_timeout_ms, 0);
    assert_eq!(c.baud_rate, 115200);
}

#[test]
fn state_query_answers() {
    let s = State { goodcores: 0, badcores: 1, frequency: 2, voltage: 3 };
    assert_eq!(expect_state(&DeriveResponse::State(s)), Ok(s));
    assert_eq!(expect_state(&DeriveResponse::Other(vec![1])), Err(DeviceError::Protocol));
    assert!(can_open_with(&Ok(s)));
    assert!(!can_open_with(&Ok(State { goodcores: 4, ..s })));
    assert!(!can_open_with(&Err(DeviceError::Timeout)));
}
