use usb_solver::proto::{DeriveResponse, Message, Seal, State};
use usb_solver::solver::{
    splice_extra, Action, Event, JobError, MintJob, Outcome, Phase, SolveSession,
};

fn blob(len: usize) -> Vec<u8> {
    (0..len).map(|i| i as u8).collect()
}

fn difficulty(bit: usize) -> [u8; 32] {
    let mut d = [0u8; 32];
    d[31 - bit / 8] = 1u8 << (bit % 8);
    d
}

fn job(extra: Option<[u8; 4]>) -> MintJob {
    MintJob { minting_blob: blob(76), difficulty: difficulty(250), extra }
}

fn seal(job_id: u8, nonce: u32) -> DeriveResponse {
    DeriveResponse::SolvedJob(Seal { job_id, nonce, hash: vec![0xAB; 32] })
}

#[test]
fn splice_writes_extra_bytes() {
    let b = blob(50);
    let r = splice_extra(&b, &Some([0xAA, 0xBB, 0xCC, 0xDD]));
    assert_eq!(r.len(), 50);
    assert_eq!(&r[35..39], &[0xAA, 0xBB, 0xCC, 0xDD]);
    assert_eq!(&r[..35], &b[..35]);
    assert_eq!(&r[39..], &b[39..]);
}

#[test]
fn splice_without_extra_writes_zeros() {
    let b = vec![0xFFu8; 39];
    let r = splice_extra(&b, &None);
    assert_eq!(&r[35..39], &[0, 0, 0, 0]);
    assert_eq!(&r[..35], &b[..35]);
}

#[test]
fn short_payload_is_rejected() {
    let j = MintJob { minting_blob: blob(38), difficulty: difficulty(0), extra: None };
    assert!(matches!(SolveSession::new(&j, 1), Err(JobError::PayloadTooShort)));
    let j = MintJob { minting_blob: blob(39), difficulty: difficulty(0), extra: None };
    assert!(SolveSession::new(&j, 1).is_ok());
}

#[test]
fn session_frame_holds_target_and_spliced_blob() {
    let extra = [0xAA, 0xBB, 0xCC, 0xDD];
    let s = SolveSession::new(&job(Some(extra)), 9).ok().unwrap();
    assert_eq!(s.job_id(), 9);
    assert_eq!(s.target(), 0);
    let spliced = splice_extra(&blob(76), &Some(extra));
    assert_eq!(s.job_frame(), &Message::write_job_msg(9, 0, &spliced));
    assert_eq!(s.phase(), Phase::Submitting);
}

#[test]
fn solved_scenario_emits_result() {
    let extra = [1, 2, 3, 4];
    let mut s = SolveSession::start(&job(Some(extra))).ok().unwrap();
    let id = s.job_id();
    assert!(matches!(s.step(Event::JobWritten), Action::CheckStop));
    assert!(matches!(s.step(Event::StopSignal(false)), Action::Read));
    match s.step(Event::Response(seal(id, 0x0000_0042))) {
        Action::Emit(r) => {
            assert_eq!(r.nonce, 0x42);
            assert_eq!(r.minting_blob, blob(76));
            assert_eq!(r.extra, Some(extra));
            assert_eq!(r.hash_result, "ab".repeat(32));
        }
        _ => panic!("expected a result"),
    }
    assert_eq!(s.phase(), Phase::Solved);
    assert!(matches!(s.step(Event::ReadFailed), Action::Finish(Outcome::Solved)));
}

#[test]
fn hash_result_is_lowercase_hex() {
    let mut s = SolveSession::new(&job(None), 4).ok().unwrap();
    s.step(Event::JobWritten);
    s.step(Event::StopSignal(false));
    let mut hash = vec![0u8; 32];
    hash[0] = 0x0F;
    hash[31] = 0xA0;
    let resp = DeriveResponse::SolvedJob(Seal { job_id: 4, nonce: 1, hash });
    match s.step(Event::Response(resp)) {
        Action::Emit(r) => {
            assert_eq!(r.hash_result.len(), 64);
            assert!(r.hash_result.starts_with("0f00"));
            assert!(r.hash_result.ends_with("00a0"));
            assert_eq!(r.extra, None);
        }
        _ => panic!("expected a result"),
    }
}

#[test]
fn stop_before_solution_cancels_without_result() {
    let mut s = SolveSession::new(&job(None), 5).ok().unwrap();
    s.step(Event::JobWritten);
    s.step(Event::StopSignal(false));
    assert!(matches!(s.step(Event::Response(DeriveResponse::Other(vec![1]))), Action::CheckStop));
    assert!(matches!(s.step(Event::StopSignal(true)), Action::Finish(Outcome::Cancelled)));
    assert!(matches!(s.step(Event::Response(seal(5, 7))), Action::Finish(Outcome::Cancelled)));
    assert_eq!(s.phase(), Phase::Cancelled);
}

#[test]
fn other_responses_keep_polling() {
    let mut s = SolveSession::new(&job(None), 5).ok().unwrap();
    s.step(Event::JobWritten);
    s.step(Event::StopSignal(false));
    let state = State { goodcores: 1, badcores: 0, frequency: 600, voltage: 750 };
    assert!(matches!(s.step(Event::Response(DeriveResponse::State(state))), Action::CheckStop));
    s.step(Event::StopSignal(false));
    assert!(matches!(s.step(Event::Response(seal(6, 7))), Action::CheckStop));
    assert_eq!(s.phase(), Phase::Polling);
}

#[test]
fn read_failure_resubmits_same_job() {
    let mut s = SolveSession::new(&job(None), 5).ok().unwrap();
    let frame = s.job_frame().clone();
    s.step(Event::JobWritten);
    s.step(Event::StopSignal(false));
    assert!(matches!(s.step(Event::ReadFailed), Action::WriteJob));
    assert_eq!(s.job_frame(), &frame);
    assert!(matches!(s.step(Event::JobWritten), Action::CheckStop));
}

#[test]
fn write_failure_is_fatal() {
    let mut s = SolveSession::new(&job(None), 5).ok().unwrap();
    assert!(matches!(s.step(Event::WriteFailed), Action::Finish(Outcome::Fatal)));
    assert!(matches!(s.step(Event::JobWritten), Action::Finish(Outcome::Fatal)));
    let mut s = SolveSession::new(&job(None), 5).ok().unwrap();
    s.step(Event::JobWritten);
    s.step(Event::StopSignal(false));
    s.step(Event::ReadFailed);
    assert!(matches!(s.step(Event::WriteFailed), Action::Finish(Outcome::Fatal)));
}
