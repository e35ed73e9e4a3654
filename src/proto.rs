//! The device's wire format: outbound command frames and inbound responses.
//!
//! Every frame starts with the two header bytes and a kind byte; on the wire
//! it is closed by the two ender bytes, which the framing layer strips from
//! inbound frames. Multi-byte integers are big-endian.
use crate::target::{be_value, lemma_be_value_four, lemma_be_value_two};
use vstd::arithmetic::div_mod::{lemma_div_denominator, lemma_fundamental_div_mod};
use vstd::prelude::*;

verus! {

pub const PKT_HEADER_0: u8 = 0xA5;

pub const PKT_HEADER_1: u8 = 0x3C;

pub const PKT_ENDER_0: u8 = 0x5A;

pub const PKT_ENDER_1: u8 = 0xC3;

pub const CMD_GET_STATE: u8 = 0x01;

pub const CMD_SET_HW_PARAMS: u8 = 0x02;

pub const CMD_WRITE_JOB: u8 = 0x03;

pub const CMD_SET_OPCODE: u8 = 0x04;

pub const CMD_REBOOT: u8 = 0x05;

pub const RESP_STATE: u8 = 0x81;

pub const RESP_SOLVED_JOB: u8 = 0x83;

/// Length of a state frame: header, kind and four 16-bit fields.
pub const STATE_FRAME_LEN: usize = 11;

/// Length of a solved-job frame: header, kind, job id, nonce and a 32-byte hash.
pub const SOLVED_FRAME_LEN: usize = 40;

pub const HASH_LEN: usize = 32;

pub open spec fn u16_be(v: u16) -> Seq<u8> {
    seq![(v / 256) as u8, (v % 256) as u8]
}

pub open spec fn u32_be(v: u32) -> Seq<u8> {
    seq![
        (v / 0x100_0000) as u8,
        ((v / 0x1_0000) % 256) as u8,
        ((v / 256) % 256) as u8,
        (v % 256) as u8,
    ]
}

/// A command frame as sent: header, kind, parameters, ender.
pub open spec fn command_frame(kind: u8, params: Seq<u8>) -> Seq<u8> {
    seq![PKT_HEADER_0, PKT_HEADER_1, kind] + params + seq![PKT_ENDER_0, PKT_ENDER_1]
}

pub open spec fn write_job_frame(job_id: u8, target: u32, data: Seq<u8>) -> Seq<u8> {
    command_frame(CMD_WRITE_JOB, seq![job_id] + u32_be(target) + data)
}

/// Device telemetry reported in answer to a state query.
#[derive(Clone, Copy, Debug, PartialEq, Eq, Structural)]
pub struct State {
    pub goodcores: u16,
    pub badcores: u16,
    pub frequency: u16,
    pub voltage: u16,
}

/// A job that the device reports as solved.
#[derive(Clone, Debug)]
pub struct Seal {
    pub job_id: u8,
    pub nonce: u32,
    pub hash: Vec<u8>,
}

/// One decoded inbound frame.
#[derive(Clone, Debug)]
pub enum DeriveResponse {
    State(State),
    SolvedJob(Seal),
    Other(Vec<u8>),
}

pub enum ResponseView {
    State(State),
    SolvedJob { job_id: u8, nonce: u32, hash: Seq<u8> },
    Other(Seq<u8>),
}

impl View for DeriveResponse {
    type V = ResponseView;

    open spec fn view(&self) -> ResponseView {
        match self {
            DeriveResponse::State(s) => ResponseView::State(*s),
            DeriveResponse::SolvedJob(seal) => ResponseView::SolvedJob {
                job_id: seal.job_id,
                nonce: seal.nonce,
                hash: seal.hash@,
            },
            DeriveResponse::Other(raw) => ResponseView::Other(raw@),
        }
    }
}

pub open spec fn has_header(f: Seq<u8>, kind: u8) -> bool {
    f.len() >= 3 && f[0] == PKT_HEADER_0 && f[1] == PKT_HEADER_1 && f[2] == kind
}

pub open spec fn be_u16_at(f: Seq<u8>, i: int) -> u16 {
    be_value(f.subrange(i, i + 2)) as u16
}

/// What an inbound frame (ender stripped) means: a state report or a solved
/// job when it has exactly the layout of one, else `Other` holding the bytes.
pub open spec fn decode_spec(f: Seq<u8>) -> ResponseView {
    if has_header(f, RESP_STATE) && f.len() == STATE_FRAME_LEN {
        ResponseView::State(
            State {
                goodcores: be_u16_at(f, 3),
                badcores: be_u16_at(f, 5),
                frequency: be_u16_at(f, 7),
                voltage: be_u16_at(f, 9),
            },
        )
    } else if has_header(f, RESP_SOLVED_JOB) && f.len() == SOLVED_FRAME_LEN {
        ResponseView::SolvedJob {
            job_id: f[3],
            nonce: be_value(f.subrange(4, 8)) as u32,
            hash: f.subrange(8, 40),
        }
    } else {
        ResponseView::Other(f)
    }
}

/// The frame (ender stripped) in which the device reports a solved job.
pub open spec fn solved_frame(job_id: u8, nonce: u32, hash: Seq<u8>) -> Seq<u8> {
    seq![PKT_HEADER_0, PKT_HEADER_1, RESP_SOLVED_JOB, job_id] + u32_be(nonce) + hash
}

fn read_u16_at(f: &[u8], i: usize) -> (r: u16)
    requires
        i + 2 <= f@.len(),
    ensures
        r == be_u16_at(f@, i as int),
{
    proof {
        lemma_be_value_two(f@.subrange(i as int, i + 2));
    }
    (f[i] as u16) * 256 + (f[i + 1] as u16)
}

fn read_u32_at(f: &[u8], i: usize) -> (r: u32)
    requires
        i + 4 <= f@.len(),
    ensures
        r as int == be_value(f@.subrange(i as int, i + 4)),
{
    proof {
        lemma_be_value_four(f@.subrange(i as int, i + 4));
    }
    (f[i] as u32) * 0x100_0000 + (f[i + 1] as u32) * 0x1_0000 + (f[i + 2] as u32) * 256 + (
    f[i + 3] as u32)
}

fn push_u16(out: &mut Vec<u8>, v: u16)
    ensures
        final(out)@ == old(out)@ + u16_be(v),
{
    out.push((v / 256) as u8);
    out.push((v % 256) as u8);
    assert(final(out)@ =~= old(out)@ + u16_be(v));
}

fn push_u32(out: &mut Vec<u8>, v: u32)
    ensures
        final(out)@ == old(out)@ + u32_be(v),
{
    out.push((v / 0x100_0000) as u8);
    out.push(((v / 0x1_0000) % 256) as u8);
    out.push(((v / 256) % 256) as u8);
    out.push((v % 256) as u8);
    assert(final(out)@ =~= old(out)@ + u32_be(v));
}

fn start_frame(kind: u8) -> (r: Vec<u8>)
    ensures
        r@ == seq![PKT_HEADER_0, PKT_HEADER_1, kind],
{
    let mut out: Vec<u8> = Vec::new();
    out.push(PKT_HEADER_0);
    out.push(PKT_HEADER_1);
    out.push(kind);
    assert(out@ =~= seq![PKT_HEADER_0, PKT_HEADER_1, kind]);
    out
}

fn end_frame(out: &mut Vec<u8>)
    ensures
        final(out)@ == old(out)@ + seq![PKT_ENDER_0, PKT_ENDER_1],
{
    out.push(PKT_ENDER_0);
    out.push(PKT_ENDER_1);
    assert(final(out)@ =~= old(out)@ + seq![PKT_ENDER_0, PKT_ENDER_1]);
}

/// Builders of the outbound command frames.
pub struct Message;

impl Message {
    /// Asks the device for its telemetry.
    pub fn get_state_msg() -> (r: Vec<u8>)
        ensures
            r@ == command_frame(CMD_GET_STATE, seq![]),
    {
        let mut out = start_frame(CMD_GET_STATE);
        end_frame(&mut out);
        assert(out@ =~= command_frame(CMD_GET_STATE, seq![]));
        out
    }

    /// Sets the clock frequency and the core voltage.
    pub fn set_hw_params_msg(freq: u16, voltage: u16) -> (r: Vec<u8>)
        ensures
            r@ == command_frame(CMD_SET_HW_PARAMS, u16_be(freq) + u16_be(voltage)),
    {
        let mut out = start_frame(CMD_SET_HW_PARAMS);
        push_u16(&mut out, freq);
        push_u16(&mut out, voltage);
        end_frame(&mut out);
        assert(out@ =~= command_frame(CMD_SET_HW_PARAMS, u16_be(freq) + u16_be(voltage)));
        out
    }

    /// Hands the device a job; it supersedes any job the device was working on.
    pub fn write_job_msg(job_id: u8, target: u32, data: &[u8]) -> (r: Vec<u8>)
        ensures
            r@ == write_job_frame(job_id, target, data@),
    {
        let mut out = start_frame(CMD_WRITE_JOB);
        out.push(job_id);
        push_u32(&mut out, target);
        let ghost before = out@;
        let mut i: usize = 0;
        while i < data.len()
            invariant
                i <= data@.len(),
                out@ == before + data@.subrange(0, i as int),
            decreases data@.len() - i,
        {
            out.push(data[i]);
            i = i + 1;
            assert(out@ =~= before + data@.subrange(0, i as int));
        }
        end_frame(&mut out);
        assert(data@.subrange(0, data@.len() as int) =~= data@);
        assert(out@ =~= write_job_frame(job_id, target, data@));
        out
    }

    /// Selects the hashing operation the device runs.
    pub fn opcode_msg() -> (r: Vec<u8>)
        ensures
            r@ == command_frame(CMD_SET_OPCODE, seq![]),
    {
        let mut out = start_frame(CMD_SET_OPCODE);
        end_frame(&mut out);
        assert(out@ =~= command_frame(CMD_SET_OPCODE, seq![]));
        out
    }

    /// Restarts the device.
    pub fn reboot_msg() -> (r: Vec<u8>)
        ensures
            r@ == command_frame(CMD_REBOOT, seq![]),
    {
        let mut out = start_frame(CMD_REBOOT);
        end_frame(&mut out);
        assert(out@ =~= command_frame(CMD_REBOOT, seq![]));
        out
    }
}

pub(crate) fn copy_range(f: &[u8], start: usize, end: usize) -> (r: Vec<u8>)
    requires
        start <= end <= f@.len(),
    ensures
        r@ == f@.subrange(start as int, end as int),
{
    let mut out: Vec<u8> = Vec::new();
    let mut i: usize = start;
    while i < end
        invariant
            start <= i <= end <= f@.len(),
            out@ == f@.subrange(start as int, i as int),
        decreases end - i,
    {
        out.push(f[i]);
        i = i + 1;
        assert(out@ =~= f@.subrange(start as int, i as int));
    }
    out
}

impl DeriveResponse {
    /// Decodes one inbound frame (ender stripped). Never fails: a frame that
    /// is neither a well-formed state report nor a solved job is `Other`.
    pub fn decode(frame: &[u8]) -> (r: DeriveResponse)
        ensures
            r@ == decode_spec(frame@),
    {
        let n = frame.len();
        if n == STATE_FRAME_LEN && frame[0] == PKT_HEADER_0 && frame[1] == PKT_HEADER_1
            && frame[2] == RESP_STATE {
            DeriveResponse::State(
                State {
                    goodcores: read_u16_at(frame, 3),
                    badcores: read_u16_at(frame, 5),
                    frequency: read_u16_at(frame, 7),
                    voltage: read_u16_at(frame, 9),
                },
            )
        } else if n == SOLVED_FRAME_LEN && frame[0] == PKT_HEADER_0 && frame[1] == PKT_HEADER_1
            && frame[2] == RESP_SOLVED_JOB {
            let nonce = read_u32_at(frame, 4);
            let hash = copy_range(frame, 8, SOLVED_FRAME_LEN);
            DeriveResponse::SolvedJob(Seal { job_id: frame[3], nonce, hash })
        } else {
            let raw = copy_range(frame, 0, n);
            assert(raw@ =~= frame@);
            DeriveResponse::Other(raw)
        }
    }
}

proof fn lemma_u32_be_value(v: u32)
    ensures
        be_value(u32_be(v)) == v as int,
{
    let x = v as int;
    lemma_be_value_four(u32_be(v));
    lemma_fundamental_div_mod(x, 256);
    lemma_fundamental_div_mod(x / 256, 256);
    lemma_fundamental_div_mod(x / 0x1_0000, 256);
    lemma_div_denominator(x, 256, 256);
    lemma_div_denominator(x, 0x1_0000, 256);
    assert(x / 0x100_0000 < 256) by (nonlinear_arith)
        requires
            0 <= x < 0x1_0000_0000,
    ;
}

/// A solved-job report that echoes the job id of a written job decodes to
/// that job id, with the nonce and hash the device reported.
pub proof fn lemma_solved_job_round_trip(
    job_id: u8,
    target: u32,
    data: Seq<u8>,
    nonce: u32,
    hash: Seq<u8>,
)
    requires
        hash.len() == HASH_LEN,
    ensures
        write_job_frame(job_id, target, data)[3] == job_id,
        decode_spec(solved_frame(write_job_frame(job_id, target, data)[3], nonce, hash))
            == (ResponseView::SolvedJob { job_id, nonce, hash }),
{
    let f = solved_frame(job_id, nonce, hash);
    lemma_u32_be_value(nonce);
    assert(f.subrange(4, 8) =~= u32_be(nonce));
    assert(f.subrange(8, 40) =~= hash);
}

} // verus!
