//! One solve session: the job is written to the device, then each poll
//! checks the stop signal before one blocking read; a failed read re-writes
//! the same job. The session is a state machine: the caller performs each
//! `Action` and reports what happened as an `Event`.
use crate::hex::{hex_encode, hex_spec};
use crate::proto::{copy_range, write_job_frame, DeriveResponse, Message, ResponseView};
use crate::target::{be_value, difficulty_to_target_u32, target_of};
use vstd::prelude::*;

verus! {

/// Where the extra-nonce field starts in the minting blob.
pub const EXTRA_OFFSET: usize = 35;

/// Length of the extra-nonce field.
pub const EXTRA_LEN: usize = 4;

/// The shortest minting blob that holds the extra-nonce field.
pub const MIN_BLOB_LEN: usize = 39;

/// A request to mine one block.
pub struct MintJob {
    pub minting_blob: Vec<u8>,
    /// 256-bit difficulty, most significant byte first.
    pub difficulty: [u8; 32],
    pub extra: Option<[u8; 4]>,
}

/// The session's result: the job's blob as given, the accepted nonce, the
/// extra-nonce field as given, and the hash in lowercase hex.
pub struct SealEvent {
    pub minting_blob: Vec<u8>,
    pub nonce: u32,
    pub extra: Option<[u8; 4]>,
    pub hash_result: String,
}

#[derive(Clone, Copy, Debug, PartialEq, Eq, Structural)]
pub enum JobError {
    /// The minting blob is too short to hold the extra-nonce field.
    PayloadTooShort,
}

#[derive(Clone, Copy, Debug, PartialEq, Eq, Structural)]
pub enum Phase {
    /// The job frame is to be written.
    Submitting,
    /// The stop signal is to be checked.
    Polling,
    /// One response is to be read.
    Reading,
    Solved,
    Cancelled,
    Fatal,
}

#[derive(Clone, Copy, Debug, PartialEq, Eq, Structural)]
pub enum Outcome {
    Solved,
    Cancelled,
    Fatal,
}

/// What the caller observed after performing the last action.
pub enum Event {
    JobWritten,
    WriteFailed,
    StopSignal(bool),
    Response(DeriveResponse),
    ReadFailed,
}

/// What the caller is to do next.
pub enum Action {
    /// Write `job_frame()` and read-and-discard one acknowledgement.
    WriteJob,
    /// Check the stop signal without blocking.
    CheckStop,
    /// Read one response.
    Read,
    /// Deliver the result; the session is solved.
    Emit(SealEvent),
    /// The session has ended.
    Finish(Outcome),
}

/// The four bytes spliced into the blob: the extra field, or zeros.
pub open spec fn extra_bytes(extra: Option<[u8; 4]>) -> Seq<u8> {
    match extra {
        Some(e) => e@,
        None => seq![0u8, 0u8, 0u8, 0u8],
    }
}

/// `blob` with the extra-nonce field overwritten by `e`.
pub open spec fn spliced(blob: Seq<u8>, e: Seq<u8>) -> Seq<u8> {
    blob.subrange(0, EXTRA_OFFSET as int) + e + blob.subrange(
        (EXTRA_OFFSET + EXTRA_LEN) as int,
        blob.len() as int,
    )
}

/// Overwrites bytes 35..39 of the blob with the extra field, or with zeros
/// when there is none; every other byte is kept.
pub fn splice_extra(blob: &[u8], extra: &Option<[u8; 4]>) -> (r: Vec<u8>)
    requires
        blob@.len() >= MIN_BLOB_LEN,
    ensures
        r@ == spliced(blob@, extra_bytes(*extra)),
        r@.len() == blob@.len(),
        forall|i: int|
            EXTRA_OFFSET <= i < EXTRA_OFFSET + EXTRA_LEN ==> #[trigger] r@[i] == extra_bytes(
                *extra,
            )[i - EXTRA_OFFSET],
        forall|i: int|
            0 <= i < blob@.len() && !(EXTRA_OFFSET <= i < EXTRA_OFFSET + EXTRA_LEN) ==> #[trigger] r@[i]
                == blob@[i],
{
    let e: [u8; 4] = match extra {
        Some(x) => *x,
        None => [0u8; 4],
    };
    assert(e@ =~= extra_bytes(*extra));
    let mut out = copy_range(blob, 0, blob.len());
    let mut k: usize = 0;
    while k < EXTRA_LEN
        invariant
            k <= EXTRA_LEN,
            e@ == extra_bytes(*extra),
            blob@.len() >= MIN_BLOB_LEN,
            out@.len() == blob@.len(),
            forall|i: int|
                EXTRA_OFFSET <= i < EXTRA_OFFSET + k ==> #[trigger] out@[i] == e@[i - EXTRA_OFFSET],
            forall|i: int|
                0 <= i < blob@.len() && !(EXTRA_OFFSET <= i < EXTRA_OFFSET + k) ==> #[trigger] out@[i]
                    == blob@[i],
        decreases EXTRA_LEN - k,
    {
        out.set(EXTRA_OFFSET + k, e[k]);
        k = k + 1;
    }
    assert(out@ =~= spliced(blob@, extra_bytes(*extra)));
    out
}

pub struct SessionView {
    pub job_id: u8,
    pub target: u32,
    pub frame: Seq<u8>,
    pub blob: Seq<u8>,
    pub extra: Option<[u8; 4]>,
    pub phase: Phase,
}

/// The state of one solve session.
pub struct SolveSession {
    job_id: u8,
    target: u32,
    frame: Vec<u8>,
    minting_blob: Vec<u8>,
    extra: Option<[u8; 4]>,
    phase: Phase,
}

impl View for SolveSession {
    type V = SessionView;

    closed spec fn view(&self) -> SessionView {
        SessionView {
            job_id: self.job_id,
            target: self.target,
            frame: self.frame@,
            blob: self.minting_blob@,
            extra: self.extra,
            phase: self.phase,
        }
    }
}

/// A response that reports the outstanding job as solved.
pub open spec fn solves(job_id: u8, r: ResponseView) -> bool {
    match r {
        ResponseView::SolvedJob { job_id: id, .. } => id == job_id,
        _ => false,
    }
}

pub open spec fn next_phase(phase: Phase, job_id: u8, ev: Event) -> Phase {
    match phase {
        Phase::Submitting => match ev {
            Event::JobWritten => Phase::Polling,
            Event::WriteFailed => Phase::Fatal,
            _ => phase,
        },
        Phase::Polling => match ev {
            Event::StopSignal(stop) => if stop {
                Phase::Cancelled
            } else {
                Phase::Reading
            },
            _ => phase,
        },
        Phase::Reading => match ev {
            Event::Response(r) => if solves(job_id, r@) {
                Phase::Solved
            } else {
                Phase::Polling
            },
            Event::ReadFailed => Phase::Submitting,
            _ => phase,
        },
        _ => phase,
    }
}

/// The step delivers a result: a read response reports the job solved.
pub open spec fn emits(phase: Phase, job_id: u8, ev: Event) -> bool {
    phase == Phase::Reading && match ev {
        Event::Response(r) => solves(job_id, r@),
        _ => false,
    }
}

/// The action that a phase asks for, where no result is delivered.
pub open spec fn action_for(phase: Phase, a: Action) -> bool {
    match phase {
        Phase::Submitting => a is WriteJob,
        Phase::Polling => a is CheckStop,
        Phase::Reading => a is Read,
        Phase::Solved => a == Action::Finish(Outcome::Solved),
        Phase::Cancelled => a == Action::Finish(Outcome::Cancelled),
        Phase::Fatal => a == Action::Finish(Outcome::Fatal),
    }
}

/// The result delivered for a solving response.
pub open spec fn emitted_as(s: SessionView, r: ResponseView, seal: SealEvent) -> bool {
    match r {
        ResponseView::SolvedJob { nonce, hash, .. } => {
            &&& seal.minting_blob@ == s.blob
            &&& seal.nonce == nonce
            &&& seal.extra == s.extra
            &&& seal.hash_result@ == hex_spec(hash)
        },
        _ => false,
    }
}

/// Relies on rand's thread-local generator (`rand::random`): some byte.
#[verifier::external_body]
fn random_job_id() -> (r: u8) {
    rand::random::<u8>()
}

impl SolveSession {
    /// A session for `job` under the given job id: the difficulty becomes the
    /// 32-bit target, the extra field is spliced into a copy of the blob, and
    /// the write-job frame is built. Fails iff the blob is shorter than 39 bytes.
    pub fn new(job: &MintJob, job_id: u8) -> (r: Result<SolveSession, JobError>)
        requires
            be_value(job.difficulty@) > 0,
        ensures
            job.minting_blob@.len() < MIN_BLOB_LEN <==> r == Err::<SolveSession, JobError>(
                JobError::PayloadTooShort,
            ),
            r matches Ok(s) ==> {
                &&& s@.job_id == job_id
                &&& s@.target as int == target_of(be_value(job.difficulty@))
                &&& s@.frame == write_job_frame(
                    job_id,
                    s@.target,
                    spliced(job.minting_blob@, extra_bytes(job.extra)),
                )
                &&& s@.blob == job.minting_blob@
                &&& s@.extra == job.extra
                &&& s@.phase == Phase::Submitting
            },
    {
        if job.minting_blob.len() < MIN_BLOB_LEN {
            return Err(JobError::PayloadTooShort);
        }
        let target = difficulty_to_target_u32(&job.difficulty);
        let data = splice_extra(job.minting_blob.as_slice(), &job.extra);
        let frame = Message::write_job_msg(job_id, target, data.as_slice());
        let minting_blob = copy_range(job.minting_blob.as_slice(), 0, job.minting_blob.len());
        assert(minting_blob@ =~= job.minting_blob@);
        Ok(SolveSession { job_id, target, frame, minting_blob, extra: job.extra, phase: Phase::Submitting })
    }

    /// A session under a randomly drawn job id; otherwise as `new`.
    pub fn start(job: &MintJob) -> (r: Result<SolveSession, JobError>)
        requires
            be_value(job.difficulty@) > 0,
        ensures
            job.minting_blob@.len() < MIN_BLOB_LEN <==> r == Err::<SolveSession, JobError>(
                JobError::PayloadTooShort,
            ),
            r matches Ok(s) ==> {
                &&& s@.target as int == target_of(be_value(job.difficulty@))
                &&& s@.frame == write_job_frame(
                    s@.job_id,
                    s@.target,
                    spliced(job.minting_blob@, extra_bytes(job.extra)),
                )
                &&& s@.blob == job.minting_blob@
                &&& s@.extra == job.extra
                &&& s@.phase == Phase::Submitting
            },
    {
        let job_id = random_job_id();
        SolveSession::new(job, job_id)
    }

    pub fn job_id(&self) -> (r: u8)
        ensures
            r == self@.job_id,
    {
        self.job_id
    }

    pub fn target(&self) -> (r: u32)
        ensures
            r == self@.target,
    {
        self.target
    }

    pub fn phase(&self) -> (r: Phase)
        ensures
            r == self@.phase,
    {
        self.phase
    }

    /// The write-job frame, written first and again after each failed read.
    pub fn job_frame(&self) -> (r: &Vec<u8>)
        ensures
            r@ == self@.frame,
    {
        &self.frame
    }

    /// Takes in what the caller observed and returns the next action. A
    /// terminal phase never changes and asks for nothing but `Finish`.
    pub fn step(&mut self, ev: Event) -> (a: Action)
        ensures
            final(self)@ == (SessionView {
                phase: next_phase(old(self)@.phase, old(self)@.job_id, ev),
                ..old(self)@
            }),
            emits(old(self)@.phase, old(self)@.job_id, ev) ==> match (a, ev) {
                (Action::Emit(seal), Event::Response(r)) => emitted_as(old(self)@, r@, seal),
                _ => false,
            },
            !emits(old(self)@.phase, old(self)@.job_id, ev) ==> action_for(final(self)@.phase, a),
    {
        match self.phase {
            Phase::Submitting => match ev {
                Event::JobWritten => {
                    self.phase = Phase::Polling;
                },
                Event::WriteFailed => {
                    self.phase = Phase::Fatal;
                },
                _ => {},
            },
            Phase::Polling => match ev {
                Event::StopSignal(stop) => {
                    if stop {
                        self.phase = Phase::Cancelled;
                    } else {
                        self.phase = Phase::Reading;
                    }
                },
                _ => {},
            },
            Phase::Reading => match ev {
                Event::Response(r) => {
                    match r {
                        DeriveResponse::SolvedJob(seal) => {
                            if seal.job_id == self.job_id {
                                self.phase = Phase::Solved;
                                let hash_result = hex_encode(seal.hash.as_slice());
                                let minting_blob = copy_range(
                                    self.minting_blob.as_slice(),
                                    0,
                                    self.minting_blob.len(),
                                );
                                assert(minting_blob@ =~= self.minting_blob@);
                                return Action::Emit(
                                    SealEvent {
                                        minting_blob,
                                        nonce: seal.nonce,
                                        extra: self.extra,
                                        hash_result,
                                    },
                                );
                            } else {
                                self.phase = Phase::Polling;
                            }
                        },
                        _ => {
                            self.phase = Phase::Polling;
                        },
                    }
                },
                Event::ReadFailed => {
                    self.phase = Phase::Submitting;
                },
                _ => {},
            },
            _ => {},
        }
        match self.phase {
            Phase::Submitting => Action::WriteJob,
            Phase::Polling => Action::CheckStop,
            Phase::Reading => Action::Read,
            Phase::Solved => Action::Finish(Outcome::Solved),
            Phase::Cancelled => Action::Finish(Outcome::Cancelled),
            Phase::Fatal => Action::Finish(Outcome::Fatal),
        }
    }
}

/// The phase after taking in `evs` one after another.
pub open spec fn run_phase(phase: Phase, job_id: u8, evs: Seq<Event>) -> Phase
    decreases evs.len(),
{
    if evs.len() == 0 {
        phase
    } else {
        next_phase(run_phase(phase, job_id, evs.drop_last()), job_id, evs.last())
    }
}

/// Some step of the run over `evs` delivers a result.
pub open spec fn any_emit(phase: Phase, job_id: u8, evs: Seq<Event>) -> bool
    decreases evs.len(),
{
    if evs.len() == 0 {
        false
    } else {
        any_emit(phase, job_id, evs.drop_last()) || emits(
            run_phase(phase, job_id, evs.drop_last()),
            job_id,
            evs.last(),
        )
    }
}

pub open spec fn is_solution(job_id: u8, ev: Event) -> bool {
    match ev {
        Event::Response(r) => solves(job_id, r@),
        _ => false,
    }
}

proof fn lemma_run_split(phase: Phase, job_id: u8, a: Seq<Event>, b: Seq<Event>)
    ensures
        run_phase(phase, job_id, a + b) == run_phase(run_phase(phase, job_id, a), job_id, b),
        any_emit(phase, job_id, a + b) == (any_emit(phase, job_id, a) || any_emit(
            run_phase(phase, job_id, a),
            job_id,
            b,
        )),
    decreases b.len(),
{
    if b.len() == 0 {
        assert(a + b =~= a);
    } else {
        lemma_run_split(phase, job_id, a, b.drop_last());
        assert((a + b).drop_last() =~= a + b.drop_last());
        assert((a + b).last() == b.last());
    }
}

proof fn lemma_no_solution_no_emit(phase: Phase, job_id: u8, evs: Seq<Event>)
    requires
        forall|i: int| 0 <= i < evs.len() ==> !is_solution(job_id, #[trigger] evs[i]),
    ensures
        !any_emit(phase, job_id, evs),
    decreases evs.len(),
{
    if evs.len() > 0 {
        assert(!is_solution(job_id, evs[evs.len() - 1]));
        lemma_no_solution_no_emit(phase, job_id, evs.drop_last());
    }
}

proof fn lemma_cancelled_stays(job_id: u8, evs: Seq<Event>)
    ensures
        run_phase(Phase::Cancelled, job_id, evs) == Phase::Cancelled,
        !any_emit(Phase::Cancelled, job_id, evs),
    decreases evs.len(),
{
    if evs.len() > 0 {
        lemma_cancelled_stays(job_id, evs.drop_last());
    }
}

/// When the stop signal is seen while polling, and no response before it
/// reported the job solved, the session ends cancelled and delivers no
/// result, whatever events follow.
pub proof fn lemma_cancel_before_solution(phase: Phase, job_id: u8, evs: Seq<Event>, k: int)
    requires
        0 <= k < evs.len(),
        run_phase(phase, job_id, evs.take(k)) == Phase::Polling,
        evs[k] matches Event::StopSignal(true),
        forall|i: int| 0 <= i < k ==> !is_solution(job_id, #[trigger] evs[i]),
    ensures
        run_phase(phase, job_id, evs) == Phase::Cancelled,
        !any_emit(phase, job_id, evs),
{
    let pre = evs.take(k);
    let mid = seq![evs[k]];
    let post = evs.skip(k + 1);
    assert(evs =~= pre + mid + post);
    assert forall|i: int| 0 <= i < pre.len() implies !is_solution(job_id, #[trigger] pre[i]) by {
        assert(pre[i] == evs[i]);
    }
    lemma_no_solution_no_emit(phase, job_id, pre);
    lemma_run_split(phase, job_id, pre, mid);
    assert(mid.drop_last() =~= Seq::<Event>::empty());
    assert(mid.last() == evs[k]);
    assert(run_phase(Phase::Polling, job_id, mid) == Phase::Cancelled);
    assert(!any_emit(Phase::Polling, job_id, mid.drop_last()));
    assert(run_phase(Phase::Polling, job_id, mid.drop_last()) == Phase::Polling);
    assert(!emits(Phase::Polling, job_id, mid.last()));
    assert(!any_emit(Phase::Polling, job_id, mid));
    lemma_run_split(phase, job_id, pre + mid, post);
    lemma_cancelled_stays(job_id, post);
}

} // verus!
