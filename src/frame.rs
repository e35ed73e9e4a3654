//! Splits the byte stream read from the device into ender-delimited frames.
//!
//! A frame ends where the bytes accumulated since the previous frame end with
//! the two ender bytes; the ender is dropped and accumulation starts afresh.
//! How the stream is cut into reads does not change the frames.
use crate::proto::{PKT_ENDER_0, PKT_ENDER_1};
use vstd::prelude::*;

verus! {

pub open spec fn ender() -> Seq<u8> {
    seq![PKT_ENDER_0, PKT_ENDER_1]
}

pub open spec fn ends_with_ender(p: Seq<u8>) -> bool {
    p.len() >= 2 && p[p.len() - 2] == PKT_ENDER_0 && p[p.len() - 1] == PKT_ENDER_1
}

/// No ender occurs anywhere in `s`.
pub open spec fn free_of_ender(s: Seq<u8>) -> bool {
    forall|i: int| 0 <= i < s.len() - 1 ==> !(#[trigger] s[i] == PKT_ENDER_0 && s[i + 1] == PKT_ENDER_1)
}

pub open spec fn frames_view(v: Seq<Vec<u8>>) -> Seq<Seq<u8>> {
    v.map_values(|f: Vec<u8>| f@)
}

/// One byte taken in: `st` is (frames completed so far, bytes pending).
pub open spec fn step(st: (Seq<Seq<u8>>, Seq<u8>), b: u8) -> (Seq<Seq<u8>>, Seq<u8>) {
    let p = st.1.push(b);
    if ends_with_ender(p) {
        (st.0.push(p.subrange(0, p.len() - 2)), Seq::empty())
    } else {
        (st.0, p)
    }
}

/// The bytes of `s` taken in one after another.
pub open spec fn run(st: (Seq<Seq<u8>>, Seq<u8>), s: Seq<u8>) -> (Seq<Seq<u8>>, Seq<u8>)
    decreases s.len(),
{
    if s.len() == 0 {
        st
    } else {
        step(run(st, s.drop_last()), s.last())
    }
}

/// The frames completed, and the bytes left pending, when `s` is read after
/// the bytes `pending`.
pub open spec fn split_frames(pending: Seq<u8>, s: Seq<u8>) -> (Seq<Seq<u8>>, Seq<u8>) {
    run((Seq::empty(), pending), s)
}

/// Accumulates bytes read from the device and hands out complete frames.
pub struct Framer {
    pending: Vec<u8>,
}

impl View for Framer {
    type V = Seq<u8>;

    closed spec fn view(&self) -> Seq<u8> {
        self.pending@
    }
}

impl Framer {
    pub fn new() -> (r: Framer)
        ensures
            r@ == Seq::<u8>::empty(),
    {
        Framer { pending: Vec::new() }
    }

    /// Takes in the bytes of one read and returns the frames they complete,
    /// in order, each without its ender.
    pub fn feed(&mut self, chunk: &[u8]) -> (frames: Vec<Vec<u8>>)
        ensures
            split_frames(old(self)@, chunk@) == (frames_view(frames@), final(self)@),
    {
        let mut frames: Vec<Vec<u8>> = Vec::new();
        let mut i: usize = 0;
        while i < chunk.len()
            invariant
                i <= chunk@.len(),
                split_frames(old(self)@, chunk@.subrange(0, i as int)) == (
                frames_view(frames@),
                self.pending@,
                ),
            decreases chunk@.len() - i,
        {
            let ghost before = (frames_view(frames@), self.pending@);
            let b = chunk[i];
            self.pending.push(b);
            let n = self.pending.len();
            if n >= 2 && self.pending[n - 2] == PKT_ENDER_0 && self.pending[n - 1] == PKT_ENDER_1 {
                self.pending.truncate(n - 2);
                let mut frame: Vec<u8> = Vec::new();
                std::mem::swap(&mut frame, &mut self.pending);
                frames.push(frame);
            }
            assert(chunk@.subrange(0, i + 1).drop_last() =~= chunk@.subrange(0, i as int));
            assert(frames_view(frames@) =~= step(before, b).0);
            assert(self.pending@ =~= step(before, b).1);
            i = i + 1;
        }
        assert(chunk@.subrange(0, chunk@.len() as int) =~= chunk@);
        frames
    }
}

/// Reading the stream in two pieces yields the frames of reading it whole:
/// the frames of the first piece followed by those of the second.
pub proof fn lemma_split_chunked(pending: Seq<u8>, s1: Seq<u8>, s2: Seq<u8>)
    ensures
        ({
            let (f1, p1) = split_frames(pending, s1);
            let (f2, p2) = split_frames(p1, s2);
            split_frames(pending, s1 + s2) == (f1 + f2, p2)
        }),
{
    let (f1, p1) = split_frames(pending, s1);
    lemma_run_append((Seq::empty(), pending), s1, s2);
    lemma_run_frames((f1, p1), s2);
}

proof fn lemma_run_append(st: (Seq<Seq<u8>>, Seq<u8>), s1: Seq<u8>, s2: Seq<u8>)
    ensures
        run(st, s1 + s2) == run(run(st, s1), s2),
    decreases s2.len(),
{
    if s2.len() == 0 {
        assert(s1 + s2 =~= s1);
    } else {
        lemma_run_append(st, s1, s2.drop_last());
        assert((s1 + s2).drop_last() =~= s1 + s2.drop_last());
    }
}

/// Frames already completed are kept in front of those that follow.
proof fn lemma_run_frames(st: (Seq<Seq<u8>>, Seq<u8>), s: Seq<u8>)
    ensures
        run(st, s) == (st.0 + run((Seq::empty(), st.1), s).0, run((Seq::empty(), st.1), s).1),
    decreases s.len(),
{
    if s.len() == 0 {
        assert(st.0 + Seq::<Seq<u8>>::empty() =~= st.0);
    } else {
        lemma_run_frames(st, s.drop_last());
        let inner = run((Seq::empty(), st.1), s.drop_last());
        let p = inner.1.push(s.last());
        if ends_with_ender(p) {
            assert(st.0 + inner.0.push(p.subrange(0, p.len() - 2)) =~= (st.0 + inner.0).push(
                p.subrange(0, p.len() - 2),
            ));
        }
    }
}

/// Bytes that complete no frame stay pending.
proof fn lemma_run_no_ender(st: (Seq<Seq<u8>>, Seq<u8>), s: Seq<u8>)
    requires
        free_of_ender(st.1 + s),
    ensures
        run(st, s) == (st.0, st.1 + s),
    decreases s.len(),
{
    if s.len() == 0 {
        assert(st.1 + s =~= st.1);
    } else {
        let t = st.1 + s.drop_last();
        assert(t =~= (st.1 + s).subrange(0, t.len() as int));
        assert(free_of_ender(t));
        lemma_run_no_ender(st, s.drop_last());
        assert(t.push(s.last()) =~= st.1 + s);
        if t.len() + 1 >= 2 {
            assert(!((st.1 + s)[t.len() - 1] == PKT_ENDER_0 && (st.1 + s)[t.len() as int]
                == PKT_ENDER_1));
        }
    }
}

/// One frame and its ender, read from an empty buffer.
proof fn lemma_one_frame(frames: Seq<Seq<u8>>, f: Seq<u8>)
    requires
        free_of_ender(f),
    ensures
        run((frames, Seq::empty()), f + ender()) == (frames.push(f), Seq::<u8>::empty()),
{
    let st = (frames, Seq::<u8>::empty());
    assert(Seq::<u8>::empty() + f =~= f);
    lemma_run_no_ender(st, f);
    let s = f + ender();
    assert(s.drop_last() =~= f.push(PKT_ENDER_0));
    assert(s.drop_last().drop_last() =~= f);
    assert(s.last() == PKT_ENDER_1);
    assert(s.drop_last().last() == PKT_ENDER_0);
    assert(run(st, s.drop_last()) == step(run(st, f), PKT_ENDER_0));
    assert(run(st, s.drop_last()) == (frames, f.push(PKT_ENDER_0)));
    let p = f.push(PKT_ENDER_0).push(PKT_ENDER_1);
    assert(ends_with_ender(p));
    assert(p.subrange(0, p.len() - 2) =~= f);
}

/// Two frames, each followed by the ender, split into exactly those two
/// frames with nothing left pending.
pub proof fn lemma_two_frames(f1: Seq<u8>, f2: Seq<u8>)
    requires
        free_of_ender(f1),
        free_of_ender(f2),
    ensures
        split_frames(Seq::empty(), f1 + ender() + f2 + ender()) == (
        seq![f1, f2],
        Seq::<u8>::empty(),
        ),
{
    let e = Seq::<Seq<u8>>::empty();
    lemma_run_append((e, Seq::empty()), f1 + ender(), f2 + ender());
    assert(f1 + ender() + (f2 + ender()) =~= f1 + ender() + f2 + ender());
    lemma_one_frame(e, f1);
    lemma_one_frame(e.push(f1), f2);
    assert(e.push(f1).push(f2) =~= seq![f1, f2]);
}

} // verus!
