//! The vendor handshake: six opaque frames written in order to the write
//! characteristic, aborted at the first failed write, raced against shutdown.
use vstd::prelude::*;

verus! {

/// The number of handshake frames.
pub const FRAME_COUNT: usize = 6;

/// Handshake frame `k`, carried verbatim.
pub open spec fn frame_spec(k: int) -> Seq<u8> {
    if k == 0 {
        seq![0x55u8, 0x00, 0x07, 0x88, 0x94, 0x00, 0x1a, 0xfe]
    } else if k == 1 {
        seq![
            0xb5u8, 0x00, 0x5d, 0x04, 0x08, 0x05, 0x08, 0x06, 0x08, 0x07, 0x08, 0x08, 0x08, 0x09,
            0x08, 0x0b, 0x08, 0x0c, 0x08, 0x0d,
        ]
    } else if k == 2 {
        seq![
            0x08u8, 0x0e, 0x08, 0x0f, 0x08, 0x26, 0x08, 0x27, 0x08, 0x28, 0x08, 0x29, 0x08, 0x3b,
            0x08, 0x3c, 0x08, 0x3d, 0x08, 0x3e,
        ]
    } else if k == 3 {
        seq![
            0x08u8, 0x3f, 0x08, 0x40, 0x08, 0x41, 0x08, 0x42, 0x08, 0x43, 0x08, 0x44, 0x08, 0x45,
            0x08, 0x46, 0x08, 0x47, 0x08, 0x48,
        ]
    } else if k == 4 {
        seq![
            0x08u8, 0x49, 0x08, 0x4a, 0x08, 0x4b, 0x08, 0x4c, 0x08, 0x4d, 0x08, 0x4e, 0x08, 0x4f,
            0x08, 0x50, 0x08, 0x51, 0x08, 0x52,
        ]
    } else {
        seq![0x08u8, 0x53, 0x08, 0x54, 0x08, 0xa8, 0x08, 0xa9, 0x08, 0xaa, 0x08, 0xab, 0x08, 0xfe]
    }
}

/// The bytes of handshake frame `k`.
pub fn frame(k: usize) -> (r: Vec<u8>)
    requires
        k < FRAME_COUNT,
    ensures
        r@ == frame_spec(k as int),
{
    let r = if k == 0 {
        vec![0x55u8, 0x00, 0x07, 0x88, 0x94, 0x00, 0x1a, 0xfe]
    } else if k == 1 {
        vec![
            0xb5u8, 0x00, 0x5d, 0x04, 0x08, 0x05, 0x08, 0x06, 0x08, 0x07, 0x08, 0x08, 0x08, 0x09,
            0x08, 0x0b, 0x08, 0x0c, 0x08, 0x0d,
        ]
    } else if k == 2 {
        vec![
            0x08u8, 0x0e, 0x08, 0x0f, 0x08, 0x26, 0x08, 0x27, 0x08, 0x28, 0x08, 0x29, 0x08, 0x3b,
            0x08, 0x3c, 0x08, 0x3d, 0x08, 0x3e,
        ]
    } else if k == 3 {
        vec![
            0x08u8, 0x3f, 0x08, 0x40, 0x08, 0x41, 0x08, 0x42, 0x08, 0x43, 0x08, 0x44, 0x08, 0x45,
            0x08, 0x46, 0x08, 0x47, 0x08, 0x48,
        ]
    } else if k == 4 {
        vec![
            0x08u8, 0x49, 0x08, 0x4a, 0x08, 0x4b, 0x08, 0x4c, 0x08, 0x4d, 0x08, 0x4e, 0x08, 0x4f,
            0x08, 0x50, 0x08, 0x51, 0x08, 0x52,
        ]
    } else {
        vec![0x08u8, 0x53, 0x08, 0x54, 0x08, 0xa8, 0x08, 0xa9, 0x08, 0xaa, 0x08, 0xab, 0x08, 0xfe]
    };
    assert(r@ =~= frame_spec(k as int));
    r
}

/// The outcome of the pending write, as the caller saw it.
#[derive(Debug, Clone, Copy, PartialEq, Eq, Structural)]
pub enum WriteEvent {
    /// The pending frame was written in full.
    Written,
    /// The write of the pending frame failed.
    Rejected,
    /// The shutdown signal fired first.
    Shutdown,
}

/// What the handshake does next.
#[derive(Debug, Clone, Copy, PartialEq, Eq, Structural)]
pub enum HandshakeStep {
    /// Write frame `k` and report how it went.
    Write(usize),
    /// All frames were written.
    Done,
    /// The write of frame `k` failed; the sequence is abandoned there.
    Failed(usize),
    /// The shutdown signal fired; the sequence is abandoned.
    Cancelled,
}

/// One step from `sent` frames written, with frame `sent` pending.
pub open spec fn hs_step(sent: nat, ev: WriteEvent) -> (nat, HandshakeStep) {
    match ev {
        WriteEvent::Written => if sent + 1 == FRAME_COUNT {
            (sent + 1, HandshakeStep::Done)
        } else {
            ((sent + 1) as nat, HandshakeStep::Write((sent + 1) as usize))
        },
        WriteEvent::Rejected => (sent, HandshakeStep::Failed(sent as usize)),
        WriteEvent::Shutdown => (sent, HandshakeStep::Cancelled),
    }
}

/// A handshake driven by `evs` from the start: the frames written and the
/// last step. Events after it has ended change nothing.
pub open spec fn hs_run(evs: Seq<WriteEvent>) -> (nat, HandshakeStep)
    decreases evs.len(),
{
    if evs.len() == 0 {
        (0, HandshakeStep::Write(0))
    } else {
        let prev = hs_run(evs.drop_last());
        if prev.1 is Write {
            hs_step(prev.0, evs.last())
        } else {
            prev
        }
    }
}

/// The frames handed to the peer over a run, in the order they were sent.
pub open spec fn hs_writes(evs: Seq<WriteEvent>) -> Seq<int>
    decreases evs.len(),
{
    if evs.len() == 0 {
        seq![0int]
    } else {
        let prev = hs_run(evs.drop_last());
        let before = hs_writes(evs.drop_last());
        if prev.1 is Write {
            match hs_step(prev.0, evs.last()).1 {
                HandshakeStep::Write(k) => before.push(k as int),
                _ => before,
            }
        } else {
            before
        }
    }
}

/// The handshake's progress: frames written so far, and whether it ended.
#[derive(Debug)]
pub struct Handshake {
    sent: usize,
    over: bool,
}

impl View for Handshake {
    type V = (nat, bool);

    closed spec fn view(&self) -> (nat, bool) {
        (self.sent as nat, self.over)
    }
}

impl Handshake {
    pub closed spec fn wf(&self) -> bool {
        &&& self.sent <= FRAME_COUNT
        &&& !self.over ==> self.sent < FRAME_COUNT
    }

    /// A handshake that has written nothing; frame 0 is pending.
    pub fn new() -> (r: Handshake)
        ensures
            r.wf(),
            r@ == (0nat, false),
            (r@.0, HandshakeStep::Write(0)) == hs_run(Seq::empty()),
    {
        Handshake { sent: 0, over: false }
    }

    /// The index of the frame to write next.
    pub fn pending(&self) -> (r: usize)
        requires
            self.wf(),
            !self@.1,
        ensures
            r == self@.0,
            r < FRAME_COUNT,
    {
        self.sent
    }

    /// Takes the outcome of the pending write and says what comes next.
    pub fn step(&mut self, ev: WriteEvent) -> (r: HandshakeStep)
        requires
            old(self).wf(),
            !old(self)@.1,
        ensures
            final(self).wf(),
            (final(self)@.0, r) == hs_step(old(self)@.0, ev),
            final(self)@.1 == !(r is Write),
    {
        match ev {
            WriteEvent::Written => {
                self.sent = self.sent + 1;
                if self.sent == FRAME_COUNT {
                    self.over = true;
                    HandshakeStep::Done
                } else {
                    HandshakeStep::Write(self.sent)
                }
            },
            WriteEvent::Rejected => {
                self.over = true;
                HandshakeStep::Failed(self.sent)
            },
            WriteEvent::Shutdown => {
                self.over = true;
                HandshakeStep::Cancelled
            },
        }
    }
}

proof fn lemma_hs_writes_shape(evs: Seq<WriteEvent>)
    ensures
        hs_run(evs).0 <= FRAME_COUNT,
        hs_run(evs).1 is Write ==> hs_run(evs).0 < FRAME_COUNT
            && hs_run(evs).1 == HandshakeStep::Write(hs_run(evs).0 as usize),
        hs_run(evs).1 is Failed ==> hs_run(evs).1 == HandshakeStep::Failed(hs_run(evs).0 as usize)
            && hs_run(evs).0 < FRAME_COUNT,
        hs_run(evs).1 is Done ==> hs_run(evs).0 == FRAME_COUNT,
        hs_run(evs).1 is Cancelled ==> hs_run(evs).0 < FRAME_COUNT,
        hs_writes(evs) =~= Seq::new(
            if hs_run(evs).1 is Done { FRAME_COUNT as nat } else { hs_run(evs).0 + 1 },
            |i: int| i,
        ),
    decreases evs.len(),
{
    if evs.len() > 0 {
        lemma_hs_writes_shape(evs.drop_last());
    }
}

/// The frames reach the peer in order, each once, starting from the first:
/// the i-th frame handed over is frame i.
pub proof fn lemma_frames_in_order(evs: Seq<WriteEvent>)
    ensures
        forall|i: int| 0 <= i < hs_writes(evs).len() ==> hs_writes(evs)[i] == i,
        hs_writes(evs).len() <= FRAME_COUNT,
        hs_run(evs).1 is Done ==> hs_writes(evs).len() == FRAME_COUNT,
{
    lemma_hs_writes_shape(evs);
}

/// If the write of frame `k` is rejected, frame `k` is the last one handed
/// to the peer: no later frame is sent, whatever follows.
pub proof fn lemma_rejected_write_stops(evs: Seq<WriteEvent>, k: usize, later: Seq<WriteEvent>)
    requires
        hs_run(evs).1 == HandshakeStep::Write(k),
    ensures
        hs_run(evs.push(WriteEvent::Rejected)).1 == HandshakeStep::Failed(k),
        hs_writes(evs.push(WriteEvent::Rejected) + later) == hs_writes(evs),
        hs_writes(evs).last() == k,
        forall|i: int| 0 <= i < hs_writes(evs).len() ==> hs_writes(evs)[i] <= k,
    decreases later.len(),
{
    lemma_hs_writes_shape(evs);
    assert(evs.push(WriteEvent::Rejected).drop_last() =~= evs);
    if later.len() > 0 {
        lemma_rejected_write_stops(evs, k, later.drop_last());
        assert((evs.push(WriteEvent::Rejected) + later).drop_last()
            =~= evs.push(WriteEvent::Rejected) + later.drop_last());
        lemma_stays_over(evs.push(WriteEvent::Rejected), later.drop_last());
    } else {
        assert(evs.push(WriteEvent::Rejected) + later =~= evs.push(WriteEvent::Rejected));
    }
}

proof fn lemma_stays_over(evs: Seq<WriteEvent>, later: Seq<WriteEvent>)
    requires
        !(hs_run(evs).1 is Write),
    ensures
        hs_run(evs + later) == hs_run(evs),
    decreases later.len(),
{
    if later.len() > 0 {
        lemma_stays_over(evs, later.drop_last());
        assert((evs + later).drop_last() =~= evs + later.drop_last());
    } else {
        assert(evs + later =~= evs);
    }
}

} // verus!
