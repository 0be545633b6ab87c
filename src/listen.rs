//! The notification loop: each iteration either discards stale buffered data,
//! decodes one read payload, or ends on shutdown or a failed read.
use vstd::prelude::*;
use crate::decode::{InputCode, decode, decode_spec};

verus! {

/// The most bytes one read takes.
pub const READ_CAPACITY: usize = 4096;

/// What one iteration of the loop observed.
#[derive(Debug)]
pub enum ListenEvent {
    /// Data was already buffered from an earlier notification: this many bytes.
    Stale(usize),
    /// A read completed with this payload.
    Payload(Vec<u8>),
    /// The read itself failed.
    ReadFailed,
    /// The shutdown signal fired while the read was pending.
    Shutdown,
}

/// A loop event as a mathematical value.
pub enum ListenEventView {
    Stale(nat),
    Payload(Seq<u8>),
    ReadFailed,
    Shutdown,
}

impl View for ListenEvent {
    type V = ListenEventView;

    open spec fn view(&self) -> ListenEventView {
        match self {
            ListenEvent::Stale(n) => ListenEventView::Stale(*n as nat),
            ListenEvent::Payload(p) => ListenEventView::Payload(p@),
            ListenEvent::ReadFailed => ListenEventView::ReadFailed,
            ListenEvent::Shutdown => ListenEventView::Shutdown,
        }
    }
}

/// What the loop does with one event.
#[derive(Debug, Clone, Copy, PartialEq, Eq, Structural)]
pub enum ListenStep {
    /// Hand this code to the sink, then go on.
    Emit(InputCode),
    /// Drop this many stale bytes undecoded, then go on.
    DiscardStale(usize),
    /// Drop a payload of this length, which is not a code, then go on.
    DiscardPayload(usize),
    /// The shutdown signal ended the loop: a clean end.
    Stopped,
    /// The read failed: a fatal end.
    Failed,
}

impl ListenStep {
    /// Whether the loop goes on after this step.
    pub open spec fn goes_on(self) -> bool {
        self is Emit || self is DiscardStale || self is DiscardPayload
    }
}

/// What the loop does with event `ev`.
pub open spec fn listen_step(ev: ListenEventView) -> ListenStep {
    match ev {
        ListenEventView::Stale(n) => ListenStep::DiscardStale(n as usize),
        ListenEventView::Payload(p) => match decode_spec(p) {
            Some(c) => ListenStep::Emit(c),
            None => ListenStep::DiscardPayload(p.len() as usize),
        },
        ListenEventView::ReadFailed => ListenStep::Failed,
        ListenEventView::Shutdown => ListenStep::Stopped,
    }
}

/// The last step of a loop driven by `evs`, `None` before any event. Events
/// after the loop has ended change nothing.
pub open spec fn listen_run(evs: Seq<ListenEventView>) -> Option<ListenStep>
    decreases evs.len(),
{
    if evs.len() == 0 {
        None
    } else {
        let prev = listen_run(evs.drop_last());
        if listening(prev) {
            Some(listen_step(evs.last()))
        } else {
            prev
        }
    }
}

/// Whether the loop is still running after the step `last`.
pub open spec fn listening(last: Option<ListenStep>) -> bool {
    match last {
        None => true,
        Some(s) => s.goes_on(),
    }
}

/// The codes handed to the sink over a loop driven by `evs`, in order.
pub open spec fn emitted(evs: Seq<ListenEventView>) -> Seq<InputCode>
    decreases evs.len(),
{
    if evs.len() == 0 {
        Seq::empty()
    } else {
        let before = emitted(evs.drop_last());
        if listening(listen_run(evs.drop_last())) {
            match listen_step(evs.last()) {
                ListenStep::Emit(c) => before.push(c),
                _ => before,
            }
        } else {
            before
        }
    }
}

/// The loop's state: running, or ended.
#[derive(Debug)]
pub struct Listener {
    over: bool,
}

impl View for Listener {
    type V = bool;

    /// Whether the loop has ended.
    closed spec fn view(&self) -> bool {
        self.over
    }
}

impl Listener {
    pub fn new() -> (r: Listener)
        ensures
            !r@,
    {
        Listener { over: false }
    }

    /// Whether the loop has ended.
    pub fn is_over(&self) -> (r: bool)
        ensures
            r == self@,
    {
        self.over
    }

    /// Decides what to do with one event of a running loop.
    pub fn step(&mut self, ev: &ListenEvent) -> (r: ListenStep)
        requires
            !old(self)@,
        ensures
            r == listen_step(ev@),
            final(self)@ == !r.goes_on(),
    {
        match ev {
            ListenEvent::Stale(n) => ListenStep::DiscardStale(*n),
            ListenEvent::Payload(p) => match decode(p.as_slice()) {
                Some(c) => ListenStep::Emit(c),
                None => ListenStep::DiscardPayload(p.len()),
            },
            ListenEvent::ReadFailed => {
                self.over = true;
                ListenStep::Failed
            },
            ListenEvent::Shutdown => {
                self.over = true;
                ListenStep::Stopped
            },
        }
    }
}

proof fn lemma_ended_stays(evs: Seq<ListenEventView>, later: Seq<ListenEventView>)
    requires
        !listening(listen_run(evs)),
    ensures
        listen_run(evs + later) == listen_run(evs),
        emitted(evs + later) == emitted(evs),
    decreases later.len(),
{
    if later.len() > 0 {
        lemma_ended_stays(evs, later.drop_last());
        assert((evs + later).drop_last() =~= evs + later.drop_last());
    } else {
        assert(evs + later =~= evs);
    }
}

/// If the shutdown signal fires while the loop runs, the loop ends cleanly,
/// no code is handed to the sink afterwards, and the codes handed over
/// before stay as they were.
pub proof fn lemma_shutdown_ends_loop(evs: Seq<ListenEventView>, later: Seq<ListenEventView>)
    requires
        listening(listen_run(evs)),
    ensures
        listen_run(evs.push(ListenEventView::Shutdown) + later) == Some(ListenStep::Stopped),
        emitted(evs.push(ListenEventView::Shutdown) + later) == emitted(evs),
{
    let s = evs.push(ListenEventView::Shutdown);
    assert(s.drop_last() =~= evs);
    lemma_ended_stays(s, later);
}

/// A payload of any length other than one or two bytes is dropped: the loop
/// neither fails nor emits, and goes on.
pub proof fn lemma_bad_length_is_dropped(evs: Seq<ListenEventView>, p: Seq<u8>)
    requires
        listening(listen_run(evs)),
        p.len() != 1,
        p.len() != 2,
        p.len() <= usize::MAX,
    ensures
        listen_run(evs.push(ListenEventView::Payload(p))) == Some(ListenStep::DiscardPayload(p.len() as usize)),
        listening(listen_run(evs.push(ListenEventView::Payload(p)))),
        emitted(evs.push(ListenEventView::Payload(p))) == emitted(evs),
{
    assert(evs.push(ListenEventView::Payload(p)).drop_last() =~= evs);
}

} // verus!
