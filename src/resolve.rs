//! GATT handle resolution: six lookups by fixed UUID, each a linear scan of
//! one level of the device's attribute tree, raced against shutdown.
use vstd::prelude::*;

verus! {

/// The vendor service.
pub const SERVICE_UUID: u128 = 0xfff000001000800000805f9b34fb;

/// The characteristic that the handshake is written to.
pub const WRITE_CHAR_UUID: u128 = 0xfff300001000800000805f9b34fb;

/// The descriptor of the write characteristic.
pub const WRITE_DESC_UUID: u128 = 0x290200001000800000805f9b34fb;

/// The config characteristic.
pub const CONFIG_CHAR_UUID: u128 = 0xfff200001000800000805f9b34fb;

/// The characteristic whose notifications carry the input codes.
pub const NOTIFY_CHAR_UUID: u128 = 0xfff100001000800000805f9b34fb;

/// The descriptor of the notify characteristic.
pub const NOTIFY_DESC_UUID: u128 = 0x290200001000800000805f9b34fb;

/// The number of handles a session needs.
pub const HANDLE_COUNT: usize = 6;

/// The index of the first UUID in `s` equal to `t`, if any.
pub open spec fn first_index(s: Seq<u128>, t: u128) -> Option<int>
    decreases s.len(),
{
    if s.len() == 0 {
        None
    } else if s[0] == t {
        Some(0)
    } else {
        match first_index(s.subrange(1, s.len() as int), t) {
            Some(i) => Some(i + 1),
            None => None,
        }
    }
}

proof fn lemma_first_index_none(s: Seq<u128>, t: u128)
    requires
        forall|j: int| 0 <= j < s.len() ==> s[j] != t,
    ensures
        first_index(s, t) is None,
    decreases s.len(),
{
    if s.len() > 0 {
        let rest = s.subrange(1, s.len() as int);
        assert forall|j: int| 0 <= j < rest.len() implies rest[j] != t by {
            assert(rest[j] == s[j + 1]);
        }
        lemma_first_index_none(rest, t);
    }
}

proof fn lemma_first_index_some(s: Seq<u128>, t: u128, i: int)
    requires
        0 <= i < s.len(),
        s[i] == t,
        forall|j: int| 0 <= j < i ==> s[j] != t,
    ensures
        first_index(s, t) == Some(i),
    decreases s.len(),
{
    if i > 0 {
        let rest = s.subrange(1, s.len() as int);
        assert(rest[i - 1] == s[i]);
        assert forall|j: int| 0 <= j < i - 1 implies rest[j] != t by {
            assert(rest[j] == s[j + 1]);
        }
        lemma_first_index_some(rest, t, i - 1);
    }
}

/// The index of the first UUID in `uuids` equal to `target`, or `None` where
/// none is.
pub fn find_first(uuids: &Vec<u128>, target: u128) -> (r: Option<usize>)
    ensures
        r matches Some(i) ==> i < uuids@.len() && uuids@[i as int] == target
            && forall|j: int| 0 <= j < i ==> uuids@[j] != target,
        r is None <==> forall|j: int| 0 <= j < uuids@.len() ==> uuids@[j] != target,
        r matches Some(i) ==> first_index(uuids@, target) == Some(i as int),
        r is None ==> first_index(uuids@, target) is None,
{
    let mut i: usize = 0;
    while i < uuids.len()
        invariant
            i <= uuids@.len(),
            forall|j: int| 0 <= j < i ==> uuids@[j] != target,
        decreases uuids@.len() - i,
    {
        if uuids[i] == target {
            proof {
                lemma_first_index_some(uuids@, target, i as int);
            }
            return Some(i);
        }
        i = i + 1;
    }
    proof {
        lemma_first_index_none(uuids@, target);
    }
    None
}

/// One level of the attribute tree: the device's services, the
/// characteristics of a service, or the descriptors of a characteristic.
/// Indices are positions in the lists the device reported at that level.
#[derive(Debug, Clone, Copy, PartialEq, Eq, Structural)]
pub enum GattLevel {
    Services,
    Characteristics { service: usize },
    Descriptors { service: usize, characteristic: usize },
}

/// A lookup to perform: list the UUIDs at `level` and find `target` there.
#[derive(Debug, Clone, Copy, PartialEq, Eq, Structural)]
pub struct Lookup {
    pub level: GattLevel,
    pub target: u128,
}

/// The resolved handles, each as its index in the list of its level.
#[derive(Debug, Clone, Copy, PartialEq, Eq, Structural)]
pub struct Handles {
    pub service: usize,
    pub write_char: usize,
    pub write_desc: usize,
    pub config_char: usize,
    pub notify_char: usize,
    pub notify_desc: usize,
}

/// What the resolver does next.
#[derive(Debug, Clone, Copy, PartialEq, Eq, Structural)]
pub enum ResolveStep {
    /// Perform this lookup and report its listing.
    Next(Lookup),
    /// Every handle was found.
    Resolved(Handles),
    /// The lookup found no match: the device is not of the supported model.
    NotFound(Lookup),
    /// The shutdown signal fired first; no handle set is returned.
    Cancelled,
}

/// What the caller reports to the resolver.
#[derive(Debug)]
pub enum ResolveEvent {
    /// The UUIDs at the level of the pending lookup, in the device's order.
    Listed(Vec<u128>),
    /// The shutdown signal fired.
    Shutdown,
}

impl ResolveEvent {
    pub open spec fn listing(&self) -> Option<Seq<u128>> {
        match self {
            ResolveEvent::Listed(v) => Some(v@),
            ResolveEvent::Shutdown => None,
        }
    }
}

/// The lookup that resolves handle `k`, given the indices `found` so far.
pub open spec fn stage_lookup(k: int, found: Seq<usize>) -> Lookup {
    if k == 0 {
        Lookup { level: GattLevel::Services, target: SERVICE_UUID }
    } else if k == 1 {
        Lookup { level: GattLevel::Characteristics { service: found[0] }, target: WRITE_CHAR_UUID }
    } else if k == 2 {
        Lookup {
            level: GattLevel::Descriptors { service: found[0], characteristic: found[1] },
            target: WRITE_DESC_UUID,
        }
    } else if k == 3 {
        Lookup { level: GattLevel::Characteristics { service: found[0] }, target: CONFIG_CHAR_UUID }
    } else if k == 4 {
        Lookup { level: GattLevel::Characteristics { service: found[0] }, target: NOTIFY_CHAR_UUID }
    } else {
        Lookup {
            level: GattLevel::Descriptors { service: found[0], characteristic: found[4] },
            target: NOTIFY_DESC_UUID,
        }
    }
}

pub open spec fn handles_of(found: Seq<usize>) -> Handles {
    Handles {
        service: found[0],
        write_char: found[1],
        write_desc: found[2],
        config_char: found[3],
        notify_char: found[4],
        notify_desc: found[5],
    }
}

/// One step of resolution from the indices `found` so far; `None` is the
/// shutdown signal.
pub open spec fn step_spec(found: Seq<usize>, listing: Option<Seq<u128>>) -> (Seq<usize>, ResolveStep) {
    match listing {
        None => (found, ResolveStep::Cancelled),
        Some(u) => {
            let lk = stage_lookup(found.len() as int, found);
            match first_index(u, lk.target) {
                None => (found, ResolveStep::NotFound(lk)),
                Some(i) => {
                    let f2 = found.push(i as usize);
                    if f2.len() == HANDLE_COUNT {
                        (f2, ResolveStep::Resolved(handles_of(f2)))
                    } else {
                        (f2, ResolveStep::Next(stage_lookup(f2.len() as int, f2)))
                    }
                },
            }
        },
    }
}

/// A resolution driven by the events in `evs`, from the start: the indices
/// found and the last step. Events after the resolution has ended change
/// nothing.
pub open spec fn run(evs: Seq<Option<Seq<u128>>>) -> (Seq<usize>, ResolveStep)
    decreases evs.len(),
{
    if evs.len() == 0 {
        (Seq::empty(), ResolveStep::Next(stage_lookup(0, Seq::empty())))
    } else {
        let prev = run(evs.drop_last());
        if prev.1 is Next {
            step_spec(prev.0, evs.last())
        } else {
            prev
        }
    }
}

/// Resolution state: the indices found so far, and whether it has ended.
#[derive(Debug)]
pub struct Resolver {
    found: Vec<usize>,
    over: bool,
}

impl View for Resolver {
    type V = (Seq<usize>, bool);

    closed spec fn view(&self) -> (Seq<usize>, bool) {
        (self.found@, self.over)
    }
}

impl Resolver {
    pub closed spec fn wf(&self) -> bool {
        &&& self.found@.len() <= HANDLE_COUNT
        &&& !self.over ==> self.found@.len() < HANDLE_COUNT
    }

    pub fn new() -> (r: Resolver)
        ensures
            r.wf(),
            r@ == (Seq::<usize>::empty(), false),
            (r@.0, ResolveStep::Next(r.pending_spec())) == run(Seq::empty()),
    {
        Resolver { found: Vec::new(), over: false }
    }

    pub open spec fn pending_spec(&self) -> Lookup {
        stage_lookup(self@.0.len() as int, self@.0)
    }

    /// The lookup to perform next.
    pub fn pending(&self) -> (r: Lookup)
        requires
            self.wf(),
            !self@.1,
        ensures
            r == self.pending_spec(),
    {
        let k = self.found.len();
        if k == 0 {
            Lookup { level: GattLevel::Services, target: SERVICE_UUID }
        } else if k == 1 {
            Lookup { level: GattLevel::Characteristics { service: self.found[0] }, target: WRITE_CHAR_UUID }
        } else if k == 2 {
            Lookup {
                level: GattLevel::Descriptors { service: self.found[0], characteristic: self.found[1] },
                target: WRITE_DESC_UUID,
            }
        } else if k == 3 {
            Lookup { level: GattLevel::Characteristics { service: self.found[0] }, target: CONFIG_CHAR_UUID }
        } else if k == 4 {
            Lookup { level: GattLevel::Characteristics { service: self.found[0] }, target: NOTIFY_CHAR_UUID }
        } else {
            Lookup {
                level: GattLevel::Descriptors { service: self.found[0], characteristic: self.found[4] },
                target: NOTIFY_DESC_UUID,
            }
        }
    }

    /// Takes the listing of the pending lookup, or the shutdown signal, and
    /// says what comes next.
    pub fn step(&mut self, ev: &ResolveEvent) -> (r: ResolveStep)
        requires
            old(self).wf(),
            !old(self)@.1,
        ensures
            final(self).wf(),
            (final(self)@.0, r) == step_spec(old(self)@.0, ev.listing()),
            final(self)@.1 == !(r is Next),
            r is Next ==> r == ResolveStep::Next(final(self).pending_spec()),
    {
        match ev {
            ResolveEvent::Shutdown => {
                self.over = true;
                ResolveStep::Cancelled
            },
            ResolveEvent::Listed(uuids) => {
                let lk = self.pending();
                match find_first(uuids, lk.target) {
                    None => {
                        self.over = true;
                        ResolveStep::NotFound(lk)
                    },
                    Some(i) => {
                        self.found.push(i);
                        if self.found.len() == HANDLE_COUNT {
                            self.over = true;
                            ResolveStep::Resolved(Handles {
                                service: self.found[0],
                                write_char: self.found[1],
                                write_desc: self.found[2],
                                config_char: self.found[3],
                                notify_char: self.found[4],
                                notify_desc: self.found[5],
                            })
                        } else {
                            let next = self.pending();
                            ResolveStep::Next(next)
                        }
                    },
                }
            },
        }
    }
}

/// If the shutdown signal fires while resolution is still pending, the
/// outcome is the cancellation, never a handle set, and no later event
/// changes that.
pub proof fn lemma_shutdown_before_resolution_cancels(
    evs: Seq<Option<Seq<u128>>>,
    later: Seq<Option<Seq<u128>>>,
)
    requires
        run(evs).1 is Next,
    ensures
        run(evs.push(None)).1 == ResolveStep::Cancelled,
        run(evs.push(None) + later).1 == ResolveStep::Cancelled,
    decreases later.len(),
{
    assert(evs.push(None).drop_last() =~= evs);
    if later.len() > 0 {
        let shorter = later.drop_last();
        lemma_shutdown_before_resolution_cancels(evs, shorter);
        assert((evs.push(None) + later).drop_last() =~= evs.push(None) + shorter);
    } else {
        assert(evs.push(None) + later =~= evs.push(None));
    }
}

} // verus!
