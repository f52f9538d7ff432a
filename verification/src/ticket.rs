//! One-shot tickets: the table from ticket to pending query task.
//!
//! A ticket names its task by a serial number that the tracker never hands
//! out twice, and carries a nonce that the caller draws at random, so that a
//! ticket cannot be guessed from another one. Taking a ticket removes its
//! entry: whatever is taken is taken once.

use crate::cluster::Field;
use crate::config::MIN_TICKET_TTL_SECS;
use crate::keyed::{
    distinct_keys, has_key, lemma_absent, lemma_pair_at, lemma_pairs_empty, lemma_pairs_push,
    lemma_pairs_remove, pairs_map, position_of,
};
use vstd::bytes::{
    lemma_auto_spec_u64_to_from_le_bytes, spec_u64_from_le_bytes, spec_u64_to_le_bytes,
    u64_from_le_bytes, u64_to_le_bytes,
};
use vstd::prelude::*;
use vstd::slice::slice_subrange;

verus! {

/// The number of bytes of a ticket on the wire.
pub const TICKET_BYTES: usize = 16;

/// An opaque handle on a pending task.
#[derive(Clone, Copy, Debug, PartialEq, Eq, Structural)]
pub struct SynapseTicket {
    pub serial: u64,
    pub nonce: u64,
}

/// A planned query that waits for its results to be asked for.
#[derive(Debug)]
pub struct Task {
    /// The plan, in the form the execution backend takes it.
    pub plan: Vec<u8>,
    /// The columns of the result.
    pub schema: Vec<Field>,
    /// Whether the order of the result's batches matters.
    pub ordered: bool,
    /// The number of rows of the result, where the plan can tell.
    pub num_rows: Option<u64>,
    /// The size of the result in bytes, where the plan can tell.
    pub byte_size: Option<u64>,
}

/// What the tracker keeps under a serial number.
pub struct Pending {
    pub nonce: u64,
    pub deadline: u64,
    pub task: Task,
}

#[derive(Debug)]
struct Entry {
    serial: u64,
    nonce: u64,
    deadline: u64,
    task: Task,
}

/// The tracker as a map from serial number to pending task, the count of
/// serial numbers handed out, and the time an unused ticket is kept.
pub struct TrackerView {
    pub pending: Map<u64, Pending>,
    pub issued: nat,
    pub ttl: u64,
}

/// The table of pending tasks.
#[derive(Debug)]
pub struct TicketTracker {
    entries: Vec<Entry>,
    issued: u64,
    ttl: u64,
}

/// The bytes of a ticket: serial number, then nonce, each as eight
/// little-endian bytes.
pub open spec fn ticket_bytes(t: SynapseTicket) -> Seq<u8> {
    spec_u64_to_le_bytes(t.serial) + spec_u64_to_le_bytes(t.nonce)
}

/// The ticket that sixteen bytes spell; other lengths spell none.
pub open spec fn parse_ticket(bytes: Seq<u8>) -> Option<SynapseTicket> {
    if bytes.len() == TICKET_BYTES {
        Some(
            SynapseTicket {
                serial: spec_u64_from_le_bytes(bytes.subrange(0, 8)),
                nonce: spec_u64_from_le_bytes(bytes.subrange(8, 16)),
            },
        )
    } else {
        None
    }
}

/// The time until which a ticket put at `now` can be taken.
pub open spec fn deadline_of(now: u64, ttl: u64) -> u64 {
    if now + ttl > u64::MAX {
        u64::MAX
    } else {
        (now + ttl) as u64
    }
}

/// A ticket read back from its bytes is the ticket.
pub proof fn lemma_ticket_round_trip(t: SynapseTicket)
    ensures
        parse_ticket(ticket_bytes(t)) == Some(t),
{
    lemma_auto_spec_u64_to_from_le_bytes();
    let bytes = ticket_bytes(t);
    assert(bytes.subrange(0, 8) =~= spec_u64_to_le_bytes(t.serial));
    assert(bytes.subrange(8, 16) =~= spec_u64_to_le_bytes(t.nonce));
}

/// Sixteen bytes are the bytes of the ticket they spell.
pub proof fn lemma_bytes_round_trip(bytes: Seq<u8>)
    requires
        bytes.len() == TICKET_BYTES,
    ensures
        ticket_bytes(parse_ticket(bytes).unwrap()) == bytes,
{
    lemma_auto_spec_u64_to_from_le_bytes();
    let t = parse_ticket(bytes).unwrap();
    assert(spec_u64_to_le_bytes(t.serial) == bytes.subrange(0, 8));
    assert(spec_u64_to_le_bytes(t.nonce) == bytes.subrange(8, 16));
    assert(ticket_bytes(t) =~= bytes);
}

impl SynapseTicket {
    /// The ticket as bytes for the wire.
    pub fn to_bytes(&self) -> (bytes: Vec<u8>)
        ensures
            bytes@ == ticket_bytes(*self),
            bytes@.len() == TICKET_BYTES,
    {
        let mut bytes = u64_to_le_bytes(self.serial);
        let mut tail = u64_to_le_bytes(self.nonce);
        bytes.append(&mut tail);
        bytes
    }

    /// The ticket that the bytes spell, if they are sixteen.
    pub fn from_bytes(bytes: &[u8]) -> (t: Option<SynapseTicket>)
        ensures
            t == parse_ticket(bytes@),
    {
        if bytes.len() != TICKET_BYTES {
            return None;
        }
        let serial = u64_from_le_bytes(slice_subrange(bytes, 0, 8));
        let nonce = u64_from_le_bytes(slice_subrange(bytes, 8, 16));
        Some(SynapseTicket { serial, nonce })
    }
}

impl TrackerView {
    /// Every pending serial number was handed out.
    pub open spec fn wf(self) -> bool {
        &&& self.ttl >= MIN_TICKET_TTL_SECS
        &&& forall|s: u64| #[trigger] self.pending.dom().contains(s) ==> s < self.issued
    }

    /// Whether `ticket` names a pending task that can still be taken at `now`.
    pub open spec fn redeemable(self, ticket: SynapseTicket, now: u64) -> bool {
        &&& self.pending.dom().contains(ticket.serial)
        &&& self.pending[ticket.serial].nonce == ticket.nonce
        &&& now <= self.pending[ticket.serial].deadline
    }

    /// Putting a task at `now`: the tracker afterwards and the ticket.
    pub open spec fn put(self, task: Task, nonce: u64, now: u64) -> (TrackerView, SynapseTicket) {
        let serial = self.issued as u64;
        (
            TrackerView {
                pending: self.pending.insert(
                    serial,
                    Pending { nonce, deadline: deadline_of(now, self.ttl), task },
                ),
                issued: self.issued + 1,
                ..self
            },
            SynapseTicket { serial, nonce },
        )
    }

    /// Taking a ticket at `now`: the tracker afterwards and the task, if
    /// the ticket named one. A ticket with the right serial number and
    /// nonce removes its entry, and hands the task out unless its time is
    /// over; any other ticket changes nothing.
    pub open spec fn take(self, ticket: SynapseTicket, now: u64) -> (TrackerView, Option<Task>) {
        if self.pending.dom().contains(ticket.serial) && self.pending[ticket.serial].nonce
            == ticket.nonce {
            (
                TrackerView { pending: self.pending.remove(ticket.serial), ..self },
                if now <= self.pending[ticket.serial].deadline {
                    Some(self.pending[ticket.serial].task)
                } else {
                    None
                },
            )
        } else {
            (self, None)
        }
    }

    /// Dropping the tickets whose time is over at `now`.
    pub open spec fn evict(self, now: u64) -> TrackerView {
        TrackerView {
            pending: Map::new(
                |s: u64| self.pending.dom().contains(s) && now <= self.pending[s].deadline,
                |s: u64| self.pending[s],
            ),
            ..self
        }
    }
}

closed spec fn entry_pairs(s: Seq<Entry>) -> Seq<(u64, Pending)> {
    Seq::new(
        s.len(),
        |i: int| (s[i].serial, Pending { nonce: s[i].nonce, deadline: s[i].deadline, task: s[i].task }),
    )
}

impl View for TicketTracker {
    type V = TrackerView;

    closed spec fn view(&self) -> TrackerView {
        TrackerView {
            pending: pairs_map(entry_pairs(self.entries@)),
            issued: self.issued as nat,
            ttl: self.ttl,
        }
    }
}

impl TicketTracker {
    /// The tracker's invariant: no serial number is pending twice, and its view is well formed.
    pub closed spec fn wf(&self) -> bool {
        &&& distinct_keys(entry_pairs(self.entries@))
        &&& self@.wf()
    }

    /// A well-formed tracker has a well-formed view.
    pub proof fn lemma_wf_view(&self)
        requires
            self.wf(),
        ensures
            self@.wf(),
    {
    }

    /// A tracker without pending tasks that keeps unused tickets for
    /// `ttl_secs` seconds, or for the minimum where that is less.
    pub fn new(ttl_secs: u64) -> (t: TicketTracker)
        ensures
            t.wf(),
            t@.pending == Map::<u64, Pending>::empty(),
            t@.issued == 0,
            t@.ttl == (if ttl_secs < MIN_TICKET_TTL_SECS {
                MIN_TICKET_TTL_SECS
            } else {
                ttl_secs
            }),
    {
        let ttl = if ttl_secs < MIN_TICKET_TTL_SECS {
            MIN_TICKET_TTL_SECS
        } else {
            ttl_secs
        };
        let t = TicketTracker { entries: Vec::new(), issued: 0, ttl };
        proof {
            lemma_pairs_empty(entry_pairs(t.entries@));
        }
        t
    }

    /// The number of pending tasks.
    pub fn len(&self) -> (n: usize)
        requires
            self.wf(),
        ensures
            n == self@.pending.dom().len(),
            self@.pending.dom().finite(),
    {
        proof {
            lemma_count(entry_pairs(self.entries@));
        }
        self.entries.len()
    }

    /// Whether another ticket can be handed out.
    pub fn has_room(&self) -> (b: bool)
        ensures
            b == (self@.issued < u64::MAX),
    {
        self.issued < u64::MAX
    }

    fn find(&self, serial: u64) -> (r: Option<usize>)
        requires
            self.wf(),
        ensures
            match r {
                Some(i) => {
                    &&& i < self.entries.len()
                    &&& self.entries[i as int].serial == serial
                    &&& self@.pending.dom().contains(serial)
                    &&& self@.pending[serial] == entry_pairs(self.entries@)[i as int].1
                },
                None => !self@.pending.dom().contains(serial),
            },
    {
        let mut i: usize = 0;
        while i < self.entries.len()
            invariant
                self.wf(),
                i <= self.entries.len(),
                forall|j: int| 0 <= j < i ==> self.entries[j].serial != serial,
            decreases self.entries.len() - i,
        {
            if self.entries[i].serial == serial {
                proof {
                    lemma_pair_at(entry_pairs(self.entries@), i as int);
                }
                return Some(i);
            }
            i = i + 1;
        }
        proof {
            lemma_absent(entry_pairs(self.entries@), serial);
        }
        None
    }

    /// Stores `task` and hands out the ticket for it. The ticket can be
    /// taken until the tracker's time to live has passed since `now`.
    pub fn put_plan(&mut self, task: Task, nonce: u64, now: u64) -> (ticket: SynapseTicket)
        requires
            old(self).wf(),
            old(self)@.issued < u64::MAX,
        ensures
            final(self).wf(),
            (final(self)@, ticket) == old(self)@.put(task, nonce, now),
    {
        let serial = self.issued;
        let deadline = if now > u64::MAX - self.ttl {
            u64::MAX
        } else {
            now + self.ttl
        };
        let entry = Entry { serial, nonce, deadline, task };
        proof {
            let value = Pending { nonce, deadline, task };
            assert(self@.pending.dom().contains(serial) ==> serial < self@.issued);
            lemma_pairs_push(entry_pairs(self.entries@), serial, value);
            assert(entry_pairs(self.entries@.push(entry)) =~= entry_pairs(self.entries@).push(
                (serial, value),
            ));
        }
        self.entries.push(entry);
        self.issued = serial + 1;
        SynapseTicket { serial, nonce }
    }

    /// Removes the entry that `ticket` names and hands out its task, if the
    /// ticket names one and its time is not over. Whatever is handed out is
    /// handed out once: the entry is gone afterwards.
    pub fn take(&mut self, ticket: &SynapseTicket, now: u64) -> (task: Option<Task>)
        requires
            old(self).wf(),
        ensures
            final(self).wf(),
            (final(self)@, task) == old(self)@.take(*ticket, now),
    {
        match self.find(ticket.serial) {
            Some(i) => {
                if self.entries[i].nonce != ticket.nonce {
                    return None;
                }
                proof {
                    lemma_pairs_remove(entry_pairs(self.entries@), i as int);
                    assert(entry_pairs(self.entries@.remove(i as int)) =~= entry_pairs(
                        self.entries@,
                    ).remove(i as int));
                }
                let entry = self.entries.remove(i);
                if now <= entry.deadline {
                    Some(entry.task)
                } else {
                    None
                }
            },
            None => None,
        }
    }

    /// Drops the tickets whose time is over at `now`, and says how many they were.
    pub fn evict(&mut self, now: u64) -> (dropped: usize)
        requires
            old(self).wf(),
        ensures
            final(self).wf(),
            final(self)@ == old(self)@.evict(now),
            old(self)@.pending.dom().finite(),
            final(self)@.pending.dom().finite(),
            dropped == old(self)@.pending.dom().len() - final(self)@.pending.dom().len(),
    {
        let ghost before = self@.pending;
        proof {
            lemma_count(entry_pairs(self.entries@));
        }
        let mut dropped: usize = 0;
        let mut i: usize = 0;
        while i < self.entries.len()
            invariant
                self.wf(),
                self@.issued == old(self)@.issued,
                self@.ttl == old(self)@.ttl,
                before == old(self)@.pending,
                i <= self.entries.len(),
                dropped == old(self).entries.len() - self.entries.len(),
                self.entries.len() <= old(self).entries.len(),
                forall|j: int| 0 <= j < i ==> now <= self.entries[j].deadline,
                forall|s: u64| #[trigger]
                    self@.pending.dom().contains(s) ==> before.dom().contains(s)
                        && self@.pending[s] == before[s],
                forall|s: u64|
                    before.dom().contains(s) && !(#[trigger] self@.pending.dom().contains(s))
                        ==> before[s].deadline < now,
            decreases self.entries.len() - i,
        {
            if self.entries[i].deadline < now {
                let ghost prev = self@.pending;
                let ghost key = self.entries[i as int].serial;
                proof {
                    lemma_pair_at(entry_pairs(self.entries@), i as int);
                    lemma_pairs_remove(entry_pairs(self.entries@), i as int);
                    assert(entry_pairs(self.entries@.remove(i as int)) =~= entry_pairs(
                        self.entries@,
                    ).remove(i as int));
                    assert(prev[key].deadline < now);
                }
                self.entries.remove(i);
                dropped = dropped + 1;
                proof {
                    assert(self@.pending == prev.remove(key));
                    assert forall|s: u64| #[trigger]
                        self@.pending.dom().contains(s) implies before.dom().contains(s)
                        && self@.pending[s] == before[s] by {
                        assert(prev.dom().contains(s));
                    }
                    assert forall|s: u64|
                        before.dom().contains(s) && !(#[trigger] self@.pending.dom().contains(
                            s,
                        )) implies before[s].deadline < now by {
                        if prev.dom().contains(s) {
                            assert(s == key);
                        }
                    }
                }
            } else {
                i = i + 1;
            }
        }
        proof {
            let pairs = entry_pairs(self.entries@);
            assert forall|s: u64| #[trigger] self@.pending.dom().contains(s) implies now
                <= before[s].deadline by {
                assert(has_key(pairs, s));
                let j = position_of(pairs, s);
                lemma_pair_at(pairs, j);
                assert(now <= self.entries[j].deadline);
            }
            assert(self@.pending =~= old(self)@.evict(now).pending);
            lemma_count(pairs);
        }
        dropped
    }
}

/// A list without repeated keys has as many pairs as its map has keys.
proof fn lemma_count<K, V>(s: Seq<(K, V)>)
    requires
        distinct_keys(s),
    ensures
        pairs_map(s).dom().finite(),
        pairs_map(s).dom().len() == s.len(),
    decreases s.len(),
{
    if s.len() == 0 {
        lemma_pairs_empty(s);
    } else {
        let last = s.len() - 1;
        let shorter = s.remove(last);
        lemma_pairs_remove(s, last);
        lemma_count(shorter);
        lemma_pair_at(s, last);
        assert(pairs_map(s).dom() =~= pairs_map(shorter).dom().insert(s[last].0));
    }
}


/// Of two takes of one ticket the second hands out nothing, whenever they
/// happen and whatever the first one found.
pub proof fn lemma_take_once(v: TrackerView, ticket: SynapseTicket, first: u64, second: u64)
    ensures
        v.take(ticket, first).0.take(ticket, second).1 is None,
{
}

/// A ticket that names no pending task stays that way: taking it hands out
/// nothing and changes nothing, and putting a task never brings it back.
pub proof fn lemma_gone_stays_gone(
    v: TrackerView,
    ticket: SynapseTicket,
    now: u64,
    task: Task,
    nonce: u64,
)
    requires
        v.wf(),
        v.issued < u64::MAX,
        ticket.serial < v.issued,
        !v.pending.dom().contains(ticket.serial),
    ensures
        v.take(ticket, now) == (v, None::<Task>),
        !v.put(task, nonce, now).0.pending.dom().contains(ticket.serial),
        v.put(task, nonce, now).0.wf(),
{
}

/// The ticket that `put` hands out is new, and the first take of it
/// within its time hands out the task that was put; the entry is gone
/// afterwards.
pub proof fn lemma_put_then_take(v: TrackerView, task: Task, nonce: u64, now: u64, later: u64)
    requires
        v.wf(),
        v.issued < u64::MAX,
        later <= deadline_of(now, v.ttl),
    ensures
        ({
            let (stored, ticket) = v.put(task, nonce, now);
            let (after, taken) = stored.take(ticket, later);
            &&& !v.pending.dom().contains(ticket.serial)
            &&& stored.wf()
            &&& taken == Some(task)
            &&& after.pending == v.pending
            &&& !after.pending.dom().contains(ticket.serial)
        }),
{
    let (stored, ticket) = v.put(task, nonce, now);
    assert(v.pending.dom().contains(ticket.serial) ==> ticket.serial < v.issued);
    assert(stored.pending.remove(ticket.serial) =~= v.pending);
}

/// A ticket is kept for at least the minimum time: a take no later than
/// that after the put is within the ticket's time.
pub proof fn lemma_minimum_lifetime(v: TrackerView, now: u64, later: u64)
    requires
        v.wf(),
        now <= later,
        later - now <= MIN_TICKET_TTL_SECS,
    ensures
        later <= deadline_of(now, v.ttl),
{
}

/// A step on the tracker, as one of its callers takes it.
pub enum TrackerStep {
    Put { task: Task, nonce: u64, now: u64 },
    Take { ticket: SynapseTicket, now: u64 },
    Evict { now: u64 },
}

/// The tracker after a step.
pub open spec fn step(v: TrackerView, s: TrackerStep) -> TrackerView {
    match s {
        TrackerStep::Put { task, nonce, now } => v.put(task, nonce, now).0,
        TrackerStep::Take { ticket, now } => v.take(ticket, now).0,
        TrackerStep::Evict { now } => v.evict(now),
    }
}

/// Whether a step is a take of `ticket` that hands out a task.
pub open spec fn redeems(v: TrackerView, s: TrackerStep, ticket: SynapseTicket) -> bool {
    s matches TrackerStep::Take { ticket: taken, now } && taken == ticket && v.take(
        ticket,
        now,
    ).1 is Some
}

/// The number of steps of a history, run from `v`, that are takes of
/// `ticket` which hand out a task.
pub open spec fn redemptions(v: TrackerView, history: Seq<TrackerStep>, ticket: SynapseTicket) -> nat
    decreases history.len(),
{
    if history.len() == 0 {
        0
    } else {
        let rest = redemptions(step(v, history[0]), history.skip(1), ticket);
        if redeems(v, history[0], ticket) {
            rest + 1
        } else {
            rest
        }
    }
}

/// Whatever the callers of a tracker do and in whichever order their steps
/// come, a ticket that was handed out is redeemed at most once; one that
/// names no pending task any more is never redeemed again.
pub proof fn lemma_redeemed_at_most_once(
    v: TrackerView,
    history: Seq<TrackerStep>,
    ticket: SynapseTicket,
)
    requires
        v.wf(),
        v.issued + history.len() <= u64::MAX,
        ticket.serial < v.issued,
    ensures
        redemptions(v, history, ticket) <= 1,
        !v.pending.dom().contains(ticket.serial) ==> redemptions(v, history, ticket) == 0,
    decreases history.len(),
{
    if history.len() > 0 {
        let first = history[0];
        let next = step(v, first);
        assert(next.wf() && next.issued <= v.issued + 1 && v.issued <= next.issued);
        assert(!v.pending.dom().contains(ticket.serial) ==> !next.pending.dom().contains(
            ticket.serial,
        ));
        lemma_redeemed_at_most_once(next, history.skip(1), ticket);
        if redeems(v, first, ticket) {
            assert(!next.pending.dom().contains(ticket.serial));
        }
    }
}

} // verus!
