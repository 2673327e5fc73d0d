//! The reactive store: tagged signal cells, the coalesced re-render flag,
//! and the timer entries that are delivered back into the dispatch thread.

use vstd::prelude::*;

use slotmap::DefaultKey;

use crate::arena::TimerStore;
use crate::arena::timer_entries;
use crate::arena::timer_issued;
use crate::arena::timer_map_get;
use crate::arena::timer_map_insert;
use crate::arena::timer_map_new;
use crate::arena::timer_map_remove;

verus! {

/// A value a signal cell can hold. The variant fixes the cell's concrete
/// type for the cell's whole lifetime.
#[derive(Debug, Clone, PartialEq, Eq)]
pub enum SignalValue {
    Bool(bool),
    UInt(u64),
    Int(i64),
    Text(String),
}

/// The concrete type of a signal cell.
#[derive(Debug, Clone, Copy, PartialEq, Eq, Structural)]
pub enum SignalKind {
    Bool,
    UInt,
    Int,
    Text,
}

impl SignalValue {
    pub open spec fn spec_kind(self) -> SignalKind {
        match self {
            SignalValue::Bool(_) => SignalKind::Bool,
            SignalValue::UInt(_) => SignalKind::UInt,
            SignalValue::Int(_) => SignalKind::Int,
            SignalValue::Text(_) => SignalKind::Text,
        }
    }

    pub fn kind(&self) -> (k: SignalKind)
        ensures
            k == self.spec_kind(),
    {
        match self {
            SignalValue::Bool(_) => SignalKind::Bool,
            SignalValue::UInt(_) => SignalKind::UInt,
            SignalValue::Int(_) => SignalKind::Int,
            SignalValue::Text(_) => SignalKind::Text,
        }
    }

    /// A copy of the value, field for field.
    pub fn duplicate(&self) -> (r: SignalValue)
        ensures
            r == *self,
    {
        match self {
            SignalValue::Bool(b) => SignalValue::Bool(*b),
            SignalValue::UInt(u) => SignalValue::UInt(*u),
            SignalValue::Int(i) => SignalValue::Int(*i),
            SignalValue::Text(s) => SignalValue::Text(s.clone()),
        }
    }
}

/// The generational identifier of a signal cell.
#[derive(Debug, Clone, Copy, PartialEq, Eq, Structural)]
pub struct SignalId(pub usize);

/// A one-shot timer's identifier.
#[derive(Debug, Clone, Copy, PartialEq, Eq)]
pub struct TimeoutId(pub DefaultKey);

/// A repeating timer's identifier.
#[derive(Debug, Clone, Copy, PartialEq, Eq)]
pub struct IntervalId(pub DefaultKey);

/// A scheduled timer: the caller's callback token and the delay it asked
/// for, in milliseconds.
#[derive(Debug, Clone, Copy, PartialEq, Eq, Structural)]
pub struct TimerEntry {
    pub token: u64,
    pub delay_ms: i64,
}

/// A notification posted into the dispatch thread's queue.
#[derive(Debug, Clone, Copy, PartialEq, Eq)]
pub enum ProxyEvent {
    Timeout(TimeoutId),
    Interval(IntervalId),
    React,
}

/// The reactive store. Signal cells are indexed, never removed; timers live
/// in generational maps so a stale identifier can never reach a newer entry.
pub struct Context {
    signals: Vec<SignalValue>,
    timeouts: TimerStore,
    intervals: TimerStore,
    clean: bool,
    pending: Vec<ProxyEvent>,
    timeout_count: u64,
    interval_count: u64,
}

/// The coalescing state a writer sees: the clean flag and the queue of
/// notifications not yet handed to the platform.
pub struct FlagState {
    pub clean: bool,
    pub pending: Seq<ProxyEvent>,
}

/// One signal write: the first write of a batch queues a single re-render
/// notification and marks the store dirty; later writes change nothing else.
pub open spec fn spec_write_step(m: FlagState) -> FlagState {
    if m.clean {
        FlagState { clean: false, pending: m.pending.push(ProxyEvent::React) }
    } else {
        FlagState { clean: false, pending: m.pending }
    }
}

/// `k` consecutive signal writes with no re-render pass between them.
pub open spec fn spec_writes(m: FlagState, k: nat) -> FlagState
    decreases k,
{
    if k == 0 {
        m
    } else {
        spec_write_step(spec_writes(m, (k - 1) as nat))
    }
}

/// Coalescing: starting clean, any number of writes within one batch queues
/// exactly one re-render notification, however many writes there are.
pub proof fn lemma_write_coalescing(m: FlagState, k: nat)
    requires
        m.clean,
        k >= 1,
    ensures
        spec_writes(m, k).pending == m.pending.push(ProxyEvent::React),
        !spec_writes(m, k).clean,
    decreases k,
{
    if k == 1 {
        assert(spec_writes(m, 0nat) == m);
    } else {
        lemma_write_coalescing(m, (k - 1) as nat);
    }
}

impl Context {
    pub closed spec fn spec_signals(self) -> Seq<SignalValue> {
        self.signals@
    }

    pub closed spec fn spec_clean(self) -> bool {
        self.clean
    }

    pub closed spec fn spec_pending(self) -> Seq<ProxyEvent> {
        self.pending@
    }

    pub closed spec fn spec_timeouts(self) -> Map<DefaultKey, TimerEntry> {
        timer_entries(self.timeouts)
    }

    pub closed spec fn spec_timeouts_issued(self) -> Set<DefaultKey> {
        timer_issued(self.timeouts)
    }

    pub closed spec fn spec_intervals(self) -> Map<DefaultKey, TimerEntry> {
        timer_entries(self.intervals)
    }

    pub closed spec fn spec_intervals_issued(self) -> Set<DefaultKey> {
        timer_issued(self.intervals)
    }

    pub closed spec fn spec_timeout_count(self) -> u64 {
        self.timeout_count
    }

    pub closed spec fn spec_interval_count(self) -> u64 {
        self.interval_count
    }

    /// The coalescing state of this store.
    pub open spec fn spec_flag(self) -> FlagState {
        FlagState { clean: self.spec_clean(), pending: self.spec_pending() }
    }

    /// The counters bound how many keys the timer maps have issued, so a
    /// bounded counter keeps each map below its capacity.
    pub open spec fn well_formed(self) -> bool {
        &&& self.spec_timeouts_issued().finite()
        &&& self.spec_timeouts_issued().len() <= self.spec_timeout_count()
        &&& self.spec_intervals_issued().finite()
        &&& self.spec_intervals_issued().len() <= self.spec_interval_count()
    }

    /// Everything of the store but the signal cells and the coalescing
    /// state is the same.
    pub open spec fn timers_unchanged(pre: Context, post: Context) -> bool {
        &&& post.spec_timeouts() == pre.spec_timeouts()
        &&& post.spec_timeouts_issued() == pre.spec_timeouts_issued()
        &&& post.spec_intervals() == pre.spec_intervals()
        &&& post.spec_intervals_issued() == pre.spec_intervals_issued()
        &&& post.spec_timeout_count() == pre.spec_timeout_count()
        &&& post.spec_interval_count() == pre.spec_interval_count()
    }

    /// Everything of the store but the timers is the same.
    pub open spec fn signals_and_flag_unchanged(pre: Context, post: Context) -> bool {
        &&& post.spec_signals() == pre.spec_signals()
        &&& post.spec_clean() == pre.spec_clean()
        &&& post.spec_pending() == pre.spec_pending()
    }

    pub fn new() -> (c: Context)
        ensures
            c.spec_signals() == Seq::<SignalValue>::empty(),
            c.spec_clean(),
            c.spec_pending() == Seq::<ProxyEvent>::empty(),
            c.spec_timeouts() == (Map::<DefaultKey, TimerEntry>::empty()),
            c.spec_intervals() == (Map::<DefaultKey, TimerEntry>::empty()),
            c.spec_timeouts_issued() == (Set::<DefaultKey>::empty()),
            c.spec_intervals_issued() == (Set::<DefaultKey>::empty()),
            c.spec_timeout_count() == 0,
            c.spec_interval_count() == 0,
            c.well_formed(),
    {
        Context {
            signals: Vec::new(),
            timeouts: timer_map_new(),
            intervals: timer_map_new(),
            clean: true,
            pending: Vec::new(),
            timeout_count: 0,
            interval_count: 0,
        }
    }

    /// How many one-shot timers have ever been scheduled.
    pub fn timeout_count(&self) -> (r: u64)
        ensures
            r == self.spec_timeout_count(),
    {
        self.timeout_count
    }

    /// How many repeating timers have ever been scheduled.
    pub fn interval_count(&self) -> (r: u64)
        ensures
            r == self.spec_interval_count(),
    {
        self.interval_count
    }

    /// Marks the store clean again: the dispatch engine calls this at the
    /// start of a re-render pass, so the next write opens a new batch.
    pub fn clean(&mut self)
        ensures
            final(self).spec_clean(),
            final(self).spec_signals() == old(self).spec_signals(),
            final(self).spec_pending() == old(self).spec_pending(),
            Context::timers_unchanged(*old(self), *final(self)),
            old(self).well_formed() ==> final(self).well_formed(),
    {
        self.clean = true;
    }

    /// Allocates a new signal cell holding `init` and returns its two
    /// capability handles, both referring to that cell.
    pub fn create_signal(&mut self, init: SignalValue) -> (r: (ReadSignal, WriteSignal))
        ensures
            final(self).spec_signals() == old(self).spec_signals().push(init),
            r.0.spec_id().0 == old(self).spec_signals().len(),
            r.1.spec_id() == r.0.spec_id(),
            final(self).spec_clean() == old(self).spec_clean(),
            final(self).spec_pending() == old(self).spec_pending(),
            Context::timers_unchanged(*old(self), *final(self)),
            old(self).well_formed() ==> final(self).well_formed(),
    {
        let id = SignalId(self.signals.len());
        self.signals.push(init);
        (ReadSignal { id }, WriteSignal { id })
    }

    /// Overwrites a signal cell with a value of the same concrete type, and
    /// coalesces: the first write of a batch queues one re-render
    /// notification; writes after it queue none.
    pub fn update(&mut self, id: SignalId, value: SignalValue)
        requires
            id.0 < old(self).spec_signals().len(),
            value.spec_kind() == old(self).spec_signals()[id.0 as int].spec_kind(),
        ensures
            final(self).spec_signals() == old(self).spec_signals().update(id.0 as int, value),
            final(self).spec_flag() == spec_write_step(old(self).spec_flag()),
            Context::timers_unchanged(*old(self), *final(self)),
            old(self).well_formed() ==> final(self).well_formed(),
    {
        self.signals.set(id.0, value);
        if self.clean {
            self.clean = false;
            self.pending.push(ProxyEvent::React);
        }
    }

    /// The try variant of `update` for callers that cannot rule out a stale
    /// identifier or a type mismatch: such a write is refused.
    pub fn try_update(&mut self, id: SignalId, value: SignalValue) -> (r: Result<(), SignalError>)
        ensures
            match r {
                Ok(()) => id.0 < old(self).spec_signals().len() && value.spec_kind()
                    == old(self).spec_signals()[id.0 as int].spec_kind()
                    && final(self).spec_signals() == old(self).spec_signals().update(
                    id.0 as int,
                    value,
                ) && final(self).spec_flag() == spec_write_step(old(self).spec_flag()),
                Err(e) => *final(self) == *old(self) && ((e == SignalError::Missing && id.0
                    >= old(self).spec_signals().len()) || (e == SignalError::WrongType && id.0
                    < old(self).spec_signals().len() && value.spec_kind() != old(self).spec_signals()[id.0 as int].spec_kind())),
            },
            Context::timers_unchanged(*old(self), *final(self)),
            old(self).well_formed() ==> final(self).well_formed(),
    {
        if id.0 >= self.signals.len() {
            return Err(SignalError::Missing);
        }
        if self.signals[id.0].kind() != value.kind() {
            return Err(SignalError::WrongType);
        }
        self.update(id, value);
        Ok(())
    }

    /// Reads a signal cell.
    pub fn get(&self, id: SignalId) -> (r: SignalValue)
        requires
            id.0 < self.spec_signals().len(),
        ensures
            r == self.spec_signals()[id.0 as int],
    {
        self.signals[id.0].duplicate()
    }

    /// The try variant of `get`: a stale identifier reads nothing.
    pub fn try_get(&self, id: SignalId) -> (r: Option<SignalValue>)
        ensures
            match r {
                Some(v) => id.0 < self.spec_signals().len() && v == self.spec_signals()[
                    id.0 as int
                ],
                None => id.0 >= self.spec_signals().len(),
            },
    {
        if id.0 < self.signals.len() {
            Some(self.signals[id.0].duplicate())
        } else {
            None
        }
    }

    /// Schedules a one-shot timer under a key no timer of this store has
    /// ever had, so a stale identifier can never reach it.
    pub fn set_timeout(&mut self, delay_ms: i64, token: u64) -> (id: TimeoutId)
        requires
            old(self).well_formed(),
            old(self).spec_timeout_count() < 0x8000_0000,
        ensures
            !old(self).spec_timeouts_issued().contains(id.0),
            final(self).spec_timeouts() == old(self).spec_timeouts().insert(
                id.0,
                TimerEntry { token, delay_ms },
            ),
            final(self).spec_timeouts_issued() == old(self).spec_timeouts_issued().insert(id.0),
            final(self).spec_intervals() == old(self).spec_intervals(),
            final(self).spec_intervals_issued() == old(self).spec_intervals_issued(),
            Context::signals_and_flag_unchanged(*old(self), *final(self)),
            final(self).well_formed(),
    {
        let key = timer_map_insert(&mut self.timeouts, TimerEntry { token, delay_ms });
        self.timeout_count = self.timeout_count + 1;
        TimeoutId(key)
    }

    /// Cancels a one-shot timer: after this, its entry is gone and a
    /// delivery of its identifier finds nothing.
    pub fn clear_timeout(&mut self, id: TimeoutId)
        ensures
            final(self).spec_timeouts() == old(self).spec_timeouts().remove(id.0),
            final(self).spec_timeouts_issued() == old(self).spec_timeouts_issued(),
            final(self).spec_intervals() == old(self).spec_intervals(),
            final(self).spec_intervals_issued() == old(self).spec_intervals_issued(),
            final(self).spec_timeout_count() == old(self).spec_timeout_count(),
            final(self).spec_interval_count() == old(self).spec_interval_count(),
            Context::signals_and_flag_unchanged(*old(self), *final(self)),
            old(self).well_formed() ==> final(self).well_formed(),
    {
        let _ = timer_map_remove(&mut self.timeouts, id.0);
    }

    /// Consumes a fired one-shot timer: the token comes back at most once,
    /// and never after the timer was cancelled.
    pub fn take_timeout(&mut self, id: TimeoutId) -> (r: Option<u64>)
        ensures
            r == (if old(self).spec_timeouts().dom().contains(id.0) {
                Some(old(self).spec_timeouts()[id.0].token)
            } else {
                Option::<u64>::None
            }),
            final(self).spec_timeouts() == old(self).spec_timeouts().remove(id.0),
            final(self).spec_timeouts_issued() == old(self).spec_timeouts_issued(),
            final(self).spec_intervals() == old(self).spec_intervals(),
            final(self).spec_intervals_issued() == old(self).spec_intervals_issued(),
            final(self).spec_timeout_count() == old(self).spec_timeout_count(),
            final(self).spec_interval_count() == old(self).spec_interval_count(),
            Context::signals_and_flag_unchanged(*old(self), *final(self)),
            old(self).well_formed() ==> final(self).well_formed(),
    {
        match timer_map_remove(&mut self.timeouts, id.0) {
            Some(entry) => Some(entry.token),
            None => None,
        }
    }

    /// Schedules a repeating timer; analogous to `set_timeout`.
    pub fn set_interval(&mut self, delay_ms: i64, token: u64) -> (id: IntervalId)
        requires
            old(self).well_formed(),
            old(self).spec_interval_count() < 0x8000_0000,
        ensures
            !old(self).spec_intervals_issued().contains(id.0),
            final(self).spec_intervals() == old(self).spec_intervals().insert(
                id.0,
                TimerEntry { token, delay_ms },
            ),
            final(self).spec_intervals_issued() == old(self).spec_intervals_issued().insert(id.0),
            final(self).spec_timeouts() == old(self).spec_timeouts(),
            final(self).spec_timeouts_issued() == old(self).spec_timeouts_issued(),
            Context::signals_and_flag_unchanged(*old(self), *final(self)),
            final(self).well_formed(),
    {
        let key = timer_map_insert(&mut self.intervals, TimerEntry { token, delay_ms });
        self.interval_count = self.interval_count + 1;
        IntervalId(key)
    }

    /// Cancels a repeating timer; analogous to `clear_timeout`.
    pub fn clear_interval(&mut self, id: IntervalId)
        ensures
            final(self).spec_intervals() == old(self).spec_intervals().remove(id.0),
            final(self).spec_intervals_issued() == old(self).spec_intervals_issued(),
            final(self).spec_timeouts() == old(self).spec_timeouts(),
            final(self).spec_timeouts_issued() == old(self).spec_timeouts_issued(),
            final(self).spec_timeout_count() == old(self).spec_timeout_count(),
            final(self).spec_interval_count() == old(self).spec_interval_count(),
            Context::signals_and_flag_unchanged(*old(self), *final(self)),
            old(self).well_formed() ==> final(self).well_formed(),
    {
        let _ = timer_map_remove(&mut self.intervals, id.0);
    }

    /// Looks a fired repeating timer up without consuming it: a cancelled
    /// interval yields nothing.
    pub fn get_interval(&self, id: IntervalId) -> (r: Option<u64>)
        ensures
            r == (if self.spec_intervals().dom().contains(id.0) {
                Some(self.spec_intervals()[id.0].token)
            } else {
                Option::<u64>::None
            }),
    {
        match timer_map_get(&self.intervals, id.0) {
            Some(entry) => Some(entry.token),
            None => None,
        }
    }

    /// Hands the queued notifications out in order and empties the queue.
    pub fn drain_pending(&mut self) -> (r: Vec<ProxyEvent>)
        ensures
            r@ == old(self).spec_pending(),
            final(self).spec_pending() == Seq::<ProxyEvent>::empty(),
            final(self).spec_signals() == old(self).spec_signals(),
            final(self).spec_clean() == old(self).spec_clean(),
            Context::timers_unchanged(*old(self), *final(self)),
            old(self).well_formed() ==> final(self).well_formed(),
    {
        let mut r: Vec<ProxyEvent> = Vec::new();
        let mut i: usize = 0;
        while i < self.pending.len()
            invariant
                0 <= i <= self.spec_pending().len(),
                r@ == self.spec_pending().take(i as int),
            decreases self.spec_pending().len() - i,
        {
            r.push(self.pending[i]);
            proof {
                assert(r@ =~= self.spec_pending().take(i + 1));
            }
            i = i + 1;
        }
        proof {
            assert(self.spec_pending().take(self.spec_pending().len() as int)
                =~= self.spec_pending());
        }
        self.pending.clear();
        r
    }
}

/// Why a signal access was refused.
#[derive(Debug, Clone, Copy, PartialEq, Eq, Structural)]
pub enum SignalError {
    Missing,
    WrongType,
}

/// The read capability of a signal cell: clone-out access only.
#[derive(Debug, Clone, Copy, PartialEq, Eq, Structural)]
pub struct ReadSignal {
    id: SignalId,
}

impl ReadSignal {
    pub closed spec fn spec_id(self) -> SignalId {
        self.id
    }

    /// Reads the cell this handle was created for.
    pub fn get(&self, ctx: &Context) -> (r: SignalValue)
        requires
            self.spec_id().0 < ctx.spec_signals().len(),
        ensures
            r == ctx.spec_signals()[self.spec_id().0 as int],
    {
        ctx.get(self.id)
    }

    /// The try variant of `get`: a stale handle reads nothing.
    pub fn try_get(&self, ctx: &Context) -> (r: Option<SignalValue>)
        ensures
            match r {
                Some(v) => self.spec_id().0 < ctx.spec_signals().len() && v == ctx.spec_signals()[
                    self.spec_id().0 as int
                ],
                None => self.spec_id().0 >= ctx.spec_signals().len(),
            },
    {
        ctx.try_get(self.id)
    }
}

/// The write capability of a signal cell: replace the value, keeping the
/// cell's concrete type.
#[derive(Debug, Clone, Copy, PartialEq, Eq, Structural)]
pub struct WriteSignal {
    id: SignalId,
}

impl WriteSignal {
    pub closed spec fn spec_id(self) -> SignalId {
        self.id
    }

    /// Overwrites the cell this handle was created for, coalescing the
    /// re-render notification with any earlier write of the same batch.
    pub fn set(&self, ctx: &mut Context, data: SignalValue)
        requires
            self.spec_id().0 < old(ctx).spec_signals().len(),
            data.spec_kind() == old(ctx).spec_signals()[self.spec_id().0 as int].spec_kind(),
        ensures
            final(ctx).spec_signals() == old(ctx).spec_signals().update(
                self.spec_id().0 as int,
                data,
            ),
            final(ctx).spec_flag() == spec_write_step(old(ctx).spec_flag()),
            Context::timers_unchanged(*old(ctx), *final(ctx)),
            old(ctx).well_formed() ==> final(ctx).well_formed(),
    {
        ctx.update(self.id, data);
    }

    /// The try variant of `set`: a stale handle or a value of another type
    /// is refused.
    pub fn try_set(&self, ctx: &mut Context, data: SignalValue) -> (r: Result<(), SignalError>)
        ensures
            match r {
                Ok(()) => self.spec_id().0 < old(ctx).spec_signals().len() && data.spec_kind()
                    == old(ctx).spec_signals()[self.spec_id().0 as int].spec_kind()
                    && final(ctx).spec_signals() == old(ctx).spec_signals().update(
                    self.spec_id().0 as int,
                    data,
                ) && final(ctx).spec_flag() == spec_write_step(old(ctx).spec_flag()),
                Err(_) => *final(ctx) == *old(ctx),
            },
            Context::timers_unchanged(*old(ctx), *final(ctx)),
            old(ctx).well_formed() ==> final(ctx).well_formed(),
    {
        ctx.try_update(self.id, data)
    }
}

/// Scheduling after a cancellation: every key scheduled later is fresh, so
/// none of them can resurrect the cancelled identifier.
pub open spec fn spec_schedule_all(
    entries: Map<DefaultKey, TimerEntry>,
    adds: Seq<(DefaultKey, TimerEntry)>,
) -> Map<DefaultKey, TimerEntry>
    decreases adds.len(),
{
    if adds.len() == 0 {
        entries
    } else {
        spec_schedule_all(entries, adds.drop_last()).insert(adds.last().0, adds.last().1)
    }
}

/// Timer cancellation race-freedom: cancelling a timer before its
/// notification is processed guarantees that the delivery finds no entry,
/// even if any number of new timers were scheduled in between — their keys
/// are fresh, never the cancelled one.
pub proof fn lemma_timer_cancellation(
    entries: Map<DefaultKey, TimerEntry>,
    issued: Set<DefaultKey>,
    cancelled: DefaultKey,
    adds: Seq<(DefaultKey, TimerEntry)>,
)
    requires
        issued.contains(cancelled),
        forall|i: int| 0 <= i < adds.len() ==> !issued.contains(#[trigger] adds[i].0),
    ensures
        !spec_schedule_all(entries.remove(cancelled), adds).dom().contains(cancelled),
    decreases adds.len(),
{
    if adds.len() > 0 {
        lemma_timer_cancellation(entries, issued, cancelled, adds.drop_last());
        assert(adds[adds.len() - 1].0 != cancelled);
    }
}

} // verus!
