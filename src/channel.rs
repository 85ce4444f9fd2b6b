//! The channel table: allocation of channel ids and the single transaction
//! that may be dispatched to the authenticator at a time.

use vstd::prelude::*;

verus! {

/// The broadcast channel, used only to ask for a channel.
pub const BROADCAST_CHANNEL: u32 = 0xFFFF_FFFF;

/// Longest LOCK a host may ask for, in seconds.
pub const MAX_LOCK_SECONDS: u8 = 10;
/// Scheduler ticks per second.
pub const TICKS_PER_SECOND: u32 = 10;

/// Exclusive access of one channel, for a number of scheduler ticks.
#[derive(Clone, Copy, Debug, PartialEq, Eq, Structural)]
pub struct Lock {
    pub channel: u32,
    pub ticks_left: u32,
}

/// Allocated channels are `1..next_id`; at most one of them is dispatching,
/// and at most one holds the lock.
#[derive(Clone, Copy, Debug, PartialEq, Eq, Structural)]
pub struct ChannelTable {
    pub next_id: u32,
    pub dispatching: Option<u32>,
    pub locked: Option<Lock>,
}

impl ChannelTable {
    pub open spec fn allocated(self, c: u32) -> bool {
        1 <= c < self.next_id
    }

    pub open spec fn wf(self) -> bool {
        &&& 1 <= self.next_id <= BROADCAST_CHANNEL
        &&& self.dispatching is Some ==> self.allocated(self.dispatching->0)
        &&& self.locked is Some ==> self.allocated(self.locked->0.channel) && self.locked->0.ticks_left
            > 0
    }

    /// The table after `c` asks for the lock for `seconds` (0 releases it).
    pub open spec fn lock_spec(self, c: u32, seconds: u8) -> ChannelTable {
        if seconds == 0 {
            ChannelTable { locked: None, ..self }
        } else {
            ChannelTable {
                locked: Some(Lock { channel: c, ticks_left: (seconds * TICKS_PER_SECOND) as u32 }),
                ..self
            }
        }
    }

    /// The table one scheduler tick later: the lock runs down.
    pub open spec fn tick_spec(self) -> ChannelTable {
        match self.locked {
            Some(l) => if l.ticks_left <= 1 {
                ChannelTable { locked: None, ..self }
            } else {
                ChannelTable { locked: Some(Lock { ticks_left: (l.ticks_left - 1) as u32, ..l }), ..self }
            },
            None => self,
        }
    }

    /// Whether a report on `c` is shut out by another channel's lock.
    pub open spec fn shut_out(self, c: u32) -> bool {
        self.locked is Some && self.locked->0.channel != c
    }

    /// The table after an attempt to start dispatching on `c`, and whether
    /// it succeeded: only an allocated channel, and only while no channel
    /// is dispatching.
    pub open spec fn begin_spec(self, c: u32) -> (ChannelTable, bool) {
        if self.dispatching is None && self.allocated(c) {
            (ChannelTable { dispatching: Some(c), ..self }, true)
        } else {
            (self, false)
        }
    }

    /// The table after the dispatch on `c` ends (completed or cancelled),
    /// and whether `c` was dispatching.
    pub open spec fn end_spec(self, c: u32) -> (ChannelTable, bool) {
        if self.dispatching == Some(c) {
            (ChannelTable { dispatching: None, ..self }, true)
        } else {
            (self, false)
        }
    }

    /// An empty table.
    pub fn new() -> (r: ChannelTable)
        ensures
            r.wf(),
            r.next_id == 1,
            r.dispatching is None,
            r.locked is None,
    {
        ChannelTable { next_id: 1, dispatching: None, locked: None }
    }

    /// Allocates a fresh channel id; `None` once every id has been handed out.
    pub fn allocate(&mut self) -> (r: Option<u32>)
        requires
            old(self).wf(),
        ensures
            final(self).wf(),
            final(self).dispatching == old(self).dispatching,
            final(self).locked == old(self).locked,
            old(self).next_id < BROADCAST_CHANNEL ==> r == Some(old(self).next_id)
                && final(self).next_id == old(self).next_id + 1,
            old(self).next_id == BROADCAST_CHANNEL ==> r is None && *final(self) == *old(self),
            r is Some ==> !old(self).allocated(r->0) && final(self).allocated(r->0) && r->0
                != BROADCAST_CHANNEL,
    {
        if self.next_id < BROADCAST_CHANNEL {
            let c = self.next_id;
            self.next_id = self.next_id + 1;
            Some(c)
        } else {
            None
        }
    }

    /// Whether `c` has been allocated.
    pub fn is_allocated(&self, c: u32) -> (r: bool)
        ensures
            r == self.allocated(c),
    {
        1 <= c && c < self.next_id
    }

    /// Whether `c` is the channel being dispatched.
    pub fn is_busy(&self, c: u32) -> (r: bool)
        ensures
            r == (self.dispatching == Some(c)),
    {
        match self.dispatching {
            Some(d) => d == c,
            None => false,
        }
    }

    /// Gives `c` the lock for `seconds` (at most `MAX_LOCK_SECONDS`), or
    /// releases it when `seconds` is 0.
    pub fn lock(&mut self, c: u32, seconds: u8)
        requires
            old(self).wf(),
            old(self).allocated(c),
            seconds <= MAX_LOCK_SECONDS,
        ensures
            final(self).wf(),
            *final(self) == old(self).lock_spec(c, seconds),
    {
        if seconds == 0 {
            self.locked = None;
        } else {
            self.locked = Some(Lock { channel: c, ticks_left: (seconds as u32) * TICKS_PER_SECOND });
        }
    }

    /// Runs the lock down by one scheduler tick.
    pub fn tick(&mut self)
        requires
            old(self).wf(),
        ensures
            final(self).wf(),
            *final(self) == old(self).tick_spec(),
    {
        match self.locked {
            Some(l) => {
                if l.ticks_left <= 1 {
                    self.locked = None;
                } else {
                    self.locked = Some(Lock { channel: l.channel, ticks_left: l.ticks_left - 1 });
                }
            },
            None => {},
        }
    }

    /// Whether a report on `c` is shut out by another channel's lock.
    pub fn is_shut_out(&self, c: u32) -> (r: bool)
        ensures
            r == self.shut_out(c),
    {
        match self.locked {
            Some(l) => l.channel != c,
            None => false,
        }
    }

    /// Starts dispatching on `c`, if the table allows it.
    pub fn begin_dispatch(&mut self, c: u32) -> (r: bool)
        requires
            old(self).wf(),
        ensures
            final(self).wf(),
            (*final(self), r) == old(self).begin_spec(c),
    {
        if self.dispatching.is_none() && 1 <= c && c < self.next_id {
            self.dispatching = Some(c);
            true
        } else {
            false
        }
    }

    /// Ends (or cancels) the dispatch on `c`, if `c` is dispatching.
    pub fn end_dispatch(&mut self, c: u32) -> (r: bool)
        requires
            old(self).wf(),
        ensures
            final(self).wf(),
            (*final(self), r) == old(self).end_spec(c),
    {
        if self.is_busy(c) {
            self.dispatching = None;
            true
        } else {
            false
        }
    }
}

/// While one channel is dispatching, no channel (itself included) can
/// start dispatching, and the table is left as it was.
pub proof fn lemma_single_dispatch(t: ChannelTable, b: u32)
    requires
        t.wf(),
        t.dispatching is Some,
    ensures
        t.begin_spec(b) == (t, false),
{
}

} // verus!
