//! How much blocking work is admitted, queued and run at once.

use crate::error::Error;
use vstd::prelude::*;

verus! {

/// How much work runs at once by default.
pub const DEFAULT_BLOCKING_EXECUTION_CAPACITY: usize = 8;

/// How much work waits by default.
pub const DEFAULT_BLOCKING_QUEUE_CAPACITY: usize = 8;

/// How much work runs or waits by default.
pub const DEFAULT_BLOCKING_ACTIVE_CAPACITY: usize = 16;

/// How many milliseconds work waits at most by default.
pub const DEFAULT_BLOCKING_QUEUE_TIMEOUT_MILLISECONDS: u64 = 500;

/// How waiting for a place to run ended.
#[derive(Debug, Clone, Copy, PartialEq, Eq, Structural)]
pub enum WaitEnd {
    Cancelled,
    TimedOut,
    Acquired,
}

/// What happens to work.
#[derive(Debug, Clone, Copy, PartialEq, Eq, Structural)]
pub enum WorkEvent {
    /// Work is submitted, and may have been cancelled before.
    Submitted { cancelled: bool },
    /// Work that waited stops waiting.
    Waited { end: WaitEnd },
    /// Work that has a place to run starts, unless it was cancelled meanwhile.
    Started { cancelled: bool },
    /// Work that runs ends, whatever came of it.
    Finished,
}

/// Work that is admitted, that has a place to run, and that runs.
#[derive(Debug, Clone, Copy, PartialEq, Eq, Structural)]
pub struct BlockingExecutor {
    pub active_capacity: usize,
    pub execution_capacity: usize,
    pub queue_timeout_milliseconds: u64,
    pub active: usize,
    pub placed: usize,
    pub running: usize,
}

impl BlockingExecutor {
    /// No more runs than has a place, no more has a place than is admitted, and no
    /// more is admitted than may be.
    pub open spec fn valid(self) -> bool {
        &&& self.running <= self.placed <= self.active <= self.active_capacity
        &&& self.placed <= self.execution_capacity <= self.active_capacity
        &&& 0 < self.execution_capacity
    }

    /// How much more may be admitted.
    pub open spec fn room(self) -> int {
        self.active_capacity - self.active
    }

    /// Without work.
    pub open spec fn idle(self) -> bool {
        self.active == 0 && self.placed == 0 && self.running == 0
    }
}

/// Whether an event can happen.
pub open spec fn can_happen(state: BlockingExecutor, event: WorkEvent) -> bool {
    match event {
        WorkEvent::Submitted { .. } => true,
        WorkEvent::Waited { end } => state.placed < state.active && (end == WaitEnd::Acquired
            ==> state.placed < state.execution_capacity),
        WorkEvent::Started { .. } => state.running < state.placed,
        WorkEvent::Finished => state.running > 0,
    }
}

/// What holds after an event. Work that is refused, cancelled or timed out gives
/// back what it held.
pub open spec fn after_event(state: BlockingExecutor, event: WorkEvent) -> BlockingExecutor {
    match event {
        WorkEvent::Submitted { cancelled } => if cancelled || state.active
            >= state.active_capacity {
            state
        } else {
            BlockingExecutor { active: (state.active + 1) as usize, ..state }
        },
        WorkEvent::Waited { end } => if end == WaitEnd::Acquired {
            BlockingExecutor { placed: (state.placed + 1) as usize, ..state }
        } else {
            BlockingExecutor { active: (state.active - 1) as usize, ..state }
        },
        WorkEvent::Started { cancelled } => if cancelled {
            BlockingExecutor {
                active: (state.active - 1) as usize,
                placed: (state.placed - 1) as usize,
                ..state
            }
        } else {
            BlockingExecutor { running: (state.running + 1) as usize, ..state }
        },
        WorkEvent::Finished => BlockingExecutor {
            active: (state.active - 1) as usize,
            placed: (state.placed - 1) as usize,
            running: (state.running - 1) as usize,
            ..state
        },
    }
}

/// Whether events can happen one after another.
pub open spec fn can_follow(state: BlockingExecutor, events: Seq<WorkEvent>) -> bool
    decreases events.len(),
{
    if events.len() == 0 {
        true
    } else {
        can_follow(state, events.drop_last()) && can_happen(
            after_events(state, events.drop_last()),
            events.last(),
        )
    }
}

/// What holds after events.
pub open spec fn after_events(state: BlockingExecutor, events: Seq<WorkEvent>) -> BlockingExecutor
    decreases events.len(),
{
    if events.len() == 0 {
        state
    } else {
        after_event(after_events(state, events.drop_last()), events.last())
    }
}

impl Default for BlockingExecutor {
    /// The default limits, without work.
    fn default() -> (r: BlockingExecutor)
        ensures
            r.valid(),
            r.idle(),
            r.active_capacity == DEFAULT_BLOCKING_ACTIVE_CAPACITY,
            r.execution_capacity == DEFAULT_BLOCKING_EXECUTION_CAPACITY,
            r.queue_timeout_milliseconds == DEFAULT_BLOCKING_QUEUE_TIMEOUT_MILLISECONDS,
    {
        BlockingExecutor::new(
            DEFAULT_BLOCKING_ACTIVE_CAPACITY,
            DEFAULT_BLOCKING_EXECUTION_CAPACITY,
            DEFAULT_BLOCKING_QUEUE_TIMEOUT_MILLISECONDS,
        )
    }
}

impl BlockingExecutor {
    /// Limits, without work.
    pub fn new(
        active_capacity: usize,
        execution_capacity: usize,
        queue_timeout_milliseconds: u64,
    ) -> (r: BlockingExecutor)
        requires
            active_capacity >= execution_capacity,
            execution_capacity > 0,
        ensures
            r.valid(),
            r.idle(),
            r.active_capacity == active_capacity,
            r.execution_capacity == execution_capacity,
            r.queue_timeout_milliseconds == queue_timeout_milliseconds,
    {
        BlockingExecutor {
            active_capacity,
            execution_capacity,
            queue_timeout_milliseconds,
            active: 0,
            placed: 0,
            running: 0,
        }
    }

    /// Admits work, unless it was cancelled or as much is admitted as may be.
    pub fn submit(&mut self, cancelled: bool) -> (r: Result<(), Error>)
        requires
            old(self).valid(),
        ensures
            *final(self) == after_event(*old(self), WorkEvent::Submitted { cancelled }),
            final(self).valid(),
            match r {
                Ok(_) => !cancelled && old(self).room() > 0,
                Err(Error::Cancelled) => cancelled,
                Err(Error::RetrievalOverloaded) => !cancelled && old(self).room() == 0,
                Err(_) => false,
            },
    {
        if cancelled {
            return Err(Error::Cancelled);
        }
        if self.active >= self.active_capacity {
            return Err(Error::RetrievalOverloaded);
        }
        self.active = self.active + 1;
        Ok(())
    }

    /// Takes what came of waiting for a place to run.
    pub fn wait_for_execution(&mut self, end: WaitEnd) -> (r: Result<(), Error>)
        requires
            old(self).valid(),
            can_happen(*old(self), WorkEvent::Waited { end }),
        ensures
            *final(self) == after_event(*old(self), WorkEvent::Waited { end }),
            final(self).valid(),
            match r {
                Ok(_) => end == WaitEnd::Acquired,
                Err(Error::Cancelled) => end == WaitEnd::Cancelled,
                Err(Error::RetrievalQueueTimeout) => end == WaitEnd::TimedOut,
                Err(_) => false,
            },
    {
        match end {
            WaitEnd::Acquired => {
                self.placed = self.placed + 1;
                Ok(())
            },
            WaitEnd::Cancelled => {
                self.active = self.active - 1;
                Err(Error::Cancelled)
            },
            WaitEnd::TimedOut => {
                self.active = self.active - 1;
                Err(Error::RetrievalQueueTimeout)
            },
        }
    }

    /// Starts work that has a place to run, unless it was cancelled.
    pub fn start(&mut self, cancelled: bool) -> (r: Result<(), Error>)
        requires
            old(self).valid(),
            can_happen(*old(self), WorkEvent::Started { cancelled }),
        ensures
            *final(self) == after_event(*old(self), WorkEvent::Started { cancelled }),
            final(self).valid(),
            match r {
                Ok(_) => !cancelled,
                Err(Error::Cancelled) => cancelled,
                Err(_) => false,
            },
    {
        if cancelled {
            self.active = self.active - 1;
            self.placed = self.placed - 1;
            return Err(Error::Cancelled);
        }
        self.running = self.running + 1;
        Ok(())
    }

    /// Ends work that runs.
    pub fn finish(&mut self)
        requires
            old(self).valid(),
            can_happen(*old(self), WorkEvent::Finished),
        ensures
            *final(self) == after_event(*old(self), WorkEvent::Finished),
            final(self).valid(),
    {
        self.active = self.active - 1;
        self.placed = self.placed - 1;
        self.running = self.running - 1;
    }

    /// How much more may be admitted.
    pub fn active_available_permits(&self) -> (r: usize)
        requires
            self.valid(),
        ensures
            r == self.room(),
    {
        self.active_capacity - self.active
    }
}

/// Whatever happens, no more work runs or is admitted than may be, and the limits
/// stay what they are.
pub proof fn work_stays_within_its_limits(state: BlockingExecutor, events: Seq<WorkEvent>)
    requires
        state.valid(),
        can_follow(state, events),
    ensures
        after_events(state, events).valid(),
        after_events(state, events).running <= state.execution_capacity,
        after_events(state, events).active <= state.active_capacity,
        after_events(state, events).execution_capacity == state.execution_capacity,
        after_events(state, events).active_capacity == state.active_capacity,
    decreases events.len(),
{
    if events.len() > 0 {
        work_stays_within_its_limits(state, events.drop_last());
    }
}

/// How many events bring work in, where none was refused.
pub open spec fn admissions(state: BlockingExecutor, events: Seq<WorkEvent>) -> int
    decreases events.len(),
{
    if events.len() == 0 {
        0
    } else {
        let before = after_events(state, events.drop_last());
        admissions(state, events.drop_last()) + if events.last() == (WorkEvent::Submitted {
            cancelled: false,
        }) && before.active < before.active_capacity {
            1int
        } else {
            0
        }
    }
}

/// Whether an event is the last of some work.
pub open spec fn ends_work(event: WorkEvent) -> bool {
    match event {
        WorkEvent::Submitted { .. } => false,
        WorkEvent::Waited { end } => end != WaitEnd::Acquired,
        WorkEvent::Started { cancelled } => cancelled,
        WorkEvent::Finished => true,
    }
}

/// How many events are the last of some work.
pub open spec fn endings(events: Seq<WorkEvent>) -> int
    decreases events.len(),
{
    if events.len() == 0 {
        0
    } else {
        endings(events.drop_last()) + if ends_work(events.last()) {
            1int
        } else {
            0
        }
    }
}

/// What was admitted comes free again: whatever happens, as much is admitted more
/// than before as came in and did not end.
pub proof fn places_come_free_again(state: BlockingExecutor, events: Seq<WorkEvent>)
    requires
        state.valid(),
        can_follow(state, events),
    ensures
        after_events(state, events).active == state.active + admissions(state, events) - endings(
            events,
        ),
    decreases events.len(),
{
    if events.len() > 0 {
        places_come_free_again(state, events.drop_last());
        work_stays_within_its_limits(state, events.drop_last());
    }
}

/// Work that timed out or was cancelled before it started never runs, and leaves
/// what runs as it was.
pub proof fn work_that_ends_early_never_runs(state: BlockingExecutor, event: WorkEvent)
    requires
        state.valid(),
        can_happen(state, event),
        event == (WorkEvent::Submitted { cancelled: true }) || event == (WorkEvent::Waited {
            end: WaitEnd::TimedOut,
        }) || event == (WorkEvent::Waited { end: WaitEnd::Cancelled }) || event == (
        WorkEvent::Started { cancelled: true }),
    ensures
        after_event(state, event).running == state.running,
        after_event(state, event).room() >= state.room(),
{
}

} // verus!
