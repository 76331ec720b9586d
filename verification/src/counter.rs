//! The counter service: explicitly owned state, saturating arithmetic,
//! an owner-gated reset, and an event log.
//!
//! Every operation works on the state the service instance owns, and the
//! caller's identity is an explicit argument wherever it matters. Each
//! state change appends the corresponding notification to the service's
//! event log; the surrounding runtime drains the log and delivers the
//! notifications.

use vstd::prelude::*;

verus! {

/// The identity of an actor interacting with the program.
#[derive(Clone, Copy, Debug, PartialEq, Eq, Hash, Structural)]
pub struct ActorId {
    pub id: u64,
}

/// Events emitted by the counter service.
#[derive(Clone, Copy, Debug, PartialEq, Eq, Structural)]
pub enum CounterEvent {
    /// Emitted when the counter value changes.
    ValueChanged { old_value: i64, new_value: i64 },
    /// Emitted when the counter is reset.
    Reset { by: ActorId },
}

/// The counter's state: its value and the owner that initialized it.
#[derive(Clone, Copy, Debug, PartialEq, Eq, Structural)]
pub struct CounterState {
    pub value: i64,
    pub owner: ActorId,
}

/// What a counter service amounts to: its state and the notifications
/// it has logged, oldest first.
#[verifier::ext_equal]
pub ghost struct CounterModel {
    pub state: CounterState,
    pub events: Seq<CounterEvent>,
}

/// `a + b`, saturated to the range of `i64`.
pub open spec fn sat_add_i64(a: int, b: int) -> int {
    if a + b > i64::MAX {
        i64::MAX as int
    } else if a + b < i64::MIN {
        i64::MIN as int
    } else {
        a + b
    }
}

/// `a - b`, saturated to the range of `i64`.
pub open spec fn sat_sub_i64(a: int, b: int) -> int {
    sat_add_i64(a, -b)
}

/// Only the owner recorded in the state may reset the counter.
pub open spec fn may_reset(caller: ActorId, owner: ActorId) -> bool {
    caller == owner
}

/// Saturating addition on `i64` values.
fn saturating_add_i64(a: i64, b: i64) -> (r: i64)
    ensures
        r as int == sat_add_i64(a as int, b as int),
{
    if b >= 0 {
        if a > i64::MAX - b {
            i64::MAX
        } else {
            a + b
        }
    } else {
        if a < i64::MIN - b {
            i64::MIN
        } else {
            a + b
        }
    }
}

/// The counter service. It owns its state and appends every
/// notification it would emit to its event log.
#[derive(Debug)]
pub struct CounterService {
    state: CounterState,
    events: Vec<CounterEvent>,
}

impl View for CounterService {
    type V = CounterModel;

    closed spec fn view(&self) -> CounterModel {
        CounterModel { state: self.state, events: self.events@ }
    }
}

impl CounterService {
    /// A fresh service: value zero, owned by nobody in particular yet.
    pub fn new() -> (s: Self)
        ensures
            s@.state == (CounterState { value: 0i64, owner: ActorId { id: 0u64 } }),
            s@.events.len() == 0,
    {
        CounterService { state: CounterState { value: 0, owner: ActorId { id: 0 } }, events: Vec::new() }
    }

    /// Initialize the counter state, recording the initializing caller
    /// as the owner (done once, at program construction).
    pub fn init(&mut self, caller: ActorId)
        ensures
            final(self)@.state == (CounterState { value: 0i64, owner: caller }),
            final(self)@.events == old(self)@.events,
    {
        self.state = CounterState { value: 0, owner: caller };
    }

    /// Add an amount to the counter, saturating at the ends of the
    /// range, and log the change. Returns the new value.
    pub fn add(&mut self, amount: i64) -> (new_value: i64)
        ensures
            new_value == final(self)@.state.value,
            final(self)@.state.value as int == sat_add_i64(
                old(self)@.state.value as int,
                amount as int,
            ),
            final(self)@.state.owner == old(self)@.state.owner,
            final(self)@.events == old(self)@.events.push(
                CounterEvent::ValueChanged {
                    old_value: old(self)@.state.value,
                    new_value: final(self)@.state.value,
                },
            ),
    {
        let old_value = self.state.value;
        let new_value = saturating_add_i64(old_value, amount);
        self.state.value = new_value;
        self.events.push(CounterEvent::ValueChanged { old_value, new_value });
        new_value
    }

    /// Subtract an amount from the counter, saturating at the ends of
    /// the range, and log the change. Returns the new value.
    pub fn sub(&mut self, amount: i64) -> (new_value: i64)
        ensures
            new_value == final(self)@.state.value,
            final(self)@.state.value as int == sat_sub_i64(
                old(self)@.state.value as int,
                amount as int,
            ),
            final(self)@.state.owner == old(self)@.state.owner,
            final(self)@.events == old(self)@.events.push(
                CounterEvent::ValueChanged {
                    old_value: old(self)@.state.value,
                    new_value: final(self)@.state.value,
                },
            ),
    {
        let old_value = self.state.value;
        let new_value = if amount == i64::MIN {
            // -i64::MIN does not fit in an i64; subtracting it is adding
            // 2^63, which saturates unless the value is deeply negative
            saturating_add_i64(saturating_add_i64(old_value, i64::MAX), 1)
        } else {
            saturating_add_i64(old_value, -amount)
        };
        self.state.value = new_value;
        self.events.push(CounterEvent::ValueChanged { old_value, new_value });
        new_value
    }

    /// Increment the counter by one. Returns the new value.
    pub fn increment(&mut self) -> (new_value: i64)
        ensures
            new_value == final(self)@.state.value,
            final(self)@.state.value as int == sat_add_i64(old(self)@.state.value as int, 1),
            final(self)@.state.owner == old(self)@.state.owner,
            final(self)@.events == old(self)@.events.push(
                CounterEvent::ValueChanged {
                    old_value: old(self)@.state.value,
                    new_value: final(self)@.state.value,
                },
            ),
    {
        self.add(1)
    }

    /// Decrement the counter by one. Returns the new value.
    pub fn decrement(&mut self) -> (new_value: i64)
        ensures
            new_value == final(self)@.state.value,
            final(self)@.state.value as int == sat_sub_i64(old(self)@.state.value as int, 1),
            final(self)@.state.owner == old(self)@.state.owner,
            final(self)@.events == old(self)@.events.push(
                CounterEvent::ValueChanged {
                    old_value: old(self)@.state.value,
                    new_value: final(self)@.state.value,
                },
            ),
    {
        self.sub(1)
    }

    /// Reset the counter to zero. Only the owner may do this; anyone
    /// else gets an error and the state is left untouched.
    pub fn reset(&mut self, caller: ActorId) -> (r: Result<i64, &'static str>)
        ensures
            may_reset(caller, old(self)@.state.owner) ==> {
                &&& r == Ok::<i64, &'static str>(0i64)
                &&& final(self)@.state == (CounterState {
                    value: 0i64,
                    owner: old(self)@.state.owner,
                })
                &&& final(self)@.events == old(self)@.events.push(
                    CounterEvent::Reset { by: caller },
                ).push(
                    CounterEvent::ValueChanged {
                        old_value: old(self)@.state.value,
                        new_value: 0i64,
                    },
                )
            },
            !may_reset(caller, old(self)@.state.owner) ==> {
                &&& r is Err
                &&& final(self)@ == old(self)@
            },
    {
        if caller.id != self.state.owner.id {
            return Err("Only owner can reset the counter");
        }
        let old_value = self.state.value;
        self.state.value = 0;
        self.events.push(CounterEvent::Reset { by: caller });
        self.events.push(CounterEvent::ValueChanged { old_value, new_value: 0 });
        Ok(0)
    }

    /// The current counter value.
    pub fn value(&self) -> (r: i64)
        ensures
            r == self@.state.value,
    {
        self.state.value
    }

    /// The owner recorded at initialization.
    pub fn owner(&self) -> (r: ActorId)
        ensures
            r == self@.state.owner,
    {
        self.state.owner
    }

    /// The notifications logged so far, oldest first.
    pub fn events(&self) -> (evs: &Vec<CounterEvent>)
        ensures
            evs@ == self@.events,
    {
        &self.events
    }

    /// Hand out the logged notifications for delivery, leaving the log
    /// empty and the state untouched.
    pub fn take_events(&mut self) -> (evs: Vec<CounterEvent>)
        ensures
            evs@ == old(self)@.events,
            final(self)@.events.len() == 0,
            final(self)@.state == old(self)@.state,
    {
        let mut evs: Vec<CounterEvent> = Vec::new();
        core::mem::swap(&mut self.events, &mut evs);
        evs
    }
}

/// The main program: it owns the counter service.
#[derive(Debug)]
pub struct CounterProgram {
    service: CounterService,
}

impl View for CounterProgram {
    type V = CounterModel;

    closed spec fn view(&self) -> CounterModel {
        self.service@
    }
}

impl CounterProgram {
    /// Program constructor: initializes the counter, owned by its
    /// creator.
    pub fn new(creator: ActorId) -> (p: Self)
        ensures
            p@.state == (CounterState { value: 0i64, owner: creator }),
            p@.events.len() == 0,
    {
        let mut service = CounterService::new();
        service.init(creator);
        CounterProgram { service }
    }

    /// Expose the counter service.
    pub fn counter(&self) -> (s: &CounterService)
        ensures
            s@ == self@,
    {
        &self.service
    }

    /// Expose the counter service for operations that change it.
    pub fn counter_mut(&mut self) -> (s: &mut CounterService)
        ensures
            s@ == old(self)@,
            final(self)@ == final(s)@,
    {
        &mut self.service
    }
}

} // verus!
