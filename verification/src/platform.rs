//! What the driver asks of the machine it runs on, and the trace of what it asked.

use vstd::prelude::*;

verus! {

/// One step that the driver takes outside its own memory.
#[derive(Clone, Copy, Debug, PartialEq, Eq, Structural)]
pub enum Event {
    /// A word was loaded from the bus.
    Read { addr: u32, value: u32 },
    /// A word was stored to the bus.
    Write { addr: u32, value: u32 },
    /// A full compiler fence.
    Fence,
    /// A critical section began.
    EnterCritical,
    /// The critical section ended.
    LeaveCritical,
    /// The waker of the task that is polled now was stored in a slot of a PIO block.
    RegisterWaker { pio: u8, slot: usize },
    /// The task whose waker is in a slot of a PIO block was woken.
    Wake { pio: u8, slot: usize },
    /// Interrupt line 0 of a PIO block was masked at the interrupt controller.
    DisableInterrupt { pio: u8 },
    /// Interrupt line 0 of a PIO block was given a priority level; 0 is the most urgent.
    SetInterruptPriority { pio: u8, priority: u8 },
    /// Interrupt line 0 of a PIO block was unmasked at the interrupt controller.
    EnableInterrupt { pio: u8 },
}

/// The machine under the driver. Every method is one step, and the trace is the list of the steps
/// taken so far. What a load yields is up to the machine: nothing is promised of it.
pub trait Platform: Sized {
    /// The steps taken so far, oldest first. A machine need not say where it remembers them: what
    /// its trace is then stays open, but for what the steps below say of it.
    open spec fn trace(&self) -> Seq<Event> {
        vstd::pervasive::arbitrary::<spec_fn(Self) -> Seq<Event>>()(*self)
    }

    /// Loads the word at `addr`.
    fn read(&mut self, addr: u32) -> (value: u32)
        ensures
            final(self).trace() == old(self).trace().push(Event::Read { addr, value }),
    ;

    /// Stores `value` at `addr`.
    fn write(&mut self, addr: u32, value: u32)
        ensures
            final(self).trace() == old(self).trace().push(Event::Write { addr, value }),
    ;

    /// Keeps the compiler from moving memory accesses across this point.
    fn fence(&mut self)
        ensures
            final(self).trace() == old(self).trace().push(Event::Fence),
    ;

    /// Begins a critical section.
    fn enter_critical(&mut self)
        ensures
            final(self).trace() == old(self).trace().push(Event::EnterCritical),
    ;

    /// Ends the critical section.
    fn leave_critical(&mut self)
        ensures
            final(self).trace() == old(self).trace().push(Event::LeaveCritical),
    ;

    /// Stores the waker of the task that is polled now.
    fn register_waker(&mut self, pio: u8, slot: usize)
        ensures
            final(self).trace() == old(self).trace().push(Event::RegisterWaker { pio, slot }),
    ;

    /// Wakes the task whose waker is stored in the slot, if there is one.
    fn wake(&mut self, pio: u8, slot: usize)
        ensures
            final(self).trace() == old(self).trace().push(Event::Wake { pio, slot }),
    ;

    /// Masks interrupt line 0 of a PIO block.
    fn disable_interrupt(&mut self, pio: u8)
        ensures
            final(self).trace() == old(self).trace().push(Event::DisableInterrupt { pio }),
    ;

    /// Sets the priority level of interrupt line 0 of a PIO block.
    fn set_interrupt_priority(&mut self, pio: u8, priority: u8)
        ensures
            final(self).trace() == old(self).trace().push(
                Event::SetInterruptPriority { pio, priority },
            ),
    ;

    /// Unmasks interrupt line 0 of a PIO block.
    fn enable_interrupt(&mut self, pio: u8)
        ensures
            final(self).trace() == old(self).trace().push(Event::EnableInterrupt { pio }),
    ;
}

/// The value that the last step loaded.
pub open spec fn last_read(trace: Seq<Event>) -> u32 {
    trace.last()->Read_value
}

/// The value that step `i` loaded.
pub open spec fn nth_read(trace: Seq<Event>, i: int) -> u32 {
    trace[i]->Read_value
}

/// From `before` to `after`, one word was loaded, from `addr`.
pub open spec fn loaded(before: Seq<Event>, after: Seq<Event>, addr: u32) -> bool {
    after == before.push(Event::Read { addr, value: last_read(after) })
}

/// From `before` to `after`, one word was stored.
pub open spec fn stored(before: Seq<Event>, after: Seq<Event>, addr: u32, value: u32) -> bool {
    after == before.push(Event::Write { addr, value })
}

/// From `before` to `after`, the word at `addr` was loaded and its image under `f` was stored
/// back.
pub open spec fn modified(
    before: Seq<Event>,
    after: Seq<Event>,
    addr: u32,
    f: spec_fn(u32) -> u32,
) -> bool {
    let value = nth_read(after, before.len() as int);
    after == before.push(Event::Read { addr, value }).push(Event::Write { addr, value: f(value) })
}

} // verus!
