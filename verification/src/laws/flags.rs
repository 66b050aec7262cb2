//! A flag that was cleared is down until it is raised again.

use crate::bits;
use crate::futures;
use crate::futures::Poll;
use crate::instance::PioInstance;
use crate::laws::apart;
use crate::laws::read_back;
use crate::memmap;
use crate::platform;
use crate::platform::Event;
use crate::sealed::{PioInstance as _, PioStateMachine as _};
use crate::simulated;
use crate::sm;
use crate::sm::PioStateMachine;
use vstd::prelude::*;

verus! {

/// The flags in the register at `addr` just before step `n` of a trace. The state machines raise
/// the flags in `raised(i)` at some time between steps `i - 1` and `i`, and the steps clear and
/// raise flags as their stores say.
pub open spec fn flags_at(
    trace: Seq<Event>,
    addr: u32,
    raised: spec_fn(int) -> u32,
    n: int,
) -> u32
    decreases n,
{
    if n <= 0 {
        raised(n)
    } else {
        simulated::after_event(
            trace[n - 1],
            addr,
            flags_at(trace, addr, raised, n - 1),
        ) | raised(n)
    }
}

/// Step `i` is a load from `addr` that shows flag `j` as it is.
pub open spec fn shows_flag(
    trace: Seq<Event>,
    addr: u32,
    raised: spec_fn(int) -> u32,
    i: int,
    j: u32,
) -> bool {
    &&& trace[i] is Read && trace[i]->Read_addr == addr
    &&& bits::bit(trace[i]->Read_value, j) == bits::bit(flags_at(trace, addr, raised, i), j)
}

/// Neither a state machine nor one of the steps from `first` on raised flag `j` of the register at
/// `addr` before step `last`.
pub open spec fn not_raised(
    trace: Seq<Event>,
    addr: u32,
    raised: spec_fn(int) -> u32,
    first: int,
    last: int,
    j: u32,
) -> bool {
    forall|i: int|
        first <= i < last ==> !bits::bit(simulated::after_event(#[trigger] trace[i], addr, 0), j)
            && !bits::bit(raised(i + 1), j)
}

/// A step that does not raise a flag leaves it down if it was down.
proof fn lemma_stays_down(event: Event, addr: u32, flags: u32, j: u32)
    requires
        j < 32,
        !bits::bit(flags, j),
        !bits::bit(simulated::after_event(event, addr, 0), j),
    ensures
        !bits::bit(simulated::after_event(event, addr, flags), j),
{
    if event is Write {
        let value = event->Write_value;
        assert(flags & (1u32 << j) == 0 ==> (flags & !value) & (1u32 << j) == 0 && (flags | value)
            & (1u32 << j) == (0 | value) & (1u32 << j) && (flags ^ value) & (1u32 << j) == (0
            ^ value) & (1u32 << j)) by (bit_vector);
    }
}

/// A flag that is down before step `first` is down before every later step, until it is raised.
pub proof fn law_flag_stays_down(
    trace: Seq<Event>,
    addr: u32,
    raised: spec_fn(int) -> u32,
    first: int,
    last: int,
    j: u32,
)
    requires
        0 <= first <= last,
        j < 32,
        !bits::bit(flags_at(trace, addr, raised, first), j),
        not_raised(trace, addr, raised, first, last, j),
    ensures
        !bits::bit(flags_at(trace, addr, raised, last), j),
    decreases last - first,
{
    if first < last {
        law_flag_stays_down(trace, addr, raised, first, last - 1, j);
        let before = flags_at(trace, addr, raised, last - 1);
        let step = trace[last - 1];
        lemma_stays_down(step, addr, before, j);
        let after = simulated::after_event(step, addr, before);
        let more = raised(last);
        assert(raised((last - 1) + 1) == more);
        assert(after & (1u32 << j) == 0 && more & (1u32 << j) == 0 ==> (after | more) & (1u32 << j)
            == 0) by (bit_vector);
    }
}

/// A plain store of a one to a flag clears it: it is down before every later step, until it is
/// raised again after the store.
pub proof fn law_cleared_flag_stays_down(
    trace: Seq<Event>,
    addr: u32,
    raised: spec_fn(int) -> u32,
    value: u32,
    i: int,
    last: int,
    j: u32,
)
    requires
        simulated::clears_on_one(addr),
        j < 32,
        0 <= i < last,
        trace[i] == (Event::Write { addr, value }),
        bits::bit(value, j),
        not_raised(trace, addr, raised, i, last, j),
    ensures
        !bits::bit(flags_at(trace, addr, raised, last), j),
{
    let before = flags_at(trace, addr, raised, i);
    let more = raised(i + 1);
    assert(value & (1u32 << j) != 0 && more & (1u32 << j) == 0 ==> ((before & !value) | more) & (
    1u32 << j) == 0) by (bit_vector)
        requires
            j < 32,
    ;
    law_flag_stays_down(trace, addr, raised, i + 1, last, j);
}

/// No step from `first` on cleared flag `j` of the register at `addr` before step `last`.
pub open spec fn not_cleared(trace: Seq<Event>, addr: u32, first: int, last: int, j: u32) -> bool {
    forall|i: int|
        first <= i < last ==> bits::bit(
            simulated::after_event(#[trigger] trace[i], addr, 0xffff_ffff),
            j,
        )
}

/// A step that does not clear a flag leaves it up if it was up.
proof fn lemma_stays_up(event: Event, addr: u32, flags: u32, j: u32)
    requires
        j < 32,
        bits::bit(flags, j),
        bits::bit(simulated::after_event(event, addr, 0xffff_ffff), j),
    ensures
        bits::bit(simulated::after_event(event, addr, flags), j),
{
    if event is Write {
        let value = event->Write_value;
        assert(flags & (1u32 << j) != 0 ==> (flags & !value) & (1u32 << j) == (0xffff_ffff & !value)
            & (1u32 << j) && (flags | value) & (1u32 << j) != 0 && (flags ^ value) & (1u32 << j)
            == (0xffff_ffff ^ value) & (1u32 << j)) by (bit_vector);
    }
}

/// A flag that is up before step `first` is up before every later step, until it is cleared.
pub proof fn law_flag_stays_up(
    trace: Seq<Event>,
    addr: u32,
    raised: spec_fn(int) -> u32,
    first: int,
    last: int,
    j: u32,
)
    requires
        0 <= first <= last,
        j < 32,
        bits::bit(flags_at(trace, addr, raised, first), j),
        not_cleared(trace, addr, first, last, j),
    ensures
        bits::bit(flags_at(trace, addr, raised, last), j),
    decreases last - first,
{
    if first < last {
        law_flag_stays_up(trace, addr, raised, first, last - 1, j);
        let before = flags_at(trace, addr, raised, last - 1);
        let step = trace[last - 1];
        lemma_stays_up(step, addr, before, j);
        let after = simulated::after_event(step, addr, before);
        let more = raised(last);
        assert(after & (1u32 << j) != 0 ==> (after | more) & (1u32 << j) != 0) by (bit_vector);
    }
}

proof fn lemma_own_bit_of_mask(j: u32)
    requires
        j < 32,
    ensures
        bits::bit(1u32 << j, j),
{
    assert((1u32 << j) & (1u32 << j) != 0) by (bit_vector)
        requires
            j < 32,
    ;
}

/// `t3` continues `t2`, which continues `t1`, so it begins with the steps of `t1`.
proof fn lemma_begins_with(t1: Seq<Event>, t2: Seq<Event>, t3: Seq<Event>)
    requires
        read_back::continues(t1, t2),
        t2.len() <= t3.len(),
        t3.take(t2.len() as int) =~= t2,
    ensures
        forall|i: int| 0 <= i < t1.len() ==> t3[i] == t1[i],
{
    assert forall|i: int| 0 <= i < t1.len() implies t3[i] == t1[i] by {
        assert(t2.take(t1.len() as int)[i] == t2[i]);
        assert(t3.take(t2.len() as int)[i] == t3[i]);
    }
}

/// The address of the IRQ flags of a block.
pub open spec fn irq_flags<PIO: PioInstance>() -> u32 {
    memmap::pio_reg(PIO::no(), memmap::IRQ)
}

/// From `t0` to `t1` the IRQ flags in `value` were cleared, and `t2` continues `t1`. Flag `irq_no`
/// was not raised from then on before step `n` of `t3`, which is a load that shows it.
pub open spec fn cleared_then_shown<PIO: PioInstance>(
    raised: spec_fn(int) -> u32,
    t0: Seq<Event>,
    t1: Seq<Event>,
    t2: Seq<Event>,
    t3: Seq<Event>,
    value: u32,
    irq_no: u8,
    n: int,
) -> bool {
    &&& platform::stored(t0, t1, irq_flags::<PIO>(), value)
    &&& read_back::continues(t1, t2)
    &&& not_raised(t3, irq_flags::<PIO>(), raised, t0.len() as int, n, irq_no as u32)
    &&& shows_flag(t3, irq_flags::<PIO>(), raised, n, irq_no as u32)
}

proof fn lemma_cleared_then_shown<PIO: PioInstance>(
    raised: spec_fn(int) -> u32,
    t0: Seq<Event>,
    t1: Seq<Event>,
    t2: Seq<Event>,
    t3: Seq<Event>,
    value: u32,
    irq_no: u8,
    n: int,
)
    requires
        irq_no < 32,
        bits::bit(value, irq_no as u32),
        cleared_then_shown::<PIO>(raised, t0, t1, t2, t3, value, irq_no, n),
        t2.len() <= n,
        t2.len() <= t3.len(),
        t3.take(t2.len() as int) =~= t2,
    ensures
        !bits::bit(platform::nth_read(t3, n), irq_no as u32),
{
    PIO::lemma_block();
    lemma_begins_with(t1, t2, t3);
    assert(t3[t0.len() as int] == t1[t0.len() as int]);
    law_cleared_flag_stays_down(
        t3,
        irq_flags::<PIO>(),
        raised,
        value,
        t0.len() as int,
        n,
        irq_no as u32,
    );
}

/// `is_irq_set` returns false of a flag that `clear_irq` cleared, until it is raised again.
pub proof fn law_cleared_irq_is_not_set<PIO: PioInstance>(
    raised: spec_fn(int) -> u32,
    t0: Seq<Event>,
    t1: Seq<Event>,
    t2: Seq<Event>,
    t3: Seq<Event>,
    irq_no: u8,
)
    requires
        irq_no < 8,
        platform::loaded(t2, t3, irq_flags::<PIO>()),
        cleared_then_shown::<PIO>(
            raised,
            t0,
            t1,
            t2,
            t3,
            1u32 << irq_no,
            irq_no,
            t2.len() as int,
        ),
    ensures
        !bits::bit(platform::last_read(t3), irq_no as u32),
{
    lemma_own_bit_of_mask(irq_no as u32);
    lemma_cleared_then_shown::<PIO>(
        raised,
        t0,
        t1,
        t2,
        t3,
        1u32 << irq_no,
        irq_no,
        t2.len() as int,
    );
}

/// `is_irq_set` returns false of every flag that `clear_irqs` cleared, until it is raised again.
pub proof fn law_cleared_irqs_are_not_set<PIO: PioInstance>(
    raised: spec_fn(int) -> u32,
    t0: Seq<Event>,
    t1: Seq<Event>,
    t2: Seq<Event>,
    t3: Seq<Event>,
    mask: u8,
    irq_no: u8,
)
    requires
        irq_no < 8,
        bits::bit(mask as u32, irq_no as u32),
        platform::loaded(t2, t3, irq_flags::<PIO>()),
        cleared_then_shown::<PIO>(
            raised,
            t0,
            t1,
            t2,
            t3,
            mask as u32,
            irq_no,
            t2.len() as int,
        ),
    ensures
        !bits::bit(platform::last_read(t3), irq_no as u32),
{
    lemma_cleared_then_shown::<PIO>(
        raised,
        t0,
        t1,
        t2,
        t3,
        mask as u32,
        irq_no,
        t2.len() as int,
    );
}

/// The outcome of polling a wait for a flag that is not raised.
pub open spec fn still_waiting(irq_no: u8) -> Option<Poll<()>> {
    if irq_no < 4 {
        Some(Poll::Pending)
    } else {
        None
    }
}

/// A wait for a flag that was cleared, by `clear_irq` or `clear_irqs`, does not end until the flag
/// is raised again.
pub proof fn law_cleared_flag_ends_no_wait<PIO: PioInstance>(
    raised: spec_fn(int) -> u32,
    t0: Seq<Event>,
    t1: Seq<Event>,
    t2: Seq<Event>,
    t3: Seq<Event>,
    value: u32,
    irq_no: u8,
    r: Option<Poll<()>>,
)
    requires
        irq_no < 32,
        bits::bit(value, irq_no as u32),
        futures::irq_polled::<PIO>(t2, t3, irq_no, r),
        cleared_then_shown::<PIO>(raised, t0, t1, t2, t3, value, irq_no, t2.len() as int + 1),
    ensures
        r == still_waiting(irq_no),
{
    assert(t3.take(t2.len() as int) =~= t2);
    lemma_cleared_then_shown::<PIO>(
        raised,
        t0,
        t1,
        t2,
        t3,
        value,
        irq_no,
        t2.len() as int + 1,
    );
}

/// A raised flag ends one wait only: after a poll that found it, the next poll of the same flag
/// finds it down, until it is raised again.
pub proof fn law_raised_flag_ends_one_wait<PIO: PioInstance>(
    raised: spec_fn(int) -> u32,
    t0: Seq<Event>,
    t1: Seq<Event>,
    t2: Seq<Event>,
    t3: Seq<Event>,
    irq_no: u8,
    r: Option<Poll<()>>,
)
    requires
        irq_no < 32,
        futures::irq_polled::<PIO>(t0, t1, irq_no, Some(Poll::Ready(()))),
        read_back::continues(t1, t2),
        futures::irq_polled::<PIO>(t2, t3, irq_no, r),
        not_raised(
            t3,
            irq_flags::<PIO>(),
            raised,
            t0.len() as int + 2,
            t2.len() as int + 1,
            irq_no as u32,
        ),
        shows_flag(t3, irq_flags::<PIO>(), raised, t2.len() as int + 1, irq_no as u32),
    ensures
        r == still_waiting(irq_no),
{
    PIO::lemma_block();
    assert(t3.take(t2.len() as int) =~= t2);
    lemma_begins_with(t1, t2, t3);
    lemma_own_bit_of_mask(irq_no as u32);
    let i = t0.len() as int + 2;
    assert(t3[i] == t1[i]);
    assert(t1[i] == Event::Write { addr: irq_flags::<PIO>(), value: 1u32 << irq_no });
    law_cleared_flag_stays_down(
        t3,
        irq_flags::<PIO>(),
        raised,
        1u32 << irq_no,
        i,
        t2.len() as int + 1,
        irq_no as u32,
    );
}

/// From `t0` to `t1` IRQ flag `irq_no` was forced, and `t2` continues `t1`. From then on the flag
/// was not cleared before step `n` of `t3`, which is a load that shows it.
pub open spec fn forced_then_shown<PIO: PioInstance>(
    raised: spec_fn(int) -> u32,
    t0: Seq<Event>,
    t1: Seq<Event>,
    t2: Seq<Event>,
    t3: Seq<Event>,
    irq_no: u8,
    n: int,
) -> bool {
    &&& platform::stored(
        t0,
        t1,
        memmap::pio_reg(PIO::no(), memmap::IRQ_FORCE),
        1u32 << irq_no,
    )
    &&& read_back::continues(t1, t2)
    &&& not_cleared(t3, irq_flags::<PIO>(), t1.len() as int, n, irq_no as u32)
    &&& shows_flag(t3, irq_flags::<PIO>(), raised, n, irq_no as u32)
}

proof fn lemma_forced_then_shown<PIO: PioInstance>(
    raised: spec_fn(int) -> u32,
    t0: Seq<Event>,
    t1: Seq<Event>,
    t2: Seq<Event>,
    t3: Seq<Event>,
    irq_no: u8,
    n: int,
)
    requires
        irq_no < 32,
        forced_then_shown::<PIO>(raised, t0, t1, t2, t3, irq_no, n),
        t2.len() <= n,
        t2.len() <= t3.len(),
        t3.take(t2.len() as int) =~= t2,
    ensures
        bits::bit(platform::nth_read(t3, n), irq_no as u32),
{
    PIO::lemma_block();
    lemma_begins_with(t1, t2, t3);
    let i = t0.len() as int;
    let j = irq_no as u32;
    assert(t3[i] == t1[i]);
    let before = flags_at(t3, irq_flags::<PIO>(), raised, i);
    let more = raised(i + 1);
    assert(((before | (1u32 << j)) | more) & (1u32 << j) != 0) by (bit_vector)
        requires
            j < 32,
    ;
    law_flag_stays_up(t3, irq_flags::<PIO>(), raised, i + 1, n, j);
}

/// `is_irq_set` returns true of a flag that `force_irq` raised, until it is cleared.
pub proof fn law_forced_irq_is_set<PIO: PioInstance>(
    raised: spec_fn(int) -> u32,
    t0: Seq<Event>,
    t1: Seq<Event>,
    t2: Seq<Event>,
    t3: Seq<Event>,
    irq_no: u8,
)
    requires
        irq_no < 8,
        platform::loaded(t2, t3, irq_flags::<PIO>()),
        forced_then_shown::<PIO>(raised, t0, t1, t2, t3, irq_no, t2.len() as int),
    ensures
        bits::bit(platform::last_read(t3), irq_no as u32),
{
    lemma_forced_then_shown::<PIO>(raised, t0, t1, t2, t3, irq_no, t2.len() as int);
}

/// A flag that `force_irq` raised ends the next wait for it, if it is not cleared before.
pub proof fn law_forced_irq_ends_a_wait<PIO: PioInstance>(
    raised: spec_fn(int) -> u32,
    t0: Seq<Event>,
    t1: Seq<Event>,
    t2: Seq<Event>,
    t3: Seq<Event>,
    irq_no: u8,
    r: Option<Poll<()>>,
)
    requires
        irq_no < 8,
        futures::irq_polled::<PIO>(t2, t3, irq_no, r),
        forced_then_shown::<PIO>(raised, t0, t1, t2, t3, irq_no, t2.len() as int + 1),
    ensures
        r == Some(Poll::Ready(())),
{
    assert(t3.take(t2.len() as int) =~= t2);
    lemma_forced_then_shown::<PIO>(raised, t0, t1, t2, t3, irq_no, t2.len() as int + 1);
}

/// A sticky FIFO flag is reported once: after one call of `has_tx_stalled`, `has_tx_overflowed`,
/// `has_rx_stalled` or `has_rx_underflowed`, the next call of the same returns false, until the
/// flag is raised again.
pub proof fn law_sticky_flag_is_reported_once<S: PioStateMachine>(
    raised: spec_fn(int) -> u32,
    t0: Seq<Event>,
    t1: Seq<Event>,
    t2: Seq<Event>,
    t3: Seq<Event>,
    first: u32,
    earlier: bool,
    r: bool,
)
    requires
        apart::sticky_group(first),
        sm::flag_taken::<S>(t0, t1, first, earlier),
        read_back::continues(t1, t2),
        sm::flag_taken::<S>(t2, t3, first, r),
        not_raised(
            t3,
            sm::block_reg::<S>(memmap::FDEBUG),
            raised,
            t0.len() as int + 1,
            t2.len() as int,
            sm::own_bit::<S>(first),
        ),
        shows_flag(
            t3,
            sm::block_reg::<S>(memmap::FDEBUG),
            raised,
            t2.len() as int,
            sm::own_bit::<S>(first),
        ),
    ensures
        !r,
{
    S::lemma_sm();
    S::Pio::lemma_block();
    let j = sm::own_bit::<S>(first);
    let addr = sm::block_reg::<S>(memmap::FDEBUG);
    assert(t3.take(t2.len() as int) =~= t2);
    lemma_begins_with(t1, t2, t3);
    lemma_own_bit_of_mask(j);
    let i = t0.len() as int + 1;
    assert(t3[i] == t1[i]);
    assert(t1[i] == Event::Write { addr, value: 1u32 << j });
    law_cleared_flag_stays_down(t3, addr, raised, 1u32 << j, i, t2.len() as int, j);
}

/// A store that clears some flags leaves the others as they are: `clear_irq` and `clear_irqs`, the
/// poll of a wait, and the calls that take a sticky flag touch no flag but their own.
pub proof fn law_clearing_leaves_other_flags(
    t0: Seq<Event>,
    t1: Seq<Event>,
    addr: u32,
    value: u32,
    j: u32,
)
    requires
        simulated::clears_on_one(addr),
        j < 32,
        platform::stored(t0, t1, addr, value),
        !bits::bit(value, j),
    ensures
        read_back::bit_kept(t0, t1, addr, j),
{
    assert(t1.take(t0.len() as int) =~= t0);
    let last = t1[t0.len() as int];
    assert forall|word: u32|
        bits::bit(#[trigger] simulated::after_event(last, addr, word), j) == bits::bit(
            word,
            j,
        ) by {
        assert(value & (1u32 << j) == 0 ==> (word & !value) & (1u32 << j) == word & (1u32 << j))
            by (bit_vector);
    }
}

/// A machine whose registers change by stores alone shows every flag as it is, and raises none of
/// its own accord.
pub proof fn law_simulated_machine_shows_flags(trace: Seq<Event>, addr: u32, i: int, j: u32)
    requires
        simulated::keeps(trace, addr),
        0 <= i < trace.len(),
        trace[i] is Read,
        trace[i]->Read_addr == addr,
    ensures
        shows_flag(trace, addr, |n: int| 0, i, j),
{
    lemma_none_raised(trace, addr, i);
}

proof fn lemma_none_raised(trace: Seq<Event>, addr: u32, n: int)
    requires
        0 <= n <= trace.len(),
    ensures
        flags_at(trace, addr, |n: int| 0, n) == simulated::word_after(0, trace.take(n), addr),
    decreases n,
{
    if n > 0 {
        lemma_none_raised(trace, addr, n - 1);
        assert(trace.take(n).drop_last() =~= trace.take(n - 1));
        let kept = simulated::word_after(0, trace.take(n), addr);
        assert(kept | 0 == kept) by (bit_vector);
    }
}

} // verus!
