//! A getter returns what the setter before it set.

use crate::bits;
use crate::instance::PioInstance;
use crate::memmap;
use crate::pin;
use crate::pin::PioPin;
use crate::platform;
use crate::platform::Event;
use crate::regs::{Execctrl, Pinctrl, Shiftctrl};
use crate::sealed::{PioInstance as _, PioStateMachine as _};
use crate::simulated;
use crate::sm;
use crate::sm::{FifoJoin, PioStateMachine, ShiftDirection};
use vstd::prelude::*;

verus! {

/// `after` continues `before`.
pub open spec fn continues(before: Seq<Event>, after: Seq<Event>) -> bool {
    before.len() <= after.len() && after.take(before.len() as int) == before
}

/// From `before` to `after`, no step could change the register at `addr`.
pub open spec fn untouched(before: Seq<Event>, after: Seq<Event>, addr: u32) -> bool {
    &&& continues(before, after)
    &&& forall|i: int|
        before.len() <= i < after.len() ==> !simulated::reaches(#[trigger] after[i], addr)
}

/// A register keeps its word while nothing is stored to it.
pub proof fn law_untouched_register_keeps_its_word(
    start: u32,
    before: Seq<Event>,
    after: Seq<Event>,
    addr: u32,
)
    requires
        untouched(before, after, addr),
    ensures
        simulated::word_after(start, after, addr) == simulated::word_after(start, before, addr),
    decreases after.len(),
{
    if before.len() == after.len() {
        assert(after.take(before.len() as int) =~= after);
    } else {
        let shorter = after.drop_last();
        assert(shorter.take(before.len() as int) =~= after.take(before.len() as int));
        assert forall|i: int| before.len() <= i < shorter.len() implies !simulated::reaches(
            #[trigger] shorter[i],
            addr,
        ) by {
            assert(shorter[i] == after[i]);
        }
        law_untouched_register_keeps_its_word(start, before, shorter, addr);
        assert(after.last() == after[after.len() - 1]);
    }
}

/// The word that was last stored at `addr`, if one was.
pub open spec fn last_stored(trace: Seq<Event>, addr: u32) -> Option<u32>
    decreases trace.len(),
{
    if trace.len() == 0 {
        None
    } else if trace.last() is Write && trace.last()->Write_addr == addr {
        Some(trace.last()->Write_value)
    } else {
        last_stored(trace.drop_last(), addr)
    }
}

/// Step `i` is a load that shows, in the setting that `view` reads of a word, the word that was
/// last stored at the same address. What the load shows beside this setting is left open.
pub open spec fn agrees<T>(trace: Seq<Event>, i: int, view: spec_fn(u32) -> T) -> bool {
    trace[i] is Read && (last_stored(trace.take(i), trace[i]->Read_addr) matches Some(word)
        ==> view(trace[i]->Read_value) == view(word))
}

/// From `before` to `after`, the setting that `view` reads of the register at `addr` was kept:
/// every store that reached the register gave it the setting that it had from the store before.
pub open spec fn kept<T>(
    before: Seq<Event>,
    after: Seq<Event>,
    addr: u32,
    view: spec_fn(u32) -> T,
) -> bool {
    &&& continues(before, after)
    &&& forall|i: int|
        before.len() <= i < after.len() && simulated::reaches(#[trigger] after[i], addr)
            ==> after[i]->Write_addr == addr && (last_stored(after.take(i), addr) matches Some(word)
            ==> view(after[i]->Write_value) == view(word))
}

/// A setting that is kept is the one stored last.
proof fn lemma_kept<T>(
    before: Seq<Event>,
    after: Seq<Event>,
    addr: u32,
    view: spec_fn(u32) -> T,
    word: u32,
)
    requires
        simulated::alias_of(addr) == 0,
        last_stored(before, addr) == Some(word),
        kept(before, after, addr, view),
    ensures
        last_stored(after, addr) matches Some(w) && view(w) == view(word),
    decreases after.len(),
{
    if before.len() == after.len() {
        assert(after.take(before.len() as int) =~= after);
    } else {
        let shorter = after.drop_last();
        let last = after.len() - 1;
        assert(shorter.take(before.len() as int) =~= after.take(before.len() as int));
        assert forall|i: int|
            before.len() <= i < shorter.len() && simulated::reaches(
                #[trigger] shorter[i],
                addr,
            ) implies shorter[i]->Write_addr == addr && (last_stored(
            shorter.take(i),
            addr,
        ) matches Some(w) ==> view(shorter[i]->Write_value) == view(w)) by {
            assert(shorter[i] == after[i]);
            assert(shorter.take(i) =~= after.take(i));
        }
        lemma_kept(before, shorter, addr, view, word);
        assert(after.last() == after[last]);
        assert(after.take(last) =~= shorter);
    }
}

/// A register that no step could change keeps every setting.
pub proof fn law_untouched_settings_are_kept<T>(
    before: Seq<Event>,
    after: Seq<Event>,
    addr: u32,
    view: spec_fn(u32) -> T,
)
    requires
        untouched(before, after, addr),
    ensures
        kept(before, after, addr, view),
{
}

/// A change of other settings of the register keeps this one, if the load that the change begins
/// with shows it.
pub proof fn law_changing_others_keeps_a_setting<T>(
    t0: Seq<Event>,
    t1: Seq<Event>,
    addr: u32,
    f: spec_fn(u32) -> u32,
    view: spec_fn(u32) -> T,
)
    requires
        platform::modified(t0, t1, addr, f),
        forall|word: u32| view(#[trigger] f(word)) == view(word),
        agrees(t1, t0.len() as int, view),
    ensures
        kept(t0, t1, addr, view),
{
    let n = t0.len() as int;
    let v = platform::nth_read(t1, n);
    assert(t1[n] == Event::Read { addr, value: v });
    assert(t1[n + 1] == Event::Write { addr, value: f(v) });
    assert(t1.take(n) =~= t0);
    assert(t1.take(n + 1).drop_last() =~= t0);
    assert(t1.take(n + 1).last() == t1[n]);
    assert(last_stored(t1.take(n + 1), addr) == last_stored(t0, addr));
}

/// What is kept from `t0` to `t1` and from `t1` to `t2` is kept from `t0` to `t2`.
pub proof fn law_kept_settings_stay_kept<T>(
    t0: Seq<Event>,
    t1: Seq<Event>,
    t2: Seq<Event>,
    addr: u32,
    view: spec_fn(u32) -> T,
)
    requires
        kept(t0, t1, addr, view),
        kept(t1, t2, addr, view),
    ensures
        kept(t0, t2, addr, view),
{
    assert(t2.take(t0.len() as int) =~= t1.take(t0.len() as int));
    assert forall|i: int|
        t0.len() <= i < t2.len() && simulated::reaches(
            #[trigger] t2[i],
            addr,
        ) implies t2[i]->Write_addr == addr && (last_stored(t2.take(i), addr) matches Some(word)
        ==> view(t2[i]->Write_value) == view(word)) by {
        if i < t1.len() {
            assert(t2.take(t1.len() as int)[i] == t2[i]);
            assert(t2.take(i) =~= t1.take(i));
        }
    }
}

/// A load that shows a setting shows the one stored last: with a store at the end of `t1` and a
/// load from `t2` to `t3`, if the setting was kept between.
pub proof fn law_stored_setting_is_read_back<T>(
    t1: Seq<Event>,
    t2: Seq<Event>,
    t3: Seq<Event>,
    addr: u32,
    word: u32,
    view: spec_fn(u32) -> T,
)
    requires
        simulated::alias_of(addr) == 0,
        t1.len() > 0,
        t1.last() == (Event::Write { addr, value: word }),
        kept(t1, t2, addr, view),
        platform::loaded(t2, t3, addr),
        agrees(t3, t2.len() as int, view),
    ensures
        view(platform::last_read(t3)) == view(word),
{
    lemma_kept(t1, t2, addr, view, word);
    assert(t3.take(t2.len() as int) =~= t2);
    assert(t3[t2.len() as int] == t3.last());
}

/// The registers of a state machine are not reached through an alias.
proof fn lemma_own_reg_is_plain<S: PioStateMachine>(offset: u32)
    requires
        offset < 0x18,
    ensures
        simulated::alias_of(sm::own_reg::<S>(offset)) == 0,
{
    S::lemma_sm();
    S::Pio::lemma_block();
}

/// A register of state machine `S` was changed by `f` from `t0` to `t1` and loaded from `t2` to
/// `t3`. Between, the setting that `view` reads was kept, and the load shows it. The definition is
/// to be revealed where it is needed.
#[verifier::opaque]
pub open spec fn changed_then_read<S: PioStateMachine, T>(
    t0: Seq<Event>,
    t1: Seq<Event>,
    t2: Seq<Event>,
    t3: Seq<Event>,
    offset: u32,
    f: spec_fn(u32) -> u32,
    view: spec_fn(u32) -> T,
) -> bool {
    &&& platform::modified(t0, t1, sm::own_reg::<S>(offset), f)
    &&& kept(t1, t2, sm::own_reg::<S>(offset), view)
    &&& platform::loaded(t2, t3, sm::own_reg::<S>(offset))
    &&& agrees(t3, t2.len() as int, view)
}

/// The load shows what the change left of the setting.
proof fn lemma_changed_then_read<S: PioStateMachine, T>(
    t0: Seq<Event>,
    t1: Seq<Event>,
    t2: Seq<Event>,
    t3: Seq<Event>,
    offset: u32,
    f: spec_fn(u32) -> u32,
    view: spec_fn(u32) -> T,
)
    requires
        offset < 0x18,
        changed_then_read::<S, T>(t0, t1, t2, t3, offset, f, view),
    ensures
        view(platform::last_read(t3)) == view(f(platform::nth_read(t1, t0.len() as int))),
{
    reveal(changed_then_read);
    lemma_own_reg_is_plain::<S>(offset);
    law_stored_setting_is_read_back(
        t1,
        t2,
        t3,
        sm::own_reg::<S>(offset),
        f(platform::nth_read(t1, t0.len() as int)),
        view,
    );
}

proof fn lemma_set_fields(pinctrl: u32, base: u8, count: u8)
    ensures
        Pinctrl(pinctrl).with_set_base(base).with_set_count(count).set_base() == base % 32,
        Pinctrl(pinctrl).with_set_base(base).with_set_count(count).set_count() == count % 8,
{
    let half = Pinctrl(pinctrl).with_set_base(base).0;
    bits::law_field_write(pinctrl, 0x20, 32, base as u32, 0x400_0000, 8);
    bits::law_field_write(half, 0x400_0000, 8, count as u32, 0x20, 32);
}

proof fn lemma_out_fields(pinctrl: u32, base: u8, count: u8)
    ensures
        Pinctrl(pinctrl).with_out_base(base).with_out_count(count).out_base() == base % 32,
        Pinctrl(pinctrl).with_out_base(base).with_out_count(count).out_count() == count % 64,
{
    let half = Pinctrl(pinctrl).with_out_base(base).0;
    bits::law_field_write(pinctrl, 1, 32, base as u32, 0x10_0000, 64);
    bits::law_field_write(half, 0x10_0000, 64, count as u32, 1, 32);
}

proof fn lemma_wrap_fields(execctrl: u32, source: u8, target: u8)
    ensures
        Execctrl(execctrl).with_wrap_top(source).with_wrap_bottom(target).wrap_top() == source % 32,
        Execctrl(execctrl).with_wrap_top(source).with_wrap_bottom(target).wrap_bottom() == target
            % 32,
{
    let half = Execctrl(execctrl).with_wrap_top(source).0;
    bits::law_field_write(execctrl, 0x1000, 32, source as u32, 0x80, 32);
    bits::law_field_write(half, 0x80, 32, target as u32, 0x1000, 32);
}

proof fn lemma_join_fields(shiftctrl: u32, join: FifoJoin)
    ensures
        sm::fifo_join(sm::with_fifo_join(shiftctrl, join)) == join,
{
    let rx = join == FifoJoin::RxOnly;
    let tx = join == FifoJoin::TxOnly;
    let half = Shiftctrl(shiftctrl).with_fjoin_rx(rx).0;
    bits::law_field_write(shiftctrl, 0x8000_0000, 2, bits::level(rx), 0x4000_0000, 2);
    bits::law_field_write(half, 0x4000_0000, 2, bits::level(tx), 0x8000_0000, 2);
}

/// `is_side_enabled` returns what `set_side_enable` set.
pub proof fn law_side_enable_is_read_back<S: PioStateMachine>(
    t0: Seq<Event>,
    t1: Seq<Event>,
    t2: Seq<Event>,
    t3: Seq<Event>,
    enable: bool,
)
    requires
        changed_then_read::<S, bool>(
            t0,
            t1,
            t2,
            t3,
            memmap::EXECCTRL,
            |v: u32| Execctrl(v).with_side_en(enable).0,
            |v: u32| Execctrl(v).side_en(),
        ),
    ensures
        Execctrl(platform::last_read(t3)).side_en() == enable,
{
    let v = platform::nth_read(t1, t0.len() as int);
    lemma_changed_then_read::<S, bool>(
        t0,
        t1,
        t2,
        t3,
        memmap::EXECCTRL,
        |v: u32| Execctrl(v).with_side_en(enable).0,
        |v: u32| Execctrl(v).side_en(),
    );
    bits::law_field_write(v, 0x4000_0000, 2, bits::level(enable), 0x4000_0000, 2);
}

/// `is_side_pindir` returns what `set_side_pindir` set.
pub proof fn law_side_pindir_is_read_back<S: PioStateMachine>(
    t0: Seq<Event>,
    t1: Seq<Event>,
    t2: Seq<Event>,
    t3: Seq<Event>,
    pindir: bool,
)
    requires
        changed_then_read::<S, bool>(
            t0,
            t1,
            t2,
            t3,
            memmap::EXECCTRL,
            |v: u32| Execctrl(v).with_side_pindir(pindir).0,
            |v: u32| Execctrl(v).side_pindir(),
        ),
    ensures
        Execctrl(platform::last_read(t3)).side_pindir() == pindir,
{
    let v = platform::nth_read(t1, t0.len() as int);
    lemma_changed_then_read::<S, bool>(
        t0,
        t1,
        t2,
        t3,
        memmap::EXECCTRL,
        |v: u32| Execctrl(v).with_side_pindir(pindir).0,
        |v: u32| Execctrl(v).side_pindir(),
    );
    bits::law_field_write(v, 0x2000_0000, 2, bits::level(pindir), 0x2000_0000, 2);
}

/// `get_jmp_pin` returns what `set_jmp_pin` set, modulo 32.
pub proof fn law_jmp_pin_is_read_back<S: PioStateMachine>(
    t0: Seq<Event>,
    t1: Seq<Event>,
    t2: Seq<Event>,
    t3: Seq<Event>,
    pin: u8,
)
    requires
        changed_then_read::<S, u8>(
            t0,
            t1,
            t2,
            t3,
            memmap::EXECCTRL,
            |v: u32| Execctrl(v).with_jmp_pin(pin).0,
            |v: u32| Execctrl(v).jmp_pin(),
        ),
    ensures
        Execctrl(platform::last_read(t3)).jmp_pin() == pin % 32,
{
    let v = platform::nth_read(t1, t0.len() as int);
    lemma_changed_then_read::<S, u8>(
        t0,
        t1,
        t2,
        t3,
        memmap::EXECCTRL,
        |v: u32| Execctrl(v).with_jmp_pin(pin).0,
        |v: u32| Execctrl(v).jmp_pin(),
    );
    bits::law_field_write(v, 0x100_0000, 32, pin as u32, 0x100_0000, 32);
}

/// `get_wrap` returns what `set_wrap` set, modulo 32.
pub proof fn law_wrap_is_read_back<S: PioStateMachine>(
    t0: Seq<Event>,
    t1: Seq<Event>,
    t2: Seq<Event>,
    t3: Seq<Event>,
    source: u8,
    target: u8,
)
    requires
        changed_then_read::<S, (u8, u8)>(
            t0,
            t1,
            t2,
            t3,
            memmap::EXECCTRL,
            |v: u32| Execctrl(v).with_wrap_top(source).with_wrap_bottom(target).0,
            |v: u32| (Execctrl(v).wrap_top(), Execctrl(v).wrap_bottom()),
        ),
    ensures
        Execctrl(platform::last_read(t3)).wrap_top() == source % 32,
        Execctrl(platform::last_read(t3)).wrap_bottom() == target % 32,
{
    let v = platform::nth_read(t1, t0.len() as int);
    lemma_changed_then_read::<S, (u8, u8)>(
        t0,
        t1,
        t2,
        t3,
        memmap::EXECCTRL,
        |v: u32| Execctrl(v).with_wrap_top(source).with_wrap_bottom(target).0,
        |v: u32| (Execctrl(v).wrap_top(), Execctrl(v).wrap_bottom()),
    );
    lemma_wrap_fields(v, source, target);
}

/// `get_pull_threshold` returns what `set_pull_threshold` set, modulo 32.
pub proof fn law_pull_threshold_is_read_back<S: PioStateMachine>(
    t0: Seq<Event>,
    t1: Seq<Event>,
    t2: Seq<Event>,
    t3: Seq<Event>,
    threshold: u8,
)
    requires
        changed_then_read::<S, u8>(
            t0,
            t1,
            t2,
            t3,
            memmap::SHIFTCTRL,
            |v: u32| Shiftctrl(v).with_pull_thresh(threshold).0,
            |v: u32| Shiftctrl(v).pull_thresh(),
        ),
    ensures
        Shiftctrl(platform::last_read(t3)).pull_thresh() == threshold % 32,
{
    let v = platform::nth_read(t1, t0.len() as int);
    lemma_changed_then_read::<S, u8>(
        t0,
        t1,
        t2,
        t3,
        memmap::SHIFTCTRL,
        |v: u32| Shiftctrl(v).with_pull_thresh(threshold).0,
        |v: u32| Shiftctrl(v).pull_thresh(),
    );
    bits::law_field_write(v, 0x200_0000, 32, threshold as u32, 0x200_0000, 32);
}

/// `get_push_threshold` returns what `set_push_threshold` set, modulo 32.
pub proof fn law_push_threshold_is_read_back<S: PioStateMachine>(
    t0: Seq<Event>,
    t1: Seq<Event>,
    t2: Seq<Event>,
    t3: Seq<Event>,
    threshold: u8,
)
    requires
        changed_then_read::<S, u8>(
            t0,
            t1,
            t2,
            t3,
            memmap::SHIFTCTRL,
            |v: u32| Shiftctrl(v).with_push_thresh(threshold).0,
            |v: u32| Shiftctrl(v).push_thresh(),
        ),
    ensures
        Shiftctrl(platform::last_read(t3)).push_thresh() == threshold % 32,
{
    let v = platform::nth_read(t1, t0.len() as int);
    lemma_changed_then_read::<S, u8>(
        t0,
        t1,
        t2,
        t3,
        memmap::SHIFTCTRL,
        |v: u32| Shiftctrl(v).with_push_thresh(threshold).0,
        |v: u32| Shiftctrl(v).push_thresh(),
    );
    bits::law_field_write(v, 0x10_0000, 32, threshold as u32, 0x10_0000, 32);
}

/// `is_autopull` returns what `set_autopull` set.
pub proof fn law_autopull_is_read_back<S: PioStateMachine>(
    t0: Seq<Event>,
    t1: Seq<Event>,
    t2: Seq<Event>,
    t3: Seq<Event>,
    auto: bool,
)
    requires
        changed_then_read::<S, bool>(
            t0,
            t1,
            t2,
            t3,
            memmap::SHIFTCTRL,
            |v: u32| Shiftctrl(v).with_autopull(auto).0,
            |v: u32| Shiftctrl(v).autopull(),
        ),
    ensures
        Shiftctrl(platform::last_read(t3)).autopull() == auto,
{
    let v = platform::nth_read(t1, t0.len() as int);
    lemma_changed_then_read::<S, bool>(
        t0,
        t1,
        t2,
        t3,
        memmap::SHIFTCTRL,
        |v: u32| Shiftctrl(v).with_autopull(auto).0,
        |v: u32| Shiftctrl(v).autopull(),
    );
    bits::law_field_write(v, 0x2_0000, 2, bits::level(auto), 0x2_0000, 2);
}

/// `is_autopush` returns what `set_autopush` set.
pub proof fn law_autopush_is_read_back<S: PioStateMachine>(
    t0: Seq<Event>,
    t1: Seq<Event>,
    t2: Seq<Event>,
    t3: Seq<Event>,
    auto: bool,
)
    requires
        changed_then_read::<S, bool>(
            t0,
            t1,
            t2,
            t3,
            memmap::SHIFTCTRL,
            |v: u32| Shiftctrl(v).with_autopush(auto).0,
            |v: u32| Shiftctrl(v).autopush(),
        ),
    ensures
        Shiftctrl(platform::last_read(t3)).autopush() == auto,
{
    let v = platform::nth_read(t1, t0.len() as int);
    lemma_changed_then_read::<S, bool>(
        t0,
        t1,
        t2,
        t3,
        memmap::SHIFTCTRL,
        |v: u32| Shiftctrl(v).with_autopush(auto).0,
        |v: u32| Shiftctrl(v).autopush(),
    );
    bits::law_field_write(v, 0x1_0000, 2, bits::level(auto), 0x1_0000, 2);
}

/// `get_out_shiftdir` returns what `set_out_shift_dir` set.
pub proof fn law_out_shift_dir_is_read_back<S: PioStateMachine>(
    t0: Seq<Event>,
    t1: Seq<Event>,
    t2: Seq<Event>,
    t3: Seq<Event>,
    dir: ShiftDirection,
)
    requires
        changed_then_read::<S, ShiftDirection>(
            t0,
            t1,
            t2,
            t3,
            memmap::SHIFTCTRL,
            |v: u32| Shiftctrl(v).with_out_shiftdir(dir == ShiftDirection::Right).0,
            |v: u32| sm::direction(Shiftctrl(v).out_shiftdir()),
        ),
    ensures
        sm::direction(Shiftctrl(platform::last_read(t3)).out_shiftdir()) == dir,
{
    let v = platform::nth_read(t1, t0.len() as int);
    lemma_changed_then_read::<S, ShiftDirection>(
        t0,
        t1,
        t2,
        t3,
        memmap::SHIFTCTRL,
        |v: u32| Shiftctrl(v).with_out_shiftdir(dir == ShiftDirection::Right).0,
        |v: u32| sm::direction(Shiftctrl(v).out_shiftdir()),
    );
    bits::law_field_write(v, 0x8_0000, 2, bits::level(dir == ShiftDirection::Right), 0x8_0000, 2);
}

/// `get_in_shiftdir` returns what `set_in_shift_dir` set.
pub proof fn law_in_shift_dir_is_read_back<S: PioStateMachine>(
    t0: Seq<Event>,
    t1: Seq<Event>,
    t2: Seq<Event>,
    t3: Seq<Event>,
    dir: ShiftDirection,
)
    requires
        changed_then_read::<S, ShiftDirection>(
            t0,
            t1,
            t2,
            t3,
            memmap::SHIFTCTRL,
            |v: u32| Shiftctrl(v).with_in_shiftdir(dir == ShiftDirection::Right).0,
            |v: u32| sm::direction(Shiftctrl(v).in_shiftdir()),
        ),
    ensures
        sm::direction(Shiftctrl(platform::last_read(t3)).in_shiftdir()) == dir,
{
    let v = platform::nth_read(t1, t0.len() as int);
    lemma_changed_then_read::<S, ShiftDirection>(
        t0,
        t1,
        t2,
        t3,
        memmap::SHIFTCTRL,
        |v: u32| Shiftctrl(v).with_in_shiftdir(dir == ShiftDirection::Right).0,
        |v: u32| sm::direction(Shiftctrl(v).in_shiftdir()),
    );
    bits::law_field_write(v, 0x4_0000, 2, bits::level(dir == ShiftDirection::Right), 0x4_0000, 2);
}

/// `get_fifo_join` returns what `set_fifo_join` set.
pub proof fn law_fifo_join_is_read_back<S: PioStateMachine>(
    t0: Seq<Event>,
    t1: Seq<Event>,
    t2: Seq<Event>,
    t3: Seq<Event>,
    join: FifoJoin,
)
    requires
        changed_then_read::<S, FifoJoin>(
            t0,
            t1,
            t2,
            t3,
            memmap::SHIFTCTRL,
            |v: u32| sm::with_fifo_join(v, join),
            |v: u32| sm::fifo_join(v),
        ),
    ensures
        sm::fifo_join(platform::last_read(t3)) == join,
{
    let v = platform::nth_read(t1, t0.len() as int);
    lemma_changed_then_read::<S, FifoJoin>(
        t0,
        t1,
        t2,
        t3,
        memmap::SHIFTCTRL,
        |v: u32| sm::with_fifo_join(v, join),
        |v: u32| sm::fifo_join(v),
    );
    lemma_join_fields(v, join);
}

/// `get_sideset_count` returns what `set_sideset_count` set, modulo 8.
pub proof fn law_sideset_count_is_read_back<S: PioStateMachine>(
    t0: Seq<Event>,
    t1: Seq<Event>,
    t2: Seq<Event>,
    t3: Seq<Event>,
    count: u8,
)
    requires
        changed_then_read::<S, u8>(
            t0,
            t1,
            t2,
            t3,
            memmap::PINCTRL,
            |v: u32| Pinctrl(v).with_sideset_count(count).0,
            |v: u32| Pinctrl(v).sideset_count(),
        ),
    ensures
        Pinctrl(platform::last_read(t3)).sideset_count() == count % 8,
{
    let v = platform::nth_read(t1, t0.len() as int);
    lemma_changed_then_read::<S, u8>(
        t0,
        t1,
        t2,
        t3,
        memmap::PINCTRL,
        |v: u32| Pinctrl(v).with_sideset_count(count).0,
        |v: u32| Pinctrl(v).sideset_count(),
    );
    bits::law_field_write(v, 0x2000_0000, 8, count as u32, 0x2000_0000, 8);
}

/// `get_sideset_base` returns the number of the pin that `set_sideset_base_pin` set.
pub proof fn law_sideset_base_is_read_back<S: PioStateMachine>(
    t0: Seq<Event>,
    t1: Seq<Event>,
    t2: Seq<Event>,
    t3: Seq<Event>,
    base_pin: &PioPin<S::Pio>,
)
    requires
        changed_then_read::<S, u8>(
            t0,
            t1,
            t2,
            t3,
            memmap::PINCTRL,
            |v: u32| Pinctrl(v).with_sideset_base(base_pin.bank() % 32).0,
            |v: u32| Pinctrl(v).sideset_base(),
        ),
    ensures
        Pinctrl(platform::last_read(t3)).sideset_base() == base_pin.bank() % 32,
{
    let v = platform::nth_read(t1, t0.len() as int);
    lemma_changed_then_read::<S, u8>(
        t0,
        t1,
        t2,
        t3,
        memmap::PINCTRL,
        |v: u32| Pinctrl(v).with_sideset_base(base_pin.bank() % 32).0,
        |v: u32| Pinctrl(v).sideset_base(),
    );
    bits::law_field_write(v, 0x400, 32, (base_pin.bank() % 32) as u32, 0x400, 32);
}

/// `get_in_base` returns the number of the pin that `set_in_base_pin` set.
pub proof fn law_in_base_is_read_back<S: PioStateMachine>(
    t0: Seq<Event>,
    t1: Seq<Event>,
    t2: Seq<Event>,
    t3: Seq<Event>,
    base: &PioPin<S::Pio>,
)
    requires
        changed_then_read::<S, u8>(
            t0,
            t1,
            t2,
            t3,
            memmap::PINCTRL,
            |v: u32| Pinctrl(v).with_in_base(base.bank() % 32).0,
            |v: u32| Pinctrl(v).in_base(),
        ),
    ensures
        Pinctrl(platform::last_read(t3)).in_base() == base.bank() % 32,
{
    let v = platform::nth_read(t1, t0.len() as int);
    lemma_changed_then_read::<S, u8>(
        t0,
        t1,
        t2,
        t3,
        memmap::PINCTRL,
        |v: u32| Pinctrl(v).with_in_base(base.bank() % 32).0,
        |v: u32| Pinctrl(v).in_base(),
    );
    bits::law_field_write(v, 0x8000, 32, (base.bank() % 32) as u32, 0x8000, 32);
}

/// `get_set_range` returns what `set_set_range` set, where the count fits its three bits.
pub proof fn law_set_range_is_read_back<S: PioStateMachine>(
    t0: Seq<Event>,
    t1: Seq<Event>,
    t2: Seq<Event>,
    t3: Seq<Event>,
    base: u8,
    count: u8,
)
    requires
        base + count < 32,
        count < 8,
        changed_then_read::<S, (u8, u8)>(
            t0,
            t1,
            t2,
            t3,
            memmap::PINCTRL,
            |v: u32| Pinctrl(v).with_set_base(base).with_set_count(count).0,
            |v: u32| (Pinctrl(v).set_base(), Pinctrl(v).set_count()),
        ),
    ensures
        Pinctrl(platform::last_read(t3)).set_base() == base,
        Pinctrl(platform::last_read(t3)).set_count() == count,
{
    let v = platform::nth_read(t1, t0.len() as int);
    lemma_changed_then_read::<S, (u8, u8)>(
        t0,
        t1,
        t2,
        t3,
        memmap::PINCTRL,
        |v: u32| Pinctrl(v).with_set_base(base).with_set_count(count).0,
        |v: u32| (Pinctrl(v).set_base(), Pinctrl(v).set_count()),
    );
    lemma_set_fields(v, base, count);
}

/// `get_out_range` returns what `set_out_range` set.
pub proof fn law_out_range_is_read_back<S: PioStateMachine>(
    t0: Seq<Event>,
    t1: Seq<Event>,
    t2: Seq<Event>,
    t3: Seq<Event>,
    base: u8,
    count: u8,
)
    requires
        base + count < 32,
        changed_then_read::<S, (u8, u8)>(
            t0,
            t1,
            t2,
            t3,
            memmap::PINCTRL,
            |v: u32| Pinctrl(v).with_out_base(base).with_out_count(count).0,
            |v: u32| (Pinctrl(v).out_base(), Pinctrl(v).out_count()),
        ),
    ensures
        Pinctrl(platform::last_read(t3)).out_base() == base,
        Pinctrl(platform::last_read(t3)).out_count() == count,
{
    let v = platform::nth_read(t1, t0.len() as int);
    lemma_changed_then_read::<S, (u8, u8)>(
        t0,
        t1,
        t2,
        t3,
        memmap::PINCTRL,
        |v: u32| Pinctrl(v).with_out_base(base).with_out_count(count).0,
        |v: u32| (Pinctrl(v).out_base(), Pinctrl(v).out_count()),
    );
    lemma_out_fields(v, base, count);
}

/// `get_set_range` returns the first of the pins that `set_set_pins` set and their number, where it
/// fits its three bits.
pub proof fn law_set_pins_is_read_back<S: PioStateMachine>(
    t0: Seq<Event>,
    t1: Seq<Event>,
    t2: Seq<Event>,
    t3: Seq<Event>,
    pins: Seq<&PioPin<S::Pio>>,
)
    requires
        pin::consecutive(pins),
        pins[0].bank() % 32 + pins.len() < 32,
        pins.len() < 8,
        changed_then_read::<S, (u8, u8)>(
            t0,
            t1,
            t2,
            t3,
            memmap::PINCTRL,
            |v: u32|
                Pinctrl(v).with_set_base(pins[0].bank() % 32).with_set_count(
                    pins.len() as u8,
                ).0,
            |v: u32| (Pinctrl(v).set_base(), Pinctrl(v).set_count()),
        ),
    ensures
        Pinctrl(platform::last_read(t3)).set_base() == pins[0].bank() % 32,
        Pinctrl(platform::last_read(t3)).set_count() == pins.len(),
{
    let v = platform::nth_read(t1, t0.len() as int);
    lemma_changed_then_read::<S, (u8, u8)>(
        t0,
        t1,
        t2,
        t3,
        memmap::PINCTRL,
        |v: u32|
            Pinctrl(v).with_set_base(pins[0].bank() % 32).with_set_count(
                pins.len() as u8,
            ).0,
        |v: u32| (Pinctrl(v).set_base(), Pinctrl(v).set_count()),
    );
    lemma_set_fields(v, pins[0].bank() % 32, pins.len() as u8);
}

/// `get_out_range` returns the first of the pins that `set_out_pins` set and their number.
pub proof fn law_out_pins_is_read_back<S: PioStateMachine>(
    t0: Seq<Event>,
    t1: Seq<Event>,
    t2: Seq<Event>,
    t3: Seq<Event>,
    pins: Seq<&PioPin<S::Pio>>,
)
    requires
        pin::consecutive(pins),
        pins[0].bank() % 32 + pins.len() < 32,
        changed_then_read::<S, (u8, u8)>(
            t0,
            t1,
            t2,
            t3,
            memmap::PINCTRL,
            |v: u32|
                Pinctrl(v).with_out_base(pins[0].bank() % 32).with_out_count(
                    pins.len() as u8,
                ).0,
            |v: u32| (Pinctrl(v).out_base(), Pinctrl(v).out_count()),
        ),
    ensures
        Pinctrl(platform::last_read(t3)).out_base() == pins[0].bank() % 32,
        Pinctrl(platform::last_read(t3)).out_count() == pins.len(),
{
    let v = platform::nth_read(t1, t0.len() as int);
    lemma_changed_then_read::<S, (u8, u8)>(
        t0,
        t1,
        t2,
        t3,
        memmap::PINCTRL,
        |v: u32|
            Pinctrl(v).with_out_base(pins[0].bank() % 32).with_out_count(
                pins.len() as u8,
            ).0,
        |v: u32| (Pinctrl(v).out_base(), Pinctrl(v).out_count()),
    );
    lemma_out_fields(v, pins[0].bank() % 32, pins.len() as u8);
}

/// `get_clkdiv` returns what `set_clkdiv` set, modulo 2^24.
pub proof fn law_clkdiv_is_read_back<S: PioStateMachine>(
    t0: Seq<Event>,
    t1: Seq<Event>,
    t2: Seq<Event>,
    t3: Seq<Event>,
    div_x_256: u32,
)
    requires
        platform::stored(
            t0,
            t1,
            sm::own_reg::<S>(memmap::CLKDIV),
            ((div_x_256 % 0x100_0000) * 0x100) as u32,
        ),
        kept(t1, t2, sm::own_reg::<S>(memmap::CLKDIV), |v: u32| v / 0x100),
        platform::loaded(t2, t3, sm::own_reg::<S>(memmap::CLKDIV)),
        agrees(t3, t2.len() as int, |v: u32| v / 0x100),
    ensures
        platform::last_read(t3) / 0x100 == div_x_256 % 0x100_0000,
{
    lemma_own_reg_is_plain::<S>(memmap::CLKDIV);
    law_stored_setting_is_read_back(
        t1,
        t2,
        t3,
        sm::own_reg::<S>(memmap::CLKDIV),
        ((div_x_256 % 0x100_0000) * 0x100) as u32,
        |v: u32| v / 0x100,
    );
}

/// Setting or clearing bit `i` of a word decides that bit, and no other.
proof fn lemma_one_bit(word: u32, i: u32, j: u32)
    requires
        i < 32,
        j < 32,
    ensures
        bits::bit(word | (1u32 << i), j) == (i == j || bits::bit(word, j)),
        bits::bit(word & !(1u32 << i), j) == (i != j && bits::bit(word, j)),
{
    assert((word | (1u32 << i)) & (1u32 << j) != 0 <==> i == j || word & (1u32 << j) != 0)
        by (bit_vector)
        requires
            i < 32,
            j < 32,
    ;
    assert((word & !(1u32 << i)) & (1u32 << j) != 0 <==> i != j && word & (1u32 << j) != 0)
        by (bit_vector)
        requires
            i < 32,
            j < 32,
    ;
}

/// Whatever the register at `addr` held, the step leaves bit `j` of it as it was.
pub open spec fn leaves_bit(event: Event, addr: u32, j: u32) -> bool {
    forall|word: u32|
        bits::bit(#[trigger] simulated::after_event(event, addr, word), j) == bits::bit(word, j)
}

/// From `before` to `after`, every step left bit `j` of the register at `addr` as it was.
pub open spec fn bit_kept(before: Seq<Event>, after: Seq<Event>, addr: u32, j: u32) -> bool {
    &&& continues(before, after)
    &&& forall|i: int| before.len() <= i < after.len() ==> leaves_bit(#[trigger] after[i], addr, j)
}

proof fn lemma_bit_kept(start: u32, before: Seq<Event>, after: Seq<Event>, addr: u32, j: u32)
    requires
        bit_kept(before, after, addr, j),
    ensures
        bits::bit(simulated::word_after(start, after, addr), j) == bits::bit(
            simulated::word_after(start, before, addr),
            j,
        ),
    decreases after.len(),
{
    if before.len() == after.len() {
        assert(after.take(before.len() as int) =~= after);
    } else {
        let shorter = after.drop_last();
        assert(shorter.take(before.len() as int) =~= after.take(before.len() as int));
        assert forall|i: int| before.len() <= i < shorter.len() implies leaves_bit(
            #[trigger] shorter[i],
            addr,
            j,
        ) by {
            assert(shorter[i] == after[i]);
        }
        lemma_bit_kept(start, before, shorter, addr, j);
        assert(after.last() == after[after.len() - 1]);
    }
}

/// The load from `t2` to `t3` shows, in bit `j`, what the steps before it left of the word `start`
/// that the register at `addr` held at first.
pub open spec fn shows_bit(
    start: u32,
    t2: Seq<Event>,
    t3: Seq<Event>,
    addr: u32,
    j: u32,
) -> bool {
    &&& platform::loaded(t2, t3, addr)
    &&& bits::bit(platform::last_read(t3), j) == bits::bit(
        simulated::word_after(start, t2, addr),
        j,
    )
}

/// The address through which ones set bits of the register at `addr`, or clear them.
pub open spec fn deciding_alias(addr: u32, on: bool) -> u32 {
    if on {
        memmap::set_alias(addr)
    } else {
        memmap::clear_alias(addr)
    }
}

/// Setting or clearing one bit of the control register leaves every other bit: starting, stopping
/// or restarting a state machine decides nothing for another.
pub proof fn law_control_bits_are_apart<S: PioStateMachine>(
    t0: Seq<Event>,
    t1: Seq<Event>,
    on: bool,
    i: u32,
    j: u32,
)
    requires
        i < 32,
        j < 32,
        i != j,
        platform::stored(
            t0,
            t1,
            deciding_alias(sm::block_reg::<S>(memmap::CTRL), on),
            1u32 << i,
        ),
    ensures
        bit_kept(t0, t1, sm::block_reg::<S>(memmap::CTRL), j),
{
    S::Pio::lemma_block();
    let addr = sm::block_reg::<S>(memmap::CTRL);
    assert(t1.take(t0.len() as int) =~= t0);
    let last = t1[t0.len() as int];
    assert forall|word: u32|
        bits::bit(#[trigger] simulated::after_event(last, addr, word), j) == bits::bit(
            word,
            j,
        ) by {
        lemma_one_bit(word, i, j);
    }
}

/// What `set_enable` stores decides the enable bit of its own state machine, and no other bit of
/// the control register.
pub proof fn law_enable_decides_one_bit<S: PioStateMachine>(
    start: u32,
    t0: Seq<Event>,
    t1: Seq<Event>,
    enable: bool,
    j: u32,
)
    requires
        j < 32,
        platform::stored(
            t0,
            t1,
            deciding_alias(sm::block_reg::<S>(memmap::CTRL), enable),
            1u32 << sm::own_bit::<S>(memmap::CTRL_SM_ENABLE),
        ),
    ensures
        bits::bit(simulated::word_after(start, t1, sm::block_reg::<S>(memmap::CTRL)), j) == if j
            == sm::own_bit::<S>(memmap::CTRL_SM_ENABLE) {
            enable
        } else {
            bits::bit(simulated::word_after(start, t0, sm::block_reg::<S>(memmap::CTRL)), j)
        },
{
    S::lemma_sm();
    S::Pio::lemma_block();
    let addr = sm::block_reg::<S>(memmap::CTRL);
    assert(t1.drop_last() =~= t0);
    lemma_one_bit(
        simulated::word_after(start, t0, addr),
        sm::own_bit::<S>(memmap::CTRL_SM_ENABLE),
        j,
    );
}

/// `is_enabled` returns what `set_enable` set, if its load shows the enable bit and no step between
/// decided that bit.
pub proof fn law_enable_is_read_back<S: PioStateMachine>(
    start: u32,
    t0: Seq<Event>,
    t1: Seq<Event>,
    t2: Seq<Event>,
    t3: Seq<Event>,
    enable: bool,
)
    requires
        platform::stored(
            t0,
            t1,
            deciding_alias(sm::block_reg::<S>(memmap::CTRL), enable),
            1u32 << sm::own_bit::<S>(memmap::CTRL_SM_ENABLE),
        ),
        bit_kept(
            t1,
            t2,
            sm::block_reg::<S>(memmap::CTRL),
            sm::own_bit::<S>(memmap::CTRL_SM_ENABLE),
        ),
        shows_bit(
            start,
            t2,
            t3,
            sm::block_reg::<S>(memmap::CTRL),
            sm::own_bit::<S>(memmap::CTRL_SM_ENABLE),
        ),
    ensures
        bits::bit(platform::last_read(t3), sm::own_bit::<S>(memmap::CTRL_SM_ENABLE)) == enable,
{
    S::lemma_sm();
    let bit = sm::own_bit::<S>(memmap::CTRL_SM_ENABLE);
    law_enable_decides_one_bit::<S>(start, t0, t1, enable, bit);
    lemma_bit_kept(start, t1, t2, sm::block_reg::<S>(memmap::CTRL), bit);
}

/// Inverting the RX join bit twice leaves every shift register setting as it was.
pub proof fn law_toggling_twice_changes_nothing(shiftctrl: u32)
    ensures
        sm::toggle_fjoin_rx(sm::toggle_fjoin_rx(shiftctrl)) == shiftctrl,
        sm::toggle_fjoin_rx(shiftctrl) != shiftctrl,
{
}

/// `clear_fifos` inverts the RX join bit, and in the end stores the shift register settings that it
/// found, if its second load shows what its first store left.
pub proof fn law_clear_fifos_restores_settings<S: PioStateMachine>(
    t0: Seq<Event>,
    t1: Seq<Event>,
    first: u32,
    second: u32,
)
    requires
        t1 == t0.push(
            Event::Read { addr: sm::own_reg::<S>(memmap::SHIFTCTRL), value: first },
        ).push(
            Event::Write {
                addr: sm::own_reg::<S>(memmap::SHIFTCTRL),
                value: sm::toggle_fjoin_rx(first),
            },
        ).push(Event::Read { addr: sm::own_reg::<S>(memmap::SHIFTCTRL), value: second }).push(
            Event::Write {
                addr: sm::own_reg::<S>(memmap::SHIFTCTRL),
                value: sm::toggle_fjoin_rx(second),
            },
        ),
        agrees(t1, t0.len() as int + 2, |v: u32| v),
    ensures
        second == sm::toggle_fjoin_rx(first),
        last_stored(t1, sm::own_reg::<S>(memmap::SHIFTCTRL)) == Some(first),
{
    let addr = sm::own_reg::<S>(memmap::SHIFTCTRL);
    let n = t0.len() as int;
    let half = t0.push(Event::Read { addr, value: first }).push(
        Event::Write { addr, value: sm::toggle_fjoin_rx(first) },
    );
    assert(t1.take(n + 2) =~= half);
    assert(half.last() == Event::Write { addr, value: sm::toggle_fjoin_rx(first) });
    assert(t1[n + 2] == Event::Read { addr, value: second });
    law_toggling_twice_changes_nothing(first);
}

/// After `set_input_sync_bypass`, the pins in `mask` have the bypass bits asked for, and the others
/// those they had.
pub proof fn law_bypass_decides_masked_pins<PIO: PioInstance>(
    start: u32,
    t0: Seq<Event>,
    t1: Seq<Event>,
    bypass: u32,
    mask: u32,
    j: u32,
)
    requires
        j < 32,
        t1 == t0.push(
            Event::Write {
                addr: memmap::set_alias(memmap::pio_reg(PIO::no(), memmap::INPUT_SYNC_BYPASS)),
                value: mask & bypass,
            },
        ).push(
            Event::Write {
                addr: memmap::clear_alias(memmap::pio_reg(PIO::no(), memmap::INPUT_SYNC_BYPASS)),
                value: mask & !bypass,
            },
        ),
    ensures
        bits::bit(
            simulated::word_after(
                start,
                t1,
                memmap::pio_reg(PIO::no(), memmap::INPUT_SYNC_BYPASS),
            ),
            j,
        ) == if bits::bit(mask, j) {
            bits::bit(bypass, j)
        } else {
            bits::bit(
                simulated::word_after(
                    start,
                    t0,
                    memmap::pio_reg(PIO::no(), memmap::INPUT_SYNC_BYPASS),
                ),
                j,
            )
        },
{
    PIO::lemma_block();
    let addr = memmap::pio_reg(PIO::no(), memmap::INPUT_SYNC_BYPASS);
    let half = t1.drop_last();
    let word = simulated::word_after(start, t0, addr);
    assert(half.drop_last() =~= t0);
    assert(half.last() == Event::Write { addr: memmap::set_alias(addr), value: mask & bypass });
    assert(simulated::word_after(start, half, addr) == word | (mask & bypass));
    assert(simulated::word_after(start, t1, addr) == (word | (mask & bypass)) & !(mask & !bypass));
    assert(((word | (mask & bypass)) & !(mask & !bypass)) & (1u32 << j) != 0 <==> if mask & (1u32
        << j) != 0 {
        bypass & (1u32 << j) != 0
    } else {
        word & (1u32 << j) != 0
    }) by (bit_vector)
        requires
            j < 32,
    ;
}

/// `get_input_sync_bypass` returns, for a pin in `mask`, the bypass bit that
/// `set_input_sync_bypass` set, if its load shows that bit and no step between decided it.
pub proof fn law_bypass_is_read_back<PIO: PioInstance>(
    start: u32,
    t0: Seq<Event>,
    t1: Seq<Event>,
    t2: Seq<Event>,
    t3: Seq<Event>,
    bypass: u32,
    mask: u32,
    j: u32,
)
    requires
        j < 32,
        bits::bit(mask, j),
        t1 == t0.push(
            Event::Write {
                addr: memmap::set_alias(memmap::pio_reg(PIO::no(), memmap::INPUT_SYNC_BYPASS)),
                value: mask & bypass,
            },
        ).push(
            Event::Write {
                addr: memmap::clear_alias(memmap::pio_reg(PIO::no(), memmap::INPUT_SYNC_BYPASS)),
                value: mask & !bypass,
            },
        ),
        bit_kept(t1, t2, memmap::pio_reg(PIO::no(), memmap::INPUT_SYNC_BYPASS), j),
        shows_bit(start, t2, t3, memmap::pio_reg(PIO::no(), memmap::INPUT_SYNC_BYPASS), j),
    ensures
        bits::bit(platform::last_read(t3), j) == bits::bit(bypass, j),
{
    law_bypass_decides_masked_pins::<PIO>(start, t0, t1, bypass, mask, j);
    lemma_bit_kept(start, t1, t2, memmap::pio_reg(PIO::no(), memmap::INPUT_SYNC_BYPASS), j);
}

/// A pin's own bypass call decides that pin's bit, and no other.
pub proof fn law_pin_bypass_decides_one_pin<PIO: PioInstance>(
    start: u32,
    t0: Seq<Event>,
    t1: Seq<Event>,
    pin: &PioPin<PIO>,
    bypass: bool,
    j: u32,
)
    requires
        j < 32,
        platform::stored(
            t0,
            t1,
            deciding_alias(memmap::pio_reg(PIO::no(), memmap::INPUT_SYNC_BYPASS), bypass),
            1u32 << (pin.bank() % 32),
        ),
    ensures
        bits::bit(
            simulated::word_after(
                start,
                t1,
                memmap::pio_reg(PIO::no(), memmap::INPUT_SYNC_BYPASS),
            ),
            j,
        ) == if j == pin.bank() % 32 {
            bypass
        } else {
            bits::bit(
                simulated::word_after(
                    start,
                    t0,
                    memmap::pio_reg(PIO::no(), memmap::INPUT_SYNC_BYPASS),
                ),
                j,
            )
        },
{
    PIO::lemma_block();
    let addr = memmap::pio_reg(PIO::no(), memmap::INPUT_SYNC_BYPASS);
    assert(t1.drop_last() =~= t0);
    lemma_one_bit(simulated::word_after(start, t0, addr), (pin.bank() % 32) as u32, j);
}

} // verus!
