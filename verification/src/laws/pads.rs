//! What the calls on a pin do.

use crate::bits;
use crate::instance::PioInstance;
use crate::pin;
use crate::pin::{Drive, PioPin, Pull, SlewRate};
use crate::platform::{Event, Platform};
use crate::regs::PadCtrl;
use crate::sealed::PioInstance as _;
use vstd::prelude::*;

verus! {

/// `pin_bank` returns the number of the pin with its bank, and `pin` that without its bank.
pub proof fn law_pin_numbers<PIO: PioInstance>(p: &PioPin<PIO>, no: u8, whole: u8)
    requires
        call_ensures(PioPin::<PIO>::pin, (p,), no),
        call_ensures(PioPin::<PIO>::pin_bank, (p,), whole),
    ensures
        whole == p.bank(),
        no == p.bank() % 32,
{
}

proof fn lemma_set_drive_strength(before: u32, after: u32, v0: u8)
    requires
        after == PadCtrl(before).with_drive(v0).0,
    ensures
        (after / 0x10) % 4 == v0 % 4,
        after % 0x10 == before % 0x10,
        after / 0x40 == before / 0x40,
{
    bits::law_field_write(before, 0x10, 4, v0 as u32, 1, 0x10);
    bits::law_field_write(before, 0x10, 4, v0 as u32, 0x40, 0x400_0000);
}

/// `set_drive_strength` sets bits 4 and 5 of the pad control word, and nothing else.
pub proof fn law_set_drive_strength<PIO: PioInstance, M: Platform>(
    p: &mut PioPin<PIO>,
    m: &mut M,
    strength: Drive,
)
    requires
        call_ensures(PioPin::<PIO>::set_drive_strength::<M>, (p, m, strength), ()),
    ensures
        ({
            let pads = if (old(p).bank() / 32) % 2 == 0 {
                0x4001_c004int
            } else {
                0x4002_0004
            };
            let addr = (pads + 4 * (old(p).bank() % 32)) as u32;
            let before = final(m).trace()[old(m).trace().len() as int]->Read_value;
            let after = final(m).trace().last()->Write_value;
            &&& final(m).trace() == old(m).trace().push(Event::Read { addr, value: before }).push(
                Event::Write { addr, value: after },
            )
            &&& (after / 0x10) % 4 == (match strength {
                Drive::_2mA => 0int,
                Drive::_4mA => 1,
                Drive::_8mA => 2,
                Drive::_12mA => 3,
            })
            &&& after % 0x10 == before % 0x10
            &&& after / 0x40 == before / 0x40
        }),
        final(p).bank() == old(p).bank(),
{
    let before = final(m).trace()[old(m).trace().len() as int]->Read_value;
    let after = final(m).trace().last()->Write_value;
    lemma_set_drive_strength(before, after, pin::drive_code(strength));
}

proof fn lemma_set_slew_rate(before: u32, after: u32, v0: bool)
    requires
        after == PadCtrl(before).with_slewfast(v0).0,
    ensures
        after % 2 == bits::level(v0),
        after / 2 == before / 2,
{
    bits::law_field_write(before, 1, 2, bits::level(v0), 2, 0x8000_0000);
}

/// `set_slew_rate` sets bit 0 of the pad control word for the fast rate, or clears it, and changes
/// nothing else.
pub proof fn law_set_slew_rate<PIO: PioInstance, M: Platform>(
    p: &mut PioPin<PIO>,
    m: &mut M,
    slew_rate: SlewRate,
)
    requires
        call_ensures(PioPin::<PIO>::set_slew_rate::<M>, (p, m, slew_rate), ()),
    ensures
        ({
            let pads = if (old(p).bank() / 32) % 2 == 0 {
                0x4001_c004int
            } else {
                0x4002_0004
            };
            let addr = (pads + 4 * (old(p).bank() % 32)) as u32;
            let before = final(m).trace()[old(m).trace().len() as int]->Read_value;
            let after = final(m).trace().last()->Write_value;
            &&& final(m).trace() == old(m).trace().push(Event::Read { addr, value: before }).push(
                Event::Write { addr, value: after },
            )
            &&& after % 2 == (if slew_rate == SlewRate::Fast {
                1int
            } else {
                0
            })
            &&& after / 2 == before / 2
        }),
        final(p).bank() == old(p).bank(),
{
    let before = final(m).trace()[old(m).trace().len() as int]->Read_value;
    let after = final(m).trace().last()->Write_value;
    lemma_set_slew_rate(before, after, slew_rate == SlewRate::Fast);
}

proof fn lemma_set_pull(before: u32, after: u32, v0: bool, v1: bool)
    requires
        after == PadCtrl(before).with_pue(v0).with_pde(v1).0,
    ensures
        (after / 8) % 2 == bits::level(v0),
        (after / 4) % 2 == bits::level(v1),
        after % 4 == before % 4,
        after / 0x10 == before / 0x10,
{
    bits::law_field_write(before, 8, 2, bits::level(v0), 4, 2);
    bits::law_field_write(before, 8, 2, bits::level(v0), 1, 4);
    bits::law_field_write(before, 8, 2, bits::level(v0), 0x10, 0x1000_0000);
    let half = PadCtrl(before).with_pue(v0).0;
    bits::law_field_write(half, 4, 2, bits::level(v1), 8, 2);
    bits::law_field_write(half, 4, 2, bits::level(v1), 1, 4);
    bits::law_field_write(half, 4, 2, bits::level(v1), 0x10, 0x1000_0000);
}

/// `set_pull` sets bit 3 of the pad control word to pull up, bit 2 to pull down, or neither, and
/// changes nothing else.
pub proof fn law_set_pull<PIO: PioInstance, M: Platform>(
    p: &mut PioPin<PIO>,
    m: &mut M,
    pull: Pull,
)
    requires
        call_ensures(PioPin::<PIO>::set_pull::<M>, (p, m, pull), ()),
    ensures
        ({
            let pads = if (old(p).bank() / 32) % 2 == 0 {
                0x4001_c004int
            } else {
                0x4002_0004
            };
            let addr = (pads + 4 * (old(p).bank() % 32)) as u32;
            let before = final(m).trace()[old(m).trace().len() as int]->Read_value;
            let after = final(m).trace().last()->Write_value;
            &&& final(m).trace() == old(m).trace().push(Event::Read { addr, value: before }).push(
                Event::Write { addr, value: after },
            )
            &&& (after / 8) % 2 == (if pull == Pull::Up {
                1int
            } else {
                0
            })
            &&& (after / 4) % 2 == (if pull == Pull::Down {
                1int
            } else {
                0
            })
            &&& after % 4 == before % 4
            &&& after / 0x10 == before / 0x10
        }),
        final(p).bank() == old(p).bank(),
{
    let before = final(m).trace()[old(m).trace().len() as int]->Read_value;
    let after = final(m).trace().last()->Write_value;
    lemma_set_pull(before, after, pull == Pull::Up, pull == Pull::Down);
}

proof fn lemma_set_schmitt(before: u32, after: u32, v0: bool)
    requires
        after == PadCtrl(before).with_schmitt(v0).0,
    ensures
        (after / 2) % 2 == bits::level(v0),
        after % 2 == before % 2,
        after / 4 == before / 4,
{
    bits::law_field_write(before, 2, 2, bits::level(v0), 1, 2);
    bits::law_field_write(before, 2, 2, bits::level(v0), 4, 0x4000_0000);
}

/// `set_schmitt` sets bit 1 of the pad control word, or clears it, and changes nothing else.
pub proof fn law_set_schmitt<PIO: PioInstance, M: Platform>(
    p: &mut PioPin<PIO>,
    m: &mut M,
    enable: bool,
)
    requires
        call_ensures(PioPin::<PIO>::set_schmitt::<M>, (p, m, enable), ()),
    ensures
        ({
            let pads = if (old(p).bank() / 32) % 2 == 0 {
                0x4001_c004int
            } else {
                0x4002_0004
            };
            let addr = (pads + 4 * (old(p).bank() % 32)) as u32;
            let before = final(m).trace()[old(m).trace().len() as int]->Read_value;
            let after = final(m).trace().last()->Write_value;
            &&& final(m).trace() == old(m).trace().push(Event::Read { addr, value: before }).push(
                Event::Write { addr, value: after },
            )
            &&& (after / 2) % 2 == (if enable {
                1int
            } else {
                0
            })
            &&& after % 2 == before % 2
            &&& after / 4 == before / 4
        }),
        final(p).bank() == old(p).bank(),
{
    let before = final(m).trace()[old(m).trace().len() as int]->Read_value;
    let after = final(m).trace().last()->Write_value;
    lemma_set_schmitt(before, after, enable);
}

/// A pin's `set_input_sync_bypass` sets the pin's own bit of the bypass register of its block, or
/// clears it.
pub proof fn law_set_input_sync_bypass<PIO: PioInstance, M: Platform>(
    p: &mut PioPin<PIO>,
    m: &mut M,
    bypass: bool,
)
    requires
        call_ensures(PioPin::<PIO>::set_input_sync_bypass::<M>, (p, m, bypass), ()),
    ensures
        ({
            let alias = if bypass {
                0x5020_2038int
            } else {
                0x5020_3038
            };
            let addr = (alias + 0x10_0000 * PIO::no()) as u32;
            let value = 1u32 << (old(p).bank() % 32);
            final(m).trace() == old(m).trace().push(Event::Write { addr, value })
        }),
        final(p).bank() == old(p).bank(),
{
    PIO::lemma_block();
}

/// `are_consecutive` says whether there is a pin, and each pin's number is that of the first plus
/// its place, none of them past 31.
pub proof fn law_are_consecutive<PIO: PioInstance>(pins: &[&PioPin<PIO>], r: bool)
    requires
        call_ensures(pin::are_consecutive::<PIO>, (pins,), r),
    ensures
        r <==> pins@.len() > 0 && (forall|i: int|
            0 <= i < pins@.len() ==> (#[trigger] pins@[i]).bank() % 32 == pins@[0].bank() % 32 + i),
{
    if pins@.len() > 0 && (forall|i: int|
        0 <= i < pins@.len() ==> (#[trigger] pins@[i]).bank() % 32 == pins@[0].bank() % 32 + i) {
        assert(pins@[pins@.len() - 1].bank() % 32 < 32);
    }
}

} // verus!
