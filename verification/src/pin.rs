//! Pins that belong to a PIO block.

use crate::instance::PioInstance;
use crate::memmap;
use crate::platform;
use crate::platform::Platform;
use crate::regs::PadCtrl;
use core::marker::PhantomData;
use vstd::prelude::*;

verus! {

/// Drive strength of a pad.
#[allow(non_camel_case_types)]
#[derive(Clone, Copy, Debug, PartialEq, Eq, Structural)]
pub enum Drive {
    _2mA,
    _4mA,
    _8mA,
    _12mA,
}

/// Slew rate of a pad.
#[derive(Clone, Copy, Debug, PartialEq, Eq, Structural)]
pub enum SlewRate {
    Fast,
    Slow,
}

/// Pull resistor of a pad.
#[derive(Clone, Copy, Debug, PartialEq, Eq, Structural)]
pub enum Pull {
    Off,
    Up,
    Down,
}

/// The code of a drive strength in the pad control register.
pub open spec fn drive_code(strength: Drive) -> u8 {
    match strength {
        Drive::_2mA => 0,
        Drive::_4mA => 1,
        Drive::_8mA => 2,
        Drive::_12mA => 3,
    }
}

/// A pin that belongs to a PIO block.
pub struct PioPin<PIO: PioInstance> {
    pin_bank: u8,
    pio: PhantomData<PIO>,
}

impl<PIO: PioInstance> PioPin<PIO> {
    /// The number of the pin within its bank, plus 32 for the flash interface's bank.
    pub closed spec fn bank(&self) -> u8 {
        self.pin_bank
    }

    pub(crate) fn new(pin_bank: u8) -> (pin: Self)
        ensures
            pin.bank() == pin_bank,
    {
        PioPin { pin_bank, pio: PhantomData }
    }

    /// Sets the pin's drive strength.
    pub fn set_drive_strength<M: Platform>(&mut self, m: &mut M, strength: Drive)
        ensures
            *final(self) == *old(self),
            platform::modified(
                old(m).trace(),
                final(m).trace(),
                memmap::pad_reg(old(self).bank()),
                |v: u32| PadCtrl(v).with_drive(drive_code(strength)).0,
            ),
    {
        let code: u8 = match strength {
            Drive::_2mA => 0,
            Drive::_4mA => 1,
            Drive::_8mA => 2,
            Drive::_12mA => 3,
        };
        let addr: u32 = memmap::pad_address(self.pin_bank);
        let word = PadCtrl(m.read(addr));
        m.write(addr, word.with_drive(code).0);
    }

    /// Sets the pin's slew rate.
    pub fn set_slew_rate<M: Platform>(&mut self, m: &mut M, slew_rate: SlewRate)
        ensures
            *final(self) == *old(self),
            platform::modified(
                old(m).trace(),
                final(m).trace(),
                memmap::pad_reg(old(self).bank()),
                |v: u32| PadCtrl(v).with_slewfast(slew_rate == SlewRate::Fast).0,
            ),
    {
        let addr: u32 = memmap::pad_address(self.pin_bank);
        let word = PadCtrl(m.read(addr));
        m.write(addr, word.with_slewfast(slew_rate == SlewRate::Fast).0);
    }

    /// Sets the pin's pull.
    pub fn set_pull<M: Platform>(&mut self, m: &mut M, pull: Pull)
        ensures
            *final(self) == *old(self),
            platform::modified(
                old(m).trace(),
                final(m).trace(),
                memmap::pad_reg(old(self).bank()),
                |v: u32| PadCtrl(v).with_pue(pull == Pull::Up).with_pde(pull == Pull::Down).0,
            ),
    {
        let addr: u32 = memmap::pad_address(self.pin_bank);
        let word = PadCtrl(m.read(addr));
        m.write(addr, word.with_pue(pull == Pull::Up).with_pde(pull == Pull::Down).0);
    }

    /// Sets the pin's Schmitt trigger.
    pub fn set_schmitt<M: Platform>(&mut self, m: &mut M, enable: bool)
        ensures
            *final(self) == *old(self),
            platform::modified(
                old(m).trace(),
                final(m).trace(),
                memmap::pad_reg(old(self).bank()),
                |v: u32| PadCtrl(v).with_schmitt(enable).0,
            ),
    {
        let addr: u32 = memmap::pad_address(self.pin_bank);
        let word = PadCtrl(m.read(addr));
        m.write(addr, word.with_schmitt(enable).0);
    }

    /// Sets or clears the pin's input synchronizer bypass, and touches no other pin's.
    pub fn set_input_sync_bypass<M: Platform>(&mut self, m: &mut M, bypass: bool)
        ensures
            *final(self) == *old(self),
            platform::stored(
                old(m).trace(),
                final(m).trace(),
                if bypass {
                    memmap::set_alias(memmap::pio_reg(PIO::no(), memmap::INPUT_SYNC_BYPASS))
                } else {
                    memmap::clear_alias(memmap::pio_reg(PIO::no(), memmap::INPUT_SYNC_BYPASS))
                },
                1u32 << (old(self).bank() % 32),
            ),
    {
        proof {
            PIO::lemma_block();
        }
        let mask: u32 = 1u32 << self.pin();
        if bypass {
            m.write(PIO::PIO + memmap::INPUT_SYNC_BYPASS + memmap::SET_ALIAS, mask);
        } else {
            m.write(PIO::PIO + memmap::INPUT_SYNC_BYPASS + memmap::CLEAR_ALIAS, mask);
        }
    }

    /// Returns the number of the pin within its bank.
    pub fn pin(&self) -> (no: u8)
        ensures
            no == self.bank() % 32,
            no < 32,
    {
        self.pin_bank % 32
    }

    /// Returns the number of the pin within its bank, plus 32 for the flash interface's bank.
    pub fn pin_bank(&self) -> (no: u8)
        ensures
            no == self.bank(),
    {
        self.pin_bank
    }
}

/// Whether there is at least one pin, and the pins' numbers count up by one without passing 32.
pub open spec fn consecutive<PIO: PioInstance>(pins: Seq<&PioPin<PIO>>) -> bool {
    &&& pins.len() >= 1
    &&& pins[0].bank() % 32 + pins.len() <= 32
    &&& forall|i: int|
        0 <= i < pins.len() ==> (#[trigger] pins[i]).bank() % 32 == pins[0].bank() % 32 + i
}

/// Returns whether the pins are [`consecutive`].
pub fn are_consecutive<PIO: PioInstance>(pins: &[&PioPin<PIO>]) -> (r: bool)
    ensures
        r == consecutive(pins@),
{
    let count: usize = pins.len();
    if count < 1 {
        return false;
    }
    let start: usize = pins[0].pin() as usize;
    if count > 32 - start {
        return false;
    }
    let mut i: usize = 0;
    while i < count
        invariant
            count == pins@.len(),
            i <= count,
            start == pins@[0].bank() % 32,
            start + count <= 32,
            forall|j: int| 0 <= j < i ==> (#[trigger] pins@[j]).bank() % 32 == start + j,
        decreases count - i,
    {
        if pins[i].pin() as usize != start + i {
            assert(pins@[i as int].bank() % 32 != start + i);
            return false;
        }
        i = i + 1;
    }
    true
}

} // verus!
