//! The words of the registers that the driver reads and changes field by field.

use crate::bits;
use vstd::prelude::*;

verus! {

/// Execution settings of a state machine (EXECCTRL).
#[derive(Clone, Copy, Debug, PartialEq, Eq, Structural)]
pub struct Execctrl(pub u32);

impl Execctrl {
    /// Returns the address that execution returns to after the wrap.
    #[verifier::allow_in_spec]
    pub fn wrap_bottom(self) -> u8
        returns
            bits::field(self.0, 0x80, 32) as u8,
    {
        bits::get_field(self.0, 0x80, 32) as u8
    }

    /// Sets the address that execution returns to after the wrap.
    #[verifier::allow_in_spec]
    pub fn with_wrap_bottom(self, value: u8) -> Self
        returns
            Execctrl(bits::with_field(self.0, 0x80, 32, value as u32)),
    {
        Execctrl(bits::set_field(self.0, 0x80, 32, value as u32))
    }

    /// Returns the address after which execution wraps.
    #[verifier::allow_in_spec]
    pub fn wrap_top(self) -> u8
        returns
            bits::field(self.0, 0x1000, 32) as u8,
    {
        bits::get_field(self.0, 0x1000, 32) as u8
    }

    /// Sets the address after which execution wraps.
    #[verifier::allow_in_spec]
    pub fn with_wrap_top(self, value: u8) -> Self
        returns
            Execctrl(bits::with_field(self.0, 0x1000, 32, value as u32)),
    {
        Execctrl(bits::set_field(self.0, 0x1000, 32, value as u32))
    }

    /// Returns the GPIO that `JMP PIN` tests.
    #[verifier::allow_in_spec]
    pub fn jmp_pin(self) -> u8
        returns
            bits::field(self.0, 0x100_0000, 32) as u8,
    {
        bits::get_field(self.0, 0x100_0000, 32) as u8
    }

    /// Sets the GPIO that `JMP PIN` tests.
    #[verifier::allow_in_spec]
    pub fn with_jmp_pin(self, value: u8) -> Self
        returns
            Execctrl(bits::with_field(self.0, 0x100_0000, 32, value as u32)),
    {
        Execctrl(bits::set_field(self.0, 0x100_0000, 32, value as u32))
    }

    /// Returns whether side-set drives pin directions in place of pin levels.
    #[verifier::allow_in_spec]
    pub fn side_pindir(self) -> bool
        returns
            bits::field(self.0, 0x2000_0000, 2) == 1,
    {
        bits::get_field(self.0, 0x2000_0000, 2) == 1
    }

    /// Sets whether side-set drives pin directions in place of pin levels.
    #[verifier::allow_in_spec]
    pub fn with_side_pindir(self, value: bool) -> Self
        returns
            Execctrl(bits::with_field(self.0, 0x2000_0000, 2, bits::level(value))),
    {
        Execctrl(bits::set_field(self.0, 0x2000_0000, 2, if value { 1 } else { 0 }))
    }

    /// Returns whether the top side-set bit enables side-set per instruction.
    #[verifier::allow_in_spec]
    pub fn side_en(self) -> bool
        returns
            bits::field(self.0, 0x4000_0000, 2) == 1,
    {
        bits::get_field(self.0, 0x4000_0000, 2) == 1
    }

    /// Sets whether the top side-set bit enables side-set per instruction.
    #[verifier::allow_in_spec]
    pub fn with_side_en(self, value: bool) -> Self
        returns
            Execctrl(bits::with_field(self.0, 0x4000_0000, 2, bits::level(value))),
    {
        Execctrl(bits::set_field(self.0, 0x4000_0000, 2, if value { 1 } else { 0 }))
    }
}

/// Shift register settings of a state machine (SHIFTCTRL).
#[derive(Clone, Copy, Debug, PartialEq, Eq, Structural)]
pub struct Shiftctrl(pub u32);

impl Shiftctrl {
    /// Returns whether a full input shift register is pushed on its own.
    #[verifier::allow_in_spec]
    pub fn autopush(self) -> bool
        returns
            bits::field(self.0, 0x1_0000, 2) == 1,
    {
        bits::get_field(self.0, 0x1_0000, 2) == 1
    }

    /// Sets whether a full input shift register is pushed on its own.
    #[verifier::allow_in_spec]
    pub fn with_autopush(self, value: bool) -> Self
        returns
            Shiftctrl(bits::with_field(self.0, 0x1_0000, 2, bits::level(value))),
    {
        Shiftctrl(bits::set_field(self.0, 0x1_0000, 2, if value { 1 } else { 0 }))
    }

    /// Returns whether an empty output shift register is refilled on its own.
    #[verifier::allow_in_spec]
    pub fn autopull(self) -> bool
        returns
            bits::field(self.0, 0x2_0000, 2) == 1,
    {
        bits::get_field(self.0, 0x2_0000, 2) == 1
    }

    /// Sets whether an empty output shift register is refilled on its own.
    #[verifier::allow_in_spec]
    pub fn with_autopull(self, value: bool) -> Self
        returns
            Shiftctrl(bits::with_field(self.0, 0x2_0000, 2, bits::level(value))),
    {
        Shiftctrl(bits::set_field(self.0, 0x2_0000, 2, if value { 1 } else { 0 }))
    }

    /// Returns whether the input shift register shifts right.
    #[verifier::allow_in_spec]
    pub fn in_shiftdir(self) -> bool
        returns
            bits::field(self.0, 0x4_0000, 2) == 1,
    {
        bits::get_field(self.0, 0x4_0000, 2) == 1
    }

    /// Sets whether the input shift register shifts right.
    #[verifier::allow_in_spec]
    pub fn with_in_shiftdir(self, value: bool) -> Self
        returns
            Shiftctrl(bits::with_field(self.0, 0x4_0000, 2, bits::level(value))),
    {
        Shiftctrl(bits::set_field(self.0, 0x4_0000, 2, if value { 1 } else { 0 }))
    }

    /// Returns whether the output shift register shifts right.
    #[verifier::allow_in_spec]
    pub fn out_shiftdir(self) -> bool
        returns
            bits::field(self.0, 0x8_0000, 2) == 1,
    {
        bits::get_field(self.0, 0x8_0000, 2) == 1
    }

    /// Sets whether the output shift register shifts right.
    #[verifier::allow_in_spec]
    pub fn with_out_shiftdir(self, value: bool) -> Self
        returns
            Shiftctrl(bits::with_field(self.0, 0x8_0000, 2, bits::level(value))),
    {
        Shiftctrl(bits::set_field(self.0, 0x8_0000, 2, if value { 1 } else { 0 }))
    }

    /// Returns the number of bits that trigger a push; 0 stands for 32.
    #[verifier::allow_in_spec]
    pub fn push_thresh(self) -> u8
        returns
            bits::field(self.0, 0x10_0000, 32) as u8,
    {
        bits::get_field(self.0, 0x10_0000, 32) as u8
    }

    /// Sets the number of bits that trigger a push; 0 stands for 32.
    #[verifier::allow_in_spec]
    pub fn with_push_thresh(self, value: u8) -> Self
        returns
            Shiftctrl(bits::with_field(self.0, 0x10_0000, 32, value as u32)),
    {
        Shiftctrl(bits::set_field(self.0, 0x10_0000, 32, value as u32))
    }

    /// Returns the number of bits that trigger a pull; 0 stands for 32.
    #[verifier::allow_in_spec]
    pub fn pull_thresh(self) -> u8
        returns
            bits::field(self.0, 0x200_0000, 32) as u8,
    {
        bits::get_field(self.0, 0x200_0000, 32) as u8
    }

    /// Sets the number of bits that trigger a pull; 0 stands for 32.
    #[verifier::allow_in_spec]
    pub fn with_pull_thresh(self, value: u8) -> Self
        returns
            Shiftctrl(bits::with_field(self.0, 0x200_0000, 32, value as u32)),
    {
        Shiftctrl(bits::set_field(self.0, 0x200_0000, 32, value as u32))
    }

    /// Returns whether the TX FIFO takes the storage of both.
    #[verifier::allow_in_spec]
    pub fn fjoin_tx(self) -> bool
        returns
            bits::field(self.0, 0x4000_0000, 2) == 1,
    {
        bits::get_field(self.0, 0x4000_0000, 2) == 1
    }

    /// Sets whether the TX FIFO takes the storage of both.
    #[verifier::allow_in_spec]
    pub fn with_fjoin_tx(self, value: bool) -> Self
        returns
            Shiftctrl(bits::with_field(self.0, 0x4000_0000, 2, bits::level(value))),
    {
        Shiftctrl(bits::set_field(self.0, 0x4000_0000, 2, if value { 1 } else { 0 }))
    }

    /// Returns whether the RX FIFO takes the storage of both.
    #[verifier::allow_in_spec]
    pub fn fjoin_rx(self) -> bool
        returns
            bits::field(self.0, 0x8000_0000, 2) == 1,
    {
        bits::get_field(self.0, 0x8000_0000, 2) == 1
    }

    /// Sets whether the RX FIFO takes the storage of both.
    #[verifier::allow_in_spec]
    pub fn with_fjoin_rx(self, value: bool) -> Self
        returns
            Shiftctrl(bits::with_field(self.0, 0x8000_0000, 2, bits::level(value))),
    {
        Shiftctrl(bits::set_field(self.0, 0x8000_0000, 2, if value { 1 } else { 0 }))
    }
}

/// Pin mapping of a state machine (PINCTRL).
#[derive(Clone, Copy, Debug, PartialEq, Eq, Structural)]
pub struct Pinctrl(pub u32);

impl Pinctrl {
    /// Returns the first pin of `OUT PINS`.
    #[verifier::allow_in_spec]
    pub fn out_base(self) -> u8
        returns
            bits::field(self.0, 1, 32) as u8,
    {
        bits::get_field(self.0, 1, 32) as u8
    }

    /// Sets the first pin of `OUT PINS`.
    #[verifier::allow_in_spec]
    pub fn with_out_base(self, value: u8) -> Self
        returns
            Pinctrl(bits::with_field(self.0, 1, 32, value as u32)),
    {
        Pinctrl(bits::set_field(self.0, 1, 32, value as u32))
    }

    /// Returns the first pin of `SET PINS`.
    #[verifier::allow_in_spec]
    pub fn set_base(self) -> u8
        returns
            bits::field(self.0, 0x20, 32) as u8,
    {
        bits::get_field(self.0, 0x20, 32) as u8
    }

    /// Sets the first pin of `SET PINS`.
    #[verifier::allow_in_spec]
    pub fn with_set_base(self, value: u8) -> Self
        returns
            Pinctrl(bits::with_field(self.0, 0x20, 32, value as u32)),
    {
        Pinctrl(bits::set_field(self.0, 0x20, 32, value as u32))
    }

    /// Returns the first side-set pin.
    #[verifier::allow_in_spec]
    pub fn sideset_base(self) -> u8
        returns
            bits::field(self.0, 0x400, 32) as u8,
    {
        bits::get_field(self.0, 0x400, 32) as u8
    }

    /// Sets the first side-set pin.
    #[verifier::allow_in_spec]
    pub fn with_sideset_base(self, value: u8) -> Self
        returns
            Pinctrl(bits::with_field(self.0, 0x400, 32, value as u32)),
    {
        Pinctrl(bits::set_field(self.0, 0x400, 32, value as u32))
    }

    /// Returns the first pin of `IN PINS`.
    #[verifier::allow_in_spec]
    pub fn in_base(self) -> u8
        returns
            bits::field(self.0, 0x8000, 32) as u8,
    {
        bits::get_field(self.0, 0x8000, 32) as u8
    }

    /// Sets the first pin of `IN PINS`.
    #[verifier::allow_in_spec]
    pub fn with_in_base(self, value: u8) -> Self
        returns
            Pinctrl(bits::with_field(self.0, 0x8000, 32, value as u32)),
    {
        Pinctrl(bits::set_field(self.0, 0x8000, 32, value as u32))
    }

    /// Returns the number of pins of `OUT PINS`.
    #[verifier::allow_in_spec]
    pub fn out_count(self) -> u8
        returns
            bits::field(self.0, 0x10_0000, 64) as u8,
    {
        bits::get_field(self.0, 0x10_0000, 64) as u8
    }

    /// Sets the number of pins of `OUT PINS`.
    #[verifier::allow_in_spec]
    pub fn with_out_count(self, value: u8) -> Self
        returns
            Pinctrl(bits::with_field(self.0, 0x10_0000, 64, value as u32)),
    {
        Pinctrl(bits::set_field(self.0, 0x10_0000, 64, value as u32))
    }

    /// Returns the number of pins of `SET PINS`.
    #[verifier::allow_in_spec]
    pub fn set_count(self) -> u8
        returns
            bits::field(self.0, 0x400_0000, 8) as u8,
    {
        bits::get_field(self.0, 0x400_0000, 8) as u8
    }

    /// Sets the number of pins of `SET PINS`.
    #[verifier::allow_in_spec]
    pub fn with_set_count(self, value: u8) -> Self
        returns
            Pinctrl(bits::with_field(self.0, 0x400_0000, 8, value as u32)),
    {
        Pinctrl(bits::set_field(self.0, 0x400_0000, 8, value as u32))
    }

    /// Returns the number of side-set bits.
    #[verifier::allow_in_spec]
    pub fn sideset_count(self) -> u8
        returns
            bits::field(self.0, 0x2000_0000, 8) as u8,
    {
        bits::get_field(self.0, 0x2000_0000, 8) as u8
    }

    /// Sets the number of side-set bits.
    #[verifier::allow_in_spec]
    pub fn with_sideset_count(self, value: u8) -> Self
        returns
            Pinctrl(bits::with_field(self.0, 0x2000_0000, 8, value as u32)),
    {
        Pinctrl(bits::set_field(self.0, 0x2000_0000, 8, value as u32))
    }
}

/// Electrical settings of a pad.
#[derive(Clone, Copy, Debug, PartialEq, Eq, Structural)]
pub struct PadCtrl(pub u32);

impl PadCtrl {
    /// Returns whether the slew rate is fast.
    #[verifier::allow_in_spec]
    pub fn slewfast(self) -> bool
        returns
            bits::field(self.0, 1, 2) == 1,
    {
        bits::get_field(self.0, 1, 2) == 1
    }

    /// Sets whether the slew rate is fast.
    #[verifier::allow_in_spec]
    pub fn with_slewfast(self, value: bool) -> Self
        returns
            PadCtrl(bits::with_field(self.0, 1, 2, bits::level(value))),
    {
        PadCtrl(bits::set_field(self.0, 1, 2, if value { 1 } else { 0 }))
    }

    /// Returns whether the Schmitt trigger is on.
    #[verifier::allow_in_spec]
    pub fn schmitt(self) -> bool
        returns
            bits::field(self.0, 2, 2) == 1,
    {
        bits::get_field(self.0, 2, 2) == 1
    }

    /// Sets whether the Schmitt trigger is on.
    #[verifier::allow_in_spec]
    pub fn with_schmitt(self, value: bool) -> Self
        returns
            PadCtrl(bits::with_field(self.0, 2, 2, bits::level(value))),
    {
        PadCtrl(bits::set_field(self.0, 2, 2, if value { 1 } else { 0 }))
    }

    /// Returns whether the pull-down is on.
    #[verifier::allow_in_spec]
    pub fn pde(self) -> bool
        returns
            bits::field(self.0, 4, 2) == 1,
    {
        bits::get_field(self.0, 4, 2) == 1
    }

    /// Sets whether the pull-down is on.
    #[verifier::allow_in_spec]
    pub fn with_pde(self, value: bool) -> Self
        returns
            PadCtrl(bits::with_field(self.0, 4, 2, bits::level(value))),
    {
        PadCtrl(bits::set_field(self.0, 4, 2, if value { 1 } else { 0 }))
    }

    /// Returns whether the pull-up is on.
    #[verifier::allow_in_spec]
    pub fn pue(self) -> bool
        returns
            bits::field(self.0, 8, 2) == 1,
    {
        bits::get_field(self.0, 8, 2) == 1
    }

    /// Sets whether the pull-up is on.
    #[verifier::allow_in_spec]
    pub fn with_pue(self, value: bool) -> Self
        returns
            PadCtrl(bits::with_field(self.0, 8, 2, bits::level(value))),
    {
        PadCtrl(bits::set_field(self.0, 8, 2, if value { 1 } else { 0 }))
    }

    /// Returns the drive strength code.
    #[verifier::allow_in_spec]
    pub fn drive(self) -> u8
        returns
            bits::field(self.0, 0x10, 4) as u8,
    {
        bits::get_field(self.0, 0x10, 4) as u8
    }

    /// Sets the drive strength code.
    #[verifier::allow_in_spec]
    pub fn with_drive(self, value: u8) -> Self
        returns
            PadCtrl(bits::with_field(self.0, 0x10, 4, value as u32)),
    {
        PadCtrl(bits::set_field(self.0, 0x10, 4, value as u32))
    }
}

/// Control word of a DMA channel (CTRL_TRIG).
#[derive(Clone, Copy, Debug, PartialEq, Eq, Structural)]
pub struct DmaCtrl(pub u32);

impl DmaCtrl {
    /// Returns whether the channel responds to triggers.
    #[verifier::allow_in_spec]
    pub fn en(self) -> bool
        returns
            bits::field(self.0, 1, 2) == 1,
    {
        bits::get_field(self.0, 1, 2) == 1
    }

    /// Sets whether the channel responds to triggers.
    #[verifier::allow_in_spec]
    pub fn with_en(self, value: bool) -> Self
        returns
            DmaCtrl(bits::with_field(self.0, 1, 2, bits::level(value))),
    {
        DmaCtrl(bits::set_field(self.0, 1, 2, if value { 1 } else { 0 }))
    }

    /// Returns the code of the transfer size.
    #[verifier::allow_in_spec]
    pub fn data_size(self) -> u8
        returns
            bits::field(self.0, 4, 4) as u8,
    {
        bits::get_field(self.0, 4, 4) as u8
    }

    /// Sets the code of the transfer size.
    #[verifier::allow_in_spec]
    pub fn with_data_size(self, value: u8) -> Self
        returns
            DmaCtrl(bits::with_field(self.0, 4, 4, value as u32)),
    {
        DmaCtrl(bits::set_field(self.0, 4, 4, value as u32))
    }

    /// Returns whether the read address advances.
    #[verifier::allow_in_spec]
    pub fn incr_read(self) -> bool
        returns
            bits::field(self.0, 0x10, 2) == 1,
    {
        bits::get_field(self.0, 0x10, 2) == 1
    }

    /// Sets whether the read address advances.
    #[verifier::allow_in_spec]
    pub fn with_incr_read(self, value: bool) -> Self
        returns
            DmaCtrl(bits::with_field(self.0, 0x10, 2, bits::level(value))),
    {
        DmaCtrl(bits::set_field(self.0, 0x10, 2, if value { 1 } else { 0 }))
    }

    /// Returns whether the write address advances.
    #[verifier::allow_in_spec]
    pub fn incr_write(self) -> bool
        returns
            bits::field(self.0, 0x20, 2) == 1,
    {
        bits::get_field(self.0, 0x20, 2) == 1
    }

    /// Sets whether the write address advances.
    #[verifier::allow_in_spec]
    pub fn with_incr_write(self, value: bool) -> Self
        returns
            DmaCtrl(bits::with_field(self.0, 0x20, 2, bits::level(value))),
    {
        DmaCtrl(bits::set_field(self.0, 0x20, 2, if value { 1 } else { 0 }))
    }

    /// Returns the channel to trigger on completion; itself for none.
    #[verifier::allow_in_spec]
    pub fn chain_to(self) -> u8
        returns
            bits::field(self.0, 0x800, 16) as u8,
    {
        bits::get_field(self.0, 0x800, 16) as u8
    }

    /// Sets the channel to trigger on completion; itself for none.
    #[verifier::allow_in_spec]
    pub fn with_chain_to(self, value: u8) -> Self
        returns
            DmaCtrl(bits::with_field(self.0, 0x800, 16, value as u32)),
    {
        DmaCtrl(bits::set_field(self.0, 0x800, 16, value as u32))
    }

    /// Returns the request signal that paces the transfers.
    #[verifier::allow_in_spec]
    pub fn treq_sel(self) -> u8
        returns
            bits::field(self.0, 0x8000, 64) as u8,
    {
        bits::get_field(self.0, 0x8000, 64) as u8
    }

    /// Sets the request signal that paces the transfers.
    #[verifier::allow_in_spec]
    pub fn with_treq_sel(self, value: u8) -> Self
        returns
            DmaCtrl(bits::with_field(self.0, 0x8000, 64, value as u32)),
    {
        DmaCtrl(bits::set_field(self.0, 0x8000, 64, value as u32))
    }
}

} // verus!
