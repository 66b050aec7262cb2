//! Where the registers are.

use vstd::prelude::*;

verus! {

/// First address of PIO block 0.
pub const PIO0_BASE: u32 = 0x5020_0000;

/// First address of PIO block 1.
pub const PIO1_BASE: u32 = 0x5030_0000;

/// Enable and restart bits of the state machines.
pub const CTRL: u32 = 0x00;

/// Full and empty flags of the FIFOs.
pub const FSTAT: u32 = 0x04;

/// Sticky FIFO error flags; writing a one clears the flag.
pub const FDEBUG: u32 = 0x08;

/// Fill levels of the FIFOs.
pub const FLEVEL: u32 = 0x0c;

/// TX FIFO of state machine 0; those of the others follow, one word each.
pub const TXF: u32 = 0x10;

/// RX FIFO of state machine 0; those of the others follow, one word each.
pub const RXF: u32 = 0x20;

/// State machine IRQ flags; writing a one clears the flag.
pub const IRQ: u32 = 0x30;

/// Writing a one raises the IRQ flag.
pub const IRQ_FORCE: u32 = 0x34;

/// One bit per GPIO: whether its input synchronizer is bypassed.
pub const INPUT_SYNC_BYPASS: u32 = 0x38;

/// Instruction memory, 32 words.
pub const INSTR_MEM: u32 = 0x48;

/// First of the enable bits of the state machines in [`CTRL`].
pub const CTRL_SM_ENABLE: u32 = 0;

/// First of the restart bits of the state machines in [`CTRL`].
pub const CTRL_SM_RESTART: u32 = 4;

/// First of the restart bits of the clock dividers in [`CTRL`].
pub const CTRL_CLKDIV_RESTART: u32 = 8;

/// First of the "RX FIFO full" bits in [`FSTAT`].
pub const FSTAT_RXFULL: u32 = 0;

/// First of the "RX FIFO empty" bits in [`FSTAT`].
pub const FSTAT_RXEMPTY: u32 = 8;

/// First of the "TX FIFO full" bits in [`FSTAT`].
pub const FSTAT_TXFULL: u32 = 16;

/// First of the "TX FIFO empty" bits in [`FSTAT`].
pub const FSTAT_TXEMPTY: u32 = 24;

/// First of the "stalled on a full RX FIFO" bits in [`FDEBUG`].
pub const FDEBUG_RXSTALL: u32 = 0;

/// First of the "read from an empty RX FIFO" bits in [`FDEBUG`].
pub const FDEBUG_RXUNDER: u32 = 8;

/// First of the "write to a full TX FIFO" bits in [`FDEBUG`].
pub const FDEBUG_TXOVER: u32 = 16;

/// First of the "stalled on an empty TX FIFO" bits in [`FDEBUG`].
pub const FDEBUG_TXSTALL: u32 = 24;

/// Interrupt enables of interrupt line 0.
pub const IRQ0_INTE: u32 = 0x12c;

/// Interrupt status of interrupt line 0, after masking.
pub const IRQ0_INTS: u32 = 0x134;

/// Clock divisor of a state machine.
pub const CLKDIV: u32 = 0x00;

/// Execution settings of a state machine.
pub const EXECCTRL: u32 = 0x04;

/// Shift register settings of a state machine.
pub const SHIFTCTRL: u32 = 0x08;

/// Program counter of a state machine.
pub const ADDR: u32 = 0x0c;

/// Instruction that a state machine executes; a write executes the instruction written.
pub const INSTR: u32 = 0x10;

/// Pin mapping of a state machine.
pub const PINCTRL: u32 = 0x14;

/// Writing here sets the bits of the register that are ones in the word written.
pub const SET_ALIAS: u32 = 0x2000;

/// Writing here clears the bits of the register that are ones in the word written.
pub const CLEAR_ALIAS: u32 = 0x3000;

/// First address of a PIO block.
pub open spec fn base(pio: u8) -> u32 {
    if pio == 0 {
        PIO0_BASE
    } else {
        PIO1_BASE
    }
}

/// The address of a register of a PIO block.
pub open spec fn pio_reg(pio: u8, offset: u32) -> u32 {
    (base(pio) + offset) as u32
}

/// The address of a register of state machine `sm`: the blocks of the state machines are 24 bytes
/// apart.
pub open spec fn sm_reg(pio: u8, sm: usize, offset: u32) -> u32 {
    (base(pio) + 0xc8 + 0x18 * sm + offset) as u32
}

/// The address at which a write sets bits of the register at `addr`.
pub open spec fn set_alias(addr: u32) -> u32 {
    (addr + SET_ALIAS) as u32
}

/// The address at which a write clears bits of the register at `addr`.
pub open spec fn clear_alias(addr: u32) -> u32 {
    (addr + CLEAR_ALIAS) as u32
}

/// Whether a pin number belongs to the main GPIO bank, and not to the flash interface's.
pub open spec fn in_bank0(pin_bank: u8) -> bool {
    (pin_bank / 32) % 2 == 0
}

/// The address of the pad control register of a pin.
pub open spec fn pad_reg(pin_bank: u8) -> u32 {
    ((if in_bank0(pin_bank) {
        0x4001_c000int
    } else {
        0x4002_0000
    }) + 4 + 4 * (pin_bank % 32)) as u32
}

/// The address of the function select register of a pin.
pub open spec fn io_ctrl_reg(pin_bank: u8) -> u32 {
    ((if in_bank0(pin_bank) {
        0x4001_4000int
    } else {
        0x4001_8000
    }) + 8 * (pin_bank % 32) + 4) as u32
}

/// The address of word `index` of the registers of a DMA channel: read address, write address,
/// transfer count, control.
pub open spec fn dma_reg(channel: u8, index: int) -> u32 {
    (0x5000_0000 + 0x40 * channel + 4 * index) as u32
}

/// Computes [`pad_reg`].
pub fn pad_address(pin_bank: u8) -> (addr: u32)
    ensures
        addr == pad_reg(pin_bank),
{
    let base: u32 = if (pin_bank / 32) % 2 == 0 {
        0x4001_c000
    } else {
        0x4002_0000
    };
    base + 4 + 4 * ((pin_bank % 32) as u32)
}

/// Computes [`io_ctrl_reg`].
pub fn io_ctrl_address(pin_bank: u8) -> (addr: u32)
    ensures
        addr == io_ctrl_reg(pin_bank),
{
    let base: u32 = if (pin_bank / 32) % 2 == 0 {
        0x4001_4000
    } else {
        0x4001_8000
    };
    base + 8 * ((pin_bank % 32) as u32) + 4
}

} // verus!
