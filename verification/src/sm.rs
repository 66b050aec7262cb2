//! State machines.

use crate::bits;
use crate::futures::{FifoInFuture, FifoOutFuture, IrqFuture};
use crate::instance::PioInstance;
use crate::memmap;
use crate::pin::PioPin;
use crate::platform;
use crate::platform::{Event, Platform};
use crate::regs::{DmaCtrl, Execctrl, Pinctrl, Shiftctrl};
use crate::sealed;
use crate::sealed::PioInstance as _;
use core::marker::PhantomData;
use vstd::prelude::*;

verus! {

/// How the FIFO storage of a state machine is divided.
#[derive(Clone, Copy, Debug, PartialEq, Eq, Structural)]
pub enum FifoJoin {
    /// Both the TX and the RX FIFO are enabled.
    Duplex,
    /// The RX FIFO is twice as deep, the TX FIFO is disabled.
    RxOnly,
    /// The TX FIFO is twice as deep, the RX FIFO is disabled.
    TxOnly,
}

/// Which way a shift register shifts.
#[derive(Clone, Copy, Debug, PartialEq, Eq, Structural)]
pub enum ShiftDirection {
    Right,
    Left,
}

/// The size of the words that a DMA channel moves.
#[derive(Clone, Copy, Debug, PartialEq, Eq, Structural)]
pub enum DataSize {
    Byte,
    HalfWord,
    Word,
}

/// The code of a word size in the control word of a DMA channel.
pub open spec fn data_size_code(size: DataSize) -> u8 {
    match size {
        DataSize::Byte => 0,
        DataSize::HalfWord => 1,
        DataSize::Word => 2,
    }
}

/// `shiftctrl` with the FIFO storage divided as `join` says.
pub open spec fn with_fifo_join(shiftctrl: u32, join: FifoJoin) -> u32 {
    Shiftctrl(shiftctrl).with_fjoin_rx(join == FifoJoin::RxOnly).with_fjoin_tx(
        join == FifoJoin::TxOnly,
    ).0
}

/// How `shiftctrl` divides the FIFO storage. Both join bits set is not a valid state; it counts as
/// joined for RX.
pub open spec fn fifo_join(shiftctrl: u32) -> FifoJoin {
    if Shiftctrl(shiftctrl).fjoin_rx() {
        FifoJoin::RxOnly
    } else if Shiftctrl(shiftctrl).fjoin_tx() {
        FifoJoin::TxOnly
    } else {
        FifoJoin::Duplex
    }
}

/// `shiftctrl` with the RX join bit inverted.
pub open spec fn toggle_fjoin_rx(shiftctrl: u32) -> u32 {
    Shiftctrl(shiftctrl).with_fjoin_rx(!Shiftctrl(shiftctrl).fjoin_rx()).0
}

/// The direction that a shift direction bit stands for.
pub open spec fn direction(right: bool) -> ShiftDirection {
    if right {
        ShiftDirection::Right
    } else {
        ShiftDirection::Left
    }
}

/// Hexadecimal digit `k` of `word`, counted from the least significant one.
pub open spec fn nibble(word: u32, k: u32) -> u8 {
    ((word >> (4 * k) as u32) & 0x0f) as u8
}

/// The control word that starts a DMA channel which moves words of `size` between memory and a
/// FIFO, paced by request `treq`, the address on one side advancing.
pub open spec fn dma_ctrl(treq: u8, size: DataSize, channel: u8, from_memory: bool) -> u32 {
    DmaCtrl(0).with_treq_sel(treq).with_data_size(data_size_code(size)).with_chain_to(
        channel,
    ).with_incr_read(from_memory).with_incr_write(!from_memory).with_en(true).0
}

/// The address of a register of the block of state machine `S`.
pub open spec fn block_reg<S: sealed::PioStateMachine>(offset: u32) -> u32 {
    memmap::pio_reg(S::Pio::no(), offset)
}

/// The address of a register of state machine `S`.
pub open spec fn own_reg<S: sealed::PioStateMachine>(offset: u32) -> u32 {
    memmap::sm_reg(S::Pio::no(), S::index(), offset)
}

/// The address of the TX FIFO of state machine `S`.
pub open spec fn tx_fifo<S: sealed::PioStateMachine>() -> u32 {
    block_reg::<S>((memmap::TXF + 4 * S::index()) as u32)
}

/// The address of the RX FIFO of state machine `S`.
pub open spec fn rx_fifo<S: sealed::PioStateMachine>() -> u32 {
    block_reg::<S>((memmap::RXF + 4 * S::index()) as u32)
}

/// The bit of state machine `S` in a register that has one bit per state machine from bit `first`
/// on.
pub open spec fn own_bit<S: sealed::PioStateMachine>(first: u32) -> u32 {
    (first + S::index()) as u32
}

fn block_address<S: sealed::PioStateMachine>(offset: u32) -> (addr: u32)
    requires
        offset < 0x4000,
    ensures
        addr == block_reg::<S>(offset),
{
    proof {
        S::Pio::lemma_block();
    }
    S::Pio::PIO + offset
}

fn own_address<S: sealed::PioStateMachine>(offset: u32) -> (addr: u32)
    requires
        offset < 0x18,
    ensures
        addr == own_reg::<S>(offset),
{
    proof {
        S::Pio::lemma_block();
        S::lemma_sm();
    }
    S::this_sm() + offset
}

fn own_bit_number<S: sealed::PioStateMachine>(first: u32) -> (bit: u32)
    requires
        first < 28,
    ensures
        bit == own_bit::<S>(first),
        bit < 32,
{
    proof {
        S::lemma_sm();
    }
    first + S::SM as u32
}

/// A state machine.
pub trait PioStateMachine: sealed::PioStateMachine + Sized {
    /// Returns the number of the block.
    fn pio_no(&self) -> (no: u8)
        ensures
            no == Self::Pio::no(),
    ;

    /// Returns the number of the state machine.
    fn sm_no(&self) -> (no: u8)
        ensures
            no == Self::index(),
    ;

    /// Restarts the state machine: clears its internal state.
    fn restart<M: Platform>(&mut self, m: &mut M)
        ensures
            *final(self) == *old(self),
            platform::stored(
                old(m).trace(),
                final(m).trace(),
                memmap::set_alias(block_reg::<Self>(memmap::CTRL)),
                1u32 << own_bit::<Self>(memmap::CTRL_SM_RESTART),
            ),
    ;

    /// Starts or stops the state machine.
    fn set_enable<M: Platform>(&mut self, m: &mut M, enable: bool)
        ensures
            *final(self) == *old(self),
            platform::stored(
                old(m).trace(),
                final(m).trace(),
                if enable {
                    memmap::set_alias(block_reg::<Self>(memmap::CTRL))
                } else {
                    memmap::clear_alias(block_reg::<Self>(memmap::CTRL))
                },
                1u32 << own_bit::<Self>(memmap::CTRL_SM_ENABLE),
            ),
    ;

    /// Returns whether the state machine is started.
    fn is_enabled<M: Platform>(&self, m: &mut M) -> (r: bool)
        ensures
            platform::loaded(old(m).trace(), final(m).trace(), block_reg::<Self>(memmap::CTRL)),
            r == bits::bit(
                platform::last_read(final(m).trace()),
                own_bit::<Self>(memmap::CTRL_SM_ENABLE),
            ),
    ;

    /// Returns whether the TX FIFO is empty.
    fn is_tx_empty<M: Platform>(&self, m: &mut M) -> (r: bool)
        ensures
            platform::loaded(old(m).trace(), final(m).trace(), block_reg::<Self>(memmap::FSTAT)),
            r == bits::bit(
                platform::last_read(final(m).trace()),
                own_bit::<Self>(memmap::FSTAT_TXEMPTY),
            ),
    ;

    /// Returns whether the TX FIFO is full.
    fn is_tx_full<M: Platform>(&self, m: &mut M) -> (r: bool)
        ensures
            platform::loaded(old(m).trace(), final(m).trace(), block_reg::<Self>(memmap::FSTAT)),
            r == bits::bit(
                platform::last_read(final(m).trace()),
                own_bit::<Self>(memmap::FSTAT_TXFULL),
            ),
    ;

    /// Returns whether the RX FIFO is empty.
    fn is_rx_empty<M: Platform>(&self, m: &mut M) -> (r: bool)
        ensures
            platform::loaded(old(m).trace(), final(m).trace(), block_reg::<Self>(memmap::FSTAT)),
            r == bits::bit(
                platform::last_read(final(m).trace()),
                own_bit::<Self>(memmap::FSTAT_RXEMPTY),
            ),
    ;

    /// Returns whether the RX FIFO is full.
    fn is_rx_full<M: Platform>(&self, m: &mut M) -> (r: bool)
        ensures
            platform::loaded(old(m).trace(), final(m).trace(), block_reg::<Self>(memmap::FSTAT)),
            r == bits::bit(
                platform::last_read(final(m).trace()),
                own_bit::<Self>(memmap::FSTAT_RXFULL),
            ),
    ;

    /// Returns the number of words in the TX FIFO.
    fn tx_level<M: Platform>(&self, m: &mut M) -> (r: u8)
        ensures
            platform::loaded(old(m).trace(), final(m).trace(), block_reg::<Self>(memmap::FLEVEL)),
            r == nibble(platform::last_read(final(m).trace()), (2 * Self::index()) as u32),
    ;

    /// Returns the number of words in the RX FIFO.
    fn rx_level<M: Platform>(&self, m: &mut M) -> (r: u8)
        ensures
            platform::loaded(old(m).trace(), final(m).trace(), block_reg::<Self>(memmap::FLEVEL)),
            r == nibble(platform::last_read(final(m).trace()), (2 * Self::index() + 1) as u32),
    ;

    /// Puts a word into the TX FIFO without looking whether there is room.
    fn push_tx<M: Platform>(&mut self, m: &mut M, v: u32)
        ensures
            *final(self) == *old(self),
            platform::stored(old(m).trace(), final(m).trace(), tx_fifo::<Self>(), v),
    ;

    /// Puts a word into the TX FIFO if there is room, and returns whether there was.
    fn try_push_tx<M: Platform>(&mut self, m: &mut M, v: u32) -> (pushed: bool)
        ensures
            *final(self) == *old(self),
            try_pushed::<Self>(old(m).trace(), final(m).trace(), v, pushed),
    ;

    /// Takes a word out of the RX FIFO without looking whether there is one.
    fn pull_rx<M: Platform>(&mut self, m: &mut M) -> (v: u32)
        ensures
            *final(self) == *old(self),
            platform::loaded(old(m).trace(), final(m).trace(), rx_fifo::<Self>()),
            v == platform::last_read(final(m).trace()),
    ;

    /// Takes a word out of the RX FIFO if there is one.
    fn try_pull_rx<M: Platform>(&mut self, m: &mut M) -> (pulled: Option<u32>)
        ensures
            *final(self) == *old(self),
            try_pulled::<Self>(old(m).trace(), final(m).trace(), pulled),
    ;

    /// Sets the clock divisor, in units of 1/256. Bits above the low 24 are dropped.
    fn set_clkdiv<M: Platform>(&mut self, m: &mut M, div_x_256: u32)
        ensures
            *final(self) == *old(self),
            platform::stored(
                old(m).trace(),
                final(m).trace(),
                own_reg::<Self>(memmap::CLKDIV),
                ((div_x_256 % 0x100_0000) * 0x100) as u32,
            ),
    ;

    /// Returns the clock divisor, in units of 1/256.
    fn get_clkdiv<M: Platform>(&self, m: &mut M) -> (r: u32)
        ensures
            platform::loaded(old(m).trace(), final(m).trace(), own_reg::<Self>(memmap::CLKDIV)),
            r == platform::last_read(final(m).trace()) / 0x100,
    ;

    /// Restarts the clock divider of the state machine.
    fn clkdiv_restart<M: Platform>(&mut self, m: &mut M)
        ensures
            *final(self) == *old(self),
            platform::stored(
                old(m).trace(),
                final(m).trace(),
                memmap::set_alias(block_reg::<Self>(memmap::CTRL)),
                1u32 << own_bit::<Self>(memmap::CTRL_CLKDIV_RESTART),
            ),
    ;

    /// Sets whether side-set is optional per instruction.
    fn set_side_enable<M: Platform>(&self, m: &mut M, enable: bool)
        ensures
            platform::modified(
                old(m).trace(),
                final(m).trace(),
                own_reg::<Self>(memmap::EXECCTRL),
                |v: u32| Execctrl(v).with_side_en(enable).0,
            ),
    ;

    /// Returns whether side-set is optional per instruction.
    fn is_side_enabled<M: Platform>(&self, m: &mut M) -> (r: bool)
        ensures
            platform::loaded(old(m).trace(), final(m).trace(), own_reg::<Self>(memmap::EXECCTRL)),
            r == Execctrl(platform::last_read(final(m).trace())).side_en(),
    ;

    /// Sets whether side-set drives pin directions.
    fn set_side_pindir<M: Platform>(&mut self, m: &mut M, pindir: bool)
        ensures
            *final(self) == *old(self),
            platform::modified(
                old(m).trace(),
                final(m).trace(),
                own_reg::<Self>(memmap::EXECCTRL),
                |v: u32| Execctrl(v).with_side_pindir(pindir).0,
            ),
    ;

    /// Returns whether side-set drives pin directions.
    fn is_side_pindir<M: Platform>(&self, m: &mut M) -> (r: bool)
        ensures
            platform::loaded(old(m).trace(), final(m).trace(), own_reg::<Self>(memmap::EXECCTRL)),
            r == Execctrl(platform::last_read(final(m).trace())).side_pindir(),
    ;

    /// Sets the pin that `JMP PIN` tests.
    fn set_jmp_pin<M: Platform>(&mut self, m: &mut M, pin: u8)
        ensures
            *final(self) == *old(self),
            platform::modified(
                old(m).trace(),
                final(m).trace(),
                own_reg::<Self>(memmap::EXECCTRL),
                |v: u32| Execctrl(v).with_jmp_pin(pin).0,
            ),
    ;

    /// Returns the pin that `JMP PIN` tests.
    fn get_jmp_pin<M: Platform>(&mut self, m: &mut M) -> (r: u8)
        ensures
            *final(self) == *old(self),
            platform::loaded(old(m).trace(), final(m).trace(), own_reg::<Self>(memmap::EXECCTRL)),
            r == Execctrl(platform::last_read(final(m).trace())).jmp_pin(),
    ;

    /// Sets the wrap addresses: after `source`, execution goes on at `target`.
    fn set_wrap<M: Platform>(&self, m: &mut M, source: u8, target: u8)
        ensures
            platform::modified(
                old(m).trace(),
                final(m).trace(),
                own_reg::<Self>(memmap::EXECCTRL),
                |v: u32| Execctrl(v).with_wrap_top(source).with_wrap_bottom(target).0,
            ),
    ;

    /// Returns the wrap addresses: source, then target.
    fn get_wrap<M: Platform>(&self, m: &mut M) -> (r: (u8, u8))
        ensures
            platform::loaded(old(m).trace(), final(m).trace(), own_reg::<Self>(memmap::EXECCTRL)),
            r.0 == Execctrl(platform::last_read(final(m).trace())).wrap_top(),
            r.1 == Execctrl(platform::last_read(final(m).trace())).wrap_bottom(),
    ;

    /// Sets how the FIFO storage is divided.
    fn set_fifo_join<M: Platform>(&mut self, m: &mut M, join: FifoJoin)
        ensures
            *final(self) == *old(self),
            platform::modified(
                old(m).trace(),
                final(m).trace(),
                own_reg::<Self>(memmap::SHIFTCTRL),
                |v: u32| with_fifo_join(v, join),
            ),
    ;

    /// Returns how the FIFO storage is divided.
    fn get_fifo_join<M: Platform>(&self, m: &mut M) -> (r: FifoJoin)
        ensures
            platform::loaded(old(m).trace(), final(m).trace(), own_reg::<Self>(memmap::SHIFTCTRL)),
            r == fifo_join(platform::last_read(final(m).trace())),
    ;

    /// Empties both FIFOs, by inverting the RX join bit twice.
    fn clear_fifos<M: Platform>(&mut self, m: &mut M)
        ensures
            *final(self) == *old(self),
            ({
                let addr = own_reg::<Self>(memmap::SHIFTCTRL);
                let first = platform::nth_read(final(m).trace(), old(m).trace().len() as int);
                let second = platform::nth_read(final(m).trace(), old(m).trace().len() as int + 2);
                final(m).trace() == old(m).trace().push(Event::Read { addr, value: first }).push(
                    Event::Write { addr, value: toggle_fjoin_rx(first) },
                ).push(Event::Read { addr, value: second }).push(
                    Event::Write { addr, value: toggle_fjoin_rx(second) },
                )
            }),
    ;

    /// Sets the number of bits that trigger a pull; 32 is written as 0.
    fn set_pull_threshold<M: Platform>(&mut self, m: &mut M, threshold: u8)
        ensures
            *final(self) == *old(self),
            platform::modified(
                old(m).trace(),
                final(m).trace(),
                own_reg::<Self>(memmap::SHIFTCTRL),
                |v: u32| Shiftctrl(v).with_pull_thresh(threshold).0,
            ),
    ;

    /// Returns the number of bits that trigger a pull; 0 stands for 32.
    fn get_pull_threshold<M: Platform>(&self, m: &mut M) -> (r: u8)
        ensures
            platform::loaded(old(m).trace(), final(m).trace(), own_reg::<Self>(memmap::SHIFTCTRL)),
            r == Shiftctrl(platform::last_read(final(m).trace())).pull_thresh(),
    ;

    /// Sets the number of bits that trigger a push; 32 is written as 0.
    fn set_push_threshold<M: Platform>(&mut self, m: &mut M, threshold: u8)
        ensures
            *final(self) == *old(self),
            platform::modified(
                old(m).trace(),
                final(m).trace(),
                own_reg::<Self>(memmap::SHIFTCTRL),
                |v: u32| Shiftctrl(v).with_push_thresh(threshold).0,
            ),
    ;

    /// Returns the number of bits that trigger a push; 0 stands for 32.
    fn get_push_threshold<M: Platform>(&self, m: &mut M) -> (r: u8)
        ensures
            platform::loaded(old(m).trace(), final(m).trace(), own_reg::<Self>(memmap::SHIFTCTRL)),
            r == Shiftctrl(platform::last_read(final(m).trace())).push_thresh(),
    ;

    /// Sets the direction of the output shift register.
    fn set_out_shift_dir<M: Platform>(&mut self, m: &mut M, dir: ShiftDirection)
        ensures
            *final(self) == *old(self),
            platform::modified(
                old(m).trace(),
                final(m).trace(),
                own_reg::<Self>(memmap::SHIFTCTRL),
                |v: u32| Shiftctrl(v).with_out_shiftdir(dir == ShiftDirection::Right).0,
            ),
    ;

    /// Returns the direction of the output shift register.
    fn get_out_shiftdir<M: Platform>(&self, m: &mut M) -> (r: ShiftDirection)
        ensures
            platform::loaded(old(m).trace(), final(m).trace(), own_reg::<Self>(memmap::SHIFTCTRL)),
            r == direction(Shiftctrl(platform::last_read(final(m).trace())).out_shiftdir()),
    ;

    /// Sets the direction of the input shift register.
    fn set_in_shift_dir<M: Platform>(&mut self, m: &mut M, dir: ShiftDirection)
        ensures
            *final(self) == *old(self),
            platform::modified(
                old(m).trace(),
                final(m).trace(),
                own_reg::<Self>(memmap::SHIFTCTRL),
                |v: u32| Shiftctrl(v).with_in_shiftdir(dir == ShiftDirection::Right).0,
            ),
    ;

    /// Returns the direction of the input shift register.
    fn get_in_shiftdir<M: Platform>(&self, m: &mut M) -> (r: ShiftDirection)
        ensures
            platform::loaded(old(m).trace(), final(m).trace(), own_reg::<Self>(memmap::SHIFTCTRL)),
            r == direction(Shiftctrl(platform::last_read(final(m).trace())).in_shiftdir()),
    ;

    /// Sets whether the output shift register is refilled on its own.
    fn set_autopull<M: Platform>(&mut self, m: &mut M, auto: bool)
        ensures
            *final(self) == *old(self),
            platform::modified(
                old(m).trace(),
                final(m).trace(),
                own_reg::<Self>(memmap::SHIFTCTRL),
                |v: u32| Shiftctrl(v).with_autopull(auto).0,
            ),
    ;

    /// Returns whether the output shift register is refilled on its own.
    fn is_autopull<M: Platform>(&self, m: &mut M) -> (r: bool)
        ensures
            platform::loaded(old(m).trace(), final(m).trace(), own_reg::<Self>(memmap::SHIFTCTRL)),
            r == Shiftctrl(platform::last_read(final(m).trace())).autopull(),
    ;

    /// Sets whether the input shift register is pushed on its own.
    fn set_autopush<M: Platform>(&mut self, m: &mut M, auto: bool)
        ensures
            *final(self) == *old(self),
            platform::modified(
                old(m).trace(),
                final(m).trace(),
                own_reg::<Self>(memmap::SHIFTCTRL),
                |v: u32| Shiftctrl(v).with_autopush(auto).0,
            ),
    ;

    /// Returns whether the input shift register is pushed on its own.
    fn is_autopush<M: Platform>(&self, m: &mut M) -> (r: bool)
        ensures
            platform::loaded(old(m).trace(), final(m).trace(), own_reg::<Self>(memmap::SHIFTCTRL)),
            r == Shiftctrl(platform::last_read(final(m).trace())).autopush(),
    ;

    /// Returns the program counter.
    fn get_addr<M: Platform>(&self, m: &mut M) -> (r: u8)
        ensures
            platform::loaded(old(m).trace(), final(m).trace(), own_reg::<Self>(memmap::ADDR)),
            r == bits::field(platform::last_read(final(m).trace()), 1, 32),
    ;

    /// Sets the number of side-set bits.
    fn set_sideset_count<M: Platform>(&mut self, m: &mut M, count: u8)
        ensures
            *final(self) == *old(self),
            platform::modified(
                old(m).trace(),
                final(m).trace(),
                own_reg::<Self>(memmap::PINCTRL),
                |v: u32| Pinctrl(v).with_sideset_count(count).0,
            ),
    ;

    /// Returns the number of side-set bits.
    fn get_sideset_count<M: Platform>(&self, m: &mut M) -> (r: u8)
        ensures
            platform::loaded(old(m).trace(), final(m).trace(), own_reg::<Self>(memmap::PINCTRL)),
            r == Pinctrl(platform::last_read(final(m).trace())).sideset_count(),
    ;

    /// Sets the first side-set pin.
    fn set_sideset_base_pin<M: Platform>(&mut self, m: &mut M, base_pin: &PioPin<Self::Pio>)
        ensures
            *final(self) == *old(self),
            platform::modified(
                old(m).trace(),
                final(m).trace(),
                own_reg::<Self>(memmap::PINCTRL),
                |v: u32| Pinctrl(v).with_sideset_base(base_pin.bank() % 32).0,
            ),
    ;

    /// Returns the first side-set pin.
    fn get_sideset_base<M: Platform>(&self, m: &mut M) -> (r: u8)
        ensures
            platform::loaded(old(m).trace(), final(m).trace(), own_reg::<Self>(memmap::PINCTRL)),
            r == Pinctrl(platform::last_read(final(m).trace())).sideset_base(),
    ;

    /// Sets the range of pins affected by a `SET` instruction. The count takes three bits.
    fn set_set_range<M: Platform>(&mut self, m: &mut M, base: u8, count: u8)
        requires
            base + count < 32,
        ensures
            *final(self) == *old(self),
            platform::modified(
                old(m).trace(),
                final(m).trace(),
                own_reg::<Self>(memmap::PINCTRL),
                |v: u32| Pinctrl(v).with_set_base(base).with_set_count(count).0,
            ),
    ;

    /// Returns the range of pins affected by a `SET` instruction: base, then count.
    fn get_set_range<M: Platform>(&self, m: &mut M) -> (r: (u8, u8))
        ensures
            platform::loaded(old(m).trace(), final(m).trace(), own_reg::<Self>(memmap::PINCTRL)),
            r.0 == Pinctrl(platform::last_read(final(m).trace())).set_base(),
            r.1 == Pinctrl(platform::last_read(final(m).trace())).set_count(),
    ;

    /// Sets the first pin of an `IN` instruction.
    fn set_in_base_pin<M: Platform>(&mut self, m: &mut M, base: &PioPin<Self::Pio>)
        ensures
            *final(self) == *old(self),
            platform::modified(
                old(m).trace(),
                final(m).trace(),
                own_reg::<Self>(memmap::PINCTRL),
                |v: u32| Pinctrl(v).with_in_base(base.bank() % 32).0,
            ),
    ;

    /// Returns the first pin of an `IN` instruction.
    fn get_in_base<M: Platform>(&self, m: &mut M) -> (r: u8)
        ensures
            platform::loaded(old(m).trace(), final(m).trace(), own_reg::<Self>(memmap::PINCTRL)),
            r == Pinctrl(platform::last_read(final(m).trace())).in_base(),
    ;

    /// Sets the range of pins affected by an `OUT` instruction.
    fn set_out_range<M: Platform>(&mut self, m: &mut M, base: u8, count: u8)
        requires
            base + count < 32,
        ensures
            *final(self) == *old(self),
            platform::modified(
                old(m).trace(),
                final(m).trace(),
                own_reg::<Self>(memmap::PINCTRL),
                |v: u32| Pinctrl(v).with_out_base(base).with_out_count(count).0,
            ),
    ;

    /// Returns the range of pins affected by an `OUT` instruction: base, then count.
    fn get_out_range<M: Platform>(&self, m: &mut M) -> (r: (u8, u8))
        ensures
            platform::loaded(old(m).trace(), final(m).trace(), own_reg::<Self>(memmap::PINCTRL)),
            r.0 == Pinctrl(platform::last_read(final(m).trace())).out_base(),
            r.1 == Pinctrl(platform::last_read(final(m).trace())).out_count(),
    ;

    /// Sets the pins affected by an `OUT` instruction, which must be consecutive.
    fn set_out_pins<'a, 'b: 'a, M: Platform>(
        &'a mut self,
        m: &mut M,
        pins: &'b [&'b PioPin<Self::Pio>],
    )
        requires
            crate::pin::consecutive(pins@),
            pins@[0].bank() % 32 + pins@.len() < 32,
        ensures
            *final(self) == *old(self),
            platform::modified(
                old(m).trace(),
                final(m).trace(),
                own_reg::<Self>(memmap::PINCTRL),
                |v: u32|
                    Pinctrl(v).with_out_base(pins@[0].bank() % 32).with_out_count(
                        pins@.len() as u8,
                    ).0,
            ),
    ;

    /// Sets the pins affected by a `SET` instruction, which must be consecutive.
    fn set_set_pins<'a, 'b: 'a, M: Platform>(
        &'a mut self,
        m: &mut M,
        pins: &'b [&'b PioPin<Self::Pio>],
    )
        requires
            crate::pin::consecutive(pins@),
            pins@[0].bank() % 32 + pins@.len() < 32,
        ensures
            *final(self) == *old(self),
            platform::modified(
                old(m).trace(),
                final(m).trace(),
                own_reg::<Self>(memmap::PINCTRL),
                |v: u32|
                    Pinctrl(v).with_set_base(pins@[0].bank() % 32).with_set_count(
                        pins@.len() as u8,
                    ).0,
            ),
    ;

    /// Returns the instruction that the program counter points at.
    fn get_current_instr<M: Platform>(m: &mut M) -> (r: u32)
        ensures
            platform::loaded(old(m).trace(), final(m).trace(), own_reg::<Self>(memmap::INSTR)),
            r == platform::last_read(final(m).trace()),
    ;

    /// Executes an instruction at once.
    fn exec_instr<M: Platform>(&mut self, m: &mut M, instr: u16)
        ensures
            *final(self) == *old(self),
            platform::stored(
                old(m).trace(),
                final(m).trace(),
                own_reg::<Self>(memmap::INSTR),
                instr as u32,
            ),
    ;

    /// Waits until the TX FIFO has room, then puts a word into it.
    fn wait_push<'a>(&'a mut self, value: u32) -> (future: FifoOutFuture<'a, Self::Pio, Self>)
        ensures
            future.value() == value,
            future.machine() == *old(self),
    ;

    /// Waits until the RX FIFO has a word, then takes it out.
    fn wait_pull<'a>(&'a mut self) -> (future: FifoInFuture<'a, Self::Pio, Self>)
        ensures
            future.machine() == *old(self),
    ;

    /// Waits until a state machine IRQ flag is raised, then clears it.
    fn wait_irq(&self, irq_no: u8) -> (future: IrqFuture<Self::Pio>)
        ensures
            future.irq_no() == irq_no,
    ;

    /// Returns whether the state machine stalled on an empty TX FIFO since
    /// the last call, and forgets it.
    fn has_tx_stalled<M: Platform>(&self, m: &mut M) -> (r: bool)
        ensures
            flag_taken::<Self>(old(m).trace(), final(m).trace(), memmap::FDEBUG_TXSTALL, r),
    ;

    /// Returns whether a word was put into a full TX FIFO since
    /// the last call, and forgets it.
    fn has_tx_overflowed<M: Platform>(&self, m: &mut M) -> (r: bool)
        ensures
            flag_taken::<Self>(old(m).trace(), final(m).trace(), memmap::FDEBUG_TXOVER, r),
    ;

    /// Returns whether the state machine stalled on a full RX FIFO since
    /// the last call, and forgets it.
    fn has_rx_stalled<M: Platform>(&self, m: &mut M) -> (r: bool)
        ensures
            flag_taken::<Self>(old(m).trace(), final(m).trace(), memmap::FDEBUG_RXSTALL, r),
    ;

    /// Returns whether a word was taken out of an empty RX FIFO since
    /// the last call, and forgets it.
    fn has_rx_underflowed<M: Platform>(&self, m: &mut M) -> (r: bool)
        ensures
            flag_taken::<Self>(old(m).trace(), final(m).trace(), memmap::FDEBUG_RXUNDER, r),
    ;

    /// Starts a DMA channel that feeds the TX FIFO with `len` words of memory from `data` on.
    fn dma_push<M: Platform>(
        &self,
        m: &mut M,
        channel: u8,
        size: DataSize,
        data: u32,
        len: usize,
    )
        requires
            channel < 12,
        ensures
            final(m).trace() == old(m).trace() + seq![
                Event::Write { addr: memmap::dma_reg(channel, 0), value: data },
                Event::Write { addr: memmap::dma_reg(channel, 1), value: tx_fifo::<Self>() },
                Event::Write { addr: memmap::dma_reg(channel, 2), value: len as u32 },
                Event::Fence,
                Event::Write {
                    addr: memmap::dma_reg(channel, 3),
                    value: dma_ctrl(
                        (8 * Self::Pio::no() + Self::index()) as u8,
                        size,
                        channel,
                        true,
                    ),
                },
                Event::Fence,
            ],
    ;

    /// Starts a DMA channel that drains `len` words of the RX FIFO into memory from `data` on.
    fn dma_pull<M: Platform>(
        &self,
        m: &mut M,
        channel: u8,
        size: DataSize,
        data: u32,
        len: usize,
    )
        requires
            channel < 12,
        ensures
            final(m).trace() == old(m).trace() + seq![
                Event::Write { addr: memmap::dma_reg(channel, 1), value: data },
                Event::Write { addr: memmap::dma_reg(channel, 0), value: rx_fifo::<Self>() },
                Event::Write { addr: memmap::dma_reg(channel, 2), value: len as u32 },
                Event::Fence,
                Event::Write {
                    addr: memmap::dma_reg(channel, 3),
                    value: dma_ctrl(
                        (8 * Self::Pio::no() + Self::index() + 4) as u8,
                        size,
                        channel,
                        false,
                    ),
                },
                Event::Fence,
            ],
    ;
}

impl<S: sealed::PioStateMachine> PioStateMachine for S {
    fn pio_no(&self) -> (no: u8) {
        proof {
            Self::Pio::lemma_block();
        }
        Self::Pio::PIO_NO
    }

    fn sm_no(&self) -> (no: u8) {
        proof {
            Self::lemma_sm();
        }
        Self::SM as u8
    }

    fn restart<M: Platform>(&mut self, m: &mut M) {
        let bit: u32 = own_bit_number::<Self>(memmap::CTRL_SM_RESTART);
        let addr: u32 = block_address::<Self>(memmap::CTRL + memmap::SET_ALIAS);
        m.write(addr, 1u32 << bit);
    }

    fn set_enable<M: Platform>(&mut self, m: &mut M, enable: bool) {
        let bit: u32 = own_bit_number::<Self>(memmap::CTRL_SM_ENABLE);
        let addr: u32 = if enable {
            block_address::<Self>(memmap::CTRL + memmap::SET_ALIAS)
        } else {
            block_address::<Self>(memmap::CTRL + memmap::CLEAR_ALIAS)
        };
        m.write(addr, 1u32 << bit);
    }

    fn is_enabled<M: Platform>(&self, m: &mut M) -> (r: bool) {
        let bit: u32 = own_bit_number::<Self>(memmap::CTRL_SM_ENABLE);
        let addr: u32 = block_address::<Self>(memmap::CTRL);
        bits::test_bit(m.read(addr), bit)
    }

    fn is_tx_empty<M: Platform>(&self, m: &mut M) -> (r: bool) {
        let bit: u32 = own_bit_number::<Self>(memmap::FSTAT_TXEMPTY);
        let addr: u32 = block_address::<Self>(memmap::FSTAT);
        bits::test_bit(m.read(addr), bit)
    }

    fn is_tx_full<M: Platform>(&self, m: &mut M) -> (r: bool) {
        let bit: u32 = own_bit_number::<Self>(memmap::FSTAT_TXFULL);
        let addr: u32 = block_address::<Self>(memmap::FSTAT);
        bits::test_bit(m.read(addr), bit)
    }

    fn is_rx_empty<M: Platform>(&self, m: &mut M) -> (r: bool) {
        let bit: u32 = own_bit_number::<Self>(memmap::FSTAT_RXEMPTY);
        let addr: u32 = block_address::<Self>(memmap::FSTAT);
        bits::test_bit(m.read(addr), bit)
    }

    fn is_rx_full<M: Platform>(&self, m: &mut M) -> (r: bool) {
        let bit: u32 = own_bit_number::<Self>(memmap::FSTAT_RXFULL);
        let addr: u32 = block_address::<Self>(memmap::FSTAT);
        bits::test_bit(m.read(addr), bit)
    }

    fn tx_level<M: Platform>(&self, m: &mut M) -> (r: u8) {
        proof {
            Self::lemma_sm();
        }
        let addr: u32 = block_address::<Self>(memmap::FLEVEL);
        let flevel: u32 = m.read(addr);
        let shift: u32 = 8 * (Self::SM as u32);
        let level: u32 = (flevel >> shift) & 0x0f;
        assert(level <= 0x0f) by (bit_vector)
            requires
                level == (flevel >> shift) & 0x0f,
        ;
        level as u8
    }

    fn rx_level<M: Platform>(&self, m: &mut M) -> (r: u8) {
        proof {
            Self::lemma_sm();
        }
        let addr: u32 = block_address::<Self>(memmap::FLEVEL);
        let flevel: u32 = m.read(addr);
        let shift: u32 = 8 * (Self::SM as u32) + 4;
        let level: u32 = (flevel >> shift) & 0x0f;
        assert(level <= 0x0f) by (bit_vector)
            requires
                level == (flevel >> shift) & 0x0f,
        ;
        level as u8
    }

    fn push_tx<M: Platform>(&mut self, m: &mut M, v: u32) {
        proof {
            Self::lemma_sm();
        }
        let addr: u32 = block_address::<Self>(memmap::TXF + 4 * (Self::SM as u32));
        m.write(addr, v);
    }

    fn try_push_tx<M: Platform>(&mut self, m: &mut M, v: u32) -> (pushed: bool) {
        if self.is_tx_full(m) {
            return false;
        }
        self.push_tx(m, v);
        true
    }

    fn pull_rx<M: Platform>(&mut self, m: &mut M) -> (v: u32) {
        proof {
            Self::lemma_sm();
        }
        let addr: u32 = block_address::<Self>(memmap::RXF + 4 * (Self::SM as u32));
        m.read(addr)
    }

    fn try_pull_rx<M: Platform>(&mut self, m: &mut M) -> (pulled: Option<u32>) {
        if self.is_rx_empty(m) {
            return None;
        }
        Some(self.pull_rx(m))
    }

    fn set_clkdiv<M: Platform>(&mut self, m: &mut M, div_x_256: u32) {
        let addr: u32 = own_address::<Self>(memmap::CLKDIV);
        let word: u32 = div_x_256 << 8;
        assert(word == (div_x_256 % 0x100_0000) * 0x100) by (bit_vector)
            requires
                word == div_x_256 << 8,
        ;
        m.write(addr, word);
    }

    fn get_clkdiv<M: Platform>(&self, m: &mut M) -> (r: u32) {
        let addr: u32 = own_address::<Self>(memmap::CLKDIV);
        let word: u32 = m.read(addr);
        assert(word >> 8 == word / 0x100) by (bit_vector);
        word >> 8
    }

    fn clkdiv_restart<M: Platform>(&mut self, m: &mut M) {
        let bit: u32 = own_bit_number::<Self>(memmap::CTRL_CLKDIV_RESTART);
        let addr: u32 = block_address::<Self>(memmap::CTRL + memmap::SET_ALIAS);
        m.write(addr, 1u32 << bit);
    }

    fn set_side_enable<M: Platform>(&self, m: &mut M, enable: bool) {
        let addr: u32 = own_address::<Self>(memmap::EXECCTRL);
        let word = Execctrl(m.read(addr));
        m.write(addr, word.with_side_en(enable).0);
    }

    fn is_side_enabled<M: Platform>(&self, m: &mut M) -> (r: bool) {
        let addr: u32 = own_address::<Self>(memmap::EXECCTRL);
        let word = Execctrl(m.read(addr));
        word.side_en()
    }

    fn set_side_pindir<M: Platform>(&mut self, m: &mut M, pindir: bool) {
        let addr: u32 = own_address::<Self>(memmap::EXECCTRL);
        let word = Execctrl(m.read(addr));
        m.write(addr, word.with_side_pindir(pindir).0);
    }

    fn is_side_pindir<M: Platform>(&self, m: &mut M) -> (r: bool) {
        let addr: u32 = own_address::<Self>(memmap::EXECCTRL);
        let word = Execctrl(m.read(addr));
        word.side_pindir()
    }

    fn set_jmp_pin<M: Platform>(&mut self, m: &mut M, pin: u8) {
        let addr: u32 = own_address::<Self>(memmap::EXECCTRL);
        let word = Execctrl(m.read(addr));
        m.write(addr, word.with_jmp_pin(pin).0);
    }

    fn get_jmp_pin<M: Platform>(&mut self, m: &mut M) -> (r: u8) {
        let addr: u32 = own_address::<Self>(memmap::EXECCTRL);
        let word = Execctrl(m.read(addr));
        word.jmp_pin()
    }

    fn set_wrap<M: Platform>(&self, m: &mut M, source: u8, target: u8) {
        let addr: u32 = own_address::<Self>(memmap::EXECCTRL);
        let word = Execctrl(m.read(addr));
        m.write(addr, word.with_wrap_top(source).with_wrap_bottom(target).0);
    }

    fn get_wrap<M: Platform>(&self, m: &mut M) -> (r: (u8, u8)) {
        let addr: u32 = own_address::<Self>(memmap::EXECCTRL);
        let word = Execctrl(m.read(addr));
        (word.wrap_top(), word.wrap_bottom())
    }

    fn set_fifo_join<M: Platform>(&mut self, m: &mut M, join: FifoJoin) {
        let (rx, tx) = match join {
            FifoJoin::Duplex => (false, false),
            FifoJoin::RxOnly => (true, false),
            FifoJoin::TxOnly => (false, true),
        };
        let addr: u32 = own_address::<Self>(memmap::SHIFTCTRL);
        let word = Shiftctrl(m.read(addr));
        m.write(addr, word.with_fjoin_rx(rx).with_fjoin_tx(tx).0);
    }

    fn get_fifo_join<M: Platform>(&self, m: &mut M) -> (r: FifoJoin) {
        let addr: u32 = own_address::<Self>(memmap::SHIFTCTRL);
        let word = Shiftctrl(m.read(addr));
        if word.fjoin_rx() {
            FifoJoin::RxOnly
        } else if word.fjoin_tx() {
            FifoJoin::TxOnly
        } else {
            FifoJoin::Duplex
        }
    }

    fn clear_fifos<M: Platform>(&mut self, m: &mut M) {
        let addr: u32 = own_address::<Self>(memmap::SHIFTCTRL);
        let first = Shiftctrl(m.read(addr));
        m.write(addr, first.with_fjoin_rx(!first.fjoin_rx()).0);
        let second = Shiftctrl(m.read(addr));
        m.write(addr, second.with_fjoin_rx(!second.fjoin_rx()).0);
    }

    fn set_pull_threshold<M: Platform>(&mut self, m: &mut M, threshold: u8) {
        let addr: u32 = own_address::<Self>(memmap::SHIFTCTRL);
        let word = Shiftctrl(m.read(addr));
        m.write(addr, word.with_pull_thresh(threshold).0);
    }

    fn get_pull_threshold<M: Platform>(&self, m: &mut M) -> (r: u8) {
        let addr: u32 = own_address::<Self>(memmap::SHIFTCTRL);
        let word = Shiftctrl(m.read(addr));
        word.pull_thresh()
    }

    fn set_push_threshold<M: Platform>(&mut self, m: &mut M, threshold: u8) {
        let addr: u32 = own_address::<Self>(memmap::SHIFTCTRL);
        let word = Shiftctrl(m.read(addr));
        m.write(addr, word.with_push_thresh(threshold).0);
    }

    fn get_push_threshold<M: Platform>(&self, m: &mut M) -> (r: u8) {
        let addr: u32 = own_address::<Self>(memmap::SHIFTCTRL);
        let word = Shiftctrl(m.read(addr));
        word.push_thresh()
    }

    fn set_out_shift_dir<M: Platform>(&mut self, m: &mut M, dir: ShiftDirection) {
        let addr: u32 = own_address::<Self>(memmap::SHIFTCTRL);
        let word = Shiftctrl(m.read(addr));
        m.write(addr, word.with_out_shiftdir(dir == ShiftDirection::Right).0);
    }

    fn get_out_shiftdir<M: Platform>(&self, m: &mut M) -> (r: ShiftDirection) {
        let addr: u32 = own_address::<Self>(memmap::SHIFTCTRL);
        let word = Shiftctrl(m.read(addr));
        if word.out_shiftdir() {
            ShiftDirection::Right
        } else {
            ShiftDirection::Left
        }
    }

    fn set_in_shift_dir<M: Platform>(&mut self, m: &mut M, dir: ShiftDirection) {
        let addr: u32 = own_address::<Self>(memmap::SHIFTCTRL);
        let word = Shiftctrl(m.read(addr));
        m.write(addr, word.with_in_shiftdir(dir == ShiftDirection::Right).0);
    }

    fn get_in_shiftdir<M: Platform>(&self, m: &mut M) -> (r: ShiftDirection) {
        let addr: u32 = own_address::<Self>(memmap::SHIFTCTRL);
        let word = Shiftctrl(m.read(addr));
        if word.in_shiftdir() {
            ShiftDirection::Right
        } else {
            ShiftDirection::Left
        }
    }

    fn set_autopull<M: Platform>(&mut self, m: &mut M, auto: bool) {
        let addr: u32 = own_address::<Self>(memmap::SHIFTCTRL);
        let word = Shiftctrl(m.read(addr));
        m.write(addr, word.with_autopull(auto).0);
    }

    fn is_autopull<M: Platform>(&self, m: &mut M) -> (r: bool) {
        let addr: u32 = own_address::<Self>(memmap::SHIFTCTRL);
        let word = Shiftctrl(m.read(addr));
        word.autopull()
    }

    fn set_autopush<M: Platform>(&mut self, m: &mut M, auto: bool) {
        let addr: u32 = own_address::<Self>(memmap::SHIFTCTRL);
        let word = Shiftctrl(m.read(addr));
        m.write(addr, word.with_autopush(auto).0);
    }

    fn is_autopush<M: Platform>(&self, m: &mut M) -> (r: bool) {
        let addr: u32 = own_address::<Self>(memmap::SHIFTCTRL);
        let word = Shiftctrl(m.read(addr));
        word.autopush()
    }

    fn get_addr<M: Platform>(&self, m: &mut M) -> (r: u8) {
        let addr: u32 = own_address::<Self>(memmap::ADDR);
        let word: u32 = m.read(addr);
        bits::get_field(word, 1, 32) as u8
    }

    fn set_sideset_count<M: Platform>(&mut self, m: &mut M, count: u8) {
        let addr: u32 = own_address::<Self>(memmap::PINCTRL);
        let word = Pinctrl(m.read(addr));
        m.write(addr, word.with_sideset_count(count).0);
    }

    fn get_sideset_count<M: Platform>(&self, m: &mut M) -> (r: u8) {
        let addr: u32 = own_address::<Self>(memmap::PINCTRL);
        let word = Pinctrl(m.read(addr));
        word.sideset_count()
    }

    fn set_sideset_base_pin<M: Platform>(&mut self, m: &mut M, base_pin: &PioPin<Self::Pio>) {
        let addr: u32 = own_address::<Self>(memmap::PINCTRL);
        let word = Pinctrl(m.read(addr));
        m.write(addr, word.with_sideset_base(base_pin.pin()).0);
    }

    fn get_sideset_base<M: Platform>(&self, m: &mut M) -> (r: u8) {
        let addr: u32 = own_address::<Self>(memmap::PINCTRL);
        let word = Pinctrl(m.read(addr));
        word.sideset_base()
    }

    fn set_set_range<M: Platform>(&mut self, m: &mut M, base: u8, count: u8) {
        let addr: u32 = own_address::<Self>(memmap::PINCTRL);
        let word = Pinctrl(m.read(addr));
        m.write(addr, word.with_set_base(base).with_set_count(count).0);
    }

    fn get_set_range<M: Platform>(&self, m: &mut M) -> (r: (u8, u8)) {
        let addr: u32 = own_address::<Self>(memmap::PINCTRL);
        let word = Pinctrl(m.read(addr));
        (word.set_base(), word.set_count())
    }

    fn set_in_base_pin<M: Platform>(&mut self, m: &mut M, base: &PioPin<Self::Pio>) {
        let addr: u32 = own_address::<Self>(memmap::PINCTRL);
        let word = Pinctrl(m.read(addr));
        m.write(addr, word.with_in_base(base.pin()).0);
    }

    fn get_in_base<M: Platform>(&self, m: &mut M) -> (r: u8) {
        let addr: u32 = own_address::<Self>(memmap::PINCTRL);
        let word = Pinctrl(m.read(addr));
        word.in_base()
    }

    fn set_out_range<M: Platform>(&mut self, m: &mut M, base: u8, count: u8) {
        let addr: u32 = own_address::<Self>(memmap::PINCTRL);
        let word = Pinctrl(m.read(addr));
        m.write(addr, word.with_out_base(base).with_out_count(count).0);
    }

    fn get_out_range<M: Platform>(&self, m: &mut M) -> (r: (u8, u8)) {
        let addr: u32 = own_address::<Self>(memmap::PINCTRL);
        let word = Pinctrl(m.read(addr));
        (word.out_base(), word.out_count())
    }

    fn set_out_pins<'a, 'b: 'a, M: Platform>(
        &'a mut self,
        m: &mut M,
        pins: &'b [&'b PioPin<Self::Pio>],
    ) {
        let start: u8 = pins[0].pin();
        let count: usize = pins.len();
        self.set_out_range(m, start, count as u8);
    }

    fn set_set_pins<'a, 'b: 'a, M: Platform>(
        &'a mut self,
        m: &mut M,
        pins: &'b [&'b PioPin<Self::Pio>],
    ) {
        let start: u8 = pins[0].pin();
        let count: usize = pins.len();
        self.set_set_range(m, start, count as u8);
    }

    fn get_current_instr<M: Platform>(m: &mut M) -> (r: u32) {
        let addr: u32 = own_address::<Self>(memmap::INSTR);
        m.read(addr)
    }

    fn exec_instr<M: Platform>(&mut self, m: &mut M, instr: u16) {
        let addr: u32 = own_address::<Self>(memmap::INSTR);
        m.write(addr, instr as u32);
    }

    fn wait_push<'a>(&'a mut self, value: u32) -> (future: FifoOutFuture<'a, Self::Pio, Self>) {
        FifoOutFuture::new(self, value)
    }

    fn wait_pull<'a>(&'a mut self) -> (future: FifoInFuture<'a, Self::Pio, Self>) {
        FifoInFuture::new(self)
    }

    fn wait_irq(&self, irq_no: u8) -> (future: IrqFuture<Self::Pio>) {
        IrqFuture::new(irq_no)
    }

    fn has_tx_stalled<M: Platform>(&self, m: &mut M) -> (r: bool) {
        let bit: u32 = own_bit_number::<Self>(memmap::FDEBUG_TXSTALL);
        let addr: u32 = block_address::<Self>(memmap::FDEBUG);
        let r: bool = bits::test_bit(m.read(addr), bit);
        m.write(addr, 1u32 << bit);
        r
    }

    fn has_tx_overflowed<M: Platform>(&self, m: &mut M) -> (r: bool) {
        let bit: u32 = own_bit_number::<Self>(memmap::FDEBUG_TXOVER);
        let addr: u32 = block_address::<Self>(memmap::FDEBUG);
        let r: bool = bits::test_bit(m.read(addr), bit);
        m.write(addr, 1u32 << bit);
        r
    }

    fn has_rx_stalled<M: Platform>(&self, m: &mut M) -> (r: bool) {
        let bit: u32 = own_bit_number::<Self>(memmap::FDEBUG_RXSTALL);
        let addr: u32 = block_address::<Self>(memmap::FDEBUG);
        let r: bool = bits::test_bit(m.read(addr), bit);
        m.write(addr, 1u32 << bit);
        r
    }

    fn has_rx_underflowed<M: Platform>(&self, m: &mut M) -> (r: bool) {
        let bit: u32 = own_bit_number::<Self>(memmap::FDEBUG_RXUNDER);
        let addr: u32 = block_address::<Self>(memmap::FDEBUG);
        let r: bool = bits::test_bit(m.read(addr), bit);
        m.write(addr, 1u32 << bit);
        r
    }

    fn dma_push<M: Platform>(
        &self,
        m: &mut M,
        channel: u8,
        size: DataSize,
        data: u32,
        len: usize,
    ) {
        proof {
            Self::lemma_sm();
            Self::Pio::lemma_block();
        }
        let fifo: u32 = block_address::<Self>(memmap::TXF + 4 * (Self::SM as u32));
        let code: u8 = match size {
            DataSize::Byte => 0,
            DataSize::HalfWord => 1,
            DataSize::Word => 2,
        };
        let treq: u8 = Self::Pio::PIO_NO * 8 + Self::SM as u8;
        let regs: u32 = 0x5000_0000 + 0x40 * (channel as u32);
        m.write(regs, data);
        m.write(regs + 4, fifo);
        m.write(regs + 8, len as u32);
        m.fence();
        let ctrl = DmaCtrl(0).with_treq_sel(treq).with_data_size(code).with_chain_to(
            channel,
        ).with_incr_read(true).with_incr_write(false).with_en(true);
        m.write(regs + 12, ctrl.0);
        m.fence();
    }

    fn dma_pull<M: Platform>(
        &self,
        m: &mut M,
        channel: u8,
        size: DataSize,
        data: u32,
        len: usize,
    ) {
        proof {
            Self::lemma_sm();
            Self::Pio::lemma_block();
        }
        let fifo: u32 = block_address::<Self>(memmap::RXF + 4 * (Self::SM as u32));
        let code: u8 = match size {
            DataSize::Byte => 0,
            DataSize::HalfWord => 1,
            DataSize::Word => 2,
        };
        let treq: u8 = Self::Pio::PIO_NO * 8 + Self::SM as u8 + 4;
        let regs: u32 = 0x5000_0000 + 0x40 * (channel as u32);
        m.write(regs + 4, data);
        m.write(regs, fifo);
        m.write(regs + 8, len as u32);
        m.fence();
        let ctrl = DmaCtrl(0).with_treq_sel(treq).with_data_size(code).with_chain_to(
            channel,
        ).with_incr_read(false).with_incr_write(true).with_en(true);
        m.write(regs + 12, ctrl.0);
        m.fence();
    }
}

/// From `before` to `after`, the fill state of the TX FIFO was read, and `v` put in if it was not
/// full; `pushed` says which.
pub open spec fn try_pushed<S: sealed::PioStateMachine>(
    before: Seq<Event>,
    after: Seq<Event>,
    v: u32,
    pushed: bool,
) -> bool {
    let fstat = platform::nth_read(after, before.len() as int);
    let looked = before.push(Event::Read { addr: block_reg::<S>(memmap::FSTAT), value: fstat });
    &&& pushed == !bits::bit(fstat, own_bit::<S>(memmap::FSTAT_TXFULL))
    &&& after == if pushed {
        looked.push(Event::Write { addr: tx_fifo::<S>(), value: v })
    } else {
        looked
    }
}

/// From `before` to `after`, the fill state of the RX FIFO was read, and a word taken out if it was
/// not empty; `pulled` is that word.
pub open spec fn try_pulled<S: sealed::PioStateMachine>(
    before: Seq<Event>,
    after: Seq<Event>,
    pulled: Option<u32>,
) -> bool {
    let fstat = platform::nth_read(after, before.len() as int);
    let looked = before.push(Event::Read { addr: block_reg::<S>(memmap::FSTAT), value: fstat });
    &&& pulled is None <==> bits::bit(fstat, own_bit::<S>(memmap::FSTAT_RXEMPTY))
    &&& after == match pulled {
        Some(v) => looked.push(Event::Read { addr: rx_fifo::<S>(), value: v }),
        None => looked,
    }
}

/// From `before` to `after`, the sticky FIFO flags were read and that of state machine `S` in the
/// group that starts at bit `first` was cleared; `set` is what it was.
pub open spec fn flag_taken<S: sealed::PioStateMachine>(
    before: Seq<Event>,
    after: Seq<Event>,
    first: u32,
    set: bool,
) -> bool {
    let addr = block_reg::<S>(memmap::FDEBUG);
    let value = platform::nth_read(after, before.len() as int);
    &&& set == bits::bit(value, own_bit::<S>(first))
    &&& after == before.push(Event::Read { addr, value }).push(
        Event::Write { addr, value: 1u32 << own_bit::<S>(first) },
    )
}

/// A state machine of a PIO block.
pub struct PioStateMachineInstance<'d, PIO: PioInstance, const SM: usize> {
    pub(crate) pio: PhantomData<&'d PIO>,
}

impl<'d, PIO: PioInstance> sealed::PioStateMachine for PioStateMachineInstance<'d, PIO, 0> {
    type Pio = PIO;

    const SM: usize = 0;

    open spec fn index() -> usize {
        0
    }

    proof fn lemma_sm() {
        assert(Self::SM == 0);
    }
}

impl<'d, PIO: PioInstance> sealed::PioStateMachine for PioStateMachineInstance<'d, PIO, 1> {
    type Pio = PIO;

    const SM: usize = 1;

    open spec fn index() -> usize {
        1
    }

    proof fn lemma_sm() {
        assert(Self::SM == 1);
    }
}

impl<'d, PIO: PioInstance> sealed::PioStateMachine for PioStateMachineInstance<'d, PIO, 2> {
    type Pio = PIO;

    const SM: usize = 2;

    open spec fn index() -> usize {
        2
    }

    proof fn lemma_sm() {
        assert(Self::SM == 2);
    }
}

impl<'d, PIO: PioInstance> sealed::PioStateMachine for PioStateMachineInstance<'d, PIO, 3> {
    type Pio = PIO;

    const SM: usize = 3;

    open spec fn index() -> usize {
        3
    }

    proof fn lemma_sm() {
        assert(Self::SM == 3);
    }
}

} // verus!
