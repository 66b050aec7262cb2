//! Register words and addresses, held against the peripheral access crate.

use rp_pac::dma::regs::CtrlTrig;
use rp_pac::dma::vals::{DataSize, TreqSel};
use rp_pac::pads::regs::GpioCtrl;
use rp_pac::pads::vals;
use rp_pac::pio::regs::{
    Ctrl, Fdebug, Flevel, Fstat, Intr, Irq, IrqForce, SmExecctrl, SmPinctrl, SmShiftctrl,
};
use rp_pio::bits::{get_field, set_field, test_bit};
use rp_pio::common::Pio;
use rp_pio::futures;
use rp_pio::instance::PIO0;
use rp_pio::memmap;
use rp_pio::platform::{Event, Platform};
use rp_pio::regs::{DmaCtrl, Execctrl, PadCtrl, Pinctrl, Shiftctrl};
use rp_pio::simulated::SimulatedPlatform;
use rp_pio::sm::PioStateMachine;

const WORDS: [u32; 6] = [0, 0xffff_ffff, 0x1234_5678, 0x8000_0001, 0xdead_beef, 0x5555_aaaa];

#[test]
fn fields_of_a_word() {
    assert_eq!(get_field(0x1234_5678, 0x100, 16), 6);
    assert_eq!(set_field(0x1234_5678, 0x100, 16, 0xab), 0x1234_5b78);
    assert_eq!(set_field(0xffff_ffff, 0x8000_0000, 2, 0), 0x7fff_ffff);
    assert_eq!(set_field(0, 0x8000_0000, 2, 1), 0x8000_0000);
    assert!(test_bit(0x8000_0000, 31));
    assert!(!test_bit(0x8000_0000, 30));
}

#[test]
fn execctrl_matches_the_access_crate() {
    for word in WORDS {
        for value in [0u8, 1, 17, 31, 32, 255] {
            let mut pac = SmExecctrl(word);
            pac.set_wrap_top(value);
            assert_eq!(Execctrl(word).with_wrap_top(value).0, pac.0);
            assert_eq!(Execctrl(word).wrap_top(), SmExecctrl(word).wrap_top());
            let mut pac = SmExecctrl(word);
            pac.set_wrap_bottom(value);
            assert_eq!(Execctrl(word).with_wrap_bottom(value).0, pac.0);
            assert_eq!(Execctrl(word).wrap_bottom(), SmExecctrl(word).wrap_bottom());
            let mut pac = SmExecctrl(word);
            pac.set_jmp_pin(value);
            assert_eq!(Execctrl(word).with_jmp_pin(value).0, pac.0);
            assert_eq!(Execctrl(word).jmp_pin(), SmExecctrl(word).jmp_pin());
        }
        for flag in [false, true] {
            let mut pac = SmExecctrl(word);
            pac.set_side_en(flag);
            assert_eq!(Execctrl(word).with_side_en(flag).0, pac.0);
            let mut pac = SmExecctrl(word);
            pac.set_side_pindir(flag);
            assert_eq!(Execctrl(word).with_side_pindir(flag).0, pac.0);
        }
        assert_eq!(Execctrl(word).side_en(), SmExecctrl(word).side_en());
        assert_eq!(Execctrl(word).side_pindir(), SmExecctrl(word).side_pindir());
    }
}

#[test]
fn shiftctrl_matches_the_access_crate() {
    for word in WORDS {
        for value in [0u8, 1, 17, 31, 32, 255] {
            let mut pac = SmShiftctrl(word);
            pac.set_push_thresh(value);
            assert_eq!(Shiftctrl(word).with_push_thresh(value).0, pac.0);
            let mut pac = SmShiftctrl(word);
            pac.set_pull_thresh(value);
            assert_eq!(Shiftctrl(word).with_pull_thresh(value).0, pac.0);
        }
        assert_eq!(Shiftctrl(word).push_thresh(), SmShiftctrl(word).push_thresh());
        assert_eq!(Shiftctrl(word).pull_thresh(), SmShiftctrl(word).pull_thresh());
        for flag in [false, true] {
            let mut pac = SmShiftctrl(word);
            pac.set_autopush(flag);
            assert_eq!(Shiftctrl(word).with_autopush(flag).0, pac.0);
            let mut pac = SmShiftctrl(word);
            pac.set_autopull(flag);
            assert_eq!(Shiftctrl(word).with_autopull(flag).0, pac.0);
            let mut pac = SmShiftctrl(word);
            pac.set_in_shiftdir(flag);
            assert_eq!(Shiftctrl(word).with_in_shiftdir(flag).0, pac.0);
            let mut pac = SmShiftctrl(word);
            pac.set_out_shiftdir(flag);
            assert_eq!(Shiftctrl(word).with_out_shiftdir(flag).0, pac.0);
            let mut pac = SmShiftctrl(word);
            pac.set_fjoin_tx(flag);
            assert_eq!(Shiftctrl(word).with_fjoin_tx(flag).0, pac.0);
            let mut pac = SmShiftctrl(word);
            pac.set_fjoin_rx(flag);
            assert_eq!(Shiftctrl(word).with_fjoin_rx(flag).0, pac.0);
        }
        assert_eq!(Shiftctrl(word).autopush(), SmShiftctrl(word).autopush());
        assert_eq!(Shiftctrl(word).autopull(), SmShiftctrl(word).autopull());
        assert_eq!(Shiftctrl(word).in_shiftdir(), SmShiftctrl(word).in_shiftdir());
        assert_eq!(Shiftctrl(word).out_shiftdir(), SmShiftctrl(word).out_shiftdir());
        assert_eq!(Shiftctrl(word).fjoin_tx(), SmShiftctrl(word).fjoin_tx());
        assert_eq!(Shiftctrl(word).fjoin_rx(), SmShiftctrl(word).fjoin_rx());
    }
}

#[test]
fn pinctrl_matches_the_access_crate() {
    for word in WORDS {
        for value in [0u8, 1, 7, 8, 31, 32, 63, 64, 255] {
            let mut pac = SmPinctrl(word);
            pac.set_out_base(value);
            assert_eq!(Pinctrl(word).with_out_base(value).0, pac.0);
            let mut pac = SmPinctrl(word);
            pac.set_set_base(value);
            assert_eq!(Pinctrl(word).with_set_base(value).0, pac.0);
            let mut pac = SmPinctrl(word);
            pac.set_sideset_base(value);
            assert_eq!(Pinctrl(word).with_sideset_base(value).0, pac.0);
            let mut pac = SmPinctrl(word);
            pac.set_in_base(value);
            assert_eq!(Pinctrl(word).with_in_base(value).0, pac.0);
            let mut pac = SmPinctrl(word);
            pac.set_out_count(value);
            assert_eq!(Pinctrl(word).with_out_count(value).0, pac.0);
            let mut pac = SmPinctrl(word);
            pac.set_set_count(value);
            assert_eq!(Pinctrl(word).with_set_count(value).0, pac.0);
            let mut pac = SmPinctrl(word);
            pac.set_sideset_count(value);
            assert_eq!(Pinctrl(word).with_sideset_count(value).0, pac.0);
        }
        let pac = SmPinctrl(word);
        assert_eq!(Pinctrl(word).out_base(), pac.out_base());
        assert_eq!(Pinctrl(word).set_base(), pac.set_base());
        assert_eq!(Pinctrl(word).sideset_base(), pac.sideset_base());
        assert_eq!(Pinctrl(word).in_base(), pac.in_base());
        assert_eq!(Pinctrl(word).out_count(), pac.out_count());
        assert_eq!(Pinctrl(word).set_count(), pac.set_count());
        assert_eq!(Pinctrl(word).sideset_count(), pac.sideset_count());
    }
}

#[test]
fn pad_control_matches_the_access_crate() {
    for word in WORDS {
        for code in [0u8, 1, 2, 3] {
            let mut pac = GpioCtrl(word);
            pac.set_drive(vals::Drive(code));
            assert_eq!(PadCtrl(word).with_drive(code).0, pac.0);
        }
        for flag in [false, true] {
            let mut pac = GpioCtrl(word);
            pac.set_slewfast(flag);
            assert_eq!(PadCtrl(word).with_slewfast(flag).0, pac.0);
            let mut pac = GpioCtrl(word);
            pac.set_schmitt(flag);
            assert_eq!(PadCtrl(word).with_schmitt(flag).0, pac.0);
            let mut pac = GpioCtrl(word);
            pac.set_pde(flag);
            assert_eq!(PadCtrl(word).with_pde(flag).0, pac.0);
            let mut pac = GpioCtrl(word);
            pac.set_pue(flag);
            assert_eq!(PadCtrl(word).with_pue(flag).0, pac.0);
        }
        assert_eq!(PadCtrl(word).drive(), GpioCtrl(word).drive().0);
        assert_eq!(PadCtrl(word).slewfast(), GpioCtrl(word).slewfast());
        assert_eq!(PadCtrl(word).schmitt(), GpioCtrl(word).schmitt());
        assert_eq!(PadCtrl(word).pde(), GpioCtrl(word).pde());
        assert_eq!(PadCtrl(word).pue(), GpioCtrl(word).pue());
    }
}

#[test]
fn dma_control_matches_the_access_crate() {
    for word in WORDS {
        for value in [0u8, 1, 2, 11, 15, 63] {
            let mut pac = CtrlTrig(word);
            pac.set_treq_sel(TreqSel(value));
            assert_eq!(DmaCtrl(word).with_treq_sel(value).0, pac.0);
            let mut pac = CtrlTrig(word);
            pac.set_data_size(DataSize(value));
            assert_eq!(DmaCtrl(word).with_data_size(value).0, pac.0);
            let mut pac = CtrlTrig(word);
            pac.set_chain_to(value);
            assert_eq!(DmaCtrl(word).with_chain_to(value).0, pac.0);
        }
        for flag in [false, true] {
            let mut pac = CtrlTrig(word);
            pac.set_incr_read(flag);
            assert_eq!(DmaCtrl(word).with_incr_read(flag).0, pac.0);
            let mut pac = CtrlTrig(word);
            pac.set_incr_write(flag);
            assert_eq!(DmaCtrl(word).with_incr_write(flag).0, pac.0);
            let mut pac = CtrlTrig(word);
            pac.set_en(flag);
            assert_eq!(DmaCtrl(word).with_en(flag).0, pac.0);
        }
        let pac = CtrlTrig(word);
        assert_eq!(DmaCtrl(word).treq_sel(), pac.treq_sel().0);
        assert_eq!(DmaCtrl(word).data_size(), pac.data_size().0);
        assert_eq!(DmaCtrl(word).chain_to(), pac.chain_to());
        assert_eq!(DmaCtrl(word).incr_read(), pac.incr_read());
        assert_eq!(DmaCtrl(word).incr_write(), pac.incr_write());
        assert_eq!(DmaCtrl(word).en(), pac.en());
    }
}

#[test]
fn block_addresses_match_the_access_crate() {
    for (base, pio) in [(memmap::PIO0_BASE, rp_pac::PIO0), (memmap::PIO1_BASE, rp_pac::PIO1)] {
        assert_eq!(base, pio.0 as usize as u32);
        assert_eq!(base + memmap::CTRL, pio.ctrl().ptr() as usize as u32);
        assert_eq!(base + memmap::FSTAT, pio.fstat().ptr() as usize as u32);
        assert_eq!(base + memmap::FDEBUG, pio.fdebug().ptr() as usize as u32);
        assert_eq!(base + memmap::FLEVEL, pio.flevel().ptr() as usize as u32);
        assert_eq!(base + memmap::TXF + 12, pio.txf(3).ptr() as usize as u32);
        assert_eq!(base + memmap::RXF + 12, pio.rxf(3).ptr() as usize as u32);
        assert_eq!(base + memmap::IRQ, pio.irq().ptr() as usize as u32);
        assert_eq!(base + memmap::IRQ_FORCE, pio.irq_force().ptr() as usize as u32);
        assert_eq!(base + memmap::INPUT_SYNC_BYPASS, pio.input_sync_bypass().ptr() as usize as u32);
        assert_eq!(base + memmap::INSTR_MEM + 124, pio.instr_mem(31).ptr() as usize as u32);
        assert_eq!(base + memmap::IRQ0_INTE, pio.irqs(0).inte().ptr() as usize as u32);
        assert_eq!(base + memmap::IRQ0_INTS, pio.irqs(0).ints().ptr() as usize as u32);
        let sm = pio.sm(2);
        let own = base + 0xc8 + 2 * 0x18;
        assert_eq!(own + memmap::CLKDIV, sm.clkdiv().ptr() as usize as u32);
        assert_eq!(own + memmap::EXECCTRL, sm.execctrl().ptr() as usize as u32);
        assert_eq!(own + memmap::SHIFTCTRL, sm.shiftctrl().ptr() as usize as u32);
        assert_eq!(own + memmap::ADDR, sm.addr().ptr() as usize as u32);
        assert_eq!(own + memmap::INSTR, sm.instr().ptr() as usize as u32);
        assert_eq!(own + memmap::PINCTRL, sm.pinctrl().ptr() as usize as u32);
    }
}

#[test]
fn pin_addresses_match_the_access_crate() {
    for pin in 0..30u8 {
        let n = pin as usize;
        let pad = rp_pac::PADS_BANK0.gpio(n).ptr() as usize as u32;
        let io = rp_pac::IO_BANK0.gpio(n).ctrl().ptr() as usize as u32;
        assert_eq!(memmap::pad_address(pin), pad);
        assert_eq!(memmap::io_ctrl_address(pin), io);
    }
    for pin in 0..6u8 {
        let n = pin as usize;
        let pad = rp_pac::PADS_QSPI.gpio(n).ptr() as usize as u32;
        let io = rp_pac::IO_QSPI.gpio(n).ctrl().ptr() as usize as u32;
        assert_eq!(memmap::pad_address(32 + pin), pad);
        assert_eq!(memmap::io_ctrl_address(32 + pin), io);
    }
}

#[test]
fn bit_groups_match_the_access_crate() {
    for sm in 0..4u32 {
        let own = 1u8 << sm;
        let mut ctrl = Ctrl(0);
        ctrl.set_sm_enable(own);
        assert_eq!(1 << (memmap::CTRL_SM_ENABLE + sm), ctrl.0);
        let mut ctrl = Ctrl(0);
        ctrl.set_sm_restart(own);
        assert_eq!(1 << (memmap::CTRL_SM_RESTART + sm), ctrl.0);
        let mut ctrl = Ctrl(0);
        ctrl.set_clkdiv_restart(own);
        assert_eq!(1 << (memmap::CTRL_CLKDIV_RESTART + sm), ctrl.0);
        let mut fstat = Fstat(0);
        fstat.set_rxfull(own);
        assert_eq!(1 << (memmap::FSTAT_RXFULL + sm), fstat.0);
        let mut fstat = Fstat(0);
        fstat.set_rxempty(own);
        assert_eq!(1 << (memmap::FSTAT_RXEMPTY + sm), fstat.0);
        let mut fstat = Fstat(0);
        fstat.set_txfull(own);
        assert_eq!(1 << (memmap::FSTAT_TXFULL + sm), fstat.0);
        let mut fstat = Fstat(0);
        fstat.set_txempty(own);
        assert_eq!(1 << (memmap::FSTAT_TXEMPTY + sm), fstat.0);
        let mut fdebug = Fdebug(0);
        fdebug.set_rxstall(own);
        assert_eq!(1 << (memmap::FDEBUG_RXSTALL + sm), fdebug.0);
        let mut fdebug = Fdebug(0);
        fdebug.set_rxunder(own);
        assert_eq!(1 << (memmap::FDEBUG_RXUNDER + sm), fdebug.0);
        let mut fdebug = Fdebug(0);
        fdebug.set_txover(own);
        assert_eq!(1 << (memmap::FDEBUG_TXOVER + sm), fdebug.0);
        let mut fdebug = Fdebug(0);
        fdebug.set_txstall(own);
        assert_eq!(1 << (memmap::FDEBUG_TXSTALL + sm), fdebug.0);
    }
}

#[test]
fn interrupt_masks_match_the_access_crate() {
    let mut intr = Intr(0);
    intr.set_sm0_rxnempty(true);
    assert_eq!(futures::RXNEMPTY_MASK, intr.0);
    let mut intr = Intr(0);
    intr.set_sm0_txnfull(true);
    assert_eq!(futures::TXNFULL_MASK, intr.0);
    let mut intr = Intr(0);
    intr.set_sm0(true);
    assert_eq!(futures::SMIRQ_MASK, intr.0);
}

#[test]
fn fifo_levels_match_the_access_crate() {
    let pio = Pio::new(PIO0);
    for word in WORDS {
        let mut m = SimulatedPlatform::new();
        m.write(memmap::PIO0_BASE + memmap::FLEVEL, word);
        let pac = Flevel(word);
        assert_eq!(pio.sm0.tx_level(&mut m), pac.tx0());
        assert_eq!(pio.sm0.rx_level(&mut m), pac.rx0());
        assert_eq!(pio.sm1.tx_level(&mut m), pac.tx1());
        assert_eq!(pio.sm1.rx_level(&mut m), pac.rx1());
        assert_eq!(pio.sm2.tx_level(&mut m), pac.tx2());
        assert_eq!(pio.sm2.rx_level(&mut m), pac.rx2());
        assert_eq!(pio.sm3.tx_level(&mut m), pac.tx3());
        assert_eq!(pio.sm3.rx_level(&mut m), pac.rx3());
    }
}

#[test]
fn irq_words_match_the_access_crate() {
    for irq_no in 0..8usize {
        let mut m = SimulatedPlatform::new();
        let mut pio = Pio::new(PIO0);
        pio.common.force_irq(&mut m, irq_no);
        pio.common.clear_irq(&mut m, irq_no);
        let mut force = IrqForce(0);
        force.set_irq_force(1 << irq_no);
        let mut clear = Irq(0);
        clear.set_irq(1 << irq_no);
        let base = memmap::PIO0_BASE;
        let forced = Event::Write { addr: base + memmap::IRQ_FORCE, value: force.0 };
        let cleared = Event::Write { addr: base + memmap::IRQ, value: clear.0 };
        assert_eq!(m.event(0), forced);
        assert_eq!(m.event(1), cleared);
    }
}
