use rp_pio::common::Pio;
use rp_pio::instance::{PioInstance, PIO0, PIO1};
use rp_pio::pin::PioPin;
use rp_pio::platform::{Event, Platform};
use rp_pio::simulated::SimulatedPlatform;
use rp_pio::sm::{DataSize, FifoJoin, PioStateMachine, ShiftDirection};

fn events(m: &SimulatedPlatform) -> Vec<Event> {
    (0..m.len()).map(|i| m.event(i)).collect()
}

fn since(m: &SimulatedPlatform, start: usize) -> Vec<Event> {
    (start..m.len()).map(|i| m.event(i)).collect()
}

fn read(addr: u32, value: u32) -> Event {
    Event::Read { addr, value }
}

fn write(addr: u32, value: u32) -> Event {
    Event::Write { addr, value }
}

#[test]
fn numbers() {
    let pio = Pio::new(PIO0);
    assert_eq!(pio.sm0.sm_no(), 0);
    assert_eq!(pio.sm1.sm_no(), 1);
    assert_eq!(pio.sm2.sm_no(), 2);
    assert_eq!(pio.sm3.sm_no(), 3);
    assert_eq!(pio.sm3.pio_no(), 0);
    assert_eq!(Pio::new(PIO1).sm0.pio_no(), 1);
    assert_eq!(PIO0.pio(), 0);
    assert_eq!(PIO1.pio(), 1);
}

#[test]
fn restart_sets_one_bit() {
    let mut m = SimulatedPlatform::new();
    let mut pio = Pio::new(PIO1);
    pio.sm2.restart(&mut m);
    pio.sm2.clkdiv_restart(&mut m);
    assert_eq!(events(&m), vec![write(0x5030_2000, 0x40), write(0x5030_2000, 0x400)]);
}

#[test]
fn enable_is_read_back() {
    let mut m = SimulatedPlatform::new();
    let mut pio = Pio::new(PIO0);
    assert!(!pio.sm1.is_enabled(&mut m));
    pio.sm1.set_enable(&mut m, true);
    pio.sm3.set_enable(&mut m, true);
    assert!(pio.sm1.is_enabled(&mut m));
    assert!(!pio.sm2.is_enabled(&mut m));
    assert!(pio.sm3.is_enabled(&mut m));
    pio.sm1.set_enable(&mut m, false);
    assert!(!pio.sm1.is_enabled(&mut m));
    assert!(pio.sm3.is_enabled(&mut m));
    assert_eq!(m.event(1), write(0x5020_2000, 2));
    assert_eq!(m.event(6), write(0x5020_3000, 2));
}

#[test]
fn fifo_state() {
    let mut m = SimulatedPlatform::new();
    let pio = Pio::new(PIO0);
    m.write(0x5020_0004, 0x0801_0402);
    assert!(pio.sm3.is_tx_empty(&mut m));
    assert!(!pio.sm2.is_tx_empty(&mut m));
    assert!(pio.sm0.is_tx_full(&mut m));
    assert!(!pio.sm1.is_tx_full(&mut m));
    assert!(pio.sm2.is_rx_empty(&mut m));
    assert!(!pio.sm3.is_rx_empty(&mut m));
    assert!(pio.sm1.is_rx_full(&mut m));
    assert!(!pio.sm0.is_rx_full(&mut m));
}

#[test]
fn fifo_levels() {
    let mut m = SimulatedPlatform::new();
    let pio = Pio::new(PIO0);
    m.write(0x5020_000c, 0x8765_4321);
    assert_eq!(pio.sm0.tx_level(&mut m), 1);
    assert_eq!(pio.sm0.rx_level(&mut m), 2);
    assert_eq!(pio.sm1.tx_level(&mut m), 3);
    assert_eq!(pio.sm2.rx_level(&mut m), 6);
    assert_eq!(pio.sm3.tx_level(&mut m), 7);
    assert_eq!(pio.sm3.rx_level(&mut m), 8);
}

#[test]
fn push_only_when_not_full() {
    let mut m = SimulatedPlatform::new();
    let mut pio = Pio::new(PIO0);
    m.write(0x5020_0004, 0x0002_0000);
    assert!(!pio.sm1.try_push_tx(&mut m, 7));
    assert_eq!(since(&m, 1), vec![read(0x5020_0004, 0x0002_0000)]);
    assert!(pio.sm2.try_push_tx(&mut m, 8));
    assert_eq!(since(&m, 2), vec![read(0x5020_0004, 0x0002_0000), write(0x5020_0018, 8)]);
    pio.sm1.push_tx(&mut m, 9);
    assert_eq!(m.event(4), write(0x5020_0014, 9));
}

#[test]
fn pull_only_when_not_empty() {
    let mut m = SimulatedPlatform::new();
    let mut pio = Pio::new(PIO0);
    m.write(0x5020_0004, 0x0000_0200);
    m.write(0x5020_0028, 0x1234);
    assert_eq!(pio.sm1.try_pull_rx(&mut m), None);
    assert_eq!(since(&m, 2), vec![read(0x5020_0004, 0x200)]);
    assert_eq!(pio.sm2.try_pull_rx(&mut m), Some(0x1234));
    assert_eq!(since(&m, 3), vec![read(0x5020_0004, 0x200), read(0x5020_0028, 0x1234)]);
    assert_eq!(pio.sm2.pull_rx(&mut m), 0x1234);
}

#[test]
fn clock_divisor_is_read_back() {
    let mut m = SimulatedPlatform::new();
    let mut pio = Pio::new(PIO0);
    pio.sm0.set_clkdiv(&mut m, 0x0001_2580);
    assert_eq!(m.event(0), write(0x5020_00c8, 0x0125_8000));
    assert_eq!(pio.sm0.get_clkdiv(&mut m), 0x0001_2580);
    pio.sm0.set_clkdiv(&mut m, 0xff01_2580);
    assert_eq!(pio.sm0.get_clkdiv(&mut m), 0x0001_2580);
}

#[test]
fn execution_settings_are_read_back() {
    let mut m = SimulatedPlatform::new();
    let mut pio = Pio::new(PIO0);
    m.write(0x5020_00e4, 0x8006_001f);
    pio.sm1.set_wrap(&mut m, 31, 3);
    assert_eq!(since(&m, 1), vec![read(0x5020_00e4, 0x8006_001f), write(0x5020_00e4, 0x8007_f19f)]);
    pio.sm1.set_side_enable(&mut m, true);
    pio.sm1.set_side_pindir(&mut m, true);
    pio.sm1.set_jmp_pin(&mut m, 21);
    assert_eq!(pio.sm1.get_wrap(&mut m), (31, 3));
    assert!(pio.sm1.is_side_enabled(&mut m));
    assert!(pio.sm1.is_side_pindir(&mut m));
    assert_eq!(pio.sm1.get_jmp_pin(&mut m), 21);
    pio.sm1.set_side_enable(&mut m, false);
    pio.sm1.set_side_pindir(&mut m, false);
    pio.sm1.set_wrap(&mut m, 32 + 5, 64 + 6);
    assert_eq!(pio.sm1.get_wrap(&mut m), (5, 6));
    assert!(!pio.sm1.is_side_enabled(&mut m));
    assert!(!pio.sm1.is_side_pindir(&mut m));
    assert_eq!(pio.sm1.get_jmp_pin(&mut m), 21);
    assert_eq!(m.word(0x5020_00e4) & 0x80fe_007f, 0x8006_001f);
}

#[test]
fn fifo_join_is_read_back() {
    let mut m = SimulatedPlatform::new();
    let mut pio = Pio::new(PIO0);
    for join in [FifoJoin::RxOnly, FifoJoin::TxOnly, FifoJoin::Duplex] {
        pio.sm0.set_fifo_join(&mut m, join);
        assert_eq!(pio.sm0.get_fifo_join(&mut m), join);
    }
    m.write(0x5020_00d0, 0xc000_0000);
    assert_eq!(pio.sm0.get_fifo_join(&mut m), FifoJoin::RxOnly);
    pio.sm0.set_fifo_join(&mut m, FifoJoin::TxOnly);
    assert_eq!(m.word(0x5020_00d0), 0x4000_0000);
}

#[test]
fn clear_fifos_toggles_and_restores() {
    let mut m = SimulatedPlatform::new();
    let mut pio = Pio::new(PIO0);
    m.write(0x5020_00d0, 0x4001_0203);
    pio.sm0.clear_fifos(&mut m);
    assert_eq!(
        since(&m, 1),
        vec![
            read(0x5020_00d0, 0x4001_0203),
            write(0x5020_00d0, 0xc001_0203),
            read(0x5020_00d0, 0xc001_0203),
            write(0x5020_00d0, 0x4001_0203),
        ]
    );
    assert_eq!(m.word(0x5020_00d0), 0x4001_0203);
}

#[test]
fn shift_settings_are_read_back() {
    let mut m = SimulatedPlatform::new();
    let mut pio = Pio::new(PIO1);
    pio.sm3.set_pull_threshold(&mut m, 32);
    assert_eq!(pio.sm3.get_pull_threshold(&mut m), 0);
    pio.sm3.set_pull_threshold(&mut m, 24);
    pio.sm3.set_push_threshold(&mut m, 8);
    pio.sm3.set_out_shift_dir(&mut m, ShiftDirection::Right);
    pio.sm3.set_in_shift_dir(&mut m, ShiftDirection::Left);
    pio.sm3.set_autopull(&mut m, true);
    pio.sm3.set_autopush(&mut m, false);
    assert_eq!(pio.sm3.get_pull_threshold(&mut m), 24);
    assert_eq!(pio.sm3.get_push_threshold(&mut m), 8);
    assert_eq!(pio.sm3.get_out_shiftdir(&mut m), ShiftDirection::Right);
    assert_eq!(pio.sm3.get_in_shiftdir(&mut m), ShiftDirection::Left);
    assert!(pio.sm3.is_autopull(&mut m));
    assert!(!pio.sm3.is_autopush(&mut m));
    assert_eq!(m.word(0x5030_0118), 24 * 0x200_0000 + 8 * 0x10_0000 + 0x8_0000 + 0x2_0000);
    pio.sm3.set_out_shift_dir(&mut m, ShiftDirection::Left);
    pio.sm3.set_in_shift_dir(&mut m, ShiftDirection::Right);
    pio.sm3.set_autopush(&mut m, true);
    assert_eq!(pio.sm3.get_out_shiftdir(&mut m), ShiftDirection::Left);
    assert_eq!(pio.sm3.get_in_shiftdir(&mut m), ShiftDirection::Right);
    assert!(pio.sm3.is_autopush(&mut m));
}

#[test]
fn program_counter_and_instruction() {
    let mut m = SimulatedPlatform::new();
    let mut pio = Pio::new(PIO0);
    m.write(0x5020_00d4, 0xffff_ff37);
    assert_eq!(pio.sm0.get_addr(&mut m), 0x17);
    pio.sm0.exec_instr(&mut m, 0xe081);
    assert_eq!(m.event(2), write(0x5020_00d8, 0xe081));
    m.write(0x5020_00d8, 0x1_0042);
    assert_eq!(current(&pio.sm0, &mut m), 0x1_0042);
}

fn current<S: PioStateMachine>(_sm: &S, m: &mut SimulatedPlatform) -> u32 {
    S::get_current_instr(m)
}

fn pins(m: &mut SimulatedPlatform, pio: &Pio<'_, PIO0>, numbers: &[u8]) -> Vec<PioPin<PIO0>> {
    numbers.iter().map(|n| pio.common.make_pio_pin(m, *n)).collect()
}

#[test]
fn pin_ranges_are_read_back() {
    let mut m = SimulatedPlatform::new();
    let mut pio = Pio::new(PIO0);
    pio.sm0.set_sideset_count(&mut m, 5);
    pio.sm0.set_set_range(&mut m, 3, 5);
    pio.sm0.set_out_range(&mut m, 0, 31);
    assert_eq!(pio.sm0.get_sideset_count(&mut m), 5);
    assert_eq!(pio.sm0.get_set_range(&mut m), (3, 5));
    assert_eq!(pio.sm0.get_out_range(&mut m), (0, 31));
    assert_eq!(m.word(0x5020_00dc), (5 << 29) + (5 << 26) + (31 << 20) + (3 << 5));
    pio.sm0.set_set_range(&mut m, 3, 10);
    assert_eq!(pio.sm0.get_set_range(&mut m), (3, 2));
    pio.sm0.set_sideset_count(&mut m, 9);
    assert_eq!(pio.sm0.get_sideset_count(&mut m), 1);
}

#[test]
fn pins_are_read_back() {
    let mut m = SimulatedPlatform::new();
    let mut pio = Pio::new(PIO0);
    let p = pins(&mut m, &pio, &[9, 10, 11, 12]);
    let refs: Vec<&PioPin<PIO0>> = p.iter().collect();
    pio.sm0.set_out_pins(&mut m, &refs);
    pio.sm0.set_set_pins(&mut m, &refs[1..3]);
    pio.sm0.set_in_base_pin(&mut m, &p[2]);
    pio.sm0.set_sideset_base_pin(&mut m, &p[3]);
    assert_eq!(pio.sm0.get_out_range(&mut m), (9, 4));
    assert_eq!(pio.sm0.get_set_range(&mut m), (10, 2));
    assert_eq!(pio.sm0.get_in_base(&mut m), 11);
    assert_eq!(pio.sm0.get_sideset_base(&mut m), 12);
}

#[test]
fn sticky_flags_are_taken() {
    let mut m = SimulatedPlatform::new();
    let pio = Pio::new(PIO0);
    m.write(0x5020_2008, 0x0200_0000);
    assert!(pio.sm1.has_tx_stalled(&mut m));
    assert_eq!(since(&m, 1), vec![read(0x5020_0008, 0x0200_0000), write(0x5020_0008, 0x0200_0000)]);
    assert!(!pio.sm1.has_tx_stalled(&mut m));
    m.write(0x5020_2008, 0x0004_0000);
    assert!(!pio.sm1.has_tx_overflowed(&mut m));
    assert_eq!(m.event(m.len() - 1), write(0x5020_0008, 0x0002_0000));
    assert!(pio.sm2.has_tx_overflowed(&mut m));
    assert!(!pio.sm2.has_tx_overflowed(&mut m));
    m.write(0x5020_2008, 0x0000_0008);
    assert!(pio.sm3.has_rx_stalled(&mut m));
    assert_eq!(m.event(m.len() - 1), write(0x5020_0008, 8));
    assert!(!pio.sm3.has_rx_stalled(&mut m));
    m.write(0x5020_2008, 0x0000_0100);
    assert!(pio.sm0.has_rx_underflowed(&mut m));
    assert_eq!(m.event(m.len() - 1), write(0x5020_0008, 0x100));
    assert!(!pio.sm0.has_rx_underflowed(&mut m));
}

#[test]
fn dma_feeds_the_tx_fifo() {
    let mut m = SimulatedPlatform::new();
    let pio = Pio::new(PIO1);
    pio.sm2.dma_push(&mut m, 3, DataSize::Word, 0x2000_1000, 16);
    let mut ctrl = rp_pac::dma::regs::CtrlTrig(0);
    ctrl.set_treq_sel(rp_pac::dma::vals::TreqSel(10));
    ctrl.set_data_size(rp_pac::dma::vals::DataSize::SIZE_WORD);
    ctrl.set_chain_to(3);
    ctrl.set_incr_read(true);
    ctrl.set_en(true);
    assert_eq!(
        events(&m),
        vec![
            write(0x5000_00c0, 0x2000_1000),
            write(0x5000_00c4, 0x5030_0018),
            write(0x5000_00c8, 16),
            Event::Fence,
            write(0x5000_00cc, ctrl.0),
            Event::Fence,
        ]
    );
    assert_eq!(rp_pac::DMA.ch(3).ctrl_trig().ptr() as usize, 0x5000_00cc);
}

#[test]
fn dma_drains_the_rx_fifo() {
    let mut m = SimulatedPlatform::new();
    let pio = Pio::new(PIO0);
    pio.sm3.dma_pull(&mut m, 11, DataSize::HalfWord, 0x2000_2000, 5);
    let mut ctrl = rp_pac::dma::regs::CtrlTrig(0);
    ctrl.set_treq_sel(rp_pac::dma::vals::TreqSel(7));
    ctrl.set_data_size(rp_pac::dma::vals::DataSize::SIZE_HALFWORD);
    ctrl.set_chain_to(11);
    ctrl.set_incr_write(true);
    ctrl.set_en(true);
    assert_eq!(
        events(&m),
        vec![
            write(0x5000_02c4, 0x2000_2000),
            write(0x5000_02c0, 0x5020_002c),
            write(0x5000_02c8, 5),
            Event::Fence,
            write(0x5000_02cc, ctrl.0),
            Event::Fence,
        ]
    );
    pio.sm0.dma_push(&mut m, 0, DataSize::Byte, 0, 0);
    assert_eq!(m.event(10), write(0x5000_000c, 0x11));
}

#[test]
fn state_machines_are_apart() {
    let mut m = SimulatedPlatform::new();
    let mut pio0 = Pio::new(PIO0);
    let pio1 = Pio::new(PIO1);
    pio0.sm1.set_wrap(&mut m, 17, 4);
    pio0.sm1.set_clkdiv(&mut m, 0x1234);
    assert_eq!(pio0.sm1.get_wrap(&mut m), (17, 4));
    assert_eq!(pio0.sm0.get_wrap(&mut m), (0, 0));
    assert_eq!(pio0.sm2.get_wrap(&mut m), (0, 0));
    assert_eq!(pio1.sm1.get_wrap(&mut m), (0, 0));
    assert_eq!(pio0.sm2.get_clkdiv(&mut m), 0);
    assert_eq!(pio1.sm1.get_clkdiv(&mut m), 0);
}

fn request<S: PioStateMachine>(sm: &S, feed: bool) -> u8 {
    let mut m = SimulatedPlatform::new();
    if feed {
        sm.dma_push(&mut m, 1, DataSize::Word, 0, 1);
    } else {
        sm.dma_pull(&mut m, 1, DataSize::Word, 0, 1);
    }
    rp_pac::dma::regs::CtrlTrig(m.word(0x5000_004c)).treq_sel().0
}

#[test]
fn dma_requests_are_distinct() {
    let mut requests = Vec::new();
    let pio0 = Pio::new(PIO0);
    let pio1 = Pio::new(PIO1);
    for feed in [true, false] {
        requests.push(request(&pio0.sm0, feed));
        requests.push(request(&pio0.sm1, feed));
        requests.push(request(&pio0.sm2, feed));
        requests.push(request(&pio0.sm3, feed));
        requests.push(request(&pio1.sm0, feed));
        requests.push(request(&pio1.sm1, feed));
        requests.push(request(&pio1.sm2, feed));
        requests.push(request(&pio1.sm3, feed));
    }
    assert_eq!(requests, vec![0, 1, 2, 3, 8, 9, 10, 11, 4, 5, 6, 7, 12, 13, 14, 15]);
}

#[test]
fn sticky_flags_are_apart() {
    let mut m = SimulatedPlatform::new();
    let pio = Pio::new(PIO0);
    pio.sm2.has_tx_stalled(&mut m);
    pio.sm2.has_tx_overflowed(&mut m);
    pio.sm2.has_rx_underflowed(&mut m);
    pio.sm2.has_rx_stalled(&mut m);
    assert_eq!(m.event(1), write(0x5020_0008, 0x0400_0000));
    assert_eq!(m.event(3), write(0x5020_0008, 0x0004_0000));
    assert_eq!(m.event(5), write(0x5020_0008, 0x0000_0400));
    assert_eq!(m.event(7), write(0x5020_0008, 0x0000_0004));
}

#[test]
fn settings_survive_the_setters_of_others() {
    let mut m = SimulatedPlatform::new();
    let mut pio = Pio::new(PIO0);
    m.write(0x5020_00cc, 0x8000_0000);
    pio.sm0.set_wrap(&mut m, 9, 2);
    pio.sm0.set_jmp_pin(&mut m, 31);
    pio.sm0.set_side_enable(&mut m, true);
    assert_eq!(pio.sm0.get_wrap(&mut m), (9, 2));
    pio.sm0.set_enable(&mut m, true);
    pio.sm1.set_enable(&mut m, false);
    pio.sm0.restart(&mut m);
    assert!(pio.sm0.is_enabled(&mut m));
}
