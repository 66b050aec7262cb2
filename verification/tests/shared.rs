use rp_pio::common::Pio;
use rp_pio::instance::{PIO0, PIO1};
use rp_pio::pin::{are_consecutive, Drive, PioPin, Pull, SlewRate};
use rp_pio::platform::{Event, Platform};
use rp_pio::simulated::SimulatedPlatform;

fn since(m: &SimulatedPlatform, start: usize) -> Vec<Event> {
    (start..m.len()).map(|i| m.event(i)).collect()
}

fn read(addr: u32, value: u32) -> Event {
    Event::Read { addr, value }
}

fn write(addr: u32, value: u32) -> Event {
    Event::Write { addr, value }
}

#[test]
fn program_is_written() {
    let mut m = SimulatedPlatform::new();
    let mut pio = Pio::new(PIO1);
    let _memory = pio.common.write_instr(&mut m, 30, vec![0xe081u16, 0x0000].into_iter());
    assert_eq!(since(&m, 0), vec![write(0x5030_00c0, 0xe081), write(0x5030_00c4, 0)]);
}

#[test]
fn start_counts_modulo_a_byte() {
    let mut m = SimulatedPlatform::new();
    let mut pio = Pio::new(PIO0);
    assert_eq!(pio.common.blocked_at(512 + 4, 1), None);
    let _memory = pio.common.write_instr(&mut m, 512 + 4, vec![1u16].into_iter());
    assert_eq!(since(&m, 0), vec![write(0x5020_0058, 1)]);
    assert_eq!(pio.common.blocked_at(4, 1), Some(4));
}

#[test]
fn used_memory_is_blocked_until_freed() {
    let mut m = SimulatedPlatform::new();
    let mut pio = Pio::new(PIO0);
    assert_eq!(pio.common.blocked_at(0, 32), None);
    let first = pio.common.write_instr(&mut m, 4, vec![1u16, 2, 3].into_iter());
    let second = pio.common.write_instr(&mut m, 10, vec![4u16].into_iter());
    assert_eq!(pio.common.blocked_at(0, 4), None);
    assert_eq!(pio.common.blocked_at(0, 5), Some(4));
    assert_eq!(pio.common.blocked_at(6, 1), Some(6));
    assert_eq!(pio.common.blocked_at(7, 3), None);
    assert_eq!(pio.common.blocked_at(7, 4), Some(10));
    pio.common.free_instr(first);
    assert_eq!(pio.common.blocked_at(0, 10), None);
    assert_eq!(pio.common.blocked_at(0, 11), Some(10));
    pio.common.free_instr(second);
    assert_eq!(pio.common.blocked_at(0, 32), None);
}

#[test]
fn memory_has_an_end() {
    let pio = Pio::new(PIO0);
    assert_eq!(pio.common.blocked_at(0, 33), Some(32));
    assert_eq!(pio.common.blocked_at(31, 2), Some(32));
    assert_eq!(pio.common.blocked_at(200, 1), Some(200));
    assert_eq!(pio.common.blocked_at(200, 0), None);
    assert_eq!(pio.common.blocked_at(usize::MAX, 1), Some(255));
}

#[test]
fn empty_program_uses_nothing() {
    let mut m = SimulatedPlatform::new();
    let mut pio = Pio::new(PIO0);
    let memory = pio.common.write_instr(&mut m, 200, Vec::<u16>::new().into_iter());
    assert_eq!(m.len(), 0);
    pio.common.free_instr(memory);
    assert_eq!(pio.common.blocked_at(0, 32), None);
}

#[test]
fn irq_flags() {
    let mut m = SimulatedPlatform::new();
    let mut pio = Pio::new(PIO0);
    pio.common.force_irq(&mut m, 0);
    pio.common.force_irq(&mut m, 7);
    assert!(pio.common.is_irq_set(&mut m, 0));
    assert!(!pio.common.is_irq_set(&mut m, 1));
    assert!(pio.common.is_irq_set(&mut m, 7));
    let before = m.len();
    pio.common.clear_irq(&mut m, 7);
    pio.common.clear_irqs(&mut m, 0xa4);
    pio.common.force_irq(&mut m, 3);
    assert_eq!(
        since(&m, before),
        vec![write(0x5020_0030, 0x80), write(0x5020_0030, 0xa4), write(0x5020_0034, 8)]
    );
    assert!(!pio.common.is_irq_set(&mut m, 7));
    assert!(pio.common.is_irq_set(&mut m, 0));
    assert!(pio.common.is_irq_set(&mut m, 3));
    pio.common.clear_irqs(&mut m, 0xff);
    assert!(!pio.common.is_irq_set(&mut m, 0));
    assert!(!pio.common.is_irq_set(&mut m, 3));
}

#[test]
fn bypass_changes_masked_pins_only() {
    let mut m = SimulatedPlatform::new();
    let mut pio = Pio::new(PIO0);
    m.write(0x5020_0038, 0x0000_00f0);
    pio.common.set_input_sync_bypass(&mut m, 0x0f0f_0f0f, 0x0000_ffff);
    assert_eq!(since(&m, 1), vec![write(0x5020_2038, 0x0f0f), write(0x5020_3038, 0xf0f0)]);
    assert_eq!(pio.common.get_input_sync_bypass(&mut m), 0x0f0f);
    m.write(0x5020_0038, 0xffff_0000);
    pio.common.set_input_sync_bypass(&mut m, 0, 0x00ff_0000);
    assert_eq!(pio.common.get_input_sync_bypass(&mut m), 0xff00_0000);
}

#[test]
fn pin_is_handed_over() {
    let mut m = SimulatedPlatform::new();
    let pin = Pio::new(PIO1).common.make_pio_pin(&mut m, 25);
    assert_eq!(pin.pin(), 25);
    assert_eq!(pin.pin_bank(), 25);
    assert_eq!(since(&m, 0), vec![write(0x4001_40cc, 7)]);
    let flash = Pio::new(PIO0).common.make_pio_pin(&mut m, 32 + 5);
    assert_eq!(flash.pin(), 5);
    assert_eq!(flash.pin_bank(), 37);
    assert_eq!(since(&m, 1), vec![write(0x4001_802c, 6)]);
}

#[test]
fn pad_settings() {
    let mut m = SimulatedPlatform::new();
    let mut pin = Pio::new(PIO0).common.make_pio_pin(&mut m, 2);
    m.write(0x4001_c00c, 0x56);
    pin.set_drive_strength(&mut m, Drive::_12mA);
    assert_eq!(since(&m, 2), vec![read(0x4001_c00c, 0x56), write(0x4001_c00c, 0x76)]);
    pin.set_drive_strength(&mut m, Drive::_2mA);
    assert_eq!(m.word(0x4001_c00c), 0x46);
    pin.set_drive_strength(&mut m, Drive::_4mA);
    assert_eq!(m.word(0x4001_c00c), 0x56);
    pin.set_drive_strength(&mut m, Drive::_8mA);
    assert_eq!(m.word(0x4001_c00c), 0x66);
    pin.set_slew_rate(&mut m, SlewRate::Fast);
    assert_eq!(m.word(0x4001_c00c), 0x67);
    pin.set_slew_rate(&mut m, SlewRate::Slow);
    assert_eq!(m.word(0x4001_c00c), 0x66);
    pin.set_schmitt(&mut m, false);
    assert_eq!(m.word(0x4001_c00c), 0x64);
    pin.set_schmitt(&mut m, true);
    assert_eq!(m.word(0x4001_c00c), 0x66);
}

#[test]
fn pull_is_as_asked() {
    let mut m = SimulatedPlatform::new();
    let mut pin = Pio::new(PIO0).common.make_pio_pin(&mut m, 33);
    m.write(0x4002_0008, 0x56);
    pin.set_pull(&mut m, Pull::Up);
    assert_eq!(m.word(0x4002_0008), 0x5a);
    pin.set_pull(&mut m, Pull::Down);
    assert_eq!(m.word(0x4002_0008), 0x56);
    pin.set_pull(&mut m, Pull::Off);
    assert_eq!(m.word(0x4002_0008), 0x52);
}

#[test]
fn pin_bypass_changes_one_pin() {
    let mut m = SimulatedPlatform::new();
    let mut pin = Pio::new(PIO0).common.make_pio_pin(&mut m, 29);
    m.write(0x5020_0038, 0x0000_0003);
    pin.set_input_sync_bypass(&mut m, true);
    assert_eq!(m.word(0x5020_0038), 0x2000_0003);
    pin.set_input_sync_bypass(&mut m, false);
    assert_eq!(m.word(0x5020_0038), 0x0000_0003);
    assert_eq!(
        since(&m, 2),
        vec![write(0x5020_2038, 0x2000_0000), write(0x5020_3038, 0x2000_0000)]
    );
}

#[test]
fn consecutive_pins() {
    let mut m = SimulatedPlatform::new();
    let common = Pio::new(PIO0).common;
    let numbers = [4u8, 5, 6, 8, 29];
    let pins: Vec<PioPin<PIO0>> =
        numbers.iter().map(|n| common.make_pio_pin(&mut m, *n)).collect();
    let refs: Vec<&PioPin<PIO0>> = pins.iter().collect();
    assert!(!are_consecutive(&refs[0..0]));
    assert!(are_consecutive(&refs[0..1]));
    assert!(are_consecutive(&refs[0..3]));
    assert!(!are_consecutive(&refs[0..4]));
    assert!(are_consecutive(&refs[4..5]));
    let repeated: Vec<&PioPin<PIO0>> = (0..5).map(|_| &pins[4]).collect();
    assert!(!are_consecutive(&repeated));
}
