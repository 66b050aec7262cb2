use rp_pio::common::Pio;
use rp_pio::futures::{FifoInFuture, FifoOutFuture, IrqFuture, Poll};
use rp_pio::instance::{PIO0, PIO1};
use rp_pio::interrupts::{init, irq_0};
use rp_pio::platform::{Event, Platform};
use rp_pio::simulated::SimulatedPlatform;
use rp_pio::sm::PioStateMachine;

fn since(m: &SimulatedPlatform, start: usize) -> Vec<Event> {
    (start..m.len()).map(|i| m.event(i)).collect()
}

fn read(addr: u32, value: u32) -> Event {
    Event::Read { addr, value }
}

fn write(addr: u32, value: u32) -> Event {
    Event::Write { addr, value }
}

#[test]
fn push_waits_for_room() {
    let mut m = SimulatedPlatform::new();
    let mut pio = Pio::new(PIO1);
    m.write(0x5030_0004, 0x0004_0000);
    let mut future = pio.sm2.wait_push(77);
    assert_eq!(future.poll(&mut m), Poll::Pending);
    assert_eq!(
        since(&m, 1),
        vec![
            read(0x5030_0004, 0x0004_0000),
            Event::RegisterWaker { pio: 1, slot: 6 },
            write(0x5030_212c, 0x40),
        ]
    );
    m.write(0x5030_0004, 0);
    assert_eq!(future.poll(&mut m), Poll::Ready(()));
    assert_eq!(since(&m, 5), vec![read(0x5030_0004, 0), write(0x5030_0018, 77)]);
    future.drop(&mut m);
    assert_eq!(since(&m, 7), vec![write(0x5030_312c, 0x40)]);
}

#[test]
fn pull_waits_for_a_word() {
    let mut m = SimulatedPlatform::new();
    let mut pio = Pio::new(PIO0);
    m.write(0x5020_0004, 0x0000_0800);
    m.write(0x5020_002c, 99);
    let mut future = pio.sm3.wait_pull();
    assert_eq!(future.poll(&mut m), Poll::Pending);
    assert_eq!(
        since(&m, 2),
        vec![
            read(0x5020_0004, 0x0000_0800),
            Event::RegisterWaker { pio: 0, slot: 3 },
            write(0x5020_212c, 8),
        ]
    );
    m.write(0x5020_0004, 0);
    assert_eq!(future.poll(&mut m), Poll::Ready(99));
    assert_eq!(since(&m, 6), vec![read(0x5020_0004, 0), read(0x5020_002c, 99)]);
    future.drop(&mut m);
    assert_eq!(since(&m, 8), vec![write(0x5020_312c, 8)]);
}

#[test]
fn flag_is_waited_for() {
    let mut m = SimulatedPlatform::new();
    let pio = Pio::new(PIO0);
    let mut future = pio.sm0.wait_irq(2);
    assert_eq!(future.poll(&mut m), Some(Poll::Pending));
    assert_eq!(
        since(&m, 0),
        vec![
            Event::EnterCritical,
            read(0x5020_0030, 0),
            Event::LeaveCritical,
            Event::RegisterWaker { pio: 0, slot: 10 },
            write(0x5020_212c, 0x400),
        ]
    );
    m.write(0x5020_0034, 0x0c);
    assert_eq!(future.poll(&mut m), Some(Poll::Ready(())));
    assert_eq!(
        since(&m, 6),
        vec![
            Event::EnterCritical,
            read(0x5020_0030, 0x0c),
            write(0x5020_0030, 4),
            Event::LeaveCritical,
        ]
    );
    future.drop(&mut m);
    assert_eq!(since(&m, 10), vec![write(0x5020_312c, 0x400)]);
}

#[test]
fn upper_flags_cannot_wake() {
    let mut m = SimulatedPlatform::new();
    let mut future = IrqFuture::<PIO1>::new(5);
    assert_eq!(future.poll(&mut m), None);
    assert_eq!(
        since(&m, 0),
        vec![Event::EnterCritical, read(0x5030_0030, 0), Event::LeaveCritical]
    );
    m.write(0x5030_0034, 0x20);
    assert_eq!(future.poll(&mut m), Some(Poll::Ready(())));
    assert_eq!(m.event(6), write(0x5030_0030, 0x20));
}

#[test]
fn futures_are_made_from_state_machines() {
    let mut m = SimulatedPlatform::new();
    let mut pio = Pio::new(PIO0);
    let mut out: FifoOutFuture<'_, PIO0, _> = FifoOutFuture::new(&mut pio.sm0, 5);
    assert_eq!(out.poll(&mut m), Poll::Ready(()));
    assert_eq!(m.event(1), write(0x5020_0010, 5));
    let mut input: FifoInFuture<'_, PIO0, _> = FifoInFuture::new(&mut pio.sm1);
    assert_eq!(input.poll(&mut m), Poll::Ready(0));
    assert_eq!(m.event(3), read(0x5020_0024, 0));
}

#[test]
fn handler_wakes_pending_slots() {
    let mut m = SimulatedPlatform::new();
    m.write(0x5020_012c, 0xffff);
    m.write(0x5020_0134, 0x1851);
    irq_0::<PIO0, _>(&mut m);
    assert_eq!(
        since(&m, 2),
        vec![
            read(0x5020_0134, 0x1851),
            Event::Wake { pio: 0, slot: 0 },
            Event::Wake { pio: 0, slot: 4 },
            Event::Wake { pio: 0, slot: 6 },
            Event::Wake { pio: 0, slot: 11 },
            write(0x5020_312c, 0x1851),
        ]
    );
    assert_eq!(m.word(0x5020_012c), 0xe7ae);
}

#[test]
fn handler_wakes_the_task_that_waits() {
    let mut m = SimulatedPlatform::new();
    let mut pio = Pio::new(PIO1);
    m.write(0x5030_0004, 0x0002_0000);
    assert_eq!(pio.sm1.wait_push(1).poll(&mut m), Poll::Pending);
    let enabled = m.word(0x5030_012c);
    assert_eq!(enabled, 0x20);
    m.write(0x5030_0134, enabled);
    let before = m.len();
    irq_0::<PIO1, _>(&mut m);
    assert_eq!(m.event(before + 1), Event::Wake { pio: 1, slot: 5 });
    assert_eq!(m.word(0x5030_012c), 0);
}

#[test]
fn waits_do_not_disturb_each_other() {
    let mut m = SimulatedPlatform::new();
    let mut pio = Pio::new(PIO0);
    m.write(0x5020_0004, 0x000f_0f00);
    let mut push = pio.sm0.wait_push(1);
    let mut pull = pio.sm1.wait_pull();
    assert_eq!(push.poll(&mut m), Poll::Pending);
    assert_eq!(pull.poll(&mut m), Poll::Pending);
    assert_eq!(m.word(0x5020_012c), 0x12);
    push.drop(&mut m);
    assert_eq!(m.word(0x5020_012c), 0x02);
    pull.drop(&mut m);
    assert_eq!(m.word(0x5020_012c), 0);
}

#[test]
fn init_makes_both_lines_ready() {
    let mut m = SimulatedPlatform::new();
    m.write(0x5020_012c, 0xfff);
    m.write(0x5030_012c, 0xfff);
    init(&mut m);
    assert_eq!(
        since(&m, 2),
        vec![
            Event::DisableInterrupt { pio: 0 },
            Event::SetInterruptPriority { pio: 0, priority: 3 },
            write(0x5020_012c, 0),
            Event::EnableInterrupt { pio: 0 },
            Event::DisableInterrupt { pio: 1 },
            Event::SetInterruptPriority { pio: 1, priority: 3 },
            write(0x5030_012c, 0),
            Event::EnableInterrupt { pio: 1 },
        ]
    );
    assert_eq!(m.word(0x5020_012c), 0);
    assert_eq!(m.word(0x5030_012c), 0);
}

#[test]
fn simulated_registers_have_aliases() {
    let mut m = SimulatedPlatform::new();
    m.write(0x5020_0000, 0b1100);
    m.write(0x5020_1000, 0b1010);
    assert_eq!(m.read(0x5020_0000), 0b0110);
    m.write(0x5020_2000, 0b1001);
    assert_eq!(m.read(0x5020_0000), 0b1111);
    m.write(0x5020_3000, 0b0101);
    assert_eq!(m.read(0x5020_0000), 0b1010);
    assert_eq!(m.word(0x5020_0004), 0);
}

#[test]
fn raised_flag_ends_one_wait() {
    let mut m = SimulatedPlatform::new();
    let mut pio = Pio::new(PIO1);
    pio.common.force_irq(&mut m, 1);
    pio.common.force_irq(&mut m, 6);
    assert_eq!(pio.sm0.wait_irq(1).poll(&mut m), Some(Poll::Ready(())));
    assert_eq!(pio.sm0.wait_irq(1).poll(&mut m), Some(Poll::Pending));
    assert_eq!(pio.sm0.wait_irq(6).poll(&mut m), Some(Poll::Ready(())));
    assert_eq!(pio.sm0.wait_irq(6).poll(&mut m), None);
    pio.common.force_irq(&mut m, 1);
    pio.common.clear_irq(&mut m, 1);
    assert_eq!(pio.sm0.wait_irq(1).poll(&mut m), Some(Poll::Pending));
}

#[test]
fn simulated_flags_clear_on_one() {
    let mut m = SimulatedPlatform::new();
    m.write(0x5030_0034, 0b0111);
    m.write(0x5030_0030, 0b0101);
    assert_eq!(m.read(0x5030_0030), 0b0010);
    assert_eq!(m.read(0x5020_0030), 0);
    m.write(0x5020_2008, 0b1100);
    m.write(0x5020_0008, 0b0100);
    assert_eq!(m.read(0x5020_0008), 0b1000);
}
