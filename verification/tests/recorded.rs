use rp_pio::common::Pio;
use rp_pio::futures::Poll;
use rp_pio::instance::{PIO0, PIO1};
use rp_pio::interrupts::{init, irq_0};
use rp_pio::platform::{Event, Platform};
use rp_pio::sm::{DataSize, PioStateMachine};

/// A machine on which every load yields the same word.
struct Recorder<'a> {
    log: &'a mut Vec<Event>,
    word: u32,
}

impl Platform for Recorder<'_> {
    fn read(&mut self, addr: u32) -> u32 {
        self.log.push(Event::Read { addr, value: self.word });
        self.word
    }

    fn write(&mut self, addr: u32, value: u32) {
        self.log.push(Event::Write { addr, value });
    }

    fn fence(&mut self) {
        self.log.push(Event::Fence);
    }

    fn enter_critical(&mut self) {
        self.log.push(Event::EnterCritical);
    }

    fn leave_critical(&mut self) {
        self.log.push(Event::LeaveCritical);
    }

    fn register_waker(&mut self, pio: u8, slot: usize) {
        self.log.push(Event::RegisterWaker { pio, slot });
    }

    fn wake(&mut self, pio: u8, slot: usize) {
        self.log.push(Event::Wake { pio, slot });
    }

    fn disable_interrupt(&mut self, pio: u8) {
        self.log.push(Event::DisableInterrupt { pio });
    }

    fn set_interrupt_priority(&mut self, pio: u8, priority: u8) {
        self.log.push(Event::SetInterruptPriority { pio, priority });
    }

    fn enable_interrupt(&mut self, pio: u8) {
        self.log.push(Event::EnableInterrupt { pio });
    }
}

#[test]
fn recorded_machine_waits_for_a_flag() {
    let mut log = Vec::new();
    let mut m = Recorder { log: &mut log, word: 0x10 };
    let pio = Pio::new(PIO0);
    assert_eq!(pio.sm0.wait_irq(4).poll(&mut m), Some(Poll::Ready(())));
    assert_eq!(pio.sm0.wait_irq(0).poll(&mut m), Some(Poll::Pending));
    assert_eq!(
        log,
        vec![
            Event::EnterCritical,
            Event::Read { addr: 0x5020_0030, value: 0x10 },
            Event::Write { addr: 0x5020_0030, value: 0x10 },
            Event::LeaveCritical,
            Event::EnterCritical,
            Event::Read { addr: 0x5020_0030, value: 0x10 },
            Event::LeaveCritical,
            Event::RegisterWaker { pio: 0, slot: 8 },
            Event::Write { addr: 0x5020_212c, value: 0x100 },
        ]
    );
}

#[test]
fn recorded_machine_starts_dma() {
    let mut log = Vec::new();
    let mut m = Recorder { log: &mut log, word: 0 };
    Pio::new(PIO0).sm0.dma_pull(&mut m, 0, DataSize::Byte, 0x2000_0000, 1);
    assert_eq!(
        log,
        vec![
            Event::Write { addr: 0x5000_0004, value: 0x2000_0000 },
            Event::Write { addr: 0x5000_0000, value: 0x5020_0020 },
            Event::Write { addr: 0x5000_0008, value: 1 },
            Event::Fence,
            Event::Write { addr: 0x5000_000c, value: (4 << 15) + 0x20 + 1 },
            Event::Fence,
        ]
    );
}

#[test]
fn recorded_machine_serves_interrupts() {
    let mut log = Vec::new();
    let mut m = Recorder { log: &mut log, word: 0x801 };
    init(&mut m);
    irq_0::<PIO1, _>(&mut m);
    assert_eq!(
        log,
        vec![
            Event::DisableInterrupt { pio: 0 },
            Event::SetInterruptPriority { pio: 0, priority: 3 },
            Event::Write { addr: 0x5020_012c, value: 0 },
            Event::EnableInterrupt { pio: 0 },
            Event::DisableInterrupt { pio: 1 },
            Event::SetInterruptPriority { pio: 1, priority: 3 },
            Event::Write { addr: 0x5030_012c, value: 0 },
            Event::EnableInterrupt { pio: 1 },
            Event::Read { addr: 0x5030_0134, value: 0x801 },
            Event::Wake { pio: 1, slot: 0 },
            Event::Wake { pio: 1, slot: 11 },
            Event::Write { addr: 0x5030_312c, value: 0x801 },
        ]
    );
}
