# rp_pio

A verified driver for the programmable I/O (PIO) blocks of the RP2040: instruction memory, state
machine settings, FIFOs, IRQ flags, pins, DMA set-up, and the waits of asynchronous tasks.

The driver runs on any `Platform`. Each thing that it does to the machine (a load, a store, a fence,
waking a task, ...) is one event of the platform's trace, and each contract says which events a call
adds and how its result follows from the words that were loaded.

- `src/platform.rs`: the machine as the driver sees it: the steps, and what each adds to the trace.
- `src/simulated.rs`: a machine made of registers that change by stores alone.
- `src/bits.rs`, `src/regs.rs`, `src/memmap.rs`: bit fields, register words, addresses.
- `src/instance.rs`, `src/common.rs`, `src/sm.rs`, `src/pin.rs`: blocks, what their state machines
  share, the state machines, pins.
- `src/futures.rs`, `src/interrupts.rs`: waiting, and the interrupt handler that ends a wait.
- `src/laws/`: what holds across calls.
- `app/`: the driver on the chip itself. Its machine is ordinary Rust: that its steps are those that
  the trace records is not proved.
