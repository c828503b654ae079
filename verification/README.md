# lc3_utp

A verified core for an LC-3 teaching platform: the instruction set, an
instruction level simulator, the peripheral interfaces, and the pieces that
move messages between a device and a host.

## Layout

- `src/` — the library, written in Verus and verified:
  - `isa`: words, registers, addresses and instruction decoding;
  - `misc`: memory images and the loading of assembled programs;
  - `mem_mapped`: the memory mapped registers (PSR, MCR and the device region);
  - `interp`, `interp_builder`, `interp_laws`: the simulator, specified over a
    model of the machine (`Cpu`) and of the devices behind the memory mapped
    registers, how it is put together, and the properties that span several of
    its operations; `runner`: running a program and checking where it ends up;
  - `peripherals`: the device interfaces (GPIO, ADC, PWM, timers, clock,
    keyboard, display) and their types, specified over a shared model of the
    devices (`DeviceState`) in which each call touches only its own device;
    `interrupts`: the interrupt sources in polling order; `device`: generic
    peripheral units over small hardware traits; `shims`: a keyboard built on
    a character source;
  - `fifo`: a bounded ring buffer;
  - `rpc`: message framing, the transport interface, a transport that
    multiplexes console I/O with control messages, character frames, and the
    receiving side of UART and DMA transports;
  - `control`, `error`: execution state, snapshots and errors.
- `tests/` — tests run against the compiled library.
- `app/` — what talks to hardware and the host: UART transports over
  `embedded-hal` and serial ports, HAL adapters for the generic peripheral
  units, a standard input keyboard source, and serializable copies of the
  message types.
