# orbit

The verified core of Orbit, an exokernel-style operating system for RISC-V
microcontrollers (CH32V, CH592 and similar chips).

`src/` holds the kernel's logic, with its specifications and proofs, as
functions from state and event to new state and actions:

- `kernel`: the run queue (`scheduler`), the handling of `Invoke` packets
  (`message_handlers`), the cause of a trap (`trap`) and the `Kernel` with
  its port, interrupt and system-call handlers.  Handlers return
  `KernelAction`s (port writes, interrupt enables and disables) instead of
  touching hardware.
- `port`: what a port does with a received frame (acknowledgements,
  fragment reassembly), the line buffer, the UART register values and the
  pin set-up of each chip's UARTs.
- `protocol`: packets in the framing of the `spaceport` crate, which encodes
  and decodes them.
- `task`, `context`, `syscall`, `message`, `action`, `ringbuf`: the data the
  handlers work on.
- `arch`, `pmp_entry`, `clock`: decisions for the physical memory protection
  unit and the chips' clock set-up.
- `orbit_main`: reading the arguments of the image-building macros.
- `usizebuf`, `bytes`, `id`, `claim`, `common`, `peripherals`: helpers.

`app/` is the hardware side: the `Application` trait, register accesses,
clock set-up, the event loop that performs the kernel's actions, and the
code the image-building macros generate.
