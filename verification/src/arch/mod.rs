//! The processor side: the interfaces a core offers, and the decisions of
//! the RISC-V physical memory protection unit and the core's timer.
pub mod interface;
pub mod pmp;
pub mod qingke_cpu;
pub mod riscv_cpu;
