//! Hardware-discovery and interrupt-management core of a bare-metal AArch64
//! kernel, modeled over explicit state.
//!
//! The crate covers four concerns: parsing the firmware-supplied flattened
//! device tree into a flat, parent-linked device table; deciding which
//! discovered devices are driven and in what order; programming an ARM GICv3
//! interrupt controller's distributor, redistributor and CPU-interface
//! register files; and an interrupt-safe spinlock that masks the CPU's
//! interrupt line around its critical section. Hardware registers appear as
//! explicit register-file values so that every register update is a verified
//! function from old state to new state; the thin unverified shell that
//! performs the volatile loads and stores lives outside this crate.

pub mod arch_timer;
pub mod bytes;
pub mod device;
pub mod dtb;
pub mod gic;
pub mod irq;
pub mod irq_safe_mutex;
pub mod pl011;
pub mod print;
