//! An interrupt-safe spinlock mutex, over an explicit CPU interrupt state.
//!
//! On a single core, a holder of a plain spinlock can be preempted by an
//! interrupt whose handler needs the same lock; the handler would then spin
//! forever against code it has itself preempted. `lock_irqsafe` masks the
//! core's interrupt line before claiming the flag and restores the exact
//! prior state, not simply "enabled", after releasing it, so no interrupt
//! can fire while the lock is held by the same core's foreground path.
//!
//! The core's interrupt state appears as an explicit [`CpuState`] value;
//! the shell that executes the actual mask and restore instructions mirrors
//! these transitions onto the hardware register.

use vstd::prelude::*;
use vstd::pervasive::unreached;

verus! {

/// The interrupt-mask bit of the CPU's exception-mask register: set when
/// ordinary interrupts are masked.
pub const DAIF_IRQ_BIT: u64 = 0x80;

/// The core's exception-mask register value.
pub struct CpuState {
    pub daif: u64,
}

/// True when the state has ordinary interrupts masked.
pub open spec fn irqs_masked(daif: u64) -> bool {
    daif & DAIF_IRQ_BIT != 0
}

/// The state after masking ordinary interrupts, everything else kept.
pub open spec fn mask_irq(daif: u64) -> u64 {
    daif | DAIF_IRQ_BIT
}

/// Masking always leaves the interrupt line disabled, whatever it was, and
/// touches no other mask bit.
pub proof fn lemma_mask_irq(daif: u64)
    ensures
        irqs_masked(mask_irq(daif)),
        mask_irq(daif) & !DAIF_IRQ_BIT == daif & !DAIF_IRQ_BIT,
{
    assert((daif | 0x80u64) & 0x80u64 != 0) by (bit_vector);
    assert((daif | 0x80u64) & !0x80u64 == daif & !0x80u64) by (bit_vector);
}

impl CpuState {
    /// A core with interrupts fully enabled.
    pub fn new() -> (c: CpuState)
        ensures
            c.daif == 0,
            !irqs_masked(c.daif),
    {
        let c = CpuState { daif: 0 };
        proof {
            assert(0u64 & 0x80u64 == 0) by (bit_vector);
        }
        c
    }
}

/// Masks the core's interrupt line and returns the prior exception-mask
/// value, for the matching restore.
pub fn disable_irq(cpu: &mut CpuState) -> (prior: u64)
    ensures
        prior == old(cpu).daif,
        final(cpu).daif == mask_irq(old(cpu).daif),
        irqs_masked(final(cpu).daif),
{
    let prior = cpu.daif;
    cpu.daif = prior | DAIF_IRQ_BIT;
    proof {
        lemma_mask_irq(prior);
    }
    prior
}

/// Writes `daif` back to the exception-mask register: the restore half of
/// [`disable_irq`], recovering the saved state exactly.
pub fn restore_interrupts(cpu: &mut CpuState, daif: u64)
    ensures
        final(cpu).daif == daif,
{
    cpu.daif = daif;
}

/// A mutual-exclusion primitive built on a spin flag. The protected value
/// lives inside; a critical section runs as a function from the old value
/// to the new value. Acquiring cannot fail: contention resolves purely by
/// spinning, and with exclusive access already in hand the spin is
/// degenerate.
pub struct Mutex<T> {
    /// The flag claimed while a critical section runs; false means unlocked.
    locked: bool,
    /// The protected value; present whenever the lock is not held.
    data: Option<T>,
}

impl<T> Mutex<T> {
    /// An unlocked mutex always holds its value.
    pub closed spec fn wf(&self) -> bool {
        !self.locked ==> self.data is Some
    }

    /// Whether the lock is currently held.
    pub closed spec fn locked(&self) -> bool {
        self.locked
    }

    /// The protected value of an unlocked mutex.
    pub closed spec fn value(&self) -> T {
        self.data.unwrap()
    }

    /// Creates a new mutex in the unlocked state holding `data`.
    pub fn new(data: T) -> (m: Mutex<T>)
        ensures
            m.wf(),
            !m.locked(),
            m.value() == data,
    {
        Mutex { locked: false, data: Some(data) }
    }

    /// Claims the lock, runs `f` on the protected value with exclusive
    /// access, stores the value `f` returns, and releases. The caller must
    /// not already hold the lock — on a single core that is exactly the
    /// self-deadlock this type's interrupt-safe variant exists to prevent.
    pub fn lock<R, F: FnOnce(T) -> (T, R)>(&mut self, f: F) -> (r: R)
        requires
            old(self).wf(),
            !old(self).locked(),
            call_requires(f, (old(self).value(),)),
        ensures
            final(self).wf(),
            !final(self).locked(),
            call_ensures(f, (old(self).value(),), (final(self).value(), r)),
    {
        self.locked = true;
        let taken = self.data.take();
        let value = match taken {
            Some(v) => v,
            None => unreached(),
        };
        let (new_value, result) = f(value);
        self.data = Some(new_value);
        self.locked = false;
        result
    }

    /// Claims the lock with the core's interrupt line masked for the whole
    /// critical section. `f` receives, beside the protected value, the
    /// exception-mask word in force while it runs — pinned to the masked
    /// image of the prior state, so interrupts are observably disabled for
    /// the closure's entire duration. Afterwards the prior interrupt state
    /// is restored exactly, not unconditionally re-enabled.
    pub fn lock_irqsafe<R, F: FnOnce(T, u64) -> (T, R)>(&mut self, cpu: &mut CpuState, f: F) -> (r:
        R)
        requires
            old(self).wf(),
            !old(self).locked(),
            call_requires(f, (old(self).value(), mask_irq(old(cpu).daif))),
        ensures
            final(self).wf(),
            !final(self).locked(),
            call_ensures(
                f,
                (old(self).value(), mask_irq(old(cpu).daif)),
                (final(self).value(), r),
            ),
            final(cpu).daif == old(cpu).daif,
    {
        let daif_state = disable_irq(cpu);
        self.locked = true;
        let taken = self.data.take();
        let value = match taken {
            Some(v) => v,
            None => unreached(),
        };
        let (new_value, result) = f(value, cpu.daif);
        self.data = Some(new_value);
        self.locked = false;
        restore_interrupts(cpu, daif_state);
        result
    }
}

/// Law: an interrupt-safe critical section observes interrupts disabled for
/// its entire run — the exception-mask word handed to it always carries the
/// mask bit — and the mask word it observes differs from the prior state in
/// no bit but the interrupt mask, which the final restore returns to its
/// exact prior value.
pub proof fn lemma_irqsafe_section_masked(daif: u64)
    ensures
        irqs_masked(mask_irq(daif)),
        mask_irq(daif) & !DAIF_IRQ_BIT == daif & !DAIF_IRQ_BIT,
{
    lemma_mask_irq(daif);
}

} // verus!
