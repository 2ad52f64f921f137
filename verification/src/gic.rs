//! ARM GICv3 interrupt controller driver, over explicit register files.
//!
//! The distributor (shared interrupts), redistributor (core-local
//! interrupts) and CPU interface appear as register-file values; every
//! operation is a verified function from old register state to new register
//! state, with the touched bits pinned down exactly and everything else
//! proved unchanged. Companion offset functions carry the same address
//! arithmetic the hardware frame uses, so the shell that performs the
//! volatile accesses computes nothing itself. Every hardware mutation must
//! be followed by a full memory barrier before dependent operations; that
//! ordering duty stays with the shell that touches the device.

use vstd::prelude::*;

use crate::bytes::be_u32_at;
use crate::bytes::be_u64_at;
use crate::device::Property;
use crate::device::PlatformDevice;

verus! {

/// Distributor control register offset.
pub const GICD_CTLR: usize = 0x000;

/// Enable non-secure Group 1 interrupts bit.
pub const GICD_CTLR_GRP1NS: u32 = 0b10;

/// Enable secure Group 1 interrupts bit.
pub const GICD_CTLR_GRP1S: u32 = 0b100;

/// Affinity-routing-enable (secure) bit.
pub const GICD_CTLR_ARE_S: u32 = 0b10000;

/// Interrupt set-enable registers offset.
pub const GICD_ISENABLER: usize = 0x100;

/// Interrupt priority registers offset.
pub const GICD_IPRIORITYR: usize = 0x400;

/// Interrupt configuration registers offset.
pub const GICD_ICFGR: usize = 0xC00;

/// Interrupt routing registers offset.
pub const GICD_IROUTER: usize = 0x6100;

/// Interrupt group registers offset.
pub const GICD_IGROUPR: usize = 0x080;

/// Offset from the redistributor base to its SGI and PPI register frame.
pub const GICR_SGI_BASE: usize = 0x10000;

/// Redistributor wake register offset.
pub const GICR_WAKER: usize = 0x0014;

/// Processor-sleep bit of the wake register.
pub const GICR_WAKER_PSLEEP: u32 = 0b10;

/// Children-asleep bit of the wake register.
pub const GICR_WAKER_CASLEEP: u32 = 0b100;

/// Priority registers offset inside the SGI and PPI frame.
pub const GICR_IPRIORITYR: usize = 0x400;

/// Group register offset inside the SGI and PPI frame.
pub const GICR_IGROUPR0: usize = 0x080;

/// Set-enable register offset inside the SGI and PPI frame.
pub const GICR_ISENABLER0: usize = 0x100;

/// Configuration registers offset inside the SGI and PPI frame.
pub const GICR_ICFGR: usize = 0xC00;

/// Interrupt ids a register file covers: one priority byte each.
pub const MAX_INTIDS: usize = 1024;

/// Byte `k` of a 32-bit register, as the priority registers pack four
/// one-byte priorities per word.
pub open spec fn prio_byte(word: u32, k: u32) -> u8 {
    ((word >> (k * 8)) & 0xff) as u8
}

/// Two-bit configuration field `k` of a 32-bit register, as the trigger
/// configuration packs sixteen two-bit fields per word.
pub open spec fn cfg_field(word: u32, k: u32) -> u32 {
    (word >> (k * 2)) & 0b11
}

/// Bit `k` of a 32-bit register.
pub open spec fn reg_bit(word: u32, k: u32) -> u32 {
    (word >> k) & 1
}

/// Replacing one priority byte leaves the word's other three bytes as they
/// were.
proof fn lemma_prio_word_update(w: u32, p: u8, b: u32, k: u32)
    by (bit_vector)
    requires
        b < 4,
        k < 4,
    ensures
        ((((w & !(0xffu32 << (b * 8))) | ((p as u32) << (b * 8))) >> (b * 8)) & 0xff) == p as u32,
        k != b ==> ((((w & !(0xffu32 << (b * 8))) | ((p as u32) << (b * 8))) >> (k * 8)) & 0xff)
            == ((w >> (k * 8)) & 0xff),
{
}

/// Writing a two-bit configuration field leaves the word's fifteen other
/// fields as they were.
proof fn lemma_cfg_word_update(w: u32, v: u32, b: u32, k: u32)
    by (bit_vector)
    requires
        b < 16,
        v < 4,
        k < 16,
    ensures
        ((((w & !(0b11u32 << (b * 2))) | (v << (b * 2))) >> (b * 2)) & 0b11) == v,
        k != b ==> ((((w & !(0b11u32 << (b * 2))) | (v << (b * 2))) >> (k * 2)) & 0b11) == ((w >> (
        k * 2)) & 0b11),
{
}

/// Setting one bit leaves the word's other bits as they were.
proof fn lemma_bit_set(w: u32, b: u32, k: u32)
    by (bit_vector)
    requires
        b < 32,
        k < 32,
    ensures
        (((w | (1u32 << b)) >> b) & 1) == 1,
        k != b ==> (((w | (1u32 << b)) >> k) & 1) == ((w >> k) & 1),
{
}

/// Builds a zeroed register bank of `n` 32-bit words.
fn zero_words(n: usize) -> (v: Vec<u32>)
    ensures
        v@.len() == n,
        forall|k: int| 0 <= k < n ==> v@[k] == 0,
{
    let mut v: Vec<u32> = Vec::new();
    let mut i: usize = 0;
    while i < n
        invariant
            0 <= i <= n,
            v@.len() == i,
            forall|k: int| 0 <= k < i ==> v@[k] == 0,
        decreases n - i,
    {
        v.push(0);
        i = i + 1;
    }
    v
}

/// Builds a zeroed register bank of `n` 64-bit words.
fn zero_words64(n: usize) -> (v: Vec<u64>)
    ensures
        v@.len() == n,
        forall|k: int| 0 <= k < n ==> v@[k] == 0,
{
    let mut v: Vec<u64> = Vec::new();
    let mut i: usize = 0;
    while i < n
        invariant
            0 <= i <= n,
            v@.len() == i,
            forall|k: int| 0 <= k < i ==> v@[k] == 0,
        decreases n - i,
    {
        v.push(0);
        i = i + 1;
    }
    v
}

/// The distributor's register file, covering interrupt ids below
/// [`MAX_INTIDS`]: control, group, set-enable, priority, trigger
/// configuration and routing.
pub struct Distributor {
    pub ctlr: u32,
    pub igroupr: Vec<u32>,
    pub isenabler: Vec<u32>,
    pub ipriorityr: Vec<u32>,
    pub icfgr: Vec<u32>,
    pub irouter: Vec<u64>,
}

impl Distributor {
    /// Each register bank has its architected word count.
    pub open spec fn wf(&self) -> bool {
        &&& self.igroupr@.len() == MAX_INTIDS / 32
        &&& self.isenabler@.len() == MAX_INTIDS / 32
        &&& self.ipriorityr@.len() == MAX_INTIDS / 4
        &&& self.icfgr@.len() == MAX_INTIDS / 16
        &&& self.irouter@.len() == MAX_INTIDS
    }

    /// A distributor with every register zero.
    pub fn new() -> (d: Distributor)
        ensures
            d.wf(),
            d.ctlr == 0,
            forall|k: int| 0 <= k < MAX_INTIDS / 4 ==> d.ipriorityr@[k] == 0,
            forall|k: int| 0 <= k < MAX_INTIDS / 16 ==> d.icfgr@[k] == 0,
            forall|k: int| 0 <= k < MAX_INTIDS / 32 ==> d.igroupr@[k] == 0 && d.isenabler@[k] == 0,
            forall|k: int| 0 <= k < MAX_INTIDS ==> d.irouter@[k] == 0,
    {
        Distributor {
            ctlr: 0,
            igroupr: zero_words(MAX_INTIDS / 32),
            isenabler: zero_words(MAX_INTIDS / 32),
            ipriorityr: zero_words(MAX_INTIDS / 4),
            icfgr: zero_words(MAX_INTIDS / 16),
            irouter: zero_words64(MAX_INTIDS),
        }
    }
}

/// Enables secure and non-secure Group 1 interrupt forwarding in the
/// distributor control register, and reports whether affinity routing is
/// enabled in the resulting control value.
pub fn init_gic_distributor(dist: &mut Distributor) -> (affinity_enabled: bool)
    requires
        old(dist).wf(),
    ensures
        final(dist).wf(),
        final(dist).ctlr == old(dist).ctlr | (GICD_CTLR_GRP1S | GICD_CTLR_GRP1NS),
        affinity_enabled == ((final(dist).ctlr & GICD_CTLR_ARE_S) != 0),
        final(dist).igroupr@ == old(dist).igroupr@,
        final(dist).isenabler@ == old(dist).isenabler@,
        final(dist).ipriorityr@ == old(dist).ipriorityr@,
        final(dist).icfgr@ == old(dist).icfgr@,
        final(dist).irouter@ == old(dist).irouter@,
{
    dist.ctlr = dist.ctlr | (GICD_CTLR_GRP1S | GICD_CTLR_GRP1NS);
    let final_ctlr = dist.ctlr;
    (final_ctlr & GICD_CTLR_ARE_S) != 0
}

/// Byte offset of the distributor priority register word that carries
/// interrupt `id`.
pub fn spi_priority_offset(id: u32) -> (off: usize)
    requires
        id < MAX_INTIDS,
    ensures
        off == GICD_IPRIORITYR + (id / 4) * 4,
{
    GICD_IPRIORITYR + ((id / 4) * 4) as usize
}

/// Sets the priority byte of shared interrupt `id` in the distributor,
/// leaving the other three priority bytes of the same word, and every other
/// register, unchanged.
pub fn set_spi_priority(dist: &mut Distributor, id: u32, prio: u8)
    requires
        old(dist).wf(),
        id < MAX_INTIDS,
    ensures
        final(dist).wf(),
        final(dist).ipriorityr@ == old(dist).ipriorityr@.update(
            id as int / 4,
            final(dist).ipriorityr@[id as int / 4],
        ),
        prio_byte(final(dist).ipriorityr@[id as int / 4], id % 4) == prio,
        forall|k: u32|
            k < 4 && k != id % 4 ==> #[trigger] prio_byte(final(dist).ipriorityr@[id as int / 4], k)
                == prio_byte(old(dist).ipriorityr@[id as int / 4], k),
        final(dist).ctlr == old(dist).ctlr,
        final(dist).igroupr@ == old(dist).igroupr@,
        final(dist).isenabler@ == old(dist).isenabler@,
        final(dist).icfgr@ == old(dist).icfgr@,
        final(dist).irouter@ == old(dist).irouter@,
{
    let reg_index = (id / 4) as usize;
    let bit_shift = (id % 4) * 8;
    let reg_val = dist.ipriorityr[reg_index];
    let mask: u32 = !(0xffu32 << bit_shift);
    let new_val = (reg_val & mask) | ((prio as u32) << bit_shift);
    dist.ipriorityr[reg_index] = new_val;
    proof {
        assert forall|k: u32| k < 4 && k != id % 4 implies prio_byte(new_val, k) == prio_byte(
            reg_val,
            k,
        ) by {
            lemma_prio_word_update(reg_val, prio, id % 4, k);
        }
        lemma_prio_word_update(reg_val, prio, id % 4, 0);
    }
}

/// Byte offset of the distributor configuration register word that carries
/// interrupt `id`.
pub fn spi_cfg_offset(id: u32) -> (off: usize)
    requires
        id < MAX_INTIDS,
    ensures
        off == GICD_ICFGR + (id / 16) * 4,
{
    GICD_ICFGR + ((id / 16) * 4) as usize
}

/// Clears the two trigger-configuration bits of shared interrupt `id` in
/// the distributor, selecting level-sensitive mode, and leaves the other
/// fifteen fields of the word, and every other register, unchanged.
pub fn set_spi_trigger(dist: &mut Distributor, id: u32)
    requires
        old(dist).wf(),
        id < MAX_INTIDS,
    ensures
        final(dist).wf(),
        final(dist).icfgr@ == old(dist).icfgr@.update(
            id as int / 16,
            final(dist).icfgr@[id as int / 16],
        ),
        cfg_field(final(dist).icfgr@[id as int / 16], id % 16) == 0,
        forall|k: u32|
            k < 16 && k != id % 16 ==> #[trigger] cfg_field(final(dist).icfgr@[id as int / 16], k)
                == cfg_field(old(dist).icfgr@[id as int / 16], k),
        final(dist).ctlr == old(dist).ctlr,
        final(dist).igroupr@ == old(dist).igroupr@,
        final(dist).isenabler@ == old(dist).isenabler@,
        final(dist).ipriorityr@ == old(dist).ipriorityr@,
        final(dist).irouter@ == old(dist).irouter@,
{
    let reg_index = (id / 16) as usize;
    let bit_shift = (id % 16) * 2;
    let reg_val = dist.icfgr[reg_index];
    let mask: u32 = !(0b11u32 << bit_shift);
    let new_val = reg_val & mask;
    dist.icfgr[reg_index] = new_val;
    proof {
        assert(reg_val & !(0b11u32 << bit_shift) == (reg_val & !(0b11u32 << bit_shift)) | (0u32
            << bit_shift)) by (bit_vector);
        assert forall|k: u32| k < 16 && k != id % 16 implies cfg_field(new_val, k) == cfg_field(
            reg_val,
            k,
        ) by {
            lemma_cfg_word_update(reg_val, 0, id % 16, k);
        }
        lemma_cfg_word_update(reg_val, 0, id % 16, 0);
    }
}

/// Byte offset of the distributor set-enable register word that carries
/// interrupt `id`.
pub fn spi_enable_offset(id: u32) -> (off: usize)
    requires
        id < MAX_INTIDS,
    ensures
        off == GICD_ISENABLER + (id / 32) * 4,
{
    GICD_ISENABLER + ((id / 32) * 4) as usize
}

/// The write-one-to-set value that enables interrupt `id` in its set-enable
/// register word: the hardware register is never read back and modified.
pub fn enable_spi(dist: &mut Distributor, id: u32) -> (bit_to_set: u32)
    requires
        old(dist).wf(),
        id < MAX_INTIDS,
    ensures
        final(dist).wf(),
        bit_to_set == (1u32 << (id % 32)),
        final(dist).isenabler@ == old(dist).isenabler@.update(
            id as int / 32,
            final(dist).isenabler@[id as int / 32],
        ),
        reg_bit(final(dist).isenabler@[id as int / 32], id % 32) == 1,
        forall|k: u32|
            k < 32 && k != id % 32 ==> #[trigger] reg_bit(final(dist).isenabler@[id as int / 32], k)
                == reg_bit(old(dist).isenabler@[id as int / 32], k),
        final(dist).ctlr == old(dist).ctlr,
        final(dist).igroupr@ == old(dist).igroupr@,
        final(dist).ipriorityr@ == old(dist).ipriorityr@,
        final(dist).icfgr@ == old(dist).icfgr@,
        final(dist).irouter@ == old(dist).irouter@,
{
    let reg_index = (id / 32) as usize;
    let bit_to_set = 1u32 << (id % 32);
    let reg_val = dist.isenabler[reg_index];
    dist.isenabler[reg_index] = reg_val | bit_to_set;
    proof {
        assert forall|k: u32| k < 32 && k != id % 32 implies reg_bit(reg_val | bit_to_set, k)
            == reg_bit(reg_val, k) by {
            lemma_bit_set(reg_val, id % 32, k);
        }
        lemma_bit_set(reg_val, id % 32, 0);
    }
    bit_to_set
}

/// Byte offset of the distributor group register word that carries
/// interrupt `id`.
pub fn spi_group_offset(id: u32) -> (off: usize)
    requires
        id < MAX_INTIDS,
    ensures
        off == GICD_IGROUPR + (id / 32) * 4,
{
    GICD_IGROUPR + ((id / 32) * 4) as usize
}

/// Assigns shared interrupt `id` to Group 1 by setting its group bit; group
/// bits are only ever set, never cleared.
pub fn set_spi_group(dist: &mut Distributor, id: u32)
    requires
        old(dist).wf(),
        id < MAX_INTIDS,
    ensures
        final(dist).wf(),
        final(dist).igroupr@ == old(dist).igroupr@.update(
            id as int / 32,
            old(dist).igroupr@[id as int / 32] | (1u32 << (id % 32)),
        ),
        reg_bit(final(dist).igroupr@[id as int / 32], id % 32) == 1,
        forall|k: u32|
            k < 32 && k != id % 32 ==> #[trigger] reg_bit(final(dist).igroupr@[id as int / 32], k) == reg_bit(
                old(dist).igroupr@[id as int / 32],
                k,
            ),
        final(dist).ctlr == old(dist).ctlr,
        final(dist).isenabler@ == old(dist).isenabler@,
        final(dist).ipriorityr@ == old(dist).ipriorityr@,
        final(dist).icfgr@ == old(dist).icfgr@,
        final(dist).irouter@ == old(dist).irouter@,
{
    let reg_index = (id / 32) as usize;
    let bit_to_set = 1u32 << (id % 32);
    let reg_val = dist.igroupr[reg_index];
    dist.igroupr[reg_index] = reg_val | bit_to_set;
    proof {
        assert forall|k: u32| k < 32 && k != id % 32 implies reg_bit(reg_val | bit_to_set, k)
            == reg_bit(reg_val, k) by {
            lemma_bit_set(reg_val, id % 32, k);
        }
        lemma_bit_set(reg_val, id % 32, 0);
    }
}

/// Byte offset of the distributor routing register for interrupt `id`,
/// eight bytes per interrupt.
pub fn spi_router_offset(id: u32) -> (off: usize)
    requires
        id < MAX_INTIDS,
    ensures
        off == GICD_IROUTER + 8 * id,
{
    GICD_IROUTER + (8 * id) as usize
}

/// Routes shared interrupt `id` to `core_affinity`, written whole as one
/// 64-bit store; routing must be configured independently of enablement.
pub fn set_spi_routing(dist: &mut Distributor, id: u32, core_affinity: u64)
    requires
        old(dist).wf(),
        id < MAX_INTIDS,
    ensures
        final(dist).wf(),
        final(dist).irouter@ == old(dist).irouter@.update(id as int, core_affinity),
        final(dist).ctlr == old(dist).ctlr,
        final(dist).igroupr@ == old(dist).igroupr@,
        final(dist).isenabler@ == old(dist).isenabler@,
        final(dist).ipriorityr@ == old(dist).ipriorityr@,
        final(dist).icfgr@ == old(dist).icfgr@,
{
    dist.irouter[id as usize] = core_affinity;
}

/// The redistributor's SGI and PPI register frame, covering the thirty-two
/// core-local interrupt ids: wake control, group, set-enable, priority and
/// trigger configuration.
pub struct Redistributor {
    pub waker: u32,
    pub ipriorityr: Vec<u32>,
    pub igroupr0: u32,
    pub isenabler0: u32,
    pub icfgr: Vec<u32>,
}

impl Redistributor {
    /// The priority bank holds eight words, the configuration bank two.
    pub open spec fn wf(&self) -> bool {
        &&& self.ipriorityr@.len() == 8
        &&& self.icfgr@.len() == 2
    }

    /// A redistributor as it comes out of reset: the connected core is
    /// asleep and every interrupt register is zero.
    pub fn new() -> (r: Redistributor)
        ensures
            r.wf(),
            r.waker == GICR_WAKER_PSLEEP | GICR_WAKER_CASLEEP,
            r.igroupr0 == 0,
            r.isenabler0 == 0,
            forall|k: int| 0 <= k < 8 ==> r.ipriorityr@[k] == 0,
            forall|k: int| 0 <= k < 2 ==> r.icfgr@[k] == 0,
    {
        Redistributor {
            waker: GICR_WAKER_PSLEEP | GICR_WAKER_CASLEEP,
            ipriorityr: zero_words(8),
            igroupr0: 0,
            isenabler0: 0,
            icfgr: zero_words(2),
        }
    }
}

/// Clears the processor-sleep bit of the redistributor wake register. The
/// caller must then poll the hardware register until
/// [`redistributor_awake`] reports the children-asleep bit clear; that wait
/// blocks without a timeout, as the hardware's wake latency is bounded.
pub fn init_gic_redistributor(redist: &mut Redistributor)
    requires
        old(redist).wf(),
    ensures
        final(redist).wf(),
        final(redist).waker == old(redist).waker & !GICR_WAKER_PSLEEP,
        final(redist).waker & GICR_WAKER_PSLEEP == 0,
        final(redist).igroupr0 == old(redist).igroupr0,
        final(redist).isenabler0 == old(redist).isenabler0,
        final(redist).ipriorityr@ == old(redist).ipriorityr@,
        final(redist).icfgr@ == old(redist).icfgr@,
{
    let w = redist.waker;
    redist.waker = w & !GICR_WAKER_PSLEEP;
    proof {
        assert((w & !0b10u32) & 0b10u32 == 0) by (bit_vector);
    }
}

/// Decides whether a polled wake-register value shows the redistributor's
/// connected core awake: the children-asleep bit has cleared.
pub fn redistributor_awake(waker: u32) -> (r: bool)
    ensures
        r == ((waker & GICR_WAKER_CASLEEP) == 0),
{
    (waker & GICR_WAKER_CASLEEP) == 0
}

/// Byte offset, from the redistributor base, of the priority register word
/// that carries core-local interrupt `id`.
pub fn ppi_priority_offset(id: u32) -> (off: usize)
    requires
        id < 32,
    ensures
        off == GICR_SGI_BASE + GICR_IPRIORITYR + (id / 4) * 4,
{
    GICR_SGI_BASE + GICR_IPRIORITYR + ((id / 4) * 4) as usize
}

/// Sets the priority byte of core-local interrupt `id`, leaving the other
/// three priority bytes of the same word, and every other register,
/// unchanged.
pub fn set_int_priority(redist: &mut Redistributor, id: u32, prio: u8)
    requires
        old(redist).wf(),
        id < 32,
    ensures
        final(redist).wf(),
        final(redist).ipriorityr@ == old(redist).ipriorityr@.update(
            id as int / 4,
            final(redist).ipriorityr@[id as int / 4],
        ),
        prio_byte(final(redist).ipriorityr@[id as int / 4], id % 4) == prio,
        forall|k: u32|
            k < 4 && k != id % 4 ==> #[trigger] prio_byte(
                final(redist).ipriorityr@[id as int / 4],
                k,
            ) == prio_byte(old(redist).ipriorityr@[id as int / 4], k),
        final(redist).waker == old(redist).waker,
        final(redist).igroupr0 == old(redist).igroupr0,
        final(redist).isenabler0 == old(redist).isenabler0,
        final(redist).icfgr@ == old(redist).icfgr@,
{
    let reg_index = (id / 4) as usize;
    let bit_shift = (id % 4) * 8;
    let reg_val = redist.ipriorityr[reg_index];
    let mask: u32 = !(0xffu32 << bit_shift);
    let new_val = (reg_val & mask) | ((prio as u32) << bit_shift);
    redist.ipriorityr[reg_index] = new_val;
    proof {
        assert forall|k: u32| k < 4 && k != id % 4 implies prio_byte(new_val, k) == prio_byte(
            reg_val,
            k,
        ) by {
            lemma_prio_word_update(reg_val, prio, id % 4, k);
        }
        lemma_prio_word_update(reg_val, prio, id % 4, 0);
    }
}

/// Assigns core-local interrupt `id` to Group 1 by setting its group bit;
/// group bits are only ever set, never cleared.
pub fn set_int_grp(redist: &mut Redistributor, id: u32)
    requires
        old(redist).wf(),
        id < 32,
    ensures
        final(redist).wf(),
        final(redist).igroupr0 == old(redist).igroupr0 | (1u32 << id),
        reg_bit(final(redist).igroupr0, id) == 1,
        forall|k: u32|
            k < 32 && k != id ==> #[trigger] reg_bit(final(redist).igroupr0, k) == reg_bit(
                old(redist).igroupr0,
                k,
            ),
        final(redist).waker == old(redist).waker,
        final(redist).isenabler0 == old(redist).isenabler0,
        final(redist).ipriorityr@ == old(redist).ipriorityr@,
        final(redist).icfgr@ == old(redist).icfgr@,
{
    let reg_val = redist.igroupr0;
    redist.igroupr0 = reg_val | (1u32 << id);
    proof {
        assert forall|k: u32| k < 32 && k != id implies reg_bit(reg_val | (1u32 << id), k)
            == reg_bit(reg_val, k) by {
            lemma_bit_set(reg_val, id, k);
        }
        lemma_bit_set(reg_val, id, 0);
    }
}

/// Enables core-local interrupt `id` by setting its set-enable bit, the
/// write-one-to-set discipline of the enable registers.
pub fn enable_int(redist: &mut Redistributor, id: u32)
    requires
        old(redist).wf(),
        id < 32,
    ensures
        final(redist).wf(),
        final(redist).isenabler0 == old(redist).isenabler0 | (1u32 << id),
        reg_bit(final(redist).isenabler0, id) == 1,
        forall|k: u32|
            k < 32 && k != id ==> #[trigger] reg_bit(final(redist).isenabler0, k) == reg_bit(
                old(redist).isenabler0,
                k,
            ),
        final(redist).waker == old(redist).waker,
        final(redist).igroupr0 == old(redist).igroupr0,
        final(redist).ipriorityr@ == old(redist).ipriorityr@,
        final(redist).icfgr@ == old(redist).icfgr@,
{
    let reg_val = redist.isenabler0;
    redist.isenabler0 = reg_val | (1u32 << id);
    proof {
        assert forall|k: u32| k < 32 && k != id implies reg_bit(reg_val | (1u32 << id), k)
            == reg_bit(reg_val, k) by {
            lemma_bit_set(reg_val, id, k);
        }
        lemma_bit_set(reg_val, id, 0);
    }
}

/// Byte offset, from the redistributor base, of the configuration register
/// word that carries core-local interrupt `id`.
pub fn ppi_cfg_offset(id: u32) -> (off: usize)
    requires
        id < 32,
    ensures
        off == GICR_SGI_BASE + GICR_ICFGR + (id / 16) * 4,
{
    GICR_SGI_BASE + GICR_ICFGR + ((id / 16) * 4) as usize
}

/// Sets core-local interrupt `id` to edge-triggered mode: its two
/// configuration bits become `0b10`, and the other fifteen fields of the
/// word, and every other register, keep their values.
pub fn set_ppi_trigger_edge(redist: &mut Redistributor, id: u32)
    requires
        old(redist).wf(),
        id < 32,
    ensures
        final(redist).wf(),
        final(redist).icfgr@ == old(redist).icfgr@.update(
            id as int / 16,
            final(redist).icfgr@[id as int / 16],
        ),
        cfg_field(final(redist).icfgr@[id as int / 16], id % 16) == 0b10,
        forall|k: u32|
            k < 16 && k != id % 16 ==> #[trigger] cfg_field(
                final(redist).icfgr@[id as int / 16],
                k,
            ) == cfg_field(old(redist).icfgr@[id as int / 16], k),
        final(redist).waker == old(redist).waker,
        final(redist).igroupr0 == old(redist).igroupr0,
        final(redist).isenabler0 == old(redist).isenabler0,
        final(redist).ipriorityr@ == old(redist).ipriorityr@,
{
    let reg_index = (id / 16) as usize;
    let bit_shift = (id % 16) * 2;
    let reg_val = redist.icfgr[reg_index];
    let new_val = (reg_val & !(0b11u32 << bit_shift)) | (0b10u32 << bit_shift);
    redist.icfgr[reg_index] = new_val;
    proof {
        assert forall|k: u32| k < 16 && k != id % 16 implies cfg_field(new_val, k) == cfg_field(
            reg_val,
            k,
        ) by {
            lemma_cfg_word_update(reg_val, 0b10, id % 16, k);
        }
        lemma_cfg_word_update(reg_val, 0b10, id % 16, 0);
    }
}

/// Sets core-local interrupt `id` to level-sensitive mode: its two
/// configuration bits become `0b00`, and the other fifteen fields of the
/// word, and every other register, keep their values.
pub fn set_ppi_trigger_level(redist: &mut Redistributor, id: u32)
    requires
        old(redist).wf(),
        id < 32,
    ensures
        final(redist).wf(),
        final(redist).icfgr@ == old(redist).icfgr@.update(
            id as int / 16,
            final(redist).icfgr@[id as int / 16],
        ),
        cfg_field(final(redist).icfgr@[id as int / 16], id % 16) == 0,
        forall|k: u32|
            k < 16 && k != id % 16 ==> #[trigger] cfg_field(
                final(redist).icfgr@[id as int / 16],
                k,
            ) == cfg_field(old(redist).icfgr@[id as int / 16], k),
        final(redist).waker == old(redist).waker,
        final(redist).igroupr0 == old(redist).igroupr0,
        final(redist).isenabler0 == old(redist).isenabler0,
        final(redist).ipriorityr@ == old(redist).ipriorityr@,
{
    let reg_index = (id / 16) as usize;
    let bit_shift = (id % 16) * 2;
    let reg_val = redist.icfgr[reg_index];
    let new_val = reg_val & !(0b11u32 << bit_shift);
    redist.icfgr[reg_index] = new_val;
    proof {
        assert(reg_val & !(0b11u32 << bit_shift) == (reg_val & !(0b11u32 << bit_shift)) | (0u32
            << bit_shift)) by (bit_vector);
        assert forall|k: u32| k < 16 && k != id % 16 implies cfg_field(new_val, k) == cfg_field(
            reg_val,
            k,
        ) by {
            lemma_cfg_word_update(reg_val, 0, id % 16, k);
        }
        lemma_cfg_word_update(reg_val, 0, id % 16, 0);
    }
}

/// The CPU interface's system registers: the priority mask and the two
/// group-enable registers.
pub struct CpuInterface {
    pub pmr: u64,
    pub igrpen0: u64,
    pub igrpen1: u64,
}

impl CpuInterface {
    /// A CPU interface with everything masked and both groups disabled.
    pub fn new() -> (c: CpuInterface)
        ensures
            c.pmr == 0,
            c.igrpen0 == 0,
            c.igrpen1 == 0,
    {
        CpuInterface { pmr: 0, igrpen0: 0, igrpen1: 0 }
    }
}

/// Sets the interrupt priority mask: interrupts with a priority value
/// higher than `priority` are signalled to the core.
pub fn set_priority_mask(cpuif: &mut CpuInterface, priority: u8)
    ensures
        final(cpuif).pmr == priority as u64,
        final(cpuif).igrpen0 == old(cpuif).igrpen0,
        final(cpuif).igrpen1 == old(cpuif).igrpen1,
{
    cpuif.pmr = priority as u64;
}

/// Enables Group 0 interrupt signalling at the CPU interface by setting the
/// enable bit, leaving the register's other bits as they were.
pub fn enable_grp0_ints(cpuif: &mut CpuInterface)
    ensures
        final(cpuif).igrpen0 == old(cpuif).igrpen0 | 1,
        final(cpuif).igrpen0 & 1 == 1,
        final(cpuif).pmr == old(cpuif).pmr,
        final(cpuif).igrpen1 == old(cpuif).igrpen1,
{
    let v = cpuif.igrpen0;
    cpuif.igrpen0 = v | 1;
    proof {
        assert((v | 1u64) & 1u64 == 1u64) by (bit_vector);
    }
}

/// Enables Group 1 interrupt signalling at the CPU interface by setting the
/// enable bit, leaving the register's other bits as they were.
pub fn enable_grp1_ints(cpuif: &mut CpuInterface)
    ensures
        final(cpuif).igrpen1 == old(cpuif).igrpen1 | 1,
        final(cpuif).igrpen1 & 1 == 1,
        final(cpuif).pmr == old(cpuif).pmr,
        final(cpuif).igrpen0 == old(cpuif).igrpen0,
{
    let v = cpuif.igrpen1;
    cpuif.igrpen1 = v | 1;
    proof {
        assert((v | 1u64) & 1u64 == 1u64) by (bit_vector);
    }
}

/// One address read from a `reg` property: a one-cell address is a
/// big-endian `u32`, a two-cell address a big-endian `u64`.
pub open spec fn reg_cell_at(value: Seq<u8>, off: int, cells: u32) -> u64 {
    if cells == 1 {
        be_u32_at(value, off) as u64
    } else {
        be_u64_at(value, off)
    }
}

/// The two base addresses of a controller's `reg` property: the first block
/// is the distributor, the second the redistributor, each block an address
/// of `ac` cells followed by a size of `sc` cells. Nothing is read when the
/// address width is not one or two cells or the property is too short.
pub open spec fn spec_reg_blocks(value: Seq<u8>, ac: u32, sc: u32) -> Option<(u64, u64)> {
    let stride = (ac + sc) * 4;
    if !(ac == 1 || ac == 2) {
        None
    } else if value.len() < stride + ac * 4 {
        None
    } else {
        Some((reg_cell_at(value, 0, ac), reg_cell_at(value, stride as int, ac)))
    }
}

/// Reads the distributor and redistributor base addresses out of a `reg`
/// property, sized by the parent's address and size cell counts.
pub fn parse_reg_blocks(prop: &Property, ac: u32, sc: u32) -> (r: Option<(u64, u64)>)
    ensures
        r == spec_reg_blocks(prop@.value, ac, sc),
{
    if !(ac == 1 || ac == 2) {
        return None;
    }
    let value = prop.value.as_slice();
    let vlen = value.len();
    let stride64 = (ac as u64 + sc as u64) * 4;
    let need64 = stride64 + (ac as u64) * 4;
    if (vlen as u64) < need64 {
        return None;
    }
    let stride = stride64 as usize;
    let first = if ac == 1 {
        crate::bytes::read_be_u32(value, 0) as u64
    } else {
        crate::bytes::read_be_u64(value, 0)
    };
    let second = if ac == 1 {
        crate::bytes::read_be_u32(value, stride) as u64
    } else {
        crate::bytes::read_be_u64(value, stride)
    };
    Some((first, second))
}

/// The parent's address and size cell counts that govern a device's `reg`
/// property: the device-tree defaults of two and one when there is no
/// parent.
pub open spec fn spec_parent_cells(devs: Seq<crate::device::SpecDevice>, d: crate::device::SpecDevice) -> (
    u32,
    u32,
) {
    match d.parent {
        None => (2u32, 1u32),
        Some(p) => (
            crate::device::cells_value(
                devs[p].props,
                devs[p].prop_count,
                crate::device::address_cells_bytes(),
                2,
            ),
            crate::device::cells_value(
                devs[p].props,
                devs[p].prop_count,
                crate::device::size_cells_bytes(),
                1,
            ),
        ),
    }
}

/// The base addresses the interrupt controller's own node yields: its first
/// sealed `reg` property read as two address blocks, or nothing when the
/// property is absent or malformed — such a controller is silently left
/// unconfigured.
pub open spec fn spec_gic_config(
    devs: Seq<crate::device::SpecDevice>,
    d: crate::device::SpecDevice,
) -> Option<(u64, u64)> {
    match crate::device::prop_index(d.props, d.prop_count, crate::device::reg_bytes(), 0) {
        None => None,
        Some(k) => {
            let cells = spec_parent_cells(devs, d);
            spec_reg_blocks(d.props[k].value, cells.0, cells.1)
        },
    }
}

/// Reads the distributor and redistributor base addresses from the
/// controller device's `reg` property. Nothing is configured when the
/// property is absent or malformed.
pub fn gic_reg_config(table: &crate::dtb::DeviceTable, dev: &PlatformDevice) -> (r: Option<
    (u64, u64),
>)
    requires
        table.wf(),
        dev.wf(),
        dev@.parent matches Some(p) ==> 0 <= p < table@.devices.len(),
    ensures
        r == spec_gic_config(table@.devices, dev@),
{
    let reg_key = crate::device::reg_name();
    match dev.find_property(reg_key.as_slice()) {
        None => None,
        Some(reg_prop) => {
            let (ac, sc) = dev.get_parent_cells(table);
            parse_reg_blocks(reg_prop, ac, sc)
        },
    }
}

/// The whole GICv3 controller: the two frame base addresses discovered at
/// setup, the three register files, and whether affinity routing came up
/// enabled. The bases are set once during setup and never change afterwards.
pub struct Gicv3 {
    pub dist_base: u64,
    pub redist_base: u64,
    pub dist: Distributor,
    pub redist: Redistributor,
    pub cpuif: CpuInterface,
    pub affinity_enabled: bool,
}

impl Gicv3 {
    /// All register banks are well-formed.
    pub open spec fn wf(&self) -> bool {
        &&& self.dist.wf()
        &&& self.redist.wf()
    }

    /// A controller that has not been set up: bases zero, registers at
    /// reset.
    pub fn new() -> (g: Gicv3)
        ensures
            g.wf(),
            g.dist_base == 0,
            g.redist_base == 0,
            g.affinity_enabled == false,
            g.dist.ctlr == 0,
            g.redist.waker == GICR_WAKER_PSLEEP | GICR_WAKER_CASLEEP,
            g.cpuif.pmr == 0,
            g.cpuif.igrpen1 == 0,
    {
        Gicv3 {
            dist_base: 0,
            redist_base: 0,
            dist: Distributor::new(),
            redist: Redistributor::new(),
            cpuif: CpuInterface::new(),
            affinity_enabled: false,
        }
    }
}

/// Brings the controller up in order: stores the two base addresses, enables
/// Group 1 forwarding at the distributor, clears the redistributor's
/// processor-sleep bit, opens the priority mask fully, and enables Group 1
/// signalling at the CPU interface. The caller must poll the hardware wake
/// register with [`redistributor_awake`] after the sleep bit is cleared and
/// before enabling any interrupt; that wait blocks with no timeout.
pub fn setup(gic: &mut Gicv3, dist_base: u64, redist_base: u64)
    requires
        old(gic).wf(),
    ensures
        final(gic).wf(),
        final(gic).dist_base == dist_base,
        final(gic).redist_base == redist_base,
        final(gic).dist.ctlr == old(gic).dist.ctlr | (GICD_CTLR_GRP1S | GICD_CTLR_GRP1NS),
        final(gic).affinity_enabled == ((final(gic).dist.ctlr & GICD_CTLR_ARE_S) != 0),
        final(gic).redist.waker == old(gic).redist.waker & !GICR_WAKER_PSLEEP,
        final(gic).redist.waker & GICR_WAKER_PSLEEP == 0,
        final(gic).cpuif.pmr == 0xff,
        final(gic).cpuif.igrpen1 == old(gic).cpuif.igrpen1 | 1,
        final(gic).cpuif.igrpen0 == old(gic).cpuif.igrpen0,
        final(gic).dist.igroupr@ == old(gic).dist.igroupr@,
        final(gic).dist.isenabler@ == old(gic).dist.isenabler@,
        final(gic).dist.ipriorityr@ == old(gic).dist.ipriorityr@,
        final(gic).dist.icfgr@ == old(gic).dist.icfgr@,
        final(gic).dist.irouter@ == old(gic).dist.irouter@,
        final(gic).redist.igroupr0 == old(gic).redist.igroupr0,
        final(gic).redist.isenabler0 == old(gic).redist.isenabler0,
        final(gic).redist.ipriorityr@ == old(gic).redist.ipriorityr@,
        final(gic).redist.icfgr@ == old(gic).redist.icfgr@,
{
    gic.dist_base = dist_base;
    gic.redist_base = redist_base;
    let affinity = init_gic_distributor(&mut gic.dist);
    gic.affinity_enabled = affinity;
    init_gic_redistributor(&mut gic.redist);
    set_priority_mask(&mut gic.cpuif, 0xff);
    enable_grp1_ints(&mut gic.cpuif);
}

} // verus!
