//! ARM generic timer driver (non-secure physical timer), over an explicit
//! register state.
//!
//! The timer's control, countdown and compare registers appear as one value;
//! every operation is a verified function from old register state to new.
//! The free-running counter and the firmware-set frequency are read-only
//! hardware inputs: the frequency is captured at construction, counter reads
//! stay with the shell. Setting up from the device tree parses the timer
//! node's `interrupts` property, picks the non-secure physical timer entry,
//! and configures the resulting core-local interrupt at the redistributor.

use vstd::prelude::*;

use crate::bytes::be_u32_at;
use crate::device::PlatformDevice;
use crate::device::Property;
use crate::dtb::DeviceTable;
use crate::gic::Redistributor;
use crate::gic::cfg_field;
use crate::gic::prio_byte;

verus! {

/// Control register: timer enabled.
pub const CTL_ENABLE: u64 = 1u64 << 0;

/// Control register: interrupt masked.
pub const CTL_IMASK: u64 = 1u64 << 1;

/// Control register: interrupt condition met (read-only in hardware).
pub const CTL_ISTATUS: u64 = 1u64 << 2;

/// The non-secure physical timer's registers: control, countdown value,
/// compare value, and the firmware-set counter frequency.
pub struct Timer {
    /// Control register.
    pub ctl: u64,
    /// Countdown register: the timer fires after this many ticks.
    pub tval: u32,
    /// Compare register: the timer fires when the counter reaches this.
    pub cval: u64,
    /// Counter frequency in ticks per second, set by firmware.
    pub freq: u64,
}

impl Timer {
    /// A timer that is disabled with nothing armed, at counter frequency
    /// `freq`.
    pub fn new(freq: u64) -> (t: Timer)
        ensures
            t.ctl == 0,
            t.tval == 0,
            t.cval == 0,
            t.freq == freq,
    {
        Timer { ctl: 0, tval: 0, cval: 0, freq }
    }
}

/// The timer frequency in ticks per second.
pub fn get_frequency(timer: &Timer) -> (freq: u64)
    ensures
        freq == timer.freq,
{
    timer.freq
}

/// Sets the countdown register: the timer fires after `tval` ticks.
pub fn set_timer_value(timer: &mut Timer, tval: u32)
    ensures
        final(timer).tval == tval,
        final(timer).ctl == old(timer).ctl,
        final(timer).cval == old(timer).cval,
        final(timer).freq == old(timer).freq,
{
    timer.tval = tval;
}

/// The countdown register's current value.
pub fn get_timer_value(timer: &Timer) -> (tval: u32)
    ensures
        tval == timer.tval,
{
    timer.tval
}

/// Sets the compare register: the timer fires when the counter reaches
/// `cval`.
pub fn set_compare_value(timer: &mut Timer, cval: u64)
    ensures
        final(timer).cval == cval,
        final(timer).ctl == old(timer).ctl,
        final(timer).tval == old(timer).tval,
        final(timer).freq == old(timer).freq,
{
    timer.cval = cval;
}

/// The compare register's current value.
pub fn get_compare_value(timer: &Timer) -> (cval: u64)
    ensures
        cval == timer.cval,
{
    timer.cval
}

/// Enables the timer, leaving the mask and status bits as they are.
pub fn enable(timer: &mut Timer)
    ensures
        final(timer).ctl == old(timer).ctl | CTL_ENABLE,
        final(timer).ctl & CTL_ENABLE != 0,
        final(timer).tval == old(timer).tval,
        final(timer).cval == old(timer).cval,
        final(timer).freq == old(timer).freq,
{
    let c = timer.ctl;
    timer.ctl = c | CTL_ENABLE;
    proof {
        assert((c | (1u64 << 0)) & (1u64 << 0) != 0) by (bit_vector);
    }
}

/// Disables the timer, leaving the mask and status bits as they are.
pub fn disable(timer: &mut Timer)
    ensures
        final(timer).ctl == old(timer).ctl & !CTL_ENABLE,
        final(timer).ctl & CTL_ENABLE == 0,
        final(timer).tval == old(timer).tval,
        final(timer).cval == old(timer).cval,
        final(timer).freq == old(timer).freq,
{
    let c = timer.ctl;
    timer.ctl = c & !CTL_ENABLE;
    proof {
        assert((c & !(1u64 << 0)) & (1u64 << 0) == 0) by (bit_vector);
    }
}

/// Masks the timer interrupt: the timer may fire but does not signal.
pub fn mask_interrupt(timer: &mut Timer)
    ensures
        final(timer).ctl == old(timer).ctl | CTL_IMASK,
        final(timer).ctl & CTL_IMASK != 0,
        final(timer).tval == old(timer).tval,
        final(timer).cval == old(timer).cval,
        final(timer).freq == old(timer).freq,
{
    let c = timer.ctl;
    timer.ctl = c | CTL_IMASK;
    proof {
        assert((c | (1u64 << 1)) & (1u64 << 1) != 0) by (bit_vector);
    }
}

/// Unmasks the timer interrupt.
pub fn unmask_interrupt(timer: &mut Timer)
    ensures
        final(timer).ctl == old(timer).ctl & !CTL_IMASK,
        final(timer).ctl & CTL_IMASK == 0,
        final(timer).tval == old(timer).tval,
        final(timer).cval == old(timer).cval,
        final(timer).freq == old(timer).freq,
{
    let c = timer.ctl;
    timer.ctl = c & !CTL_IMASK;
    proof {
        assert((c & !(1u64 << 1)) & (1u64 << 1) == 0) by (bit_vector);
    }
}

/// Whether the timer condition is met: the status bit of the control value.
pub fn is_pending(timer: &Timer) -> (pending: bool)
    ensures
        pending == (timer.ctl & CTL_ISTATUS != 0),
{
    (timer.ctl & CTL_ISTATUS) != 0
}

/// Arms the timer to fire after `ticks` counter increments: loads the
/// countdown and writes the control register whole, enabled and unmasked.
pub fn arm(timer: &mut Timer, ticks: u32)
    ensures
        final(timer).tval == ticks,
        final(timer).ctl == CTL_ENABLE,
        final(timer).cval == old(timer).cval,
        final(timer).freq == old(timer).freq,
{
    set_timer_value(timer, ticks);
    timer.ctl = CTL_ENABLE;
}

/// Arms the timer to fire after `ms` milliseconds, converting through the
/// counter frequency; the tick count is truncated to the countdown
/// register's width.
pub fn arm_ms(timer: &mut Timer, ms: u32)
    requires
        (old(timer).freq / 1000) * ms <= u64::MAX,
    ensures
        final(timer).tval == ((old(timer).freq / 1000) * ms) as u32,
        final(timer).ctl == CTL_ENABLE,
        final(timer).cval == old(timer).cval,
        final(timer).freq == old(timer).freq,
{
    let freq = get_frequency(timer);
    let ticks = (freq / 1000) * (ms as u64);
    arm(timer, #[verifier::truncate] (ticks as u32));
}

/// Rearms the timer for the next tick by reloading the countdown register
/// only; call from the interrupt handler.
pub fn rearm(timer: &mut Timer, ticks: u32)
    ensures
        final(timer).tval == ticks,
        final(timer).ctl == old(timer).ctl,
        final(timer).cval == old(timer).cval,
        final(timer).freq == old(timer).freq,
{
    set_timer_value(timer, ticks);
}

/// The interrupt parent's `#interrupt-cells`: its first sealed property of
/// that name read as a big-endian `u32`, or three — the interrupt
/// controller's own specifier width — when absent or shorter than a cell.
pub open spec fn spec_interrupt_cells(intc: crate::device::SpecDevice) -> u32 {
    match crate::device::prop_index(
        intc.props,
        intc.prop_count,
        crate::device::interrupt_cells_bytes(),
        0,
    ) {
        Some(k) => if intc.props[k].value.len() >= 4 {
            be_u32_at(intc.props[k].value, 0)
        } else {
            3
        },
        None => 3,
    }
}

/// Reads the interrupt parent's `#interrupt-cells`, defaulting to three.
pub fn interrupt_cells_of(intc: &PlatformDevice) -> (cells: u32)
    requires
        intc.wf(),
    ensures
        cells == spec_interrupt_cells(intc@),
{
    let key = crate::device::interrupt_cells_name();
    match intc.find_property(key.as_slice()) {
        Some(p) => {
            if p.value.len() >= 4 {
                crate::bytes::read_be_u32(p.value.as_slice(), 0)
            } else {
                3
            }
        },
        None => 3,
    }
}

/// The second interrupt specifier of an `interrupts` property — the
/// non-secure physical timer's — as up to three cells: interrupt type,
/// interrupt number, trigger flags. Cells past the specifier width read as
/// zero; a property too short for the specifier yields nothing.
pub open spec fn spec_interrupt_info(value: Seq<u8>, cells: u32) -> Option<(u32, u32, u32)> {
    let m: int = if cells < 3 {
        cells as int
    } else {
        3
    };
    let base: int = cells * 4;
    if base + m * 4 > value.len() {
        None
    } else {
        Some(
            (
                if m >= 1 {
                    be_u32_at(value, base)
                } else {
                    0
                },
                if m >= 2 {
                    be_u32_at(value, base + 4)
                } else {
                    0
                },
                if m >= 3 {
                    be_u32_at(value, base + 8)
                } else {
                    0
                },
            ),
        )
    }
}

/// Reads the non-secure timer's interrupt specifier out of the `interrupts`
/// property, `cells` cells per specifier.
pub fn parse_interrupt_info(prop: &Property, cells: u32) -> (r: Option<(u32, u32, u32)>)
    ensures
        r == spec_interrupt_info(prop@.value, cells),
{
    let m: u64 = if cells < 3 {
        cells as u64
    } else {
        3
    };
    let base: u64 = (cells as u64) * 4;
    let value = prop.value.as_slice();
    let vlen = value.len();
    if base + m * 4 > vlen as u64 {
        return None;
    }
    let base_us = base as usize;
    let i0 = if m >= 1 {
        crate::bytes::read_be_u32(value, base_us)
    } else {
        0
    };
    let i1 = if m >= 2 {
        crate::bytes::read_be_u32(value, base_us + 4)
    } else {
        0
    };
    let i2 = if m >= 3 {
        crate::bytes::read_be_u32(value, base_us + 8)
    } else {
        0
    };
    Some((i0, i1, i2))
}

/// The core-local interrupt a timer specifier asks for: private peripheral
/// interrupts (type one) map to interrupt ids offset by sixteen, and any of
/// the two low trigger-flag bits selects edge mode. A shared interrupt, or
/// a number too large for an interrupt id, configures nothing.
pub open spec fn spec_timer_ppi(info: (u32, u32, u32)) -> Option<(u32, bool)> {
    if info.0 == 1 && info.1 + 16 <= u32::MAX {
        Some(((16 + info.1) as u32, (info.2 & 3) != 0))
    } else {
        None
    }
}

/// Maps an interrupt specifier to the private peripheral interrupt id and
/// trigger mode it selects, if any.
pub fn timer_ppi_from_info(info: (u32, u32, u32)) -> (r: Option<(u32, bool)>)
    ensures
        r == spec_timer_ppi(info),
{
    if info.0 == 1 && info.1 <= u32::MAX - 16 {
        Some((16 + info.1, (info.2 & 3) != 0))
    } else {
        None
    }
}

/// What setting the timer up from its device-tree node configures: the
/// private peripheral interrupt id and its trigger mode, from the node's
/// `interrupts` property sized by the interrupt parent's specifier width —
/// or nothing, when any piece is absent or malformed, or the id would fall
/// outside the redistributor's thirty-two core-local interrupts.
pub open spec fn spec_timer_setup(
    devs: Seq<crate::device::SpecDevice>,
    phs: Seq<(u32, int)>,
    d: crate::device::SpecDevice,
) -> Option<(u32, bool)> {
    match crate::device::prop_index(d.props, d.prop_count, crate::device::interrupts_bytes(), 0) {
        None => None,
        Some(k) => match crate::dtb::spec_interrupt_parent(devs, phs, d.parent) {
            None => None,
            Some(ic) => {
                let cells = spec_interrupt_cells(devs[ic]);
                match spec_interrupt_info(d.props[k].value, cells) {
                    None => None,
                    Some(info) => match spec_timer_ppi(info) {
                        None => None,
                        Some((id, edge)) => if id < 32 {
                            Some((id, edge))
                        } else {
                            None
                        },
                    },
                }
            },
        },
    }
}

/// Sets the timer up from its device-tree node: finds the non-secure
/// physical timer's interrupt specifier and, for a private peripheral
/// interrupt, programs its trigger mode, gives it the most urgent priority,
/// assigns it to Group 1 and enables it at the redistributor. A node whose
/// properties are absent or malformed is silently left unconfigured.
pub fn setup(table: &DeviceTable, dev: &PlatformDevice, redist: &mut Redistributor) -> (r: Option<
    (u32, bool),
>)
    requires
        table.wf(),
        dev.wf(),
        dev@.parent matches Some(p) ==> 0 <= p < table@.devices.len(),
        old(redist).wf(),
    ensures
        final(redist).wf(),
        r == spec_timer_setup(table@.devices, table@.phandles, dev@),
        match r {
            None => *final(redist) == *old(redist),
            Some((id, edge)) => id < 32 && {
                &&& cfg_field(final(redist).icfgr@[id as int / 16], id % 16) == (if edge {
                    0b10u32
                } else {
                    0u32
                })
                &&& final(redist).icfgr@ == old(redist).icfgr@.update(
                    id as int / 16,
                    final(redist).icfgr@[id as int / 16],
                )
                &&& forall|k: u32|
                    k < 16 && k != id % 16 ==> #[trigger] cfg_field(
                        final(redist).icfgr@[id as int / 16],
                        k,
                    ) == cfg_field(old(redist).icfgr@[id as int / 16], k)
                &&& prio_byte(final(redist).ipriorityr@[id as int / 4], id % 4) == 0
                &&& final(redist).ipriorityr@ == old(redist).ipriorityr@.update(
                    id as int / 4,
                    final(redist).ipriorityr@[id as int / 4],
                )
                &&& forall|k: u32|
                    k < 4 && k != id % 4 ==> #[trigger] prio_byte(
                        final(redist).ipriorityr@[id as int / 4],
                        k,
                    ) == prio_byte(old(redist).ipriorityr@[id as int / 4], k)
                &&& final(redist).igroupr0 == old(redist).igroupr0 | (1u32 << id)
                &&& final(redist).isenabler0 == old(redist).isenabler0 | (1u32 << id)
                &&& final(redist).waker == old(redist).waker
            },
        },
{
    let int_key = crate::device::interrupts_name();
    match dev.find_property(int_key.as_slice()) {
        None => None,
        Some(int_prop) => {
            match crate::dtb::find_interrupt_parent(table, dev) {
                None => None,
                Some(intc) => {
                    proof {
                        crate::dtb::lemma_interrupt_parent_in_range(
                            table@.devices,
                            table@.phandles,
                            dev@.parent,
                        );
                        let ix = crate::dtb::spec_interrupt_parent(
                            table@.devices,
                            table@.phandles,
                            dev@.parent,
                        ).unwrap();
                        assert(table@.devices[ix].prop_count <= table@.devices[ix].props.len()
                            <= crate::device::MAX_PROPS);
                    }
                    let interrupt_cells = interrupt_cells_of(intc);
                    match parse_interrupt_info(int_prop, interrupt_cells) {
                        None => None,
                        Some(info) => {
                            match timer_ppi_from_info(info) {
                                None => None,
                                Some((ppi_id, edge)) => {
                                    if ppi_id < 32 {
                                        if edge {
                                            crate::gic::set_ppi_trigger_edge(redist, ppi_id);
                                        } else {
                                            crate::gic::set_ppi_trigger_level(redist, ppi_id);
                                        }
                                        crate::gic::set_int_priority(redist, ppi_id, 0x00);
                                        crate::gic::set_int_grp(redist, ppi_id);
                                        crate::gic::enable_int(redist, ppi_id);
                                        Some((ppi_id, edge))
                                    } else {
                                        None
                                    }
                                },
                            }
                        },
                    }
                },
            }
        },
    }
}

} // verus!
