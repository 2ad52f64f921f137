//! Timer register operations, device-tree setup, exception naming and
//! integer formatting.

use aarch64_kernel::arch_timer::{
    arm, arm_ms, disable, enable, get_compare_value, get_frequency, get_timer_value,
    interrupt_cells_of, is_pending, mask_interrupt, parse_interrupt_info, rearm, set_compare_value,
    set_timer_value, setup, timer_ppi_from_info, unmask_interrupt, Timer, CTL_ENABLE, CTL_IMASK,
    CTL_ISTATUS,
};
use aarch64_kernel::bytes::{
    read_be_u16, read_be_u32, read_be_u64, read_le_u16, read_le_u32, read_le_u64,
};
use aarch64_kernel::device::Property;
use aarch64_kernel::dtb::parse_dtb;
use aarch64_kernel::gic::Redistributor;
use aarch64_kernel::irq::{classify_irq, format_opcode_bytes, unimplemented_sync, IrqAction, Regs};
use aarch64_kernel::pl011::init_uart;
use aarch64_kernel::print::{hex_u64_digits, hex_u8_digits, print_hex_u64, print_hex_u8, u32_to_str};

#[test]
fn timer_control_bits_flip_independently() {
    let mut t = Timer::new(62_500_000);
    assert_eq!(get_frequency(&t), 62_500_000);
    enable(&mut t);
    assert_eq!(t.ctl, CTL_ENABLE);
    mask_interrupt(&mut t);
    assert_eq!(t.ctl, CTL_ENABLE | CTL_IMASK);
    unmask_interrupt(&mut t);
    assert_eq!(t.ctl, CTL_ENABLE);
    disable(&mut t);
    assert_eq!(t.ctl, 0);
    assert!(!is_pending(&t));
    t.ctl = CTL_ISTATUS;
    assert!(is_pending(&t));
}

#[test]
fn arming_loads_the_countdown() {
    let mut t = Timer::new(62_500_000);
    mask_interrupt(&mut t);
    arm(&mut t, 1000);
    // arming writes the control register whole: enabled and unmasked
    assert_eq!(t.ctl, CTL_ENABLE);
    assert_eq!(get_timer_value(&t), 1000);
    arm_ms(&mut t, 10);
    assert_eq!(get_timer_value(&t), 625_000);
    rearm(&mut t, 42);
    assert_eq!(get_timer_value(&t), 42);
    assert_eq!(t.ctl, CTL_ENABLE);
    set_compare_value(&mut t, 0xdead);
    assert_eq!(get_compare_value(&t), 0xdead);
    set_timer_value(&mut t, 7);
    assert_eq!(get_timer_value(&t), 7);
}

#[test]
fn interrupt_specifier_parsing_picks_the_second_entry() {
    // four specifiers of three cells; the non-secure timer entry is second
    let mut value = Vec::new();
    for c in [1u32, 13, 4, 1, 14, 8, 1, 11, 4, 1, 10, 4] {
        value.extend_from_slice(&c.to_be_bytes());
    }
    let prop = Property { name: b"interrupts".to_vec(), value };
    assert_eq!(parse_interrupt_info(&prop, 3), Some((1, 14, 8)));
    // a property too short for the second specifier parses to nothing
    let short = Property { name: b"interrupts".to_vec(), value: vec![0; 16] };
    assert_eq!(parse_interrupt_info(&short, 3), None);
}

#[test]
fn ppi_mapping_offsets_by_sixteen() {
    // flag bits two and three are the level modes: not edge
    assert_eq!(timer_ppi_from_info((1, 14, 4)), Some((30, false)));
    assert_eq!(timer_ppi_from_info((1, 14, 8)), Some((30, false)));
    // flag bits zero and one are the edge modes
    assert_eq!(timer_ppi_from_info((1, 14, 1)), Some((30, true)));
    assert_eq!(timer_ppi_from_info((1, 14, 2)), Some((30, true)));
    // a shared interrupt is not the timer's to configure
    assert_eq!(timer_ppi_from_info((0, 14, 4)), None);
    // an interrupt number too large for an id configures nothing
    assert_eq!(timer_ppi_from_info((1, u32::MAX - 10, 4)), None);
}

#[test]
fn timer_setup_configures_the_redistributor() {
    let blob = timer_blob();
    let table = parse_dtb(&blob).expect("parses");
    let timer_dev = &table.devices[2];
    assert_eq!(timer_dev.name, b"timer".to_vec());
    let mut redist = Redistributor::new();
    redist.ipriorityr[7] = 0xffff_ffff;
    let configured = setup(&table, timer_dev, &mut redist);
    // specifier type one, number fourteen, flag one: private interrupt
    // thirty, edge-triggered
    assert_eq!(configured, Some((30, true)));
    assert_eq!((redist.icfgr[1] >> 28) & 0b11, 0b10);
    // the priority byte for interrupt thirty is cleared, its neighbours stay
    assert_eq!((redist.ipriorityr[7] >> 16) & 0xff, 0);
    assert_eq!(redist.ipriorityr[7] & 0xffff, 0xffff);
    assert_eq!((redist.ipriorityr[7] >> 24) & 0xff, 0xff);
    assert_eq!(redist.igroupr0, 1 << 30);
    assert_eq!(redist.isenabler0, 1 << 30);
}

#[test]
fn timer_setup_skips_a_node_without_interrupts() {
    let blob = timer_blob();
    let table = parse_dtb(&blob).expect("parses");
    let root = &table.devices[0];
    let mut redist = Redistributor::new();
    assert_eq!(setup(&table, root, &mut redist), None);
    assert_eq!(redist.isenabler0, 0);
}

/// A blob with a root naming its interrupt parent, the controller, and a
/// timer whose second interrupt specifier selects private interrupt 14.
fn timer_blob() -> Vec<u8> {
    let mut structure = Vec::new();
    let mut strings = Vec::new();
    let be32 = |out: &mut Vec<u8>, x: u32| out.extend_from_slice(&x.to_be_bytes());
    let align = |out: &mut Vec<u8>| {
        while out.len() % 4 != 0 {
            out.push(0);
        }
    };
    let mut add_string = |strings: &mut Vec<u8>, s: &[u8]| -> u32 {
        let off = strings.len() as u32;
        strings.extend_from_slice(s);
        strings.push(0);
        off
    };
    // root
    be32(&mut structure, 1);
    structure.push(0);
    align(&mut structure);
    let ip_off = add_string(&mut strings, b"interrupt-parent");
    be32(&mut structure, 3);
    be32(&mut structure, 4);
    be32(&mut structure, ip_off);
    structure.extend_from_slice(&9u32.to_be_bytes());
    // the interrupt controller, phandle 9, three cells per specifier
    be32(&mut structure, 1);
    structure.extend_from_slice(b"intc");
    structure.push(0);
    align(&mut structure);
    let ph_off = add_string(&mut strings, b"phandle");
    be32(&mut structure, 3);
    be32(&mut structure, 4);
    be32(&mut structure, ph_off);
    structure.extend_from_slice(&9u32.to_be_bytes());
    let ic_off = add_string(&mut strings, b"#interrupt-cells");
    be32(&mut structure, 3);
    be32(&mut structure, 4);
    be32(&mut structure, ic_off);
    structure.extend_from_slice(&3u32.to_be_bytes());
    be32(&mut structure, 2);
    // the timer
    be32(&mut structure, 1);
    structure.extend_from_slice(b"timer");
    structure.push(0);
    align(&mut structure);
    let int_off = add_string(&mut strings, b"interrupts");
    let mut ints = Vec::new();
    for c in [1u32, 13, 4, 1, 14, 1, 1, 11, 4, 1, 10, 4] {
        ints.extend_from_slice(&c.to_be_bytes());
    }
    be32(&mut structure, 3);
    be32(&mut structure, ints.len() as u32);
    be32(&mut structure, int_off);
    structure.extend_from_slice(&ints);
    be32(&mut structure, 2);
    be32(&mut structure, 2);
    be32(&mut structure, 9);

    let mut blob = Vec::new();
    be32(&mut blob, 0xd00dfeed);
    be32(&mut blob, (40 + structure.len() + strings.len()) as u32);
    be32(&mut blob, 40);
    be32(&mut blob, (40 + structure.len()) as u32);
    be32(&mut blob, 0);
    be32(&mut blob, 17);
    be32(&mut blob, 16);
    be32(&mut blob, 0);
    be32(&mut blob, strings.len() as u32);
    be32(&mut blob, structure.len() as u32);
    blob.extend_from_slice(&structure);
    blob.extend_from_slice(&strings);
    blob
}

#[test]
fn cells_default_to_three() {
    let blob = timer_blob();
    let table = parse_dtb(&blob).expect("parses");
    let intc = &table.devices[1];
    assert_eq!(interrupt_cells_of(intc), 3);
    let root = &table.devices[0];
    assert_eq!(interrupt_cells_of(root), 3);
}

#[test]
fn endian_readers_extract_at_offsets() {
    let bytes = [0x01u8, 0x02, 0x03, 0x04, 0x05, 0x06, 0x07, 0x08, 0x09];
    assert_eq!(read_be_u16(&bytes, 1), 0x0203);
    assert_eq!(read_be_u32(&bytes, 0), 0x01020304);
    assert_eq!(read_be_u32(&bytes, 2), 0x03040506);
    assert_eq!(read_be_u64(&bytes, 1), 0x0203040506070809);
    assert_eq!(read_le_u16(&bytes, 1), 0x0302);
    assert_eq!(read_le_u32(&bytes, 0), 0x04030201);
    assert_eq!(read_le_u64(&bytes, 0), 0x0807060504030201);
}

#[test]
fn decimal_rendering_is_exact() {
    assert_eq!(u32_to_str(0), b"0".to_vec());
    assert_eq!(u32_to_str(7), b"7".to_vec());
    assert_eq!(u32_to_str(1234567890), b"1234567890".to_vec());
    assert_eq!(u32_to_str(u32::MAX), b"4294967295".to_vec());
}

#[test]
fn hex_rendering_is_zero_padded() {
    assert_eq!(hex_u64_digits(0x42), b"0000000000000042".to_vec());
    assert_eq!(hex_u64_digits(0xdeadbeef_01234567), b"deadbeef01234567".to_vec());
    assert_eq!(hex_u8_digits(0x2A), b"2A".to_vec());
    assert_eq!(hex_u8_digits(0x00), b"00".to_vec());
    assert_eq!(hex_u8_digits(0xFF), b"FF".to_vec());
}

#[test]
fn hex_printers_append_to_the_transmit_log() {
    let mut uart = init_uart(0, 24_000_000, 115_200);
    print_hex_u64(&mut uart, 0x42);
    print_hex_u8(&mut uart, 0x2A);
    assert_eq!(uart.tx, b"00000000000000422A".to_vec());
}

#[test]
fn opcode_bytes_render_least_significant_first() {
    // the word 0xd65f03c0 prints as "[C0] 03 5F D6"
    assert_eq!(format_opcode_bytes(0xd65f03c0), b"[C0] 03 5F D6".to_vec());
}

#[test]
fn irq_ids_classify_to_their_handlers() {
    assert_eq!(classify_irq(30), IrqAction::TimerTick);
    assert_eq!(classify_irq(33), IrqAction::UartRx);
    assert_eq!(classify_irq(0), IrqAction::Unhandled);
    assert_eq!(classify_irq(31), IrqAction::Unhandled);
}

#[test]
fn exception_classes_name_themselves() {
    assert_eq!(unimplemented_sync(1), "Trapped WF");
    assert_eq!(unimplemented_sync(21), "SVC in AArch64 state");
    assert_eq!(unimplemented_sync(60), "BRK instruction in AArch64 state");
    assert_eq!(unimplemented_sync(2), "Unknown reason");
    assert_eq!(unimplemented_sync(1000), "Unknown reason");
}

#[test]
fn register_dump_orders_values_and_names() {
    let mut regs = Regs {
        spsr: 4,
        elr: 3,
        esr: 2,
        xzr: 0,
        x0: 100,
        x1: 101,
        x2: 102,
        x3: 103,
        x4: 104,
        x5: 105,
        x6: 106,
        x7: 107,
        x8: 108,
        x9: 109,
        x10: 110,
        x11: 111,
        x12: 112,
        x13: 113,
        x14: 114,
        x15: 115,
        x16: 116,
        x17: 117,
        x18: 118,
        x19: 119,
        x20: 120,
        x21: 121,
        x22: 122,
        x23: 123,
        x24: 124,
        x25: 125,
        x26: 126,
        x27: 127,
        x28: 128,
        x29: 129,
        x30: 130,
    };
    regs.xzr = 0;
    let a = regs.as_array();
    assert_eq!(a.len(), 34);
    assert_eq!(a[0], 100);
    assert_eq!(a[30], 130);
    assert_eq!(a[31], 2);
    assert_eq!(a[32], 3);
    assert_eq!(a[33], 4);
    let pairs = regs.iter();
    assert_eq!(pairs.len(), 34);
    assert_eq!(pairs[0], ("x0 ", 100));
    assert_eq!(pairs[31], ("esr", 2));
    assert_eq!(pairs[33], ("spsr", 4));
}
