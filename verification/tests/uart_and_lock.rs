//! The receive ring, the interrupt-safe lock, and the UART register model.

use aarch64_kernel::irq_safe_mutex::{disable_irq, restore_interrupts, CpuState, Mutex, DAIF_IRQ_BIT};
use aarch64_kernel::pl011::{
    configure_uart, getchar, handle_uart_rx, init_uart, putchar, uart_busy, uart_ready,
    uart_reg_base, uart_set_speed, UartBuffer, CR_RXEN, CR_UARTEN, ICR_RXIC, IMSC_RXIM, LCR_FEN,
    UART_BUFFER_SIZE,
};
use aarch64_kernel::dtb::parse_dtb;

#[test]
fn buffer_accepts_capacity_minus_one_and_drops_the_next() {
    let mut buf = UartBuffer::new();
    for i in 0..(UART_BUFFER_SIZE - 1) {
        assert!(buf.push(i as u8), "push {} should succeed", i);
    }
    // the capacity-th push finds the buffer full and drops the byte
    assert!(!buf.push(0xAA));
    // the dropped byte did not disturb the stored data
    for i in 0..(UART_BUFFER_SIZE - 1) {
        assert_eq!(buf.pop(), Some(i as u8));
    }
    assert_eq!(buf.pop(), None);
}

#[test]
fn buffer_preserves_order_across_wraparound() {
    let mut buf = UartBuffer::new();
    // advance the indices deep into the ring
    for i in 0..200 {
        assert!(buf.push(i as u8));
    }
    for i in 0..200 {
        assert_eq!(buf.pop(), Some(i as u8));
    }
    // now push across the physical end of the ring
    for i in 0..100u32 {
        assert!(buf.push((100 + i) as u8));
    }
    for i in 0..100u32 {
        assert_eq!(buf.pop(), Some((100 + i) as u8));
    }
    assert_eq!(buf.pop(), None);
}

#[test]
fn failed_push_keeps_the_buffer_exactly_as_it_was() {
    let mut buf = UartBuffer::new();
    for i in 0..(UART_BUFFER_SIZE - 1) {
        assert!(buf.push(i as u8));
    }
    assert!(!buf.push(1));
    assert!(!buf.push(2));
    // the first byte is still first: the head did not move
    assert_eq!(buf.pop(), Some(0));
}

#[test]
fn lock_irqsafe_restores_the_exact_interrupt_state() {
    let mut cpu = CpuState { daif: 0x3c0 };
    let mut m = Mutex::new(41u64);
    let r = m.lock_irqsafe(&mut cpu, |v, observed_daif| {
        // interrupts are observably masked for the whole critical section
        assert_eq!(observed_daif & DAIF_IRQ_BIT, DAIF_IRQ_BIT);
        assert_eq!(observed_daif, 0x3c0 | DAIF_IRQ_BIT);
        (v + 1, v)
    });
    assert_eq!(r, 41);
    // the prior state comes back exactly, not unconditionally enabled
    assert_eq!(cpu.daif, 0x3c0);

    // a state that already had interrupts masked is restored as masked
    let mut cpu2 = CpuState { daif: DAIF_IRQ_BIT };
    m.lock_irqsafe(&mut cpu2, |v, observed| {
        assert_eq!(observed, DAIF_IRQ_BIT);
        (v, ())
    });
    assert_eq!(cpu2.daif, DAIF_IRQ_BIT);
}

#[test]
fn plain_lock_runs_the_critical_section() {
    let mut m = Mutex::new(vec![1u8, 2, 3]);
    let first = m.lock(|mut v| {
        let first = v[0];
        v.push(4);
        (v, first)
    });
    assert_eq!(first, 1);
    let len = m.lock(|v| {
        let n = v.len();
        (v, n)
    });
    assert_eq!(len, 4);
}

#[test]
fn disable_and_restore_round_trip() {
    let mut cpu = CpuState { daif: 0x40 };
    let saved = disable_irq(&mut cpu);
    assert_eq!(saved, 0x40);
    assert_eq!(cpu.daif, 0x40 | DAIF_IRQ_BIT);
    restore_interrupts(&mut cpu, saved);
    assert_eq!(cpu.daif, 0x40);
}

#[test]
fn getchar_drains_what_the_interrupt_pushed() {
    let mut cpu = CpuState { daif: 0 };
    let mut rx = Mutex::new(UartBuffer::new());
    assert_eq!(getchar(&mut rx, &mut cpu), None);
    assert!(handle_uart_rx(&mut rx, &mut cpu, b'h'));
    assert!(handle_uart_rx(&mut rx, &mut cpu, b'i'));
    assert_eq!(getchar(&mut rx, &mut cpu), Some(b'h'));
    assert_eq!(getchar(&mut rx, &mut cpu), Some(b'i'));
    assert_eq!(getchar(&mut rx, &mut cpu), None);
    assert_eq!(cpu.daif, 0);
}

#[test]
fn rx_handler_reports_a_full_buffer() {
    let mut cpu = CpuState { daif: 0 };
    let mut rx = Mutex::new(UartBuffer::new());
    for i in 0..(UART_BUFFER_SIZE - 1) {
        assert!(handle_uart_rx(&mut rx, &mut cpu, i as u8));
    }
    assert!(!handle_uart_rx(&mut rx, &mut cpu, 0xFF));
    assert_eq!(getchar(&mut rx, &mut cpu), Some(0));
}

#[test]
fn configure_uart_programs_the_register_file() {
    let mut uart = init_uart(0x0900_0000, 24_000_000, 115_200);
    assert_eq!(uart.data_bits, 8);
    assert_eq!(uart.stop_bits, 1);
    configure_uart(&mut uart);
    // divisor = 4 * 24000000 / 115200 = 833 = 0b1101000001
    assert_eq!(uart.ibrd, 833 >> 6);
    assert_eq!(uart.fbrd, 833 & 0x3f);
    // eight data bits: word-length field 0b11; FIFOs enabled
    assert_eq!(uart.lcr, (0b11 << 5) | LCR_FEN);
    assert_eq!(uart.imsc, IMSC_RXIM);
    assert_eq!(uart.dmacr, 0x01);
    assert_eq!(uart.cr, CR_UARTEN | CR_RXEN);
    assert_eq!(uart.tx, Vec::<u8>::new());
}

#[test]
fn uart_set_speed_splits_the_divisor() {
    let mut uart = init_uart(0, 24_000_000, 115_200);
    uart_set_speed(&mut uart);
    assert_eq!(uart.ibrd, 13);
    assert_eq!(uart.fbrd, 1);
}

#[test]
fn transmit_appends_to_the_log_in_order() {
    let mut uart = init_uart(0, 24_000_000, 115_200);
    putchar(&mut uart, b'>');
    aarch64_kernel::pl011::print(&mut uart, b"ok");
    aarch64_kernel::pl011::println(&mut uart, b"!");
    assert_eq!(uart.tx, b">ok!\n".to_vec());
}

#[test]
fn flag_register_decisions() {
    assert!(uart_ready(0));
    assert!(!uart_ready(1 << 5));
    assert!(uart_busy(1 << 3));
    assert!(!uart_busy(0));
    assert_eq!(ICR_RXIC, 1 << 4);
}

#[test]
fn uart_base_comes_from_its_reg_property() {
    // reuse a parsed blob: root with default-sized cells and a uart node
    let mut structure = Vec::new();
    let mut strings = Vec::new();
    let be32 = |out: &mut Vec<u8>, x: u32| out.extend_from_slice(&x.to_be_bytes());
    // root
    be32(&mut structure, 1);
    structure.push(0);
    while structure.len() % 4 != 0 {
        structure.push(0);
    }
    // uart child with reg sized by the defaults: two address cells, one size
    be32(&mut structure, 1);
    structure.extend_from_slice(b"pl011");
    structure.push(0);
    while structure.len() % 4 != 0 {
        structure.push(0);
    }
    let reg_off = strings.len() as u32;
    strings.extend_from_slice(b"reg");
    strings.push(0);
    let mut reg = Vec::new();
    reg.extend_from_slice(&0x0900_0000u64.to_be_bytes());
    reg.extend_from_slice(&0x1000u32.to_be_bytes());
    be32(&mut structure, 3);
    be32(&mut structure, reg.len() as u32);
    be32(&mut structure, reg_off);
    structure.extend_from_slice(&reg);
    be32(&mut structure, 2);
    be32(&mut structure, 2);
    be32(&mut structure, 9);
    let mut blob = Vec::new();
    be32(&mut blob, 0xd00dfeed);
    be32(&mut blob, (40 + structure.len() + strings.len()) as u32);
    be32(&mut blob, 40);
    be32(&mut blob, (40 + structure.len()) as u32);
    be32(&mut blob, 0);
    be32(&mut blob, 17);
    be32(&mut blob, 16);
    be32(&mut blob, 0);
    be32(&mut blob, strings.len() as u32);
    be32(&mut blob, structure.len() as u32);
    blob.extend_from_slice(&structure);
    blob.extend_from_slice(&strings);

    let table = parse_dtb(&blob).expect("parses");
    let uart_dev = &table.devices[1];
    assert_eq!(uart_reg_base(&table, uart_dev), Some(0x0900_0000));
    let root = &table.devices[0];
    assert_eq!(uart_reg_base(&table, root), None);
}
