//! PL011 UART driver: receive buffering and device configuration.
//!
//! Reception is interrupt-driven: the interrupt handler pushes each incoming
//! byte into a fixed-capacity circular buffer that foreground code drains
//! through [`getchar`]; both sides take the interrupt-safe lock. Transmission
//! is modeled as an append-only log of the bytes written to the data
//! register; the shell that owns the hardware polls the flag register and
//! forwards each logged byte. The device's control registers appear as an
//! explicit register file, so configuration is a verified function from old
//! register state to new register state.

use vstd::prelude::*;

use crate::irq_safe_mutex::CpuState;
use crate::irq_safe_mutex::Mutex;

verus! {

/// Physical size of the receive ring; usable capacity is one less.
pub const UART_BUFFER_SIZE: usize = 256;

/// A circular byte buffer written by the receive interrupt handler and read
/// by foreground code. One slot always stays free: the buffer is full at one
/// byte less than its physical size, and a push into a full buffer drops
/// the byte, the silent backpressure this transport is designed around.
pub struct UartBuffer {
    buffer: Vec<u8>,
    head: usize,
    tail: usize,
}

impl UartBuffer {
    /// The ring is exactly its physical size and both indices stay inside it.
    pub closed spec fn wf(&self) -> bool {
        &&& self.buffer@.len() == UART_BUFFER_SIZE
        &&& self.head < UART_BUFFER_SIZE
        &&& self.tail < UART_BUFFER_SIZE
    }

    /// The buffered bytes in arrival order: from the read index up to the
    /// write index, wrapping around the end of the ring.
    pub closed spec fn contents(&self) -> Seq<u8> {
        if self.head >= self.tail {
            self.buffer@.subrange(self.tail as int, self.head as int)
        } else {
            self.buffer@.subrange(self.tail as int, UART_BUFFER_SIZE as int) + self.buffer@.subrange(
                0,
                self.head as int,
            )
        }
    }

    /// An empty receive buffer.
    pub fn new() -> (b: UartBuffer)
        ensures
            b.wf(),
            b.contents() == Seq::<u8>::empty(),
    {
        let b = UartBuffer { buffer: zero_bytes(UART_BUFFER_SIZE), head: 0, tail: 0 };
        proof {
            assert(b.contents() =~= Seq::<u8>::empty());
        }
        b
    }

    /// How many bytes are buffered.
    pub open spec fn len(&self) -> int {
        self.contents().len() as int
    }

    /// Pushes a byte at the write index. When the buffer is full — one less
    /// than the physical size — the byte is dropped, nothing moves, and the
    /// push reports failure; no data already buffered is disturbed.
    pub fn push(&mut self, byte: u8) -> (ok: bool)
        requires
            old(self).wf(),
        ensures
            final(self).wf(),
            ok == (old(self).contents().len() < UART_BUFFER_SIZE - 1),
            ok ==> final(self).contents() == old(self).contents().push(byte),
            !ok ==> *final(self) == *old(self),
    {
        let head = self.head;
        let next_head = (head + 1) % UART_BUFFER_SIZE;
        if next_head == self.tail {
            proof {
                lemma_ring_len(self.head as int, self.tail as int);
            }
            return false;
        }
        self.buffer[head] = byte;
        self.head = next_head;
        proof {
            lemma_ring_len(head as int, self.tail as int);
            if head >= self.tail {
                if head < UART_BUFFER_SIZE - 1 {
                    assert(self.contents() =~= old(self).contents().push(byte));
                } else {
                    assert(self.contents() =~= old(self).contents().push(byte));
                }
            } else {
                assert(self.contents() =~= old(self).contents().push(byte));
            }
        }
        true
    }

    /// Pops the oldest byte at the read index, or nothing when the buffer is
    /// empty; an empty pop changes nothing.
    pub fn pop(&mut self) -> (r: Option<u8>)
        requires
            old(self).wf(),
        ensures
            final(self).wf(),
            match r {
                Some(b) => old(self).contents().len() > 0 && b == old(self).contents()[0]
                    && final(self).contents() == old(self).contents().subrange(
                    1,
                    old(self).contents().len() as int,
                ),
                None => old(self).contents().len() == 0 && *final(self) == *old(self),
            },
    {
        let tail = self.tail;
        if self.head == tail {
            return None;
        }
        let byte = self.buffer[tail];
        let next_tail = (tail + 1) % UART_BUFFER_SIZE;
        self.tail = next_tail;
        proof {
            if self.head > tail {
                assert(self.contents() =~= old(self).contents().subrange(
                    1,
                    old(self).contents().len() as int,
                ));
            } else if tail < UART_BUFFER_SIZE - 1 {
                assert(self.contents() =~= old(self).contents().subrange(
                    1,
                    old(self).contents().len() as int,
                ));
            } else {
                assert(self.contents() =~= old(self).contents().subrange(
                    1,
                    old(self).contents().len() as int,
                ));
            }
        }
        Some(byte)
    }
}

/// Builds a zeroed byte array for the ring.
fn zero_bytes(n: usize) -> (v: Vec<u8>)
    ensures
        v@.len() == n,
{
    let mut v: Vec<u8> = Vec::new();
    let mut i: usize = 0;
    while i < n
        invariant
            0 <= i <= n,
            v@.len() == i,
        decreases n - i,
    {
        v.push(0);
        i = i + 1;
    }
    v
}

/// The ring's occupancy is the gap between its indices, so it can never
/// reach the physical size: the capacity-th push finds the buffer full.
proof fn lemma_ring_len(head: int, tail: int)
    requires
        0 <= head < UART_BUFFER_SIZE,
        0 <= tail < UART_BUFFER_SIZE,
    ensures
        (head + 1) % (UART_BUFFER_SIZE as int) == tail <==> (if head >= tail {
            head - tail
        } else {
            UART_BUFFER_SIZE - tail + head
        }) == UART_BUFFER_SIZE - 1,
{
}

/// Reads one byte from the interrupt-driven receive buffer, taking the
/// interrupt-safe lock around the pop; the core's interrupt state is
/// restored exactly.
pub fn getchar(rx: &mut Mutex<UartBuffer>, cpu: &mut CpuState) -> (r: Option<u8>)
    requires
        old(rx).wf(),
        !old(rx).locked(),
        old(rx).value().wf(),
    ensures
        final(rx).wf(),
        !final(rx).locked(),
        final(rx).value().wf(),
        final(cpu).daif == old(cpu).daif,
        match r {
            Some(b) => old(rx).value().contents().len() > 0 && b == old(rx).value().contents()[0]
                && final(rx).value().contents() == old(rx).value().contents().subrange(
                1,
                old(rx).value().contents().len() as int,
            ),
            None => old(rx).value().contents().len() == 0 && final(rx).value().contents() == old(
                rx,
            ).value().contents(),
        },
{
    let f = |mut buf: UartBuffer, observed_daif: u64| -> (out: (UartBuffer, Option<u8>))
        requires
            buf.wf(),
        ensures
            out.0.wf(),
            match out.1 {
                Some(b) => buf.contents().len() > 0 && b == buf.contents()[0] && out.0.contents()
                    == buf.contents().subrange(1, buf.contents().len() as int),
                None => buf.contents().len() == 0 && out.0.contents() == buf.contents(),
            },
        {
            let b = buf.pop();
            (buf, b)
        };
    rx.lock_irqsafe(cpu, f)
}

/// Pushes one received byte into the buffer from interrupt context, taking
/// the interrupt-safe lock; a full buffer drops the byte and reports it.
pub fn handle_uart_rx(rx: &mut Mutex<UartBuffer>, cpu: &mut CpuState, ch: u8) -> (accepted: bool)
    requires
        old(rx).wf(),
        !old(rx).locked(),
        old(rx).value().wf(),
    ensures
        final(rx).wf(),
        !final(rx).locked(),
        final(rx).value().wf(),
        final(cpu).daif == old(cpu).daif,
        accepted == (old(rx).value().contents().len() < UART_BUFFER_SIZE - 1),
        accepted ==> final(rx).value().contents() == old(rx).value().contents().push(ch),
        !accepted ==> final(rx).value().contents() == old(rx).value().contents(),
{
    let f = |mut buf: UartBuffer, observed_daif: u64| -> (out: (UartBuffer, bool))
        requires
            buf.wf(),
        ensures
            out.0.wf(),
            out.1 == (buf.contents().len() < UART_BUFFER_SIZE - 1),
            out.1 ==> out.0.contents() == buf.contents().push(ch),
            !out.1 ==> out.0.contents() == buf.contents(),
        {
            let ok = buf.push(ch);
            (buf, ok)
        };
    rx.lock_irqsafe(cpu, f)
}

/// Data register offset.
pub const DR_OFF: usize = 0x00;

/// Flag register offset.
pub const FR_OFF: usize = 0x18;

/// Flag register: transmitter busy.
pub const FR_BUSY: u32 = 1u32 << 3;

/// Flag register: transmit FIFO empty.
pub const FR_TXFE: u32 = 1u32 << 5;

/// Integer baud-rate divisor register offset.
pub const IBRD_OFF: usize = 0x24;

/// Fractional baud-rate divisor register offset.
pub const FBRD_OFF: usize = 0x28;

/// Line control register offset.
pub const LCR_OFF: usize = 0x2c;

/// Line control: FIFO enable.
pub const LCR_FEN: u32 = 1u32 << 4;

/// Line control: two stop bits.
pub const LCR_STP2: u32 = 1u32 << 3;

/// Control register offset.
pub const CR_OFF: usize = 0x30;

/// Control: UART enable.
pub const CR_UARTEN: u32 = 1u32 << 0;

/// Control: receive enable.
pub const CR_RXEN: u32 = 1u32 << 9;

/// Interrupt mask register offset.
pub const IMSC_OFF: usize = 0x38;

/// Interrupt mask: receive interrupt.
pub const IMSC_RXIM: u32 = 1u32 << 4;

/// Interrupt clear register offset.
pub const ICR_OFF: usize = 0x44;

/// Interrupt clear: receive interrupt.
pub const ICR_RXIC: u32 = 1u32 << 4;

/// DMA control register offset.
pub const DMACR_OFF: usize = 0x48;

/// The PL011 device: its configuration, its control register file, and the
/// log of every byte written to the data register, in order. The shell that
/// owns the hardware forwards each logged byte, polling the flag register
/// for transmit readiness before each store.
pub struct UartPl011 {
    /// Base address of the memory-mapped register frame.
    pub base_addr: u64,
    /// Base clock frequency of the peripheral.
    pub base_clock: u32,
    /// Configured baud rate.
    pub baudrate: u32,
    /// Number of data bits per frame.
    pub data_bits: u8,
    /// Number of stop bits per frame.
    pub stop_bits: u8,
    /// Control register.
    pub cr: u32,
    /// Line control register.
    pub lcr: u32,
    /// Interrupt mask register.
    pub imsc: u32,
    /// DMA control register.
    pub dmacr: u32,
    /// Integer baud divisor register.
    pub ibrd: u32,
    /// Fractional baud divisor register.
    pub fbrd: u32,
    /// Every byte written to the data register, oldest first.
    pub tx: Vec<u8>,
}

/// Creates the UART device state: eight data bits, one stop bit, all
/// registers at reset, nothing transmitted yet.
pub fn init_uart(base_addr: u64, base_clock: u32, baudrate: u32) -> (u: UartPl011)
    ensures
        u.base_addr == base_addr,
        u.base_clock == base_clock,
        u.baudrate == baudrate,
        u.data_bits == 8,
        u.stop_bits == 1,
        u.cr == 0,
        u.lcr == 0,
        u.imsc == 0,
        u.dmacr == 0,
        u.ibrd == 0,
        u.fbrd == 0,
        u.tx@ == Seq::<u8>::empty(),
{
    let u = UartPl011 {
        base_addr,
        base_clock,
        baudrate,
        data_bits: 8,
        stop_bits: 1,
        cr: 0,
        lcr: 0,
        imsc: 0,
        dmacr: 0,
        ibrd: 0,
        fbrd: 0,
        tx: Vec::new(),
    };
    proof {
        assert(u.tx@ =~= Seq::<u8>::empty());
    }
    u
}

/// Decides whether a polled flag-register value shows the transmitter ready
/// to accept a byte.
pub fn uart_ready(fr: u32) -> (r: bool)
    ensures
        r == ((fr & FR_TXFE) == 0),
{
    (fr & FR_TXFE) == 0
}

/// Decides whether a polled flag-register value shows the transmitter still
/// draining, as configuration must wait for.
pub fn uart_busy(fr: u32) -> (r: bool)
    ensures
        r == ((fr & FR_BUSY) != 0),
{
    (fr & FR_BUSY) != 0
}

/// The combined baud divisor: four times the base clock over the baud rate.
pub open spec fn spec_baud_div(base_clock: u32, baudrate: u32) -> u32 {
    ((4 * base_clock) / (baudrate as int)) as u32
}

/// Computes and sets the two baud-rate divisor registers from the base
/// clock and the configured baud rate.
pub fn uart_set_speed(uart: &mut UartPl011)
    requires
        old(uart).baudrate > 0,
        4 * old(uart).base_clock <= u32::MAX,
    ensures
        final(uart).ibrd == (spec_baud_div(old(uart).base_clock, old(uart).baudrate) >> 6)
            & 0xffff,
        final(uart).fbrd == spec_baud_div(old(uart).base_clock, old(uart).baudrate) & 0x3f,
        final(uart).base_addr == old(uart).base_addr,
        final(uart).base_clock == old(uart).base_clock,
        final(uart).baudrate == old(uart).baudrate,
        final(uart).data_bits == old(uart).data_bits,
        final(uart).stop_bits == old(uart).stop_bits,
        final(uart).cr == old(uart).cr,
        final(uart).lcr == old(uart).lcr,
        final(uart).imsc == old(uart).imsc,
        final(uart).dmacr == old(uart).dmacr,
        final(uart).tx@ == old(uart).tx@,
{
    let baud_div = 4 * uart.base_clock / uart.baudrate;
    uart.ibrd = (baud_div >> 6) & 0xffff;
    uart.fbrd = baud_div & 0x3f;
}

/// The line-control value that the configuration sequence writes: the word
/// length in bits five and six, the two-stop-bits flag when asked for, and
/// the FIFO enable.
pub open spec fn spec_lcr_value(data_bits: u8, stop_bits: u8) -> u32 {
    ((((data_bits - 1) as u32) & 0x3) << 5) | (if stop_bits == 2 {
        LCR_STP2
    } else {
        0
    }) | LCR_FEN
}

/// Configures the device registers for operation, in the hardware's
/// required order: disable, flush the FIFOs, set the baud divisors, program
/// the frame format, unmask the receive interrupt, disable DMA, then enable
/// receive and the UART itself. The shell must wait for the transmitter to
/// drain, polling [`uart_busy`], between the disable and the flush; that
/// wait blocks without a timeout.
pub fn configure_uart(uart: &mut UartPl011)
    requires
        old(uart).baudrate > 0,
        4 * old(uart).base_clock <= u32::MAX,
        old(uart).data_bits >= 1,
    ensures
        final(uart).cr == CR_UARTEN | CR_RXEN,
        final(uart).lcr == spec_lcr_value(old(uart).data_bits, old(uart).stop_bits),
        final(uart).imsc == old(uart).imsc | IMSC_RXIM,
        final(uart).dmacr == 0x01,
        final(uart).ibrd == (spec_baud_div(old(uart).base_clock, old(uart).baudrate) >> 6)
            & 0xffff,
        final(uart).fbrd == spec_baud_div(old(uart).base_clock, old(uart).baudrate) & 0x3f,
        final(uart).base_addr == old(uart).base_addr,
        final(uart).base_clock == old(uart).base_clock,
        final(uart).baudrate == old(uart).baudrate,
        final(uart).data_bits == old(uart).data_bits,
        final(uart).stop_bits == old(uart).stop_bits,
        final(uart).tx@ == old(uart).tx@,
{
    uart.cr = 0;
    uart.lcr = uart.lcr & !LCR_FEN;
    uart_set_speed(uart);
    let mut lcr_val: u32 = (((uart.data_bits - 1) as u32) & 0x3) << 5;
    if uart.stop_bits == 2 {
        lcr_val = lcr_val | LCR_STP2;
    } else {
        proof {
            assert(forall|a: u32| #![auto] a | 0 == a) by (bit_vector);
        }
    }
    lcr_val = lcr_val | LCR_FEN;
    uart.lcr = lcr_val;
    uart.imsc = uart.imsc | IMSC_RXIM;
    uart.dmacr = 0x01;
    uart.cr = uart.cr | (CR_UARTEN | CR_RXEN);
    proof {
        assert(0u32 | ((1u32 << 0) | (1u32 << 9)) == (1u32 << 0) | (1u32 << 9)) by (bit_vector);
    }
}

/// Writes one byte to the data register: it joins the transmit log. The
/// shell blocks beforehand until [`uart_ready`] holds of the polled flag
/// register.
pub fn putchar(uart: &mut UartPl011, c: u8)
    ensures
        final(uart).tx@ == old(uart).tx@.push(c),
        final(uart).base_addr == old(uart).base_addr,
        final(uart).base_clock == old(uart).base_clock,
        final(uart).baudrate == old(uart).baudrate,
        final(uart).data_bits == old(uart).data_bits,
        final(uart).stop_bits == old(uart).stop_bits,
        final(uart).cr == old(uart).cr,
        final(uart).lcr == old(uart).lcr,
        final(uart).imsc == old(uart).imsc,
        final(uart).dmacr == old(uart).dmacr,
        final(uart).ibrd == old(uart).ibrd,
        final(uart).fbrd == old(uart).fbrd,
{
    uart.tx.push(c);
}

/// Writes a byte slice to the UART, byte by byte.
pub fn print(uart: &mut UartPl011, s: &[u8])
    ensures
        final(uart).tx@ == old(uart).tx@ + s@,
        final(uart).cr == old(uart).cr,
        final(uart).lcr == old(uart).lcr,
        final(uart).imsc == old(uart).imsc,
        final(uart).dmacr == old(uart).dmacr,
        final(uart).ibrd == old(uart).ibrd,
        final(uart).fbrd == old(uart).fbrd,
        final(uart).base_addr == old(uart).base_addr,
        final(uart).base_clock == old(uart).base_clock,
        final(uart).baudrate == old(uart).baudrate,
        final(uart).data_bits == old(uart).data_bits,
        final(uart).stop_bits == old(uart).stop_bits,
{
    let n = s.len();
    let mut i: usize = 0;
    proof {
        assert(uart.tx@ =~= old(uart).tx@ + s@.subrange(0, 0));
    }
    while i < n
        invariant
            0 <= i <= n,
            n == s@.len(),
            uart.tx@ == old(uart).tx@ + s@.subrange(0, i as int),
            uart.cr == old(uart).cr,
            uart.lcr == old(uart).lcr,
            uart.imsc == old(uart).imsc,
            uart.dmacr == old(uart).dmacr,
            uart.ibrd == old(uart).ibrd,
            uart.fbrd == old(uart).fbrd,
            uart.base_addr == old(uart).base_addr,
            uart.base_clock == old(uart).base_clock,
            uart.baudrate == old(uart).baudrate,
            uart.data_bits == old(uart).data_bits,
            uart.stop_bits == old(uart).stop_bits,
        decreases n - i,
    {
        putchar(uart, s[i]);
        proof {
            assert(uart.tx@ =~= old(uart).tx@ + s@.subrange(0, i + 1));
        }
        i = i + 1;
    }
    proof {
        assert(old(uart).tx@ + s@.subrange(0, n as int) =~= old(uart).tx@ + s@);
    }
}

/// Writes a byte slice and then a line feed to the UART.
pub fn println(uart: &mut UartPl011, s: &[u8])
    ensures
        final(uart).tx@ == old(uart).tx@ + s@ + seq![('\n' as u8)],
        final(uart).cr == old(uart).cr,
        final(uart).lcr == old(uart).lcr,
        final(uart).imsc == old(uart).imsc,
        final(uart).dmacr == old(uart).dmacr,
        final(uart).ibrd == old(uart).ibrd,
        final(uart).fbrd == old(uart).fbrd,
        final(uart).base_addr == old(uart).base_addr,
        final(uart).base_clock == old(uart).base_clock,
        final(uart).baudrate == old(uart).baudrate,
        final(uart).data_bits == old(uart).data_bits,
        final(uart).stop_bits == old(uart).stop_bits,
{
    print(uart, s);
    putchar(uart, '\n' as u8);
    proof {
        assert(uart.tx@ =~= old(uart).tx@ + s@ + seq![('\n' as u8)]);
    }
}

/// The base address the UART's own node yields: the first address block of
/// its first sealed `reg` property, or nothing when the property is absent
/// or malformed — such a device is silently left unconfigured.
pub open spec fn spec_uart_reg_base(
    devs: Seq<crate::device::SpecDevice>,
    d: crate::device::SpecDevice,
) -> Option<u64> {
    match crate::device::prop_index(d.props, d.prop_count, crate::device::reg_bytes(), 0) {
        None => None,
        Some(k) => {
            let cells = crate::gic::spec_parent_cells(devs, d);
            let ac = cells.0;
            if !(ac == 1 || ac == 2) {
                None
            } else if d.props[k].value.len() < ac * 4 {
                None
            } else {
                Some(crate::gic::reg_cell_at(d.props[k].value, 0, ac))
            }
        },
    }
}

/// Reads the device's register-frame base address from its `reg` property,
/// sized by the parent's address cells.
pub fn uart_reg_base(table: &crate::dtb::DeviceTable, dev: &crate::device::PlatformDevice) -> (r:
    Option<u64>)
    requires
        table.wf(),
        dev.wf(),
        dev@.parent matches Some(p) ==> 0 <= p < table@.devices.len(),
    ensures
        r == spec_uart_reg_base(table@.devices, dev@),
{
    let reg_key = crate::device::reg_name();
    match dev.find_property(reg_key.as_slice()) {
        None => None,
        Some(reg_prop) => {
            let (ac, sc) = dev.get_parent_cells(table);
            if !(ac == 1 || ac == 2) {
                return None;
            }
            let value = reg_prop.value.as_slice();
            if (value.len() as u64) < (ac as u64) * 4 {
                return None;
            }
            if ac == 1 {
                Some(crate::bytes::read_be_u32(value, 0) as u64)
            } else {
                Some(crate::bytes::read_be_u64(value, 0))
            }
        },
    }
}

} // verus!

