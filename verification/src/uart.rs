//! The PL011 UART, polled: bring-up, blocking byte output and input, and a
//! string sink for formatted output.

use crate::gpio::{
    bank_field, pull_trace, retarget, select_replies, select_trace, set_function, set_pull_mode,
    Function, PullMode, GPFSEL1,
};
use crate::mmio::{after_reads, is_register, next_reply, reply_at, rest, Event, Mmio};
use vstd::prelude::*;
use vstd::string::StringSliceAdditionalSpecFns;

verus! {

/// Offset of the PL011 in the register window.
pub const PL011_BASE: u64 = 0x0020_1000;

/// Data register: the low 8 bits hold the byte to send or the byte received.
pub const PL011_DR: u64 = PL011_BASE + 0x00;

/// Flag register.
pub const PL011_FR: u64 = PL011_BASE + 0x18;

/// Integer baud rate divisor.
pub const PL011_IBRD: u64 = PL011_BASE + 0x24;

/// Fractional baud rate divisor.
pub const PL011_FBRD: u64 = PL011_BASE + 0x28;

/// Line control register.
pub const PL011_LCRH: u64 = PL011_BASE + 0x2C;

/// Control register.
pub const PL011_CR: u64 = PL011_BASE + 0x30;

/// Interrupt mask set/clear register.
pub const PL011_IMSC: u64 = PL011_BASE + 0x38;

/// Interrupt clear register.
pub const PL011_ICR: u64 = PL011_BASE + 0x44;

/// Flag register: the receive FIFO is empty.
pub const PL011_FR_RXFE: u32 = 0x10;

/// Flag register: the transmit FIFO is full.
pub const PL011_FR_TXFF: u32 = 0x20;

/// Line control: FIFOs enabled.
pub const PL011_LCRH_FEN: u32 = 0x10;

/// Line control: 8-bit words.
pub const PL011_LCRH_WLEN_8: u32 = 0x60;

/// Control: the UART is enabled.
pub const PL011_CR_UARTEN: u32 = 0x001;

/// Control: the transmitter is enabled.
pub const PL011_CR_TXE: u32 = 0x100;

/// Control: the receiver is enabled.
pub const PL011_CR_RXE: u32 = 0x200;

/// Interrupt clear: every interrupt the PL011 has (bits 1 and 4 to 10).
pub const PL011_ICR_ALL: u32 = 0x7F2;

/// Interrupt mask: every interrupt the PL011 has (bits 1 and 4 to 10).
pub const PL011_IMSC_ALL: u32 = 0x7F2;

/// The pins that carry TXD0 and RXD0: pins 14 and 15.
pub const UART_PINS: u64 = 0xC000;

/// The events of polling the register at `addr` until `flag` reads clear: one
/// load for each leading reply in which the flag is set, and one more.
pub open spec fn poll_trace(replies: Seq<u32>, addr: u64, flag: u32) -> Seq<Event>
    decreases replies.len(),
{
    if replies.len() > 0 && replies[0] & flag != 0 {
        seq![Event::Read { addr, data: replies[0] }] + poll_trace(
            replies.drop_first(),
            addr,
            flag,
        )
    } else {
        seq![Event::Read { addr, data: next_reply(replies) }]
    }
}

/// What the device still has to say once `flag` has read clear.
pub open spec fn after_poll(replies: Seq<u32>, flag: u32) -> Seq<u32>
    decreases replies.len(),
{
    if replies.len() > 0 && replies[0] & flag != 0 {
        after_poll(replies.drop_first(), flag)
    } else {
        rest(replies)
    }
}

/// The events of sending byte `c`: poll the flag register until the transmit
/// FIFO has room, then store the byte to the data register.
pub open spec fn putc_trace(replies: Seq<u32>, c: u8) -> Seq<Event> {
    poll_trace(replies, PL011_FR, PL011_FR_TXFF).push(
        Event::Write { addr: PL011_DR, data: c as u32 },
    )
}

/// What the device still has to say after a byte was sent.
pub open spec fn after_putc(replies: Seq<u32>) -> Seq<u32> {
    after_poll(replies, PL011_FR_TXFF)
}

/// The value that the data register gives once the receive FIFO holds a byte.
pub open spec fn getc_word(replies: Seq<u32>) -> u32 {
    next_reply(after_poll(replies, PL011_FR_RXFE))
}

/// The events of receiving a byte: poll the flag register until the receive
/// FIFO holds something, then load the data register.
pub open spec fn getc_trace(replies: Seq<u32>) -> Seq<Event> {
    poll_trace(replies, PL011_FR, PL011_FR_RXFE).push(
        Event::Read { addr: PL011_DR, data: getc_word(replies) },
    )
}

/// What the device still has to say after a byte was received.
pub open spec fn after_getc(replies: Seq<u32>) -> Seq<u32> {
    rest(after_poll(replies, PL011_FR_RXFE))
}

/// The events of sending `bytes`: those of sending each byte, in order.
pub open spec fn puts_trace(replies: Seq<u32>, bytes: Seq<u8>) -> Seq<Event>
    decreases bytes.len(),
{
    if bytes.len() == 0 {
        Seq::empty()
    } else {
        putc_trace(replies, bytes[0]) + puts_trace(after_putc(replies), bytes.drop_first())
    }
}

/// What the device still has to say after `bytes` were sent.
pub open spec fn after_puts(replies: Seq<u32>, bytes: Seq<u8>) -> Seq<u32>
    decreases bytes.len(),
{
    if bytes.len() == 0 {
        replies
    } else {
        after_puts(after_putc(replies), bytes.drop_first())
    }
}

/// The five stores that configure the PL011 itself: off, pending interrupts
/// cleared, FIFOs and 8-bit words, all interrupts masked, on with receiver
/// and transmitter.
pub open spec fn configure_trace() -> Seq<Event> {
    seq![
        Event::Write { addr: PL011_CR, data: 0 },
        Event::Write { addr: PL011_ICR, data: PL011_ICR_ALL },
        Event::Write { addr: PL011_LCRH, data: 0x70 },
        Event::Write { addr: PL011_IMSC, data: PL011_IMSC_ALL },
        Event::Write { addr: PL011_CR, data: 0x301 },
    ]
}

/// The events of bringing the UART up: pins 14 and 15 to alternate function
/// 0, their pulls off, then the PL011 configured.
pub open spec fn init_trace(replies: Seq<u32>) -> Seq<Event> {
    select_trace(UART_PINS, Function::Func0.bits(), replies, 0) + pull_trace(
        UART_PINS,
        PullMode::Disabled,
    ) + configure_trace()
}

/// Loads the register at `addr` until `flag` reads clear. The wait ends
/// because a device with nothing more to say reads as 0, in which no flag is
/// set.
fn wait_while_set<M: Mmio>(mmio: &mut M, addr: u64, flag: u32)
    requires
        is_register(addr),
    ensures
        final(mmio).trace() == old(mmio).trace() + poll_trace(old(mmio).replies(), addr, flag),
        final(mmio).replies() == after_poll(old(mmio).replies(), flag),
{
    let ghost trace0 = mmio.trace();
    let ghost replies0 = mmio.replies();
    loop
        invariant_except_break
            trace0 + poll_trace(replies0, addr, flag) == mmio.trace() + poll_trace(
                mmio.replies(),
                addr,
                flag,
            ),
            after_poll(replies0, flag) == after_poll(mmio.replies(), flag),
        invariant
            is_register(addr),
        ensures
            mmio.trace() == trace0 + poll_trace(replies0, addr, flag),
            mmio.replies() == after_poll(replies0, flag),
        decreases mmio.replies().len(),
    {
        let ghost before = mmio.trace();
        let ghost pending = mmio.replies();
        let status: u32 = mmio.read(addr);
        assert(0u32 & flag == 0) by (bit_vector);
        if status & flag == 0 {
            assert(mmio.trace() =~= before + poll_trace(pending, addr, flag));
            break ;
        }
        assert(mmio.trace() + poll_trace(mmio.replies(), addr, flag) =~= before + poll_trace(
            pending,
            addr,
            flag,
        ));
    }
}

/// Brings the UART up. It may be called again at any time.
pub fn pl011_init<M: Mmio>(mmio: &mut M)
    ensures
        final(mmio).trace() == old(mmio).trace() + init_trace(old(mmio).replies()),
        final(mmio).replies() == select_replies(UART_PINS, old(mmio).replies(), 0),
{
    // Func0 is TXD0/RXD0.
    set_function(mmio, UART_PINS, Function::Func0);
    set_pull_mode(mmio, UART_PINS, PullMode::Disabled);
    // Everything off first.
    mmio.write(PL011_CR, 0x00);
    mmio.write(PL011_ICR, PL011_ICR_ALL);
    // FIFOs on, 8 bit words, 1 stop bit, no parity.
    let line: u32 = PL011_LCRH_FEN | PL011_LCRH_WLEN_8;
    assert(0x10u32 | 0x60u32 == 0x70u32) by (bit_vector);
    mmio.write(PL011_LCRH, line);
    mmio.write(PL011_IMSC, PL011_IMSC_ALL);
    let control: u32 = PL011_CR_UARTEN | PL011_CR_RXE | PL011_CR_TXE;
    assert(0x001u32 | 0x200u32 | 0x100u32 == 0x301u32) by (bit_vector);
    mmio.write(PL011_CR, control);
    assert(mmio.trace() =~= old(mmio).trace() + init_trace(old(mmio).replies()));
}

/// Sends byte `c`, waiting for as long as the transmit FIFO is full.
pub fn pl011_putc<M: Mmio>(mmio: &mut M, c: u8)
    ensures
        final(mmio).trace() == old(mmio).trace() + putc_trace(old(mmio).replies(), c),
        final(mmio).replies() == after_putc(old(mmio).replies()),
{
    wait_while_set(mmio, PL011_FR, PL011_FR_TXFF);
    mmio.write(PL011_DR, c as u32);
    assert(mmio.trace() =~= old(mmio).trace() + putc_trace(old(mmio).replies(), c));
}

/// Sends the bytes of `s` as they are, one after the other.
pub fn pl011_puts<M: Mmio>(mmio: &mut M, s: &str)
    ensures
        final(mmio).trace() == old(mmio).trace() + puts_trace(
            old(mmio).replies(),
            s.spec_bytes(),
        ),
        final(mmio).replies() == after_puts(old(mmio).replies(), s.spec_bytes()),
{
    let bytes = s.as_bytes();
    let ghost trace0 = mmio.trace();
    let ghost replies0 = mmio.replies();
    let mut i: usize = 0;
    assert(bytes@.skip(0) =~= bytes@);
    while i < bytes.len()
        invariant
            i <= bytes@.len(),
            trace0 + puts_trace(replies0, bytes@) == mmio.trace() + puts_trace(
                mmio.replies(),
                bytes@.skip(i as int),
            ),
            after_puts(replies0, bytes@) == after_puts(mmio.replies(), bytes@.skip(i as int)),
        decreases bytes@.len() - i,
    {
        let ghost before = mmio.trace();
        let ghost pending = mmio.replies();
        pl011_putc(mmio, bytes[i]);
        assert(bytes@.skip(i as int).drop_first() =~= bytes@.skip(i + 1));
        assert(mmio.trace() + puts_trace(mmio.replies(), bytes@.skip(i + 1)) =~= before
            + puts_trace(pending, bytes@.skip(i as int)));
        i += 1;
    }
    assert(mmio.trace() + puts_trace(mmio.replies(), bytes@.skip(i as int)) =~= mmio.trace());
}

/// Receives a byte, waiting for as long as the receive FIFO is empty. The
/// byte is the low 8 bits of the data register.
pub fn pl011_getc<M: Mmio>(mmio: &mut M) -> (c: u8)
    ensures
        c == getc_word(old(mmio).replies()) & 0xFF,
        final(mmio).trace() == old(mmio).trace() + getc_trace(old(mmio).replies()),
        final(mmio).replies() == after_getc(old(mmio).replies()),
{
    wait_while_set(mmio, PL011_FR, PL011_FR_RXFE);
    let word: u32 = mmio.read(PL011_DR);
    assert(mmio.trace() =~= old(mmio).trace() + getc_trace(old(mmio).replies()));
    let low: u32 = word & 0xFF;
    assert(low <= 0xFF) by (bit_vector)
        requires
            low == word & 0xFF,
    ;
    low as u8
}

/// The UART as a sink for strings. It holds nothing; it is of use once
/// `pl011_init` has run.
pub struct UartPl011;

impl UartPl011 {
    /// Sends the bytes of `s`. This cannot fail.
    pub fn write_str<M: Mmio>(&mut self, mmio: &mut M, s: &str)
        ensures
            final(mmio).trace() == old(mmio).trace() + puts_trace(
                old(mmio).replies(),
                s.spec_bytes(),
            ),
            final(mmio).replies() == after_puts(old(mmio).replies(), s.spec_bytes()),
    {
        pl011_puts(mmio, s);
    }
}

/// Polling takes one load more than the flag reads set. If the flag is set in
/// the first `k` replies and clear in the next, the poll is `k + 1` loads of
/// the register, each giving the next reply, and nothing else.
pub proof fn poll_takes_one_more_load(replies: Seq<u32>, addr: u64, flag: u32, k: nat)
    requires
        forall|i: nat| i < k ==> #[trigger] reply_at(replies, i) & flag != 0,
        reply_at(replies, k) & flag == 0,
    ensures
        poll_trace(replies, addr, flag) == Seq::new(
            k + 1,
            |i: int| Event::Read { addr, data: reply_at(replies, i as nat) },
        ),
        after_poll(replies, flag) == after_reads(replies, k + 1),
    decreases k,
{
    let loads = Seq::new(k + 1, |i: int| Event::Read { addr, data: reply_at(replies, i as nat) });
    assert(0u32 & flag == 0) by (bit_vector);
    if k == 0 {
        assert(poll_trace(replies, addr, flag) =~= loads);
        assert(after_poll(replies, flag) =~= after_reads(replies, 1));
    } else {
        assert(reply_at(replies, 0) & flag != 0);
        let tail = replies.drop_first();
        assert forall|i: nat| i < k - 1 implies #[trigger] reply_at(tail, i) & flag != 0 by {
            assert(reply_at(tail, i) == reply_at(replies, i + 1));
        }
        assert(reply_at(tail, (k - 1) as nat) == reply_at(replies, k));
        poll_takes_one_more_load(tail, addr, flag, (k - 1) as nat);
        assert forall|i: int| 0 <= i < k + 1 implies poll_trace(replies, addr, flag)[i]
            == loads[i] by {
            if i > 0 {
                assert(reply_at(tail, (i - 1) as nat) == reply_at(replies, i as nat));
            }
        }
        assert(poll_trace(replies, addr, flag) =~= loads);
        assert(after_poll(replies, flag) =~= after_reads(replies, k + 1));
    }
}

/// Sending a byte blocks while the transmit FIFO is full. If the flag
/// register reads full `k` times and then not, sending `c` is `k + 1` loads
/// of the flag register followed by one store of `c` to the data register.
pub proof fn putc_waits_for_room(replies: Seq<u32>, c: u8, k: nat)
    requires
        forall|i: nat| i < k ==> #[trigger] reply_at(replies, i) & PL011_FR_TXFF != 0,
        reply_at(replies, k) & PL011_FR_TXFF == 0,
    ensures
        putc_trace(replies, c) == Seq::new(
            k + 1,
            |i: int| Event::Read { addr: PL011_FR, data: reply_at(replies, i as nat) },
        ).push(Event::Write { addr: PL011_DR, data: c as u32 }),
        putc_trace(replies, c).len() == k + 2,
        after_putc(replies) == after_reads(replies, k + 1),
{
    poll_takes_one_more_load(replies, PL011_FR, PL011_FR_TXFF, k);
}

/// Receiving a byte blocks while the receive FIFO is empty. If the flag
/// register reads empty `k` times and then not, receiving is `k + 1` loads of
/// the flag register followed by one load of the data register, and the byte
/// is the low 8 bits of what that load gave.
pub proof fn getc_waits_for_data(replies: Seq<u32>, k: nat)
    requires
        forall|i: nat| i < k ==> #[trigger] reply_at(replies, i) & PL011_FR_RXFE != 0,
        reply_at(replies, k) & PL011_FR_RXFE == 0,
    ensures
        getc_word(replies) == reply_at(replies, k + 1),
        getc_trace(replies) == Seq::new(
            k + 1,
            |i: int| Event::Read { addr: PL011_FR, data: reply_at(replies, i as nat) },
        ).push(Event::Read { addr: PL011_DR, data: reply_at(replies, k + 1) }),
        after_getc(replies) == after_reads(replies, k + 2),
{
    poll_takes_one_more_load(replies, PL011_FR, PL011_FR_RXFE, k);
    assert(after_getc(replies) =~= after_reads(replies, k + 2));
}

/// Sending a string is sending its bytes one after the other: the events of
/// `first` followed by `second` are those of `first`, then those of `second`
/// against what the device still had to say by then. Sending one byte as a
/// string is sending that byte.
pub proof fn puts_is_putc_in_turn(replies: Seq<u32>, first: Seq<u8>, second: Seq<u8>, c: u8)
    ensures
        puts_trace(replies, first + second) == puts_trace(replies, first) + puts_trace(
            after_puts(replies, first),
            second,
        ),
        after_puts(replies, first + second) == after_puts(after_puts(replies, first), second),
        puts_trace(replies, seq![c]) == putc_trace(replies, c),
        after_puts(replies, seq![c]) == after_putc(replies),
    decreases first.len(),
{
    if first.len() == 0 {
        assert(first + second =~= second);
        assert(puts_trace(replies, first) + puts_trace(replies, second) =~= puts_trace(
            replies,
            second,
        ));
    } else {
        assert((first + second).drop_first() =~= first.drop_first() + second);
        puts_is_putc_in_turn(after_putc(replies), first.drop_first(), second, c);
        assert(puts_trace(replies, first + second) =~= puts_trace(replies, first) + puts_trace(
            after_puts(replies, first),
            second,
        ));
    }
    let one = seq![c];
    assert(one.drop_first() =~= Seq::<u8>::empty());
    assert(puts_trace(replies, one) =~= putc_trace(replies, c)) by {
        reveal_with_fuel(puts_trace, 2);
    }
    assert(after_puts(replies, one) == after_putc(replies)) by {
        reveal_with_fuel(after_puts, 2);
    }
}

proof fn uart_pins_lie_in_bank_one(val: u32)
    by (bit_vector)
    ensures
        bank_field(UART_PINS, 0) == 0,
        bank_field(UART_PINS, 1) == 0x30,
        bank_field(UART_PINS, 2) == 0,
        bank_field(UART_PINS, 3) == 0,
        bank_field(UART_PINS, 4) == 0,
        bank_field(UART_PINS, 5) == 0,
        retarget(val, 0x30, 0b100, 10) == (val & !0x3F000u32) | 0x24000u32,
{
}

/// The order of bring-up. The events are, in this order: one load of the
/// function select register of pins 10 to 19; one store to it of the loaded
/// value with the slots of pins 14 and 15 set to alternate function 0 and
/// every other bit kept; the pull sequence that turns the pulls of both pins
/// off; then control 0, interrupts cleared, line control, interrupts masked,
/// and control with UART, receiver and transmitter enabled.
pub proof fn init_order(replies: Seq<u32>)
    ensures
        init_trace(replies) == seq![
            Event::Read { addr: GPFSEL1, data: next_reply(replies) },
            Event::Write {
                addr: GPFSEL1,
                data: (next_reply(replies) & !0x3F000u32) | 0x24000u32,
            },
        ] + pull_trace(UART_PINS, PullMode::Disabled) + configure_trace(),
        select_replies(UART_PINS, replies, 0) == rest(replies),
{
    uart_pins_lie_in_bank_one(next_reply(replies));
    reveal_with_fuel(select_trace, 7);
    reveal_with_fuel(select_replies, 7);
    let head = seq![
        Event::Read { addr: GPFSEL1, data: next_reply(replies) },
        Event::Write { addr: GPFSEL1, data: (next_reply(replies) & !0x3F000u32) | 0x24000u32 },
    ];
    assert(select_trace(UART_PINS, Function::Func0.bits(), replies, 0) =~= head);
}

} // verus!
