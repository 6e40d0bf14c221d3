//! The GPIO controller: pin function select, output set and clear, pulls.
//!
//! A set of pins is a 64-bit mask in which bit *i* stands for pin *i*. The
//! controller has 54 pins; bits above pin 53 are dropped before use.

use crate::mmio::{accesses_add_up, loads_of, next_reply, rest, stores_of, Event, Mmio};
use vstd::prelude::*;

verus! {

/// Number of GPIO pins.
pub const NUM_GPIOS: u8 = 54;

/// The mask bits that stand for a pin: bits 0 to 53.
pub const PIN_MASK: u64 = 0x003F_FFFF_FFFF_FFFF;

/// Number of function select registers; each holds ten pins.
pub const NUM_BANKS: u64 = 6;

/// Offset of the GPIO controller in the register window.
pub const GPIO_BASE: u64 = 0x0020_0000;

/// Function select register of pins 0 to 9; the other banks follow, one word each.
pub const GPFSEL0: u64 = GPIO_BASE + 0x00;

/// Function select register of pins 10 to 19.
pub const GPFSEL1: u64 = GPIO_BASE + 0x04;

/// Output set register of pins 0 to 31.
pub const GPSET0: u64 = GPIO_BASE + 0x1C;

/// Output set register of pins 32 to 53.
pub const GPSET1: u64 = GPIO_BASE + 0x20;

/// Output clear register of pins 0 to 31.
pub const GPCLR0: u64 = GPIO_BASE + 0x28;

/// Output clear register of pins 32 to 53.
pub const GPCLR1: u64 = GPIO_BASE + 0x2C;

/// Pull control register.
pub const GPPUD: u64 = GPIO_BASE + 0x94;

/// Pull clock register of pins 0 to 31.
pub const GPPUDCLK0: u64 = GPIO_BASE + 0x98;

/// Pull clock register of pins 32 to 53.
pub const GPPUDCLK1: u64 = GPIO_BASE + 0x9C;

/// Cycles the pull control signal needs to settle.
pub const PULL_SETTLE_CYCLES: u32 = 150;

/// What a pin is connected to.
#[derive(Clone, Copy, Debug, PartialEq, Eq)]
pub enum Function {
    Input,
    Output,
    Func0,
    Func1,
    Func2,
    Func3,
    Func4,
    Func5,
}

/// The pull resistor of a pin.
#[derive(Clone, Copy, Debug, PartialEq, Eq)]
pub enum PullMode {
    Disabled,
    PullUp,
    PullDown,
}

impl Function {
    /// The three bits that select this function in a function select
    /// register. The alternate functions are not in numeric order.
    pub open spec fn bits(self) -> u32 {
        match self {
            Function::Input => 0b000,
            Function::Output => 0b001,
            Function::Func0 => 0b100,
            Function::Func1 => 0b101,
            Function::Func2 => 0b110,
            Function::Func3 => 0b111,
            Function::Func4 => 0b011,
            Function::Func5 => 0b010,
        }
    }

    /// The three bits that select this function.
    pub fn code(self) -> (c: u8)
        ensures
            c == self.bits(),
            c < 8,
    {
        match self {
            Function::Input => 0b000,
            Function::Output => 0b001,
            Function::Func0 => 0b100,
            Function::Func1 => 0b101,
            Function::Func2 => 0b110,
            Function::Func3 => 0b111,
            Function::Func4 => 0b011,
            Function::Func5 => 0b010,
        }
    }
}

/// No two functions share a code, and every code fits in the three bits of a
/// slot.
pub proof fn function_codes_are_distinct(f: Function, g: Function)
    ensures
        f.bits() < 8,
        f.bits() == g.bits() <==> f == g,
{
}

impl PullMode {
    /// The value of the pull control register that selects this mode.
    pub open spec fn bits(self) -> u32 {
        match self {
            PullMode::Disabled => 0b00,
            PullMode::PullDown => 0b01,
            PullMode::PullUp => 0b10,
        }
    }

    /// The value of the pull control register that selects this mode.
    pub fn code(self) -> (c: u32)
        ensures
            c == self.bits(),
    {
        match self {
            PullMode::Disabled => 0b00,
            PullMode::PullDown => 0b01,
            PullMode::PullUp => 0b10,
        }
    }
}

/// Whether `gpios` selects pin `pin`. No mask selects a pin above 53.
pub open spec fn pin_selected(gpios: u64, pin: u64) -> bool {
    pin < 54 && (gpios >> pin) & 1 == 1
}

/// The ten mask bits of the pins that bank `bank` holds, pin `10 * bank` lowest.
pub open spec fn bank_field(gpios: u64, bank: u64) -> u32 {
    (((gpios & PIN_MASK) >> (10 * bank)) & 0x3FF) as u32
}

/// Offset of the function select register of bank `bank`.
pub open spec fn gpfsel(bank: nat) -> u64 {
    (GPFSEL0 + 4 * bank) as u64
}

/// The three bits of `val` that start at bit `shift`.
pub open spec fn slot_at(val: u32, shift: u32) -> u32 {
    (val >> shift) & 7
}

/// `val` with the three bits that start at bit `shift` replaced by `code`.
pub open spec fn put_slot(val: u32, shift: u32, code: u32) -> u32 {
    (val & !(7u32 << shift)) | (code << shift)
}

/// `val` after each of the first `n` slots that `field` selects was set to `code`.
pub open spec fn retarget(val: u32, field: u32, code: u32, n: nat) -> u32
    decreases n,
{
    if n == 0 {
        val
    } else {
        let prev = retarget(val, field, code, (n - 1) as nat);
        if (field >> ((n - 1) as u32)) & 1 == 1 {
            put_slot(prev, (3 * (n - 1)) as u32, code)
        } else {
            prev
        }
    }
}

/// The events of a function select on banks `bank` and up: for each bank that
/// holds a selected pin, in ascending order, one load of its register and one
/// store of the loaded value with the selected slots replaced. A bank without
/// a selected pin is not touched.
pub open spec fn select_trace(gpios: u64, code: u32, replies: Seq<u32>, bank: nat) -> Seq<Event>
    decreases 6 - bank,
{
    if bank >= 6 {
        Seq::empty()
    } else if bank_field(gpios, bank as u64) == 0 {
        select_trace(gpios, code, replies, bank + 1)
    } else {
        let val = next_reply(replies);
        seq![
            Event::Read { addr: gpfsel(bank), data: val },
            Event::Write {
                addr: gpfsel(bank),
                data: retarget(val, bank_field(gpios, bank as u64), code, 10),
            },
        ] + select_trace(gpios, code, rest(replies), bank + 1)
    }
}

/// What the device still has to say after a function select on banks `bank`
/// and up: one reply is taken for each bank that holds a selected pin.
pub open spec fn select_replies(gpios: u64, replies: Seq<u32>, bank: nat) -> Seq<u32>
    decreases 6 - bank,
{
    if bank >= 6 {
        replies
    } else if bank_field(gpios, bank as u64) == 0 {
        select_replies(gpios, replies, bank + 1)
    } else {
        select_replies(gpios, rest(replies), bank + 1)
    }
}

/// The new value of one function select register: `val` with every slot that
/// `field` selects set to `code`.
fn retarget_bank(val: u32, field: u32, code: u32) -> (out: u32)
    requires
        code < 8,
    ensures
        out == retarget(val, field, code, 10),
{
    let mut out: u32 = val;
    let mut slot: u32 = 0;
    while slot < 10
        invariant
            slot <= 10,
            code < 8,
            out == retarget(val, field, code, slot as nat),
        decreases 10 - slot,
    {
        if (field >> slot) & 1 == 1 {
            let shift: u32 = 3 * slot;
            out = (out & !(7u32 << shift)) | (code << shift);
        }
        slot += 1;
    }
    out
}

/// Connects every pin that `gpios` selects to `function` and leaves the other
/// pins as they are. Bits above pin 53 are ignored.
pub fn set_function<M: Mmio>(mmio: &mut M, gpios: u64, function: Function)
    ensures
        final(mmio).trace() == old(mmio).trace() + select_trace(
            gpios,
            function.bits(),
            old(mmio).replies(),
            0,
        ),
        final(mmio).replies() == select_replies(gpios, old(mmio).replies(), 0),
{
    let pins: u64 = gpios & PIN_MASK;
    let code: u32 = function.code() as u32;
    let ghost trace0 = mmio.trace();
    let ghost replies0 = mmio.replies();
    let mut bank: u64 = 0;
    while bank < NUM_BANKS
        invariant
            bank <= 6,
            pins == gpios & PIN_MASK,
            code == function.bits(),
            code < 8,
            trace0 + select_trace(gpios, code, replies0, 0) == mmio.trace() + select_trace(
                gpios,
                code,
                mmio.replies(),
                bank as nat,
            ),
            select_replies(gpios, replies0, 0) == select_replies(
                gpios,
                mmio.replies(),
                bank as nat,
            ),
        decreases 6 - bank,
    {
        let wide: u64 = (pins >> (10 * bank)) & 0x3FF;
        assert(wide <= 0x3FF) by (bit_vector)
            requires
                wide == (pins >> (10 * bank)) & 0x3FF,
        ;
        let field: u32 = wide as u32;
        if field != 0 {
            let reg: u64 = GPFSEL0 + 4 * bank;
            let ghost before = mmio.trace();
            let ghost pending = mmio.replies();
            let val: u32 = mmio.read(reg);
            let out: u32 = retarget_bank(val, field, code);
            mmio.write(reg, out);
            assert(mmio.trace() + select_trace(gpios, code, mmio.replies(), (bank + 1) as nat)
                =~= before + select_trace(gpios, code, pending, bank as nat));
        }
        bank += 1;
    }
    assert(mmio.trace() + select_trace(gpios, code, mmio.replies(), 6) =~= mmio.trace());
}

/// The low 32 bits of a pin mask: pins 0 to 31.
pub open spec fn low_word(gpios: u64) -> u32 {
    (gpios & PIN_MASK) as u32
}

/// The high bits of a pin mask: pins 32 to 53, pin 32 lowest.
pub open spec fn high_word(gpios: u64) -> u32 {
    ((gpios & PIN_MASK) >> 32) as u32
}

/// The two stores of an output set.
pub open spec fn output_set_trace(gpios: u64) -> Seq<Event> {
    seq![
        Event::Write { addr: GPSET0, data: low_word(gpios) },
        Event::Write { addr: GPSET1, data: high_word(gpios) },
    ]
}

/// The two stores of an output clear.
pub open spec fn output_clear_trace(gpios: u64) -> Seq<Event> {
    seq![
        Event::Write { addr: GPCLR0, data: low_word(gpios) },
        Event::Write { addr: GPCLR1, data: high_word(gpios) },
    ]
}

/// The events of a pull mode change: the control signal, a pause, the clock
/// for the selected pins, a pause, then signal and clock removed.
pub open spec fn pull_trace(gpios: u64, mode: PullMode) -> Seq<Event> {
    seq![
        Event::Write { addr: GPPUD, data: mode.bits() },
        Event::Delay { cycles: PULL_SETTLE_CYCLES },
        Event::Write { addr: GPPUDCLK0, data: low_word(gpios) },
        Event::Write { addr: GPPUDCLK1, data: high_word(gpios) },
        Event::Delay { cycles: PULL_SETTLE_CYCLES },
        Event::Write { addr: GPPUD, data: 0 },
        Event::Write { addr: GPPUDCLK0, data: 0 },
        Event::Write { addr: GPPUDCLK1, data: 0 },
    ]
}

/// Drives high every pin that `gpios` selects and leaves the other pins as
/// they are. Bits above pin 53 are ignored.
pub fn output_set<M: Mmio>(mmio: &mut M, gpios: u64)
    ensures
        final(mmio).trace() == old(mmio).trace() + output_set_trace(gpios),
        final(mmio).replies() == old(mmio).replies(),
{
    let pins: u64 = gpios & PIN_MASK;
    let gpios_0: u32 = pins as u32;
    let gpios_1: u32 = (pins >> 32) as u32;
    mmio.write(GPSET0, gpios_0);
    mmio.write(GPSET1, gpios_1);
    assert(mmio.trace() =~= old(mmio).trace() + output_set_trace(gpios));
}

/// Drives low every pin that `gpios` selects and leaves the other pins as
/// they are. Bits above pin 53 are ignored.
pub fn output_clear<M: Mmio>(mmio: &mut M, gpios: u64)
    ensures
        final(mmio).trace() == old(mmio).trace() + output_clear_trace(gpios),
        final(mmio).replies() == old(mmio).replies(),
{
    let pins: u64 = gpios & PIN_MASK;
    let gpios_0: u32 = pins as u32;
    let gpios_1: u32 = (pins >> 32) as u32;
    mmio.write(GPCLR0, gpios_0);
    mmio.write(GPCLR1, gpios_1);
    assert(mmio.trace() =~= old(mmio).trace() + output_clear_trace(gpios));
}

/// Puts the pull resistor of every pin that `gpios` selects into `mode` and
/// leaves the other pins as they are. Bits above pin 53 are ignored.
pub fn set_pull_mode<M: Mmio>(mmio: &mut M, gpios: u64, mode: PullMode)
    ensures
        final(mmio).trace() == old(mmio).trace() + pull_trace(gpios, mode),
        final(mmio).replies() == old(mmio).replies(),
{
    let pins: u64 = gpios & PIN_MASK;
    let gpios_0: u32 = pins as u32;
    let gpios_1: u32 = (pins >> 32) as u32;
    mmio.write(GPPUD, mode.code());
    mmio.delay(PULL_SETTLE_CYCLES);
    mmio.write(GPPUDCLK0, gpios_0);
    mmio.write(GPPUDCLK1, gpios_1);
    mmio.delay(PULL_SETTLE_CYCLES);
    mmio.write(GPPUD, 0);
    mmio.write(GPPUDCLK0, 0);
    mmio.write(GPPUDCLK1, 0);
    assert(mmio.trace() =~= old(mmio).trace() + pull_trace(gpios, mode));
}

/// The output levels of the pins, one bit per pin, after the controller has
/// seen `event`: a store to a set register raises the pins whose bit is 1, a
/// store to a clear register lowers them, and nothing else moves a pin.
pub open spec fn drive(levels: u64, event: Event) -> u64 {
    match event {
        Event::Write { addr, data } => {
            if addr == GPSET0 {
                levels | (data as u64)
            } else if addr == GPSET1 {
                levels | ((data as u64) << 32)
            } else if addr == GPCLR0 {
                levels & !(data as u64)
            } else if addr == GPCLR1 {
                levels & !((data as u64) << 32)
            } else {
                levels
            }
        },
        _ => levels,
    }
}

/// The output levels of the pins after the controller has seen all of `trace`.
pub open spec fn levels_after(levels: u64, trace: Seq<Event>) -> u64
    decreases trace.len(),
{
    if trace.len() == 0 {
        levels
    } else {
        drive(levels_after(levels, trace.drop_last()), trace.last())
    }
}

proof fn put_slot_reads_back(val: u32, a: u32, b: u32, code: u32)
    by (bit_vector)
    requires
        a < 30,
        b < 30,
        a % 3 == 0,
        b % 3 == 0,
        code < 8,
    ensures
        slot_at(put_slot(val, a, code), b) == (if a == b {
            code
        } else {
            slot_at(val, b)
        }),
        put_slot(val, a, code) >> 30 == val >> 30,
{
}

proof fn retarget_slots(val: u32, field: u32, code: u32, n: nat, slot: nat)
    requires
        n <= 10,
        slot < 10,
        code < 8,
    ensures
        slot_at(retarget(val, field, code, n), (3 * slot) as u32) == (if slot < n && (field >> (
        slot as u32)) & 1 == 1 {
            code
        } else {
            slot_at(val, (3 * slot) as u32)
        }),
        retarget(val, field, code, n) >> 30 == val >> 30,
    decreases n,
{
    if n > 0 {
        retarget_slots(val, field, code, (n - 1) as nat, slot);
        let prev = retarget(val, field, code, (n - 1) as nat);
        put_slot_reads_back(prev, (3 * (n - 1)) as u32, (3 * slot) as u32, code);
    }
}

proof fn field_bit_is_pin_bit(gpios: u64, bank: u64, slot: u64)
    by (bit_vector)
    requires
        bank < 6,
        slot < 10,
    ensures
        ((bank_field(gpios, bank) >> (slot as u32)) & 1 == 1) <==> pin_selected(
            gpios,
            (10 * bank + slot) as u64,
        ),
        (bank_field(gpios, bank) >> (slot as u32)) & 1 == 1 ==> bank_field(gpios, bank) != 0,
{
}

/// A function select is a masked update. In the value stored to the register
/// of bank `bank`, the slot of every pin that `gpios` selects holds `code`,
/// and every other slot, as well as the two bits above the slots, is as it
/// was in the value loaded. A bank that holds a selected pin has a field
/// other than 0, so its register is loaded and stored.
pub proof fn select_is_masked_update(val: u32, gpios: u64, bank: u64, slot: u64, code: u32)
    requires
        bank < 6,
        slot < 10,
        code < 8,
    ensures
        ({
            let out = retarget(val, bank_field(gpios, bank), code, 10);
            let pin = (10 * bank + slot) as u64;
            let shift = (3 * slot) as u32;
            &&& pin_selected(gpios, pin) ==> slot_at(out, shift) == code
            &&& !pin_selected(gpios, pin) ==> slot_at(out, shift) == slot_at(val, shift)
            &&& out >> 30 == val >> 30
            &&& pin_selected(gpios, pin) ==> bank_field(gpios, bank) != 0
        }),
{
    retarget_slots(val, bank_field(gpios, bank), code, 10, slot as nat);
    field_bit_is_pin_bit(gpios, bank, slot);
}

proof fn select_touches_from(gpios: u64, code: u32, replies: Seq<u32>, bank: nat, from: nat)
    requires
        bank < 6,
    ensures
        loads_of(select_trace(gpios, code, replies, from), gpfsel(bank)) == (if from <= bank
            && bank_field(gpios, bank as u64) != 0 {
            1nat
        } else {
            0nat
        }),
        stores_of(select_trace(gpios, code, replies, from), gpfsel(bank)) == (if from <= bank
            && bank_field(gpios, bank as u64) != 0 {
            1nat
        } else {
            0nat
        }),
    decreases 6 - from,
{
    if from < 6 {
        if bank_field(gpios, from as u64) == 0 {
            select_touches_from(gpios, code, replies, bank, from + 1);
        } else {
            let val = next_reply(replies);
            let pair = seq![
                Event::Read { addr: gpfsel(from), data: val },
                Event::Write {
                    addr: gpfsel(from),
                    data: retarget(val, bank_field(gpios, from as u64), code, 10),
                },
            ];
            let tail = select_trace(gpios, code, rest(replies), from + 1);
            select_touches_from(gpios, code, rest(replies), bank, from + 1);
            accesses_add_up(pair, tail, gpfsel(bank));
            assert(pair.drop_first() =~= seq![pair[1]]);
            assert(pair.drop_first().drop_first() =~= Seq::<Event>::empty());
            reveal_with_fuel(loads_of, 3);
            reveal_with_fuel(stores_of, 3);
        }
    }
}

/// A function select touches each bank at most once. The register of a bank
/// in which `gpios` selects a pin is loaded once and stored once; the
/// register of any other bank is neither loaded nor stored.
pub proof fn select_touches_selected_banks_once(
    gpios: u64,
    code: u32,
    replies: Seq<u32>,
    bank: nat,
)
    requires
        bank < 6,
    ensures
        bank_field(gpios, bank as u64) != 0 ==> loads_of(
            select_trace(gpios, code, replies, 0),
            gpfsel(bank),
        ) == 1 && stores_of(select_trace(gpios, code, replies, 0), gpfsel(bank)) == 1,
        bank_field(gpios, bank as u64) == 0 ==> loads_of(
            select_trace(gpios, code, replies, 0),
            gpfsel(bank),
        ) == 0 && stores_of(select_trace(gpios, code, replies, 0), gpfsel(bank)) == 0,
{
    select_touches_from(gpios, code, replies, bank, 0);
}

proof fn no_pins_no_fields(gpios: u64)
    by (bit_vector)
    requires
        gpios & PIN_MASK == 0,
    ensures
        bank_field(gpios, 0) == 0,
        bank_field(gpios, 1) == 0,
        bank_field(gpios, 2) == 0,
        bank_field(gpios, 3) == 0,
        bank_field(gpios, 4) == 0,
        bank_field(gpios, 5) == 0,
        low_word(gpios) == 0,
        high_word(gpios) == 0,
{
}

/// A mask that selects none of the 54 pins does nothing to the function
/// select registers and stores 0 to the output registers.
pub proof fn out_of_range_bits_are_dropped(gpios: u64, code: u32, replies: Seq<u32>)
    requires
        gpios & PIN_MASK == 0,
    ensures
        select_trace(gpios, code, replies, 0) == Seq::<Event>::empty(),
        select_replies(gpios, replies, 0) == replies,
        output_set_trace(gpios) == seq![
            Event::Write { addr: GPSET0, data: 0 },
            Event::Write { addr: GPSET1, data: 0 },
        ],
        output_clear_trace(gpios) == seq![
            Event::Write { addr: GPCLR0, data: 0 },
            Event::Write { addr: GPCLR1, data: 0 },
        ],
{
    no_pins_no_fields(gpios);
    reveal_with_fuel(select_trace, 7);
    reveal_with_fuel(select_replies, 7);
}

proof fn word_bit_is_pin_bit(gpios: u64, pin: u64)
    by (bit_vector)
    requires
        pin < 64,
    ensures
        pin < 32 ==> ((low_word(gpios) >> (pin as u32)) & 1 == 1 <==> pin_selected(gpios, pin)),
        pin >= 32 ==> ((high_word(gpios) >> ((pin - 32) as u32)) & 1 == 1 <==> pin_selected(
            gpios,
            pin,
        )),
{
}

/// The two words of an output set or clear hold exactly the selected pins:
/// bit `pin` of the low word for a pin below 32, bit `pin - 32` of the high
/// word for a pin from 32 up, and no bit for a pin above 53.
pub proof fn output_words_hold_selected_pins(gpios: u64, pin: u64)
    requires
        pin < 64,
    ensures
        pin < 32 ==> ((low_word(gpios) >> (pin as u32)) & 1 == 1 <==> pin_selected(gpios, pin)),
        pin >= 32 ==> ((high_word(gpios) >> ((pin - 32) as u32)) & 1 == 1 <==> pin_selected(
            gpios,
            pin,
        )),
{
    word_bit_is_pin_bit(gpios, pin);
}

/// The trace that two drivers leave one after the other moves the pins as the
/// first trace does and then the second.
pub proof fn levels_after_concat(levels: u64, first: Seq<Event>, second: Seq<Event>)
    ensures
        levels_after(levels, first + second) == levels_after(
            levels_after(levels, first),
            second,
        ),
    decreases second.len(),
{
    if second.len() == 0 {
        assert(first + second =~= first);
    } else {
        levels_after_concat(levels, first, second.drop_last());
        assert((first + second).drop_last() =~= first + second.drop_last());
    }
}

proof fn set_bits(levels: u64, gpios: u64)
    by (bit_vector)
    ensures
        (levels | (low_word(gpios) as u64)) | ((high_word(gpios) as u64) << 32) == levels | (gpios
            & PIN_MASK),
        (levels & !(low_word(gpios) as u64)) & !((high_word(gpios) as u64) << 32) == levels & !(
        gpios & PIN_MASK),
{
}

/// An output set raises exactly the pins that `gpios` selects, whatever the
/// levels were.
pub proof fn output_set_raises(levels: u64, gpios: u64)
    ensures
        levels_after(levels, output_set_trace(gpios)) == levels | (gpios & PIN_MASK),
{
    let t = output_set_trace(gpios);
    assert(t.drop_last() =~= seq![t[0]]);
    assert(t.drop_last().drop_last() =~= Seq::<Event>::empty());
    reveal_with_fuel(levels_after, 3);
    set_bits(levels, gpios);
}

/// An output clear lowers exactly the pins that `gpios` selects, whatever the
/// levels were.
pub proof fn output_clear_lowers(levels: u64, gpios: u64)
    ensures
        levels_after(levels, output_clear_trace(gpios)) == levels & !(gpios & PIN_MASK),
{
    let t = output_clear_trace(gpios);
    assert(t.drop_last() =~= seq![t[0]]);
    assert(t.drop_last().drop_last() =~= Seq::<Event>::empty());
    reveal_with_fuel(levels_after, 3);
    set_bits(levels, gpios);
}

/// Setting the same pins twice leaves the pins as setting them once does, and
/// so does clearing them twice.
pub proof fn output_twice_is_once(levels: u64, gpios: u64)
    ensures
        levels_after(levels, output_set_trace(gpios) + output_set_trace(gpios)) == levels_after(
            levels,
            output_set_trace(gpios),
        ),
        levels_after(levels, output_clear_trace(gpios) + output_clear_trace(gpios))
            == levels_after(levels, output_clear_trace(gpios)),
{
    let pins = gpios & PIN_MASK;
    levels_after_concat(levels, output_set_trace(gpios), output_set_trace(gpios));
    output_set_raises(levels, gpios);
    output_set_raises(levels | pins, gpios);
    assert((levels | pins) | pins == levels | pins) by (bit_vector);
    levels_after_concat(levels, output_clear_trace(gpios), output_clear_trace(gpios));
    output_clear_lowers(levels, gpios);
    output_clear_lowers(levels & !pins, gpios);
    assert((levels & !pins) & !pins == levels & !pins) by (bit_vector);
}

} // verus!
