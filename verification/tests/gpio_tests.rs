use rpi_io::gpio::{
    output_clear, output_set, set_function, set_pull_mode, Function, PullMode, GPCLR0, GPCLR1,
    GPFSEL0, GPFSEL1, GPPUD, GPPUDCLK0, GPPUDCLK1, GPSET0, GPSET1, NUM_GPIOS, PIN_MASK,
};
use rpi_io::mmio::{Event, Mmio, Recorder};

fn read(addr: u64, data: u32) -> Event {
    Event::Read { addr, data }
}

fn write(addr: u64, data: u32) -> Event {
    Event::Write { addr, data }
}

fn levels_after(mut levels: u64, events: &[Event]) -> u64 {
    for e in events {
        if let Event::Write { addr, data } = *e {
            if addr == GPSET0 {
                levels |= data as u64;
            } else if addr == GPSET1 {
                levels |= (data as u64) << 32;
            } else if addr == GPCLR0 {
                levels &= !(data as u64);
            } else if addr == GPCLR1 {
                levels &= !((data as u64) << 32);
            }
        }
    }
    levels
}

#[test]
fn register_map() {
    assert_eq!(GPFSEL0, 0x0020_0000);
    assert_eq!(GPFSEL1, 0x0020_0004);
    assert_eq!(GPSET0, 0x0020_001C);
    assert_eq!(GPSET1, 0x0020_0020);
    assert_eq!(GPCLR0, 0x0020_0028);
    assert_eq!(GPCLR1, 0x0020_002C);
    assert_eq!(NUM_GPIOS, 54);
    assert_eq!(PIN_MASK, (1u64 << 54) - 1);
}

#[test]
fn function_codes() {
    assert_eq!(Function::Input.code(), 0b000);
    assert_eq!(Function::Output.code(), 0b001);
    assert_eq!(Function::Func0.code(), 0b100);
    assert_eq!(Function::Func1.code(), 0b101);
    assert_eq!(Function::Func2.code(), 0b110);
    assert_eq!(Function::Func3.code(), 0b111);
    assert_eq!(Function::Func4.code(), 0b011);
    assert_eq!(Function::Func5.code(), 0b010);
}

#[test]
fn function_codes_reach_the_register() {
    let table = [
        (Function::Input, 0x0000_0000u32, 0xFF1F_FFFFu32),
        (Function::Output, 0x0020_0000, 0xFF3F_FFFF),
        (Function::Func5, 0x0040_0000, 0xFF5F_FFFF),
        (Function::Func4, 0x0060_0000, 0xFF7F_FFFF),
        (Function::Func0, 0x0080_0000, 0xFF9F_FFFF),
        (Function::Func1, 0x00A0_0000, 0xFFBF_FFFF),
        (Function::Func2, 0x00C0_0000, 0xFFDF_FFFF),
        (Function::Func3, 0x00E0_0000, 0xFFFF_FFFF),
    ];
    for (f, from_zero, from_ones) in table {
        let mut bus = Recorder::new(vec![0, 0xFFFF_FFFF]);
        set_function(&mut bus, 1 << 27, f);
        set_function(&mut bus, 1 << 27, f);
        assert_eq!(
            bus.events(),
            &vec![
                read(0x0020_0008, 0),
                write(0x0020_0008, from_zero),
                read(0x0020_0008, 0xFFFF_FFFF),
                write(0x0020_0008, from_ones),
            ]
        );
    }
}

#[test]
fn blink_setup() {
    let mut bus = Recorder::new(vec![0xFFFF_FFFF]);
    set_function(&mut bus, 1 << 4, Function::Output);
    assert_eq!(
        bus.events(),
        &vec![read(GPFSEL0, 0xFFFF_FFFF), write(GPFSEL0, 0xFFFF_9FFF)]
    );

    let mut bus = Recorder::new(vec![0]);
    set_function(&mut bus, 1 << 4, Function::Output);
    assert_eq!(bus.events(), &vec![read(GPFSEL0, 0), write(GPFSEL0, 0x0000_1000)]);
}

#[test]
fn uart_pins_to_func0() {
    let mut bus = Recorder::new(vec![0xFFFF_FFFF]);
    set_function(&mut bus, (1 << 14) | (1 << 15), Function::Func0);
    assert_eq!(
        bus.events(),
        &vec![read(GPFSEL1, 0xFFFF_FFFF), write(GPFSEL1, 0xFFFE_4FFF)]
    );

    let mut bus = Recorder::new(vec![0x1234_5678]);
    set_function(&mut bus, (1 << 14) | (1 << 15), Function::Func0);
    assert_eq!(
        bus.events(),
        &vec![read(GPFSEL1, 0x1234_5678), write(GPFSEL1, 0x1236_4678)]
    );
}

#[test]
fn set_function_is_a_masked_update_per_bank() {
    let pins: u64 = (1 << 0) | (1 << 9) | (1 << 10) | (1 << 53);
    let mut bus = Recorder::new(vec![0xAAAA_AAAA, 0x5555_5555, 0xFFFF_FFFF, 0x7777_7777]);
    set_function(&mut bus, pins, Function::Func4);
    assert_eq!(
        bus.events(),
        &vec![
            read(0x0020_0000, 0xAAAA_AAAA),
            write(0x0020_0000, 0x9AAA_AAAB),
            read(0x0020_0004, 0x5555_5555),
            write(0x0020_0004, 0x5555_5553),
            read(0x0020_0014, 0xFFFF_FFFF),
            write(0x0020_0014, 0xFFFF_F7FF),
        ]
    );
    assert_eq!(bus.unread(), 1);
}

#[test]
fn set_function_on_every_pin() {
    let mut bus = Recorder::new(vec![]);
    set_function(&mut bus, u64::MAX, Function::Output);
    let mut expected = Vec::new();
    for bank in 0..5u64 {
        expected.push(read(0x0020_0000 + 4 * bank, 0));
        expected.push(write(0x0020_0000 + 4 * bank, 0x0924_9249));
    }
    expected.push(read(0x0020_0014, 0));
    expected.push(write(0x0020_0014, 0x0000_0249));
    assert_eq!(bus.events(), &expected);

    let mut bus = Recorder::new(vec![0xFFFF_FFFF; 6]);
    set_function(&mut bus, u64::MAX, Function::Input);
    let mut expected = Vec::new();
    for bank in 0..5u64 {
        expected.push(read(0x0020_0000 + 4 * bank, 0xFFFF_FFFF));
        expected.push(write(0x0020_0000 + 4 * bank, 0xC000_0000));
    }
    expected.push(read(0x0020_0014, 0xFFFF_FFFF));
    expected.push(write(0x0020_0014, 0xFFFF_F000));
    assert_eq!(bus.events(), &expected);
}

#[test]
fn set_function_reaches_pin_53() {
    let mut bus = Recorder::new(vec![0]);
    set_function(&mut bus, 1 << 53, Function::Func3);
    assert_eq!(
        bus.events(),
        &vec![read(0x0020_0014, 0), write(0x0020_0014, 0b111 << 9)]
    );
}

#[test]
fn set_function_without_pins_touches_nothing() {
    let mut bus = Recorder::new(vec![0xFFFF_FFFF]);
    set_function(&mut bus, 0, Function::Output);
    assert!(bus.events().is_empty());
    set_function(&mut bus, (1 << 54) | (1 << 59) | (1 << 63), Function::Output);
    assert!(bus.events().is_empty());
    assert_eq!(bus.unread(), 1);
}

#[test]
fn blink_on_off() {
    let mut bus = Recorder::new(vec![]);
    output_set(&mut bus, 1 << 4);
    assert_eq!(bus.events(), &vec![write(GPSET0, 0x10), write(GPSET1, 0)]);

    let mut bus = Recorder::new(vec![]);
    output_clear(&mut bus, 1 << 4);
    assert_eq!(bus.events(), &vec![write(GPCLR0, 0x10), write(GPCLR1, 0)]);
}

#[test]
fn output_discards_bits_above_pin_53() {
    let mut bus = Recorder::new(vec![]);
    output_set(&mut bus, 1 << 60);
    assert_eq!(bus.events(), &vec![write(GPSET0, 0), write(GPSET1, 0)]);

    let mut bus = Recorder::new(vec![]);
    output_clear(&mut bus, 1 << 60);
    assert_eq!(bus.events(), &vec![write(GPCLR0, 0), write(GPCLR1, 0)]);

    let mut bus = Recorder::new(vec![]);
    output_set(&mut bus, u64::MAX);
    assert_eq!(
        bus.events(),
        &vec![write(GPSET0, 0xFFFF_FFFF), write(GPSET1, 0x003F_FFFF)]
    );
}

#[test]
fn output_splits_mask_into_two_words() {
    let mut bus = Recorder::new(vec![]);
    output_set(&mut bus, (1 << 31) | (1 << 32) | (1 << 53));
    output_clear(&mut bus, (1 << 0) | (1 << 33));
    assert_eq!(
        bus.events(),
        &vec![
            write(GPSET0, 0x8000_0000),
            write(GPSET1, 0x0020_0001),
            write(GPCLR0, 0x0000_0001),
            write(GPCLR1, 0x0000_0002),
        ]
    );
}

#[test]
fn output_takes_no_reply() {
    let mut bus = Recorder::new(vec![1, 2]);
    output_set(&mut bus, 1);
    output_clear(&mut bus, 1);
    set_pull_mode(&mut bus, 1, PullMode::PullUp);
    assert_eq!(bus.unread(), 2);
}

#[test]
fn output_twice_is_output_once() {
    let mask: u64 = (1 << 4) | (1 << 40) | (1 << 60);
    let start: u64 = 0x0000_0123_4567_89AB;

    let mut once = Recorder::new(vec![]);
    output_set(&mut once, mask);
    let mut twice = Recorder::new(vec![]);
    output_set(&mut twice, mask);
    output_set(&mut twice, mask);
    assert_eq!(twice.events().len(), 4);
    assert_eq!(&twice.events()[..2], &twice.events()[2..]);
    let expected = start | (1 << 4) | (1 << 40);
    assert_eq!(levels_after(start, once.events()), expected);
    assert_eq!(levels_after(start, twice.events()), expected);

    let mut once = Recorder::new(vec![]);
    output_clear(&mut once, mask | 1);
    let mut twice = Recorder::new(vec![]);
    output_clear(&mut twice, mask | 1);
    output_clear(&mut twice, mask | 1);
    let expected = start & !((1 << 4) | (1 << 40) | 1);
    assert_eq!(levels_after(start, once.events()), expected);
    assert_eq!(levels_after(start, twice.events()), expected);
}

#[test]
fn pull_mode_codes() {
    assert_eq!(PullMode::Disabled.code(), 0);
    assert_eq!(PullMode::PullDown.code(), 1);
    assert_eq!(PullMode::PullUp.code(), 2);
}

#[test]
fn pull_mode_sequence() {
    let mut bus = Recorder::new(vec![]);
    set_pull_mode(&mut bus, (1 << 14) | (1 << 15), PullMode::Disabled);
    assert_eq!(
        bus.events(),
        &vec![
            write(GPPUD, 0),
            Event::Delay { cycles: 150 },
            write(GPPUDCLK0, 0xC000),
            write(GPPUDCLK1, 0),
            Event::Delay { cycles: 150 },
            write(GPPUD, 0),
            write(GPPUDCLK0, 0),
            write(GPPUDCLK1, 0),
        ]
    );

    let mut bus = Recorder::new(vec![]);
    set_pull_mode(&mut bus, (1 << 40) | (1 << 62), PullMode::PullUp);
    assert_eq!(
        bus.events(),
        &vec![
            write(0x0020_0094, 2),
            Event::Delay { cycles: 150 },
            write(0x0020_0098, 0),
            write(0x0020_009C, 0x100),
            Event::Delay { cycles: 150 },
            write(0x0020_0094, 0),
            write(0x0020_0098, 0),
            write(0x0020_009C, 0),
        ]
    );

    let mut bus = Recorder::new(vec![]);
    set_pull_mode(&mut bus, 1, PullMode::PullDown);
    assert_eq!(bus.events()[0], write(GPPUD, 1));
    assert_eq!(bus.events()[2], write(GPPUDCLK0, 1));
}

#[test]
fn drivers_work_through_any_window() {
    struct Counting {
        inner: Recorder,
        writes: usize,
    }
    impl Mmio for Counting {
        fn write(&mut self, addr: u64, data: u32) {
            self.writes += 1;
            self.inner.write(addr, data)
        }
        fn read(&mut self, addr: u64) -> u32 {
            self.inner.read(addr)
        }
        fn delay(&mut self, cycles: u32) {
            self.inner.delay(cycles)
        }
    }
    let mut bus = Counting { inner: Recorder::new(vec![0]), writes: 0 };
    set_function(&mut bus, 1 << 4, Function::Output);
    output_set(&mut bus, 1 << 4);
    assert_eq!(bus.writes, 3);
    assert_eq!(bus.inner.events().len(), 4);
}
