use character_lcd::{DisplayError, Instruction, LatchMode, Lcd, OutputLine, Signal};

fn level(line: OutputLine, high: bool) -> Signal {
    Signal::Level { line, high }
}

fn micros(micros: u32) -> Signal {
    Signal::WaitMicros { micros }
}

fn pulse(line: OutputLine) -> Vec<Signal> {
    vec![level(line, true), micros(1), level(line, false), micros(1)]
}

/// What one byte write is expected to be, put together here bit by bit.
fn written(mode: LatchMode, data_input: bool, data: u8) -> Vec<Signal> {
    let mut all: Vec<Signal> = vec![level(OutputLine::RegisterSelect, data_input)];
    for step in 0..8u8 {
        all.push(level(OutputLine::SerialData, (data >> (7 - step)) & 1 == 1));
        all.push(micros(1));
        all.extend(pulse(OutputLine::SerialClock));
    }
    all.extend(pulse(OutputLine::Latch));
    match mode {
        LatchMode::Single => all.push(Signal::WaitMillis { millis: 1 }),
        LatchMode::Double => all.extend(pulse(OutputLine::Latch)),
    }
    all
}

/// The receiving side: a shift register that takes the data level on each
/// rising clock edge and shows its stages on each rising latch edge.
struct Receiver {
    data: bool,
    clock: bool,
    latch: bool,
    select: bool,
    stages: u8,
    outputs: u8,
    seen: Vec<(bool, u8)>,
}

impl Receiver {
    fn new() -> Receiver {
        Receiver {
            data: true,
            clock: true,
            latch: true,
            select: true,
            stages: 0xFF,
            outputs: 0xFF,
            seen: Vec::new(),
        }
    }

    fn play(&mut self, trace: &[Signal]) {
        for signal in trace {
            if let Signal::Level { line, high } = *signal {
                match line {
                    OutputLine::SerialData => self.data = high,
                    OutputLine::SerialClock => {
                        if high && !self.clock {
                            self.stages = (self.stages << 1) | (self.data as u8);
                        }
                        self.clock = high;
                    }
                    OutputLine::Latch => {
                        if high && !self.latch {
                            self.outputs = self.stages;
                            self.seen.push((self.select, self.outputs));
                        }
                        self.latch = high;
                    }
                    OutputLine::RegisterSelect => self.select = high,
                }
            }
        }
    }
}

/// The bytes that a receiver takes from `trace`, with their register
/// select level; clock and latch are driven low first, as `init` does.
fn received(trace: &[Signal]) -> Vec<(bool, u8)> {
    let mut receiver: Receiver = Receiver::new();
    receiver.play(&[level(OutputLine::SerialClock, false), level(OutputLine::Latch, false)]);
    receiver.play(trace);
    receiver.seen
}

#[test]
fn new_driver_has_nothing_to_play() {
    let mut lcd: Lcd = Lcd::new(LatchMode::Single);
    assert_eq!(lcd.latch_mode(), LatchMode::Single);
    assert_eq!(lcd.take_signals(), Vec::<Signal>::new());
    let other: Lcd = Lcd::new(LatchMode::Double);
    assert_eq!(other.latch_mode(), LatchMode::Double);
}

#[test]
fn take_signals_hands_out_and_starts_over() {
    let mut lcd: Lcd = Lcd::new(LatchMode::Single);
    lcd.clear();
    let first: Vec<Signal> = lcd.take_signals();
    assert_eq!(first, written(LatchMode::Single, false, 0x01));
    assert_eq!(lcd.take_signals(), Vec::<Signal>::new());
    lcd.home();
    assert_eq!(lcd.take_signals(), written(LatchMode::Single, false, 0x02));
    assert_eq!(lcd.latch_mode(), LatchMode::Single);
}

#[test]
fn write_single_latch_signal_by_signal() {
    let mut lcd: Lcd = Lcd::new(LatchMode::Single);
    lcd.write(true, 0x80);
    let mut expected: Vec<Signal> = vec![level(OutputLine::RegisterSelect, true)];
    expected.extend(vec![
        level(OutputLine::SerialData, true),
        micros(1),
        level(OutputLine::SerialClock, true),
        micros(1),
        level(OutputLine::SerialClock, false),
        micros(1),
    ]);
    for _ in 0..7 {
        expected.extend(vec![
            level(OutputLine::SerialData, false),
            micros(1),
            level(OutputLine::SerialClock, true),
            micros(1),
            level(OutputLine::SerialClock, false),
            micros(1),
        ]);
    }
    expected.extend(vec![
        level(OutputLine::Latch, true),
        micros(1),
        level(OutputLine::Latch, false),
        micros(1),
        Signal::WaitMillis { millis: 1 },
    ]);
    let trace: Vec<Signal> = lcd.take_signals();
    assert_eq!(trace.len(), 54);
    assert_eq!(trace, expected);
}

#[test]
fn write_double_latch_pulses_twice_and_does_not_settle() {
    let mut lcd: Lcd = Lcd::new(LatchMode::Double);
    lcd.write(false, 0x01);
    let trace: Vec<Signal> = lcd.take_signals();
    assert_eq!(trace.len(), 57);
    assert_eq!(trace, written(LatchMode::Double, false, 0x01));
    assert_eq!(
        &trace[49..],
        &[
            level(OutputLine::Latch, true),
            micros(1),
            level(OutputLine::Latch, false),
            micros(1),
            level(OutputLine::Latch, true),
            micros(1),
            level(OutputLine::Latch, false),
            micros(1),
        ]
    );
    assert!(!trace.iter().any(|s| matches!(s, Signal::WaitMillis { .. })));
}

#[test]
fn write_sets_register_select_once_and_first() {
    for mode in [LatchMode::Single, LatchMode::Double] {
        for data_input in [false, true] {
            let mut lcd: Lcd = Lcd::new(mode);
            lcd.write(data_input, 0x5A);
            let trace: Vec<Signal> = lcd.take_signals();
            assert_eq!(trace[0], level(OutputLine::RegisterSelect, data_input));
            let selects: usize = trace
                .iter()
                .filter(|s| matches!(s, Signal::Level { line: OutputLine::RegisterSelect, .. }))
                .count();
            assert_eq!(selects, 1);
        }
    }
}

#[test]
fn write_has_eight_clock_pulses_then_the_latch() {
    let mut lcd: Lcd = Lcd::new(LatchMode::Single);
    lcd.write(false, 0xFF);
    let trace: Vec<Signal> = lcd.take_signals();
    let rising_clocks: usize =
        trace.iter().filter(|s| **s == level(OutputLine::SerialClock, true)).count();
    let rising_latches: usize =
        trace.iter().filter(|s| **s == level(OutputLine::Latch, true)).count();
    assert_eq!(rising_clocks, 8);
    assert_eq!(rising_latches, 1);
    let latch_at: usize =
        trace.iter().position(|s| *s == level(OutputLine::Latch, true)).unwrap();
    let last_clock: usize =
        trace.iter().rposition(|s| *s == level(OutputLine::SerialClock, false)).unwrap();
    assert!(last_clock < latch_at);
}

#[test]
fn every_byte_written_reaches_the_receiver() {
    for byte in 0..=255u8 {
        for data_input in [false, true] {
            let mut lcd: Lcd = Lcd::new(LatchMode::Single);
            lcd.write(data_input, byte);
            assert_eq!(received(&lcd.take_signals()), vec![(data_input, byte)]);
        }
    }
}

#[test]
fn double_latch_shows_the_byte_at_both_pulses() {
    let mut lcd: Lcd = Lcd::new(LatchMode::Double);
    lcd.write(true, 0x41);
    assert_eq!(received(&lcd.take_signals()), vec![(true, 0x41), (true, 0x41)]);
}

#[test]
fn init_sends_function_set_clear_home_and_display_on() {
    let mut lcd: Lcd = Lcd::new(LatchMode::Single);
    lcd.init();
    let trace: Vec<Signal> = lcd.take_signals();
    assert_eq!(trace[0], level(OutputLine::SerialClock, false));
    assert_eq!(trace[1], level(OutputLine::Latch, false));
    assert_eq!(
        received(&trace),
        vec![(false, 0x38), (false, 0x01), (false, 0x02), (false, 0x0C)]
    );
    let mut expected: Vec<Signal> =
        vec![level(OutputLine::SerialClock, false), level(OutputLine::Latch, false)];
    for byte in [0x38u8, 0x01, 0x02, 0x0C] {
        expected.extend(written(LatchMode::Single, false, byte));
    }
    assert_eq!(trace, expected);
}

#[test]
fn init_works_on_a_receiver_in_any_state() {
    let mut lcd: Lcd = Lcd::new(LatchMode::Single);
    lcd.init();
    let trace: Vec<Signal> = lcd.take_signals();
    let mut receiver: Receiver = Receiver::new();
    receiver.play(&trace);
    assert_eq!(
        receiver.seen,
        vec![(false, 0x38), (false, 0x01), (false, 0x02), (false, 0x0C)]
    );
    assert!(!receiver.clock);
    assert!(!receiver.latch);
}

#[test]
fn init_with_double_latch() {
    let mut lcd: Lcd = Lcd::new(LatchMode::Double);
    lcd.init();
    let mut expected: Vec<Signal> =
        vec![level(OutputLine::SerialClock, false), level(OutputLine::Latch, false)];
    for byte in [0x38u8, 0x01, 0x02, 0x0C] {
        expected.extend(written(LatchMode::Double, false, byte));
    }
    assert_eq!(lcd.take_signals(), expected);
}

#[test]
fn power_display_only_sends_0x0c() {
    let mut lcd: Lcd = Lcd::new(LatchMode::Single);
    lcd.power(true, false, false);
    assert_eq!(received(&lcd.take_signals()), vec![(false, 0x0C)]);
}

#[test]
fn power_everything_on_sends_0x0f() {
    let mut lcd: Lcd = Lcd::new(LatchMode::Single);
    lcd.power(true, true, true);
    assert_eq!(received(&lcd.take_signals()), vec![(false, 0x0F)]);
}

#[test]
fn power_covers_all_eight_combinations() {
    for bits in 0..8u8 {
        let mut lcd: Lcd = Lcd::new(LatchMode::Single);
        lcd.power(bits & 4 != 0, bits & 2 != 0, bits & 1 != 0);
        assert_eq!(lcd.take_signals(), written(LatchMode::Single, false, 0x08 + bits));
    }
}

#[test]
fn clear_twice_sends_0x01_twice() {
    let mut lcd: Lcd = Lcd::new(LatchMode::Single);
    lcd.clear();
    let first: Vec<Signal> = lcd.take_signals();
    lcd.clear();
    let second: Vec<Signal> = lcd.take_signals();
    assert_eq!(first, second);
    assert_eq!(received(&first), vec![(false, 0x01)]);
    lcd.clear();
    lcd.clear();
    assert_eq!(received(&lcd.take_signals()), vec![(false, 0x01), (false, 0x01)]);
}

#[test]
fn home_twice_sends_0x02_twice() {
    let mut lcd: Lcd = Lcd::new(LatchMode::Single);
    lcd.home();
    let first: Vec<Signal> = lcd.take_signals();
    lcd.home();
    let second: Vec<Signal> = lcd.take_signals();
    assert_eq!(first, second);
    assert_eq!(received(&first), vec![(false, 0x02)]);
}

#[test]
fn clear_and_home_do_not_depend_on_what_came_before() {
    let mut fresh: Lcd = Lcd::new(LatchMode::Single);
    fresh.clear();
    fresh.home();
    let plain: Vec<Signal> = fresh.take_signals();

    let mut used: Lcd = Lcd::new(LatchMode::Single);
    used.init();
    used.print("xyz");
    used.shift(true, true);
    let before: usize = used.take_signals().len();
    assert!(before > 0);
    used.clear();
    used.home();
    assert_eq!(used.take_signals(), plain);
    assert_eq!(received(&plain), vec![(false, 0x01), (false, 0x02)]);
}

#[test]
fn shift_sends_its_four_bytes() {
    let cases: [(bool, bool, u8); 4] =
        [(false, false, 0x10), (false, true, 0x14), (true, false, 0x18), (true, true, 0x1C)];
    for (shift_display, shift_right, byte) in cases {
        let mut lcd: Lcd = Lcd::new(LatchMode::Single);
        lcd.shift(shift_display, shift_right);
        assert_eq!(received(&lcd.take_signals()), vec![(false, byte)]);
    }
}

#[test]
fn set_ddram_sends_the_address_with_the_top_bit() {
    let mut lcd: Lcd = Lcd::new(LatchMode::Single);
    assert_eq!(lcd.set_ddram(0x00), Ok(()));
    assert_eq!(lcd.set_ddram(0x40), Ok(()));
    assert_eq!(lcd.set_ddram(0x7F), Ok(()));
    assert_eq!(
        received(&lcd.take_signals()),
        vec![(false, 0x80), (false, 0xC0), (false, 0xFF)]
    );
}

#[test]
fn set_ddram_refuses_an_address_the_display_lacks() {
    let mut lcd: Lcd = Lcd::new(LatchMode::Single);
    assert_eq!(lcd.set_ddram(0x80), Err(DisplayError::AddressOutOfRange));
    assert_eq!(lcd.set_ddram(0xFF), Err(DisplayError::AddressOutOfRange));
    assert_eq!(lcd.take_signals(), Vec::<Signal>::new());
}

#[test]
fn set_cursor_top_left_sends_0x80() {
    let mut lcd: Lcd = Lcd::new(LatchMode::Single);
    assert_eq!(lcd.set_cursor([0, 0]), Ok(()));
    assert_eq!(received(&lcd.take_signals()).last(), Some(&(false, 0x80)));
}

#[test]
fn set_cursor_second_row_sends_0xc0() {
    let mut lcd: Lcd = Lcd::new(LatchMode::Single);
    assert_eq!(lcd.set_cursor([0, 1]), Ok(()));
    assert_eq!(received(&lcd.take_signals()).last(), Some(&(false, 0xC0)));
}

#[test]
fn set_cursor_end_of_first_row_sends_0x8f() {
    let mut lcd: Lcd = Lcd::new(LatchMode::Single);
    assert_eq!(lcd.set_cursor([15, 0]), Ok(()));
    assert_eq!(received(&lcd.take_signals()).last(), Some(&(false, 0x8F)));
}

#[test]
fn set_cursor_on_every_cell() {
    for row in 0..2u8 {
        for column in 0..16u8 {
            let mut lcd: Lcd = Lcd::new(LatchMode::Single);
            lcd.print("x");
            assert_eq!(lcd.set_cursor([column, row]), Ok(()));
            assert_eq!(
                received(&lcd.take_signals()),
                vec![(true, 0x78), (false, 0x80 | (0x40 * row + column))]
            );
        }
    }
}

#[test]
fn set_cursor_refuses_what_is_off_the_grid() {
    let mut lcd: Lcd = Lcd::new(LatchMode::Single);
    assert_eq!(lcd.set_cursor([16, 0]), Err(DisplayError::PositionOutOfRange));
    assert_eq!(lcd.set_cursor([0, 2]), Err(DisplayError::PositionOutOfRange));
    assert_eq!(lcd.set_cursor([255, 255]), Err(DisplayError::PositionOutOfRange));
    assert_eq!(lcd.take_signals(), Vec::<Signal>::new());
}

#[test]
fn print_ab_sends_two_characters_in_order() {
    let mut lcd: Lcd = Lcd::new(LatchMode::Single);
    lcd.print("AB");
    let trace: Vec<Signal> = lcd.take_signals();
    assert_eq!(received(&trace), vec![(true, 0x41), (true, 0x42)]);
    let mut expected: Vec<Signal> = written(LatchMode::Single, true, b'A');
    expected.extend(written(LatchMode::Single, true, b'B'));
    assert_eq!(trace, expected);
    let selects: Vec<&Signal> = trace
        .iter()
        .filter(|s| matches!(s, Signal::Level { line: OutputLine::RegisterSelect, .. }))
        .collect();
    assert_eq!(selects, vec![&level(OutputLine::RegisterSelect, true); 2]);
}

#[test]
fn print_nothing_sends_nothing() {
    let mut lcd: Lcd = Lcd::new(LatchMode::Single);
    lcd.print("");
    assert_eq!(lcd.take_signals(), Vec::<Signal>::new());
}

#[test]
fn print_in_two_parts_is_print_of_the_whole() {
    let mut parts: Lcd = Lcd::new(LatchMode::Double);
    parts.print("     Hel");
    parts.print("lo");
    let mut whole: Lcd = Lcd::new(LatchMode::Double);
    whole.print("     Hello");
    assert_eq!(parts.take_signals(), whole.take_signals());
}

#[test]
fn print_keeps_the_low_byte_of_a_wide_character() {
    let mut lcd: Lcd = Lcd::new(LatchMode::Single);
    // U+00E9 fits a byte; U+20AC and U+1F600 keep their low eight bits.
    lcd.print("\u{e9}\u{20ac}\u{1f600}");
    assert_eq!(
        received(&lcd.take_signals()),
        vec![(true, 0xE9), (true, 0xAC), (true, 0x00)]
    );
}

#[test]
fn execute_sends_any_well_formed_instruction() {
    let mut lcd: Lcd = Lcd::new(LatchMode::Single);
    assert_eq!(lcd.execute(Instruction::FunctionSet), Ok(()));
    assert_eq!(lcd.execute(Instruction::WriteChar { byte: 0x7E }), Ok(()));
    assert_eq!(lcd.execute(Instruction::SetAddress { address: 0x4F }), Ok(()));
    assert_eq!(
        received(&lcd.take_signals()),
        vec![(false, 0x38), (true, 0x7E), (false, 0xCF)]
    );
}

#[test]
fn execute_refuses_an_address_the_display_lacks() {
    let mut lcd: Lcd = Lcd::new(LatchMode::Single);
    lcd.clear();
    assert_eq!(
        lcd.execute(Instruction::SetAddress { address: 0x80 }),
        Err(DisplayError::AddressOutOfRange)
    );
    assert_eq!(lcd.take_signals(), written(LatchMode::Single, false, 0x01));
}

#[test]
fn hello_world_on_two_rows() {
    let mut lcd: Lcd = Lcd::new(LatchMode::Single);
    lcd.init();
    lcd.print("     Hello");
    assert_eq!(lcd.set_cursor([0, 1]), Ok(()));
    lcd.print("     World");
    let mut expected: Vec<(bool, u8)> =
        vec![(false, 0x38), (false, 0x01), (false, 0x02), (false, 0x0C)];
    for byte in "     Hello".bytes() {
        expected.push((true, byte));
    }
    expected.push((false, 0xC0));
    for byte in "     World".bytes() {
        expected.push((true, byte));
    }
    assert_eq!(received(&lcd.take_signals()), expected);
}
