//! A model of the receiving side: the four lines, the shift register with
//! its eight stages, and the eight outputs that the display reads.
//!
//! The model is what the driver's signals are for. It lives in
//! specifications only, and the laws at the end of this file say what the
//! driver's traces do to it.

use vstd::prelude::*;
use crate::bits::bit_is_set;
use crate::lcd::{
    char_byte,
    init_signals,
    instruction_signals,
    latch_signals,
    print_signals,
    write_signals,
    LatchMode,
    SETTLE_MILLIS,
};
use crate::instruction::Instruction;
use crate::shifter::{
    bit_index,
    bit_signals,
    pulse_signals,
    shift_prefix,
    shift_signals,
    HOLD_MICROS,
};
use crate::signal::{OutputLine, Signal};

verus! {

/// Stages of the shift register, and outputs that it drives.
pub const STAGES: usize = 8;

/// The levels on the lines and the bits that the shift register holds.
pub struct Board {
    /// Level of the serial data line.
    pub data: bool,
    /// Level of the serial clock line.
    pub clock: bool,
    /// Level of the latch line.
    pub latch: bool,
    /// Level of the register select line.
    pub select: bool,
    /// The bits in the shift register; stage 0 took the latest.
    pub stages: Seq<bool>,
    /// The bits on the outputs; output 0 drives the lowest bit of the
    /// display's bus.
    pub outputs: Seq<bool>,
}

impl Board {
    /// The register has its eight stages and its eight outputs.
    pub open spec fn wf(self) -> bool {
        self.stages.len() == STAGES && self.outputs.len() == STAGES
    }

    /// The board after one signal. A rising clock edge takes the data level
    /// into stage 0 and moves every bit one stage up; a rising latch edge
    /// copies the stages to the outputs; waiting changes nothing.
    pub open spec fn step(self, signal: Signal) -> Board {
        match signal {
            Signal::Level { line: OutputLine::SerialData, high } => Board { data: high, ..self },
            Signal::Level { line: OutputLine::SerialClock, high } => Board {
                clock: high,
                stages: if high && !self.clock {
                    seq![self.data] + self.stages.take(self.stages.len() - 1)
                } else {
                    self.stages
                },
                ..self
            },
            Signal::Level { line: OutputLine::Latch, high } => Board {
                latch: high,
                outputs: if high && !self.latch {
                    self.stages
                } else {
                    self.outputs
                },
                ..self
            },
            Signal::Level { line: OutputLine::RegisterSelect, high } => Board {
                select: high,
                ..self
            },
            Signal::WaitMicros { .. } => self,
            Signal::WaitMillis { .. } => self,
        }
    }

    /// The board after the signals of `trace`, played in order.
    pub open spec fn run(self, trace: Seq<Signal>) -> Board
        decreases trace.len(),
    {
        if trace.len() == 0 {
            self
        } else {
            self.run(trace.drop_last()).step(trace.last())
        }
    }

    /// Whether the outputs show `byte`, output `i` being bit `i`.
    pub open spec fn shows(self, byte: u8) -> bool {
        &&& self.outputs.len() == STAGES
        &&& forall|i: int| 0 <= i < STAGES ==> self.outputs[i] == bit_is_set(byte as u64, i as u64)
    }
}

/// Playing one more signal is one more step.
pub proof fn lemma_run_push(board: Board, trace: Seq<Signal>, signal: Signal)
    ensures
        board.run(trace.push(signal)) == board.run(trace).step(signal),
{
    assert(trace.push(signal).drop_last() =~= trace);
}

/// Playing two traces one after the other is playing them joined.
pub proof fn lemma_run_concat(board: Board, first: Seq<Signal>, second: Seq<Signal>)
    ensures
        board.run(first + second) == board.run(first).run(second),
    decreases second.len(),
{
    if second.len() == 0 {
        assert(first + second =~= first);
    } else {
        lemma_run_concat(board, first, second.drop_last());
        assert((first + second).drop_last() =~= first + second.drop_last());
    }
}

/// A pulse on the clock line, from a low clock, shifts the data level in
/// and leaves the clock low.
pub proof fn lemma_clock_pulse(board: Board, micros: u32)
    requires
        !board.clock,
    ensures
        board.run(pulse_signals(OutputLine::SerialClock, micros)) == (Board {
            stages: seq![board.data] + board.stages.take(board.stages.len() - 1),
            ..board
        }),
{
    let high = Signal::Level { line: OutputLine::SerialClock, high: true };
    let low = Signal::Level { line: OutputLine::SerialClock, high: false };
    let wait = Signal::WaitMicros { micros };
    let empty = Seq::<Signal>::empty();
    lemma_run_push(board, empty, high);
    lemma_run_push(board, empty.push(high), wait);
    lemma_run_push(board, empty.push(high).push(wait), low);
    lemma_run_push(board, empty.push(high).push(wait).push(low), wait);
    assert(pulse_signals(OutputLine::SerialClock, micros) =~= empty.push(high).push(wait).push(
        low,
    ).push(wait));
}

/// A pulse on the latch line, from a low latch, copies the stages to the
/// outputs and leaves the latch low.
pub proof fn lemma_latch_pulse(board: Board, micros: u32)
    requires
        !board.latch,
    ensures
        board.run(pulse_signals(OutputLine::Latch, micros)) == (Board {
            outputs: board.stages,
            ..board
        }),
{
    let high = Signal::Level { line: OutputLine::Latch, high: true };
    let low = Signal::Level { line: OutputLine::Latch, high: false };
    let wait = Signal::WaitMicros { micros };
    let empty = Seq::<Signal>::empty();
    lemma_run_push(board, empty, high);
    lemma_run_push(board, empty.push(high), wait);
    lemma_run_push(board, empty.push(high).push(wait), low);
    lemma_run_push(board, empty.push(high).push(wait).push(low), wait);
    assert(pulse_signals(OutputLine::Latch, micros) =~= empty.push(high).push(wait).push(
        low,
    ).push(wait));
}

/// Shifting one bit in, from a low clock, puts it into stage 0 and leaves
/// the clock low.
pub proof fn lemma_bit_shifted_in(board: Board, high: bool)
    requires
        !board.clock,
    ensures
        board.run(bit_signals(OutputLine::SerialData, OutputLine::SerialClock, high)) == (Board {
            data: high,
            stages: seq![high] + board.stages.take(board.stages.len() - 1),
            ..board
        }),
{
    let level = Signal::Level { line: OutputLine::SerialData, high };
    let wait = Signal::WaitMicros { micros: HOLD_MICROS };
    let empty = Seq::<Signal>::empty();
    let head = empty.push(level).push(wait);
    let pulse = pulse_signals(OutputLine::SerialClock, HOLD_MICROS);
    lemma_run_push(board, empty, level);
    lemma_run_push(board, empty.push(level), wait);
    lemma_run_concat(board, head, pulse);
    lemma_clock_pulse(board.run(head), HOLD_MICROS);
    assert(bit_signals(OutputLine::SerialData, OutputLine::SerialClock, high) =~= head + pulse);
}

/// After `steps` steps of shifting out, from a low clock, stage `j` holds
/// the bit that went out `j` steps before the last one, and the bits that
/// were there have moved up; the data line is left on the last bit and the
/// clock low, and latch, register select and outputs are as they were.
pub proof fn lemma_shift_fills_stages(
    board: Board,
    bits: nat,
    num: u64,
    msb_first: bool,
    steps: nat,
)
    requires
        board.wf(),
        !board.clock,
        steps <= bits,
    ensures
        ({
            let after = board.run(
                shift_prefix(
                    OutputLine::SerialData,
                    OutputLine::SerialClock,
                    bits,
                    num,
                    msb_first,
                    steps,
                ),
            );
            &&& after.wf()
            &&& !after.clock
            &&& after.latch == board.latch
            &&& after.select == board.select
            &&& after.outputs == board.outputs
            &&& forall|j: int|
                0 <= j < steps && j < STAGES ==> after.stages[j] == bit_is_set(
                    num,
                    bit_index(bits, (steps - 1 - j) as nat, msb_first) as u64,
                )
            &&& forall|j: int|
                steps <= j < STAGES ==> after.stages[j] == board.stages[j - steps]
            &&& after.data == if steps == 0 {
                board.data
            } else {
                bit_is_set(num, bit_index(bits, (steps - 1) as nat, msb_first) as u64)
            }
        }),
    decreases steps,
{
    if steps > 0 {
        let step = (steps - 1) as nat;
        let earlier = shift_prefix(
            OutputLine::SerialData,
            OutputLine::SerialClock,
            bits,
            num,
            msb_first,
            step,
        );
        let high = bit_is_set(num, bit_index(bits, step, msb_first) as u64);
        let last = bit_signals(OutputLine::SerialData, OutputLine::SerialClock, high);
        lemma_shift_fills_stages(board, bits, num, msb_first, step);
        lemma_run_concat(board, earlier, last);
        lemma_bit_shifted_in(board.run(earlier), high);
    }
}

/// Whatever the board held, once a byte is written from a low clock and a
/// low latch, the outputs show that byte, bit 7 on output 7 down to bit 0
/// on output 0, register select is as asked, and clock and latch are low
/// again.
pub proof fn lemma_write_shows_byte(board: Board, mode: LatchMode, data_input: bool, data: u8)
    requires
        board.wf(),
        !board.clock,
        !board.latch,
    ensures
        ({
            let after = board.run(write_signals(mode, data_input, data));
            &&& after.wf()
            &&& after.shows(data)
            &&& after.select == data_input
            &&& !after.clock
            &&& !after.latch
        }),
{
    let select = seq![Signal::Level { line: OutputLine::RegisterSelect, high: data_input }];
    let shift = shift_signals(
        OutputLine::SerialData,
        OutputLine::SerialClock,
        8,
        data as u64,
        true,
    );
    let latch = latch_signals(mode);
    let pulse = pulse_signals(OutputLine::Latch, HOLD_MICROS);
    lemma_run_push(board, Seq::<Signal>::empty(), select[0]);
    assert(select =~= Seq::<Signal>::empty().push(select[0]));
    let selected = board.run(select);
    lemma_run_concat(board, select, shift);
    lemma_shift_fills_stages(selected, 8, data as u64, true, 8);
    let shifted = selected.run(shift);
    lemma_run_concat(board, select + shift, latch);
    lemma_latch_pulse(shifted, HOLD_MICROS);
    let latched = shifted.run(pulse);
    match mode {
        LatchMode::Single => {
            let settle = Signal::WaitMillis { millis: SETTLE_MILLIS };
            lemma_run_push(shifted, pulse, settle);
            assert(latch =~= pulse.push(settle));
        },
        LatchMode::Double => {
            lemma_run_concat(shifted, pulse, pulse);
            lemma_latch_pulse(latched, HOLD_MICROS);
        },
    }
}

/// Two byte writes with the same signals wrote the same byte to the same
/// register of the display.
pub proof fn lemma_write_injective(
    mode: LatchMode,
    data_input: bool,
    data: u8,
    other_input: bool,
    other: u8,
)
    requires
        write_signals(mode, data_input, data) == write_signals(mode, other_input, other),
    ensures
        data_input == other_input,
        data == other,
{
    let low = Seq::new(STAGES as nat, |i: int| false);
    let board = Board {
        data: false,
        clock: false,
        latch: false,
        select: false,
        stages: low,
        outputs: low,
    };
    lemma_write_shows_byte(board, mode, data_input, data);
    lemma_write_shows_byte(board, mode, other_input, other);
    let after = board.run(write_signals(mode, data_input, data));
    assert forall|i: u64| i < 8 implies #[trigger] bit_is_set(data as u64, i) == bit_is_set(
        other as u64,
        i,
    ) by {
        assert(after.outputs[i as int] == bit_is_set(data as u64, i as int as u64));
        assert(after.outputs[i as int] == bit_is_set(other as u64, i as int as u64));
    }
    lemma_same_bits_same_byte(data, other);
}

/// Bytes that agree in each of their eight bits are equal.
pub proof fn lemma_same_bits_same_byte(a: u8, b: u8)
    requires
        forall|i: u64| i < 8 ==> #[trigger] bit_is_set(a as u64, i) == bit_is_set(b as u64, i),
    ensures
        a == b,
{
    let x = a as u64;
    let y = b as u64;
    assert(bit_is_set(x, 0) == bit_is_set(y, 0));
    assert(bit_is_set(x, 1) == bit_is_set(y, 1));
    assert(bit_is_set(x, 2) == bit_is_set(y, 2));
    assert(bit_is_set(x, 3) == bit_is_set(y, 3));
    assert(bit_is_set(x, 4) == bit_is_set(y, 4));
    assert(bit_is_set(x, 5) == bit_is_set(y, 5));
    assert(bit_is_set(x, 6) == bit_is_set(y, 6));
    assert(bit_is_set(x, 7) == bit_is_set(y, 7));
    assert(x == y) by (bit_vector)
        requires
            x < 256,
            y < 256,
            ((x >> 0) & 1 == 1) == ((y >> 0) & 1 == 1),
            ((x >> 1) & 1 == 1) == ((y >> 1) & 1 == 1),
            ((x >> 2) & 1 == 1) == ((y >> 2) & 1 == 1),
            ((x >> 3) & 1 == 1) == ((y >> 3) & 1 == 1),
            ((x >> 4) & 1 == 1) == ((y >> 4) & 1 == 1),
            ((x >> 5) & 1 == 1) == ((y >> 5) & 1 == 1),
            ((x >> 6) & 1 == 1) == ((y >> 6) & 1 == 1),
            ((x >> 7) & 1 == 1) == ((y >> 7) & 1 == 1),
    ;
}

/// Whatever the board held, bringing the display up leaves the outputs
/// showing the last of its instructions, display on without a cursor, with
/// register select, clock and latch low.
pub proof fn lemma_init_settles(board: Board, mode: LatchMode)
    requires
        board.wf(),
    ensures
        ({
            let after = board.run(init_signals(mode));
            &&& after.wf()
            &&& after.shows(0x0C)
            &&& !after.select
            &&& !after.clock
            &&& !after.latch
        }),
{
    let clock_low = Signal::Level { line: OutputLine::SerialClock, high: false };
    let latch_low = Signal::Level { line: OutputLine::Latch, high: false };
    let empty = Seq::<Signal>::empty();
    let lines = empty.push(clock_low).push(latch_low);
    let function_set = write_signals(mode, false, 0x38);
    let clear = write_signals(mode, false, 0x01);
    let home = write_signals(mode, false, 0x02);
    let power = write_signals(mode, false, 0x0C);
    lemma_run_push(board, empty, clock_low);
    lemma_run_push(board, empty.push(clock_low), latch_low);
    lemma_run_concat(board, lines, function_set);
    lemma_write_shows_byte(board.run(lines), mode, false, 0x38);
    lemma_run_concat(board, lines + function_set, clear);
    lemma_write_shows_byte(board.run(lines + function_set), mode, false, 0x01);
    lemma_run_concat(board, lines + function_set + clear, home);
    lemma_write_shows_byte(board.run(lines + function_set + clear), mode, false, 0x02);
    lemma_run_concat(board, lines + function_set + clear + home, power);
    lemma_write_shows_byte(board.run(lines + function_set + clear + home), mode, false, 0x0C);
    assert(init_signals(mode) =~= lines + function_set + clear + home + power);
}

/// From low clock and latch, sending an instruction leaves the outputs
/// showing its byte, register select high for a character and low
/// otherwise, and clock and latch low again.
pub proof fn lemma_instruction_shown(board: Board, mode: LatchMode, instruction: Instruction)
    requires
        board.wf(),
        !board.clock,
        !board.latch,
    ensures
        ({
            let after = board.run(instruction_signals(mode, instruction));
            &&& after.wf()
            &&& after.shows(instruction.byte())
            &&& after.select == instruction.is_data()
            &&& !after.clock
            &&& !after.latch
        }),
{
    lemma_write_shows_byte(board, mode, instruction.is_data(), instruction.byte());
}

/// From low clock and latch, printing a text that is not empty leaves the
/// outputs showing the code of its last character, with register select
/// high; printing any text leaves clock and latch low.
pub proof fn lemma_print_shows_last(board: Board, mode: LatchMode, text: Seq<char>)
    requires
        board.wf(),
        !board.clock,
        !board.latch,
    ensures
        ({
            let after = board.run(print_signals(mode, text));
            &&& after.wf()
            &&& !after.clock
            &&& !after.latch
            &&& text.len() > 0 ==> after.select && after.shows(char_byte(text.last()))
        }),
    decreases text.len(),
{
    if text.len() > 0 {
        let earlier = print_signals(mode, text.drop_last());
        let last = write_signals(mode, true, char_byte(text.last()));
        lemma_print_shows_last(board, mode, text.drop_last());
        lemma_run_concat(board, earlier, last);
        lemma_write_shows_byte(board.run(earlier), mode, true, char_byte(text.last()));
    }
}

} // verus!
