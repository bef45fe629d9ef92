//! The display driver: byte writes through the shift register, and the
//! display's commands on top of them.

use vstd::prelude::*;
use crate::instruction::{
    cell_address,
    ddram_address,
    in_grid,
    lemma_set_address_byte,
    DisplayError,
    Instruction,
    MAX_ADDRESS,
};
use crate::shifter::{
    digital_write,
    lemma_held_concat,
    lemma_pulse_held,
    lemma_shift_held,
    lemma_shift_prefix_len,
    lemma_shift_step,
    levels_held,
    pulse_pin,
    pulse_signals,
    shift_out,
    shift_signals,
    wait_millis,
    HOLD_MICROS,
};
use crate::signal::{OutputLine, Signal};

verus! {

/// Bits in one transmission.
pub const BYTE_BITS: usize = 8;

/// Milliseconds that the display is given to carry out a byte.
pub const SETTLE_MILLIS: u32 = 1;

/// How a byte that stands in the shift register is handed to the display.
#[derive(Clone, Copy, Debug, PartialEq, Eq, Structural)]
pub enum LatchMode {
    /// One latch pulse, then a settle time.
    Single,
    /// Two latch pulses in a row, and no settle time.
    Double,
}

/// The signals that hand the shift register's byte to the display.
pub open spec fn latch_signals(mode: LatchMode) -> Seq<Signal> {
    match mode {
        LatchMode::Single => pulse_signals(OutputLine::Latch, HOLD_MICROS) + seq![
            Signal::WaitMillis { millis: SETTLE_MILLIS },
        ],
        LatchMode::Double => pulse_signals(OutputLine::Latch, HOLD_MICROS) + pulse_signals(
            OutputLine::Latch,
            HOLD_MICROS,
        ),
    }
}

/// The signals of one byte write: register select, the byte's eight bits
/// with the most significant first, and the latch.
pub open spec fn write_signals(mode: LatchMode, data_input: bool, data: u8) -> Seq<Signal> {
    seq![Signal::Level { line: OutputLine::RegisterSelect, high: data_input }] + shift_signals(
        OutputLine::SerialData,
        OutputLine::SerialClock,
        BYTE_BITS as nat,
        data as u64,
        true,
    ) + latch_signals(mode)
}

/// The signals that send one instruction.
pub open spec fn instruction_signals(mode: LatchMode, instruction: Instruction) -> Seq<Signal> {
    write_signals(mode, instruction.is_data(), instruction.byte())
}

/// The signals that bring the display up: clock and latch low, then
/// function set, clear, home, and display on without a cursor.
pub open spec fn init_signals(mode: LatchMode) -> Seq<Signal> {
    seq![
        Signal::Level { line: OutputLine::SerialClock, high: false },
        Signal::Level { line: OutputLine::Latch, high: false },
    ] + instruction_signals(mode, Instruction::FunctionSet) + instruction_signals(
        mode,
        Instruction::Clear,
    ) + instruction_signals(mode, Instruction::Home) + instruction_signals(
        mode,
        Instruction::PowerControl { display_on: true, cursor_on: false, blink_on: false },
    )
}

/// The code under which a character is sent: the low eight bits of its
/// scalar value.
pub open spec fn char_byte(c: char) -> u8 {
    (c as u32 % 0x100) as u8
}

/// The signals that send the characters of `text` in order.
pub open spec fn print_signals(mode: LatchMode, text: Seq<char>) -> Seq<Signal>
    decreases text.len(),
{
    if text.len() == 0 {
        Seq::empty()
    } else {
        print_signals(mode, text.drop_last()) + instruction_signals(
            mode,
            Instruction::WriteChar { byte: char_byte(text.last()) },
        )
    }
}

/// A character display behind a shift register.
///
/// The driver holds no picture of what the display shows. It collects the
/// signals of the commands given to it until they are taken for playing.
pub struct Lcd {
    latch_mode: LatchMode,
    pending: Vec<Signal>,
}

impl Lcd {
    /// The signals collected and not yet taken, oldest first.
    pub closed spec fn signals(&self) -> Seq<Signal> {
        self.pending@
    }

    /// The latch mode that the driver was made with.
    pub closed spec fn mode(&self) -> LatchMode {
        self.latch_mode
    }

    /// A driver with nothing to play.
    pub fn new(latch_mode: LatchMode) -> (lcd: Lcd)
        ensures
            lcd.mode() == latch_mode,
            lcd.signals() == Seq::<Signal>::empty(),
    {
        Lcd { latch_mode, pending: Vec::new() }
    }

    /// The latch mode that the driver was made with.
    pub fn latch_mode(&self) -> (mode: LatchMode)
        ensures
            mode == self.mode(),
    {
        self.latch_mode
    }

    /// Hands out the collected signals and starts over with none.
    pub fn take_signals(&mut self) -> (taken: Vec<Signal>)
        ensures
            taken@ == old(self).signals(),
            final(self).signals() == Seq::<Signal>::empty(),
            final(self).mode() == old(self).mode(),
    {
        let mut taken: Vec<Signal> = Vec::new();
        std::mem::swap(&mut self.pending, &mut taken);
        taken
    }

    /// Writes a byte to the display; `data_input` sets the register select
    /// line.
    pub fn write(&mut self, data_input: bool, data: u8)
        ensures
            final(self).signals() == old(self).signals() + write_signals(
                old(self).mode(),
                data_input,
                data,
            ),
            final(self).mode() == old(self).mode(),
    {
        let ghost before = self.pending@;
        digital_write(&mut self.pending, OutputLine::RegisterSelect, data_input);
        shift_out(
            &mut self.pending,
            OutputLine::SerialData,
            OutputLine::SerialClock,
            BYTE_BITS,
            data as u64,
            true,
        );
        // The latch moves the byte to the register's outputs, and the
        // display reads its bus on the same line.
        pulse_pin(&mut self.pending, OutputLine::Latch, HOLD_MICROS);
        match self.latch_mode {
            LatchMode::Single => {
                wait_millis(&mut self.pending, SETTLE_MILLIS);
            },
            LatchMode::Double => {
                pulse_pin(&mut self.pending, OutputLine::Latch, HOLD_MICROS);
            },
        }
        assert(self.pending@ =~= before + write_signals(self.latch_mode, data_input, data));
    }

    /// Sends one instruction, or refuses one that is not well formed.
    pub fn execute(&mut self, instruction: Instruction) -> (done: Result<(), DisplayError>)
        ensures
            final(self).mode() == old(self).mode(),
            instruction.wf() ==> done is Ok && final(self).signals() == old(self).signals()
                + instruction_signals(old(self).mode(), instruction),
            !instruction.wf() ==> done == Err::<(), DisplayError>(DisplayError::AddressOutOfRange)
                && final(self).signals() == old(self).signals(),
    {
        if let Instruction::SetAddress { address } = instruction {
            if address > MAX_ADDRESS {
                return Err(DisplayError::AddressOutOfRange);
            }
        }
        self.send(instruction);
        Ok(())
    }

    fn send(&mut self, instruction: Instruction)
        requires
            instruction.wf(),
        ensures
            final(self).signals() == old(self).signals() + instruction_signals(
                old(self).mode(),
                instruction,
            ),
            final(self).mode() == old(self).mode(),
    {
        self.write(instruction.register_select(), instruction.encode());
    }

    /// Brings the display up: eight-bit bus, two lines, five-by-eight dots;
    /// cleared, cursor home, display on and cursor hidden.
    pub fn init(&mut self)
        ensures
            final(self).signals() == old(self).signals() + init_signals(old(self).mode()),
            final(self).mode() == old(self).mode(),
    {
        let ghost before = self.pending@;
        digital_write(&mut self.pending, OutputLine::SerialClock, false);
        digital_write(&mut self.pending, OutputLine::Latch, false);
        self.send(Instruction::FunctionSet);
        self.clear();
        self.home();
        self.power(true, false, false);
        assert(self.pending@ =~= before + init_signals(self.latch_mode));
    }

    /// Turns the display, the cursor and the cursor's blinking on or off.
    pub fn power(&mut self, display_on: bool, cursor_on: bool, cursor_position_on: bool)
        ensures
            final(self).signals() == old(self).signals() + instruction_signals(
                old(self).mode(),
                Instruction::PowerControl { display_on, cursor_on, blink_on: cursor_position_on },
            ),
            final(self).mode() == old(self).mode(),
    {
        self.send(
            Instruction::PowerControl { display_on, cursor_on, blink_on: cursor_position_on },
        );
    }

    /// Clears the display.
    pub fn clear(&mut self)
        ensures
            final(self).signals() == old(self).signals() + instruction_signals(
                old(self).mode(),
                Instruction::Clear,
            ),
            final(self).mode() == old(self).mode(),
    {
        self.send(Instruction::Clear);
    }

    /// Homes the cursor.
    pub fn home(&mut self)
        ensures
            final(self).signals() == old(self).signals() + instruction_signals(
                old(self).mode(),
                Instruction::Home,
            ),
            final(self).mode() == old(self).mode(),
    {
        self.send(Instruction::Home);
    }

    /// Shifts the cursor, or the display, once in the given direction.
    pub fn shift(&mut self, shift_display: bool, shift_right: bool)
        ensures
            final(self).signals() == old(self).signals() + instruction_signals(
                old(self).mode(),
                Instruction::Shift { shift_display, shift_right },
            ),
            final(self).mode() == old(self).mode(),
    {
        self.send(Instruction::Shift { shift_display, shift_right });
    }

    /// Sets the display-data address, which is where the cursor stands, or
    /// refuses an address that the display does not have.
    pub fn set_ddram(&mut self, ddram_address: u8) -> (done: Result<(), DisplayError>)
        ensures
            final(self).mode() == old(self).mode(),
            ddram_address <= MAX_ADDRESS ==> done is Ok && final(self).signals() == old(
                self,
            ).signals() + instruction_signals(
                old(self).mode(),
                Instruction::SetAddress { address: ddram_address },
            ),
            ddram_address > MAX_ADDRESS ==> done == Err::<(), DisplayError>(
                DisplayError::AddressOutOfRange,
            ) && final(self).signals() == old(self).signals(),
    {
        self.execute(Instruction::SetAddress { address: ddram_address })
    }

    /// Puts the cursor on the cell in column `new_position[0]` of row
    /// `new_position[1]`, or refuses a position that is no cell.
    pub fn set_cursor(&mut self, new_position: [u8; 2]) -> (done: Result<(), DisplayError>)
        ensures
            final(self).mode() == old(self).mode(),
            in_grid(new_position[0], new_position[1]) ==> done is Ok && final(self).signals()
                == old(self).signals() + instruction_signals(
                old(self).mode(),
                Instruction::SetAddress {
                    address: cell_address(new_position[0], new_position[1]),
                },
            ),
            !in_grid(new_position[0], new_position[1]) ==> done == Err::<(), DisplayError>(
                DisplayError::PositionOutOfRange,
            ) && final(self).signals() == old(self).signals(),
    {
        match ddram_address(new_position[0], new_position[1]) {
            Ok(address) => self.set_ddram(address),
            Err(refused) => Err(refused),
        }
    }

    /// Prints a string to the display, one character after the other.
    pub fn print(&mut self, string: &str)
        ensures
            final(self).signals() == old(self).signals() + print_signals(
                old(self).mode(),
                string@,
            ),
            final(self).mode() == old(self).mode(),
    {
        for c in iter: string.chars()
            invariant
                iter.seq() == string@,
                self.latch_mode == old(self).latch_mode,
                self.pending@ == old(self).pending@ + print_signals(
                    self.latch_mode,
                    string@.take(iter.index()),
                ),
        {
            let ghost sent = string@.take(iter.index());
            let ghost next = string@.take(iter.index() + 1);
            let scalar: u32 = c as u32;
            let code: u8 = #[verifier::truncate] (scalar as u8);
            assert(scalar as u8 == scalar % 0x100) by (bit_vector);
            self.write(true, code);
            assert(next.drop_last() =~= sent && next.last() == c);
        }
        assert(string@.take(string@.len() as int) =~= string@);
    }
}

/// One byte write takes the register select level, forty-eight signals for
/// the eight bits, and five or eight for the latch.
pub proof fn lemma_write_len(mode: LatchMode, data_input: bool, data: u8)
    ensures
        write_signals(mode, data_input, data).len() == match mode {
            LatchMode::Single => 54nat,
            LatchMode::Double => 57nat,
        },
        write_signals(mode, data_input, data)[0] == (Signal::Level {
            line: OutputLine::RegisterSelect,
            high: data_input,
        }),
{
    lemma_shift_prefix_len(
        OutputLine::SerialData,
        OutputLine::SerialClock,
        8,
        data as u64,
        true,
        8,
    );
}

/// Clearing sends the byte 0x01 and homing the byte 0x02, both as
/// instructions, whatever was sent before: a second clear or home appends
/// the signals that the first one did.
pub proof fn lemma_clear_home_repeat(mode: LatchMode, sent: Seq<Signal>)
    ensures
        instruction_signals(mode, Instruction::Clear) == write_signals(mode, false, 0x01),
        instruction_signals(mode, Instruction::Home) == write_signals(mode, false, 0x02),
        ({
            let clear = instruction_signals(mode, Instruction::Clear);
            let once = sent + clear;
            let twice = once + clear;
            &&& once.subrange(sent.len() as int, once.len() as int) == clear
            &&& twice.subrange(once.len() as int, twice.len() as int) == clear
        }),
        ({
            let home = instruction_signals(mode, Instruction::Home);
            let once = sent + home;
            let twice = once + home;
            &&& once.subrange(sent.len() as int, once.len() as int) == home
            &&& twice.subrange(once.len() as int, twice.len() as int) == home
        }),
{
}

/// Bringing the display up sends, as instructions and in this order, the
/// bytes 0x38, 0x01, 0x02 and 0x0C, after driving clock and latch low.
pub proof fn lemma_init_bytes(mode: LatchMode)
    ensures
        init_signals(mode) == seq![
            Signal::Level { line: OutputLine::SerialClock, high: false },
            Signal::Level { line: OutputLine::Latch, high: false },
        ] + write_signals(mode, false, 0x38) + write_signals(mode, false, 0x01) + write_signals(
            mode,
            false,
            0x02,
        ) + write_signals(mode, false, 0x0C),
{
}

/// The instruction that puts the cursor on a cell of the display is well
/// formed, and its byte is the cell's address with the top bit set.
pub proof fn lemma_cursor_byte(column: u8, row: u8)
    requires
        in_grid(column, row),
    ensures
        (Instruction::SetAddress { address: cell_address(column, row) }).wf(),
        (Instruction::SetAddress { address: cell_address(column, row) }).byte() == 0x80u8
            | cell_address(column, row),
        (Instruction::SetAddress { address: cell_address(column, row) }).byte() == 0x80 + 0x40
            * row + column,
{
    lemma_set_address_byte(cell_address(column, row));
}

/// Printing a text in two parts sends what printing it whole sends.
pub proof fn lemma_print_concat(mode: LatchMode, first: Seq<char>, second: Seq<char>)
    ensures
        print_signals(mode, first + second) == print_signals(mode, first) + print_signals(
            mode,
            second,
        ),
    decreases second.len(),
{
    if second.len() == 0 {
        assert(first + second =~= first);
    } else {
        lemma_print_concat(mode, first, second.drop_last());
        assert((first + second).drop_last() =~= first + second.drop_last());
    }
}

/// Printing sends one data byte for each character, so as many signals as
/// that many byte writes take.
pub proof fn lemma_print_len(mode: LatchMode, text: Seq<char>)
    ensures
        print_signals(mode, text).len() == text.len() * write_signals(mode, true, 0).len(),
    decreases text.len(),
{
    lemma_write_len(mode, true, 0);
    if text.len() > 0 {
        lemma_print_len(mode, text.drop_last());
        lemma_write_len(mode, true, char_byte(text.last()));
    }
}

/// A byte write sets register select first and never again, and holds
/// every level on the other lines: register select is stable from before
/// the first bit until after the latch.
pub proof fn lemma_write_held(mode: LatchMode, data_input: bool, data: u8)
    ensures
        levels_held(write_signals(mode, data_input, data)),
        forall|i: int|
            0 < i < write_signals(mode, data_input, data).len() ==> !(#[trigger] write_signals(
                mode,
                data_input,
                data,
            )[i] matches Signal::Level { line: OutputLine::RegisterSelect, .. }),
{
    let select = seq![Signal::Level { line: OutputLine::RegisterSelect, high: data_input }];
    let shift = shift_signals(
        OutputLine::SerialData,
        OutputLine::SerialClock,
        8,
        data as u64,
        true,
    );
    let latch = latch_signals(mode);
    let whole = write_signals(mode, data_input, data);
    lemma_shift_held(OutputLine::SerialData, OutputLine::SerialClock, 8, data as u64, true, 8);
    lemma_pulse_held(OutputLine::Latch, HOLD_MICROS);
    lemma_held_concat(select, shift);
    lemma_held_concat(select + shift, latch);
    lemma_shift_prefix_len(
        OutputLine::SerialData,
        OutputLine::SerialClock,
        8,
        data as u64,
        true,
        8,
    );
    assert forall|i: int| 0 < i < whole.len() implies !(#[trigger] whole[i] matches Signal::Level {
        line: OutputLine::RegisterSelect,
        ..
    }) by {
        if i < 49 {
            let step = ((i - 1) / 6) as nat;
            lemma_shift_step(
                OutputLine::SerialData,
                OutputLine::SerialClock,
                8,
                data as u64,
                true,
                step,
            );
            let block = shift.subrange((6 * step) as int, (6 * step + 6) as int);
            assert(whole[i] == shift[i - 1]);
            assert(shift[i - 1] == block[i - 1 - 6 * step]);
        } else {
            assert(whole[i] == latch[i - 49]);
        }
    }
}

/// Printing holds every level on the data, clock and latch lines.
pub proof fn lemma_print_held(mode: LatchMode, text: Seq<char>)
    ensures
        levels_held(print_signals(mode, text)),
    decreases text.len(),
{
    if text.len() > 0 {
        lemma_print_held(mode, text.drop_last());
        lemma_write_held(mode, true, char_byte(text.last()));
        lemma_held_concat(
            print_signals(mode, text.drop_last()),
            write_signals(mode, true, char_byte(text.last())),
        );
    }
}

} // verus!
