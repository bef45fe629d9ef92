//! The instruction set of the display, and where a cursor position lies in
//! its display-data memory.

use vstd::prelude::*;

verus! {

/// Columns of the display.
pub const COLUMNS: u8 = 16;

/// Rows of the display.
pub const ROWS: u8 = 2;

/// The highest address of the display-data memory.
pub const MAX_ADDRESS: u8 = 0x7F;

/// What the driver refuses to send.
#[derive(Clone, Copy, Debug, PartialEq, Eq, Structural)]
pub enum DisplayError {
    /// A display-data address above `MAX_ADDRESS`.
    AddressOutOfRange,
    /// A cursor position outside the grid of `COLUMNS` by `ROWS` cells.
    PositionOutOfRange,
}

/// One byte for the display: an instruction, or a character to show.
#[derive(Clone, Copy, Debug, PartialEq, Eq, Structural)]
pub enum Instruction {
    /// Eight-bit bus, two display lines, five-by-eight dot font.
    FunctionSet,
    /// Blank the display.
    Clear,
    /// Move the cursor to the first cell.
    Home,
    /// Switch the display, the cursor and the cursor's blinking on or off.
    PowerControl { display_on: bool, cursor_on: bool, blink_on: bool },
    /// Move the display or the cursor by one cell, to the right or the left.
    Shift { shift_display: bool, shift_right: bool },
    /// Set the address at which the next character lands.
    SetAddress { address: u8 },
    /// Show the character with code `byte` and advance.
    WriteChar { byte: u8 },
}

/// One if `flag` is set, zero otherwise.
pub open spec fn flag_bit(flag: bool) -> int {
    if flag {
        1
    } else {
        0
    }
}

impl Instruction {
    /// An address instruction is well formed if its address exists; every
    /// other instruction is.
    pub open spec fn wf(self) -> bool {
        self matches Instruction::SetAddress { address } ==> address <= MAX_ADDRESS
    }

    /// Whether the byte goes to the display's data register rather than to
    /// its instruction register.
    pub open spec fn is_data(self) -> bool {
        self is WriteChar
    }

    /// The byte that stands for the instruction on the display's bus.
    pub open spec fn byte(self) -> u8 {
        match self {
            Instruction::FunctionSet => 0x38,
            Instruction::Clear => 0x01,
            Instruction::Home => 0x02,
            Instruction::PowerControl { display_on, cursor_on, blink_on } => (0x08 + 4 * flag_bit(
                display_on,
            ) + 2 * flag_bit(cursor_on) + flag_bit(blink_on)) as u8,
            Instruction::Shift { shift_display, shift_right } => (0x10 + 8 * flag_bit(
                shift_display,
            ) + 4 * flag_bit(shift_right)) as u8,
            Instruction::SetAddress { address } => (0x80 + address % 0x80) as u8,
            Instruction::WriteChar { byte } => byte,
        }
    }

    /// Whether the byte is to be sent with register select high.
    pub fn register_select(&self) -> (select: bool)
        ensures
            select == self.is_data(),
    {
        match self {
            Instruction::WriteChar { .. } => true,
            _ => false,
        }
    }

    /// Encodes the instruction as the byte to put on the bus.
    pub fn encode(&self) -> (byte: u8)
        ensures
            byte == self.byte(),
    {
        match *self {
            Instruction::FunctionSet => 0b0011_1000,
            Instruction::Clear => 0b0000_0001,
            Instruction::Home => 0b0000_0010,
            Instruction::PowerControl { display_on, cursor_on, blink_on } => {
                let mut write_byte: u8 = 0b0000_1000;
                if display_on {
                    write_byte += 0b0000_0100;
                }
                if cursor_on {
                    write_byte += 0b0000_0010;
                }
                if blink_on {
                    write_byte += 0b0000_0001;
                }
                write_byte
            },
            Instruction::Shift { shift_display, shift_right } => {
                let mut write_byte: u8 = 0b0001_0000;
                if shift_display {
                    write_byte += 0b0000_1000;
                }
                if shift_right {
                    write_byte += 0b0000_0100;
                }
                write_byte
            },
            Instruction::SetAddress { address } => {
                assert(0x80u8 | address == 0x80 + address % 0x80) by (bit_vector);
                0b1000_0000 | address
            },
            Instruction::WriteChar { byte } => byte,
        }
    }
}

/// The set-address byte is the address with the top bit set; for an address
/// that exists that is the address plus 0x80.
pub proof fn lemma_set_address_byte(address: u8)
    ensures
        (Instruction::SetAddress { address }).byte() == 0x80u8 | address,
        address <= MAX_ADDRESS ==> (Instruction::SetAddress { address }).byte() == 0x80 + address,
{
    assert(0x80u8 | address == 0x80 + address % 0x80) by (bit_vector);
}

/// Two well-formed instructions that go to the same register as the same
/// byte are the same instruction.
pub proof fn lemma_encoding_injective(a: Instruction, b: Instruction)
    requires
        a.wf(),
        b.wf(),
        a.is_data() == b.is_data(),
        a.byte() == b.byte(),
    ensures
        a == b,
{
}

/// Whether column `column` of row `row` is a cell of the display.
pub open spec fn in_grid(column: u8, row: u8) -> bool {
    column < COLUMNS && row < ROWS
}

/// The display-data address of a cell: the rows start 0x40 apart.
pub open spec fn cell_address(column: u8, row: u8) -> u8 {
    (0x40 * row + column) as u8
}

/// Looks up the display-data address of the cell in column `column` of row
/// `row`, or refuses a position that is no cell.
pub fn ddram_address(column: u8, row: u8) -> (found: Result<u8, DisplayError>)
    ensures
        in_grid(column, row) ==> found == Ok::<u8, DisplayError>(cell_address(column, row)),
        !in_grid(column, row) ==> found == Err::<u8, DisplayError>(
            DisplayError::PositionOutOfRange,
        ),
{
    // Other displays have other, and more or fewer, addresses.
    let ddram_addresses: [[u8; 16]; 2] = [
        [0x00, 0x01, 0x02, 0x03, 0x04, 0x05, 0x06, 0x07, 0x08, 0x09, 0x0A, 0x0B, 0x0C, 0x0D, 0x0E, 0x0F],
        [0x40, 0x41, 0x42, 0x43, 0x44, 0x45, 0x46, 0x47, 0x48, 0x49, 0x4A, 0x4B, 0x4C, 0x4D, 0x4E, 0x4F],
    ];
    if column >= COLUMNS || row >= ROWS {
        return Err(DisplayError::PositionOutOfRange);
    }
    let address: u8 = ddram_addresses[row as usize][column as usize];
    Ok(address)
}

/// Distinct cells have distinct addresses, and every cell's address exists.
pub proof fn lemma_cell_address_injective(column_a: u8, row_a: u8, column_b: u8, row_b: u8)
    requires
        in_grid(column_a, row_a),
        in_grid(column_b, row_b),
    ensures
        cell_address(column_a, row_a) <= MAX_ADDRESS,
        cell_address(column_a, row_a) == cell_address(column_b, row_b) ==> column_a == column_b
            && row_a == row_b,
{
}

} // verus!
