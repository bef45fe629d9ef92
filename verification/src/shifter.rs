//! Serialising a number onto a data line, one clock pulse per bit, and
//! pulsing a line.

use vstd::prelude::*;
use crate::bits::{bit_is_set, bit_on};
use crate::signal::{OutputLine, Signal};

verus! {

/// Microseconds for which a level is held before the next edge.
pub const HOLD_MICROS: u32 = 1;

/// The signals of one pulse: high, hold, low, hold.
pub open spec fn pulse_signals(line: OutputLine, micros: u32) -> Seq<Signal> {
    seq![
        Signal::Level { line, high: true },
        Signal::WaitMicros { micros },
        Signal::Level { line, high: false },
        Signal::WaitMicros { micros },
    ]
}

/// The signals that shift one bit in: the data level, its hold time, and
/// one clock pulse.
pub open spec fn bit_signals(data: OutputLine, clock: OutputLine, high: bool) -> Seq<Signal> {
    seq![Signal::Level { line: data, high }, Signal::WaitMicros { micros: HOLD_MICROS }]
        + pulse_signals(clock, HOLD_MICROS)
}

/// The index of the bit that goes out at step `step` of `bits` steps.
pub open spec fn bit_index(bits: nat, step: nat, msb_first: bool) -> nat {
    if msb_first {
        (bits - 1 - step) as nat
    } else {
        step
    }
}

/// The signals of the first `steps` steps of shifting out the low `bits`
/// bits of `num`.
pub open spec fn shift_prefix(
    data: OutputLine,
    clock: OutputLine,
    bits: nat,
    num: u64,
    msb_first: bool,
    steps: nat,
) -> Seq<Signal>
    decreases steps,
{
    if steps == 0 {
        Seq::empty()
    } else {
        let step = (steps - 1) as nat;
        shift_prefix(data, clock, bits, num, msb_first, step) + bit_signals(
            data,
            clock,
            bit_is_set(num, bit_index(bits, step, msb_first) as u64),
        )
    }
}

/// The signals that shift out the low `bits` bits of `num`.
pub open spec fn shift_signals(
    data: OutputLine,
    clock: OutputLine,
    bits: nat,
    num: u64,
    msb_first: bool,
) -> Seq<Signal> {
    shift_prefix(data, clock, bits, num, msb_first, bits)
}

/// Writes a low or high state to the given line.
pub fn digital_write(trace: &mut Vec<Signal>, pin: OutputLine, high: bool)
    ensures
        final(trace)@ == old(trace)@.push(Signal::Level { line: pin, high }),
{
    trace.push(Signal::Level { line: pin, high });
}

/// Lets `micro_seconds` microseconds pass.
pub fn wait_micros(trace: &mut Vec<Signal>, micro_seconds: u32)
    ensures
        final(trace)@ == old(trace)@.push(Signal::WaitMicros { micros: micro_seconds }),
{
    trace.push(Signal::WaitMicros { micros: micro_seconds });
}

/// Lets `milli_seconds` milliseconds pass.
pub fn wait_millis(trace: &mut Vec<Signal>, milli_seconds: u32)
    ensures
        final(trace)@ == old(trace)@.push(Signal::WaitMillis { millis: milli_seconds }),
{
    trace.push(Signal::WaitMillis { millis: milli_seconds });
}

/// Sets a line high, waits `micro_seconds`, sets the line low, waits
/// `micro_seconds`.
pub fn pulse_pin(trace: &mut Vec<Signal>, pin: OutputLine, micro_seconds: u32)
    ensures
        final(trace)@ == old(trace)@ + pulse_signals(pin, micro_seconds),
{
    digital_write(trace, pin, true);
    wait_micros(trace, micro_seconds);
    digital_write(trace, pin, false);
    wait_micros(trace, micro_seconds);
}

/// Shifts the low `bits` bits of `num` into the shift register, the most
/// significant of them first if `msbfirst` is set, the least significant
/// first otherwise.
pub fn shift_out(
    trace: &mut Vec<Signal>,
    data_pin: OutputLine,
    clock_pin: OutputLine,
    bits: usize,
    num: u64,
    msbfirst: bool,
)
    requires
        bits <= 64,
    ensures
        final(trace)@ == old(trace)@ + shift_signals(
            data_pin,
            clock_pin,
            bits as nat,
            num,
            msbfirst,
        ),
{
    let mut i: usize = 0;
    while i < bits
        invariant
            i <= bits <= 64,
            trace@ == old(trace)@ + shift_prefix(
                data_pin,
                clock_pin,
                bits as nat,
                num,
                msbfirst,
                i as nat,
            ),
        decreases bits - i,
    {
        let ghost before = trace@;
        let index: usize = if msbfirst {
            bits - 1 - i
        } else {
            i
        };
        let high: bool = bit_on(num, index);
        digital_write(trace, data_pin, high);
        wait_micros(trace, HOLD_MICROS);  // data hold time
        pulse_pin(trace, clock_pin, HOLD_MICROS);
        assert(trace@ =~= before + bit_signals(data_pin, clock_pin, high));
        assert(index == bit_index(bits as nat, i as nat, msbfirst));
        i += 1;
    }
}

/// Each step takes six signals, so the first `steps` steps take six times
/// `steps`.
pub proof fn lemma_shift_prefix_len(
    data: OutputLine,
    clock: OutputLine,
    bits: nat,
    num: u64,
    msb_first: bool,
    steps: nat,
)
    ensures
        shift_prefix(data, clock, bits, num, msb_first, steps).len() == 6 * steps,
    decreases steps,
{
    if steps > 0 {
        lemma_shift_prefix_len(data, clock, bits, num, msb_first, (steps - 1) as nat);
    }
}

/// Step `step` of shifting out stands at signals `6 * step` to
/// `6 * step + 5`: the level of the bit whose turn it is on the data line,
/// the hold time, and one clock pulse, high then low.
pub proof fn lemma_shift_step(
    data: OutputLine,
    clock: OutputLine,
    bits: nat,
    num: u64,
    msb_first: bool,
    step: nat,
)
    requires
        step < bits,
    ensures
        shift_signals(data, clock, bits, num, msb_first).len() == 6 * bits,
        shift_signals(data, clock, bits, num, msb_first).subrange((6 * step) as int, (6 * step + 6) as int)
            == bit_signals(
            data,
            clock,
            bit_is_set(num, bit_index(bits, step, msb_first) as u64),
        ),
{
    lemma_shift_prefix_len(data, clock, bits, num, msb_first, bits);
    lemma_shift_prefix_step(data, clock, bits, num, msb_first, bits, step);
}

proof fn lemma_shift_prefix_step(
    data: OutputLine,
    clock: OutputLine,
    bits: nat,
    num: u64,
    msb_first: bool,
    steps: nat,
    step: nat,
)
    requires
        step < steps,
    ensures
        shift_prefix(data, clock, bits, num, msb_first, steps).subrange((6 * step) as int, (6 * step + 6) as int)
            =~= bit_signals(
            data,
            clock,
            bit_is_set(num, bit_index(bits, step, msb_first) as u64),
        ),
    decreases steps,
{
    let earlier = shift_prefix(data, clock, bits, num, msb_first, (steps - 1) as nat);
    lemma_shift_prefix_len(data, clock, bits, num, msb_first, (steps - 1) as nat);
    lemma_shift_prefix_len(data, clock, bits, num, msb_first, steps);
    if step < steps - 1 {
        lemma_shift_prefix_step(data, clock, bits, num, msb_first, (steps - 1) as nat, step);
        assert(shift_prefix(data, clock, bits, num, msb_first, steps).subrange(
            (6 * step) as int,
            (6 * step + 6) as int,
        ) =~= earlier.subrange((6 * step) as int, (6 * step + 6) as int));
    }
}

/// A byte that is shifted out most significant bit first goes out as its
/// bits 7, 6, 5, 4, 3, 2, 1, 0: eight data levels, each followed by its
/// hold time and one clock pulse, and nothing else.
pub proof fn lemma_byte_msb_first(data: OutputLine, clock: OutputLine, byte: u8)
    ensures
        shift_signals(data, clock, 8, byte as u64, true) == bit_signals(
            data,
            clock,
            bit_is_set(byte as u64, 7),
        ) + bit_signals(data, clock, bit_is_set(byte as u64, 6)) + bit_signals(
            data,
            clock,
            bit_is_set(byte as u64, 5),
        ) + bit_signals(data, clock, bit_is_set(byte as u64, 4)) + bit_signals(
            data,
            clock,
            bit_is_set(byte as u64, 3),
        ) + bit_signals(data, clock, bit_is_set(byte as u64, 2)) + bit_signals(
            data,
            clock,
            bit_is_set(byte as u64, 1),
        ) + bit_signals(data, clock, bit_is_set(byte as u64, 0)),
{
    reveal_with_fuel(shift_prefix, 9);
    assert(shift_prefix(data, clock, 8, byte as u64, true, 0) + bit_signals(
        data,
        clock,
        bit_is_set(byte as u64, 7),
    ) =~= bit_signals(data, clock, bit_is_set(byte as u64, 7)));
}

/// Least significant bit first, the same byte goes out as its bits 0 to 7.
pub proof fn lemma_byte_lsb_first(data: OutputLine, clock: OutputLine, byte: u8)
    ensures
        shift_signals(data, clock, 8, byte as u64, false) == bit_signals(
            data,
            clock,
            bit_is_set(byte as u64, 0),
        ) + bit_signals(data, clock, bit_is_set(byte as u64, 1)) + bit_signals(
            data,
            clock,
            bit_is_set(byte as u64, 2),
        ) + bit_signals(data, clock, bit_is_set(byte as u64, 3)) + bit_signals(
            data,
            clock,
            bit_is_set(byte as u64, 4),
        ) + bit_signals(data, clock, bit_is_set(byte as u64, 5)) + bit_signals(
            data,
            clock,
            bit_is_set(byte as u64, 6),
        ) + bit_signals(data, clock, bit_is_set(byte as u64, 7)),
{
    reveal_with_fuel(shift_prefix, 9);
    assert(shift_prefix(data, clock, 8, byte as u64, false, 0) + bit_signals(
        data,
        clock,
        bit_is_set(byte as u64, 0),
    ) =~= bit_signals(data, clock, bit_is_set(byte as u64, 0)));
}

/// Whether `signal` is a wait of at least the hold time.
pub open spec fn is_hold(signal: Signal) -> bool {
    signal matches Signal::WaitMicros { micros } && micros >= HOLD_MICROS
}

/// Whether every level in `trace` on the data, clock or latch line is held:
/// the next signal is a wait of at least the hold time, so no two of these
/// lines change together.
pub open spec fn levels_held(trace: Seq<Signal>) -> bool {
    forall|i: int|
        0 <= i < trace.len() && (#[trigger] trace[i] matches Signal::Level { line, .. } && line
            != OutputLine::RegisterSelect) ==> i + 1 < trace.len() && is_hold(trace[i + 1])
}

/// Traces that hold their levels still do so when joined.
pub proof fn lemma_held_concat(first: Seq<Signal>, second: Seq<Signal>)
    requires
        levels_held(first),
        levels_held(second),
    ensures
        levels_held(first + second),
{
    let joined = first + second;
    assert forall|i: int|
        0 <= i < joined.len() && (#[trigger] joined[i] matches Signal::Level { line, .. } && line
            != OutputLine::RegisterSelect) implies i + 1 < joined.len() && is_hold(
        joined[i + 1],
    ) by {
        if i < first.len() {
            assert(joined[i] == first[i]);
            assert(joined[i + 1] == first[i + 1]);
        } else {
            assert(joined[i] == second[i - first.len()]);
            assert(joined[i + 1] == second[i - first.len() + 1]);
        }
    }
}

/// A pulse of at least the hold time holds both of its levels.
pub proof fn lemma_pulse_held(line: OutputLine, micros: u32)
    requires
        micros >= HOLD_MICROS,
    ensures
        levels_held(pulse_signals(line, micros)),
{
}

/// Shifting out holds every level: the data is stable for the hold time
/// before the clock rises, and the clock stays high, and then low, for the
/// hold time.
pub proof fn lemma_shift_held(
    data: OutputLine,
    clock: OutputLine,
    bits: nat,
    num: u64,
    msb_first: bool,
    steps: nat,
)
    ensures
        levels_held(shift_prefix(data, clock, bits, num, msb_first, steps)),
    decreases steps,
{
    if steps > 0 {
        let step = (steps - 1) as nat;
        lemma_shift_held(data, clock, bits, num, msb_first, step);
        lemma_held_concat(
            shift_prefix(data, clock, bits, num, msb_first, step),
            bit_signals(data, clock, bit_is_set(num, bit_index(bits, step, msb_first) as u64)),
        );
    }
}

} // verus!
