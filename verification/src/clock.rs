//! The unit that waits are measured in: one second, except where a test
//! shortens it.
//!
//! The timeouts, grace windows and polling intervals of a wait all scale with
//! the tick, so a shortened tick drives the same state machine in the same
//! proportions. Lengths of time are counts of nanoseconds.

use crate::text;
use vstd::prelude::*;

verus! {

/// A second, in nanoseconds.
pub const SECOND: u128 = 1_000_000_000;

/// A millisecond, in nanoseconds.
pub const MILLISECOND: u128 = 1_000_000;

/// The whole seconds in a length of time.
pub open spec fn seconds(nanos: int) -> int {
    nanos / 1_000_000_000
}

/// The tick that the value of `VM_TEST_TICK_MS` asks for: that many
/// milliseconds where it is a positive number, else a second.
pub open spec fn tick_of(setting: Option<Seq<char>>) -> nat {
    match setting {
        Some(ms) => match text::parsed(ms, 0x1_0000_0000_0000_0000) {
            Some(n) => if n > 0 {
                n * 1_000_000
            } else {
                1_000_000_000
            },
            None => 1_000_000_000,
        },
        None => 1_000_000_000,
    }
}

/// One tick, given the value of `VM_TEST_TICK_MS`.
pub fn tick(setting: Option<&str>) -> (r: u128)
    ensures
        r == tick_of(text::opt(setting)),
        0 < r <= 0xffff_ffff_ffff_ffff * 1_000_000,
{
    match setting {
        Some(ms) => match text::parse_u64(ms) {
            Some(n) => {
                if n > 0 {
                    n as u128 * MILLISECOND
                } else {
                    SECOND
                }
            },
            None => SECOND,
        },
        None => SECOND,
    }
}

/// `n` ticks, for a tick of any length that [`tick`] gives.
pub fn ticks(tick: u128, n: u32) -> (r: u128)
    requires
        tick <= 0xffff_ffff_ffff_ffff * 1_000_000,
    ensures
        r == tick * n,
{
    assert(tick * n <= 0xffff_ffff_ffff_ffff * 1_000_000 * 0xffff_ffff) by (nonlinear_arith)
        requires
            tick <= 0xffff_ffff_ffff_ffff * 1_000_000,
            0 <= n <= 0xffff_ffff,
    ;
    tick * n as u128
}

/// Waits keep their proportions: with the tick stretched or shrunk, any two of
/// them stand in the same ratio.
pub proof fn ticks_scale_together(tick: nat, other: nat, m: nat, n: nat)
    ensures
        (tick * m) * (other * n) == (tick * n) * (other * m),
{
    assert((tick * m) * (other * n) == (tick * n) * (other * m)) by (nonlinear_arith);
}

/// A tick is a second, unless a number of milliseconds above nothing is asked for.
pub proof fn a_tick_is_a_second_unless_set(ms: nat)
    requires
        ms <= 0xffff_ffff_ffff_ffff,
    ensures
        tick_of(None) == 1_000_000_000,
        ms > 0 ==> tick_of(Some(text::decimal(ms))) == ms * 1_000_000,
        tick_of(Some(text::decimal(0))) == 1_000_000_000,
        tick_of(Some(Seq::empty())) == 1_000_000_000,
{
    text::a_number_reads_back(ms, 0x1_0000_0000_0000_0000);
    text::a_number_reads_back(0, 0x1_0000_0000_0000_0000);
}

/// Whole seconds are those that have passed.
pub proof fn whole_seconds_have_passed(nanos: int)
    requires
        nanos >= 0,
    ensures
        seconds(nanos) * 1_000_000_000 <= nanos < (seconds(nanos) + 1) * 1_000_000_000,
{
}

} // verus!
