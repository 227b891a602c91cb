use vstd::prelude::*;

verus! {

/// Number of segments in the status line's progress bar.
pub const SEGLEN: usize = 10;

/// Elapsed recording time as hours, minutes and seconds.
#[derive(PartialEq, Eq, Structural, Debug, Clone, Copy)]
pub struct Elapsed {
    pub hours: usize,
    pub minutes: usize,
    pub seconds: usize,
}

/// A byte count in the largest decimal unit that is at least one.
#[derive(PartialEq, Eq, Structural, Debug, Clone, Copy)]
pub enum Size {
    /// Whole megabytes and the tenths digit after them.
    Mega(usize, usize),
    /// Whole kilobytes.
    Kilo(usize),
    /// Bytes.
    Bytes(usize),
}

/// How full the pre-buffer is.
#[derive(PartialEq, Eq, Structural, Debug, Clone, Copy)]
pub struct Fill {
    /// Filled segments of the bar, out of `SEGLEN`.
    pub segments: usize,
    /// Whole seconds held.
    pub seconds: usize,
}

/// The time it takes to produce `written` bytes at `rate` bytes per second.
pub fn time_parts(written: usize, rate: usize) -> (r: Elapsed)
    requires
        rate > 0,
    ensures
        r.seconds == (written / rate) % 60,
        r.minutes == (written / rate / 60) % 60,
        r.hours == written / rate / 60 / 60,
{
    let seconds = written / rate;
    let minutes = seconds / 60;
    let hours = minutes / 60;
    Elapsed { hours, minutes: minutes % 60, seconds: seconds % 60 }
}

/// `b` bytes in megabytes with one decimal, in kilobytes, or in bytes, taking
/// 1000 as the step between units and rounding down.
pub fn size_parts(b: usize) -> (r: Size)
    ensures
        b / 1000000 > 0 ==> r == Size::Mega(b / 1000000, (b / 1000) % 1000 / 100),
        b / 1000000 == 0 && b / 1000 > 0 ==> r == Size::Kilo(b / 1000),
        b / 1000 == 0 ==> r == Size::Bytes(b),
{
    let kb = b / 1000;
    let mb = kb / 1000;
    if mb > 0 {
        Size::Mega(mb, kb % 1000 / 100)
    } else if kb > 0 {
        Size::Kilo(kb)
    } else {
        Size::Bytes(b)
    }
}

/// How much of a window of `byte_rate * seconds` bytes the `buffered` bytes
/// fill: in segments of the bar and in whole seconds, rounded down.
pub fn fill_parts(buffered: usize, byte_rate: usize, seconds: usize) -> (r: Fill)
    requires
        byte_rate * seconds > 0,
        buffered <= byte_rate * seconds,
    ensures
        r.segments == SEGLEN * buffered / (byte_rate * seconds),
        r.seconds == seconds * buffered / (byte_rate * seconds),
        r.segments <= SEGLEN,
        r.seconds <= seconds,
{
    proof {
        assert(byte_rate * seconds <= usize::MAX * usize::MAX) by (nonlinear_arith)
            requires
                byte_rate <= usize::MAX,
                seconds <= usize::MAX,
        ;
        assert(seconds * buffered <= usize::MAX * usize::MAX) by (nonlinear_arith)
            requires
                buffered <= usize::MAX,
                seconds <= usize::MAX,
        ;
        assert(usize::MAX * usize::MAX <= u128::MAX) by (nonlinear_arith)
            requires
                usize::MAX < 0x1_0000_0000_0000_0000,
        ;
    }
    let window: u128 = byte_rate as u128 * seconds as u128;
    let segments: u128 = SEGLEN as u128 * buffered as u128 / window;
    let held: u128 = seconds as u128 * buffered as u128 / window;
    proof {
        assert(SEGLEN * buffered <= SEGLEN * window) by (nonlinear_arith)
            requires
                buffered <= window,
        ;
        assert(seconds * buffered <= seconds * window) by (nonlinear_arith)
            requires
                buffered <= window,
        ;
        vstd::arithmetic::div_mod::lemma_div_is_ordered(
            (SEGLEN * buffered) as int,
            (SEGLEN * window) as int,
            window as int,
        );
        vstd::arithmetic::div_mod::lemma_div_multiples_vanish(SEGLEN as int, window as int);
        vstd::arithmetic::div_mod::lemma_div_is_ordered(
            (seconds * buffered) as int,
            (seconds * window) as int,
            window as int,
        );
        vstd::arithmetic::div_mod::lemma_div_multiples_vanish(seconds as int, window as int);
    }
    Fill { segments: segments as usize, seconds: held as usize }
}

} // verus!
