use vstd::prelude::*;

verus! {

/// The length of `ticks` song ticks, played at `tempo` hundredths of a tick
/// per second, in twentieths of a second: `2000 * ticks / tempo`, rounded to
/// the nearest whole number with halves rounded up, and capped at `u16::MAX`.
///
/// At tempo zero no time passes for zero ticks, and any other number of
/// ticks lasts for ever, which the cap turns into `u16::MAX`.
pub open spec fn normalized_delay(tempo: u16, ticks: u16) -> u16 {
    if tempo == 0 {
        if ticks == 0 {
            0u16
        } else {
            u16::MAX
        }
    } else {
        let nearest = (4000 * ticks + tempo) / (2 * tempo);
        if nearest > u16::MAX {
            u16::MAX
        } else {
            nearest as u16
        }
    }
}

/// Converts a distance of `tick` song ticks at the song's `tempo` into a
/// delay in twentieths of a second.
pub fn normalize_tick(tempo: u16, tick: u16) -> (delay: u16)
    ensures
        delay == normalized_delay(tempo, tick),
{
    if tempo == 0 {
        if tick == 0 {
            0
        } else {
            u16::MAX
        }
    } else {
        let doubled: u32 = 4000 * (tick as u32) + tempo as u32;
        let nearest: u32 = doubled / (2 * tempo as u32);
        if nearest > 65535 {
            u16::MAX
        } else {
            nearest as u16
        }
    }
}

/// Below the cap the delay is the whole number nearest to
/// `2000 * ticks / tempo`: it lies no more than one half away from it, and
/// where two whole numbers are equally near it is the larger one.
pub proof fn lemma_delay_is_nearest(tempo: u16, ticks: u16)
    requires
        tempo > 0,
        normalized_delay(tempo, ticks) < u16::MAX,
    ensures
        (2 * normalized_delay(tempo, ticks) - 1) * tempo <= 4000 * ticks,
        4000 * ticks < (2 * normalized_delay(tempo, ticks) + 1) * tempo,
{
    let doubled = 4000 * ticks + tempo;
    let divisor = 2 * tempo;
    let nearest = doubled / divisor;
    assert(doubled == divisor * nearest + doubled % divisor && 0 <= doubled % divisor < divisor)
        by (nonlinear_arith)
        requires
            divisor > 0,
            nearest == doubled / divisor,
    ;
    assert((2 * nearest - 1) * tempo == divisor * nearest - tempo) by (nonlinear_arith)
        requires
            divisor == 2 * tempo,
    ;
    assert((2 * nearest + 1) * tempo == divisor * nearest + tempo) by (nonlinear_arith)
        requires
            divisor == 2 * tempo,
    ;
}

/// From the cap on, `2000 * ticks / tempo` is within one half of
/// `u16::MAX` or above it.
pub proof fn lemma_delay_is_capped(tempo: u16, ticks: u16)
    requires
        tempo > 0,
        normalized_delay(tempo, ticks) == u16::MAX,
    ensures
        (2 * u16::MAX - 1) * tempo <= 4000 * ticks,
{
    let doubled = 4000 * ticks + tempo;
    let divisor = 2 * tempo;
    let nearest = doubled / divisor;
    assert(doubled == divisor * nearest + doubled % divisor && 0 <= doubled % divisor < divisor)
        by (nonlinear_arith)
        requires
            divisor > 0,
            nearest == doubled / divisor,
    ;
    assert(divisor * nearest >= (2 * u16::MAX) * tempo) by (nonlinear_arith)
        requires
            divisor == 2 * tempo,
            tempo > 0,
            nearest >= u16::MAX,
    ;
    assert((2 * u16::MAX - 1) * tempo == (2 * u16::MAX) * tempo - tempo) by (nonlinear_arith);
}

/// A song played at twenty ticks per second needs no conversion.
pub proof fn lemma_delay_at_twenty_per_second(ticks: u16)
    ensures
        normalized_delay(2000, ticks) == ticks,
{
    assert((4000 * ticks + 2000) / 4000 == ticks);
}

/// A longer distance never gives a shorter delay.
pub proof fn lemma_delay_is_monotonic(tempo: u16, shorter: u16, longer: u16)
    requires
        shorter <= longer,
    ensures
        normalized_delay(tempo, shorter) <= normalized_delay(tempo, longer),
{
    if tempo > 0 {
        let divisor = 2 * tempo;
        let low = 4000 * shorter + tempo;
        let high = 4000 * longer + tempo;
        assert(low / divisor <= high / divisor) by (nonlinear_arith)
            requires
                divisor > 0,
                0 <= low <= high,
        ;
    }
}

} // verus!
