//! Bars for a history of values: each value becomes one of eight glyphs of
//! rising height, on a scale that follows the largest value shown.

use vstd::prelude::*;

verus! {

/// The number of bar heights.
pub const LEVELS: u8 = 8;

/// The network speed 1.0, below which the scale of a bar never falls.
pub const ONE: i64 = 100;

/// `7 * value / max` rounded to the nearest level, a half upwards, and
/// kept within the levels, for a scale `max > 0`.
pub open spec fn scaled_level(value: int, max: int) -> int {
    if value <= 0 {
        0
    } else {
        let level = (2 * (LEVELS - 1) * value + max) / (2 * max);
        if level > LEVELS - 1 {
            LEVELS - 1
        } else {
            level
        }
    }
}

/// The bar height of `value` on a scale that reaches its top at `max_val`:
/// `value / max_val * 7`, rounded to the nearest whole number and kept
/// within 0 and 7. On the scale 0 every value above 0 is at the top and
/// no other is; a scale below 0 turns the values round.
pub open spec fn bar_level(value: int, max_val: int) -> int {
    if max_val > 0 {
        scaled_level(value, max_val)
    } else if max_val < 0 {
        scaled_level(-value, -max_val)
    } else if value > 0 {
        LEVELS - 1
    } else {
        0
    }
}

/// The glyph of a bar height: the block that fills one eighth of a cell
/// for level 0, up to the full block for level 7.
pub open spec fn bar_glyph(level: int) -> char {
    if level <= 0 {
        '\u{2581}'
    } else if level == 1 {
        '\u{2582}'
    } else if level == 2 {
        '\u{2583}'
    } else if level == 3 {
        '\u{2584}'
    } else if level == 4 {
        '\u{2585}'
    } else if level == 5 {
        '\u{2586}'
    } else if level == 6 {
        '\u{2587}'
    } else {
        '\u{2588}'
    }
}

/// The bar chart of `values` on the scale `max_val`: one glyph for each
/// value, in their order.
pub open spec fn bar_chart(values: Seq<i64>, max_val: int) -> Seq<char> {
    Seq::new(values.len(), |i: int| bar_glyph(bar_level(values[i] as int, max_val)))
}

/// The largest of 0 and the values.
pub open spec fn peak(values: Seq<i64>) -> int
    decreases values.len(),
{
    if values.len() == 0 {
        0
    } else {
        let rest = peak(values.drop_last());
        if rest >= values.last() {
            rest
        } else {
            values.last() as int
        }
    }
}

/// The scale of the bar of a history: its largest value, but no less
/// than 1.0.
pub open spec fn local_max(history: Seq<i64>) -> int {
    if peak(history) >= ONE {
        peak(history)
    } else {
        ONE as int
    }
}

/// The bar height of `value` on the scale `max_val`.
pub fn quantize(value: i64, max_val: i64) -> (level: u8)
    ensures
        level == bar_level(value as int, max_val as int),
        level < LEVELS,
{
    if max_val > 0 {
        scale(value as i128, max_val as i128)
    } else if max_val < 0 {
        scale(-(value as i128), -(max_val as i128))
    } else if value > 0 {
        LEVELS - 1
    } else {
        0
    }
}

/// The bar height of `value` on a scale above 0.
fn scale(value: i128, max: i128) -> (level: u8)
    requires
        0 < max <= 0x8000_0000_0000_0000,
        -0x8000_0000_0000_0000 <= value <= 0x8000_0000_0000_0000,
    ensures
        level == scaled_level(value as int, max as int),
        level < LEVELS,
{
    if value <= 0 {
        0
    } else {
        let level: i128 = (14 * value + max) / (2 * max);
        assert(level >= 0) by (nonlinear_arith)
            requires
                level == (14 * value + max) / (2 * max),
                value > 0,
                max > 0,
        ;
        if level > 7 {
            7
        } else {
            level as u8
        }
    }
}

/// The glyph of a bar height.
pub fn glyph_of(level: u8) -> (glyph: char)
    ensures
        glyph == bar_glyph(level as int),
{
    if level == 0 {
        '\u{2581}'
    } else if level == 1 {
        '\u{2582}'
    } else if level == 2 {
        '\u{2583}'
    } else if level == 3 {
        '\u{2584}'
    } else if level == 4 {
        '\u{2585}'
    } else if level == 5 {
        '\u{2586}'
    } else if level == 6 {
        '\u{2587}'
    } else {
        '\u{2588}'
    }
}

/// Draws `values` as a row of bars on the scale `max_val`.
pub fn draw_bar_chart(values: &[i64], max_val: i64) -> (chart: String)
    ensures
        chart@ == bar_chart(values@, max_val as int),
{
    let mut chart = String::new();
    let mut i: usize = 0;
    while i < values.len()
        invariant
            i <= values@.len(),
            chart@ == bar_chart(values@.subrange(0, i as int), max_val as int),
        decreases values@.len() - i,
    {
        chart.push(glyph_of(quantize(values[i], max_val)));
        i += 1;
        assert(chart@ =~= bar_chart(values@.subrange(0, i as int), max_val as int));
    }
    assert(values@.subrange(0, i as int) =~= values@);
    chart
}

/// On a scale that is not below 0 a larger value never has a lower bar,
/// and every bar height is one of the eight levels.
pub proof fn lemma_bar_level_monotonic(value1: int, value2: int, max_val: int)
    requires
        value1 <= value2,
        max_val >= 0,
    ensures
        bar_level(value1, max_val) <= bar_level(value2, max_val),
        0 <= bar_level(value1, max_val) <= 7,
        0 <= bar_level(value2, max_val) <= 7,
{
    lemma_bar_level_range(value1, max_val);
    lemma_bar_level_range(value2, max_val);
    if max_val > 0 && value1 > 0 {
        let a = 14 * value1 + max_val;
        let b = 14 * value2 + max_val;
        vstd::arithmetic::div_mod::lemma_div_is_ordered(a, b, 2 * max_val);
    }
}

/// Every bar height is one of the eight levels, on any scale.
pub proof fn lemma_bar_level_range(value: int, max_val: int)
    ensures
        0 <= bar_level(value, max_val) <= 7,
{
    if max_val > 0 && value > 0 {
        vstd::arithmetic::div_mod::lemma_div_pos_is_pos(14 * value + max_val, 2 * max_val);
    }
    if max_val < 0 && value < 0 {
        vstd::arithmetic::div_mod::lemma_div_pos_is_pos(14 * (-value) + (-max_val), 2 * (-max_val));
    }
}

/// The peak of a history is at least 0 and at least every value of the
/// history, and it is 0 or one of the values.
pub proof fn lemma_peak_is_largest(values: Seq<i64>)
    ensures
        peak(values) >= 0,
        forall|i: int| 0 <= i < values.len() ==> #[trigger] values[i] <= peak(values),
        peak(values) == 0 || exists|i: int| 0 <= i < values.len() && #[trigger] values[i] == peak(values),
    decreases values.len(),
{
    if values.len() > 0 {
        let rest = values.drop_last();
        lemma_peak_is_largest(rest);
        assert forall|i: int| 0 <= i < values.len() implies #[trigger] values[i] <= peak(values) by {
            if i < rest.len() {
                assert(values[i] == rest[i]);
            }
        }
        if peak(values) != 0 {
            if peak(rest) >= values.last() {
                let i = choose|i: int| 0 <= i < rest.len() && #[trigger] rest[i] == peak(rest);
                assert(values[i] == rest[i]);
            } else {
                assert(values[values.len() - 1] == peak(values));
            }
        }
    }
}

/// On its own scale no value of a history is beyond the top, and the
/// largest value is at the top level where it is at least 1.0.
pub proof fn lemma_largest_is_at_top(history: Seq<i64>, i: int)
    requires
        0 <= i < history.len(),
    ensures
        history[i] <= local_max(history),
        history[i] == peak(history) && history[i] >= ONE ==> bar_level(
            history[i] as int,
            local_max(history),
        ) == 7,
{
    lemma_peak_is_largest(history);
    lemma_bar_level_ends(history[i] as int, local_max(history));
}

/// A value at or above a scale of at least 1 is at the top level, and a
/// value at or below 0 at the bottom.
pub proof fn lemma_bar_level_ends(value: int, max_val: int)
    requires
        max_val > 0,
    ensures
        value <= 0 ==> bar_level(value, max_val) == 0,
        value >= max_val ==> bar_level(value, max_val) == 7,
{
    if value >= max_val {
        let num = 14 * value + max_val;
        let den = 2 * max_val;
        assert(num >= 7 * den);
        vstd::arithmetic::div_mod::lemma_div_is_ordered(7 * den, num, den);
        vstd::arithmetic::div_mod::lemma_div_multiples_vanish(7, den);
    }
}

/// The largest of 0 and the values of a history.
fn history_peak(history: &Vec<i64>) -> (top: i64)
    ensures
        top == peak(history@),
{
    let mut top: i64 = 0;
    let mut i: usize = 0;
    while i < history.len()
        invariant
            i <= history@.len(),
            top == peak(history@.subrange(0, i as int)),
        decreases history@.len() - i,
    {
        assert(history@.subrange(0, i + 1).drop_last() =~= history@.subrange(0, i as int));
        if history[i] > top {
            top = history[i];
        }
        i += 1;
    }
    assert(history@.subrange(0, i as int) =~= history@);
    top
}
/// The scale of the bar of a history.
pub fn local_maximum(history: &Vec<i64>) -> (max_val: i64)
    ensures
        max_val == local_max(history@),
        max_val >= ONE,
{
    let top: i64 = history_peak(history);
    if top >= ONE {
        top
    } else {
        ONE
    }
}

} // verus!
