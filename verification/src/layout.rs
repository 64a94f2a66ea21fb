//! Sizes and positions of what the panels show, in terminal cells and rows.
use vstd::prelude::*;

verus! {

/// Width of each core's sparkline, for the two core columns `left` and `right`
/// cells wide: the narrower column less 12 cells for label and cost, kept between 8 and 20.
pub open spec fn core_spark_width(left: u16, right: u16) -> usize {
    let col = if left < right { left } else { right };
    let raw: int = if col >= 12 { col - 12 } else { 0 };
    (if raw < 8 { 8 } else if raw > 20 { 20 } else { raw }) as usize
}

/// Width of each core's sparkline in the CPU panel.
pub fn core_spark_len(left: u16, right: u16) -> (w: usize)
    ensures
        w == core_spark_width(left, right),
        8 <= w <= 20,
{
    let col = if left < right { left } else { right };
    let raw = (col as usize).saturating_sub(12);
    if raw < 8 {
        8
    } else if raw > 20 {
        20
    } else {
        raw
    }
}

/// Number of cores listed in the left column of the CPU panel: the first half, rounded up.
pub fn core_column_split(cores: usize) -> (split: usize)
    requires
        cores < usize::MAX,
    ensures
        split == (cores + 1) / 2,
        split <= cores,
        cores - split <= split,
{
    (cores + 1) / 2
}

/// Width of the memory sparkline: the panel less its borders and a two-cell indent.
pub fn memory_spark_width(panel_width: u16) -> (w: usize)
    ensures
        w == (if panel_width >= 4 { panel_width - 4 } else { 0 }),
{
    panel_width.saturating_sub(2 + 2) as usize
}

/// Width of a network sparkline: the panel less its borders, the three-cell
/// "RX "/"TX " label and the `value_chars` characters of the rate printed after it.
pub fn network_spark_width(panel_width: u16, value_chars: usize) -> (w: usize)
    requires
        value_chars <= usize::MAX - 3,
    ensures
        w == (if panel_width >= 2 && panel_width - 2 >= 3 + value_chars { panel_width - 2 - 3 - value_chars } else { 0 }),
{
    let inner = panel_width.saturating_sub(2) as usize;
    inner.saturating_sub(3 + value_chars)
}

/// The rows of a table of `count` rows shown in a panel `height` rows high after
/// scrolling `scroll` rows: the panel has room for its height less 3 rows (borders and
/// header); the result is the half-open range of row indices shown.
pub fn visible_rows(count: usize, scroll: usize, height: u16) -> (range: (usize, usize))
    ensures
        range.0 == (if scroll < count { scroll } else { count }),
        range.1 == (if count - range.0 < (if height >= 3 { height - 3 } else { 0 }) { count as int } else { range.0 + (if height >= 3 { height - 3 } else { 0 }) }),
        range.0 <= range.1 <= count,
{
    let room = height.saturating_sub(3) as usize;
    let start = if scroll < count { scroll } else { count };
    let end = if count - start < room { count } else { start + room };
    (start, end)
}

/// Minutes and seconds left of the stress test, as the status line shows them.
pub fn stress_clock(remaining: u64) -> (ms: (u64, u64))
    ensures
        ms.0 == remaining / 60,
        ms.1 == remaining % 60,
        ms.0 * 60 + ms.1 == remaining,
        ms.1 < 60,
{
    (remaining / 60, remaining % 60)
}

} // verus!
