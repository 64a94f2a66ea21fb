//! Text sparklines and rules drawn in the panels.
use vstd::prelude::*;

verus! {

/// The bar characters, lowest to highest.
pub open spec fn bars() -> Seq<char> {
    seq!['▁', '▂', '▃', '▄', '▅', '▆', '▇', '█']
}

/// The bar drawn for `level`; levels above the top are drawn as the top bar.
pub open spec fn bar_for(level: usize) -> char {
    if level < 7 { bars()[level as int] } else { bars()[7] }
}

/// Index of the first sample shown when a history of `len` samples is drawn `width` wide:
/// only the last `width` samples fit.
pub open spec fn window_start(len: usize, width: usize) -> usize {
    if len > width { (len - width) as usize } else { 0 }
}

/// Index of the first sample shown when a history of `len` samples is drawn `width` wide.
pub fn sparkline_window_start(len: usize, width: usize) -> (start: usize)
    ensures
        start == window_start(len, width),
{
    if len > width {
        len - width
    } else {
        0
    }
}

fn bar_str(level: usize) -> (s: &'static str)
    ensures
        s@ == seq![bar_for(level)],
{
    if level == 0 {
        proof { reveal_strlit("▁"); }
        "▁"
    } else if level == 1 {
        proof { reveal_strlit("▂"); }
        "▂"
    } else if level == 2 {
        proof { reveal_strlit("▃"); }
        "▃"
    } else if level == 3 {
        proof { reveal_strlit("▄"); }
        "▄"
    } else if level == 4 {
        proof { reveal_strlit("▅"); }
        "▅"
    } else if level == 5 {
        proof { reveal_strlit("▆"); }
        "▆"
    } else if level == 6 {
        proof { reveal_strlit("▇"); }
        "▇"
    } else {
        proof { reveal_strlit("█"); }
        "█"
    }
}

/// A line of `n` middle dots.
pub open spec fn dots(n: nat) -> Seq<char> {
    Seq::new(n, |_i: int| '·')
}

/// A line of dots `width` characters long.
pub fn render_dot_line(width: usize) -> (res: String)
    ensures
        res@ == dots(width as nat),
{
    let mut res = String::new();
    let mut i: usize = 0;
    while i < width
        invariant
            i <= width,
            res@ == dots(i as nat),
        decreases width - i,
    {
        res.append("·");
        proof { reveal_strlit("·"); }
        assert(res@ =~= dots((i + 1) as nat));
        i = i + 1;
    }
    res
}

/// The bars for `levels`, one per level.
pub open spec fn bars_for(levels: Seq<usize>) -> Seq<char> {
    Seq::new(levels.len(), |i: int| bar_for(levels[i]))
}

/// A sparkline `width` characters wide for the samples whose bar levels are
/// `levels`: one bar per level, then dots filling the rest of the width (no dots
/// when the bars already fill it).
pub open spec fn sparkline(levels: Seq<usize>, width: usize) -> Seq<char> {
    let b = bars_for(levels);
    if levels.len() < width { b + dots((width - levels.len()) as nat) } else { b }
}

/// Draws the sparkline for the bar levels of the samples shown.
pub fn sparkline_from_levels(levels: &Vec<usize>, width: usize) -> (res: String)
    ensures
        res@ == sparkline(levels@, width),
        levels@.len() <= width ==> res@.len() == width,
{
    let mut res = String::new();
    let mut i: usize = 0;
    while i < levels.len()
        invariant
            i <= levels.len(),
            res@ == bars_for(levels@.take(i as int)),
        decreases levels.len() - i,
    {
        let piece = bar_str(levels[i]);
        res.append(piece);
        assert(res@ =~= bars_for(levels@.take(i + 1)));
        i = i + 1;
    }
    assert(levels@.take(levels.len() as int) =~= levels@);
    let n = levels.len();
    if n < width {
        let pad = render_dot_line(width - n);
        res.append(pad.as_str());
    }
    res
}

/// Only the last `width` samples are shown: the window starts inside the history
/// and holds exactly as many samples as fit, or all of them when fewer fit.
pub proof fn lemma_window_holds_last_samples(len: usize, width: usize)
    ensures
        window_start(len, width) <= len,
        len - window_start(len, width) == (if len < width { len } else { width }),
{
}

} // verus!
