//! Display arithmetic: palette choice, core grid, bars and the power sparkline.
use vstd::prelude::*;
use vstd::string::*;

verus! {

/// Accent colours of the classic palette.
#[derive(Clone, Copy, Debug, PartialEq, Eq, Structural)]
pub enum Palette {
    Reset,
    Red,
    Green,
    Yellow,
    Blue,
    Magenta,
    Cyan,
    White,
    LightMagenta,
}

pub open spec fn palette_of(arg: u8) -> Palette {
    if arg == 0 {
        Palette::Reset
    } else if arg == 1 {
        Palette::Red
    } else if arg == 3 {
        Palette::Yellow
    } else if arg == 4 {
        Palette::Blue
    } else if arg == 5 {
        Palette::Magenta
    } else if arg == 6 {
        Palette::Cyan
    } else if arg == 7 {
        Palette::White
    } else if arg == 8 {
        Palette::LightMagenta
    } else {
        Palette::Green
    }
}

/// The accent colour for a palette index; unknown indices give green.
pub fn color_from_arg(arg: u8) -> (p: Palette)
    ensures
        p == palette_of(arg),
{
    match arg {
        0 => Palette::Reset,
        1 => Palette::Red,
        2 => Palette::Green,
        3 => Palette::Yellow,
        4 => Palette::Blue,
        5 => Palette::Magenta,
        6 => Palette::Cyan,
        7 => Palette::White,
        8 => Palette::LightMagenta,
        _ => Palette::Green,
    }
}

/// At most this many cores stand side by side.
pub const CORE_MAX_COLUMNS: usize = 4;

/// Width of a core entry besides its bar.
pub const CORE_FIXED_WIDTH: usize = 18;

/// Narrowest bar of a core entry.
pub const CORE_MIN_BAR_WIDTH: usize = 6;

/// Narrowest core entry.
pub const CORE_MIN_ENTRY_WIDTH: usize = CORE_FIXED_WIDTH + CORE_MIN_BAR_WIDTH;

pub open spec fn min(a: int, b: int) -> int {
    if a <= b {
        a
    } else {
        b
    }
}

/// Columns of the core grid: as many minimal entries as fit the width, at least
/// one, at most `CORE_MAX_COLUMNS` and at most the number of cores (one for none).
pub open spec fn columns_of(width: int, count: int) -> int {
    if count == 0 {
        1
    } else {
        let fit = width / CORE_MIN_ENTRY_WIDTH as int;
        min(min(if fit == 0 { 1 } else { fit }, CORE_MAX_COLUMNS as int), count)
    }
}

pub fn core_columns(width: u16, count: usize) -> (c: usize)
    ensures
        c == columns_of(width as int, count as int),
        1 <= c <= CORE_MAX_COLUMNS,
{
    if count == 0 {
        return 1;
    }
    let mut columns = width as usize / CORE_MIN_ENTRY_WIDTH;
    if columns == 0 {
        columns = 1;
    }
    if columns > CORE_MAX_COLUMNS {
        columns = CORE_MAX_COLUMNS;
    }
    if columns > count {
        columns = count;
    }
    columns
}

/// Filled cells of a bar of `width` cells at `percent` (capped at 100), rounded up.
pub open spec fn filled_of(percent: int, width: int) -> int {
    (min(percent, 100) * width + 99) / 100
}

pub fn bar_fill(percent: u64, width: u16) -> (r: (usize, usize))
    ensures
        r.0 == filled_of(percent as int, width as int),
        r.0 <= width,
        r.1 == width - r.0,
{
    let clamped: usize = if percent > 100 {
        100
    } else {
        percent as usize
    };
    let w = width as usize;
    proof {
        assert(clamped * w <= 100 * w) by (nonlinear_arith)
            requires
                clamped <= 100,
        ;
        assert((clamped * w + 99) / 100 <= w) by (nonlinear_arith)
            requires
                clamped <= 100,
        ;
    }
    let filled = (clamped * w + 99) / 100;
    (filled, w - filled)
}

/// `n` copies of `c`.
pub open spec fn repeat(c: char, n: nat) -> Seq<char> {
    Seq::new(n, |i: int| c)
}

fn push_repeated(text: &mut String, cell: &str, n: usize)
    requires
        cell@.len() == 1,
    ensures
        final(text)@ == old(text)@ + repeat(cell@[0], n as nat),
{
    let mut k: usize = 0;
    while k < n
        invariant
            cell@.len() == 1,
            k <= n,
            text@ == old(text)@ + repeat(cell@[0], k as nat),
        decreases n - k,
    {
        let ghost before = text@;
        text.append(cell);
        k += 1;
        assert(text@ =~= old(text)@ + repeat(cell@[0], k as nat)) by {
            assert(before + cell@ =~= old(text)@ + repeat(cell@[0], k as nat));
        }
    }
}

/// A usage bar of at least 10 cells: filled cells `█`, then empty ones `░`.
pub fn block_bar(percent: u64, width: u16) -> (bar: String)
    ensures
        ({
            let w = if width >= 10 { width as int } else { 10 };
            let f = filled_of(percent as int, w);
            bar@ == repeat('█', f as nat) + repeat('░', (w - f) as nat)
        }),
{
    let w: u16 = if width >= 10 {
        width
    } else {
        10
    };
    let (filled, empty) = bar_fill(percent, w);
    let full = "█";
    let blank = "░";
    proof {
        reveal_strlit("█");
        reveal_strlit("░");
    }
    let mut bar = String::new();
    push_repeated(&mut bar, full, filled);
    push_repeated(&mut bar, blank, empty);
    bar
}

/// How busy a core is, for its colour.
#[derive(Clone, Copy, Debug, PartialEq, Eq, Structural)]
pub enum UsageLevel {
    Critical,
    High,
    Medium,
    Moderate,
    Low,
}

pub fn usage_level(percent: u64) -> (l: UsageLevel)
    ensures
        l == if percent >= 90 {
            UsageLevel::Critical
        } else if percent >= 70 {
            UsageLevel::High
        } else if percent >= 50 {
            UsageLevel::Medium
        } else if percent >= 30 {
            UsageLevel::Moderate
        } else {
            UsageLevel::Low
        },
{
    if percent >= 90 {
        UsageLevel::Critical
    } else if percent >= 70 {
        UsageLevel::High
    } else if percent >= 50 {
        UsageLevel::Medium
    } else if percent >= 30 {
        UsageLevel::Moderate
    } else {
        UsageLevel::Low
    }
}

/// `v` as a percentage of `limit`, rounded half up, saturating.
pub open spec fn percent_of(v: int, limit: int) -> int {
    let p = (200 * v + limit) / (2 * limit);
    if p > u64::MAX {
        u64::MAX as int
    } else {
        p
    }
}

/// Each history value as a percentage of `peak_limit`.
pub fn history_percentages(history: &Vec<u64>, peak_limit: u64) -> (r: Vec<u64>)
    requires
        peak_limit > 0,
    ensures
        r@.len() == history@.len(),
        forall|i: int| 0 <= i < history@.len() ==> r@[i] == percent_of(history@[i] as int, peak_limit as int),
{
    let mut r: Vec<u64> = Vec::new();
    let mut i: usize = 0;
    while i < history.len()
        invariant
            peak_limit > 0,
            i <= history@.len(),
            r@.len() == i,
            forall|j: int| 0 <= j < i ==> r@[j] == percent_of(history@[j] as int, peak_limit as int),
        decreases history@.len() - i,
    {
        let v = history[i] as u128;
        proof {
            assert(200 * v + peak_limit <= u128::MAX) by (nonlinear_arith)
                requires
                    v <= u64::MAX,
                    peak_limit <= u64::MAX,
            ;
        }
        let p = (200 * v + peak_limit as u128) / (2 * peak_limit as u128);
        let q: u64 = if p > u64::MAX as u128 {
            u64::MAX
        } else {
            p as u64
        };
        r.push(q);
        i += 1;
    }
    r
}

/// The last `width` values, or all of them after enough leading zeros to fill
/// `width`; a width of 0 keeps the values as they are. Never empty: a lone 0
/// stands for no data.
pub open spec fn fitted(values: Seq<u64>, width: int) -> Seq<u64> {
    let s = if width == 0 {
        values
    } else if values.len() > width {
        values.subrange(values.len() - width, values.len() as int)
    } else {
        Seq::new((width - values.len()) as nat, |i: int| 0u64) + values
    };
    if s.len() == 0 {
        seq![0u64]
    } else {
        s
    }
}

pub fn fit_to_width(values: Vec<u64>, width: usize) -> (r: Vec<u64>)
    ensures
        r@ == fitted(values@, width as int),
{
    let mut out: Vec<u64> = Vec::new();
    let n = values.len();
    if width == 0 {
        out = values;
    } else if n > width {
        let mut i: usize = n - width;
        while i < n
            invariant
                n == values@.len(),
                n > width,
                n - width <= i <= n,
                out@ == values@.subrange(n - width, i as int),
            decreases n - i,
        {
            out.push(values[i]);
            assert(out@ =~= values@.subrange(n - width, i + 1));
            i += 1;
        }
    } else {
        let pad = width - n;
        let mut k: usize = 0;
        while k < pad
            invariant
                k <= pad,
                out@ == Seq::new(k as nat, |i: int| 0u64),
            decreases pad - k,
        {
            out.push(0);
            k += 1;
            assert(out@ =~= Seq::new(k as nat, |i: int| 0u64));
        }
        let mut i: usize = 0;
        while i < n
            invariant
                n == values@.len(),
                i <= n,
                out@ == Seq::new(pad as nat, |i: int| 0u64) + values@.subrange(0, i as int),
            decreases n - i,
        {
            out.push(values[i]);
            assert(out@ =~= Seq::new(pad as nat, |i: int| 0u64) + values@.subrange(0, i + 1));
            i += 1;
        }
        assert(values@.subrange(0, n as int) =~= values@);
    }
    if out.len() == 0 {
        out.push(0);
        assert(out@ =~= seq![0u64]);
    }
    out
}

/// Top of the sparkline scale: the largest value, and at least 100.
pub open spec fn scale_of(values: Seq<u64>) -> int
    decreases values.len(),
{
    if values.len() == 0 {
        100
    } else {
        let rest = scale_of(values.drop_last());
        if values.last() > rest {
            values.last() as int
        } else {
            rest
        }
    }
}

pub fn sparkline_max(values: &Vec<u64>) -> (m: u64)
    ensures
        m == scale_of(values@),
{
    let mut m: u64 = 100;
    let mut i: usize = 0;
    while i < values.len()
        invariant
            i <= values@.len(),
            m == scale_of(values@.subrange(0, i as int)),
        decreases values@.len() - i,
    {
        assert(values@.subrange(0, i + 1).drop_last() =~= values@.subrange(0, i as int));
        if values[i] > m {
            m = values[i];
        }
        i += 1;
    }
    assert(values@.subrange(0, values@.len() as int) =~= values@);
    m
}

} // verus!
