//! The spectrogram's picture, as a grid of cells: what each cell shows, before it is coloured.

use vstd::prelude::*;

use crate::levels::{SpectrumSnapshot, SpectrumView, SPECTRUM_BINS};
use crate::panels;

verus! {

/// How many cells the picture is wide.
pub const WATERFALL_WIDTH: u32 = 256;

/// How many cells the picture is high.
pub const WATERFALL_HEIGHT: u32 = 96;

/// How many cells the picture has.
pub const WATERFALL_CELLS: usize = 24_576;

/// One cell of the picture.
#[derive(Debug, Clone, Copy, PartialEq, Eq, Structural)]
pub struct Cell {
    /// The level, as a bit pattern.
    pub value: u32,
    /// Whether a line of the grid goes through the cell.
    pub grid: bool,
    /// Whether the cell is at the right edge, which stands for now.
    pub edge: bool,
}

/// The columns of an optional spectrum.
pub open spec fn columns_of(spectrum: Option<SpectrumView>) -> Seq<Seq<u32>> {
    match spectrum {
        Some(spectrum) => spectrum.columns,
        None => Seq::empty(),
    }
}

/// How many bands the picture has: at least one.
pub open spec fn bins_of(spectrum: Option<SpectrumView>) -> int {
    match spectrum {
        Some(spectrum) => if spectrum.bins == 0 {
            1
        } else {
            spectrum.bins as int
        },
        None => SPECTRUM_BINS as int,
    }
}

/// The column that the cells at `x` show: the last one stands at the right edge.
pub open spec fn column_at(columns: nat, x: int) -> int {
    if columns < WATERFALL_WIDTH {
        x - (WATERFALL_WIDTH - columns)
    } else {
        x
    }
}

/// The band that the cells at `y` show: the lowest one stands at the bottom.
pub open spec fn bin_at(bins: int, y: int) -> int {
    (WATERFALL_HEIGHT - 1 - y) * bins / WATERFALL_HEIGHT as int
}

/// The level that a cell shows, and zero where there is none.
pub open spec fn level_at(spectrum: Option<SpectrumView>, x: int, y: int) -> u32 {
    let columns = columns_of(spectrum);
    let column = column_at(columns.len(), x);
    let bin = bin_at(bins_of(spectrum), y);
    if 0 <= column < columns.len() && 0 <= bin < columns[column].len() {
        columns[column][bin]
    } else {
        0
    }
}

/// One cell of the picture.
pub open spec fn cell_at(spectrum: Option<SpectrumView>, x: int, y: int) -> Cell {
    Cell {
        value: level_at(spectrum, x, y),
        grid: x % 32 == 0 || y % 24 == 0,
        edge: x == WATERFALL_WIDTH - 1,
    }
}

/// The cells of the picture, row by row from the top.
pub open spec fn picture(spectrum: Option<SpectrumView>) -> Seq<Cell> {
    Seq::new(
        WATERFALL_CELLS as nat,
        |k: int| cell_at(spectrum, k % WATERFALL_WIDTH as int, k / WATERFALL_WIDTH as int),
    )
}

proof fn lemma_bin_is_one(bins: int, y: int)
    requires
        bins > 0,
        0 <= y < WATERFALL_HEIGHT,
    ensures
        0 <= bin_at(bins, y) < bins,
        0 <= (WATERFALL_HEIGHT - 1 - y) * bins <= 95 * bins,
{
    let rows = WATERFALL_HEIGHT - 1 - y;
    assert(0 <= rows * bins <= 95 * bins) by (nonlinear_arith)
        requires
            bins > 0,
            0 <= rows <= 95,
    ;
}

fn level(spectrum: Option<&SpectrumSnapshot>, x: u32, y: u32) -> (r: u32)
    requires
        x < WATERFALL_WIDTH,
        y < WATERFALL_HEIGHT,
        spectrum matches Some(s) ==> s.bins * 95 <= usize::MAX,
    ensures
        r == level_at(panels::opt_spectrum(spectrum), x as int, y as int),
{
    let s = match spectrum {
        Some(s) => s,
        None => return 0,
    };
    let bins: usize = if s.bins == 0 {
        1
    } else {
        s.bins
    };
    let len: usize = s.columns.len();
    let width: usize = WATERFALL_WIDTH as usize;
    let at: usize = x as usize;
    let column: usize = if len < width {
        if at < width - len {
            return 0;
        }
        at - (width - len)
    } else {
        at
    };
    proof {
        lemma_bin_is_one(bins as int, y as int);
    }
    let rows: usize = (WATERFALL_HEIGHT - 1 - y) as usize;
    let bin: usize = rows * bins / WATERFALL_HEIGHT as usize;
    if column >= len {
        return 0;
    }
    let list = &s.columns[column];
    assert(s@.columns[column as int] == list@);
    if bin < list.len() {
        list[bin]
    } else {
        0
    }
}

/// Makes the cells of the picture, row by row from the top.
pub fn waterfall_cells(spectrum: Option<&SpectrumSnapshot>) -> (r: Vec<Cell>)
    requires
        spectrum matches Some(s) ==> s.bins * 95 <= usize::MAX,
    ensures
        r@ == picture(panels::opt_spectrum(spectrum)),
{
    let ghost all = picture(panels::opt_spectrum(spectrum));
    let mut r: Vec<Cell> = Vec::new();
    let mut y: u32 = 0;
    let mut x: u32 = 0;
    while y < WATERFALL_HEIGHT
        invariant
            spectrum matches Some(s) ==> s.bins * 95 <= usize::MAX,
            all == picture(panels::opt_spectrum(spectrum)),
            y <= WATERFALL_HEIGHT,
            x < WATERFALL_WIDTH,
            y == WATERFALL_HEIGHT ==> x == 0,
            r@.len() == y * 256 + x,
            r@ =~= all.take(r@.len() as int),
        decreases WATERFALL_HEIGHT - y, WATERFALL_WIDTH - x,
    {
        let ghost k = r@.len() as int;
        let cell = Cell {
            value: level(spectrum, x, y),
            grid: x % 32 == 0 || y % 24 == 0,
            edge: x == WATERFALL_WIDTH - 1,
        };
        assert(k % 256 == x && k / 256 == y);
        assert(all[k] == cell);
        r.push(cell);
        if x == WATERFALL_WIDTH - 1 {
            x = 0;
            y += 1;
        } else {
            x += 1;
        }
    }
    assert(all.take(all.len() as int) =~= all);
    r
}

/// The newest column stands at the right edge, and older ones to its left.
pub proof fn lemma_newest_column_is_at_the_edge(columns: nat, back: int)
    requires
        0 < columns <= WATERFALL_WIDTH,
        0 <= back < columns,
    ensures
        column_at(columns, WATERFALL_WIDTH - 1 - back) == columns - 1 - back,
{
}

/// The lowest band stands at the bottom, and no band stands below a lower one.
pub proof fn lemma_low_bands_are_at_the_bottom(bins: int, y: int, below: int)
    requires
        bins > 0,
        0 <= y <= below < WATERFALL_HEIGHT,
    ensures
        bin_at(bins, WATERFALL_HEIGHT - 1) == 0,
        bin_at(bins, below) <= bin_at(bins, y),
        0 <= bin_at(bins, y) < bins,
{
    lemma_bin_is_one(bins, y);
    let a = (WATERFALL_HEIGHT - 1 - below) * bins;
    let b = (WATERFALL_HEIGHT - 1 - y) * bins;
    assert(a <= b) by (nonlinear_arith)
        requires
            bins > 0,
            y <= below,
            a == (WATERFALL_HEIGHT - 1 - below) * bins,
            b == (WATERFALL_HEIGHT - 1 - y) * bins,
    ;
    assert(0 * bins == 0) by (nonlinear_arith);
}

/// The rows share the bands out evenly: a row that is `r` rows above the bottom shows the band that
/// `r` 96ths of the way up fall into.
pub proof fn lemma_rows_share_out_the_bands(bins: int, y: int)
    requires
        bins > 0,
        0 <= y < 96,
    ensures
        bin_at(bins, y) * 96 <= (95 - y) * bins < (bin_at(bins, y) + 1) * 96,
{
}

/// With at most as many bands as there are rows, every band is drawn.
pub proof fn lemma_every_band_is_drawn(bins: int, band: int)
    requires
        0 <= band < bins <= 96,
    ensures
        exists|y: int| 0 <= y < 96 && #[trigger] bin_at(bins, y) == band,
{
    let q = (band * 96 + bins - 1) / bins;
    vstd::arithmetic::div_mod::lemma_fundamental_div_mod(band * 96 + bins - 1, bins);
    let rest = (band * 96 + bins - 1) % bins;
    assert(q * bins == band * 96 + bins - 1 - rest) by (nonlinear_arith)
        requires
            band * 96 + bins - 1 == bins * q + rest,
    ;
    assert(0 <= rest < bins);
    assert(0 <= q <= 95) by (nonlinear_arith)
        requires
            0 <= band < bins <= 96,
            0 <= rest < bins,
            q * bins == band * 96 + bins - 1 - rest,
    ;
    let y = 95 - q;
    assert((95 - y) * bins == q * bins);
    assert(bin_at(bins, y) == band);
}

/// The picture shows the newest columns, the last of them at the right edge, and each column from
/// the lowest band at the bottom to the highest at the top; what lies before the first column is
/// dark.
pub proof fn lemma_picture_shows_the_spectrum(
    spectrum: SpectrumView,
    x: int,
    y: int,
    band: int,
)
    requires
        0 <= x < 256,
        0 <= y < 96,
        spectrum.bins > 0,
        band * 96 <= (95 - y) * spectrum.bins < (band + 1) * 96,
    ensures
        ({
            let shown = picture(Some(spectrum));
            let columns = spectrum.columns;
            let start = 256 - columns.len();
            &&& shown.len() == 256 * 96
            &&& columns.len() <= 256 && start <= x && band < columns[x - start].len()
                ==> shown[y * 256 + x].value == columns[x - start][band]
            &&& columns.len() > 256 && band < columns[x].len() ==> shown[y * 256 + x].value
                == columns[x][band]
            &&& columns.len() <= 256 && start <= x && band >= columns[x - start].len()
                ==> shown[y * 256 + x].value == 0
            &&& x < start ==> shown[y * 256 + x].value == 0
        }),
{
    let k = y * 256 + x;
    assert(k % 256 == x && k / 256 == y);
    lemma_rows_share_out_the_bands(spectrum.bins as int, y);
    assert(bin_at(spectrum.bins as int, y) == band);
    assert(band >= 0) by (nonlinear_arith)
        requires
            0 <= (95 - y) * spectrum.bins,
            (95 - y) * spectrum.bins < (band + 1) * 96,
    ;
}

/// A spectrum that does not say how many bands it has shows its lowest one in every row.
pub proof fn lemma_unknown_bands_show_the_lowest(spectrum: SpectrumView, x: int, y: int)
    requires
        0 <= x < 256,
        0 <= y < 96,
        spectrum.bins == 0,
        spectrum.columns.len() == 256,
        spectrum.columns[x].len() > 0,
    ensures
        picture(Some(spectrum))[y * 256 + x].value == spectrum.columns[x][0],
{
    let k = y * 256 + x;
    assert(k % 256 == x && k / 256 == y);
}

/// Without a spectrum the picture is dark.
pub proof fn lemma_no_spectrum_is_dark(k: int)
    requires
        0 <= k < 256 * 96,
    ensures
        picture(None).len() == 256 * 96,
        picture(None)[k].value == 0,
{
}

/// Every picture has the same lines: one at the top of each quarter of its height, eight across its
/// width, and the mark of the present at its right edge alone.
pub proof fn lemma_lines_are_fixed(spectrum: Option<SpectrumView>, x: int, y: int)
    requires
        0 <= x < 256,
        0 <= y < 96,
    ensures
        ({
            let cell = picture(spectrum)[y * 256 + x];
            &&& cell.edge <==> x == 255
            &&& cell.grid <==> x == 32 * (x / 32) || y == 24 * (y / 24)
        }),
{
    let k = y * 256 + x;
    assert(k % 256 == x && k / 256 == y);
}

} // verus!
