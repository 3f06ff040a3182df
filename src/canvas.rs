use vstd::prelude::*;

verus! {

/// Side of the square drawing surface, in pixels.
pub const CANVAS_SIZE: usize = 280;

/// Side of the model's input grid.
pub const GRID_SIZE: usize = 28;

/// Side of the block of surface pixels that one grid cell covers.
pub const BLOCK_SIZE: usize = 10;

/// Bytes per surface pixel: blue, green, red, alpha.
pub const BYTES_PER_PIXEL: usize = 4;

/// Ink of a pure black pixel: the luma weights 299, 587 and 114 (per mille) times 255.
pub const FULL_INK: u32 = 255000;

/// Ink of a fully black block of one hundred pixels; a cell's intensity is its ink
/// over this.
pub const FULL_BLOCK_INK: u32 = 25500000;

/// Why a drawing surface could not be turned into an input grid.
#[derive(Debug, PartialEq, Eq, Structural)]
pub enum CanvasError {
    /// The surface is not the 280 x 280 drawing surface.
    UnsupportedSize { width: usize, height: usize },
    /// The pixel buffer is shorter than the surface's dimensions imply.
    BufferTooShort { needed: usize, actual: usize },
}

/// Ink of the pixel at column `x`, row `y`: full ink minus its luma, in units of
/// 1/255000, so that black is `FULL_INK` and white is zero.
pub open spec fn pixel_ink(data: Seq<u8>, x: int, y: int) -> int {
    let p = (y * 280 + x) * 4;
    255000 - (299 * data[p + 2] + 587 * data[p + 1] + 114 * data[p])
}

/// Ink of the first `k` pixels, row by row, of the block under cell (`i`, `j`).
pub open spec fn block_ink_prefix(data: Seq<u8>, i: int, j: int, k: int) -> int
    decreases k,
{
    if k <= 0 {
        0
    } else {
        block_ink_prefix(data, i, j, k - 1) + pixel_ink(data, j * 10 + (k - 1) % 10, i * 10 + (k - 1) / 10)
    }
}

/// Ink of the whole 10 x 10 block under cell (`i`, `j`).
pub open spec fn block_ink(data: Seq<u8>, i: int, j: int) -> int {
    block_ink_prefix(data, i, j, 100)
}

/// The downsampled grid, row-major: each cell holds the ink of its block.
pub open spec fn ink_grid(data: Seq<u8>) -> Seq<u32> {
    Seq::new(784, |c: int| block_ink(data, c / 28, c % 28) as u32)
}

/// Whether `g` is a 28 x 28 grid of block inks.
pub open spec fn grid_wf(g: Seq<u32>) -> bool {
    &&& g.len() == 784
    &&& forall|c: int| 0 <= c < 784 ==> #[trigger] g[c] <= FULL_BLOCK_INK
}

/// Total ink of the first `n` cells.
pub open spec fn mass_prefix(g: Seq<u32>, n: int) -> int
    decreases n,
{
    if n <= 0 {
        0
    } else {
        mass_prefix(g, n - 1) + g[n - 1]
    }
}

/// Sum over the first `n` cells of row index times ink.
pub open spec fn row_moment_prefix(g: Seq<u32>, n: int) -> int
    decreases n,
{
    if n <= 0 {
        0
    } else {
        row_moment_prefix(g, n - 1) + ((n - 1) / 28) * g[n - 1]
    }
}

/// Sum over the first `n` cells of column index times ink.
pub open spec fn col_moment_prefix(g: Seq<u32>, n: int) -> int
    decreases n,
{
    if n <= 0 {
        0
    } else {
        col_moment_prefix(g, n - 1) + ((n - 1) % 28) * g[n - 1]
    }
}

/// Total ink of the grid.
pub open spec fn mass(g: Seq<u32>) -> int {
    mass_prefix(g, 784)
}

/// Row moment of the grid: the centroid row is this over the mass.
pub open spec fn row_moment(g: Seq<u32>) -> int {
    row_moment_prefix(g, 784)
}

/// Column moment of the grid: the centroid column is this over the mass.
pub open spec fn col_moment(g: Seq<u32>) -> int {
    col_moment_prefix(g, 784)
}

/// Twice the mass times the source coordinate sampled for output index `k`, when the
/// grid is shifted so that a centroid of `moment / m` lands on 13.5.
pub open spec fn source_pos(k: int, m: int, moment: int) -> int {
    2 * k * m + 2 * moment - 27 * m
}

/// Whether a source coordinate (scaled by twice the mass) lies in [0, 27).
pub open spec fn in_source(s: int, m: int) -> bool {
    0 <= s < 54 * m
}

/// Output cell (`i`, `j`) of the recentred grid, scaled by 4 m^2 with m the mass:
/// the bilinear blend of the four source cells around the sampled coordinate, or zero
/// when it falls outside [0, 27) on either axis.
pub open spec fn centered_cell(g: Seq<u32>, i: int, j: int) -> int {
    let m = mass(g);
    let sr = source_pos(i, m, row_moment(g));
    let sc = source_pos(j, m, col_moment(g));
    if in_source(sr, m) && in_source(sc, m) {
        let r0 = sr / (2 * m);
        let fr = sr % (2 * m);
        let c0 = sc / (2 * m);
        let fc = sc % (2 * m);
        let base = r0 * 28 + c0;
        g[base] * (2 * m - fr) * (2 * m - fc) + g[base + 1] * (2 * m - fr) * fc
            + g[base + 28] * fr * (2 * m - fc) + g[base + 29] * fr * fc
    } else {
        0
    }
}

/// The recentred grid's cells: the grid itself when it holds no ink, otherwise the
/// bilinear resample that moves its centroid to (13.5, 13.5).
pub open spec fn centered_cells(g: Seq<u32>) -> Seq<int> {
    if mass(g) == 0 {
        Seq::new(784, |c: int| g[c] as int)
    } else {
        Seq::new(784, |c: int| centered_cell(g, c / 28, c % 28))
    }
}

/// What a cell value of `centered_cells(g)` must be divided by to give an intensity
/// in [0, 1].
pub open spec fn centered_scale(g: Seq<u32>) -> int {
    if mass(g) == 0 {
        FULL_BLOCK_INK as int
    } else {
        4 * mass(g) * mass(g) * FULL_BLOCK_INK
    }
}

/// An intensity grid with exact values: cell `c` holds `cells[c] / scale`.
#[derive(Debug)]
pub struct Preprocessed {
    pub cells: Vec<u128>,
    pub scale: u128,
}

proof fn lemma_pixel_ink_range(data: Seq<u8>, x: int, y: int)
    requires
        0 <= x < 280,
        0 <= y < 280,
        data.len() >= 313600,
    ensures
        0 <= pixel_ink(data, x, y) <= FULL_INK,
{
    let p = (y * 280 + x) * 4;
    assert(0 <= p && p + 3 < 313600) by (nonlinear_arith)
        requires
            0 <= x < 280,
            0 <= y < 280,
            p == (y * 280 + x) * 4,
    ;
}

proof fn lemma_block_ink_range(data: Seq<u8>, i: int, j: int, k: int)
    requires
        0 <= i < 28,
        0 <= j < 28,
        0 <= k <= 100,
        data.len() >= 313600,
    ensures
        0 <= block_ink_prefix(data, i, j, k) <= k * FULL_INK,
    decreases k,
{
    if k > 0 {
        lemma_block_ink_range(data, i, j, k - 1);
        lemma_pixel_ink_range(data, j * 10 + (k - 1) % 10, i * 10 + (k - 1) / 10);
    }
}

fn block_ink_exec(data: &[u8], i: usize, j: usize) -> (r: u32)
    requires
        data@.len() >= 313600,
        i < 28,
        j < 28,
    ensures
        r == block_ink(data@, i as int, j as int),
        r <= FULL_BLOCK_INK,
{
    let mut sum: u32 = 0;
    let mut k: usize = 0;
    while k < 100
        invariant
            data@.len() >= 313600,
            i < 28,
            j < 28,
            k <= 100,
            sum == block_ink_prefix(data@, i as int, j as int, k as int),
            sum <= k * FULL_INK,
        decreases 100 - k,
    {
        let y = i * 10 + k / 10;
        let x = j * 10 + k % 10;
        let p = (y * 280 + x) * 4;
        proof {
            lemma_pixel_ink_range(data@, x as int, y as int);
            lemma_block_ink_range(data@, i as int, j as int, k as int + 1);
        }
        let b = data[p] as u32;
        let g = data[p + 1] as u32;
        let r = data[p + 2] as u32;
        let ink = FULL_INK - (299 * r + 587 * g + 114 * b);
        sum = sum + ink;
        k = k + 1;
    }
    sum
}

/// Averages each 10 x 10 block of the surface into one cell of a 28 x 28 grid, as
/// ink: full ink minus luma, so strokes (black) are high and background (white) is
/// zero.
pub fn downsample(data: &[u8]) -> (r: Vec<u32>)
    requires
        data@.len() >= 313600,
    ensures
        r@ == ink_grid(data@),
        grid_wf(r@),
{
    let mut r: Vec<u32> = Vec::with_capacity(784);
    let mut c: usize = 0;
    while c < 784
        invariant
            data@.len() >= 313600,
            c <= 784,
            r@.len() == c,
            forall|k: int| 0 <= k < c ==> #[trigger] r@[k] == ink_grid(data@)[k],
            forall|k: int| 0 <= k < c ==> #[trigger] r@[k] <= FULL_BLOCK_INK,
        decreases 784 - c,
    {
        let v = block_ink_exec(data, c / 28, c % 28);
        r.push(v);
        c = c + 1;
    }
    assert(r@ =~= ink_grid(data@));
    r
}

proof fn lemma_moment_bounds(g: Seq<u32>, n: int)
    requires
        grid_wf(g),
        0 <= n <= 784,
    ensures
        0 <= mass_prefix(g, n) <= n * FULL_BLOCK_INK,
        0 <= row_moment_prefix(g, n) <= 27 * mass_prefix(g, n),
        0 <= col_moment_prefix(g, n) <= 27 * mass_prefix(g, n),
    decreases n,
{
    if n > 0 {
        lemma_moment_bounds(g, n - 1);
        let v = g[n - 1] as int;
        assert(0 <= ((n - 1) / 28) * v <= 27 * v) by (nonlinear_arith)
            requires
                0 <= v,
                1 <= n <= 784,
        ;
        assert(0 <= ((n - 1) % 28) * v <= 27 * v) by (nonlinear_arith)
            requires
                0 <= v,
                1 <= n,
        ;
    }
}

/// Total ink, row moment and column moment of a grid: its centroid is (row moment /
/// mass, column moment / mass).
pub fn mass_and_moments(g: &Vec<u32>) -> (r: (u64, u64, u64))
    requires
        grid_wf(g@),
    ensures
        r.0 == mass(g@),
        r.1 == row_moment(g@),
        r.2 == col_moment(g@),
{
    let mut m: u64 = 0;
    let mut rm: u64 = 0;
    let mut cm: u64 = 0;
    let mut c: usize = 0;
    while c < 784
        invariant
            grid_wf(g@),
            c <= 784,
            m == mass_prefix(g@, c as int),
            rm == row_moment_prefix(g@, c as int),
            cm == col_moment_prefix(g@, c as int),
        decreases 784 - c,
    {
        proof {
            lemma_moment_bounds(g@, c as int + 1);
        }
        let v = g[c] as u64;
        m = m + v;
        rm = rm + (c / 28) as u64 * v;
        cm = cm + (c % 28) as u64 * v;
        c = c + 1;
    }
    (m, rm, cm)
}

/// Largest possible mass of a grid: every cell fully inked.
pub const MAX_MASS: u64 = 19992000000;

proof fn lemma_term_bound(v: int, a: int, b: int, m: int)
    requires
        0 <= v <= FULL_BLOCK_INK,
        0 <= a <= 2 * m,
        0 <= b <= 2 * m,
        0 < m <= MAX_MASS,
    ensures
        0 <= v * a <= 2 * (FULL_BLOCK_INK as int) * (MAX_MASS as int),
        0 <= v * a * b <= 4 * (FULL_BLOCK_INK as int) * (MAX_MASS as int) * (MAX_MASS as int),
{
    assert(FULL_BLOCK_INK * (2 * m) <= 2 * (FULL_BLOCK_INK as int) * (MAX_MASS as int)) by (nonlinear_arith)
        requires
            0 < m <= MAX_MASS,
    ;
    assert(0 <= v * a <= FULL_BLOCK_INK * (2 * m)) by (nonlinear_arith)
        requires
            0 <= v <= FULL_BLOCK_INK,
            0 <= a <= 2 * m,
    ;
    assert(0 <= (v * a) * b <= (FULL_BLOCK_INK * (2 * m)) * (2 * m)) by (nonlinear_arith)
        requires
            0 <= v * a <= FULL_BLOCK_INK * (2 * m),
            0 <= b <= 2 * m,
    ;
    assert((FULL_BLOCK_INK * (2 * m)) * (2 * m) <= 4 * (FULL_BLOCK_INK as int) * (MAX_MASS as int) * (MAX_MASS as int)) by (nonlinear_arith)
        requires
            0 < m <= MAX_MASS,
    ;
}

proof fn lemma_split_pos(s: int, m: int)
    requires
        0 < m,
        0 <= s < 54 * m,
    ensures
        0 <= s / (2 * m) <= 26,
        0 <= s % (2 * m) < 2 * m,
{
    let q = s / (2 * m);
    let r = s % (2 * m);
    vstd::arithmetic::div_mod::lemma_fundamental_div_mod(s, 2 * m);
    vstd::arithmetic::div_mod::lemma_mod_bound(s, 2 * m);
    assert(0 <= q <= 26) by (nonlinear_arith)
        requires
            s == 2 * m * q + r,
            0 <= r < 2 * m,
            0 <= s < 54 * m,
            0 < m,
    ;
}

fn centered_cell_exec(g: &Vec<u32>, m: u64, rm: u64, cm: u64, i: usize, j: usize) -> (r: u128)
    requires
        grid_wf(g@),
        m == mass(g@),
        rm == row_moment(g@),
        cm == col_moment(g@),
        m > 0,
        i < 28,
        j < 28,
    ensures
        r == centered_cell(g@, i as int, j as int),
{
    proof {
        lemma_moment_bounds(g@, 784);
        assert(m <= MAX_MASS);
        assert(2 * (i as int) * m <= 54 * m && 2 * (j as int) * m <= 54 * m) by (nonlinear_arith)
            requires
                i < 28,
                j < 28,
        ;
    }
    let tr = 2 * (i as u64) * m + 2 * rm;
    let tc = 2 * (j as u64) * m + 2 * cm;
    if tr < 27 * m || tr >= 81 * m || tc < 27 * m || tc >= 81 * m {
        return 0;
    }
    let sr = tr - 27 * m;
    let sc = tc - 27 * m;
    let two_m = 2 * m;
    proof {
        lemma_split_pos(sr as int, m as int);
        lemma_split_pos(sc as int, m as int);
    }
    let r0 = (sr / two_m) as usize;
    let fr = sr % two_m;
    let c0 = (sc / two_m) as usize;
    let fc = sc % two_m;
    let base = r0 * 28 + c0;
    let wr0 = (two_m - fr) as u128;
    let wr1 = fr as u128;
    let wc0 = (two_m - fc) as u128;
    let wc1 = fc as u128;
    let v00 = g[base] as u128;
    let v01 = g[base + 1] as u128;
    let v10 = g[base + 28] as u128;
    let v11 = g[base + 29] as u128;
    proof {
        lemma_term_bound(v00 as int, wr0 as int, wc0 as int, m as int);
        lemma_term_bound(v01 as int, wr0 as int, wc1 as int, m as int);
        lemma_term_bound(v10 as int, wr1 as int, wc0 as int, m as int);
        lemma_term_bound(v11 as int, wr1 as int, wc1 as int, m as int);
    }
    v00 * wr0 * wc0 + v01 * wr0 * wc1 + v10 * wr1 * wc0 + v11 * wr1 * wc1
}

/// Largest scale of a recentred grid: four times the square of the largest mass,
/// times the ink of a full block.
pub const MAX_SCALE: u128 = 40767366528000000000000000000;

proof fn lemma_cell_within_scale(g: Seq<u32>, i: int, j: int)
    requires
        grid_wf(g),
        mass(g) > 0,
        0 <= i < 28,
        0 <= j < 28,
    ensures
        0 <= centered_cell(g, i, j) <= 4 * mass(g) * mass(g) * FULL_BLOCK_INK,
{
    let m = mass(g);
    let sr = source_pos(i, m, row_moment(g));
    let sc = source_pos(j, m, col_moment(g));
    if in_source(sr, m) && in_source(sc, m) {
        lemma_split_pos(sr, m);
        lemma_split_pos(sc, m);
        let r0 = sr / (2 * m);
        let fr = sr % (2 * m);
        let c0 = sc / (2 * m);
        let fc = sc % (2 * m);
        let base = r0 * 28 + c0;
        let f = FULL_BLOCK_INK as int;
        let (a, b, c, d) = (g[base] as int, g[base + 1] as int, g[base + 28] as int, g[base + 29] as int);
        let (wr0, wr1, wc0, wc1) = (2 * m - fr, fr, 2 * m - fc, fc);
        assert(0 <= a * wr0 * wc0 <= f * (wr0 * wc0)) by (nonlinear_arith)
            requires 0 <= a <= f, 0 <= wr0, 0 <= wc0;
        assert(0 <= b * wr0 * wc1 <= f * (wr0 * wc1)) by (nonlinear_arith)
            requires 0 <= b <= f, 0 <= wr0, 0 <= wc1;
        assert(0 <= c * wr1 * wc0 <= f * (wr1 * wc0)) by (nonlinear_arith)
            requires 0 <= c <= f, 0 <= wr1, 0 <= wc0;
        assert(0 <= d * wr1 * wc1 <= f * (wr1 * wc1)) by (nonlinear_arith)
            requires 0 <= d <= f, 0 <= wr1, 0 <= wc1;
        assert(wr0 * wc0 + wr0 * wc1 == wr0 * (2 * m)) by (nonlinear_arith)
            requires wc0 + wc1 == 2 * m;
        assert(wr1 * wc0 + wr1 * wc1 == wr1 * (2 * m)) by (nonlinear_arith)
            requires wc0 + wc1 == 2 * m;
        assert(wr0 * (2 * m) + wr1 * (2 * m) == 4 * m * m) by (nonlinear_arith)
            requires wr0 + wr1 == 2 * m;
        let (p00, p01, p10, p11) = (wr0 * wc0, wr0 * wc1, wr1 * wc0, wr1 * wc1);
        assert(f * p00 + f * p01 + f * p10 + f * p11 == f * (p00 + p01 + p10 + p11)) by (nonlinear_arith);
        assert(f * (4 * m * m) == 4 * m * m * f) by (nonlinear_arith);
    }
    assert(0 <= 4 * m * m * FULL_BLOCK_INK) by (nonlinear_arith);
}

/// Whether `p` is a 28 x 28 grid of exact intensities in [0, 1].
pub open spec fn preprocessed_wf(p: Preprocessed) -> bool {
    &&& p.cells@.len() == 784
    &&& 0 < p.scale <= MAX_SCALE
    &&& forall|c: int| 0 <= c < 784 ==> #[trigger] p.cells@[c] <= p.scale
}

/// Recentres a grid: when it holds ink, shifts it so that its ink-weighted centroid
/// lands on (13.5, 13.5), sampling by bilinear interpolation and leaving zero where
/// the sample falls outside the grid; a grid with no ink is returned as it is.
pub fn recenter(g: &Vec<u32>) -> (r: Preprocessed)
    requires
        grid_wf(g@),
    ensures
        preprocessed_wf(r),
        r.cells@.len() == 784,
        forall|c: int| 0 <= c < 784 ==> #[trigger] r.cells@[c] == centered_cells(g@)[c],
        r.scale == centered_scale(g@),
{
    let (m, rm, cm) = mass_and_moments(g);
    proof {
        lemma_moment_bounds(g@, 784);
    }
    let mut cells: Vec<u128> = Vec::with_capacity(784);
    if m == 0 {
        let mut c: usize = 0;
        while c < 784
            invariant
                grid_wf(g@),
                mass(g@) == 0,
                c <= 784,
                cells@.len() == c,
                forall|k: int| 0 <= k < c ==> #[trigger] cells@[k] == centered_cells(g@)[k],
                forall|k: int| 0 <= k < c ==> #[trigger] cells@[k] <= FULL_BLOCK_INK,
            decreases 784 - c,
        {
            cells.push(g[c] as u128);
            c = c + 1;
        }
        Preprocessed { cells, scale: FULL_BLOCK_INK as u128 }
    } else {
        proof {
            assert((m as int) * (m as int) <= (MAX_MASS as int) * (MAX_MASS as int)) by (nonlinear_arith)
                requires
                    0 < m <= MAX_MASS,
            ;
            assert(0 < 4 * (m as int) * (m as int) * FULL_BLOCK_INK <= MAX_SCALE) by (nonlinear_arith)
                requires
                    (m as int) * (m as int) <= (MAX_MASS as int) * (MAX_MASS as int),
                    m > 0,
            ;
        }
        let scale = 4 * (m as u128) * (m as u128) * (FULL_BLOCK_INK as u128);
        let mut c: usize = 0;
        while c < 784
            invariant
                grid_wf(g@),
                m == mass(g@),
                rm == row_moment(g@),
                cm == col_moment(g@),
                m > 0,
                scale == 4 * mass(g@) * mass(g@) * FULL_BLOCK_INK,
                c <= 784,
                cells@.len() == c,
                forall|k: int| 0 <= k < c ==> #[trigger] cells@[k] == centered_cells(g@)[k],
                forall|k: int| 0 <= k < c ==> #[trigger] cells@[k] <= scale,
            decreases 784 - c,
        {
            proof {
                lemma_cell_within_scale(g@, c as int / 28, c as int % 28);
            }
            let v = centered_cell_exec(g, m, rm, cm, c / 28, c % 28);
            cells.push(v);
            c = c + 1;
        }
        Preprocessed { cells, scale }
    }
}

/// One byte of a quantized cell: the intensity `v / scale` times 255, rounded down
/// and clamped to 255.
pub open spec fn quantized(v: int, scale: int) -> int {
    if v * 255 / scale > 255 {
        255
    } else {
        v * 255 / scale
    }
}

impl Preprocessed {
    /// The grid as one byte per cell: each intensity scaled by 255, rounded down and
    /// clamped to [0, 255].
    pub fn to_bytes(&self) -> (r: Vec<u8>)
        requires
            preprocessed_wf(*self),
        ensures
            r@.len() == 784,
            forall|c: int| 0 <= c < 784 ==> #[trigger] r@[c] == quantized(self.cells@[c] as int, self.scale as int),
    {
        let mut r: Vec<u8> = Vec::with_capacity(784);
        let mut c: usize = 0;
        while c < 784
            invariant
                preprocessed_wf(*self),
                c <= 784,
                r@.len() == c,
                forall|k: int| 0 <= k < c ==> #[trigger] r@[k] == quantized(self.cells@[k] as int, self.scale as int),
            decreases 784 - c,
        {
            let v = self.cells[c];
            proof {
                assert(v * 255 <= MAX_SCALE * 255) by (nonlinear_arith)
                    requires
                        v <= self.scale <= MAX_SCALE,
                ;
            }
            let q = v * 255 / self.scale;
            let b: u8 = if q > 255 { 255 } else { q as u8 };
            r.push(b);
            c = c + 1;
        }
        r
    }
}

/// Turns the 280 x 280 drawing surface (four bytes per pixel: blue, green, red,
/// alpha; rows one after another) into the model's 28 x 28 input grid: block averages
/// of inverted luma, recentred on the ink's centroid.
pub fn preprocess_canvas(data: &[u8], width: usize, height: usize) -> (r: Result<Preprocessed, CanvasError>)
    ensures
        (width != CANVAS_SIZE || height != CANVAS_SIZE) <==> r == Err::<Preprocessed, CanvasError>(CanvasError::UnsupportedSize { width, height }),
        (width == CANVAS_SIZE && height == CANVAS_SIZE && data@.len() < 313600) <==> r == Err::<Preprocessed, CanvasError>(CanvasError::BufferTooShort { needed: 313600, actual: data@.len() as usize }),
        (width == CANVAS_SIZE && height == CANVAS_SIZE && data@.len() >= 313600) ==> r is Ok,
        r matches Ok(p) ==> {
            &&& preprocessed_wf(p)
            &&& forall|c: int| 0 <= c < 784 ==> #[trigger] p.cells@[c] == centered_cells(ink_grid(data@))[c]
            &&& p.scale == centered_scale(ink_grid(data@))
        },
{
    if width != CANVAS_SIZE || height != CANVAS_SIZE {
        return Err(CanvasError::UnsupportedSize { width, height });
    }
    let needed: usize = CANVAS_SIZE * CANVAS_SIZE * BYTES_PER_PIXEL;
    if data.len() < needed {
        return Err(CanvasError::BufferTooShort { needed, actual: data.len() });
    }
    let g = downsample(data);
    Ok(recenter(&g))
}

proof fn lemma_blank_mass(g: Seq<u32>, n: int)
    requires
        0 <= n <= g.len(),
        forall|c: int| 0 <= c < g.len() ==> #[trigger] g[c] == 0,
    ensures
        mass_prefix(g, n) == 0,
    decreases n,
{
    if n > 0 {
        lemma_blank_mass(g, n - 1);
    }
}

/// Recentring leaves a grid with no ink as it is: all zero, at the plain block scale.
pub proof fn lemma_blank_grid_unchanged(g: Seq<u32>)
    requires
        g.len() == 784,
        forall|c: int| 0 <= c < 784 ==> #[trigger] g[c] == 0,
    ensures
        centered_cells(g) == Seq::new(784, |c: int| 0int),
        centered_scale(g) == FULL_BLOCK_INK,
{
    lemma_blank_mass(g, 784);
    assert(centered_cells(g) =~= Seq::new(784, |c: int| 0int));
}

/// Sum of the first `n` cells of a grid of values.
pub open spec fn cells_sum(s: Seq<int>, n: int) -> int
    decreases n,
{
    if n <= 0 {
        0
    } else {
        cells_sum(s, n - 1) + s[n - 1]
    }
}

/// Sum over the first `n` cells of row index times value.
pub open spec fn cells_row_moment(s: Seq<int>, n: int) -> int
    decreases n,
{
    if n <= 0 {
        0
    } else {
        cells_row_moment(s, n - 1) + ((n - 1) / 28) * s[n - 1]
    }
}

/// Sum over the first `n` cells of column index times value.
pub open spec fn cells_col_moment(s: Seq<int>, n: int) -> int
    decreases n,
{
    if n <= 0 {
        0
    } else {
        cells_col_moment(s, n - 1) + ((n - 1) % 28) * s[n - 1]
    }
}

/// Whether `k` is one of the four cells around the grid's centre (13.5, 13.5).
pub open spec fn is_centre_cell(k: int) -> bool {
    k == 377 || k == 378 || k == 405 || k == 406
}

spec fn part(s: Seq<int>, k: int, n: int) -> int {
    if k < n {
        s[k]
    } else {
        0
    }
}

proof fn lemma_centre_support_sums(s: Seq<int>, n: int)
    requires
        s.len() == 784,
        0 <= n <= 784,
        forall|k: int| 0 <= k < 784 && !is_centre_cell(k) ==> s[k] == 0,
    ensures
        cells_sum(s, n) == part(s, 377, n) + part(s, 378, n) + part(s, 405, n) + part(s, 406, n),
        cells_row_moment(s, n) == 13 * part(s, 377, n) + 13 * part(s, 378, n) + 14 * part(s, 405, n) + 14 * part(s, 406, n),
        cells_col_moment(s, n) == 13 * part(s, 377, n) + 14 * part(s, 378, n) + 13 * part(s, 405, n) + 14 * part(s, 406, n),
    decreases n,
{
    if n > 0 {
        lemma_centre_support_sums(s, n - 1);
        if !is_centre_cell(n - 1) {
            assert(s[n - 1] == 0);
        }
    }
}

proof fn lemma_single_cell_moments(g: Seq<u32>, p: int, n: int)
    requires
        g.len() == 784,
        0 <= p < 784,
        0 <= n <= 784,
        forall|k: int| 0 <= k < 784 && k != p ==> g[k] == 0,
    ensures
        mass_prefix(g, n) == if p < n { g[p] as int } else { 0 },
        row_moment_prefix(g, n) == if p < n { (p / 28) * g[p] } else { 0 },
        col_moment_prefix(g, n) == if p < n { (p % 28) * g[p] } else { 0 },
    decreases n,
{
    if n > 0 {
        lemma_single_cell_moments(g, p, n - 1);
    }
}

/// Whether output index `i` samples source index `r` when a single inked cell at
/// index `r` is moved to the centre: only the two centre rows (or columns) do, and
/// only while their sample stays inside the grid.
pub open spec fn centre_hit(i: int, r: int) -> bool {
    (i == 13 && r >= 1) || (i == 14 && r <= 26)
}

proof fn lemma_single_axis(k: int, r: int, v: int)
    requires
        0 <= k < 28,
        0 <= r < 28,
        v > 0,
    ensures
        source_pos(k, v, r * v) == v * (2 * (k + r) - 27),
        in_source(source_pos(k, v, r * v), v) <==> 14 <= k + r <= 40,
        14 <= k + r <= 40 ==> source_pos(k, v, r * v) / (2 * v) == k + r - 14,
        14 <= k + r <= 40 ==> source_pos(k, v, r * v) % (2 * v) == v,
        centre_hit(k, r) ==> 14 <= k + r <= 40,
{
    let sp = source_pos(k, v, r * v);
    assert(sp == v * (2 * (k + r) - 27)) by (nonlinear_arith)
        requires
            sp == 2 * k * v + 2 * (r * v) - 27 * v,
    ;
    assert(0 <= sp < 54 * v <==> 14 <= k + r <= 40) by (nonlinear_arith)
        requires
            sp == v * (2 * (k + r) - 27),
            v > 0,
    ;
    if 14 <= k + r <= 40 {
        assert(sp == (k + r - 14) * (2 * v) + v) by (nonlinear_arith)
            requires
                sp == v * (2 * (k + r) - 27),
        ;
        vstd::arithmetic::div_mod::lemma_fundamental_div_mod_converse(sp, 2 * v, k + r - 14, v);
    }
}

proof fn lemma_single_cell_output(g: Seq<u32>, r: int, c: int, k: int)
    requires
        grid_wf(g),
        0 <= r < 28,
        0 <= c < 28,
        g[r * 28 + c] > 0,
        forall|q: int| 0 <= q < 784 && q != r * 28 + c ==> g[q] == 0,
        0 <= k < 784,
    ensures
        centered_cells(g)[k] == if centre_hit(k / 28, r) && centre_hit(k % 28, c) {
            (g[r * 28 + c] as int) * (g[r * 28 + c] as int) * (g[r * 28 + c] as int)
        } else {
            0
        },
{
    let p = r * 28 + c;
    let v = g[p] as int;
    lemma_single_cell_moments(g, p, 784);
    assert(p / 28 == r && p % 28 == c);
    let i = k / 28;
    let j = k % 28;
    lemma_single_axis(i, r, v);
    lemma_single_axis(j, c, v);
    let sr = source_pos(i, v, r * v);
    let sc = source_pos(j, v, c * v);
    if in_source(sr, v) && in_source(sc, v) {
        let r0 = i + r - 14;
        let c0 = j + c - 14;
        let base = r0 * 28 + c0;
        assert(0 <= r0 <= 26 && 0 <= c0 <= 26);
        let w = v * v;
        assert((2 * v - v) * (2 * v - v) == w && (2 * v - v) * v == w && v * (2 * v - v) == w && v * v == w);
        let a = g[base] as int;
        let b = g[base + 1] as int;
        let cc = g[base + 28] as int;
        let d = g[base + 29] as int;
        assert(centered_cell(g, i, j) == a * w + b * w + cc * w + d * w) by (nonlinear_arith)
            requires
                centered_cell(g, i, j) == a * (2 * v - v) * (2 * v - v) + b * (2 * v - v) * v + cc * v * (2 * v - v) + d * v * v,
                (2 * v - v) * (2 * v - v) == w,
                (2 * v - v) * v == w,
                v * (2 * v - v) == w,
                v * v == w,
        ;
        if centre_hit(i, r) && centre_hit(j, c) {
            assert(a * w + b * w + cc * w + d * w == v * v * v) by (nonlinear_arith)
                requires
                    w == v * v,
                    (a == v && b == 0 && cc == 0 && d == 0) || (a == 0 && b == v && cc == 0 && d == 0)
                        || (a == 0 && b == 0 && cc == v && d == 0) || (a == 0 && b == 0 && cc == 0 && d == v),
            ;
        } else {
            assert(a == 0 && b == 0 && cc == 0 && d == 0);
        }
    }
}

/// A grid whose ink lies in one cell, wherever it is, is recentred so that the
/// intensity-weighted centroid of the result is within half a cell of (13.5, 13.5)
/// on each axis (and the result still holds ink).
pub proof fn lemma_single_cell_centroid_per_axis(g: Seq<u32>, r: int, c: int)
    requires
        grid_wf(g),
        0 <= r < 28,
        0 <= c < 28,
        g[r * 28 + c] > 0,
        forall|q: int| 0 <= q < 784 && q != r * 28 + c ==> g[q] == 0,
    ensures
        cells_sum(centered_cells(g), 784) > 0,
        -cells_sum(centered_cells(g), 784) <= 2 * cells_row_moment(centered_cells(g), 784) - 27 * cells_sum(centered_cells(g), 784) <= cells_sum(centered_cells(g), 784),
        -cells_sum(centered_cells(g), 784) <= 2 * cells_col_moment(centered_cells(g), 784) - 27 * cells_sum(centered_cells(g), 784) <= cells_sum(centered_cells(g), 784),
{
    let out = centered_cells(g);
    let v = g[r * 28 + c] as int;
    let t = v * v * v;
    assert(t > 0) by (nonlinear_arith)
        requires
            v > 0,
            t == v * v * v,
    ;
    lemma_single_cell_moments(g, r * 28 + c, 784);
    assert forall|k: int| 0 <= k < 784 implies out[k] == if centre_hit(k / 28, r) && centre_hit(k % 28, c) { t } else { 0 } by {
        lemma_single_cell_output(g, r, c, k);
    }
    assert forall|k: int| 0 <= k < 784 && !is_centre_cell(k) implies out[k] == 0 by {
        lemma_single_cell_output(g, r, c, k);
    }
    lemma_centre_support_sums(out, 784);
    lemma_single_cell_output(g, r, c, 377);
    lemma_single_cell_output(g, r, c, 378);
    lemma_single_cell_output(g, r, c, 405);
    lemma_single_cell_output(g, r, c, 406);
}

/// A grid whose ink lies in one cell off the border is recentred so that the
/// intensity-weighted centroid of the result is exactly (13.5, 13.5): the ink is
/// shared equally by the four centre cells.
pub proof fn lemma_single_cell_centroid(g: Seq<u32>, r: int, c: int)
    requires
        grid_wf(g),
        1 <= r <= 26,
        1 <= c <= 26,
        g[r * 28 + c] > 0,
        forall|q: int| 0 <= q < 784 && q != r * 28 + c ==> g[q] == 0,
    ensures
        cells_sum(centered_cells(g), 784) > 0,
        2 * cells_row_moment(centered_cells(g), 784) == 27 * cells_sum(centered_cells(g), 784),
        2 * cells_col_moment(centered_cells(g), 784) == 27 * cells_sum(centered_cells(g), 784),
{
    let out = centered_cells(g);
    let v = g[r * 28 + c] as int;
    let t = v * v * v;
    assert(t > 0) by (nonlinear_arith)
        requires
            v > 0,
            t == v * v * v,
    ;
    assert forall|k: int| 0 <= k < 784 && !is_centre_cell(k) implies out[k] == 0 by {
        lemma_single_cell_output(g, r, c, k);
    }
    lemma_centre_support_sums(out, 784);
    lemma_single_cell_output(g, r, c, 377);
    lemma_single_cell_output(g, r, c, 378);
    lemma_single_cell_output(g, r, c, 405);
    lemma_single_cell_output(g, r, c, 406);
}

} // verus!
