//! The integer settings of the terrain's height map: its size, the noise
//! seed and sampling step, and the blur kernel.

use vstd::prelude::*;

verus! {

/// Width and height of the height map, in cells.
pub const MAP_SIZE: usize = 256;

/// The seed of the noise that the height map is sampled from.
pub const NOISE_SEED: u32 = 81565128;

/// Cells per unit of noise space: cell `(x, y)` samples the noise at
/// `(x / NOISE_STEP, y / NOISE_STEP)`.
pub const NOISE_STEP: u32 = 10;

/// The weight of each neighbour in the 3x3 blur, row by row.
pub open spec fn spec_blur_kernel() -> Seq<Seq<u8>> {
    seq![seq![1u8, 2u8, 1u8], seq![2u8, 4u8, 2u8], seq![1u8, 2u8, 1u8]]
}

/// The sum of a row of weights.
pub open spec fn row_sum(row: Seq<u8>) -> int {
    row[0] + row[1] + row[2]
}

/// The 3x3 blur kernel: the centre counts four times, the edge neighbours
/// twice and the corners once.
pub fn blur_kernel() -> (k: [[u8; 3]; 3])
    ensures
        forall|i: int, j: int|
            0 <= i < 3 && 0 <= j < 3 ==> #[trigger] k@[i]@[j] == spec_blur_kernel()[i][j],
{
    let k: [[u8; 3]; 3] = [[1, 2, 1], [2, 4, 2], [1, 2, 1]];
    assert(k@[0]@ =~= spec_blur_kernel()[0]);
    assert(k@[1]@ =~= spec_blur_kernel()[1]);
    assert(k@[2]@ =~= spec_blur_kernel()[2]);
    k
}

/// What the weighted sum of a 3x3 window is divided by.
pub fn blur_divisor() -> (d: u32)
    ensures
        d == row_sum(spec_blur_kernel()[0]) + row_sum(spec_blur_kernel()[1]) + row_sum(
            spec_blur_kernel()[2],
        ),
{
    16
}

/// The kernel is normalised and symmetric: its weights add up to the
/// divisor, so a flat height map stays flat, and mirroring the window
/// horizontally, vertically or across the diagonal leaves it unchanged.
pub proof fn lemma_blur_kernel_normalised()
    ensures
        row_sum(spec_blur_kernel()[0]) + row_sum(spec_blur_kernel()[1]) + row_sum(
            spec_blur_kernel()[2],
        ) == 16,
        forall|i: int, j: int|
            0 <= i < 3 && 0 <= j < 3 ==> {
                &&& #[trigger] spec_blur_kernel()[i][j] == spec_blur_kernel()[2 - i][j]
                &&& spec_blur_kernel()[i][j] == spec_blur_kernel()[i][2 - j]
                &&& spec_blur_kernel()[i][j] == spec_blur_kernel()[j][i]
            },
{
}

/// What the height-map PNG decodes to as grey levels: `image::load` as
/// PNG, then `grayscale` and `to_luma8`; width, height and one byte per
/// pixel, row by row, top row first.  None when the bytes are no PNG.
pub uninterp spec fn spec_png_luma8(bytes: Seq<u8>) -> Option<(u32, u32, Seq<u8>)>;

/// Decodes PNG bytes with `image::load` (format PNG) and turns the image
/// into grey levels with `grayscale` and `to_luma8`.  The contract claims
/// that the result is the named decoding, `None` exactly when `image::load`
/// reports an error, and that there is one byte per pixel: the decoder
/// allocates exactly `width * height` pixels and `to_luma8` keeps or
/// rebuilds a buffer of that size.  The grey values themselves are left to
/// the name.
#[verifier::external_body]
fn decode_png_luma8(bytes: &[u8]) -> (r: Option<(u32, u32, Vec<u8>)>)
    ensures
        r is None <==> spec_png_luma8(bytes@) is None,
        r matches Some(v) ==> spec_png_luma8(bytes@) == Some((v.0, v.1, v.2@)) && v.2@.len() == v.0
            * v.1,
{
    match image::load(std::io::Cursor::new(bytes), image::ImageFormat::Png) {
        Ok(img) => {
            let grey = img.grayscale().to_luma8();
            let (width, height) = grey.dimensions();
            Some((width, height, grey.into_raw()))
        },
        Err(_) => None,
    }
}

/// Where cell `(x, y)` stands in the list of cells: column by column.
pub open spec fn cell_index(x: int, y: int, height: int) -> int {
    x * height + y
}

/// Where pixel `(x, y)` stands in a grey image: row by row.
pub open spec fn pixel_index(x: int, y: int, width: int) -> int {
    y * width + x
}

/// The cells of the height map: one per pixel of the grey image, as
/// `(x, y, grey level)`, column by column (all of column 0 top to bottom,
/// then column 1, ...).  None when the bytes are no PNG.
pub fn terrain_cells(png: &[u8]) -> (r: Option<Vec<(u32, u32, u8)>>)
    ensures
        match spec_png_luma8(png@) {
            Some((width, height, grey)) => r matches Some(cells) && cells@.len() == width * height
                && forall|x: int, y: int|
                0 <= x < width && 0 <= y < height ==> #[trigger] cells@[cell_index(x, y, height as int)]
                    == (x as u32, y as u32, grey[pixel_index(x, y, width as int)]),
            None => r is None,
        },
{
    match decode_png_luma8(png) {
        None => None,
        Some((width, height, grey)) => {
            let n: usize = grey.len();
            let ghost w: int = width as int;
            let ghost h: int = height as int;
            let mut cells: Vec<(u32, u32, u8)> = Vec::new();
            let mut x: u32 = 0;
            while x < width
                invariant
                    x <= width,
                    w == width,
                    h == height,
                    n == grey@.len(),
                    grey@.len() == w * h,
                    cells@.len() == x * h,
                    forall|i: int, j: int|
                        0 <= i < x && 0 <= j < h ==> #[trigger] cells@[cell_index(i, j, h)] == (
                        i as u32,
                        j as u32,
                        grey@[pixel_index(i, j, w)],
                    ),
                decreases width - x,
            {
                let mut y: u32 = 0;
                while y < height
                    invariant
                        x < width,
                        y <= height,
                        w == width,
                        h == height,
                        n == grey@.len(),
                        grey@.len() == w * h,
                        cells@.len() == x * h + y,
                        forall|i: int, j: int|
                            (0 <= i < x && 0 <= j < h) || (i == x && 0 <= j < y)
                                ==> #[trigger] cells@[cell_index(i, j, h)] == (
                            i as u32,
                            j as u32,
                            grey@[pixel_index(i, j, w)],
                        ),
                    decreases height - y,
                {
                    proof {
                        assert(0 <= y * w + x < w * h) by (nonlinear_arith)
                            requires
                                0 <= x < w,
                                0 <= y < h,
                        ;
                    }
                    let idx: usize = (y as usize) * (width as usize) + (x as usize);
                    let ghost before = cells@;
                    cells.push((x, y, grey[idx]));
                    proof {
                        assert forall|i: int, j: int|
                            (0 <= i < x && 0 <= j < h) || (i == x && 0 <= j < y + 1)
                                implies #[trigger] cells@[cell_index(i, j, h)] == (
                            i as u32,
                            j as u32,
                            grey@[pixel_index(i, j, w)],
                        ) by {
                            if i == x && j == y {
                                assert(cell_index(i, j, h) == before.len());
                            } else {
                                assert(0 <= cell_index(i, j, h) < x * h + y) by (nonlinear_arith)
                                    requires
                                        (0 <= i < x && 0 <= j < h) || (i == x && 0 <= j < y),
                                        cell_index(i, j, h) == i * h + j,
                                        h >= 0,
                                        y >= 0,
                                        x >= 0,
                                {
                                    if i < x {
                                        assert(i * h <= (x - 1) * h) by (nonlinear_arith)
                                            requires
                                                i <= x - 1,
                                                h >= 0,
                                        ;
                                        assert((x - 1) * h == x * h - h) by (nonlinear_arith);
                                        assert(i * h >= 0) by (nonlinear_arith)
                                            requires
                                                i >= 0,
                                                h >= 0,
                                        ;
                                    } else {
                                        assert(x * h >= 0) by (nonlinear_arith)
                                            requires
                                                x >= 0,
                                                h >= 0,
                                        ;
                                    }
                                }
                            }
                        }
                    }
                    y = y + 1;
                }
                proof {
                    assert(x * h + h == (x + 1) * h) by (nonlinear_arith);
                }
                x = x + 1;
            }
            Some(cells)
        },
    }
}

} // verus!
