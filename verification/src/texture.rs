//! Turning PNG bytes into a texture image for OpenGL: decoded as RGBA8
//! and flipped so that the bottom row comes first.

use vstd::prelude::*;

verus! {

/// What `image::load` decodes PNG bytes to, as RGBA8: width, height and
/// pixels row by row, top row first; none when the bytes are no PNG.
pub uninterp spec fn spec_png_rgba8(bytes: Seq<u8>) -> Option<(u32, u32, Seq<u8>)>;

/// Decodes PNG bytes with `image::load` (format PNG) and converts the image
/// with `to_rgba8`.  The contract claims that the result is the named
/// decoding of the bytes, `None` exactly when `image::load` reports an
/// error, and that the pixel buffer holds four bytes per pixel: the decoder
/// allocates exactly `width * height` pixels and `to_rgba8` keeps or
/// rebuilds a buffer of that size.  What the decoded pixels are is left to
/// the name.
#[verifier::external_body]
fn decode_png_rgba8(bytes: &[u8]) -> (r: Option<(u32, u32, Vec<u8>)>)
    ensures
        r is None <==> spec_png_rgba8(bytes@) is None,
        r matches Some(v) ==> spec_png_rgba8(bytes@) == Some((v.0, v.1, v.2@)) && v.2@.len() == 4
            * v.0 * v.1,
{
    match image::load(std::io::Cursor::new(bytes), image::ImageFormat::Png) {
        Ok(img) => {
            let rgba = img.to_rgba8();
            let (width, height) = rgba.dimensions();
            Some((width, height, rgba.into_raw()))
        },
        Err(_) => None,
    }
}

/// The rows of `data`, `row_len` bytes each, in reverse order: the last row
/// first, every row's bytes kept in their order.
pub open spec fn spec_rows_reversed(data: Seq<u8>, row_len: nat) -> Seq<u8>
    decreases data.len(),
{
    if row_len == 0 || data.len() < row_len {
        data
    } else {
        data.subrange(data.len() - row_len, data.len() as int) + spec_rows_reversed(
            data.subrange(0, data.len() - row_len),
            row_len,
        )
    }
}

/// Reverses the order of the rows of `data`, `row_len` bytes per row.
pub fn rows_reversed(data: &Vec<u8>, row_len: usize) -> (r: Vec<u8>)
    requires
        row_len > 0,
        data@.len() as int % row_len as int == 0,
    ensures
        r@ == spec_rows_reversed(data@, row_len as nat),
{
    let n: usize = data.len();
    let ghost rl: int = row_len as int;
    let ghost mut k: int = n as int / rl;
    proof {
        vstd::arithmetic::div_mod::lemma_fundamental_div_mod(n as int, rl);
        assert(n as int == rl * k);
        assert(k >= 0) by (nonlinear_arith)
            requires
                n as int == rl * k,
                rl > 0,
                n >= 0,
        ;
        assert(data@.take(n as int) =~= data@);
    }
    let mut r: Vec<u8> = Vec::new();
    let mut end: usize = n;
    while end > 0
        invariant
            n == data@.len(),
            rl == row_len,
            rl > 0,
            end <= n,
            k >= 0,
            end as int == rl * k,
            r@ + spec_rows_reversed(data@.take(end as int), row_len as nat) == spec_rows_reversed(
                data@,
                row_len as nat,
            ),
        decreases end,
    {
        proof {
            if k == 0 {
                assert(rl * k == 0) by (nonlinear_arith)
                    requires
                        k == 0,
                ;
            }
            assert(k >= 1);
            assert(rl * k >= rl) by (nonlinear_arith)
                requires
                    rl > 0,
                    k >= 1,
            ;
            assert(rl * k - rl == rl * (k - 1)) by (nonlinear_arith);
        }
        let start: usize = end - row_len;
        let ghost r0 = r@;
        let mut i: usize = start;
        while i < end
            invariant
                start <= i <= end,
                end <= n,
                n == data@.len(),
                r@ == r0 + data@.subrange(start as int, i as int),
            decreases end - i,
        {
            r.push(data[i]);
            assert(data@.subrange(start as int, i as int + 1) =~= data@.subrange(
                start as int,
                i as int,
            ).push(data@[i as int]));
            i = i + 1;
        }
        proof {
            let t = data@.take(end as int);
            assert(t.len() == end);
            assert(t.subrange(t.len() - rl, t.len() as int) =~= data@.subrange(
                start as int,
                end as int,
            ));
            assert(t.subrange(0, t.len() - rl) =~= data@.take(start as int));
            assert(spec_rows_reversed(t, row_len as nat) == data@.subrange(start as int, end as int)
                + spec_rows_reversed(data@.take(start as int), row_len as nat));
            assert(r@ + spec_rows_reversed(data@.take(start as int), row_len as nat) =~= r0 + (
            data@.subrange(start as int, end as int) + spec_rows_reversed(
                data@.take(start as int),
                row_len as nat,
            )));
            k = k - 1;
        }
        end = start;
    }
    proof {
        assert(data@.take(0) =~= Seq::<u8>::empty());
        assert(r@ + Seq::<u8>::empty() =~= r@);
    }
    r
}

/// A texture image for OpenGL from PNG bytes: the decoded width and height
/// and the RGBA8 pixels with the bottom row first.  `None` where the bytes
/// are no PNG or the image has no columns (rows of no bytes cannot be
/// told apart).
pub fn png_texture(bytes: &[u8]) -> (r: Option<(u32, u32, Vec<u8>)>)
    ensures
        match spec_png_rgba8(bytes@) {
            Some((width, height, pixels)) => if width > 0 {
                r matches Some(v) && v.0 == width && v.1 == height && v.2@ == spec_rows_reversed(
                    pixels,
                    4 * width as nat,
                ) && v.2@.len() == 4 * v.0 * v.1
            } else {
                r is None
            },
            None => r is None,
        },
{
    match decode_png_rgba8(bytes) {
        None => None,
        Some((width, height, data)) => {
            if width == 0 {
                return None;
            }
            if height == 0 {
                proof {
                    assert(data@.len() == 0) by (nonlinear_arith)
                        requires
                            data@.len() == 4 * width * height,
                            height == 0,
                    ;
                    assert(data@.len() < 4 * width);
                }
                return Some((width, height, data));
            }
            proof {
                assert(4 * width <= data@.len() && (data@.len() as int) % (4 * width as int) == 0)
                    by (nonlinear_arith)
                    requires
                        data@.len() == 4 * width * height,
                        height >= 1,
                        width >= 1,
                {
                    vstd::arithmetic::div_mod::lemma_mod_multiples_basic(
                        height as int,
                        4 * width as int,
                    );
                    assert(4 * width * height == (height as int) * (4 * width as int));
                }
            }
            let len: usize = data.len();
            assert(4 * width <= len);
            let row_len: usize = 4 * (width as usize);
            let flipped = rows_reversed(&data, row_len);
            proof {
                lemma_rows_reversed_len(data@, row_len as nat);
            }
            Some((width, height, flipped))
        },
    }
}

/// Flipping keeps the number of bytes.
pub proof fn lemma_rows_reversed_len(data: Seq<u8>, row_len: nat)
    ensures
        spec_rows_reversed(data, row_len).len() == data.len(),
    decreases data.len(),
{
    if row_len > 0 && data.len() >= row_len {
        lemma_rows_reversed_len(data.subrange(0, data.len() - row_len), row_len);
    }
}

/// Of `rows` rows of `row_len` bytes, row `r` of the flipped image is row
/// `rows - 1 - r` of the original, byte for byte.
pub proof fn lemma_rows_reversed_row(data: Seq<u8>, row_len: nat, rows: nat, r: nat)
    requires
        row_len > 0,
        data.len() == row_len * rows,
        r < rows,
    ensures
        spec_rows_reversed(data, row_len).subrange(
            (r * row_len) as int,
            (r * row_len + row_len) as int,
        ) == data.subrange(
            ((rows - 1 - r) * row_len) as int,
            ((rows - 1 - r) * row_len + row_len) as int,
        ),
    decreases rows,
{
    let rl = row_len as int;
    let n = rows as int;
    let ri = r as int;
    let len = data.len() as int;
    assert(len - rl == rl * (n - 1) && len >= rl) by (nonlinear_arith)
        requires
            len == rl * n,
            n >= 1,
            rl > 0,
    ;
    let last = data.subrange(len - rl, len);
    let prefix = data.subrange(0, len - rl);
    let rest = spec_rows_reversed(prefix, row_len);
    assert(spec_rows_reversed(data, row_len) == last + rest);
    lemma_rows_reversed_len(prefix, row_len);
    if r == 0 {
        assert((n - 1 - 0) * rl == len - rl) by (nonlinear_arith)
            requires
                len - rl == rl * (n - 1),
        ;
        assert((last + rest).subrange(0, rl) =~= last);
        assert(r * row_len == 0) by (nonlinear_arith)
            requires
                r == 0,
        ;
        assert(data.subrange(len - rl, len - rl + rl) =~= last);
    } else {
        assert(ri * rl - rl == (ri - 1) * rl && ri * rl + rl <= len && (n - 1 - ri) * rl + rl <= (n
            - 1) * rl && (n - 1 - ri) * rl >= 0 && ri * rl >= rl && (n - 1 - ri) == (n - 1) - 1 - (
        ri - 1) && prefix.len() == (n - 1) * rl) by (nonlinear_arith)
            requires
                len == rl * n,
                len - rl == rl * (n - 1),
                prefix.len() == len - rl,
                1 <= ri < n,
                rl > 0,
        ;
        lemma_rows_reversed_row(prefix, row_len, (rows - 1) as nat, (r - 1) as nat);
        assert((last + rest).subrange(ri * rl, ri * rl + rl) =~= rest.subrange(
            (ri - 1) * rl,
            (ri - 1) * rl + rl,
        ));
        assert(prefix.subrange((n - 1 - ri) * rl, (n - 1 - ri) * rl + rl) =~= data.subrange(
            (n - 1 - ri) * rl,
            (n - 1 - ri) * rl + rl,
        ));
    }
}

} // verus!
