//! The scalar renderer: from a grid of iteration counts to a row-major RGBA
//! buffer.
//!
//! The grid has `width * height` pixels, origin at the top left. The pixel in
//! column `px` of row `py` has the index `py * width + px`; its count stands
//! at that index in `counts`, and its four bytes stand at four times that
//! index in the buffer. Every pixel's bytes depend on its own count alone.

use vstd::prelude::*;
use crate::color::{pixel_bytes, pixel_rgba};

verus! {

/// Iteration budget that the scalar renderer is run with.
pub const SCALAR_MAX_ITER: u32 = 500;

/// Bytes per pixel: red, green, blue, alpha.
pub const BYTES_PER_PIXEL: usize = 4;

/// Number of pixels of a `width` by `height` grid.
pub open spec fn pixel_count(width: nat, height: nat) -> nat {
    width * height
}

/// Number of bytes of the buffer for a `width` by `height` grid.
pub open spec fn byte_count(width: nat, height: nat) -> nat {
    4 * pixel_count(width, height)
}

/// Index of the pixel in column `px` of row `py`, rows counted from the top.
pub open spec fn pixel_index(width: nat, px: nat, py: nat) -> nat {
    py * width + px
}

/// Index in the buffer of byte `channel` of the pixel in column `px` of row
/// `py`: the four bytes of a pixel are contiguous.
pub open spec fn byte_index(width: nat, px: nat, py: nat, channel: nat) -> nat {
    4 * pixel_index(width, px, py) + channel
}

/// The buffer that a grid of counts is rendered to: byte `j` is byte `j % 4`
/// of the pixel with index `j / 4`.
pub open spec fn rendered(counts: Seq<u32>, max_iter: nat) -> Seq<u8> {
    Seq::new(4 * counts.len(), |j: int| pixel_bytes(counts[j / 4] as nat, max_iter)[j % 4])
}

/// `output` holds the image of the grid, said pixel by pixel: it has the
/// length of the grid's buffer, and each byte of each pixel in it is the byte
/// that the pixel's own count gives.
pub open spec fn is_rendering(
    output: Seq<u8>,
    width: nat,
    height: nat,
    counts: Seq<u32>,
    max_iter: nat,
) -> bool {
    &&& output.len() == byte_count(width, height)
    &&& forall|px: nat, py: nat, channel: nat|
        px < width && py < height && channel < 4 ==> #[trigger] output[byte_index(
            width,
            px,
            py,
            channel,
        ) as int] == pixel_bytes(
            counts[pixel_index(width, px, py) as int] as nat,
            max_iter,
        )[channel as int]
}

/// Length in bytes of the buffer for a `width` by `height` grid, unless it
/// exceeds what a buffer can hold.
pub fn buffer_len(width: u32, height: u32) -> (len: Option<usize>)
    ensures
        len == if byte_count(width as nat, height as nat) <= usize::MAX {
            Some(byte_count(width as nat, height as nat) as usize)
        } else {
            None::<usize>
        },
{
    assert(4 * width * height == 4 * (width * height) && width * height <= 0xffff_ffff
        * 0xffff_ffff) by (nonlinear_arith);
    let bytes: u128 = 4 * (width as u128) * (height as u128);
    if bytes <= usize::MAX as u128 {
        Some(bytes as usize)
    } else {
        None
    }
}

/// Paints every pixel of the grid: for each row from the top, for each
/// column from the left, the pixel's RGBA bytes are written in place.
///
/// The previous contents of `output` play no part in the result.
pub fn render(width: u32, height: u32, max_iter: u32, counts: &[u32], output: &mut [u8])
    requires
        counts@.len() == pixel_count(width as nat, height as nat),
        old(output)@.len() == byte_count(width as nat, height as nat),
    ensures
        final(output)@ == rendered(counts@, max_iter as nat),
        is_rendering(final(output)@, width as nat, height as nat, counts@, max_iter as nat),
{
    let w: usize = width as usize;
    let ghost image = rendered(counts@, max_iter as nat);
    assert(output@.len() == output.len() <= usize::MAX);
    assert(pixel_index(width as nat, 0, 0) == 0);
    for py in 0..height
        invariant
            w == width,
            counts@.len() == pixel_count(width as nat, height as nat),
            output@.len() == byte_count(width as nat, height as nat) <= usize::MAX,
            image == rendered(counts@, max_iter as nat),
            forall|j: int|
                0 <= j < 4 * pixel_index(width as nat, 0, py as nat) ==> output@[j] == image[j],
    {
        for px in 0..width
            invariant
                w == width,
                py < height,
                counts@.len() == pixel_count(width as nat, height as nat),
                output@.len() == byte_count(width as nat, height as nat) <= usize::MAX,
                image == rendered(counts@, max_iter as nat),
                forall|j: int|
                    0 <= j < 4 * pixel_index(width as nat, px as nat, py as nat) ==> output@[j]
                        == image[j],
        {
            proof {
                lemma_pixel_index_in_grid(width as nat, height as nat, px as nat, py as nat);
            }
            let i: usize = py as usize * w + px as usize;
            let rgba = pixel_rgba(counts[i], max_iter);
            let idx: usize = i * BYTES_PER_PIXEL;
            output[idx] = rgba[0];
            output[idx + 1] = rgba[1];
            output[idx + 2] = rgba[2];
            output[idx + 3] = rgba[3];
        }
        assert(pixel_index(width as nat, width as nat, py as nat) == pixel_index(
            width as nat,
            0,
            (py + 1) as nat,
        )) by (nonlinear_arith);
    }
    proof {
        assert(pixel_index(width as nat, 0, height as nat) == pixel_count(
            width as nat,
            height as nat,
        )) by (nonlinear_arith);
        assert(output@ =~= image);
        lemma_is_rendering(output@, width as nat, height as nat, counts@, max_iter as nat);
    }
}

/// Renders the grid if `counts` and `output` have the lengths that the grid
/// asks for, and says whether they have. Where they have not, nothing is
/// written.
#[must_use]
pub fn render_checked(
    width: u32,
    height: u32,
    max_iter: u32,
    counts: &[u32],
    output: &mut [u8],
) -> (fits: bool)
    ensures
        fits == (counts@.len() == pixel_count(width as nat, height as nat) && old(output)@.len()
            == byte_count(width as nat, height as nat)),
        fits ==> final(output)@ == rendered(counts@, max_iter as nat),
        !fits ==> final(output)@ == old(output)@,
{
    let bytes: usize = output.len();
    let pixels: usize = counts.len();
    match buffer_len(width, height) {
        Some(len) => {
            if bytes == len && pixels == len / BYTES_PER_PIXEL {
                render(width, height, max_iter, counts, output);
                true
            } else {
                false
            }
        },
        None => false,
    }
}

/// A pixel inside the grid has an index inside the grid.
pub proof fn lemma_pixel_index_in_grid(width: nat, height: nat, px: nat, py: nat)
    requires
        px < width,
        py < height,
    ensures
        pixel_index(width, px, py) < pixel_count(width, height),
{
    assert(py * width + px < width * height) by (nonlinear_arith)
        requires
            px < width,
            py < height,
    ;
}

/// Two pixels of the grid with the same index are the same pixel: no two
/// pixels share a count or a byte of the buffer.
pub proof fn lemma_pixel_index_injective(width: nat, px: nat, py: nat, qx: nat, qy: nat)
    requires
        px < width,
        qx < width,
        pixel_index(width, px, py) == pixel_index(width, qx, qy),
    ensures
        px == qx,
        py == qy,
{
    assert(py == qy && px == qx) by (nonlinear_arith)
        requires
            px < width,
            qx < width,
            py * width + px == qy * width + qx,
    ;
}

/// Every index of the grid is the index of a pixel of the grid: the one in
/// column `index % width` of row `index / width`.
pub proof fn lemma_pixel_index_onto(width: nat, height: nat, index: nat)
    requires
        index < pixel_count(width, height),
    ensures
        index % width < width,
        index / width < height,
        pixel_index(width, index % width, index / width) == index,
{
    assert(width > 0) by (nonlinear_arith)
        requires
            index < width * height,
    ;
    assert(index % width < width && index / width < height && (index / width) * width + index
        % width == index) by (nonlinear_arith)
        requires
            index < width * height,
            width > 0,
    ;
}

/// Row by row, column by column: in the image of a grid, the bytes of the
/// pixel in column `px` of row `py` start at four times its index, and they
/// are the bytes that the count at its index gives.
pub proof fn lemma_rendered_pixel(
    counts: Seq<u32>,
    max_iter: nat,
    width: nat,
    height: nat,
    px: nat,
    py: nat,
    channel: nat,
)
    requires
        counts.len() == pixel_count(width, height),
        px < width,
        py < height,
        channel < 4,
    ensures
        byte_index(width, px, py, channel) < byte_count(width, height),
        rendered(counts, max_iter)[byte_index(width, px, py, channel) as int] == pixel_bytes(
            counts[pixel_index(width, px, py) as int] as nat,
            max_iter,
        )[channel as int],
{
    lemma_pixel_index_in_grid(width, height, px, py);
}

/// The pixel-by-pixel description of an image leaves nothing open: a buffer
/// meets it if and only if it is the image of the grid.
pub proof fn lemma_is_rendering(
    output: Seq<u8>,
    width: nat,
    height: nat,
    counts: Seq<u32>,
    max_iter: nat,
)
    requires
        counts.len() == pixel_count(width, height),
    ensures
        is_rendering(output, width, height, counts, max_iter) <==> output == rendered(
            counts,
            max_iter,
        ),
{
    let image = rendered(counts, max_iter);
    assert(is_rendering(image, width, height, counts, max_iter)) by {
        assert forall|px: nat, py: nat, channel: nat|
            px < width && py < height && channel < 4 implies #[trigger] image[byte_index(
            width,
            px,
            py,
            channel,
        ) as int] == pixel_bytes(
            counts[pixel_index(width, px, py) as int] as nat,
            max_iter,
        )[channel as int] by {
            lemma_rendered_pixel(counts, max_iter, width, height, px, py, channel);
        }
    }
    if is_rendering(output, width, height, counts, max_iter) {
        assert forall|j: int| 0 <= j < output.len() implies output[j] == image[j] by {
            let index = (j / 4) as nat;
            let channel = (j % 4) as nat;
            lemma_pixel_index_onto(width, height, index);
            assert(j == byte_index(width, index % width, index / width, channel));
        }
        assert(output =~= image);
    }
}

/// Rendering is a function of the grid and the budget: two buffers that
/// both hold the image of the same counts under the same budget are equal
/// byte for byte, whatever they held before.
pub proof fn lemma_render_deterministic(
    first: Seq<u8>,
    second: Seq<u8>,
    width: nat,
    height: nat,
    counts: Seq<u32>,
    max_iter: nat,
)
    requires
        counts.len() == pixel_count(width, height),
        is_rendering(first, width, height, counts, max_iter),
        is_rendering(second, width, height, counts, max_iter),
    ensures
        first == second,
{
    lemma_is_rendering(first, width, height, counts, max_iter);
    lemma_is_rendering(second, width, height, counts, max_iter);
}

/// With a budget of no steps every pixel is painted the inside colour,
/// opaque black, whatever its count.
pub proof fn lemma_zero_budget_is_inside(counts: Seq<u32>, pixel: int)
    requires
        0 <= pixel < counts.len(),
    ensures
        rendered(counts, 0).subrange(4 * pixel, 4 * pixel + 4) == seq![0u8, 0u8, 0u8, 255u8],
{
    let image = rendered(counts, 0);
    let bytes = image.subrange(4 * pixel, 4 * pixel + 4);
    assert(bytes =~= seq![0u8, 0u8, 0u8, 255u8]) by {
        assert forall|k: int| 0 <= k < 4 implies bytes[k] == seq![0u8, 0u8, 0u8, 255u8][k] by {
            assert(bytes[k] == image[4 * pixel + k]);
            assert((4 * pixel + k) / 4 == pixel && (4 * pixel + k) % 4 == k);
        }
    }
}

} // verus!
