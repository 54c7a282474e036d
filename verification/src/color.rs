//! The linear colour policy: black inside the set, a red-to-blue gradient
//! outside of it, always fully opaque.

use vstd::prelude::*;

verus! {

/// Alpha byte of every pixel.
pub const OPAQUE: u8 = 255;

/// Position of an escaping point on the gradient: `255 * count / max_iter`,
/// rounded down. Below 255 whenever `count < max_iter`.
pub open spec fn gradient_level(count: nat, max_iter: nat) -> nat
    recommends
        count < max_iter,
{
    255 * count / max_iter
}

/// Red, green and blue of a point with the given iteration count.
///
/// A count that reached the budget means the orbit never left the escape
/// radius: the point is painted black. Any other count `t` steps along the
/// gradient gives `(t, 0, 255 - t)`.
pub open spec fn linear_color(count: nat, max_iter: nat) -> Seq<u8> {
    if count >= max_iter {
        seq![0u8, 0u8, 0u8]
    } else {
        let t = gradient_level(count, max_iter);
        seq![t as u8, 0u8, (255 - t) as u8]
    }
}

/// The four bytes of a pixel: its linear colour followed by full opacity.
pub open spec fn pixel_bytes(count: nat, max_iter: nat) -> Seq<u8> {
    linear_color(count, max_iter).push(OPAQUE)
}

/// The gradient level of a count below the budget fits in a byte, with room
/// to spare: it never reaches 255.
pub proof fn lemma_gradient_level_bound(count: nat, max_iter: nat)
    requires
        count < max_iter,
    ensures
        gradient_level(count, max_iter) < 255,
{
    assert(255 * count / max_iter < 255) by (nonlinear_arith)
        requires
            count < max_iter,
    ;
}

/// The two ends of the policy: a count that reached the budget is black,
/// and a count of zero under a budget of at least one step is pure blue.
pub proof fn lemma_linear_color_ends(count: nat, max_iter: nat)
    ensures
        count >= max_iter ==> linear_color(count, max_iter) == seq![0u8, 0u8, 0u8],
        count == 0 && max_iter > 0 ==> linear_color(count, max_iter) == seq![0u8, 0u8, 255u8],
{
    if count == 0 && max_iter > 0 {
        assert(gradient_level(0, max_iter) == 0) by (nonlinear_arith)
            requires
                max_iter > 0,
                gradient_level(0, max_iter) == 255 * 0nat / max_iter,
        ;
        assert(linear_color(count, max_iter) =~= seq![0u8, 0u8, 255u8]);
    }
}

/// Between its ends the policy is a gradient from blue towards red: green
/// stays at 0, red and blue add up to 255, and a larger count under the same
/// budget never has less red.
pub proof fn lemma_linear_color_gradient(lower: nat, higher: nat, max_iter: nat)
    requires
        lower <= higher < max_iter,
    ensures
        linear_color(higher, max_iter)[1] == 0,
        linear_color(higher, max_iter)[0] + linear_color(higher, max_iter)[2] == 255,
        linear_color(lower, max_iter)[0] <= linear_color(higher, max_iter)[0] < 255,
{
    lemma_gradient_level_bound(lower, max_iter);
    lemma_gradient_level_bound(higher, max_iter);
    assert(255 * lower / max_iter <= 255 * higher / max_iter) by (nonlinear_arith)
        requires
            lower <= higher < max_iter,
    ;
}

/// Colour of a point under the linear policy.
pub fn iteration_to_color(iter: u32, max_iter: u32) -> (rgb: [u8; 3])
    ensures
        rgb@ == linear_color(iter as nat, max_iter as nat),
{
    if iter >= max_iter {
        [0, 0, 0]
    } else {
        proof {
            lemma_gradient_level_bound(iter as nat, max_iter as nat);
        }
        let c: u8 = (255 * (iter as u64) / (max_iter as u64)) as u8;
        [c, 0, 255 - c]
    }
}

/// The RGBA quadruple of a point: its linear colour, fully opaque.
pub fn pixel_rgba(iter: u32, max_iter: u32) -> (rgba: [u8; 4])
    ensures
        rgba@ == pixel_bytes(iter as nat, max_iter as nat),
{
    let rgb = iteration_to_color(iter, max_iter);
    [rgb[0], rgb[1], rgb[2], OPAQUE]
}

} // verus!
