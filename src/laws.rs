//! Properties that hold across the generators and the profile table.
use vstd::prelude::*;
use vstd::arithmetic::div_mod::{
    lemma_div_denominator, lemma_fundamental_div_mod, lemma_fundamental_div_mod_converse,
    lemma_mod_pos_bound,
};
use crate::generate::{
    generated_by, lemma_raster_position, raster_blue, raster_position, raster_green, raster_pixels, raster_red,
    GenerationMethod,
};
use crate::pixel::{indexed_pixel, Pixel};
use crate::profile::{color_count, depth_height, depth_steps, depth_width, quantize, ColorDepth};

verus! {

/// Every tier's buffer holds exactly one slot per colour: `(steps + 1)^3 == width * height`.
pub proof fn tier_fills_buffer(depth: ColorDepth)
    ensures
        color_count(depth_steps(depth)) == depth_width(depth) as int * depth_height(depth) as int,
        depth_steps(depth) > 0,
{
    match depth {
        ColorDepth::Bit24 => assert(256 * 256 * 256 == 4096 * 4096int),
        ColorDepth::Bit21 => assert(128 * 128 * 128 == 2048 * 1024int),
        ColorDepth::Bit18 => assert(64 * 64 * 64 == 512 * 512int),
        ColorDepth::Bit15 => assert(32 * 32 * 32 == 256 * 128int),
        ColorDepth::Bit12 => assert(16 * 16 * 16 == 64 * 64int),
        ColorDepth::Bit9 => assert(8 * 8 * 8 == 32 * 16int),
        ColorDepth::Bit6 => assert(4 * 4 * 4 == 8 * 8int),
    }
}

/// At full depth quantisation is the identity: index `i` out of `0..=255` shows as `i`.
pub proof fn quantize_full_depth_is_identity(i: int)
    requires
        0 <= i <= 255,
    ensures
        quantize(i, 255) == i,
{
    lemma_fundamental_div_mod_converse(i * 255, 255, i, 0);
}

/// A quantised index lies in `0..=255`.
pub proof fn quantize_in_range(i: int, steps: int)
    requires
        0 < steps <= 255,
        0 <= i <= steps,
    ensures
        0 <= quantize(i, steps) <= 255,
{
    assert(0 <= i * 255 / steps <= 255) by (nonlinear_arith)
        requires 0 < steps, 0 <= i <= steps;
}

/// Quantisation is strictly increasing in the index, so distinct indices show
/// as distinct values.
pub proof fn quantize_strictly_increasing(i: int, j: int, steps: int)
    requires
        0 < steps <= 255,
        0 <= i < j <= steps,
    ensures
        quantize(i, steps) < quantize(j, steps),
{
    lemma_fundamental_div_mod(i * 255, steps);
    lemma_fundamental_div_mod(j * 255, steps);
    lemma_mod_pos_bound(i * 255, steps);
    lemma_mod_pos_bound(j * 255, steps);
    let q = i * 255 / steps;
    let q2 = j * 255 / steps;
    let r = (i * 255) % steps;
    let r2 = (j * 255) % steps;
    assert(q < q2) by (nonlinear_arith)
        requires
            i * 255 == steps * q + r,
            j * 255 == steps * q2 + r2,
            0 <= r < steps,
            0 <= r2 < steps,
            steps <= 255,
            i < j,
    ;
}

/// Each position of the raster order names an index triple in range, and the
/// position is recovered from the triple.
proof fn lemma_raster_decompose(n: int, k: int)
    requires
        n > 0,
        0 <= k < n * n * n,
    ensures
        0 <= raster_red(n, k) < n,
        0 <= raster_green(n, k) < n,
        0 <= raster_blue(n, k) < n,
        k == raster_red(n, k) * n * n + raster_green(n, k) * n + raster_blue(n, k),
{
    lemma_fundamental_div_mod(k, n);
    lemma_mod_pos_bound(k, n);
    assert(k / n >= 0) by (nonlinear_arith)
        requires k == n * (k / n) + k % n, 0 <= k % n < n, k >= 0;
    lemma_fundamental_div_mod(k / n, n);
    lemma_mod_pos_bound(k / n, n);
    lemma_div_denominator(k, n, n);
    let q = k / (n * n);
    let g = (k / n) % n;
    let b = k % n;
    assert(k == q * n * n + g * n + b) by (nonlinear_arith)
        requires k == n * (k / n) + b, k / n == n * q + g;
    assert(0 <= q < n) by (nonlinear_arith)
        requires k == q * n * n + g * n + b, 0 <= g < n, 0 <= b < n, 0 <= k < n * n * n;
}

/// The raster order is a bijection between buffer positions and index
/// triples in `0..=steps`: it has `(steps + 1)^3` pixels, each the quantised
/// colour of its triple, every triple has a position, no two positions share a
/// triple, and no two pixels share a colour.
pub proof fn raster_enumerates_each_color_once(width: u16, steps: u8, pixels: Seq<Pixel>)
    requires
        steps > 0,
        generated_by(GenerationMethod::Raster, width, steps, pixels),
    ensures
        pixels.len() == color_count(steps),
        forall|k: int|
            0 <= k < pixels.len() ==> {
                &&& 0 <= #[trigger] raster_red(steps as int + 1, k) <= steps
                &&& 0 <= raster_green(steps as int + 1, k) <= steps
                &&& 0 <= raster_blue(steps as int + 1, k) <= steps
                &&& pixels[k] == indexed_pixel(
                    raster_red(steps as int + 1, k),
                    raster_green(steps as int + 1, k),
                    raster_blue(steps as int + 1, k),
                    steps as int,
                )
            },
        forall|r: int, g: int, b: int|
            0 <= r <= steps && 0 <= g <= steps && 0 <= b <= steps ==> {
                let k = #[trigger] raster_position(steps as int + 1, r, g, b);
                &&& 0 <= k < pixels.len()
                &&& raster_red(steps as int + 1, k) == r
                &&& raster_green(steps as int + 1, k) == g
                &&& raster_blue(steps as int + 1, k) == b
                &&& pixels[k] == indexed_pixel(r, g, b, steps as int)
            },
        forall|k1: int, k2: int|
            0 <= k1 < pixels.len() && 0 <= k2 < pixels.len() && k1 != k2 ==> #[trigger] raster_red(
                steps as int + 1,
                k1,
            ) != #[trigger] raster_red(steps as int + 1, k2) || raster_green(steps as int + 1, k1)
                != raster_green(steps as int + 1, k2) || raster_blue(steps as int + 1, k1)
                != raster_blue(steps as int + 1, k2),
        forall|k1: int, k2: int|
            0 <= k1 < pixels.len() && 0 <= k2 < pixels.len() && k1 != k2 ==> #[trigger] pixels[k1]
                != #[trigger] pixels[k2],
{
    let n = steps as int + 1;
    let s = steps as int;
    assert forall|k: int| 0 <= k < pixels.len() implies {
        &&& 0 <= #[trigger] raster_red(n, k) <= steps
        &&& 0 <= raster_green(n, k) <= steps
        &&& 0 <= raster_blue(n, k) <= steps
        &&& pixels[k] == indexed_pixel(raster_red(n, k), raster_green(n, k), raster_blue(n, k), s)
    } by {
        lemma_raster_decompose(n, k);
    }
    assert forall|r: int, g: int, b: int|
        0 <= r <= steps && 0 <= g <= steps && 0 <= b <= steps implies {
            let k = #[trigger] raster_position(steps as int + 1, r, g, b);
            &&& 0 <= k < pixels.len()
            &&& raster_red(steps as int + 1, k) == r
            &&& raster_green(steps as int + 1, k) == g
            &&& raster_blue(steps as int + 1, k) == b
            &&& pixels[k] == indexed_pixel(r, g, b, steps as int)
        } by {
        lemma_raster_position(n, r, g, b);
    }
    assert forall|k1: int, k2: int|
        0 <= k1 < pixels.len() && 0 <= k2 < pixels.len() && k1 != k2 implies
            #[trigger] raster_red(n, k1) != #[trigger] raster_red(n, k2)
            || raster_green(n, k1) != raster_green(n, k2)
            || raster_blue(n, k1) != raster_blue(n, k2) by {
        lemma_raster_decompose(n, k1);
        lemma_raster_decompose(n, k2);
    }
    assert forall|k1: int, k2: int|
        0 <= k1 < pixels.len() && 0 <= k2 < pixels.len() && k1 != k2 implies #[trigger] pixels[k1]
            != #[trigger] pixels[k2] by {
        lemma_raster_decompose(n, k1);
        lemma_raster_decompose(n, k2);
        distinct_indices_distinct_values(raster_red(n, k1), raster_red(n, k2), s);
        distinct_indices_distinct_values(raster_green(n, k1), raster_green(n, k2), s);
        distinct_indices_distinct_values(raster_blue(n, k1), raster_blue(n, k2), s);
    }
}

/// Two indices in range that differ show as two bytes that differ.
proof fn distinct_indices_distinct_values(i: int, j: int, steps: int)
    requires
        0 < steps <= 255,
        0 <= i <= steps,
        0 <= j <= steps,
    ensures
        i != j ==> quantize(i, steps) as u8 != quantize(j, steps) as u8,
{
    quantize_in_range(i, steps);
    quantize_in_range(j, steps);
    if i < j {
        quantize_strictly_increasing(i, j, steps);
    } else if j < i {
        quantize_strictly_increasing(j, i, steps);
    }
}

/// The random order holds the same pixels as the raster order, each as often.
pub proof fn random_permutes_raster(width: u16, steps: u8, shuffled: Seq<Pixel>, raster: Seq<Pixel>)
    requires
        generated_by(GenerationMethod::Random, width, steps, shuffled),
        generated_by(GenerationMethod::Raster, width, steps, raster),
    ensures
        shuffled.len() == raster.len(),
        shuffled.to_multiset() == raster.to_multiset(),
{
}

/// The raster order is deterministic: two buffers it produced for one profile are equal.
pub proof fn raster_is_deterministic(width: u16, steps: u8, first: Seq<Pixel>, second: Seq<Pixel>)
    requires
        generated_by(GenerationMethod::Raster, width, steps, first),
        generated_by(GenerationMethod::Raster, width, steps, second),
    ensures
        first == second,
{
}

/// Every pixel that any method produces is fully opaque.
pub proof fn every_pixel_opaque(method: GenerationMethod, width: u16, steps: u8, pixels: Seq<Pixel>)
    requires
        generated_by(method, width, steps, pixels),
    ensures
        forall|k: int| 0 <= k < pixels.len() ==> #[trigger] pixels[k].a == 255,
{
    if method == GenerationMethod::Random {
        broadcast use vstd::seq_lib::group_to_multiset_ensures;

        let raster = raster_pixels(steps);
        assert forall|k: int| 0 <= k < pixels.len() implies #[trigger] pixels[k].a == 255 by {
            assert(pixels.contains(pixels[k]));
            assert(pixels.to_multiset().count(pixels[k]) > 0);
            assert(raster.to_multiset().count(pixels[k]) > 0);
            assert(raster.contains(pixels[k]));
            let j = choose|j: int| 0 <= j < raster.len() && raster[j] == pixels[k];
            assert(raster[j].a == 255);
        }
    }
}

} // verus!
