use vstd::prelude::*;
use vstd::arithmetic::div_mod::{lemma_fundamental_div_mod, lemma_fundamental_div_mod_converse};
use crate::pixel::{indexed_pixel, Pixel};
use crate::profile::{calculate_color, color_count, ColorDepth, ColorDepthData};
use rand::seq::SliceRandom;

verus! {

/// The order in which the colours are laid out.
#[derive(Clone, Copy, Debug, PartialEq, Eq, Structural)]
pub enum GenerationMethod {
    Raster,
    Random,
    SmoothPixels,
}

/// Raw red index of the `k`-th pixel in raster order (`n` values per channel).
pub open spec fn raster_red(n: int, k: int) -> int {
    k / (n * n)
}

/// Raw green index of the `k`-th pixel in raster order.
pub open spec fn raster_green(n: int, k: int) -> int {
    (k / n) % n
}

/// Raw blue index of the `k`-th pixel in raster order.
pub open spec fn raster_blue(n: int, k: int) -> int {
    k % n
}

/// Position of the index triple `(r, g, b)` in raster order.
pub open spec fn raster_position(n: int, r: int, g: int, b: int) -> int {
    r * n * n + g * n + b
}

/// Every colour of `0..=steps` per channel, red outermost and blue innermost.
pub open spec fn raster_pixels(steps: u8) -> Seq<Pixel> {
    let n = steps as int + 1;
    Seq::new(
        color_count(steps) as nat,
        |k: int| indexed_pixel(raster_red(n, k), raster_green(n, k), raster_blue(n, k), steps as int),
    )
}

/// Position `r * n * n + g * n + b` of the raster order holds the triple `(r, g, b)`.
pub proof fn lemma_raster_position(n: int, r: int, g: int, b: int)
    requires
        0 <= r < n,
        0 <= g < n,
        0 <= b < n,
    ensures
        raster_position(n, r, g, b) == r * n * n + g * n + b,
        0 <= r * n * n + g * n + b < n * n * n,
        raster_red(n, r * n * n + g * n + b) == r,
        raster_green(n, r * n * n + g * n + b) == g,
        raster_blue(n, r * n * n + g * n + b) == b,
{
    let k = r * n * n + g * n + b;
    assert(0 <= g * n + b < n * n) by (nonlinear_arith)
        requires 0 <= g < n, 0 <= b < n;
    assert(k == r * (n * n) + (g * n + b)) by (nonlinear_arith)
        requires k == r * n * n + g * n + b;
    lemma_fundamental_div_mod_converse(k, n * n, r, g * n + b);
    assert(k == (r * n + g) * n + b) by (nonlinear_arith)
        requires k == r * n * n + g * n + b;
    lemma_fundamental_div_mod_converse(k, n, r * n + g, b);
    lemma_fundamental_div_mod_converse(r * n + g, n, r, g);
    assert(0 <= k < n * n * n) by (nonlinear_arith)
        requires k == r * (n * n) + (g * n + b), 0 <= r < n, 0 <= g * n + b < n * n;
}

/// Every colour of the profile in raster order: red outermost, blue innermost.
pub fn default_pixels(color_depth_data: &ColorDepthData) -> (pixels: Vec<Pixel>)
    requires
        color_depth_data.wf(),
    ensures
        pixels@ == raster_pixels(color_depth_data.spec_steps()),
{
    let mut pixels: Vec<Pixel> = Vec::new();
    let steps = color_depth_data.steps();
    let ghost n = steps as int + 1;
    let mut r: u16 = 0;
    while r <= steps as u16
        invariant
            color_depth_data.wf(),
            steps == color_depth_data.spec_steps(),
            n == steps as int + 1,
            r <= n,
            pixels@.len() == r * n * n,
            forall|k: int| 0 <= k < pixels@.len() ==> pixels@[k] == raster_pixels(steps)[k],
        decreases n - r,
    {
        let pr = calculate_color(r as u8, color_depth_data);
        let mut g: u16 = 0;
        while g <= steps as u16
            invariant
                color_depth_data.wf(),
                steps == color_depth_data.spec_steps(),
                n == steps as int + 1,
                r < n,
                g <= n,
                pr == crate::profile::quantize(r as int, steps as int),
                pixels@.len() == r * n * n + g * n,
                forall|k: int| 0 <= k < pixels@.len() ==> pixels@[k] == raster_pixels(steps)[k],
            decreases n - g,
        {
            let pg = calculate_color(g as u8, color_depth_data);
            let mut b: u16 = 0;
            while b <= steps as u16
                invariant
                    color_depth_data.wf(),
                    steps == color_depth_data.spec_steps(),
                    n == steps as int + 1,
                    r < n,
                    g < n,
                    b <= n,
                    pr == crate::profile::quantize(r as int, steps as int),
                    pg == crate::profile::quantize(g as int, steps as int),
                    pixels@.len() == r * n * n + g * n + b,
                    forall|k: int| 0 <= k < pixels@.len() ==> pixels@[k] == raster_pixels(steps)[k],
                decreases n - b,
            {
                let pb = calculate_color(b as u8, color_depth_data);
                proof {
                    lemma_raster_position(n, r as int, g as int, b as int);
                }
                pixels.push(Pixel::new_raw(pr, pg, pb));
                b += 1;
            }
            assert(r * n * n + g * n + n == r * n * n + (g + 1) * n) by (nonlinear_arith);
            g += 1;
        }
        assert(r * n * n + n * n == (r + 1) * n * n) by (nonlinear_arith);
        r += 1;
    }
    assert(pixels@ =~= raster_pixels(steps));
    pixels
}

/// Number of consecutive pixels that share one blue index in the smooth order.
pub open spec fn blue_run(width: u16, steps: u8) -> int {
    width as int / (steps as int + 1)
}

/// Raw blue index of the `k`-th pixel in the smooth order: it advances every
/// `bs` pixels, wrapping after `n - 1`; with `bs == 0` it stays 0.
pub open spec fn smooth_blue(bs: int, n: int, k: int) -> int {
    if bs == 0 {
        0
    } else {
        (k / bs) % n
    }
}

/// Every red and green pair of the raster order, with blue indices laid out
/// in bands of `blue_run(width, steps)` pixels.
pub open spec fn smooth_pixel_seq(width: u16, steps: u8) -> Seq<Pixel> {
    let n = steps as int + 1;
    Seq::new(
        color_count(steps) as nat,
        |k: int|
            indexed_pixel(
                raster_red(n, k),
                raster_green(n, k),
                smooth_blue(blue_run(width, steps), n, k),
                steps as int,
            ),
    )
}

/// How the band counter and the blue index move from pixel `k` to pixel `k + 1`.
proof fn lemma_band_advance(k: int, bs: int, n: int)
    requires
        k >= 0,
        bs > 0,
        n > 0,
    ensures
        k % bs + 1 == bs ==> (k + 1) % bs == 0 && ((k + 1) / bs) % n == (if (k / bs) % n == n - 1 {
            0
        } else {
            (k / bs) % n + 1
        }),
        k % bs + 1 < bs ==> (k + 1) % bs == k % bs + 1 && (k + 1) / bs == k / bs,
{
    lemma_fundamental_div_mod(k, bs);
    let q = k / bs;
    let c = k % bs;
    if c + 1 == bs {
        assert(k + 1 == (q + 1) * bs + 0) by (nonlinear_arith)
            requires k == bs * q + c, c + 1 == bs;
        lemma_fundamental_div_mod_converse(k + 1, bs, q + 1, 0);
        assert(q >= 0) by (nonlinear_arith)
            requires k == bs * q + c, k >= 0, bs > 0, 0 <= c < bs;
        lemma_fundamental_div_mod(q, n);
        let p = q % n;
        let m = q / n;
        if p == n - 1 {
            assert(q + 1 == (m + 1) * n + 0) by (nonlinear_arith)
                requires q == n * m + p, p == n - 1;
            lemma_fundamental_div_mod_converse(q + 1, n, m + 1, 0);
        } else {
            assert(q + 1 == m * n + (p + 1)) by (nonlinear_arith)
                requires q == n * m + p;
            lemma_fundamental_div_mod_converse(q + 1, n, m, p + 1);
        }
    } else {
        assert(k + 1 == q * bs + (c + 1)) by (nonlinear_arith)
            requires k == bs * q + c;
        lemma_fundamental_div_mod_converse(k + 1, bs, q, c + 1);
    }
}

/// Every red and green pair of the raster order, with the blue index held for
/// runs of `width / (steps + 1)` pixels before it advances, so that blue
/// changes in bands tied to the buffer width. A run of zero pixels keeps the
/// blue index at 0.
pub fn smooth_pixels(color_depth_data: &ColorDepthData) -> (pixels: Vec<Pixel>)
    requires
        color_depth_data.wf(),
    ensures
        pixels@ == smooth_pixel_seq(color_depth_data.spec_width(), color_depth_data.spec_steps()),
{
    let mut pixels: Vec<Pixel> = Vec::new();
    let steps = color_depth_data.steps();
    let blue_step: u16 = color_depth_data.width() / (steps as u16 + 1);
    let ghost n = steps as int + 1;
    let ghost bs = blue_step as int;
    let ghost target = smooth_pixel_seq(color_depth_data.spec_width(), steps);
    let mut pixel_count: u16 = 0;
    let mut pb: u8 = 0;
    let mut r: u16 = 0;
    while r <= steps as u16
        invariant
            color_depth_data.wf(),
            steps == color_depth_data.spec_steps(),
            n == steps as int + 1,
            bs == blue_step,
            bs == blue_run(color_depth_data.spec_width(), steps),
            target == smooth_pixel_seq(color_depth_data.spec_width(), steps),
            r <= n,
            pixels@.len() == r * n * n,
            bs > 0 ==> pixel_count == (pixels@.len() as int) % bs && pb == ((pixels@.len() as int) / bs) % n,
            bs == 0 ==> pb == 0,
            forall|k: int| 0 <= k < pixels@.len() ==> pixels@[k] == target[k],
        decreases n - r,
    {
        let mut g: u16 = 0;
        while g <= steps as u16
            invariant
                color_depth_data.wf(),
                steps == color_depth_data.spec_steps(),
                n == steps as int + 1,
                bs == blue_step,
                bs == blue_run(color_depth_data.spec_width(), steps),
                target == smooth_pixel_seq(color_depth_data.spec_width(), steps),
                r < n,
                g <= n,
                pixels@.len() == r * n * n + g * n,
                bs > 0 ==> pixel_count == (pixels@.len() as int) % bs && pb == ((pixels@.len() as int) / bs) % n,
                bs == 0 ==> pb == 0,
                forall|k: int| 0 <= k < pixels@.len() ==> pixels@[k] == target[k],
            decreases n - g,
        {
            let mut b: u16 = 0;
            while b <= steps as u16
                invariant
                    color_depth_data.wf(),
                    steps == color_depth_data.spec_steps(),
                    n == steps as int + 1,
                    bs == blue_step,
                    bs == blue_run(color_depth_data.spec_width(), steps),
                    target == smooth_pixel_seq(color_depth_data.spec_width(), steps),
                    r < n,
                    g < n,
                    b <= n,
                    pixels@.len() == r * n * n + g * n + b,
                    bs > 0 ==> pixel_count == (pixels@.len() as int) % bs && pb == ((pixels@.len() as int) / bs) % n,
                    bs == 0 ==> pb == 0,
                    forall|k: int| 0 <= k < pixels@.len() ==> pixels@[k] == target[k],
                decreases n - b,
            {
                let ghost k = pixels@.len() as int;
                proof {
                    lemma_raster_position(n, r as int, g as int, b as int);
                    if bs > 0 {
                        lemma_band_advance(k, bs, n);
                    }
                }
                pixels.push(Pixel::new_indexed(r as u8, g as u8, pb, color_depth_data));
                if blue_step > 0 {
                    pixel_count += 1;
                    if pixel_count >= blue_step {
                        pixel_count = 0;
                        if pb == steps {
                            pb = 0;
                        } else {
                            pb += 1;
                        }
                    }
                }
                b += 1;
            }
            assert(r * n * n + g * n + n == r * n * n + (g + 1) * n) by (nonlinear_arith);
            g += 1;
        }
        assert(r * n * n + n * n == (r + 1) * n * n) by (nonlinear_arith);
        r += 1;
    }
    assert(pixels@ =~= target);
    pixels
}

#[verifier::external_type_specification]
#[verifier::external_body]
pub struct ExThreadRng(rand::rngs::ThreadRng);

/// Relies on `rand::thread_rng`: it hands out this thread's own generator,
/// so no generator is shared between threads. Nothing is promised of it.
pub assume_specification[ rand::thread_rng ]() -> rand::rngs::ThreadRng;

/// Relies on rand's `SliceRandom::shuffle`: a Fisher-Yates shuffle that only
/// swaps elements of the slice, so it permutes them.
#[verifier::external_body]
fn shuffle_pixels(pixels: &mut Vec<Pixel>, rng: &mut rand::rngs::ThreadRng)
    ensures
        final(pixels)@.len() == old(pixels)@.len(),
        final(pixels)@.to_multiset() == old(pixels)@.to_multiset(),
{
    pixels.as_mut_slice().shuffle(rng);
}

/// Every colour of the profile once, in a random order.
pub fn random_pixels(color_depth_data: &ColorDepthData) -> (pixels: Vec<Pixel>)
    requires
        color_depth_data.wf(),
    ensures
        pixels@.len() == color_count(color_depth_data.spec_steps()),
        pixels@.to_multiset() == raster_pixels(color_depth_data.spec_steps()).to_multiset(),
{
    let mut rng = rand::thread_rng();
    let mut pixels = default_pixels(color_depth_data);
    shuffle_pixels(&mut pixels, &mut rng);
    pixels
}

/// What `method` lays out for a profile of the given width and steps.
pub open spec fn generated_by(method: GenerationMethod, width: u16, steps: u8, pixels: Seq<Pixel>) -> bool {
    match method {
        GenerationMethod::Raster => pixels == raster_pixels(steps),
        GenerationMethod::Random => {
            &&& pixels.len() == color_count(steps)
            &&& pixels.to_multiset() == raster_pixels(steps).to_multiset()
        },
        GenerationMethod::SmoothPixels => pixels == smooth_pixel_seq(width, steps),
    }
}

/// The pixels of a profile in the order `gen` asks for.
pub fn generate_pixels(gen: GenerationMethod, color_depth_data: &ColorDepthData) -> (pixels: Vec<Pixel>)
    requires
        color_depth_data.wf(),
    ensures
        generated_by(gen, color_depth_data.spec_width(), color_depth_data.spec_steps(), pixels@),
{
    match gen {
        GenerationMethod::Raster => default_pixels(color_depth_data),
        GenerationMethod::Random => random_pixels(color_depth_data),
        GenerationMethod::SmoothPixels => smooth_pixels(color_depth_data),
    }
}

/// A colour depth's profile together with its generated pixels, row-major.
pub struct PixelMap {
    color_depth_data: ColorDepthData,
    pixels: Vec<Pixel>,
}

impl View for PixelMap {
    type V = Seq<Pixel>;

    closed spec fn view(&self) -> Seq<Pixel> {
        self.pixels@
    }
}

impl PixelMap {
    /// The profile this buffer was generated for.
    pub closed spec fn profile(&self) -> ColorDepthData {
        self.color_depth_data
    }

    /// The buffer of `color_depth` in the order `gen` asks for.
    pub fn new(gen: GenerationMethod, color_depth: ColorDepth) -> (m: PixelMap)
        ensures
            m.profile().is_profile_of(color_depth),
            m.profile().wf(),
            generated_by(gen, m.profile().spec_width(), m.profile().spec_steps(), m@),
    {
        let color_depth_data = ColorDepthData::new(color_depth);
        let pixels = generate_pixels(gen, &color_depth_data);
        PixelMap { color_depth_data, pixels }
    }

    pub fn width(&self) -> (r: u16)
        ensures
            r == self.profile().spec_width(),
    {
        self.color_depth_data.width()
    }

    pub fn height(&self) -> (r: u16)
        ensures
            r == self.profile().spec_height(),
    {
        self.color_depth_data.height()
    }

    /// Read-only view of the pixels, row-major: index `row * width + col`.
    pub fn pixels(&self) -> (r: &[Pixel])
        ensures
            r@ == self@,
    {
        self.pixels.as_slice()
    }
}

} // verus!
