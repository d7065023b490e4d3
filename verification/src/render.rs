//! The render loop: jittered Monte-Carlo sampling per pixel, tone
//! mapping, and quantization of the finished raster.

use vstd::prelude::*;

use crate::camera::Camera;
use crate::camera::in_lens_disk;
use crate::camera::spec_get_ray;
use crate::fixed::FX_ONE;
use crate::fixed::add_fx;
use crate::fixed::div_floor;
use crate::fixed::div_fx;
use crate::fixed::fits;
use crate::fixed::fx_add;
use crate::fixed::fx_div;
use crate::fixed::fx_mul;
use crate::fixed::fx_sqrt;
use crate::fixed::mul_fx;
use crate::fixed::sqrt_fx;
use crate::hit::HittableList;
use crate::ray::radiance_admissible;
use crate::ray::ray_colour;
use crate::vec3::Colour;
use crate::vec3::Vec3;
use crate::vec3::fx_vadd;
use crate::vec3::vec_in_range;

verus! {

/// Upper clamp applied to a gamma-corrected channel before quantizing.
pub const GAMMA_CLAMP_MAX: i128 = 999_000;

/// The factor that maps a clamped unit channel onto the byte scale:
/// two hundred and fifty-six per unit.
pub const BYTE_SCALE: i128 = 256_000_000;

/// The largest image side length the renderer accepts.
pub const MAX_DIMENSION: usize = 10_000;

/// The largest per-pixel sample count the renderer accepts.
pub const MAX_SAMPLES: usize = 1_000_000;

/// One colour channel quantized for output: average the accumulated
/// samples, apply gamma-two correction by square root, clamp just below
/// one, and scale onto the byte range.
pub open spec fn spec_quantize_channel(c: int, n: int) -> int {
    let avg = c / n;
    let g = fx_sqrt(avg);
    let clamped = if g > GAMMA_CLAMP_MAX as int {
        GAMMA_CLAMP_MAX as int
    } else {
        g
    };
    fx_mul(clamped, BYTE_SCALE as int) / (FX_ONE as int)
}

/// The three channels of an accumulated pixel colour, quantized.
pub open spec fn spec_colour_bytes(colour: Colour, n: int) -> (int, int, int) {
    (
        spec_quantize_channel(colour.x as int, n),
        spec_quantize_channel(colour.y as int, n),
        spec_quantize_channel(colour.z as int, n),
    )
}

/// The camera ray cast for the pixel at column `i` of camera row `j`
/// under the jitter pair `(uj, vj)` and lens sample `p`: the jittered
/// pixel position is normalized over the image extent and handed to
/// the camera.
pub open spec fn spec_pixel_ray(
    cam: Camera,
    i: int,
    j: int,
    width: int,
    height: int,
    uj: int,
    vj: int,
    p: Vec3,
) -> crate::ray::Ray {
    spec_get_ray(
        cam,
        fx_div(fx_add(i * FX_ONE, uj), (width - 1) * FX_ONE),
        fx_div(fx_add(j * FX_ONE, vj), (height - 1) * FX_ONE),
        p,
    )
}

/// One admissible Monte-Carlo sample for the pixel at column `i` of
/// camera row `j` (counted from the bottom of the viewport): some
/// jitter pair and lens point yield this pixel's camera ray, and the
/// colour is a radiance value the integrator's contract permits for
/// that ray.
pub open spec fn admissible_sample(
    world: HittableList,
    cam: Camera,
    i: int,
    j: int,
    width: int,
    height: int,
    depth: int,
    c: Colour,
) -> bool {
    exists|uj: int, vj: int, p: Vec3|
        {
            &&& 0 <= uj < FX_ONE
            &&& 0 <= vj < FX_ONE
            &&& in_lens_disk(p)
            &&& #[trigger] radiance_admissible(
                world,
                spec_pixel_ray(cam, i, j, width, height, uj, vj, p),
                depth,
                c,
            )
        }
}

/// The accumulated sum of a trace of sample colours.
pub open spec fn colour_sum(samples: Seq<Colour>) -> Colour
    decreases samples.len(),
{
    if samples.len() == 0 {
        Vec3 { x: 0, y: 0, z: 0 }
    } else {
        fx_vadd(colour_sum(samples.drop_last()), samples.last())
    }
}

/// The given bytes are the quantization of the sum of a full trace of
/// admissible samples for the pixel at column `i` of camera row `j`.
pub open spec fn pixel_bytes_traced(
    world: HittableList,
    cam: Camera,
    i: int,
    j: int,
    width: int,
    height: int,
    depth: int,
    n: int,
    b0: int,
    b1: int,
    b2: int,
    samples: Seq<Colour>,
) -> bool {
    &&& samples.len() == n
    &&& forall|k: int|
        0 <= k < samples.len() ==> admissible_sample(
            world,
            cam,
            i,
            j,
            width,
            height,
            depth,
            #[trigger] samples[k],
        )
    &&& (b0, b1, b2) == spec_colour_bytes(colour_sum(samples), n)
}

/// The three bytes of raster pixel `k` are the quantization of the
/// given trace for the pixel's own position: column `k % width` of
/// image row `k / width` from the top, which is camera row
/// `height - 1 - k / width`.
pub open spec fn pixel_trace_at(
    bytes: Seq<u8>,
    k: int,
    world: HittableList,
    cam: Camera,
    width: int,
    height: int,
    depth: int,
    n: int,
    samples: Seq<Colour>,
) -> bool {
    pixel_bytes_traced(
        world,
        cam,
        k % width,
        height - 1 - k / width,
        width,
        height,
        depth,
        n,
        bytes[3 * k] as int,
        bytes[3 * k + 1] as int,
        bytes[3 * k + 2] as int,
        samples,
    )
}

/// Pixel `k` of a raster, stored row-major with rows from the top of
/// the image down, is the quantization of a full admissible trace for
/// the pixel's own position.
pub open spec fn pixel_rendered(
    bytes: Seq<u8>,
    k: int,
    world: HittableList,
    cam: Camera,
    width: int,
    height: int,
    depth: int,
    n: int,
) -> bool {
    exists|samples: Seq<Colour>|
        #[trigger] pixel_trace_at(bytes, k, world, cam, width, height, depth, n, samples)
}

/// Quantize one accumulated channel to a byte.
fn quantize_channel(c: i128, samples_per_pix: usize) -> (b: u8)
    requires
        0 <= c,
        fits(c as int),
        1 <= samples_per_pix <= MAX_SAMPLES,
    ensures
        b as int == spec_quantize_channel(c as int, samples_per_pix as int),
{
    let n = samples_per_pix as i128;
    proof {
        vstd::arithmetic::div_mod::lemma_div_pos_is_pos(c as int, n as int);
        vstd::arithmetic::div_mod::lemma_div_nonincreasing(c as int, n as int);
    }
    let avg = div_floor(c, n);
    let g = sqrt_fx(avg);
    let clamped = if g > GAMMA_CLAMP_MAX {
        GAMMA_CLAMP_MAX
    } else {
        g
    };
    let scaled = mul_fx(clamped, BYTE_SCALE);
    proof {
        crate::fixed::lemma_fx_mul_nonneg(clamped as int, BYTE_SCALE as int);
        crate::fixed::lemma_fx_mul_mono(clamped as int, GAMMA_CLAMP_MAX as int, BYTE_SCALE as int);
        vstd::arithmetic::div_mod::lemma_div_pos_is_pos(scaled as int, FX_ONE as int);
        vstd::arithmetic::div_mod::lemma_div_is_ordered(
            scaled as int,
            255_744_000int,
            FX_ONE as int,
        );
    }
    let b = div_floor(scaled, FX_ONE);
    b as u8
}

/// Turn an accumulated pixel colour into its three output bytes:
/// average over the sample count, gamma-correct, clamp, and quantize.
pub fn colour_to_bytes(colour: Colour, samples_per_pix: usize) -> (bytes: (u8, u8, u8))
    requires
        vec_in_range(colour),
        0 <= colour.x,
        0 <= colour.y,
        0 <= colour.z,
        1 <= samples_per_pix <= MAX_SAMPLES,
    ensures
        (bytes.0 as int, bytes.1 as int, bytes.2 as int) == spec_colour_bytes(
            colour,
            samples_per_pix as int,
        ),
{
    (
        quantize_channel(colour.x, samples_per_pix),
        quantize_channel(colour.y, samples_per_pix),
        quantize_channel(colour.z, samples_per_pix),
    )
}

/// Render one pixel: accumulate jittered Monte-Carlo samples of the
/// radiance through the pixel, then average and quantize them. The
/// returned bytes are the exact quantization of the sum of a full
/// trace of samples, each one a radiance value the integrator's
/// contract permits for one of this very pixel's camera rays — so,
/// for instance, over a scene with no objects every sample is forced
/// to be a background colour.
pub fn render_pixel(
    world: &HittableList,
    cam: &Camera,
    i: usize,
    j: usize,
    image_width: usize,
    image_height: usize,
    samples_per_pix: usize,
    max_depth: usize,
    rng: &mut rand::rngs::SmallRng,
) -> (bytes: (u8, u8, u8))
    requires
        world.wf(),
        cam.wf(),
        2 <= image_width <= MAX_DIMENSION,
        2 <= image_height <= MAX_DIMENSION,
        i < image_width,
        j < image_height,
        1 <= samples_per_pix <= MAX_SAMPLES,
    ensures
        exists|samples: Seq<Colour>|
            pixel_bytes_traced(
                *world,
                *cam,
                i as int,
                j as int,
                image_width as int,
                image_height as int,
                max_depth as int,
                samples_per_pix as int,
                bytes.0 as int,
                bytes.1 as int,
                bytes.2 as int,
                samples,
            ),
{
    let ghost mut trace: Seq<Colour> = Seq::empty();
    let mut pixel_colour = Vec3::new_z();
    let iu: i128 = (i as i128) * FX_ONE;
    let jv: i128 = (j as i128) * FX_ONE;
    let du: i128 = ((image_width - 1) as i128) * FX_ONE;
    let dv: i128 = ((image_height - 1) as i128) * FX_ONE;
    let mut s: usize = 0;
    while s < samples_per_pix
        invariant
            world.wf(),
            cam.wf(),
            0 <= s <= samples_per_pix,
            samples_per_pix <= MAX_SAMPLES,
            iu == i * FX_ONE,
            jv == j * FX_ONE,
            du == (image_width - 1) * FX_ONE,
            dv == (image_height - 1) * FX_ONE,
            2 <= image_width <= MAX_DIMENSION,
            2 <= image_height <= MAX_DIMENSION,
            i < image_width,
            j < image_height,
            vec_in_range(pixel_colour),
            0 <= pixel_colour.x <= s * FX_ONE,
            0 <= pixel_colour.y <= s * FX_ONE,
            0 <= pixel_colour.z <= s * FX_ONE,
            trace.len() == s as int,
            pixel_colour == colour_sum(trace),
            forall|k: int|
                0 <= k < trace.len() ==> admissible_sample(
                    *world,
                    *cam,
                    i as int,
                    j as int,
                    image_width as int,
                    image_height as int,
                    max_depth as int,
                    #[trigger] trace[k],
                ),
        decreases samples_per_pix - s,
    {
        let u_jitter = crate::rng::rand_range_fx(rng, 0, FX_ONE);
        let v_jitter = crate::rng::rand_range_fx(rng, 0, FX_ONE);
        let u = div_fx(add_fx(iu, u_jitter), du);
        let v = div_fx(add_fx(jv, v_jitter), dv);
        let ray = cam.get_ray(u, v, rng);
        let sample = ray_colour(&ray, world, max_depth, rng);
        proof {
            let pdisk = choose|p: Vec3|
                in_lens_disk(p) && ray == spec_get_ray(*cam, u as int, v as int, p);
            assert(radiance_admissible(*world, ray, max_depth as int, sample));
            assert(admissible_sample(
                *world,
                *cam,
                i as int,
                j as int,
                image_width as int,
                image_height as int,
                max_depth as int,
                sample,
            )) by {
                assert(0 <= u_jitter < FX_ONE && 0 <= v_jitter < FX_ONE && in_lens_disk(pdisk)
                    && radiance_admissible(
                    *world,
                    spec_pixel_ray(
                        *cam,
                        i as int,
                        j as int,
                        image_width as int,
                        image_height as int,
                        u_jitter as int,
                        v_jitter as int,
                        pdisk,
                    ),
                    max_depth as int,
                    sample,
                ));
            }
            assert(trace.push(sample).drop_last() =~= trace);
            assert(colour_sum(trace.push(sample)) == fx_vadd(colour_sum(trace), sample));
        }
        pixel_colour = pixel_colour.add(sample);
        proof {
            trace = trace.push(sample);
        }
        s = s + 1;
    }
    let bytes = colour_to_bytes(pixel_colour, samples_per_pix);
    proof {
        assert(pixel_bytes_traced(
            *world,
            *cam,
            i as int,
            j as int,
            image_width as int,
            image_height as int,
            max_depth as int,
            samples_per_pix as int,
            bytes.0 as int,
            bytes.1 as int,
            bytes.2 as int,
            trace,
        ));
    }
    bytes
}

/// Render the whole image: rows from top to bottom, columns from left
/// to right, three bytes per pixel. The result holds exactly
/// `3 * width * height` bytes, and every pixel, indexed by position
/// regardless of evaluation order, is the quantization of a full
/// admissible sample trace for that position's own camera rays.
pub fn render(
    world: &HittableList,
    cam: &Camera,
    image_width: usize,
    image_height: usize,
    samples_per_pix: usize,
    max_depth: usize,
    rng: &mut rand::rngs::SmallRng,
) -> (raster: Vec<u8>)
    requires
        world.wf(),
        cam.wf(),
        2 <= image_width <= MAX_DIMENSION,
        2 <= image_height <= MAX_DIMENSION,
        1 <= samples_per_pix <= MAX_SAMPLES,
    ensures
        raster@.len() == 3 * image_width * image_height,
        forall|k: int|
            0 <= k < image_width * image_height ==> pixel_rendered(
                raster@,
                k,
                *world,
                *cam,
                image_width as int,
                image_height as int,
                max_depth as int,
                samples_per_pix as int,
            ),
{
    let mut raster: Vec<u8> = Vec::new();
    let mut row: usize = 0;
    while row < image_height
        invariant
            world.wf(),
            cam.wf(),
            2 <= image_width <= MAX_DIMENSION,
            2 <= image_height <= MAX_DIMENSION,
            1 <= samples_per_pix <= MAX_SAMPLES,
            0 <= row <= image_height,
            raster@.len() == 3 * image_width * row,
            forall|k: int|
                0 <= k < image_width * row ==> pixel_rendered(
                    raster@,
                    k,
                    *world,
                    *cam,
                    image_width as int,
                    image_height as int,
                    max_depth as int,
                    samples_per_pix as int,
                ),
        decreases image_height - row,
    {
        let j = image_height - 1 - row;
        let mut i: usize = 0;
        while i < image_width
            invariant
                world.wf(),
                cam.wf(),
                2 <= image_width <= MAX_DIMENSION,
                2 <= image_height <= MAX_DIMENSION,
                1 <= samples_per_pix <= MAX_SAMPLES,
                0 <= row < image_height,
                j == image_height - 1 - row,
                0 <= i <= image_width,
                raster@.len() == 3 * image_width * row + 3 * i,
                forall|k: int|
                    0 <= k < image_width * row + i ==> pixel_rendered(
                        raster@,
                        k,
                        *world,
                        *cam,
                        image_width as int,
                        image_height as int,
                        max_depth as int,
                        samples_per_pix as int,
                    ),
            decreases image_width - i,
        {
            let bytes = render_pixel(
                world,
                cam,
                i,
                j,
                image_width,
                image_height,
                samples_per_pix,
                max_depth,
                rng,
            );
            let ghost prev = raster@;
            let ghost n = samples_per_pix as int;
            let ghost count = image_width as int * row as int + i as int;
            let ghost plen: int = prev.len() as int;
            proof {
                assert(plen == 3 * count) by (nonlinear_arith)
                    requires
                        plen == 3 * (image_width as int) * (row as int) + 3 * (i as int),
                        count == (image_width as int) * (row as int) + (i as int),
                ;
            }
            raster.push(bytes.0);
            raster.push(bytes.1);
            raster.push(bytes.2);
            proof {
                let w = image_width as int;
                let h = image_height as int;
                let depth = max_depth as int;
                assert forall|k: int| 0 <= k < count + 1 implies pixel_rendered(
                    raster@,
                    k,
                    *world,
                    *cam,
                    w,
                    h,
                    depth,
                    n,
                ) by {
                    if k < count {
                        assert(pixel_rendered(prev, k, *world, *cam, w, h, depth, n));
                        let samples = choose|samples: Seq<Colour>|
                            #[trigger] pixel_trace_at(prev, k, *world, *cam, w, h, depth, n, samples);
                        assert(raster@[3 * k] == prev[3 * k]);
                        assert(raster@[3 * k + 1] == prev[3 * k + 1]);
                        assert(raster@[3 * k + 2] == prev[3 * k + 2]);
                        assert(pixel_trace_at(raster@, k, *world, *cam, w, h, depth, n, samples));
                    } else {
                        // this new pixel sits at column i of row `row`
                        vstd::arithmetic::div_mod::lemma_fundamental_div_mod_converse_div(
                            k,
                            w,
                            row as int,
                            i as int,
                        );
                        vstd::arithmetic::div_mod::lemma_fundamental_div_mod_converse_mod(
                            k,
                            w,
                            row as int,
                            i as int,
                        );
                        let samples = choose|samples: Seq<Colour>|
                            pixel_bytes_traced(
                                *world,
                                *cam,
                                i as int,
                                j as int,
                                w,
                                h,
                                depth,
                                n,
                                bytes.0 as int,
                                bytes.1 as int,
                                bytes.2 as int,
                                samples,
                            );
                        assert(raster@[3 * k] == bytes.0);
                        assert(raster@[3 * k + 1] == bytes.1);
                        assert(raster@[3 * k + 2] == bytes.2);
                        assert(pixel_trace_at(raster@, k, *world, *cam, w, h, depth, n, samples));
                    }
                }
            }
            i = i + 1;
        }
        row = row + 1;
        proof {
            assert(3 * image_width * row == 3 * image_width * (row - 1) + 3 * image_width)
                by (nonlinear_arith);
            assert(image_width * row == image_width * (row - 1) + image_width)
                by (nonlinear_arith);
        }
    }
    raster
}

} // verus!
