//! The discrete core of the render engine.
//!
//! One `render` pass fills every pixel of an RGBA8 buffer from a set of
//! anti-aliasing sub-samples. The floating-point work — camera rays, sphere
//! tracing, normal estimation — happens in the host shell; the shell hands
//! this module each pixel's sub-sample colors in fixed point (65536 is a
//! full channel). This module owns everything discrete about the pass: the
//! sub-sample jitter grid, the box-filter average and RGBA8 quantization of
//! each pixel, the bottom-to-top pixel layout of the buffer, and the fill
//! that writes every pixel exactly once.

use vstd::arithmetic::div_mod::lemma_fundamental_div_mod_converse;
use vstd::prelude::*;

verus! {

/// Fixed-point value of one full color channel.
pub const COLOR_ONE: u32 = 65536;

/// One sub-sample color, each channel in fixed point: 0 is black and
/// `COLOR_ONE` a full channel.
#[derive(Clone, Copy, PartialEq, Eq, Structural, Debug)]
pub struct Color {
    pub r: u32,
    pub g: u32,
    pub b: u32,
    pub a: u32,
}

impl Color {
    /// Every channel within one color unit.
    pub open spec fn wf(self) -> bool {
        &&& self.r <= COLOR_ONE
        &&& self.g <= COLOR_ONE
        &&& self.b <= COLOR_ONE
        &&& self.a <= COLOR_ONE
    }

    /// The channel with the given index, in RGBA order.
    pub open spec fn channel(self, c: int) -> u32 {
        if c == 0 {
            self.r
        } else if c == 1 {
            self.g
        } else if c == 2 {
            self.b
        } else {
            self.a
        }
    }
}

/// The sum of one channel over a run of sub-samples.
pub open spec fn channel_sum(samples: Seq<Color>, c: int) -> int
    decreases samples.len(),
{
    if samples.len() == 0 {
        0
    } else {
        channel_sum(samples.drop_last(), c) + samples.last().channel(c)
    }
}

/// The RGBA8 byte of a channel accumulated over `n` sub-samples: the average
/// scaled to 0..=255 and truncated, saturating at the ends of the range.
pub open spec fn quantize(sum: int, n: int) -> u8 {
    let q = (sum * 255) / (n * (COLOR_ONE as int));
    if q < 0 {
        0
    } else if q > 255 {
        255
    } else {
        q as u8
    }
}

/// A channel bounded on every sub-sample bounds the channel sum: `n`
/// sub-samples between `lo` and `hi` sum to between `n * lo` and `n * hi`.
pub proof fn lemma_channel_sum_range(samples: Seq<Color>, c: int, lo: int, hi: int)
    requires
        forall|i: int| 0 <= i < samples.len() ==> lo <= #[trigger] samples[i].channel(c) <= hi,
    ensures
        samples.len() * lo <= channel_sum(samples, c) <= samples.len() * hi,
    decreases samples.len(),
{
    if samples.len() > 0 {
        lemma_channel_sum_range(samples.drop_last(), c, lo, hi);
        assert(lo <= samples.last().channel(c) <= hi);
        assert(samples.len() * lo == (samples.len() - 1) * lo + lo
            && samples.len() * hi == (samples.len() - 1) * hi + hi) by (nonlinear_arith);
    }
}

/// Extending a run of sub-samples by one adds that sample's channel to the
/// channel sum.
proof fn lemma_channel_sum_snoc(samples: Seq<Color>, start: int, j: int, c: int)
    requires
        0 <= start,
        start <= start + j < samples.len(),
    ensures
        channel_sum(samples.subrange(start, start + j + 1), c) == channel_sum(
            samples.subrange(start, start + j),
            c,
        ) + samples[start + j].channel(c),
{
    let longer = samples.subrange(start, start + j + 1);
    assert(longer.drop_last() =~= samples.subrange(start, start + j));
    assert(longer.last() == samples[start + j]);
}

/// The box-filtered RGBA8 value of the sub-samples
/// `samples[start .. start + count]`: each channel is summed, averaged and
/// quantized.
pub fn average_rgba(samples: &Vec<Color>, start: usize, count: usize) -> (rgba: [u8; 4])
    requires
        1 <= count <= 65536,
        start + count <= samples@.len(),
        forall|i: int| 0 <= i < samples@.len() ==> samples@[i].wf(),
    ensures
        forall|c: int|
            0 <= c < 4 ==> rgba[c] == quantize(
                channel_sum(samples@.subrange(start as int, start + count), c),
                count as int,
            ),
{
    let ghost all = samples@;
    let total = samples.len();
    let mut sum_r: u64 = 0;
    let mut sum_g: u64 = 0;
    let mut sum_b: u64 = 0;
    let mut sum_a: u64 = 0;
    let mut j: usize = 0;
    while j < count
        invariant
            j <= count,
            1 <= count <= 65536,
            start + count <= all.len(),
            all.len() <= usize::MAX,
            all == samples@,
            forall|i: int| 0 <= i < all.len() ==> all[i].wf(),
            sum_r == channel_sum(all.subrange(start as int, start + j), 0),
            sum_g == channel_sum(all.subrange(start as int, start + j), 1),
            sum_b == channel_sum(all.subrange(start as int, start + j), 2),
            sum_a == channel_sum(all.subrange(start as int, start + j), 3),
            sum_r <= j * (COLOR_ONE as int),
            sum_g <= j * (COLOR_ONE as int),
            sum_b <= j * (COLOR_ONE as int),
            sum_a <= j * (COLOR_ONE as int),
        decreases count - j,
    {
        let col = samples[start + j];
        proof {
            lemma_channel_sum_snoc(all, start as int, j as int, 0);
            lemma_channel_sum_snoc(all, start as int, j as int, 1);
            lemma_channel_sum_snoc(all, start as int, j as int, 2);
            lemma_channel_sum_snoc(all, start as int, j as int, 3);
        }
        sum_r = sum_r + col.r as u64;
        sum_g = sum_g + col.g as u64;
        sum_b = sum_b + col.b as u64;
        sum_a = sum_a + col.a as u64;
        j = j + 1;
    }
    [
        quantize_channel(sum_r, count as u64),
        quantize_channel(sum_g, count as u64),
        quantize_channel(sum_b, count as u64),
        quantize_channel(sum_a, count as u64),
    ]
}

/// The sub-samples belonging to the pixel at image coordinates `(x, y)`:
/// pixels carry `aa * aa` consecutive sub-samples each, in image scanline
/// order with `y` counted upwards from the bottom of the image.
pub open spec fn pixel_samples(
    samples: Seq<Color>,
    width: int,
    x: int,
    y: int,
    aa: int,
) -> Seq<Color> {
    samples.subrange((y * width + x) * (aa * aa), (y * width + x + 1) * (aa * aa))
}

/// Where the four bytes of image pixel `(x, y)` start in the buffer: the
/// image is stored with its bottom row (`y == 0`) in the buffer's last row.
pub open spec fn byte_base(width: int, height: int, x: int, y: int) -> int {
    ((height - 1 - y) * width + x) * 4
}

/// The finished image as a byte sequence: byte `k` is one channel of the
/// box-filtered average of its pixel's `aa * aa` sub-samples.
pub open spec fn rendered_image(width: int, height: int, samples: Seq<Color>, aa: int) -> Seq<
    u8,
> {
    Seq::new(
        (width * height * 4) as nat,
        |k: int|
            {
                let row = k / (width * 4);
                let x = (k % (width * 4)) / 4;
                let c = k % 4;
                let y = height - 1 - row;
                quantize(channel_sum(pixel_samples(samples, width, x, y, aa), c), aa * aa)
            },
    )
}

/// Byte `byte_base(width, height, x, y) + c` of the buffer decomposes back
/// into the buffer row, the column `x` and the channel `c`.
proof fn lemma_byte_index(width: int, height: int, row: int, x: int, c: int)
    requires
        0 <= row < height,
        0 <= x < width,
        0 <= c < 4,
    ensures
        ({
            let k = (row * width + x) * 4 + c;
            &&& 0 <= k
            &&& k + 4 - c <= width * height * 4
            &&& k / (width * 4) == row
            &&& (k % (width * 4)) / 4 == x
            &&& k % 4 == c
        }),
{
    let k = (row * width + x) * 4 + c;
    assert((row * width + x) * 4 + c == row * (width * 4) + (x * 4 + c)) by (nonlinear_arith);
    assert(0 <= x * 4 + c < width * 4) by (nonlinear_arith)
        requires
            0 <= x < width,
            0 <= c < 4,
    ;
    assert(0 <= row * (width * 4)) by (nonlinear_arith)
        requires
            0 <= row,
            0 < width,
    ;
    lemma_fundamental_div_mod_converse(k, width * 4, row, x * 4 + c);
    lemma_fundamental_div_mod_converse(x * 4 + c, 4, x, c);
    lemma_fundamental_div_mod_converse(k, 4, row * width + x, c);
    assert((row * width + x) * 4 + 4 <= width * height * 4) by (nonlinear_arith)
        requires
            0 <= row < height,
            0 <= x < width,
    ;
}

/// An RGBA8 pixel buffer of `width * height` pixels, four bytes per pixel.
///
/// The buffer belongs to the host shell; a render pass borrows it, fills
/// every pixel, and hands it back.
#[derive(Clone, Debug)]
pub struct RenderBuffer {
    pub width: usize,
    pub height: usize,
    pub pixels: Vec<u8>,
}

impl RenderBuffer {
    /// The byte store holds exactly the buffer's pixels.
    pub open spec fn wf(self) -> bool {
        self.pixels@.len() == self.width * self.height * 4
    }

    /// A zeroed buffer of the given dimensions.
    pub fn new(width: usize, height: usize) -> (b: RenderBuffer)
        requires
            width * height * 4 <= usize::MAX,
        ensures
            b.wf(),
            b.width == width,
            b.height == height,
            forall|k: int| 0 <= k < b.pixels@.len() ==> b.pixels@[k] == 0u8,
    {
        let n = (width * height) * 4;
        proof {
            assert((width * height) * 4 == width * height * 4) by (nonlinear_arith);
        }
        let mut pixels: Vec<u8> = Vec::new();
        let mut k: usize = 0;
        while k < n
            invariant
                k <= n,
                pixels@.len() == k,
                forall|i: int| 0 <= i < k ==> pixels@[i] == 0u8,
            decreases n - k,
        {
            pixels.push(0);
            k = k + 1;
        }
        RenderBuffer { width, height, pixels }
    }

    /// Resize the buffer to the given dimensions, zeroing its pixels.
    pub fn resize(&mut self, width: usize, height: usize)
        requires
            width * height * 4 <= usize::MAX,
        ensures
            final(self).wf(),
            final(self).width == width,
            final(self).height == height,
            forall|k: int| 0 <= k < final(self).pixels@.len() ==> final(self).pixels@[k] == 0u8,
    {
        *self = RenderBuffer::new(width, height);
    }

    /// Fill the whole buffer from the per-pixel sub-samples: every pixel is
    /// written exactly once with the quantized box-filter average of its own
    /// `aa * aa` sub-samples, and nothing else of the buffer changes.
    pub fn write_image(&mut self, samples: &Vec<Color>, aa: usize)
        requires
            old(self).wf(),
            1 <= aa <= 256,
            samples@.len() == old(self).width * old(self).height * (aa * aa),
            forall|i: int| 0 <= i < samples@.len() ==> samples@[i].wf(),
        ensures
            final(self).width == old(self).width,
            final(self).height == old(self).height,
            final(self).wf(),
            final(self).pixels@ == rendered_image(
                old(self).width as int,
                old(self).height as int,
                samples@,
                aa as int,
            ),
    {
        let width = self.width;
        let height = self.height;
        proof {
            assert(1 <= aa * aa <= 65536) by (nonlinear_arith)
                requires
                    1 <= aa <= 256,
            ;
        }
        let aa2: usize = aa * aa;
        let byte_len = self.pixels.len();
        let sample_len = samples.len();
        let ghost image = rendered_image(width as int, height as int, samples@, aa as int);
        let mut row: usize = 0;
        while row < height
            invariant
                row <= height,
                self.width == width,
                self.height == height,
                self.pixels@.len() == width * height * 4,
                width * height * 4 == byte_len,
                width * height * aa2 == sample_len,
                1 <= aa <= 256,
                aa2 == aa * aa,
                1 <= aa2 <= 65536,
                samples@.len() == sample_len,
                forall|i: int| 0 <= i < samples@.len() ==> samples@[i].wf(),
                image == rendered_image(width as int, height as int, samples@, aa as int),
                image.len() == width * height * 4,
                forall|k: int| 0 <= k < row * (width * 4) ==> self.pixels@[k] == image[k],
            decreases height - row,
        {
            let y = height - 1 - row;
            let mut x: usize = 0;
            while x < width
                invariant
                    x <= width,
                    row < height,
                    y == height - 1 - row,
                    self.width == width,
                    self.height == height,
                    self.pixels@.len() == width * height * 4,
                    width * height * 4 == byte_len,
                    width * height * aa2 == sample_len,
                    1 <= aa <= 256,
                    aa2 == aa * aa,
                    1 <= aa2 <= 65536,
                    samples@.len() == sample_len,
                    forall|i: int| 0 <= i < samples@.len() ==> samples@[i].wf(),
                    image == rendered_image(width as int, height as int, samples@, aa as int),
                    image.len() == width * height * 4,
                    forall|k: int|
                        0 <= k < row * (width * 4) + x * 4 ==> self.pixels@[k] == image[k],
                decreases width - x,
            {
                proof {
                    assert(y * width <= y * width + x <= (y * width + x) * aa2 && (y * width + x)
                        * aa2 + aa2 <= width * height * aa2 && (y * width + x) * aa2 + aa2 == (y
                        * width + x + 1) * aa2) by (nonlinear_arith)
                        requires
                            0 <= x < width,
                            0 <= y < height,
                            aa2 >= 1,
                    ;
                }
                let start = (y * width + x) * aa2;
                let rgba = average_rgba(samples, start, aa2);
                proof {
                    lemma_byte_index(width as int, height as int, row as int, x as int, 0);
                    lemma_byte_index(width as int, height as int, row as int, x as int, 1);
                    lemma_byte_index(width as int, height as int, row as int, x as int, 2);
                    lemma_byte_index(width as int, height as int, row as int, x as int, 3);
                    assert(row * width <= row * width + x && row * (width * 4) + x * 4 == (row
                        * width + x) * 4) by (nonlinear_arith)
                        requires
                            0 <= x < width,
                            0 <= row,
                    ;
                }
                let base = (row * width + x) * 4;
                self.pixels[base] = rgba[0];
                self.pixels[base + 1] = rgba[1];
                self.pixels[base + 2] = rgba[2];
                self.pixels[base + 3] = rgba[3];
                proof {
                    assert(forall|k: int|
                        0 <= k < row * (width * 4) + x * 4 + 4 ==> self.pixels@[k] == image[k]);
                    assert(row * (width * 4) + x * 4 + 4 == row * (width * 4) + (x + 1) * 4) by (
                    nonlinear_arith);
                }
                x = x + 1;
            }
            proof {
                assert(row * (width * 4) + width * 4 == (row + 1) * (width * 4)) by (
                nonlinear_arith);
            }
            row = row + 1;
        }
        proof {
            assert(height * (width * 4) == width * height * 4) by (nonlinear_arith);
            assert(self.pixels@ =~= image);
        }
    }
}

/// One channel of the average: `sum * 255 / (n * COLOR_ONE)`, truncated and
/// saturated at 255.
fn quantize_channel(sum: u64, n: u64) -> (out: u8)
    requires
        1 <= n <= 65536,
        sum <= n * (COLOR_ONE as int),
    ensures
        out == quantize(sum as int, n as int),
{
    let denom: u64 = n * (COLOR_ONE as u64);
    let q = (sum * 255) / denom;
    proof {
        vstd::arithmetic::div_mod::lemma_div_pos_is_pos((sum * 255) as int, denom as int);
    }
    if q > 255 {
        255
    } else {
        q as u8
    }
}

/// One anti-aliasing sub-sample slot of a pixel: the jitter offset, in pixel
/// units, is the pair of exact rationals `(dx_num / denom, dy_num / denom)`.
#[derive(Clone, Copy, PartialEq, Eq, Structural, Debug)]
pub struct SubSample {
    pub dx_num: i32,
    pub dy_num: i32,
    pub denom: u32,
}

/// The jitter grid of one pixel: sub-sample `(m, n)` of an `aa * aa` grid is
/// offset by `(m / aa - 1/2, n / aa - 1/2)` pixel units, i.e. by
/// `((2m - aa) / 2aa, (2n - aa) / 2aa)`, listed with `n` varying fastest.
pub fn sample_grid(aa: u32) -> (grid: Vec<SubSample>)
    requires
        1 <= aa <= 256,
    ensures
        grid@.len() == aa * aa,
        forall|k: int|
            0 <= k < grid@.len() ==> grid@[k] == (SubSample {
                dx_num: (2 * (k / (aa as int)) - aa) as i32,
                dy_num: (2 * (k % (aa as int)) - aa) as i32,
                denom: (2 * aa) as u32,
            }),
{
    let mut grid: Vec<SubSample> = Vec::new();
    let mut m: u32 = 0;
    while m < aa
        invariant
            1 <= aa <= 256,
            m <= aa,
            grid@.len() == m * aa,
            forall|k: int|
                0 <= k < grid@.len() ==> grid@[k] == (SubSample {
                    dx_num: (2 * (k / (aa as int)) - aa) as i32,
                    dy_num: (2 * (k % (aa as int)) - aa) as i32,
                    denom: (2 * aa) as u32,
                }),
        decreases aa - m,
    {
        let mut n: u32 = 0;
        while n < aa
            invariant
                1 <= aa <= 256,
                m < aa,
                n <= aa,
                grid@.len() == m * aa + n,
                forall|k: int|
                    0 <= k < grid@.len() ==> grid@[k] == (SubSample {
                        dx_num: (2 * (k / (aa as int)) - aa) as i32,
                        dy_num: (2 * (k % (aa as int)) - aa) as i32,
                        denom: (2 * aa) as u32,
                    }),
            decreases aa - n,
        {
            proof {
                assert(m * aa + n < aa * aa && m * aa + n <= 65536) by (nonlinear_arith)
                    requires
                        0 <= m < aa,
                        0 <= n < aa,
                        aa <= 256,
                ;
                lemma_fundamental_div_mod_converse(
                    m as int * aa as int + n as int,
                    aa as int,
                    m as int,
                    n as int,
                );
            }
            grid.push(
                SubSample {
                    dx_num: 2 * (m as i32) - (aa as i32),
                    dy_num: 2 * (n as i32) - (aa as i32),
                    denom: 2 * aa,
                },
            );
            n = n + 1;
        }
        proof {
            assert(m * aa + aa == (m + 1) * aa) by (nonlinear_arith);
        }
        m = m + 1;
    }
    grid
}

/// Where a pixel's bytes land: channel `c` of image pixel `(x, y)` is byte
/// `byte_base(width, height, x, y) + c` of the rendered image, and it holds
/// the quantized box-filter average of that pixel's own sub-samples.
pub proof fn lemma_rendered_pixel_bytes(
    width: int,
    height: int,
    samples: Seq<Color>,
    aa: int,
    x: int,
    y: int,
    c: int,
)
    requires
        0 <= x < width,
        0 <= y < height,
        0 <= c < 4,
    ensures
        0 <= byte_base(width, height, x, y) + c < width * height * 4,
        rendered_image(width, height, samples, aa)[byte_base(width, height, x, y) + c]
            == quantize(channel_sum(pixel_samples(samples, width, x, y, aa), c), aa * aa),
{
    lemma_byte_index(width, height, height - 1 - y, x, c);
}

/// A render pass is deterministic: two passes over the same dimensions,
/// sub-samples and sampling rate produce byte-identical images.
pub proof fn lemma_render_deterministic(
    width: int,
    height: int,
    samples: Seq<Color>,
    aa: int,
    image1: Seq<u8>,
    image2: Seq<u8>,
)
    requires
        image1 == rendered_image(width, height, samples, aa),
        image2 == rendered_image(width, height, samples, aa),
    ensures
        image1 == image2,
{
}

/// The one-sample box filter is the identity: averaging `n` equal
/// sub-samples quantizes to exactly the RGBA8 value of the one sample. In
/// particular, with one sub-sample per pixel every pixel carries the
/// unblended value of its sample.
pub proof fn lemma_average_of_equal_samples(samples: Seq<Color>, col: Color, c: int)
    requires
        samples.len() >= 1,
        forall|i: int| 0 <= i < samples.len() ==> samples[i] == col,
    ensures
        quantize(channel_sum(samples, c), samples.len() as int) == quantize(
            col.channel(c) as int,
            1,
        ),
{
    let n = samples.len() as int;
    let v = col.channel(c) as int;
    assert forall|i: int| 0 <= i < samples.len() implies v <= #[trigger] samples[i].channel(c)
        <= v by {}
    lemma_channel_sum_range(samples, c, v, v);
    assert(channel_sum(samples, c) == n * v);
    vstd::arithmetic::div_mod::lemma_div_multiples_vanish_quotient(
        n,
        v * 255,
        COLOR_ONE as int,
    );
    assert(n * v * 255 == n * (v * 255) && n * (COLOR_ONE as int) == n * (COLOR_ONE as int)) by (
    nonlinear_arith);
    assert((n * v * 255) / (n * (COLOR_ONE as int)) == (v * 255) / (COLOR_ONE as int));
}

/// Anti-aliasing only blends: a pixel's quantized value lies between the
/// quantized values of its darkest and brightest sub-samples in every
/// channel.
pub proof fn lemma_average_blends(samples: Seq<Color>, c: int, lo: int, hi: int)
    requires
        samples.len() >= 1,
        0 <= lo,
        forall|i: int| 0 <= i < samples.len() ==> lo <= #[trigger] samples[i].channel(c) <= hi,
    ensures
        quantize(lo, 1) <= quantize(channel_sum(samples, c), samples.len() as int) <= quantize(
            hi,
            1,
        ),
{
    let n = samples.len() as int;
    let sum = channel_sum(samples, c);
    let one = COLOR_ONE as int;
    lemma_channel_sum_range(samples, c, lo, hi);
    assert(n * lo * 255 == n * (lo * 255) && n * hi * 255 == n * (hi * 255) && sum * 255 <= (n
        * hi) * 255 && (n * lo) * 255 <= sum * 255) by (nonlinear_arith)
        requires
            n * lo <= sum <= n * hi,
    ;
    vstd::arithmetic::div_mod::lemma_div_multiples_vanish_quotient(n, lo * 255, one);
    vstd::arithmetic::div_mod::lemma_div_multiples_vanish_quotient(n, hi * 255, one);
    vstd::arithmetic::div_mod::lemma_div_is_ordered(n * (lo * 255), sum * 255, n * one);
    vstd::arithmetic::div_mod::lemma_div_is_ordered(sum * 255, n * (hi * 255), n * one);
}

} // verus!
