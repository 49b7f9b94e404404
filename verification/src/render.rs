//! The render scheduler: from a shader to the output buffer.
//!
//! The caller supplies a shader, which gives for the pixel in column `j` of
//! scanline `i` (the scanlines counted from the bottom of the image) the
//! gamma-encoded colour: the square root of the averaged radiance. This
//! module asks the shader for every pixel, scanline by scanline from the top
//! of the image and from left to right, holds each channel to the displayable
//! range, turns it into a byte and lays the bytes out row-major, top scanline
//! first. The scanlines are rendered one after another or by a pool of
//! workers.

use vstd::prelude::*;
use vstd::arithmetic::div_mod::{lemma_fundamental_div_mod, lemma_mod_bound};
use vstd::arithmetic::power2::lemma2_to64;
use rayon::iter::{IntoParallelIterator, ParallelIterator};
use crate::ieee;
use crate::vec3::Vec3;

verus! {

/// The pattern of 0.999, the largest value that a colour channel keeps.
pub const CHANNEL_MAX: u64 = 0x3fef_f7ce_d916_872b;

/// The size of the image and the effort spent on each pixel.
#[derive(Debug, Clone, Copy)]
pub struct RenderParams {
    pub image_width: i64,
    pub image_height: i64,
    pub samples_per_px: u32,
    pub max_depth: i32,
}

impl RenderParams {
    /// Positive width, height and sample count, a depth that is not negative,
    /// and a buffer whose length the machine can address.
    pub open spec fn valid(&self) -> bool {
        &&& 0 < self.image_width
        &&& 0 < self.image_height
        &&& 0 < self.samples_per_px
        &&& 0 <= self.max_depth
        &&& 3 * self.image_width * self.image_height <= usize::MAX
    }

    /// Three bytes for each pixel.
    pub open spec fn spec_buffer_len(&self) -> int {
        3 * self.image_width * self.image_height
    }

    /// Where scanline `i`, counted from the bottom of the image, starts in
    /// the buffer, whose first row is the top of the image.
    pub open spec fn spec_scanline_offset(&self, i: i64) -> int {
        3 * self.image_width * (self.image_height - 1 - i)
    }

    /// Two scanlines share no byte of the buffer: the one nearer the top of
    /// the image ends where or before the other starts.
    pub proof fn lemma_scanlines_disjoint(&self, i: i64, k: i64)
        requires
            0 < self.image_width,
            0 <= i < k < self.image_height,
        ensures
            self.spec_scanline_offset(k) + 3 * self.image_width <= self.spec_scanline_offset(i),
            0 <= self.spec_scanline_offset(k),
            self.spec_scanline_offset(i) + 3 * self.image_width <= self.spec_buffer_len(),
    {
        let w = self.image_width as int;
        let h = self.image_height as int;
        assert(3 * w * (h - 1 - k) + 3 * w <= 3 * w * (h - 1 - i)) by (nonlinear_arith)
            requires
                0 < w,
                i < k,
        ;
        assert(0 <= 3 * w * (h - 1 - k)) by (nonlinear_arith)
            requires
                0 < w,
                k < h,
        ;
        assert(3 * w * (h - 1 - i) + 3 * w <= 3 * w * h) by (nonlinear_arith)
            requires
                0 < w,
                0 <= i,
        ;
    }

    /// A valid image is no wider and no higher than its buffer is long.
    pub proof fn lemma_sides_fit(&self)
        requires
            self.valid(),
        ensures
            self.image_width <= self.spec_buffer_len() <= usize::MAX,
            self.image_height <= self.spec_buffer_len(),
    {
        let w = self.image_width as int;
        let h = self.image_height as int;
        assert(w <= 3 * w * h && h <= 3 * w * h) by (nonlinear_arith)
            requires
                0 < w,
                0 < h,
        ;
    }

    /// Whether the parameters are `valid`.
    pub fn is_valid(&self) -> (r: bool)
        ensures
            r == self.valid(),
    {
        if self.image_width <= 0 || self.image_height <= 0 || self.samples_per_px == 0
            || self.max_depth < 0 {
            return false;
        }
        let w: u128 = self.image_width as u128;
        let h: u128 = self.image_height as u128;
        assert(w * h <= 0x7fff_ffff_ffff_ffff * 0x7fff_ffff_ffff_ffff) by (nonlinear_arith)
            requires
                w <= 0x7fff_ffff_ffff_ffff,
                h <= 0x7fff_ffff_ffff_ffff,
        ;
        assert(3 * self.image_width * self.image_height == 3 * (w * h)) by (nonlinear_arith)
            requires
                w == self.image_width,
                h == self.image_height,
        ;
        3 * (w * h) <= usize::MAX as u128
    }

    /// The length of the output buffer.
    pub fn buffer_len(&self) -> (r: usize)
        requires
            self.valid(),
        ensures
            r == self.spec_buffer_len(),
    {
        let w: u128 = self.image_width as u128;
        let h: u128 = self.image_height as u128;
        assert(3 * self.image_width * self.image_height == 3 * (w * h)) by (nonlinear_arith)
            requires
                w == self.image_width,
                h == self.image_height,
        ;
        assert(0 <= w * h) by (nonlinear_arith)
            requires
                0 <= w,
                0 <= h,
        ;
        (3 * (w * h)) as usize
    }

    /// The offset of scanline `i` in the output buffer.
    pub fn scanline_offset(&self, i: i64) -> (r: usize)
        requires
            self.valid(),
            0 <= i < self.image_height,
        ensures
            r == self.spec_scanline_offset(i),
            r + 3 * self.image_width <= self.spec_buffer_len(),
    {
        let w: u128 = self.image_width as u128;
        let up: u128 = (self.image_height - 1 - i) as u128;
        assert(3 * self.image_width * (self.image_height - 1 - i) == 3 * (w * up))
            by (nonlinear_arith)
            requires
                w == self.image_width,
                up == self.image_height - 1 - i,
        ;
        assert(3 * (w * up) + 3 * w <= 3 * self.image_width * self.image_height)
            by (nonlinear_arith)
            requires
                w == self.image_width,
                0 < w,
                0 <= up <= self.image_height - 1,
        ;
        assert(0 <= w * up) by (nonlinear_arith)
            requires
                0 <= w,
                0 <= up,
        ;
        (3 * (w * up)) as usize
    }
}

/// The byte of an encoded channel value `v`: the integer part of 256 times
/// `v` held between zero and `CHANNEL_MAX`, and zero where the pattern
/// encodes no number.
pub open spec fn spec_channel_byte(x: u64) -> u8 {
    let c = ieee::clamp(x, ieee::ZERO, CHANNEL_MAX);
    if ieee::is_nan(c) {
        0u8
    } else {
        ieee::spec_floor_shifted(c, 8) as u8
    }
}

/// The three bytes of a pixel: red, green, blue.
pub open spec fn pixel_bytes(pixel: Vec3) -> Seq<u8> {
    seq![
        spec_channel_byte(pixel.x()),
        spec_channel_byte(pixel.y()),
        spec_channel_byte(pixel.z()),
    ]
}

/// The bytes of a scanline, pixel after pixel from left to right.
pub open spec fn row_bytes(row: Seq<Vec3>) -> Seq<u8> {
    Seq::new(3 * row.len(), |p: int| pixel_bytes(row[p / 3])[p % 3])
}

/// The first `k` of the rows, one behind the other.
pub open spec fn joined(rows: Seq<Seq<u8>>, k: nat) -> Seq<u8>
    decreases k,
{
    if k == 0 {
        Seq::empty()
    } else {
        joined(rows, (k - 1) as nat) + rows[k - 1]
    }
}

/// The rows of the buffer of an image: the bytes of its scanlines, the last
/// scanline first.
pub open spec fn output_rows(image: Seq<Seq<Vec3>>) -> Seq<Seq<u8>> {
    Seq::new(image.len(), |k: int| row_bytes(image[image.len() - 1 - k]))
}

/// The output buffer of an image whose scanlines are `image`, from the
/// bottom of the image upwards.
pub open spec fn frame(image: Seq<Seq<Vec3>>) -> Seq<u8> {
    joined(output_rows(image), image.len())
}

/// Whether `image` holds `height` scanlines of `width` pixels each.
pub open spec fn shaped(image: Seq<Seq<Vec3>>, width: int, height: int) -> bool {
    &&& image.len() == height
    &&& forall|i: int| 0 <= i < image.len() ==> (#[trigger] image[i]).len() == width
}

/// Where the buffer of a `width` by `height` image holds channel `c` of the
/// pixel in column `j` of scanline `i`, the scanlines counted from the bottom.
pub open spec fn position(width: int, height: int, i: int, j: int, c: int) -> int {
    3 * width * (height - 1 - i) + 3 * j + c
}

/// Whether `buffer` holds every channel of every pixel of `image` at its
/// position, and nothing else.
pub open spec fn holds_image(buffer: Seq<u8>, image: Seq<Seq<Vec3>>, width: int, height: int) -> bool {
    &&& buffer.len() == 3 * width * height
    &&& forall|i: int, j: int, c: int|
        0 <= i < height && 0 <= j < width && 0 <= c < 3 ==> #[trigger] buffer[position(
            width,
            height,
            i,
            j,
            c,
        )] == spec_channel_byte(image[i][j].0[c])
}

/// Whether the shader can be asked for every pixel of the image.
pub open spec fn shader_ready<F: Fn(i64, i64) -> Vec3>(shade: &F, params: RenderParams) -> bool {
    forall|i: i64, j: i64|
        0 <= i < params.image_height && 0 <= j < params.image_width ==> call_requires(
            *shade,
            (i, j),
        )
}

/// Whether `row` holds, for each column, a colour that the shader gives for
/// that column of scanline `i`.
pub open spec fn row_shaded<F: Fn(i64, i64) -> Vec3>(
    shade: &F,
    i: i64,
    row: Seq<Vec3>,
    width: int,
) -> bool {
    &&& row.len() == width
    &&& forall|j: int| 0 <= j < width ==> call_ensures(*shade, (i, j as i64), #[trigger] row[j])
}

/// Whether `image` holds, for each pixel, a colour that the shader gives for
/// it.
pub open spec fn shaded<F: Fn(i64, i64) -> Vec3>(
    shade: &F,
    image: Seq<Seq<Vec3>>,
    params: RenderParams,
) -> bool {
    &&& image.len() == params.image_height
    &&& forall|i: int|
        0 <= i < image.len() ==> row_shaded(
            shade,
            i as i64,
            #[trigger] image[i],
            params.image_width as int,
        )
}

/// Whether `bytes` is row `k` of the buffer, counted from the top: the bytes
/// of colours that the shader gives for scanline `image_height - 1 - k`.
pub open spec fn is_output_row<F: Fn(i64, i64) -> Vec3>(
    shade: &F,
    params: RenderParams,
    k: int,
    bytes: Seq<u8>,
) -> bool {
    exists|row: Seq<Vec3>|
        row_shaded(shade, (params.image_height - 1 - k) as i64, row, params.image_width as int)
            && bytes == row_bytes(row)
}

/// Whether `buffer` is the frame of an image that the shader gives.
pub open spec fn is_render<F: Fn(i64, i64) -> Vec3>(
    shade: &F,
    params: RenderParams,
    buffer: Seq<u8>,
) -> bool {
    exists|image: Seq<Seq<Vec3>>|
        shaded(shade, image, params) && buffer == frame(image) && holds_image(
            buffer,
            image,
            params.image_width as int,
            params.image_height as int,
        )
}

/// The contents of each of the vectors.
pub open spec fn contents(rows: Seq<Vec<u8>>) -> Seq<Seq<u8>> {
    Seq::new(rows.len(), |k: int| rows[k]@)
}

/// The first `k` rows are `k` stretches of `3 * width` bytes each.
proof fn lemma_joined(rows: Seq<Seq<u8>>, k: nat, width: int)
    requires
        k <= rows.len(),
        0 <= width,
        forall|t: int| 0 <= t < rows.len() ==> (#[trigger] rows[t]).len() == 3 * width,
    ensures
        joined(rows, k).len() == 3 * width * k,
        forall|t: int, q: int|
            0 <= t < k && 0 <= q < 3 * width ==> #[trigger] joined(rows, k)[3 * width * t + q]
                == rows[t][q],
    decreases k,
{
    if k > 0 {
        let before = joined(rows, (k - 1) as nat);
        lemma_joined(rows, (k - 1) as nat, width);
        assert(3 * width * (k - 1) + 3 * width == 3 * width * k) by (nonlinear_arith);
        assert forall|t: int, q: int| 0 <= t < k && 0 <= q < 3 * width implies #[trigger] joined(
            rows,
            k,
        )[3 * width * t + q] == rows[t][q] by {
            if t < k - 1 {
                assert(3 * width * t + q < 3 * width * (k - 1)) by (nonlinear_arith)
                    requires
                        0 <= t < k - 1,
                        0 <= q < 3 * width,
                ;
                assert(before[3 * width * t + q] == rows[t][q]);
            } else {
                assert(3 * width * t + q - before.len() == q);
            }
        }
    } else {
        assert(3 * width * 0 == 0);
    }
}

/// Rows that agree give the same join.
proof fn lemma_joined_agrees(a: Seq<Seq<u8>>, b: Seq<Seq<u8>>, k: nat)
    requires
        k <= a.len(),
        k <= b.len(),
        forall|t: int| 0 <= t < k ==> a[t] == b[t],
    ensures
        joined(a, k) == joined(b, k),
    decreases k,
{
    if k > 0 {
        lemma_joined_agrees(a, b, (k - 1) as nat);
    }
}

/// The frame holds the image: channel `c` of the pixel in column `j` of
/// scanline `i` stands `3 * width * (height - 1 - i) + 3 * j + c` bytes into
/// the buffer, and the buffer has three bytes for each pixel.
pub proof fn lemma_frame_holds_image(image: Seq<Seq<Vec3>>, width: int, height: int)
    requires
        shaped(image, width, height),
    ensures
        holds_image(frame(image), image, width, height),
{
    let rows = output_rows(image);
    assert forall|t: int| 0 <= t < rows.len() implies (#[trigger] rows[t]).len() == 3 * width by {
        assert(image[image.len() - 1 - t].len() == width);
    }
    if height > 0 {
        assert(image[0].len() == width);
        lemma_joined(rows, image.len(), width);
        assert forall|i: int, j: int, c: int|
            0 <= i < height && 0 <= j < width && 0 <= c < 3 implies #[trigger] frame(
            image,
        )[position(width, height, i, j, c)] == spec_channel_byte(image[i][j].0[c]) by {
            let t = height - 1 - i;
            let q = 3 * j + c;
            assert(frame(image)[3 * width * t + q] == rows[t][q]);
            assert(rows[t] == row_bytes(image[i]));
        }
    } else {
        assert(3 * width * 0 == 0) by (nonlinear_arith);
    }
}

/// A buffer that holds the image is the frame, in whatever order and by
/// however many workers its scanlines were written.
pub proof fn lemma_image_determines_frame(
    buffer: Seq<u8>,
    image: Seq<Seq<Vec3>>,
    width: int,
    height: int,
)
    requires
        shaped(image, width, height),
        holds_image(buffer, image, width, height),
    ensures
        buffer == frame(image),
{
    lemma_frame_holds_image(image, width, height);
    let f = frame(image);
    assert forall|p: int| 0 <= p < buffer.len() implies buffer[p] == f[p] by {
        assert(width > 0 && height > 0) by (nonlinear_arith)
            requires
                0 <= p < 3 * width * height,
                image.len() == height,
        ;
        let stride = 3 * width;
        let t = p / stride;
        let q = p % stride;
        lemma_fundamental_div_mod(p, stride);
        lemma_mod_bound(p, stride);
        assert(0 <= t < height) by (nonlinear_arith)
            requires
                p == stride * t + q,
                0 <= q < stride,
                0 <= p < stride * height,
        ;
        let i = height - 1 - t;
        let j = q / 3;
        let c = q % 3;
        assert(position(width, height, i, j, c) == p);
        assert(buffer[position(width, height, i, j, c)] == spec_channel_byte(image[i][j].0[c]));
        assert(f[position(width, height, i, j, c)] == spec_channel_byte(image[i][j].0[c]));
    }
    assert(buffer =~= f);
}

/// A shader that gives one colour for each pixel gives one buffer, whether
/// the scanlines are rendered one after another or by a pool of workers.
pub proof fn lemma_one_frame<F: Fn(i64, i64) -> Vec3>(
    shade: &F,
    params: RenderParams,
    first: Seq<u8>,
    second: Seq<u8>,
)
    requires
        forall|i: i64, j: i64, a: Vec3, b: Vec3|
            call_ensures(*shade, (i, j), a) && call_ensures(*shade, (i, j), b) ==> a == b,
        is_render(shade, params, first),
        is_render(shade, params, second),
    ensures
        first == second,
{
    let width = params.image_width as int;
    let height = params.image_height as int;
    let one = choose|image: Seq<Seq<Vec3>>|
        shaded(shade, image, params) && first == frame(image) && holds_image(
            first,
            image,
            width,
            height,
        );
    let other = choose|image: Seq<Seq<Vec3>>|
        shaded(shade, image, params) && second == frame(image) && holds_image(
            second,
            image,
            width,
            height,
        );
    assert forall|i: int, j: int, c: int|
        0 <= i < height && 0 <= j < width && 0 <= c < 3 implies #[trigger] second[position(
        width,
        height,
        i,
        j,
        c,
    )] == spec_channel_byte(one[i][j].0[c]) by {
        assert(row_shaded(shade, i as i64, one[i], width));
        assert(row_shaded(shade, i as i64, other[i], width));
        assert(call_ensures(*shade, (i as i64, j as i64), one[i][j]));
        assert(call_ensures(*shade, (i as i64, j as i64), other[i][j]));
    }
    assert forall|i: int| 0 <= i < one.len() implies (#[trigger] one[i]).len() == width by {
        assert(row_shaded(shade, i as i64, one[i], width));
    }
    lemma_image_determines_frame(second, one, width, height);
}

/// Zero and `CHANNEL_MAX` are numbers, in this order.
proof fn lemma_channel_range()
    ensures
        ieee::spec_le(ieee::ZERO, CHANNEL_MAX),
{
    ieee::lemma_zero_magnitude(ieee::ZERO);
}

/// The byte of an encoded channel value.
#[verifier::when_used_as_spec(spec_channel_byte)]
pub fn channel_byte(x: u64) -> (r: u8)
    ensures
        r == spec_channel_byte(x),
{
    proof {
        lemma_channel_range();
    }
    let c: u64 = ieee::clamp(x, ieee::ZERO, CHANNEL_MAX);
    if ieee::is_nan(c) {
        return 0;
    }
    proof {
        ieee::lemma_zero_magnitude(ieee::ZERO);
        ieee::lemma_zero_magnitude(c);
        if ieee::magnitude(c) > CHANNEL_MAX {
            ieee::lemma_magnitude_orders(CHANNEL_MAX, c);
        }
        lemma2_to64();
    }
    let q: u64 = ieee::floor_shifted(c, 8);
    q as u8
}

/// Appends the three bytes of an encoded pixel to `output_px`.
pub fn output_color(output_px: &mut Vec<u8>, pixel: &Vec3)
    ensures
        final(output_px)@ == old(output_px)@ + pixel_bytes(*pixel),
{
    output_px.push(channel_byte(pixel.x()));
    output_px.push(channel_byte(pixel.y()));
    output_px.push(channel_byte(pixel.z()));
    assert(output_px@ =~= old(output_px)@ + pixel_bytes(*pixel));
}

/// The bytes of one scanline.
pub fn encode_row(row: &Vec<Vec3>) -> (out: Vec<u8>)
    ensures
        out@ == row_bytes(row@),
{
    let mut out: Vec<u8> = Vec::new();
    let mut j: usize = 0;
    while j < row.len()
        invariant
            j <= row.len(),
            out@ == row_bytes(row@.take(j as int)),
        decreases row.len() - j,
    {
        output_color(&mut out, &row[j]);
        assert(out@ =~= row_bytes(row@.take(j + 1)));
        j += 1;
    }
    assert(row@.take(j as int) =~= row@);
    out
}

/// Row `k` of the buffer, counted from the top: the shader is asked for each
/// pixel of scanline `image_height - 1 - k`, from left to right, and the
/// colours are turned into bytes.
pub fn output_row<F: Fn(i64, i64) -> Vec3>(params: &RenderParams, shade: &F, k: usize) -> (out:
    Vec<u8>)
    requires
        params.valid(),
        shader_ready(shade, *params),
        k < params.image_height,
    ensures
        is_output_row(shade, *params, k as int, out@),
{
    let i: i64 = params.image_height - 1 - k as i64;
    let mut row: Vec<Vec3> = Vec::new();
    let mut j: i64 = 0;
    while j < params.image_width
        invariant
            0 <= j <= params.image_width,
            0 <= i < params.image_height,
            shader_ready(shade, *params),
            row_shaded(shade, i, row@, j as int),
        decreases params.image_width - j,
    {
        let pixel = shade(i, j);
        row.push(pixel);
        j += 1;
    }
    encode_row(&row)
}

/// The rows of the buffer, shared out among the workers of `rayon`'s pool by
/// `into_par_iter` on the range of their numbers, `map` and `collect`. The
/// contract claims that the collected vector holds, at each place `k` below
/// `height`, what a call of `output_row` returned for `k`.
#[verifier::external_body]
fn par_output_rows<F: Fn(i64, i64) -> Vec3 + Sync>(
    params: &RenderParams,
    shade: &F,
    height: usize,
) -> (rows: Vec<Vec<u8>>)
    requires
        params.valid(),
        shader_ready(shade, *params),
        height == params.image_height,
    ensures
        rows@.len() == height,
        forall|k: int| 0 <= k < height ==> is_output_row(shade, *params, k, (#[trigger] rows@[k])@),
{
    (0..height).into_par_iter().map(|k| output_row(params, shade, k)).collect()
}

/// The rows of the buffer, each rendered after the one above it.
fn seq_output_rows<F: Fn(i64, i64) -> Vec3>(params: &RenderParams, shade: &F, height: usize) -> (rows:
    Vec<Vec<u8>>)
    requires
        params.valid(),
        shader_ready(shade, *params),
        height == params.image_height,
    ensures
        rows@.len() == height,
        forall|k: int| 0 <= k < height ==> is_output_row(shade, *params, k, (#[trigger] rows@[k])@),
{
    let mut rows: Vec<Vec<u8>> = Vec::new();
    let mut k: usize = 0;
    while k < height
        invariant
            k <= height,
            height == params.image_height,
            params.valid(),
            shader_ready(shade, *params),
            rows@.len() == k,
            forall|t: int| 0 <= t < k ==> is_output_row(shade, *params, t, (#[trigger] rows@[t])@),
        decreases height - k,
    {
        let row = output_row(params, shade, k);
        rows.push(row);
        k += 1;
    }
    rows
}

/// The rows laid one behind the other.
fn join(rows: &Vec<Vec<u8>>) -> (out: Vec<u8>)
    ensures
        out@ == joined(contents(rows@), rows@.len()),
{
    let n: usize = rows.len();
    let mut out: Vec<u8> = Vec::new();
    let mut k: usize = 0;
    while k < n
        invariant
            n == rows.len(),
            k <= n,
            out@ == joined(contents(rows@), k as nat),
        decreases n - k,
    {
        out.extend_from_slice(rows[k].as_slice());
        k += 1;
    }
    out
}

/// Rows that are rows of the buffer, each for its place, join to the frame
/// of an image that the shader gives.
proof fn lemma_rows_make_render<F: Fn(i64, i64) -> Vec3>(
    shade: &F,
    params: RenderParams,
    rows: Seq<Seq<u8>>,
)
    requires
        params.valid(),
        rows.len() == params.image_height,
        forall|k: int| 0 <= k < rows.len() ==> is_output_row(shade, params, k, #[trigger] rows[k]),
    ensures
        is_render(shade, params, joined(rows, rows.len())),
{
    let width = params.image_width as int;
    let height = params.image_height as int;
    let image = Seq::new(
        rows.len(),
        |i: int|
            choose|row: Seq<Vec3>|
                row_shaded(shade, i as i64, row, width) && rows[height - 1 - i] == row_bytes(row),
    );
    assert forall|i: int| 0 <= i < image.len() implies row_shaded(
        shade,
        i as i64,
        #[trigger] image[i],
        width,
    ) && rows[height - 1 - i] == row_bytes(image[i]) by {
        let k = height - 1 - i;
        assert(is_output_row(shade, params, k, rows[k]));
    }
    assert forall|k: int| 0 <= k < rows.len() implies rows[k] == output_rows(image)[k] by {
        let i = height - 1 - k;
        assert(rows[height - 1 - i] == row_bytes(image[i]));
    }
    lemma_joined_agrees(rows, output_rows(image), rows.len());
    assert(shaded(shade, image, params));
    lemma_frame_holds_image(image, width, height);
}

/// The output buffer of the image that the shader gives: three bytes for
/// each pixel, the top scanline first. The scanlines are rendered one after
/// another from the top, each from left to right.
pub fn render<F: Fn(i64, i64) -> Vec3>(params: &RenderParams, shade: F) -> (out: Vec<u8>)
    requires
        params.valid(),
        shader_ready(&shade, *params),
    ensures
        is_render(&shade, *params, out@),
        out@.len() == params.spec_buffer_len(),
{
    proof {
        params.lemma_sides_fit();
    }
    let rows = seq_output_rows(params, &shade, params.image_height as usize);
    proof {
        lemma_rows_make_render(&shade, *params, contents(rows@));
    }
    join(&rows)
}

/// The output buffer of the image that the shader gives, the scanlines
/// rendered by the workers of a pool, in no order.
pub fn render_parallel<F: Fn(i64, i64) -> Vec3 + Sync>(params: &RenderParams, shade: F) -> (out:
    Vec<u8>)
    requires
        params.valid(),
        shader_ready(&shade, *params),
    ensures
        is_render(&shade, *params, out@),
        out@.len() == params.spec_buffer_len(),
{
    proof {
        params.lemma_sides_fit();
    }
    let rows = par_output_rows(params, &shade, params.image_height as usize);
    proof {
        lemma_rows_make_render(&shade, *params, contents(rows@));
    }
    join(&rows)
}

} // verus!
