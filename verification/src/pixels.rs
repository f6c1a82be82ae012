//! Rendered pages as shared pixel buffers.

use vstd::prelude::*;

verus! {

/// The window toolkit's reference-counted pixel container.
#[verifier::external_type_specification]
#[verifier::external_body]
#[verifier::reject_recursive_types(Pixel)]
pub struct ExSharedPixelBuffer<Pixel>(slint::SharedPixelBuffer<Pixel>);

/// The pixel type behind `slint::Rgb8Pixel`.
#[verifier::external_type_specification]
#[verifier::external_body]
#[verifier::reject_recursive_types(T)]
pub struct ExRgb<T>(rgb::RGB<T>);

/// The pixels of a buffer as raw bytes: row by row, three bytes per pixel.
pub uninterp spec fn pixel_bytes(pixels: slint::SharedPixelBuffer<slint::Rgb8Pixel>) -> Seq<u8>;

/// The width and height of a buffer in pixels.
pub uninterp spec fn pixel_size(pixels: slint::SharedPixelBuffer<slint::Rgb8Pixel>) -> (u32, u32);

/// Calls `slint::SharedPixelBuffer::new`: a buffer of the given size, every pixel
/// the default one, which is black (three zero bytes). A buffer whose allocation
/// could not be described to the allocator is left out; running out of memory is
/// not accounted for.
#[verifier::external_body]
fn black_pixels(width: u32, height: u32) -> (pixels: slint::SharedPixelBuffer<slint::Rgb8Pixel>)
    requires
        3 * (width * height) + 64 <= isize::MAX,
    ensures
        pixel_size(pixels) == (width, height),
        pixel_bytes(pixels) == Seq::new((3 * (width * height)) as nat, |i: int| 0u8),
{
    slint::SharedPixelBuffer::new(width, height)
}

/// Calls `slint::SharedPixelBuffer::make_mut_bytes`: the pixels as raw bytes that
/// can be written in place. The size of the buffer stays what it was.
#[verifier::external_body]
fn bytes_of(pixels: &mut slint::SharedPixelBuffer<slint::Rgb8Pixel>) -> (bytes: &mut [u8])
    ensures
        bytes@ == pixel_bytes(*old(pixels)),
        pixel_bytes(*final(pixels)) == final(bytes)@,
        pixel_size(*final(pixels)) == pixel_size(*old(pixels)),
{
    pixels.make_mut_bytes()
}

/// Calls `slint::SharedPixelBuffer::clone`: another handle to the same pixels.
#[verifier::external_body]
fn share(pixels: &slint::SharedPixelBuffer<slint::Rgb8Pixel>) -> (shared:
    slint::SharedPixelBuffer<slint::Rgb8Pixel>)
    ensures
        pixel_size(shared) == pixel_size(*pixels),
        pixel_bytes(shared) == pixel_bytes(*pixels),
{
    pixels.clone()
}

/// A page rendered to a shared RGB buffer. Cloning is a cheap refcount bump, so
/// the cache and the window can hold the same pixels without copying.
///
/// Pages are rendered opaque on white (no alpha) rather than over a transparent
/// background, so untouched "paper" areas are white instead of showing the window
/// surface through them.
pub struct PageBuffer {
    pub pixels: slint::SharedPixelBuffer<slint::Rgb8Pixel>,
}

/// What a page buffer shows.
pub struct Picture {
    pub width: u32,
    pub height: u32,
    pub bytes: Seq<u8>,
}

impl View for PageBuffer {
    type V = Picture;

    open spec fn view(&self) -> Picture {
        Picture {
            width: pixel_size(self.pixels).0,
            height: pixel_size(self.pixels).1,
            bytes: pixel_bytes(self.pixels),
        }
    }
}

impl Clone for PageBuffer {
    fn clone(&self) -> (copy: Self)
        ensures
            copy@ == self@,
    {
        PageBuffer { pixels: share(&self.pixels) }
    }
}

/// The first `height` rows of `3 * width` bytes, taken from samples whose rows
/// start `stride` bytes apart, packed without gaps.
pub open spec fn packed(samples: Seq<u8>, width: int, height: int, stride: int) -> Seq<u8>
    decreases height,
{
    if height <= 0 {
        Seq::empty()
    } else {
        packed(samples, width, height - 1, stride) + samples.subrange(
            (height - 1) * stride,
            (height - 1) * stride + 3 * width,
        )
    }
}

/// The packed rows take as many bytes as their pixels need.
proof fn lemma_packed_len(samples: Seq<u8>, width: int, height: int, stride: int)
    requires
        0 <= width,
        0 <= height,
        0 <= stride,
        height > 0 ==> (height - 1) * stride + 3 * width <= samples.len(),
    ensures
        packed(samples, width, height, stride).len() == 3 * (width * height),
    decreases height,
{
    if height > 0 {
        assert((height - 1) * stride >= 0) by (nonlinear_arith)
            requires
                height >= 1,
                stride >= 0,
        ;
        assert(height >= 2 ==> (height - 2) * stride <= (height - 1) * stride) by (nonlinear_arith)
            requires
                stride >= 0,
        ;
        lemma_packed_len(samples, width, height - 1, stride);
        assert(width * height == width * (height - 1) + width) by (nonlinear_arith);
    } else {
        assert(width * height == 0) by (nonlinear_arith)
            requires
                height == 0,
        ;
    }
}

/// Copies a pixmap's RGB samples into a tightly-packed shared buffer. Pixmap rows
/// can be padded, so the copy goes row by row using the pixmap stride.
pub fn pixmap_to_buffer(samples: &[u8], width: u32, height: u32, stride: usize) -> (buffer:
    PageBuffer)
    requires
        3 * (width * height) + 64 <= isize::MAX,
        height > 0 ==> (height - 1) * stride + 3 * width <= samples@.len(),
    ensures
        buffer@.width == width,
        buffer@.height == height,
        buffer@.bytes == packed(samples@, width as int, height as int, stride as int),
{
    let mut pixels: slint::SharedPixelBuffer<slint::Rgb8Pixel> = black_pixels(width, height);
    if height == 0 {
        proof {
            assert(width * height == 0) by (nonlinear_arith)
                requires
                    height == 0,
            ;
            assert(pixel_bytes(pixels) =~= Seq::<u8>::empty());
        }
        return PageBuffer { pixels };
    }
    proof {
        assert(width * height >= width) by (nonlinear_arith)
            requires
                height >= 1,
        ;
    }
    let row_bytes: usize = width as usize * 3;
    let available: usize = samples.len();
    let bytes: &mut [u8] = bytes_of(&mut pixels);
    let mut y: u32 = 0;
    let mut from: usize = 0;
    let mut to: usize = 0;
    assert(bytes@.take(0) =~= Seq::<u8>::empty());
    while y < height
        invariant
            y <= height,
            row_bytes == 3 * width,
            bytes@.len() == 3 * (width * height) <= isize::MAX,
            samples@.len() == available,
            to == 3 * (width * y),
            y < height ==> from == y * stride,
            (height - 1) * stride + 3 * width <= samples@.len(),
            bytes@.take(to as int) == packed(samples@, width as int, y as int, stride as int),
        decreases height - y,
    {
        proof {
            assert(width * y + width <= width * height) by (nonlinear_arith)
                requires
                    y + 1 <= height,
            ;
            assert(y * stride <= (height - 1) * stride) by (nonlinear_arith)
                requires
                    y <= height - 1,
            ;
        }
        let ghost done = bytes@.take(to as int);
        let mut k: usize = 0;
        while k < row_bytes
            invariant
                k <= row_bytes,
                bytes@.len() == 3 * (width * height) <= isize::MAX,
                to + row_bytes <= bytes@.len(),
                from + row_bytes <= samples@.len() == available,
                done.len() == to,
                bytes@.take(to + k) == done + samples@.subrange(from as int, from + k),
            decreases row_bytes - k,
        {
            let ghost before = bytes@;
            bytes[to + k] = samples[from + k];
            k += 1;
            assert(bytes@.take(to + k) =~= before.take(to + k - 1).push(samples@[from + k - 1]));
            assert(samples@.subrange(from as int, from + k) =~= samples@.subrange(
                from as int,
                from + k - 1,
            ).push(samples@[from + k - 1]));
        }
        y += 1;
        to += row_bytes;
        proof {
            assert(width * y == width * (y - 1) + width) by (nonlinear_arith);
            assert(y * stride == (y - 1) * stride + stride) by (nonlinear_arith);
            assert(y < height ==> y * stride <= (height - 1) * stride) by (nonlinear_arith);
        }
        if y < height {
            from += stride;
        }
    }
    assert(bytes@.take(to as int) =~= bytes@);
    PageBuffer { pixels }
}

/// Every byte keeps its place: byte `x` of row `y` of the samples is byte `x` of
/// row `y` of the packed rows, and there is nothing else.
pub proof fn law_pixels_keep_their_place(
    samples: Seq<u8>,
    width: int,
    height: int,
    stride: int,
    x: int,
    y: int,
)
    requires
        0 <= x < 3 * width,
        0 <= y < height,
        0 <= stride,
        (height - 1) * stride + 3 * width <= samples.len(),
    ensures
        packed(samples, width, height, stride).len() == 3 * (width * height),
        0 <= 3 * (width * y) + x < 3 * (width * height),
        packed(samples, width, height, stride)[3 * (width * y) + x] == samples[y * stride + x],
    decreases height,
{
    lemma_packed_len(samples, width, height, stride);
    let above = packed(samples, width, height - 1, stride);
    let row = samples.subrange((height - 1) * stride, (height - 1) * stride + 3 * width);
    assert((height - 1) * stride >= 0 && (height >= 2 ==> (height - 2) * stride <= (height - 1)
        * stride)) by (nonlinear_arith)
        requires
            height >= 1,
            stride >= 0,
    ;
    assert(width * y + width <= width * height && width * y >= 0) by (nonlinear_arith)
        requires
            0 <= y < height,
            width >= 0,
    ;
    lemma_packed_len(samples, width, height - 1, stride);
    if y < height - 1 {
        law_pixels_keep_their_place(samples, width, height - 1, stride, x, y);
    } else {
        assert((above + row)[above.len() + x] == row[x]);
    }
}

}
