//! The drawing surface: a pixel buffer of the `image` crate, and the
//! filling of rectangles on it.

use crate::render::{ops_view, DrawCmd, DrawOp, Frame};
use crate::theme::Color;
use image::{ImageBuffer, Rgba};
use vstd::prelude::*;

verus! {

/// A pixel buffer with four bytes per pixel: an `image::ImageBuffer` of
/// `Rgba<u8>` pixels over a `Vec<u8>`. What it holds is known through
/// [`canvas_width`], [`canvas_height`] and [`canvas_pixels`] only.
#[verifier::external_body]
pub struct Canvas {
    buffer: ImageBuffer<Rgba<u8>, Vec<u8>>,
}

/// The width of a canvas in pixels, as `ImageBuffer::width` gives it.
pub uninterp spec fn canvas_width(canvas: Canvas) -> int;

/// The height of a canvas in pixels, as `ImageBuffer::height` gives it.
pub uninterp spec fn canvas_height(canvas: Canvas) -> int;

/// The pixels of a canvas by column and row, both counted from 0.
pub uninterp spec fn canvas_pixels(canvas: Canvas) -> Map<(int, int), Color>;

/// Number of bytes that hold the pixels of an image.
pub open spec fn byte_size(width: int, height: int) -> int {
    width * height * 4
}

/// The pixel that a byte buffer holds for a column and a row: pixels lie
/// row after row, each as its red, green, blue and alpha byte.
pub open spec fn decoded(bytes: Seq<u8>, width: int, x: int, y: int) -> Color {
    let at = (y * width + x) * 4;
    Color { red: bytes[at], green: bytes[at + 1], blue: bytes[at + 2], alpha: bytes[at + 3] }
}

/// Whether a column and a row lie on the canvas.
pub open spec fn on_canvas(canvas: Canvas, x: int, y: int) -> bool {
    0 <= x < canvas_width(canvas) && 0 <= y < canvas_height(canvas)
}

/// Whether a pixel lies in a rectangle.
pub open spec fn inside(x: int, y: int, width: int, height: int, px: int, py: int) -> bool {
    x <= px < x + width && y <= py < y + height
}

/// Makes a buffer with `ImageBuffer::from_pixel`: it has the given size,
/// and every pixel has the given colour. The size must be one that a
/// vector can hold, as the call panics on any other.
#[verifier::external_body]
fn raw_filled(width: u32, height: u32, color: Color) -> (canvas: Canvas)
    requires
        byte_size(width as int, height as int) <= isize::MAX,
    ensures
        canvas_width(canvas) == width,
        canvas_height(canvas) == height,
        forall|x: int, y: int|
            0 <= x < width && 0 <= y < height ==> #[trigger] canvas_pixels(canvas)[(x, y)]
                == color,
{
    let pixel = Rgba([color.red, color.green, color.blue, color.alpha]);
    Canvas { buffer: ImageBuffer::from_pixel(width, height, pixel) }
}

/// Calls `ImageBuffer::width`.
#[verifier::external_body]
fn raw_width(canvas: &Canvas) -> (width: u32)
    ensures
        width == canvas_width(*canvas),
{
    canvas.buffer.width()
}

/// Calls `ImageBuffer::height`.
#[verifier::external_body]
fn raw_height(canvas: &Canvas) -> (height: u32)
    ensures
        height == canvas_height(*canvas),
{
    canvas.buffer.height()
}

/// Calls `ImageBuffer::put_pixel`: the pixel at the place gets the colour,
/// every other pixel and the size stay. The place must lie on the canvas,
/// as the call panics on any other.
#[verifier::external_body]
fn raw_put(canvas: &mut Canvas, x: u32, y: u32, color: Color)
    requires
        on_canvas(*old(canvas), x as int, y as int),
    ensures
        canvas_width(*final(canvas)) == canvas_width(*old(canvas)),
        canvas_height(*final(canvas)) == canvas_height(*old(canvas)),
        canvas_pixels(*final(canvas)) == canvas_pixels(*old(canvas)).insert(
            (x as int, y as int),
            color,
        ),
{
    canvas.buffer.put_pixel(x, y, Rgba([color.red, color.green, color.blue, color.alpha]));
}

/// Calls `ImageBuffer::get_pixel`: the colour of the pixel at the place.
/// The place must lie on the canvas, as the call panics on any other.
#[verifier::external_body]
fn raw_get(canvas: &Canvas, x: u32, y: u32) -> (color: Color)
    requires
        on_canvas(*canvas, x as int, y as int),
    ensures
        color == canvas_pixels(*canvas)[(x as int, y as int)],
{
    let pixel = canvas.buffer.get_pixel(x, y);
    Color { red: pixel.0[0], green: pixel.0[1], blue: pixel.0[2], alpha: pixel.0[3] }
}

/// Calls `ImageBuffer::into_raw`: the bytes of the buffer, which hold its
/// pixels row after row.
#[verifier::external_body]
fn raw_into_bytes(canvas: Canvas) -> (bytes: Vec<u8>)
    ensures
        bytes.len() >= byte_size(canvas_width(canvas), canvas_height(canvas)),
        forall|x: int, y: int|
            on_canvas(canvas, x, y) ==> #[trigger] decoded(bytes@, canvas_width(canvas), x, y)
                == canvas_pixels(canvas)[(x, y)],
{
    canvas.buffer.into_raw()
}

/// Calls `ImageBuffer::from_raw`: a buffer of the given size over the
/// bytes, if they are enough for it.
#[verifier::external_body]
fn raw_from_bytes(width: u32, height: u32, bytes: Vec<u8>) -> (canvas: Option<Canvas>)
    ensures
        canvas is Some <==> byte_size(width as int, height as int) <= bytes.len(),
        canvas matches Some(c) ==> {
            &&& canvas_width(c) == width
            &&& canvas_height(c) == height
            &&& forall|x: int, y: int|
                0 <= x < width && 0 <= y < height ==> #[trigger] canvas_pixels(c)[(x, y)]
                    == decoded(bytes@, width as int, x, y)
        },
{
    match ImageBuffer::from_raw(width, height, bytes) {
        Some(buffer) => Some(Canvas { buffer }),
        None => None,
    }
}

/// The colour of a pixel after the fill operations among `ops[from..to]`
/// were performed in order on a pixel of colour `base`. Text operations
/// leave the pixel as it is.
pub open spec fn filled_color(ops: Seq<DrawCmd>, from: int, to: int, base: Color, px: int, py: int)
    -> Color
    decreases to - from,
{
    if to <= from {
        base
    } else {
        let before = filled_color(ops, from, to - 1, base, px, py);
        match ops[to - 1] {
            DrawCmd::Fill { x, y, width, height, color } => if inside(x, y, width, height, px, py) {
                color
            } else {
                before
            },
            DrawCmd::Text { .. } => before,
        }
    }
}

/// The place of the first text operation at or after `from`, or the
/// number of operations where none follows.
pub open spec fn next_text(ops: Seq<DrawCmd>, from: int) -> int
    decreases ops.len() - from,
{
    if from >= ops.len() {
        ops.len() as int
    } else if ops[from] is Text {
        from
    } else {
        next_text(ops, from + 1)
    }
}

proof fn lemma_pixel_within(width: int, height: int, x: int, y: int)
    requires
        0 <= x < width,
        0 <= y < height,
    ensures
        0 <= (y * width + x) * 4,
        (y * width + x) * 4 + 3 < byte_size(width, height),
{
    assert(0 <= y * width) by (nonlinear_arith)
        requires
            0 <= y,
            0 <= width,
    ;
    assert(y * width + width <= height * width) by (nonlinear_arith)
        requires
            0 <= y < height,
            0 <= width,
    ;
    assert(height * width == width * height) by (nonlinear_arith);
}

fn bytes_needed(width: u32, height: u32) -> (size: u128)
    ensures
        size == byte_size(width as int, height as int),
{
    assert(width * height <= 0xFFFF_FFFF * 0xFFFF_FFFF) by (nonlinear_arith)
        requires
            0 <= width <= 0xFFFF_FFFF,
            0 <= height <= 0xFFFF_FFFF,
    ;
    (width as u128) * (height as u128) * 4
}

impl Canvas {
    /// A canvas of the given size, every pixel in the given colour;
    /// nothing where the size is more than a vector can hold.
    pub fn new(width: u32, height: u32, color: Color) -> (canvas: Option<Canvas>)
        ensures
            canvas is Some <==> byte_size(width as int, height as int) <= isize::MAX,
            canvas matches Some(c) ==> {
                &&& canvas_width(c) == width
                &&& canvas_height(c) == height
                &&& forall|x: int, y: int|
                    0 <= x < width && 0 <= y < height ==> #[trigger] canvas_pixels(c)[(x, y)]
                        == color
            },
    {
        if bytes_needed(width, height) <= isize::MAX as u128 {
            Some(raw_filled(width, height, color))
        } else {
            None
        }
    }

    /// The canvas that a frame starts with: of the frame's size, in its
    /// background colour.
    pub fn for_frame(frame: &Frame) -> (canvas: Option<Canvas>)
        ensures
            canvas is Some <==> byte_size(frame.width as int, frame.height as int) <= isize::MAX,
            canvas matches Some(c) ==> {
                &&& canvas_width(c) == frame.width
                &&& canvas_height(c) == frame.height
                &&& forall|x: int, y: int|
                    0 <= x < frame.width && 0 <= y < frame.height ==> #[trigger] canvas_pixels(
                        c,
                    )[(x, y)] == frame.background
            },
    {
        Canvas::new(frame.width, frame.height, frame.background)
    }

    /// Width and height of the canvas.
    pub fn size(&self) -> (size: (u32, u32))
        ensures
            size.0 == canvas_width(*self),
            size.1 == canvas_height(*self),
    {
        (raw_width(self), raw_height(self))
    }

    /// The colour of a pixel, nothing for a place off the canvas.
    pub fn pixel(&self, x: u32, y: u32) -> (color: Option<Color>)
        ensures
            color == (if on_canvas(*self, x as int, y as int) {
                Some(canvas_pixels(*self)[(x as int, y as int)])
            } else {
                None
            }),
    {
        if x < raw_width(self) && y < raw_height(self) {
            Some(raw_get(self, x, y))
        } else {
            None
        }
    }

    /// Fills a rectangle with a colour. What lies off the canvas is left out.
    pub fn fill_rect(&mut self, x: u32, y: u32, width: u32, height: u32, color: Color)
        ensures
            canvas_width(*final(self)) == canvas_width(*old(self)),
            canvas_height(*final(self)) == canvas_height(*old(self)),
            forall|px: int, py: int|
                on_canvas(*old(self), px, py) ==> #[trigger] canvas_pixels(*final(self))[(px, py)]
                    == (if inside(x as int, y as int, width as int, height as int, px, py) {
                    color
                } else {
                    canvas_pixels(*old(self))[(px, py)]
                }),
    {
        let canvas_w = raw_width(self);
        let canvas_h = raw_height(self);
        let right: u64 = if x as u64 + width as u64 <= canvas_w as u64 {
            x as u64 + width as u64
        } else {
            canvas_w as u64
        };
        let bottom: u64 = if y as u64 + height as u64 <= canvas_h as u64 {
            y as u64 + height as u64
        } else {
            canvas_h as u64
        };
        if x as u64 >= right || y as u64 >= bottom {
            return ;
        }
        let mut py: u32 = y;
        while (py as u64) < bottom
            invariant
                y <= py <= bottom,
                x < right,
                right == if x + width <= canvas_w { x + width } else { canvas_w as int },
                bottom == if y + height <= canvas_h { y + height } else { canvas_h as int },
                canvas_w == canvas_width(*old(self)),
                canvas_h == canvas_height(*old(self)),
                canvas_width(*self) == canvas_w,
                canvas_height(*self) == canvas_h,
                forall|qx: int, qy: int|
                    on_canvas(*old(self), qx, qy) ==> #[trigger] canvas_pixels(*self)[(qx, qy)]
                        == (if inside(x as int, y as int, width as int, height as int, qx, qy)
                        && qy < py {
                        color
                    } else {
                        canvas_pixels(*old(self))[(qx, qy)]
                    }),
            decreases bottom - py,
        {
            let mut px: u32 = x;
            while (px as u64) < right
                invariant
                    y <= py < bottom,
                    x <= px <= right,
                    right == if x + width <= canvas_w { x + width } else { canvas_w as int },
                    bottom == if y + height <= canvas_h { y + height } else { canvas_h as int },
                    canvas_w == canvas_width(*old(self)),
                    canvas_h == canvas_height(*old(self)),
                    canvas_width(*self) == canvas_w,
                    canvas_height(*self) == canvas_h,
                    forall|qx: int, qy: int|
                        on_canvas(*old(self), qx, qy) ==> #[trigger] canvas_pixels(*self)[(
                            qx,
                            qy,
                        )] == (if inside(x as int, y as int, width as int, height as int, qx, qy)
                            && (qy < py || (qy == py && qx < px)) {
                            color
                        } else {
                            canvas_pixels(*old(self))[(qx, qy)]
                        }),
                decreases right - px,
            {
                raw_put(self, px, py, color);
                px += 1;
            }
            py += 1;
        }
    }

    /// Performs the fill operations from `from` up to the next text
    /// operation, and says where it stopped: at that text operation, or
    /// at the end.
    pub fn paint_fills(&mut self, ops: &Vec<DrawOp>, from: usize) -> (next: usize)
        requires
            from <= ops.len(),
        ensures
            next == next_text(ops_view(ops@), from as int),
            from <= next <= ops.len(),
            canvas_width(*final(self)) == canvas_width(*old(self)),
            canvas_height(*final(self)) == canvas_height(*old(self)),
            forall|px: int, py: int|
                on_canvas(*old(self), px, py) ==> #[trigger] canvas_pixels(*final(self))[(px, py)]
                    == filled_color(
                    ops_view(ops@),
                    from as int,
                    next as int,
                    canvas_pixels(*old(self))[(px, py)],
                    px,
                    py,
                ),
    {
        let ghost cmds = ops_view(ops@);
        let mut i: usize = from;
        while i < ops.len()
            invariant
                from <= i <= ops.len(),
                cmds == ops_view(ops@),
                next_text(cmds, from as int) == next_text(cmds, i as int),
                canvas_width(*self) == canvas_width(*old(self)),
                canvas_height(*self) == canvas_height(*old(self)),
                forall|px: int, py: int|
                    on_canvas(*old(self), px, py) ==> #[trigger] canvas_pixels(*self)[(px, py)]
                        == filled_color(
                        cmds,
                        from as int,
                        i as int,
                        canvas_pixels(*old(self))[(px, py)],
                        px,
                        py,
                    ),
            decreases ops.len() - i,
        {
            proof {
                assert(cmds[i as int] == ops@[i as int]@);
            }
            match &ops[i] {
                DrawOp::Fill { x, y, width, height, color } => {
                    self.fill_rect(*x, *y, *width, *height, *color);
                },
                DrawOp::Text { .. } => {
                    return i;
                },
            }
            i += 1;
        }
        i
    }

    /// The bytes of the canvas: its pixels row after row, and nothing else.
    pub fn into_bytes(self) -> (bytes: Vec<u8>)
        ensures
            bytes.len() == byte_size(canvas_width(self), canvas_height(self)),
            forall|x: int, y: int|
                on_canvas(self, x, y) ==> #[trigger] decoded(bytes@, canvas_width(self), x, y)
                    == canvas_pixels(self)[(x, y)],
    {
        let width = raw_width(&self);
        let height = raw_height(&self);
        let needed = bytes_needed(width, height);
        let mut bytes = raw_into_bytes(self);
        let ghost all = bytes@;
        bytes.truncate(needed as usize);
        proof {
            assert forall|x: int, y: int| on_canvas(self, x, y) implies #[trigger] decoded(
                bytes@,
                width as int,
                x,
                y,
            ) == decoded(all, width as int, x, y) by {
                lemma_pixel_within(width as int, height as int, x, y);
            }
        }
        bytes
    }

    /// A canvas of the given size over bytes that hold its pixels row
    /// after row; nothing unless the bytes are exactly as many as the
    /// size needs.
    pub fn from_bytes(width: u32, height: u32, bytes: Vec<u8>) -> (canvas: Option<Canvas>)
        ensures
            canvas is Some <==> bytes.len() == byte_size(width as int, height as int),
            canvas matches Some(c) ==> {
                &&& canvas_width(c) == width
                &&& canvas_height(c) == height
                &&& forall|x: int, y: int|
                    0 <= x < width && 0 <= y < height ==> #[trigger] canvas_pixels(c)[(x, y)]
                        == decoded(bytes@, width as int, x, y)
            },
    {
        if bytes.len() as u128 == bytes_needed(width, height) {
            raw_from_bytes(width, height, bytes)
        } else {
            None
        }
    }
}

} // verus!
