//! What the splash window shows and how it answers the events of its event
//! loop; the window itself and its drawing surface belong to the caller.

use vstd::arithmetic::div_mod::{
    lemma_fundamental_div_mod,
    lemma_fundamental_div_mod_converse,
    lemma_multiply_divide_lt,
};
use vstd::prelude::*;

verus! {

/// The index of pixel `(x, y)` in a row-major image `width` pixels wide.
pub open spec fn pixel_index(width: int, x: int, y: int) -> int {
    y * width + x
}

/// The value shown at `(x, y)`: the image's pixel where the image covers that
/// point, black (0) elsewhere.
pub open spec fn frame_cell(pixels: Seq<u32>, img_width: int, img_height: int, x: int, y: int) -> u32 {
    if x < img_width && y < img_height {
        pixels[pixel_index(img_width, x, y)]
    } else {
        0
    }
}

/// The whole frame for a surface `buf_width` by `buf_height`, row by row.
pub open spec fn frame_of(
    pixels: Seq<u32>,
    img_width: int,
    img_height: int,
    buf_width: int,
    buf_height: int,
) -> Seq<u32> {
    Seq::new(
        (buf_width * buf_height) as nat,
        |i: int| frame_cell(pixels, img_width, img_height, i % buf_width, i / buf_width),
    )
}

/// The image that the splash window shows: packed `0x00RRGGBB` pixels, row by row.
pub struct SplashImage {
    pub pixels: Vec<u32>,
    pub width: u32,
    pub height: u32,
}

impl SplashImage {
    pub fn new(pixels: Vec<u32>, width: u32, height: u32) -> (image: SplashImage)
        ensures
            image.pixels@ == pixels@,
            image.width == width,
            image.height == height,
    {
        SplashImage { pixels, width, height }
    }

    /// Every pixel that a frame of this size copies from the image lies in `pixels`.
    pub open spec fn covers(&self, buf_width: int, buf_height: int) -> bool {
        forall|x: int, y: int|
            0 <= x < buf_width && 0 <= y < buf_height && x < self.width && y < self.height
                ==> #[trigger] pixel_index(self.width as int, x, y) < self.pixels@.len()
    }

    /// The frame to draw on a surface of the given size: the image in its
    /// top-left corner, black elsewhere; nothing for an empty surface.
    pub fn paint(&self, buf_width: u32, buf_height: u32) -> (frame: Option<Vec<u32>>)
        requires
            buf_width * buf_height <= usize::MAX,
            self.covers(buf_width as int, buf_height as int),
        ensures
            (buf_width == 0 || buf_height == 0) ==> frame is None,
            (buf_width > 0 && buf_height > 0) ==> (frame matches Some(f) && f@ == frame_of(
                self.pixels@,
                self.width as int,
                self.height as int,
                buf_width as int,
                buf_height as int,
            )),
    {
        if buf_width == 0 || buf_height == 0 {
            return None;
        }
        let bw = buf_width as usize;
        let bh = buf_height as usize;
        let iw = self.width as usize;
        let ih = self.height as usize;
        let mut frame: Vec<u32> = Vec::new();
        let mut y: usize = 0;
        while y < bh
            invariant
                bw == buf_width,
                bh == buf_height,
                iw == self.width,
                ih == self.height,
                bw > 0,
                bw * bh <= usize::MAX,
                self.covers(bw as int, bh as int),
                y <= bh,
                frame@.len() == y * bw,
                forall|i: int| 0 <= i < frame@.len() ==> #[trigger] frame@[i] == frame_cell(
                    self.pixels@, iw as int, ih as int, i % (bw as int), i / (bw as int)),
            decreases bh - y,
        {
            let mut x: usize = 0;
            while x < bw
                invariant
                    bw == buf_width,
                    bh == buf_height,
                    iw == self.width,
                    ih == self.height,
                    bw > 0,
                    bw * bh <= usize::MAX,
                    self.covers(bw as int, bh as int),
                    y < bh,
                    x <= bw,
                    frame@.len() == y * bw + x,
                    forall|i: int| 0 <= i < frame@.len() ==> #[trigger] frame@[i] == frame_cell(
                    self.pixels@, iw as int, ih as int, i % (bw as int), i / (bw as int)),
                decreases bw - x,
            {
                assert(y * bw + x < bw * bh) by (nonlinear_arith)
                    requires
                        y < bh,
                        x < bw,
                ;
                let v: u32 = if x < iw && y < ih {
                    assert(pixel_index(iw as int, x as int, y as int) < self.pixels@.len());
                    assert(y * iw + x < self.pixels.len());
                    assert(0 <= y * iw) by (nonlinear_arith);
                    self.pixels[y * iw + x]
                } else {
                    0
                };
                proof {
                    lemma_fundamental_div_mod_converse((y * bw + x) as int, bw as int, y as int, x as int);
                }
                assert(v == frame_cell(self.pixels@, iw as int, ih as int, x as int, y as int));
                frame.push(v);
                x = x + 1;
            }
            assert((y + 1) * bw == y * bw + bw) by (nonlinear_arith);
            y = y + 1;
        }
        assert(bh * bw == bw * bh) by (nonlinear_arith);
        assert(frame@ =~= frame_of(self.pixels@, iw as int, ih as int, bw as int, bh as int));
        Some(frame)
    }
}

/// The side of the drawing surface for an image side of `dim` pixels: a
/// surface side cannot be zero, so an empty side becomes 1.
pub fn surface_extent(dim: u32) -> (extent: u32)
    ensures
        extent == if dim == 0 {
            1
        } else {
            dim
        },
        extent > 0,
{
    if dim == 0 {
        1
    } else {
        dim
    }
}

/// The window events that the splash screen tells apart.
#[derive(Debug, Clone, Copy, PartialEq, Eq, Structural)]
pub enum SplashEvent {
    RedrawRequested,
    CloseRequested,
    Other,
}

/// What the event loop does next.
#[derive(Debug, Clone, Copy, PartialEq, Eq, Structural)]
pub enum SplashAction {
    /// Leave the event loop: the work is done.
    Exit,
    /// Draw the frame again, then ask for the next redraw if there is a window.
    Repaint { request_redraw: bool },
    /// Ask the window for a redraw.
    RequestRedraw,
    /// Do nothing.
    Ignore,
}

/// The answer to a window event. The loop ends once the work is `done`; a
/// request to close the window is ignored, since the work goes on regardless.
pub fn on_window_event(event: SplashEvent, done: bool, has_window: bool) -> (action: SplashAction)
    ensures
        action == match event {
            SplashEvent::RedrawRequested => if done {
                SplashAction::Exit
            } else {
                SplashAction::Repaint { request_redraw: has_window }
            },
            _ => SplashAction::Ignore,
        },
{
    match event {
        SplashEvent::RedrawRequested => {
            if done {
                SplashAction::Exit
            } else {
                SplashAction::Repaint { request_redraw: has_window }
            }
        },
        SplashEvent::CloseRequested => SplashAction::Ignore,
        SplashEvent::Other => SplashAction::Ignore,
    }
}

/// The answer when the event loop is about to wait for events: leave once the
/// work is `done`, otherwise keep the window redrawing.
pub fn on_about_to_wait(done: bool, has_window: bool) -> (action: SplashAction)
    ensures
        action == if done {
            SplashAction::Exit
        } else if has_window {
            SplashAction::RequestRedraw
        } else {
            SplashAction::Ignore
        },
{
    if done {
        SplashAction::Exit
    } else if has_window {
        SplashAction::RequestRedraw
    } else {
        SplashAction::Ignore
    }
}

/// Cell `(x, y)` of a frame, at index `y * buf_width + x`, holds the image's
/// pixel `y * img_width + x` where the image covers it and black (0) elsewhere:
/// the image sits unscaled in the top-left corner of the surface.
pub proof fn lemma_frame_cell_is_image_or_black(
    pixels: Seq<u32>,
    img_width: int,
    img_height: int,
    buf_width: int,
    buf_height: int,
    x: int,
    y: int,
)
    requires
        0 <= x < buf_width,
        0 <= y < buf_height,
    ensures
        frame_of(pixels, img_width, img_height, buf_width, buf_height).len() == buf_width * buf_height,
        0 <= y * buf_width + x < buf_width * buf_height,
        frame_of(pixels, img_width, img_height, buf_width, buf_height)[y * buf_width + x] == (if x
            < img_width && y < img_height {
            pixels[y * img_width + x]
        } else {
            0
        }),
{
    assert(0 <= y * buf_width + x < buf_width * buf_height) by (nonlinear_arith)
        requires
            0 <= x < buf_width,
            0 <= y < buf_height,
    ;
    lemma_fundamental_div_mod_converse(y * buf_width + x, buf_width, y, x);
}

/// An image painted on a surface of its own size is shown exactly as it is.
pub proof fn lemma_frame_of_own_size_is_image(pixels: Seq<u32>, width: int, height: int)
    requires
        width > 0,
        height >= 0,
        pixels.len() == width * height,
    ensures
        frame_of(pixels, width, height, width, height) == pixels,
{
    let f = frame_of(pixels, width, height, width, height);
    assert forall|i: int| 0 <= i < pixels.len() implies #[trigger] f[i] == pixels[i] by {
        lemma_fundamental_div_mod(i, width);
        lemma_multiply_divide_lt(i, width, height);
        assert(i / width >= 0) by (nonlinear_arith)
            requires
                i >= 0,
                width > 0,
        ;
        assert(0 <= i % width < width) by {
            vstd::arithmetic::div_mod::lemma_mod_bound(i, width);
        }
        assert(pixel_index(width, i % width, i / width) == i) by (nonlinear_arith)
            requires
                i == width * (i / width) + (i % width),
        ;
    }
    assert(f =~= pixels);
}

} // verus!
