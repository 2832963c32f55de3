//! The framebuffer: a grid of colors with a depth for each of them.
//!
//! A pixel is written only where the new depth is smaller than the depth
//! that the pixel holds, so after any number of writes every pixel shows
//! the nearest of the fragments that were written to it.

use crate::fixed::{euclidean_quotient, Fixed};
use crate::fragment::Pixel;
use crate::line::{count_line_steps, line_pixel, line_steps, line_x, line_y};
use crate::vector::Vector3;
use vstd::prelude::*;

verus! {

/// Raw value of the depth that a cleared pixel holds: farther than any
/// depth that can be written.
pub const FAR: i32 = 0x7fff_ffff;

/// A color with eight bits for each channel.
#[derive(Clone, Copy, Debug, PartialEq, Eq, Structural)]
pub struct Color {
    pub r: u8,
    pub g: u8,
    pub b: u8,
    pub a: u8,
}

/// A channel between zero and one as eight bits: `v * 255`, rounded down
/// and limited to 0..=255.
pub open spec fn channel_byte(v: Fixed) -> int {
    let scaled = (v@ * 255) / 65536;
    if scaled < 0 {
        0
    } else if scaled > 255 {
        255
    } else {
        scaled
    }
}

/// The opaque color with the given red, green and blue channels.
pub open spec fn color_of(v: Vector3) -> Color {
    Color {
        r: channel_byte(v.x) as u8,
        g: channel_byte(v.y) as u8,
        b: channel_byte(v.z) as u8,
        a: 255,
    }
}

fn byte_of(v: Fixed) -> (r: u8)
    ensures
        r == channel_byte(v),
{
    let scaled: i128 = euclidean_quotient((v.raw as i128) * 255, 65536);
    if scaled < 0 {
        0
    } else if scaled > 255 {
        255
    } else {
        scaled as u8
    }
}

impl Color {
    pub fn new(r: u8, g: u8, b: u8, a: u8) -> (c: Color)
        ensures
            c == (Color { r, g, b, a }),
    {
        Color { r, g, b, a }
    }

    /// The opaque color whose channels are the three components of `v`,
    /// each between zero and one.
    pub fn from_vector(v: Vector3) -> (c: Color)
        ensures
            c == color_of(v),
    {
        Color { r: byte_of(v.x), g: byte_of(v.y), b: byte_of(v.z), a: 255 }
    }
}

/// What a framebuffer holds: `colors` and `depths` have one entry for
/// each pixel, row by row.
pub struct Frame {
    pub width: int,
    pub height: int,
    pub colors: Seq<Color>,
    pub depths: Seq<Fixed>,
    pub background: Color,
}

impl Frame {
    /// Both buffers have one entry for each pixel.
    pub open spec fn wf(self) -> bool {
        &&& self.width >= 0
        &&& self.height >= 0
        &&& self.colors.len() == self.width * self.height
        &&& self.depths.len() == self.width * self.height
    }

    /// Whether the pixel `(x, y)` exists.
    pub open spec fn in_bounds(self, x: int, y: int) -> bool {
        0 <= x < self.width && 0 <= y < self.height
    }

    /// Place of the pixel `(x, y)` in the two buffers.
    pub open spec fn index(self, x: int, y: int) -> int {
        y * self.width + x
    }

    /// The frame after a depth-tested write: the pixel takes the color and
    /// the depth if it exists and the depth is smaller than the one it
    /// holds; otherwise nothing changes.
    pub open spec fn put(self, x: int, y: int, color: Color, depth: Fixed) -> Frame {
        if self.in_bounds(x, y) && depth@ < self.depths[self.index(x, y)]@ {
            Frame {
                colors: self.colors.update(self.index(x, y), color),
                depths: self.depths.update(self.index(x, y), depth),
                ..self
            }
        } else {
            self
        }
    }

    /// The frame with every pixel at the background color and the far
    /// depth.
    pub open spec fn cleared(self) -> Frame {
        Frame {
            colors: Seq::new(self.colors.len(), |i: int| self.background),
            depths: Seq::new(self.depths.len(), |i: int| Fixed { raw: 0x7fff_ffff }),
            ..self
        }
    }

    /// The frame after depth-tested writes of the first `n` pixels of the
    /// line from `(x0, y0)` to `(x1, y1)`, all with one color and depth.
    pub open spec fn put_line_prefix(
        self,
        x0: int,
        y0: int,
        x1: int,
        y1: int,
        color: Color,
        depth: Fixed,
        n: nat,
    ) -> Frame
        decreases n,
    {
        if n == 0 {
            self
        } else {
            self.put_line_prefix(x0, y0, x1, y1, color, depth, (n - 1) as nat).put(
                line_x(x0, y0, x1, y1, n - 1),
                line_y(x0, y0, x1, y1, n - 1),
                color,
                depth,
            )
        }
    }

    /// The frame after depth-tested writes of every pixel of the line
    /// from `(x0, y0)` to `(x1, y1)`.
    pub open spec fn put_line(
        self,
        x0: int,
        y0: int,
        x1: int,
        y1: int,
        color: Color,
        depth: Fixed,
    ) -> Frame {
        self.put_line_prefix(x0, y0, x1, y1, color, depth, (line_steps(x0, y0, x1, y1) + 1) as nat)
    }
}

/// A grid of pixels with a color buffer and a depth buffer.
pub struct Framebuffer {
    width: usize,
    height: usize,
    color_buffer: Vec<Color>,
    depth_buffer: Vec<Fixed>,
    background_color: Color,
}

impl View for Framebuffer {
    type V = Frame;

    closed spec fn view(&self) -> Frame {
        Frame {
            width: self.width as int,
            height: self.height as int,
            colors: self.color_buffer@,
            depths: self.depth_buffer@,
            background: self.background_color,
        }
    }
}

/// The place of an existing pixel lies within the buffers.
proof fn lemma_index_in_range(width: int, height: int, x: int, y: int)
    by (nonlinear_arith)
    requires
        0 <= x < width,
        0 <= y < height,
    ensures
        0 <= y * width,
        0 <= y * width + x < width * height,
{
}

impl Framebuffer {
    /// Both buffers have one entry for each pixel, and no more than the
    /// machine can address.
    pub open spec fn wf(&self) -> bool {
        self@.wf() && self@.width * self@.height <= usize::MAX
    }

    /// A black framebuffer of the given size, cleared.
    pub fn new(width: usize, height: usize) -> (fb: Framebuffer)
        requires
            width * height <= usize::MAX,
        ensures
            fb.wf(),
            fb@.width == width,
            fb@.height == height,
            fb@.background == (Color { r: 0, g: 0, b: 0, a: 255 }),
            fb@ == fb@.cleared(),
    {
        let background: Color = Color::new(0, 0, 0, 255);
        let count: usize = width * height;
        let mut color_buffer: Vec<Color> = Vec::new();
        let mut depth_buffer: Vec<Fixed> = Vec::new();
        let mut i: usize = 0;
        while i < count
            invariant
                i <= count,
                color_buffer@ == Seq::new(i as nat, |k: int| background),
                depth_buffer@ == Seq::new(i as nat, |k: int| Fixed { raw: 0x7fff_ffff }),
            decreases count - i,
        {
            color_buffer.push(background);
            depth_buffer.push(Fixed::from_raw(FAR));
            i = i + 1;
        }
        Framebuffer { width, height, color_buffer, depth_buffer, background_color: background }
    }

    /// Number of columns.
    pub fn width(&self) -> (w: usize)
        ensures
            w == self@.width,
    {
        self.width
    }

    /// Number of rows.
    pub fn height(&self) -> (h: usize)
        ensures
            h == self@.height,
    {
        self.height
    }

    /// The colors of all pixels, row by row.
    pub fn color_buffer(&self) -> (colors: &Vec<Color>)
        ensures
            colors@ == self@.colors,
    {
        &self.color_buffer
    }

    /// The depths of all pixels, row by row.
    pub fn depth_buffer(&self) -> (depths: &Vec<Fixed>)
        ensures
            depths@ == self@.depths,
    {
        &self.depth_buffer
    }

    /// The color of the pixel `(x, y)`, if it exists.
    pub fn color_at(&self, x: i32, y: i32) -> (c: Option<Color>)
        requires
            self.wf(),
        ensures
            c == if self@.in_bounds(x as int, y as int) {
                Some(self@.colors[self@.index(x as int, y as int)])
            } else {
                None
            },
    {
        if x >= 0 && y >= 0 && (x as usize) < self.width && (y as usize) < self.height {
            proof {
                lemma_index_in_range(self.width as int, self.height as int, x as int, y as int);
            }
            Some(self.color_buffer[(y as usize) * self.width + (x as usize)])
        } else {
            None
        }
    }

    /// The depth of the pixel `(x, y)`, if it exists.
    pub fn depth_at(&self, x: i32, y: i32) -> (d: Option<Fixed>)
        requires
            self.wf(),
        ensures
            d == if self@.in_bounds(x as int, y as int) {
                Some(self@.depths[self@.index(x as int, y as int)])
            } else {
                None
            },
    {
        if x >= 0 && y >= 0 && (x as usize) < self.width && (y as usize) < self.height {
            proof {
                lemma_index_in_range(self.width as int, self.height as int, x as int, y as int);
            }
            Some(self.depth_buffer[(y as usize) * self.width + (x as usize)])
        } else {
            None
        }
    }

    /// Sets the color that `clear` fills the frame with.
    pub fn set_background_color(&mut self, color: Color)
        requires
            old(self).wf(),
        ensures
            final(self).wf(),
            final(self)@ == (Frame { background: color, ..old(self)@ }),
    {
        self.background_color = color;
    }

    /// Resets every pixel to the background color and the far depth.
    pub fn clear(&mut self)
        requires
            old(self).wf(),
        ensures
            final(self).wf(),
            final(self)@ == old(self)@.cleared(),
    {
        let count: usize = self.color_buffer.len();
        let background: Color = self.background_color;
        let mut i: usize = 0;
        while i < count
            invariant
                i <= count,
                count == self.color_buffer.len(),
                count == self.depth_buffer.len(),
                self.width == old(self).width,
                self.height == old(self).height,
                self.background_color == background,
                background == old(self).background_color,
                count == old(self).color_buffer.len(),
                forall|k: int| 0 <= k < i ==> self.color_buffer@[k] == background,
                forall|k: int| 0 <= k < i ==> self.depth_buffer@[k]@ == 0x7fff_ffff,
            decreases count - i,
        {
            self.color_buffer.set(i, background);
            self.depth_buffer.set(i, Fixed::from_raw(FAR));
            i = i + 1;
        }
        assert(self.color_buffer@ =~= old(self)@.cleared().colors);
        assert(self.depth_buffer@ =~= old(self)@.cleared().depths);
    }

    /// Writes a pixel if it exists and `depth` is smaller than the depth
    /// that it holds; otherwise nothing changes.
    pub fn write_pixel_with_depth(&mut self, x: i32, y: i32, color: Color, depth: Fixed)
        requires
            old(self).wf(),
        ensures
            final(self).wf(),
            final(self)@ == old(self)@.put(x as int, y as int, color, depth),
    {
        if x >= 0 && y >= 0 && (x as usize) < self.width && (y as usize) < self.height {
            proof {
                lemma_index_in_range(self.width as int, self.height as int, x as int, y as int);
            }
            let index: usize = (y as usize) * self.width + (x as usize);
            if depth.raw < self.depth_buffer[index].raw {
                self.color_buffer.set(index, color);
                self.depth_buffer.set(index, depth);
            }
        }
    }

    /// Draws the line from `(x0, y0)` to `(x1, y1)` with one color and
    /// one depth, one depth-tested write for each of its pixels.
    pub fn draw_line_with_depth(
        &mut self,
        x0: i32,
        y0: i32,
        x1: i32,
        y1: i32,
        color: Color,
        depth: Fixed,
    )
        requires
            old(self).wf(),
        ensures
            final(self).wf(),
            final(self)@ == old(self)@.put_line(
                x0 as int,
                y0 as int,
                x1 as int,
                y1 as int,
                color,
                depth,
            ),
    {
        let steps: i64 = count_line_steps(x0, y0, x1, y1);
        let mut i: i64 = 0;
        while i <= steps
            invariant
                0 <= i <= steps + 1,
                steps == line_steps(x0 as int, y0 as int, x1 as int, y1 as int),
                self.wf(),
                self@ == old(self)@.put_line_prefix(
                    x0 as int,
                    y0 as int,
                    x1 as int,
                    y1 as int,
                    color,
                    depth,
                    i as nat,
                ),
            decreases steps + 1 - i,
        {
            let p: Pixel = line_pixel(x0, y0, x1, y1, i);
            self.write_pixel_with_depth(p.x, p.y, color, depth);
            i = i + 1;
        }
    }
}

/// Writing the same color and depth to a pixel twice leaves the frame as
/// one write leaves it.
pub proof fn write_is_idempotent(frame: Frame, x: int, y: int, color: Color, depth: Fixed)
    requires
        frame.wf(),
    ensures
        frame.put(x, y, color, depth).put(x, y, color, depth) == frame.put(x, y, color, depth),
{
    if frame.in_bounds(x, y) {
        lemma_index_in_range(frame.width, frame.height, x, y);
    }
}

/// Two writes to one pixel leave, in either order, what the write with
/// the smaller depth alone leaves.
pub proof fn nearer_write_wins(
    frame: Frame,
    x: int,
    y: int,
    near_color: Color,
    near: Fixed,
    far_color: Color,
    far: Fixed,
)
    requires
        frame.wf(),
        near@ < far@,
    ensures
        frame.put(x, y, near_color, near).put(x, y, far_color, far) == frame.put(
            x,
            y,
            near_color,
            near,
        ),
        frame.put(x, y, far_color, far).put(x, y, near_color, near) == frame.put(
            x,
            y,
            near_color,
            near,
        ),
        frame.in_bounds(x, y) && near@ < frame.depths[frame.index(x, y)]@ ==> {
            &&& frame.put(x, y, far_color, far).put(x, y, near_color, near).colors[frame.index(
                x,
                y,
            )] == near_color
            &&& frame.put(x, y, far_color, far).put(x, y, near_color, near).depths[frame.index(
                x,
                y,
            )] == near
        },
{
    if frame.in_bounds(x, y) {
        lemma_index_in_range(frame.width, frame.height, x, y);
        let i = frame.index(x, y);
        let first = frame.put(x, y, far_color, far);
        if far@ < frame.depths[i]@ {
            assert(first.put(x, y, near_color, near).colors =~= frame.put(
                x,
                y,
                near_color,
                near,
            ).colors);
            assert(first.put(x, y, near_color, near).depths =~= frame.put(
                x,
                y,
                near_color,
                near,
            ).depths);
        }
    }
}

/// Two writes leave the same frame in either order, unless they bring
/// different colors at one depth to one pixel.
pub proof fn writes_commute(
    frame: Frame,
    x1: int,
    y1: int,
    color1: Color,
    depth1: Fixed,
    x2: int,
    y2: int,
    color2: Color,
    depth2: Fixed,
)
    requires
        frame.wf(),
        x1 != x2 || y1 != y2 || depth1 != depth2 || color1 == color2,
    ensures
        frame.put(x1, y1, color1, depth1).put(x2, y2, color2, depth2) == frame.put(
            x2,
            y2,
            color2,
            depth2,
        ).put(x1, y1, color1, depth1),
{
    let one = frame.put(x1, y1, color1, depth1).put(x2, y2, color2, depth2);
    let other = frame.put(x2, y2, color2, depth2).put(x1, y1, color1, depth1);
    if frame.in_bounds(x1, y1) {
        lemma_index_in_range(frame.width, frame.height, x1, y1);
    }
    if frame.in_bounds(x2, y2) {
        lemma_index_in_range(frame.width, frame.height, x2, y2);
    }
    if frame.in_bounds(x1, y1) && frame.in_bounds(x2, y2) && (x1 != x2 || y1 != y2) {
        if frame.index(x1, y1) == frame.index(x2, y2) {
            index_is_injective(frame, x1, y1, x2, y2);
        }
    }
    assert(one.colors =~= other.colors);
    assert(one.depths =~= other.depths);
}

/// A write keeps the size of the frame and changes at most its own pixel,
/// which then holds the smaller of the two depths.
pub proof fn write_keeps_the_nearer_depth(frame: Frame, x: int, y: int, color: Color, depth: Fixed)
    requires
        frame.wf(),
    ensures
        frame.put(x, y, color, depth).wf(),
        frame.put(x, y, color, depth).width == frame.width,
        frame.put(x, y, color, depth).height == frame.height,
        frame.put(x, y, color, depth).background == frame.background,
        forall|i: int|
            0 <= i < frame.width * frame.height && !(frame.in_bounds(x, y) && i == frame.index(
                x,
                y,
            )) ==> frame.put(x, y, color, depth).depths[i] == frame.depths[i] && frame.put(
                x,
                y,
                color,
                depth,
            ).colors[i] == frame.colors[i],
        frame.in_bounds(x, y) ==> frame.put(x, y, color, depth).depths[frame.index(x, y)]
            == if depth@ < frame.depths[frame.index(x, y)]@ {
            depth
        } else {
            frame.depths[frame.index(x, y)]
        },
        frame.in_bounds(x, y) ==> frame.put(x, y, color, depth).colors[frame.index(x, y)]
            == if depth@ < frame.depths[frame.index(x, y)]@ {
            color
        } else {
            frame.colors[frame.index(x, y)]
        },
{
    if frame.in_bounds(x, y) {
        lemma_index_in_range(frame.width, frame.height, x, y);
    }
}

/// Two pixels of a frame have the same place in the buffers only if they
/// are the same pixel.
pub proof fn index_is_injective(frame: Frame, x: int, y: int, x2: int, y2: int)
    requires
        frame.in_bounds(x, y),
        frame.in_bounds(x2, y2),
        frame.index(x, y) == frame.index(x2, y2),
    ensures
        x == x2,
        y == y2,
{
    vstd::arithmetic::div_mod::lemma_fundamental_div_mod_converse(
        frame.index(x, y),
        frame.width,
        y,
        x,
    );
    vstd::arithmetic::div_mod::lemma_fundamental_div_mod_converse(
        frame.index(x2, y2),
        frame.width,
        y2,
        x2,
    );
}

/// After a clear every pixel holds the background color and the far
/// depth, and a write to an existing pixel at any depth below the far
/// depth takes effect.
pub proof fn write_after_clear_succeeds(frame: Frame, x: int, y: int, color: Color, depth: Fixed)
    requires
        frame.wf(),
        frame.in_bounds(x, y),
        depth@ < 0x7fff_ffff,
    ensures
        frame.cleared().wf(),
        forall|i: int|
            0 <= i < frame.width * frame.height ==> frame.cleared().colors[i] == frame.background
                && frame.cleared().depths[i]@ == 0x7fff_ffff,
        frame.cleared().put(x, y, color, depth).colors[frame.index(x, y)] == color,
        frame.cleared().put(x, y, color, depth).depths[frame.index(x, y)] == depth,
        frame.cleared().put(x, y, color, depth).colors == frame.cleared().colors.update(
            frame.index(x, y),
            color,
        ),
        frame.cleared().put(x, y, color, depth).depths == frame.cleared().depths.update(
            frame.index(x, y),
            depth,
        ),
{
    lemma_index_in_range(frame.width, frame.height, x, y);
}

} // verus!
