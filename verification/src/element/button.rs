//! A bordered, pressable rectangle widget.

use vstd::prelude::*;

use crate::color::Color;
use crate::event::ButtonState;
use crate::event::Event;
use crate::event::MouseButton;
use crate::util::UVec2;

verus! {

pub struct Button {
    size: UVec2,
    depressed: bool,
    color: Color,
}

/// The color the button shows at pixel `(x, y)`: a two-pixel border in the
/// inverted color around a fill that swaps with the border while depressed.
/// A button too small to hold a border shows a single color.
pub open spec fn button_pixel(
    size: UVec2,
    color: Color,
    depressed: bool,
    x: int,
    y: int,
) -> Color {
    if size.x <= 4 || size.y <= 4 {
        if depressed {
            color
        } else {
            color.spec_invert()
        }
    } else if x < 2 || x >= size.x - 2 || y < 2 || y >= size.y - 2 {
        color.spec_invert()
    } else if depressed {
        color.spec_invert()
    } else {
        color
    }
}

impl Button {
    /// The button's size never overflows a pixel count.
    pub open spec fn well_formed(self) -> bool {
        self.spec_size().x * self.spec_size().y <= usize::MAX
    }

    pub closed spec fn spec_size(self) -> UVec2 {
        self.size
    }

    pub closed spec fn spec_color(self) -> Color {
        self.color
    }

    pub closed spec fn spec_depressed(self) -> bool {
        self.depressed
    }

    pub fn new(width: usize, height: usize, color: Color) -> (b: Button)
        requires
            width * height <= usize::MAX,
        ensures
            b.spec_size() == (UVec2 { x: width, y: height }),
            b.spec_color() == color,
            !b.spec_depressed(),
            b.well_formed(),
    {
        Button { size: UVec2::new(width, height), depressed: false, color }
    }

    pub fn get_size(&self) -> (s: UVec2)
        ensures
            s == self.spec_size(),
    {
        self.size
    }

    /// Whether the button currently shows as pressed.
    pub fn is_depressed(&self) -> (r: bool)
        ensures
            r == self.spec_depressed(),
    {
        self.depressed
    }

    /// Renders the button into a local buffer, pixel by pixel.
    pub fn draw(&self) -> (r: (Vec<Color>, UVec2))
        requires
            self.well_formed(),
        ensures
            r.1 == self.spec_size(),
            r.0.len() == self.spec_size().x * self.spec_size().y,
            forall|i: int|
                0 <= i < r.0.len() ==> r.0[i] == button_pixel(
                    self.spec_size(),
                    self.spec_color(),
                    self.spec_depressed(),
                    i % (self.spec_size().x as int),
                    i / (self.spec_size().x as int),
                ),
    {
        let width = self.size.x;
        let height = self.size.y;
        let mut buf: Vec<Color> = Vec::new();
        if width == 0 || height == 0 {
            proof {
                assert(width * height == 0) by (nonlinear_arith)
                    requires width == 0 || height == 0;
            }
            return (buf, self.size);
        }
        let mut y: usize = 0;
        while y < height
            invariant
                0 < width,
                0 <= y <= height,
                width * height <= usize::MAX,
                self.well_formed(),
                width == self.spec_size().x,
                height == self.spec_size().y,
                buf.len() == y * width,
                forall|i: int|
                    0 <= i < buf.len() ==> buf[i] == button_pixel(
                        self.spec_size(),
                        self.spec_color(),
                        self.spec_depressed(),
                        i % (width as int),
                        i / (width as int),
                    ),
            decreases height - y,
        {
            let mut x: usize = 0;
            while x < width
                invariant
                    0 < width,
                    0 <= x <= width,
                    0 <= y < height,
                    width * height <= usize::MAX,
                    self.well_formed(),
                    width == self.spec_size().x,
                    height == self.spec_size().y,
                    buf.len() == y * width + x,
                    forall|i: int|
                        0 <= i < buf.len() ==> buf[i] == button_pixel(
                            self.spec_size(),
                            self.spec_color(),
                            self.spec_depressed(),
                            i % (width as int),
                            i / (width as int),
                        ),
                decreases width - x,
            {
                let pixel: Color = if width <= 4 || height <= 4 {
                    if self.depressed {
                        self.color
                    } else {
                        self.color.invert()
                    }
                } else if x < 2 || x >= width - 2 || y < 2 || y >= height - 2 {
                    self.color.invert()
                } else if self.depressed {
                    self.color.invert()
                } else {
                    self.color
                };
                proof {
                    assert((y * width + x) % (width as int) == x && (y * width + x) / (width
                        as int) == y && y * width + x < width * height) by (nonlinear_arith)
                        requires 0 <= x < width && 0 <= y < height;
                }
                buf.push(pixel);
                x = x + 1;
            }
            proof {
                assert(y * width + width == (y + 1) * width) by (nonlinear_arith);
            }
            y = y + 1;
        }
        proof {
            assert(height * width == width * height) by (nonlinear_arith);
        }
        (buf, self.size)
    }

    /// The depressed flag after a notification: a left-button press
    /// depresses the button, a left-button release releases it; every other
    /// notification leaves it alone.
    pub open spec fn spec_depressed_after(self, ev: Event) -> bool {
        match ev {
            Event::Mouse(event) => if event.button == MouseButton::Left {
                event.state == ButtonState::Pressed
            } else {
                self.spec_depressed()
            },
            _ => self.spec_depressed(),
        }
    }

    pub fn update(&mut self, ev: &Event)
        ensures
            final(self).spec_size() == old(self).spec_size(),
            final(self).spec_color() == old(self).spec_color(),
            final(self).spec_depressed() == old(self).spec_depressed_after(*ev),
    {
        match ev {
            Event::Mouse(event) => {
                if event.button == MouseButton::Left {
                    self.depressed = event.state == ButtonState::Pressed;
                }
            },
            _ => {},
        }
    }
}

} // verus!
