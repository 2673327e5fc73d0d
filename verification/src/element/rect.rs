//! A flat single-color rectangle widget.

use vstd::prelude::*;

use crate::color::Color;
use crate::util::UVec2;

verus! {

pub struct Rect {
    size: UVec2,
    color: Color,
}

impl Rect {
    /// The rectangle's size never overflows a pixel count.
    pub open spec fn well_formed(self) -> bool {
        self.spec_size().x * self.spec_size().y <= usize::MAX
    }

    pub closed spec fn spec_size(self) -> UVec2 {
        self.size
    }

    pub closed spec fn spec_color(self) -> Color {
        self.color
    }

    pub fn new(width: usize, height: usize, color: Color) -> (r: Rect)
        requires
            width * height <= usize::MAX,
        ensures
            r.spec_size() == (UVec2 { x: width, y: height }),
            r.spec_color() == color,
            r.well_formed(),
    {
        Rect { size: UVec2::new(width, height), color }
    }

    pub fn get_size(&self) -> (s: UVec2)
        ensures
            s == self.spec_size(),
    {
        self.size
    }

    /// Renders the rectangle: every pixel holds the fill color.
    pub fn draw(&self) -> (r: (Vec<Color>, UVec2))
        requires
            self.well_formed(),
        ensures
            r.1 == self.spec_size(),
            r.0.len() == self.spec_size().x * self.spec_size().y,
            forall|i: int| 0 <= i < r.0.len() ==> r.0[i] == self.spec_color(),
    {
        let area = self.size.area();
        let mut buf: Vec<Color> = Vec::new();
        let mut i: usize = 0;
        while i < area
            invariant
                0 <= i <= area,
                buf.len() == i,
                forall|j: int| 0 <= j < buf.len() ==> buf[j] == self.spec_color(),
            decreases area - i,
        {
            buf.push(self.color);
            i = i + 1;
        }
        (buf, self.size)
    }
}

} // verus!
