//! Frame-buffer compositing: clipped blits of widget-local pixel buffers.

use vstd::prelude::*;

use crate::color::Color;
use crate::util::BoundingBox;
use crate::util::IVec2;

verus! {

/// Writes one pixel at `position`, dropping it when the position lies
/// outside the `width` by `height` buffer.
pub fn write(buf: &mut Vec<Color>, width: usize, height: usize, position: IVec2, input: Color)
    requires
        old(buf).len() == width * height,
    ensures
        final(buf).len() == old(buf).len(),
        forall|i: int|
            0 <= i < final(buf).len() ==> final(buf)[i] == (if 0 <= position.x < width && 0
                <= position.y < height && i == position.y * width + position.x {
                input
            } else {
                old(buf)[i]
            }),
{
    if position.x >= 0 && position.y >= 0 {
        let x_pos = position.x as usize;
        let y_pos = position.y as usize;
        if x_pos < width && y_pos < height {
            proof {
                assert(y_pos * width + x_pos < width * height) by (nonlinear_arith)
                    requires 0 <= x_pos < width && 0 <= y_pos < height;
            }
            buf.set(x_pos + y_pos * width, input);
        }
    }
}

/// The destination pixel `(x, y)` lies inside the blit rectangle.
pub open spec fn in_blit_rect(bounds: BoundingBox, x: int, y: int) -> bool {
    bounds.spec_min().x <= x < bounds.spec_max().x && bounds.spec_min().y <= y
        < bounds.spec_max().y
}

/// The blit is dropped whole: the box misses the buffer entirely, or the
/// supplied local buffer does not hold exactly one pixel per box cell.
pub open spec fn blit_skipped(
    bounds: BoundingBox,
    width: int,
    height: int,
    content_len: int,
) -> bool {
    ||| bounds.spec_max().x < 0
    ||| bounds.spec_max().y < 0
    ||| bounds.spec_min().x >= width
    ||| bounds.spec_min().y >= height
    ||| bounds.spec_width() * bounds.spec_height() != content_len
}

/// The value a destination pixel holds after the blit: the matching local
/// pixel inside the box, the old value outside it.
pub open spec fn blit_pixel(
    old_pixel: Color,
    bounds: BoundingBox,
    content: Seq<Color>,
    x: int,
    y: int,
) -> Color {
    if in_blit_rect(bounds, x, y) {
        content[(y - bounds.spec_min().y) * bounds.spec_width() + (x - bounds.spec_min().x)]
    } else {
        old_pixel
    }
}

/// The whole frame after blitting `content` through `bounds` onto `old_buf`.
pub open spec fn spec_blit(
    old_buf: Seq<Color>,
    width: int,
    height: int,
    bounds: BoundingBox,
    content: Seq<Color>,
) -> Seq<Color> {
    if blit_skipped(bounds, width, height, content.len() as int) {
        old_buf
    } else {
        Seq::new(old_buf.len(), |i: int| blit_pixel(old_buf[i], bounds, content, i % width, i / width))
    }
}

/// Copies a widget-local pixel buffer into the frame buffer, clipping it to
/// the buffer: destination pixels are written exactly on the intersection of
/// the box with the frame, and nowhere else.
pub fn write_all(
    buf: &mut Vec<Color>,
    width: usize,
    height: usize,
    bounds: BoundingBox,
    content: Vec<Color>,
)
    requires
        old(buf).len() == width * height,
        width <= isize::MAX,
        height <= isize::MAX,
        bounds.well_formed(),
        bounds.spec_width() <= isize::MAX,
        bounds.spec_height() <= isize::MAX,
        bounds.spec_width() * bounds.spec_height() <= usize::MAX,
    ensures
        final(buf)@ == spec_blit(old(buf)@, width as int, height as int, bounds, content@),
{
    let ghost old_buf = buf@;

    if width == 0 || height == 0 {
        proof {
            assert(buf.len() == 0) by (nonlinear_arith)
                requires buf.len() == width * height && (width == 0 || height == 0);
            assert(buf@ =~= spec_blit(old_buf, width as int, height as int, bounds, content@));
        }
        return ;
    }

    // If either max is negative, the whole content lies out of frame.
    if bounds.get_max().x < 0 || bounds.get_max().y < 0 {
        return ;
    }
    if bounds.get_min().x >= width as isize || bounds.get_min().y >= height as isize {
        return ;
    }
    let area = bounds.area();
    if area != content.len() {
        return ;
    }

    let bw: usize = (bounds.get_max().x - bounds.get_min().x) as usize;
    let min_x: usize = if bounds.get_min().x > 0 {
        bounds.get_min().x as usize
    } else {
        0
    };
    let min_y: usize = if bounds.get_min().y > 0 {
        bounds.get_min().y as usize
    } else {
        0
    };
    let max_x: usize = if bounds.get_max().x < width as isize {
        bounds.get_max().x as usize
    } else {
        width
    };
    let max_y: usize = if bounds.get_max().y < height as isize {
        bounds.get_max().y as usize
    } else {
        height
    };

    let mut y: usize = min_y;
    proof {
        lemma_rows_before(buf@, old_buf, bounds, content@, width as int, min_y as int);
    }
    while y < max_y
        invariant
            buf.len() == old_buf.len() == width * height,
            0 < width <= isize::MAX,
            0 < height,
            height <= isize::MAX,
            bounds.well_formed(),
            bounds.spec_width() == bw <= isize::MAX,
            bounds.spec_height() <= isize::MAX,
            content.len() == bounds.spec_width() * bounds.spec_height(),
            !blit_skipped(bounds, width as int, height as int, content.len() as int),
            min_y == if bounds.spec_min().y > 0 { bounds.spec_min().y } else { 0 },
            min_x == if bounds.spec_min().x > 0 { bounds.spec_min().x } else { 0 },
            max_y == if bounds.spec_max().y < height { bounds.spec_max().y as int } else {
                height as int
            },
            max_x == if bounds.spec_max().x < width { bounds.spec_max().x as int } else {
                width as int
            },
            min_y <= y <= max_y <= height,
            forall|i: int|
                0 <= i < buf.len() ==> buf[i] == (if i < y * width {
                    blit_pixel(old_buf[i], bounds, content@, i % (width as int), i / (width as int))
                } else {
                    old_buf[i]
                }),
        decreases max_y - y,
    {
        let mut x: usize = min_x;
        proof {
            lemma_row_prefix(buf@, old_buf, bounds, content@, width as int, y as int, min_x as int);
        }
        while x < max_x
            invariant
                buf.len() == old_buf.len() == width * height,
                0 < width <= isize::MAX,
                0 < height,
                height <= isize::MAX,
                bounds.well_formed(),
                bounds.spec_width() == bw <= isize::MAX,
                bounds.spec_height() <= isize::MAX,
                content.len() == bounds.spec_width() * bounds.spec_height(),
                min_y == if bounds.spec_min().y > 0 { bounds.spec_min().y } else { 0 },
                min_x == if bounds.spec_min().x > 0 { bounds.spec_min().x } else { 0 },
                max_y == if bounds.spec_max().y < height { bounds.spec_max().y as int } else {
                    height as int
                },
                max_x == if bounds.spec_max().x < width { bounds.spec_max().x as int } else {
                    width as int
                },
                min_y <= y < max_y <= height,
                min_x <= x <= max_x <= width,
                forall|i: int|
                    0 <= i < buf.len() ==> buf[i] == (if i < y * width + x {
                        blit_pixel(
                            old_buf[i],
                            bounds,
                            content@,
                            i % (width as int),
                            i / (width as int),
                        )
                    } else {
                        old_buf[i]
                    }),
            decreases max_x - x,
    {
            let off_x: usize = (x as isize - bounds.get_min().x) as usize;
            let off_y: usize = (y as isize - bounds.get_min().y) as usize;
            proof {
                assert(0 <= y * width + x < width * height && (y * width + x) % (width as int)
                    == x && (y * width + x) / (width as int) == y) by (nonlinear_arith)
                    requires 0 <= x < width && 0 <= y < height;
                assert(off_y * bw + off_x < content.len()) by (nonlinear_arith)
                    requires
                        0 <= off_x < bw,
                        0 <= off_y,
                        off_y < bounds.spec_height(),
                        content.len() == bw * bounds.spec_height(),
                ;
                assert(off_y * bw + off_x == (y - bounds.spec_min().y) * bounds.spec_width() + (
                x - bounds.spec_min().x));
            }
            let dest = y * width + x;
            buf.set(dest, content[off_y * bw + off_x]);
            x = x + 1;
        }
        proof {
            lemma_row_suffix(buf@, old_buf, bounds, content@, width as int, y as int, max_x as int);
        }
        y = y + 1;
    }
    proof {
        lemma_blit_complete(
            buf@,
            old_buf,
            bounds,
            content@,
            width as int,
            height as int,
            y as int,
            max_y as int,
        );
        assert(buf@ =~= spec_blit(old_buf, width as int, height as int, bounds, content@));
    }
}

/// Rows above the clipped top are outside the box or the frame.
proof fn lemma_rows_before(
    buf: Seq<Color>,
    old_buf: Seq<Color>,
    bounds: BoundingBox,
    content: Seq<Color>,
    width: int,
    min_y: int,
)
    requires
        0 < width,
        buf == old_buf,
        min_y == if bounds.spec_min().y > 0 { bounds.spec_min().y } else { 0 },
    ensures
        forall|i: int|
            0 <= i < buf.len() ==> buf[i] == (if i < min_y * width {
                blit_pixel(old_buf[i], bounds, content, i % width, i / width)
            } else {
                old_buf[i]
            }),
{
    assert forall|i: int| 0 <= i < buf.len() implies buf[i] == (if i < min_y * width {
        blit_pixel(old_buf[i], bounds, content, i % width, i / width)
    } else {
        old_buf[i]
    }) by {
        if 0 <= i < min_y * width {
            assert(i / width < min_y) by (nonlinear_arith)
                requires 0 < width && 0 <= i < min_y * width;
            assert(!in_blit_rect(bounds, i % width, i / width));
        }
    }
}

/// Pixels of row `y` left of the clipped start are outside the box.
proof fn lemma_row_prefix(
    buf: Seq<Color>,
    old_buf: Seq<Color>,
    bounds: BoundingBox,
    content: Seq<Color>,
    width: int,
    y: int,
    min_x: int,
)
    requires
        0 < width,
        0 <= y,
        min_x == if bounds.spec_min().x > 0 { bounds.spec_min().x } else { 0 },
        min_x <= width,
        forall|i: int|
            0 <= i < buf.len() ==> buf[i] == (if i < y * width {
                blit_pixel(old_buf[i], bounds, content, i % width, i / width)
            } else {
                old_buf[i]
            }),
    ensures
        forall|i: int|
            0 <= i < buf.len() ==> buf[i] == (if i < y * width + min_x {
                blit_pixel(old_buf[i], bounds, content, i % width, i / width)
            } else {
                old_buf[i]
            }),
{
    assert forall|i: int| 0 <= i < buf.len() implies buf[i] == (if i < y * width + min_x {
        blit_pixel(old_buf[i], bounds, content, i % width, i / width)
    } else {
        old_buf[i]
    }) by {
        if y * width <= i < y * width + min_x {
            assert(i % width < min_x && i / width == y) by (nonlinear_arith)
                requires 0 < width && 0 <= y && 0 <= min_x <= width && y * width <= i < y * width + min_x;
            assert(!in_blit_rect(bounds, i % width, i / width));
        }
    }
}

/// Pixels of row `y` right of the clipped end are outside the box or the
/// frame.
proof fn lemma_row_suffix(
    buf: Seq<Color>,
    old_buf: Seq<Color>,
    bounds: BoundingBox,
    content: Seq<Color>,
    width: int,
    y: int,
    max_x: int,
)
    requires
        0 < width,
        0 <= y,
        max_x == if bounds.spec_max().x < width { bounds.spec_max().x as int } else { width },
        0 <= max_x <= width,
        forall|i: int|
            0 <= i < buf.len() ==> buf[i] == (if i < y * width + max_x {
                blit_pixel(old_buf[i], bounds, content, i % width, i / width)
            } else {
                old_buf[i]
            }),
    ensures
        forall|i: int|
            0 <= i < buf.len() ==> buf[i] == (if i < (y + 1) * width {
                blit_pixel(old_buf[i], bounds, content, i % width, i / width)
            } else {
                old_buf[i]
            }),
{
    assert((y + 1) * width == y * width + width) by (nonlinear_arith);
    assert forall|i: int| 0 <= i < buf.len() implies buf[i] == (if i < (y + 1) * width {
        blit_pixel(old_buf[i], bounds, content, i % width, i / width)
    } else {
        old_buf[i]
    }) by {
        if y * width + max_x <= i < (y + 1) * width {
            assert(i % width >= max_x && i / width == y) by (nonlinear_arith)
                requires 0 < width && 0 <= y && 0 <= max_x <= width && y * width + max_x <= i < (y + 1) * width;
            assert(!in_blit_rect(bounds, i % width, i / width));
        }
    }
}

/// Rows at and below the clipped bottom are outside the box or the frame.
proof fn lemma_blit_complete(
    buf: Seq<Color>,
    old_buf: Seq<Color>,
    bounds: BoundingBox,
    content: Seq<Color>,
    width: int,
    height: int,
    y: int,
    max_y: int,
)
    requires
        0 < width,
        buf.len() == old_buf.len() == width * height,
        y == max_y,
        max_y == if bounds.spec_max().y < height { bounds.spec_max().y as int } else { height },
        0 <= max_y <= height,
        forall|i: int|
            0 <= i < buf.len() ==> buf[i] == (if i < y * width {
                blit_pixel(old_buf[i], bounds, content, i % width, i / width)
            } else {
                old_buf[i]
            }),
    ensures
        forall|i: int|
            0 <= i < buf.len() ==> buf[i] == blit_pixel(
                old_buf[i],
                bounds,
                content,
                i % width,
                i / width,
            ),
{
    assert forall|i: int| 0 <= i < buf.len() implies buf[i] == blit_pixel(
        old_buf[i],
        bounds,
        content,
        i % width,
        i / width,
    ) by {
        if i >= y * width {
            assert(i / width >= max_y && i % width < width && i / width < height) by (nonlinear_arith)
                requires 0 < width && 0 <= max_y && y == max_y && y * width <= i < width * height;
            assert(!in_blit_rect(bounds, i % width, i / width));
        }
    }
}

/// A straight segment between two points.
#[derive(Debug, Clone, Copy, PartialEq, Eq, Structural)]
pub struct Line {
    start: IVec2,
    end: IVec2,
}

/// `v` forced into the closed interval `[lo, hi]`.
pub open spec fn clamp_coord(v: int, lo: int, hi: int) -> int {
    if v > hi {
        hi
    } else if v < lo {
        lo
    } else {
        v
    }
}

impl Line {
    pub closed spec fn spec_start(self) -> IVec2 {
        self.start
    }

    pub closed spec fn spec_end(self) -> IVec2 {
        self.end
    }

    pub fn new(start: IVec2, end: IVec2) -> (l: Line)
        ensures
            l.spec_start() == start && l.spec_end() == end,
    {
        Line { start, end }
    }

    /// Forces both endpoints into the box, coordinate by coordinate.
    pub fn clamp(&mut self, bounds: BoundingBox)
        ensures
            final(self).spec_start().x == clamp_coord(
                old(self).spec_start().x as int,
                bounds.spec_min().x as int,
                bounds.spec_max().x as int,
            ),
            final(self).spec_start().y == clamp_coord(
                old(self).spec_start().y as int,
                bounds.spec_min().y as int,
                bounds.spec_max().y as int,
            ),
            final(self).spec_end().x == clamp_coord(
                old(self).spec_end().x as int,
                bounds.spec_min().x as int,
                bounds.spec_max().x as int,
            ),
            final(self).spec_end().y == clamp_coord(
                old(self).spec_end().y as int,
                bounds.spec_min().y as int,
                bounds.spec_max().y as int,
            ),
    {
        let min = bounds.get_min();
        let max = bounds.get_max();

        self.start.x = clamp_isize(self.start.x, min.x, max.x);
        self.start.y = clamp_isize(self.start.y, min.y, max.y);
        self.end.x = clamp_isize(self.end.x, min.x, max.x);
        self.end.y = clamp_isize(self.end.y, min.y, max.y);
    }

    pub fn clamped(self, bounds: BoundingBox) -> (l: Line)
        ensures
            l.spec_start().x == clamp_coord(
                self.spec_start().x as int,
                bounds.spec_min().x as int,
                bounds.spec_max().x as int,
            ),
            l.spec_start().y == clamp_coord(
                self.spec_start().y as int,
                bounds.spec_min().y as int,
                bounds.spec_max().y as int,
            ),
            l.spec_end().x == clamp_coord(
                self.spec_end().x as int,
                bounds.spec_min().x as int,
                bounds.spec_max().x as int,
            ),
            l.spec_end().y == clamp_coord(
                self.spec_end().y as int,
                bounds.spec_min().y as int,
                bounds.spec_max().y as int,
            ),
    {
        let mut line = self;
        line.clamp(bounds);
        line
    }
}

fn clamp_isize(v: isize, lo: isize, hi: isize) -> (r: isize)
    ensures
        r == clamp_coord(v as int, lo as int, hi as int),
{
    if v > hi {
        hi
    } else if v < lo {
        lo
    } else {
        v
    }
}

} // verus!
