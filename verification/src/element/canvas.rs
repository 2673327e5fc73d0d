//! A freeform pixel canvas with a bit-packed backing buffer and a drawing
//! context for point, rectangle and fill operations.

use vstd::prelude::*;

use crate::color::Color;
use crate::util::BoundingBox;
use crate::util::UVec2;
use crate::util::spec_bit_of;
use crate::util::u8_to_bool_vec;

verus! {

/// The pixel at linear position `p` of a bit-packed buffer, least
/// significant bit first.
pub open spec fn packed_bit(content: Seq<u8>, p: int) -> bool {
    spec_bit_of(content[p / 8], p % 8)
}

pub struct Canvas {
    size: UVec2,
    content: Vec<u8>,
}

impl Canvas {
    /// The backing buffer holds exactly one bit per pixel.
    pub open spec fn well_formed(self) -> bool {
        self.spec_size().x * self.spec_size().y <= usize::MAX && self.spec_content().len() * 8
            == self.spec_size().x * self.spec_size().y
    }

    pub closed spec fn spec_size(self) -> UVec2 {
        self.size
    }

    pub closed spec fn spec_content(self) -> Seq<u8> {
        self.content@
    }

    /// Creates an all-black canvas. The pixel count must be a whole number
    /// of bytes of the packed buffer.
    pub fn new(width: usize, height: usize) -> (c: Canvas)
        requires
            width * height <= usize::MAX,
            (width * height) % 8 == 0,
        ensures
            c.spec_size() == (UVec2 { x: width, y: height }),
            c.well_formed(),
            forall|j: int| 0 <= j < c.spec_content().len() ==> c.spec_content()[j] == 0u8,
    {
        let area = width * height;
        let bytes = area / 8;
        let mut content: Vec<u8> = Vec::new();
        let mut i: usize = 0;
        while i < bytes
            invariant
                0 <= i <= bytes,
                content.len() == i,
                forall|j: int| 0 <= j < content.len() ==> content[j] == 0u8,
            decreases bytes - i,
        {
            content.push(0u8);
            i = i + 1;
        }
        Canvas { size: UVec2::new(width, height), content }
    }

    pub fn get_size(&self) -> (s: UVec2)
        ensures
            s == self.spec_size(),
    {
        self.size
    }

    /// Renders the canvas: pixel `i` is white exactly when bit `i` of the
    /// packed buffer is set.
    pub fn draw(&self) -> (r: (Vec<Color>, UVec2))
        requires
            self.well_formed(),
        ensures
            r.1 == self.spec_size(),
            r.0.len() == self.spec_size().x * self.spec_size().y,
            forall|i: int|
                0 <= i < r.0.len() ==> r.0[i] == Color(packed_bit(self.spec_content(), i)),
    {
        let bits = u8_to_bool_vec(&self.content);
        let mut buf: Vec<Color> = Vec::new();
        let mut i: usize = 0;
        while i < bits.len()
            invariant
                0 <= i <= bits.len(),
                buf.len() == i,
                forall|j: int| 0 <= j < bits.len() ==> bits[j] == packed_bit(self.spec_content(), j),
                forall|j: int|
                    0 <= j < buf.len() ==> buf[j] == Color(packed_bit(self.spec_content(), j)),
            decreases bits.len() - i,
        {
            buf.push(Color::new(bits[i]));
            i = i + 1;
        }
        (buf, self.size)
    }

    /// Hands out a drawing context over a copy of the backing buffer; write
    /// it back with `set_context`.
    pub fn get_context(&self) -> (ctx: DrawContext)
        ensures
            ctx.spec_size() == self.spec_size(),
            ctx.spec_content() == self.spec_content(),
    {
        DrawContext { size: self.size, content: copy_bytes(&self.content) }
    }

    /// Replaces the backing buffer with a drawn-into context of the same
    /// shape.
    pub fn set_context(&mut self, ctx: DrawContext)
        requires
            ctx.spec_size() == old(self).spec_size(),
            ctx.spec_content().len() == old(self).spec_content().len(),
        ensures
            final(self).spec_size() == old(self).spec_size(),
            final(self).spec_content() == ctx.spec_content(),
    {
        self.content = ctx.content;
    }
}

fn copy_bytes(v: &Vec<u8>) -> (r: Vec<u8>)
    ensures
        r@ == v@,
{
    let mut r: Vec<u8> = Vec::new();
    let mut i: usize = 0;
    while i < v.len()
        invariant
            0 <= i <= v.len(),
            r@ == v@.take(i as int),
        decreases v.len() - i,
    {
        r.push(v[i]);
        proof {
            assert(r@ =~= v@.take(i + 1));
        }
        i = i + 1;
    }
    proof {
        assert(v@.take(v@.len() as int) =~= v@);
    }
    r
}

/// A drawing surface over a bit-packed pixel buffer.
pub struct DrawContext {
    size: UVec2,
    content: Vec<u8>,
}

impl DrawContext {
    pub open spec fn well_formed(self) -> bool {
        self.spec_size().x * self.spec_size().y <= usize::MAX && self.spec_content().len() * 8
            == self.spec_size().x * self.spec_size().y
    }

    pub closed spec fn spec_size(self) -> UVec2 {
        self.size
    }

    pub closed spec fn spec_content(self) -> Seq<u8> {
        self.content@
    }

    /// Sets or clears the single pixel at `position`; positions outside the
    /// canvas are dropped.
    pub fn pixel(&mut self, position: UVec2, value: bool)
        requires
            old(self).well_formed(),
        ensures
            final(self).well_formed(),
            final(self).spec_size() == old(self).spec_size(),
            final(self).spec_content().len() == old(self).spec_content().len(),
            forall|p: int|
                0 <= p < final(self).spec_content().len() * 8 ==> packed_bit(
                    final(self).spec_content(),
                    p,
                ) == (if position.x < old(self).spec_size().x && position.y < old(
                    self,
                ).spec_size().y && p == position.y * old(self).spec_size().x + position.x {
                    value
                } else {
                    packed_bit(old(self).spec_content(), p)
                }),
    {
        if position.x >= self.size.x || position.y >= self.size.y {
            return ;
        }
        proof {
            assert(position.y * self.spec_size().x + position.x < self.spec_size().x
                * self.spec_size().y) by (nonlinear_arith)
                requires
                    0 <= position.x < self.spec_size().x,
                    0 <= position.y < self.spec_size().y,
            ;
        }
        let pixel = position.y * self.size.x + position.x;
        let index = pixel / 8;
        let bit = pixel % 8;

        let old_byte = self.content[index];
        let new_byte: u8 = if value {
            old_byte | (1u8 << (bit as u8))
        } else {
            old_byte & !(1u8 << (bit as u8))
        };
        self.content.set(index, new_byte);
        proof {
            lemma_byte_bit_update(old_byte, new_byte, bit as u8, value);
            lemma_packed_update(old(self).spec_content(), self.spec_content(), pixel as int, value);
        }
    }

    /// Fills a rectangle of pixels. The box is forced onto the canvas: each
    /// corner is clamped into the canvas, the maximum corner inclusive.
    /// Clamping is deliberate for the whole box: one lying entirely left of
    /// or above the canvas is pulled onto column or row zero and paints
    /// there, rather than being dropped.
    pub fn rect(&mut self, bounds: BoundingBox, value: bool)
        requires
            old(self).well_formed(),
            old(self).spec_size().x > 0,
            old(self).spec_size().y > 0,
        ensures
            final(self).well_formed(),
            final(self).spec_size() == old(self).spec_size(),
            final(self).spec_content().len() == old(self).spec_content().len(),
            forall|p: int|
                0 <= p < final(self).spec_content().len() * 8 ==> packed_bit(
                    final(self).spec_content(),
                    p,
                ) == (if rect_covers(bounds, old(self).spec_size(), p) {
                    value
                } else {
                    packed_bit(old(self).spec_content(), p)
                }),
    {
        let width = self.size.x;
        let height = self.size.y;
        let x1: usize = clamp_low(bounds.get_min().x);
        let y1: usize = clamp_low(bounds.get_min().y);
        let x2: usize = min_usize(clamp_low(bounds.get_max().x), width - 1);
        let y2: usize = min_usize(clamp_low(bounds.get_max().y), height - 1);

        let ghost pre = self.spec_content();

        if x1 > x2 || y1 > y2 {
            return ;
        }
        let mut y: usize = y1;
        proof {
            assert forall|p: int|
                0 <= p < self.spec_content().len() * 8 && p < y1 * width implies !rect_covers(
                bounds,
                self.spec_size(),
                p,
            ) by {
                assert(p / (width as int) < y1) by (nonlinear_arith)
                    requires 0 < width && 0 <= p < y1 * width;
            }
        }
        while y <= y2
            invariant
                self.well_formed(),
                self.spec_size() == old(self).spec_size(),
                self.spec_content().len() == pre.len(),
                pre == old(self).spec_content(),
                width == self.spec_size().x,
                height == self.spec_size().y,
                0 < width,
                0 < height,
                x1 == clamped_low(bounds.spec_min().x as int),
                y1 == clamped_low(bounds.spec_min().y as int),
                x2 == min_int(clamped_low(bounds.spec_max().x as int), width - 1),
                y2 == min_int(clamped_low(bounds.spec_max().y as int), height - 1),
                x1 <= x2,
                y1 <= y2,
                y1 <= y,
                y <= y2 + 1,
                y2 < height,
                x2 < width,
                forall|p: int|
                    0 <= p < self.spec_content().len() * 8 ==> packed_bit(self.spec_content(), p)
                        == (if rect_covers(bounds, old(self).spec_size(), p) && p < y * width {
                        value
                    } else {
                        packed_bit(pre, p)
                    }),
            decreases y2 + 1 - y,
        {
            let mut x: usize = x1;
            while x <= x2
                invariant
                    self.well_formed(),
                    self.spec_size() == old(self).spec_size(),
                    self.spec_content().len() == pre.len(),
                    pre == old(self).spec_content(),
                    width == self.spec_size().x,
                    height == self.spec_size().y,
                    0 < width,
                    0 < height,
                    x1 == clamped_low(bounds.spec_min().x as int),
                    y1 == clamped_low(bounds.spec_min().y as int),
                    x2 == min_int(clamped_low(bounds.spec_max().x as int), width - 1),
                    y2 == min_int(clamped_low(bounds.spec_max().y as int), height - 1),
                    x1 <= x2,
                    y1 <= y2,
                    y1 <= y <= y2 < height,
                    x1 <= x,
                    x <= x2 + 1,
                    x2 < width,
                    forall|p: int|
                        0 <= p < self.spec_content().len() * 8 ==> packed_bit(
                            self.spec_content(),
                            p,
                        ) == (if rect_covers(bounds, old(self).spec_size(), p) && (p < y * width
                            || (p / (width as int) == y && p % (width as int) < x)) {
                            value
                        } else {
                            packed_bit(pre, p)
                        }),
                decreases x2 + 1 - x,
            {
                proof {
                    assert(y * width + x < width * height && (y * width + x) / (width as int) == y
                        && (y * width + x) % (width as int) == x) by (nonlinear_arith)
                        requires 0 <= x < width && 0 <= y < height;
                }
                let pixel = y * width + x;
                let index = pixel / 8;
                let bit = pixel % 8;
                let old_byte = self.content[index];
                let new_byte: u8 = if value {
                    old_byte | (1u8 << (bit as u8))
                } else {
                    old_byte & !(1u8 << (bit as u8))
                };
                let ghost before = self.spec_content();
                self.content.set(index, new_byte);
                proof {
                    lemma_byte_bit_update(old_byte, new_byte, bit as u8, value);
                    lemma_packed_update(before, self.spec_content(), pixel as int, value);
                    assert forall|p: int|
                        0 <= p < self.spec_content().len() * 8 implies packed_bit(
                        self.spec_content(),
                        p,
                    ) == (if rect_covers(bounds, old(self).spec_size(), p) && (p < y * width || (p
                        / (width as int) == y && p % (width as int) < x + 1)) {
                        value
                    } else {
                        packed_bit(pre, p)
                    }) by {
                        if p == pixel {
                            assert(rect_covers(bounds, old(self).spec_size(), p));
                        } else if 0 <= p < self.spec_content().len() * 8 {
                            assert(p == p / (width as int) * (width as int) + p % (
                            width as int)) by (nonlinear_arith)
                                requires 0 < width;
                        }
                    }
                }
                x = x + 1;
            }
            proof {
                assert forall|p: int|
                    0 <= p < self.spec_content().len() * 8 implies packed_bit(
                    self.spec_content(),
                    p,
                ) == (if rect_covers(bounds, old(self).spec_size(), p) && p < (y + 1) * width {
                    value
                } else {
                    packed_bit(pre, p)
                }) by {
                    assert((y + 1) * width == y * width + width) by (nonlinear_arith);
                    if y * width <= p < (y + 1) * width {
                        assert(p / (width as int) == y && p % (width as int) < width) by (nonlinear_arith)
                            requires 0 < width && 0 <= y && y * width <= p < (y + 1) * width;
                        if rect_covers(bounds, old(self).spec_size(), p) {
                            assert(p % (width as int) <= x2);
                        }
                    } else if p >= (y + 1) * width {
                        assert(p / (width as int) > y) by (nonlinear_arith)
                            requires 0 < width && 0 <= y && p >= (y + 1) * width;
                    }
                }
            }
            y = y + 1;
        }
        proof {
            assert forall|p: int|
                0 <= p < self.spec_content().len() * 8 implies packed_bit(self.spec_content(), p)
                == (if rect_covers(bounds, old(self).spec_size(), p) {
                value
            } else {
                packed_bit(pre, p)
            }) by {
                if rect_covers(bounds, old(self).spec_size(), p) {
                    assert(p < y * width) by (nonlinear_arith)
                        requires 0 < width && 0 <= p && p / (width as int) < y;
                }
            }
        }
    }

    /// Sets every pixel of the canvas to `value`.
    pub fn fill(&mut self, value: bool)
        ensures
            final(self).spec_size() == old(self).spec_size(),
            final(self).spec_content().len() == old(self).spec_content().len(),
            forall|p: int|
                0 <= p < final(self).spec_content().len() * 8 ==> packed_bit(
                    final(self).spec_content(),
                    p,
                ) == value,
    {
        let byte: u8 = if value {
            0xFF
        } else {
            0x00
        };
        let len = self.content.len();
        let mut i: usize = 0;
        while i < len
            invariant
                0 <= i <= len,
                self.spec_size() == old(self).spec_size(),
                self.spec_content().len() == len,
                forall|j: int| 0 <= j < i ==> self.spec_content()[j] == byte,
            decreases len - i,
        {
            self.content.set(i, byte);
            i = i + 1;
        }
        proof {
            assert(spec_bit_of(0xFFu8, 0) && spec_bit_of(0xFFu8, 1) && spec_bit_of(0xFFu8, 2)
                && spec_bit_of(0xFFu8, 3) && spec_bit_of(0xFFu8, 4) && spec_bit_of(0xFFu8, 5)
                && spec_bit_of(0xFFu8, 6) && spec_bit_of(0xFFu8, 7)) by (bit_vector);
            assert(!spec_bit_of(0x00u8, 0) && !spec_bit_of(0x00u8, 1) && !spec_bit_of(0x00u8, 2)
                && !spec_bit_of(0x00u8, 3) && !spec_bit_of(0x00u8, 4) && !spec_bit_of(0x00u8, 5)
                && !spec_bit_of(0x00u8, 6) && !spec_bit_of(0x00u8, 7)) by (bit_vector);
            assert forall|p: int|
                0 <= p < self.spec_content().len() * 8 implies packed_bit(self.spec_content(), p)
                == value by {
                assert(0 <= p / 8 < len && 0 <= p % 8 < 8);
            }
        }
    }
}

/// `v` forced up to zero, as a pixel coordinate.
pub open spec fn clamped_low(v: int) -> int {
    if v > 0 {
        v
    } else {
        0
    }
}

pub open spec fn min_int(a: int, b: int) -> int {
    if a < b {
        a
    } else {
        b
    }
}

/// The linear pixel `p` of a canvas of size `size` lies in the clamped,
/// max-inclusive rectangle that `rect` paints for `bounds`.
pub open spec fn rect_covers(bounds: BoundingBox, size: UVec2, p: int) -> bool {
    let x = p % (size.x as int);
    let y = p / (size.x as int);
    &&& clamped_low(bounds.spec_min().x as int) <= x <= min_int(
        clamped_low(bounds.spec_max().x as int),
        size.x - 1,
    )
    &&& clamped_low(bounds.spec_min().y as int) <= y <= min_int(
        clamped_low(bounds.spec_max().y as int),
        size.y - 1,
    )
}

fn clamp_low(v: isize) -> (r: usize)
    requires
        v <= usize::MAX,
    ensures
        r == clamped_low(v as int),
{
    if v > 0 {
        v as usize
    } else {
        0
    }
}

fn min_usize(a: usize, b: usize) -> (r: usize)
    ensures
        r == min_int(a as int, b as int),
{
    if a < b {
        a
    } else {
        b
    }
}

/// One bit of a byte flipped to `value` leaves the other bits alone.
proof fn lemma_byte_bit_update(old_byte: u8, new_byte: u8, bit: u8, value: bool)
    requires
        bit < 8,
        new_byte == if value {
            old_byte | (1u8 << bit)
        } else {
            old_byte & !(1u8 << bit)
        },
    ensures
        forall|b: u8| b < 8 ==> #[trigger] spec_bit_of(new_byte, b as int) == (if b == bit {
            value
        } else {
            spec_bit_of(old_byte, b as int)
        }),
{
    assert forall|b: u8| b < 8 implies #[trigger] spec_bit_of(new_byte, b as int) == (if b == bit {
        value
    } else {
        spec_bit_of(old_byte, b as int)
    }) by {
        if value {
            assert(b < 8 && bit < 8 ==> ((old_byte | (1u8 << bit)) >> b) & 1 == (if b == bit {
                1u8
            } else {
                (old_byte >> b) & 1
            })) by (bit_vector);
        } else {
            assert(b < 8 && bit < 8 ==> ((old_byte & !(1u8 << bit)) >> b) & 1 == (if b == bit {
                0u8
            } else {
                (old_byte >> b) & 1
            })) by (bit_vector);
        }
    }
}

/// Replacing the byte that holds pixel `pixel` with its one-bit update
/// changes exactly that pixel of the packed buffer.
proof fn lemma_packed_update(pre: Seq<u8>, post: Seq<u8>, pixel: int, value: bool)
    requires
        0 <= pixel < pre.len() * 8,
        post.len() == pre.len(),
        forall|j: int| 0 <= j < pre.len() && j != pixel / 8 ==> post[j] == pre[j],
        forall|b: u8| b < 8 ==> #[trigger] spec_bit_of(post[pixel / 8], b as int) == (if b == pixel
            % 8 {
            value
        } else {
            spec_bit_of(pre[pixel / 8], b as int)
        }),
    ensures
        forall|p: int|
            0 <= p < post.len() * 8 ==> packed_bit(post, p) == (if p == pixel {
                value
            } else {
                packed_bit(pre, p)
            }),
{
    assert forall|p: int| 0 <= p < post.len() * 8 implies packed_bit(post, p) == (if p == pixel {
        value
    } else {
        packed_bit(pre, p)
    }) by {
        assert(0 <= p / 8 < post.len() && 0 <= p % 8 < 8);
        if p / 8 == pixel / 8 {
            assert(spec_bit_of(post[p / 8], p % 8) == (if (p % 8) as u8 == pixel % 8 {
                value
            } else {
                spec_bit_of(pre[p / 8], p % 8)
            }));
            assert(p == pixel <==> (p / 8 == pixel / 8 && p % 8 == pixel % 8));
        }
    }
}

} // verus!
