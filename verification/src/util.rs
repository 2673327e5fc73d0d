//! Integer 2D vectors and axis-aligned bounding boxes.

use vstd::prelude::*;

verus! {

/// A 2D vector with unsigned components, used for widget sizes.
#[derive(Debug, Clone, Copy, PartialEq, Eq, Structural)]
pub struct UVec2 {
    pub x: usize,
    pub y: usize,
}

impl UVec2 {
    pub fn new(x: usize, y: usize) -> (v: UVec2)
        ensures
            v.x == x && v.y == y,
    {
        UVec2 { x, y }
    }

    /// The number of pixels in a rectangle of this size.
    pub open spec fn spec_area(self) -> int {
        self.x * self.y
    }

    pub fn area(&self) -> (a: usize)
        requires
            self.x * self.y <= usize::MAX,
        ensures
            a == self.spec_area(),
    {
        self.x * self.y
    }
}

impl Default for UVec2 {
    fn default() -> (v: Self)
        ensures
            v.x == 0 && v.y == 0,
    {
        UVec2 { x: 0, y: 0 }
    }
}

/// A 2D vector with signed components, used for positions and offsets.
#[derive(Debug, Clone, Copy, PartialEq, Eq, Structural)]
pub struct IVec2 {
    pub x: isize,
    pub y: isize,
}

impl IVec2 {
    pub fn new(x: isize, y: isize) -> (v: IVec2)
        ensures
            v.x == x && v.y == y,
    {
        IVec2 { x, y }
    }

    /// The magnitude of the signed rectangle spanned by this vector.
    pub open spec fn spec_area(self) -> int {
        abs_int(self.x * self.y)
    }

    pub fn area(&self) -> (a: usize)
        requires
            isize::MIN <= self.x * self.y <= isize::MAX,
            abs_int(self.x * self.y) <= usize::MAX,
        ensures
            a == self.spec_area(),
    {
        let p: isize = self.x * self.y;
        if p >= 0 {
            p as usize
        } else {
            ((-(p + 1)) as usize) + 1
        }
    }
}

impl Default for IVec2 {
    fn default() -> (v: Self)
        ensures
            v.x == 0 && v.y == 0,
    {
        IVec2 { x: 0, y: 0 }
    }
}

/// Absolute value of a mathematical integer.
pub open spec fn abs_int(v: int) -> int {
    if v >= 0 {
        v
    } else {
        -v
    }
}

/// An axis-aligned rectangle given by its minimum (inclusive) and
/// maximum (exclusive) corners.
#[derive(Debug, Clone, Copy, PartialEq, Eq, Structural)]
pub struct BoundingBox {
    pub min: IVec2,
    pub max: IVec2,
}

impl BoundingBox {
    /// Both corners ordered: the box spans a well-defined rectangle.
    pub open spec fn well_formed(self) -> bool {
        self.spec_min().x <= self.spec_max().x && self.spec_min().y <= self.spec_max().y
    }

    pub open spec fn spec_min(self) -> IVec2 {
        self.min
    }

    pub open spec fn spec_max(self) -> IVec2 {
        self.max
    }
}

impl BoundingBox {
    /// The box spanned by an origin and a size: minimum at the origin,
    /// maximum one past the far corner.
    pub open spec fn spec_from_size(origin: IVec2, size: UVec2) -> BoundingBox {
        BoundingBox {
            min: origin,
            max: IVec2 {
                x: (origin.x + size.x) as isize,
                y: (origin.y + size.y) as isize,
            },
        }
    }

    /// Width of the box as a mathematical integer.
    pub open spec fn spec_width(self) -> int {
        self.spec_max().x - self.spec_min().x
    }

    /// Height of the box as a mathematical integer.
    pub open spec fn spec_height(self) -> int {
        self.spec_max().y - self.spec_min().y
    }

    /// The point lies inside the box: minimum inclusive, maximum exclusive.
    pub open spec fn spec_contains(self, target: IVec2) -> bool {
        self.spec_min().x <= target.x < self.spec_max().x && self.spec_min().y <= target.y
            < self.spec_max().y
    }

    pub fn new(x1: isize, y1: isize, x2: isize, y2: isize) -> (b: BoundingBox)
        ensures
            b.spec_min().x == if x1 <= x2 { x1 as int } else { x2 as int },
            b.spec_min().y == if y1 <= y2 { y1 as int } else { y2 as int },
            b.spec_max().x == if x1 <= x2 { x2 as int } else { x1 as int },
            b.spec_max().y == if y1 <= y2 { y2 as int } else { y1 as int },
            b.well_formed(),
    {
        let min_x: isize = if x1 <= x2 { x1 } else { x2 };
        let min_y: isize = if y1 <= y2 { y1 } else { y2 };
        let max_x: isize = if x1 <= x2 { x2 } else { x1 };
        let max_y: isize = if y1 <= y2 { y2 } else { y1 };
        BoundingBox { min: IVec2::new(min_x, min_y), max: IVec2::new(max_x, max_y) }
    }

    pub fn from_size(origin: IVec2, size: UVec2) -> (b: BoundingBox)
        requires
            size.x <= isize::MAX,
            size.y <= isize::MAX,
            origin.x + size.x <= isize::MAX,
            origin.y + size.y <= isize::MAX,
        ensures
            b == BoundingBox::spec_from_size(origin, size),
            b.spec_min() == origin,
            b.spec_max().x == origin.x + size.x,
            b.spec_max().y == origin.y + size.y,
            b.well_formed(),
    {
        let max_x: isize = origin.x + (size.x as isize);
        let max_y: isize = origin.y + (size.y as isize);
        BoundingBox { min: origin, max: IVec2::new(max_x, max_y) }
    }

    pub fn get_min(&self) -> (v: IVec2)
        ensures
            v == self.spec_min(),
    {
        self.min
    }

    pub fn get_max(&self) -> (v: IVec2)
        ensures
            v == self.spec_max(),
    {
        self.max
    }

    /// Containment of a point, minimum inclusive and maximum exclusive.
    pub fn intersects(&self, target: IVec2) -> (r: bool)
        ensures
            r == self.spec_contains(target),
    {
        self.min.x <= target.x && target.x < self.max.x && self.min.y <= target.y && target.y
            < self.max.y
    }

    pub fn size(&self) -> (s: UVec2)
        requires
            abs_int(self.spec_width()) <= isize::MAX,
            abs_int(self.spec_height()) <= isize::MAX,
        ensures
            s.x == abs_int(self.spec_width()),
            s.y == abs_int(self.spec_height()),
    {
        let width: usize = if self.max.x >= self.min.x {
            (self.max.x - self.min.x) as usize
        } else {
            (self.min.x - self.max.x) as usize
        };
        let height: usize = if self.max.y >= self.min.y {
            (self.max.y - self.min.y) as usize
        } else {
            (self.min.y - self.max.y) as usize
        };
        UVec2::new(width, height)
    }

    pub fn area(&self) -> (a: usize)
        requires
            abs_int(self.spec_width()) <= isize::MAX,
            abs_int(self.spec_height()) <= isize::MAX,
            abs_int(self.spec_width()) * abs_int(self.spec_height()) <= usize::MAX,
        ensures
            a == abs_int(self.spec_width()) * abs_int(self.spec_height()),
    {
        self.size().area()
    }
}

/// Unpacks each byte into eight boolean pixels, least significant bit first.
pub open spec fn spec_bit_of(byte: u8, bit: int) -> bool {
    (byte >> (bit as u8)) & 1 == 1
}

pub fn u8_to_bool_vec(content: &Vec<u8>) -> (r: Vec<bool>)
    requires
        content.len() * 8 <= usize::MAX,
    ensures
        r.len() == content.len() * 8,
        forall|i: int|
            0 <= i < r.len() ==> r[i] == spec_bit_of(content[i / 8], i % 8),
{
    let mut buf: Vec<bool> = Vec::new();
    let mut i: usize = 0;
    while i < content.len()
        invariant
            0 <= i <= content.len(),
            content.len() * 8 <= usize::MAX,
            buf.len() == i * 8,
            forall|j: int|
                0 <= j < buf.len() ==> buf[j] == spec_bit_of(content[j / 8], j % 8),
        decreases content.len() - i,
    {
        let byte = content[i];
        let mut bit: usize = 0;
        while bit < 8
            invariant
                0 <= bit <= 8,
                0 <= i < content.len(),
                content.len() * 8 <= usize::MAX,
                byte == content[i as int],
                buf.len() == i * 8 + bit,
                forall|j: int|
                    0 <= j < buf.len() ==> buf[j] == spec_bit_of(content[j / 8], j % 8),
            decreases 8 - bit,
        {
            let value: u8 = (byte >> (bit as u8)) & 1;
            proof {
                assert((i * 8 + bit) / 8 == i && (i * 8 + bit) % 8 == bit) by (nonlinear_arith)
                    requires 0 <= bit < 8 && 0 <= i;
            }
            buf.push(value == 1);
            bit = bit + 1;
        }
        i = i + 1;
    }
    buf
}

} // verus!
