//! A bitmap-backed icon widget holding already-decoded pixels.

use vstd::prelude::*;

use crate::color::Color;
use crate::util::UVec2;

verus! {

pub struct Icon {
    size: UVec2,
    content: Vec<Color>,
}

/// Why a bitmap could not become an icon.
#[derive(Debug, Clone, Copy, PartialEq, Eq, Structural)]
pub enum BmpError {
    BadHeader,
    WrongFormat,
}

/// Why an icon could not be constructed: the file could not be read, or its
/// bitmap is not usable.
#[derive(Debug, Clone, Copy, PartialEq, Eq, Structural)]
pub enum BadIcon {
    Io,
    Bmp(BmpError),
}

impl Icon {
    /// The pixel buffer holds exactly one color per cell.
    pub open spec fn well_formed(self) -> bool {
        self.spec_content().len() == self.spec_size().x * self.spec_size().y
    }

    pub closed spec fn spec_size(self) -> UVec2 {
        self.size
    }

    pub closed spec fn spec_content(self) -> Seq<Color> {
        self.content@
    }

    /// Builds an icon from decoded pixels, row-major. Rejects a buffer that
    /// does not hold exactly `width * height` pixels.
    pub fn new(width: usize, height: usize, content: Vec<Color>) -> (r: Result<Icon, BadIcon>)
        ensures
            match r {
                Ok(icon) => width * height == content.len() && icon.spec_size() == (UVec2 {
                    x: width,
                    y: height,
                }) && icon.spec_content() == content@ && icon.well_formed(),
                Err(e) => width * height != content.len() && e == BadIcon::Bmp(
                    BmpError::WrongFormat,
                ),
            },
    {
        match width.checked_mul(height) {
            Some(area) => {
                if area == content.len() {
                    Ok(Icon { size: UVec2::new(width, height), content })
                } else {
                    Err(BadIcon::Bmp(BmpError::WrongFormat))
                }
            },
            None => Err(BadIcon::Bmp(BmpError::WrongFormat)),
        }
    }

    pub fn get_size(&self) -> (s: UVec2)
        ensures
            s == self.spec_size(),
    {
        self.size
    }

    /// Renders the icon: a copy of its decoded pixels.
    pub fn draw(&self) -> (r: (Vec<Color>, UVec2))
        ensures
            r.1 == self.spec_size(),
            r.0@ == self.spec_content(),
    {
        let mut buf: Vec<Color> = Vec::new();
        let mut i: usize = 0;
        while i < self.content.len()
            invariant
                0 <= i <= self.content.len(),
                buf@ == self.spec_content().take(i as int),
            decreases self.content.len() - i,
        {
            buf.push(self.content[i]);
            proof {
                assert(buf@ =~= self.spec_content().take(i + 1));
            }
            i = i + 1;
        }
        proof {
            assert(self.spec_content().take(self.spec_content().len() as int)
                =~= self.spec_content());
        }
        (buf, self.size)
    }
}

} // verus!
