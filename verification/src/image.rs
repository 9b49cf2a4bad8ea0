//! Off-screen rendering into an RGBA byte buffer.

use vstd::prelude::*;

verus! {

/// Whether the pixel arithmetic of a `width` x `height` image stays within
/// `u32`: the byte count, and the scaled coordinates of its last pixel.
pub open spec fn gradient_fits(width: u32, height: u32) -> bool {
    &&& width * height * 4 <= u32::MAX
    &&& (width > 0 && height > 0) ==> (width - 1) * 255 <= u32::MAX && (height - 1) * 255 <= u32::MAX
}

/// The bytes of the pixel at `(x, y)` of a `width` x `height` gradient:
/// red grows from left to right, green from top to bottom, blue is half
/// on and the pixel is opaque.
pub open spec fn gradient_pixel(x: int, y: int, width: int, height: int) -> Seq<u8> {
    seq![(x * 255 / width) as u8, (y * 255 / height) as u8, 128u8, 255u8]
}

/// Renders images of a fixed size.
#[derive(Debug)]
pub struct GlesImageRenderer {
    width: u32,
    height: u32,
}

impl GlesImageRenderer {
    /// The width of the images.
    pub closed spec fn spec_width(&self) -> u32 {
        self.width
    }

    /// The height of the images.
    pub closed spec fn spec_height(&self) -> u32 {
        self.height
    }

    /// A renderer of `width` x `height` images.
    pub fn new(width: u32, height: u32) -> (r: Self)
        ensures
            r.spec_width() == width,
            r.spec_height() == height,
    {
        GlesImageRenderer { width, height }
    }

    /// Replaces the contents of `buffer` by the RGBA bytes of the image, row
    /// after row, four bytes a pixel.
    pub fn fill_gradient(&self, buffer: &mut Vec<u8>)
        requires
            gradient_fits(self.spec_width(), self.spec_height()),
        ensures
            final(buffer)@.len() == self.spec_width() * self.spec_height() * 4,
            forall|x: int, y: int| 0 <= x < self.spec_width() && 0 <= y < self.spec_height()
                ==> #[trigger] final(buffer)@.subrange((y * self.spec_width() + x) * 4, (y * self.spec_width() + x) * 4 + 4)
                    == gradient_pixel(x, y, self.spec_width() as int, self.spec_height() as int),
    {
        let w = self.width;
        let h = self.height;
        buffer.clear();
        let mut y: u32 = 0;
        while y < h
            invariant
                gradient_fits(w, h),
                y <= h,
                buffer@.len() == (y * w) * 4,
                forall|px: int, py: int| 0 <= px < w && 0 <= py < y
                    ==> #[trigger] buffer@.subrange((py * w + px) * 4, (py * w + px) * 4 + 4)
                        == gradient_pixel(px, py, w as int, h as int),
            decreases h - y,
        {
            let mut x: u32 = 0;
            proof {
                assert(y * w <= (h - 1) * w) by (nonlinear_arith)
                    requires y < h;
                assert((h - 1) * w + w == h * w) by (nonlinear_arith);
            }
            while x < w
                invariant
                    gradient_fits(w, h),
                    y < h,
                    x <= w,
                    y * w + w <= h * w,
                    buffer@.len() == (y * w + x) * 4,
                    forall|px: int, py: int| 0 <= px < w && 0 <= py < y
                        ==> #[trigger] buffer@.subrange((py * w + px) * 4, (py * w + px) * 4 + 4)
                            == gradient_pixel(px, py, w as int, h as int),
                    forall|px: int| 0 <= px < x
                        ==> #[trigger] buffer@.subrange((y * w + px) * 4, (y * w + px) * 4 + 4)
                            == gradient_pixel(px, y as int, w as int, h as int),
                decreases w - x,
            {
                proof {
                    assert(x * 255 <= (w - 1) * 255) by (nonlinear_arith)
                        requires x < w;
                    assert(y * 255 <= (h - 1) * 255) by (nonlinear_arith)
                        requires y < h;
                    assert(x * 255 / (w as int) < 255) by (nonlinear_arith)
                        requires x < w, w > 0;
                    assert(y * 255 / (h as int) < 255) by (nonlinear_arith)
                        requires y < h, h > 0;
                }
                let r = (x * 255 / w) as u8;
                let g = (y * 255 / h) as u8;
                let ghost prev = buffer@;
                buffer.push(r);
                buffer.push(g);
                buffer.push(128);
                buffer.push(255);
                proof {
                    let start = (y * w + x) * 4;
                    assert(buffer@.subrange(start, start + 4) =~= gradient_pixel(x as int, y as int, w as int, h as int));
                    assert forall|px: int, py: int| 0 <= px < w && 0 <= py < y
                        implies #[trigger] buffer@.subrange((py * w + px) * 4, (py * w + px) * 4 + 4)
                            == gradient_pixel(px, py, w as int, h as int) by {
                        assert(py * w + px < y * w) by (nonlinear_arith)
                            requires 0 <= px < w, 0 <= py < y;
                        assert(buffer@.subrange((py * w + px) * 4, (py * w + px) * 4 + 4)
                            =~= prev.subrange((py * w + px) * 4, (py * w + px) * 4 + 4));
                    }
                    assert forall|px: int| 0 <= px < x + 1
                        implies #[trigger] buffer@.subrange((y * w + px) * 4, (y * w + px) * 4 + 4)
                            == gradient_pixel(px, y as int, w as int, h as int) by {
                        if px < x {
                            assert(buffer@.subrange((y * w + px) * 4, (y * w + px) * 4 + 4)
                                =~= prev.subrange((y * w + px) * 4, (y * w + px) * 4 + 4));
                        }
                    }
                }
                x += 1;
            }
            proof {
                assert((y + 1) * w == y * w + w) by (nonlinear_arith);
            }
            y += 1;
        }
        proof {
            assert(buffer@.len() == w * h * 4) by (nonlinear_arith)
                requires buffer@.len() == (h * w) * 4;
        }
    }
}

} // verus!
