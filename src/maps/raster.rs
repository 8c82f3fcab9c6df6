//! Raster images: pixels, crops and their RGBA bytes.
use vstd::prelude::*;

verus! {

/// An RGBA pixel color.
#[derive(Clone, Copy, Debug, PartialEq, Eq, Structural)]
pub struct Color {
    pub r: u8,
    pub g: u8,
    pub b: u8,
    pub a: u8,
}

impl Color {
    /// Whether the two colors agree on their red, green and blue channels (alpha is ignored).
    pub open spec fn same_rgb(self, other: Color) -> bool {
        self.r == other.r && self.g == other.g && self.b == other.b
    }

    pub(crate) fn eq_rgb(&self, other: &Color) -> (r: bool)
        ensures
            r == self.same_rgb(*other),
    {
        self.r == other.r && self.g == other.g && self.b == other.b
    }
}

/// A raster image: `height` rows of `width` pixels each, top row first.
#[derive(Clone, Debug)]
pub struct Raster {
    pub width: u32,
    pub height: u32,
    pub pixels: Vec<Color>,
}

impl Raster {
    /// The pixel buffer holds exactly one color per pixel.
    pub open spec fn wf(&self) -> bool {
        self.pixels@.len() == self.width * self.height
    }

    /// The color at column `x` of row `y`.
    pub open spec fn pixel(&self, x: int, y: int) -> Color {
        self.pixels@[y * self.width + x]
    }
}

pub(crate) proof fn lemma_pixel_index(x: int, y: int, w: int, h: int)
    requires
        0 <= x < w,
        0 <= y < h,
    ensures
        0 <= y * w + x < w * h,
        y * w <= w * h,
{
    assert(0 <= y * w + x < w * h && y * w <= w * h) by (nonlinear_arith)
        requires
            0 <= x < w,
            0 <= y < h,
    ;
}

pub(crate) proof fn lemma_index_injective(px: int, py: int, qx: int, qy: int, w: int)
    requires
        0 <= px < w,
        0 <= qx < w,
        0 <= py,
        0 <= qy,
        py * w + px == qy * w + qx,
    ensures
        px == qx,
        py == qy,
{
    if py > qy {
        assert(py * w >= qy * w + w) by (nonlinear_arith)
            requires
                py > qy,
                w > 0,
        ;
    } else if py < qy {
        assert(qy * w >= py * w + w) by (nonlinear_arith)
            requires
                py < qy,
                w > 0,
        ;
    }
}

/// Whether `r` is the part of `img` that is `w` columns wide and starts at column `x0`.
pub open spec fn is_crop(img: Raster, x0: int, w: int, r: Raster) -> bool {
    &&& r.wf()
    &&& r.width == w
    &&& r.height == img.height
    &&& forall|x: int, y: int|
        0 <= x < w && 0 <= y < img.height ==> #[trigger] r.pixel(x, y) == img.pixel(x0 + x, y)
}

/// Returns the part of the image that is `w` columns wide and starts at column `x0`.
pub(crate) fn crop(image: &Raster, x0: u32, w: u32) -> (r: Raster)
    requires
        image.wf(),
        x0 + w <= image.width,
    ensures
        is_crop(*image, x0 as int, w as int, r),
{
    let width = image.width;
    let height = image.height;
    let len = image.pixels.len();
    let mut pixels: Vec<Color> = Vec::new();
    let mut y: u32 = 0;
    while y < height
        invariant
            image.wf(),
            len == image.pixels@.len(),
            width == image.width,
            height == image.height,
            x0 + w <= width,
            0 <= y <= height,
            pixels@.len() == y * w,
            forall|xx: int, yy: int|
                0 <= xx < w && 0 <= yy < y ==> #[trigger] pixels@[yy * w + xx] == image.pixel(
                    x0 + xx,
                    yy,
                ),
        decreases height - y,
    {
        let mut x: u32 = 0;
        while x < w
            invariant
                image.wf(),
                len == image.pixels@.len(),
                width == image.width,
                height == image.height,
                x0 + w <= width,
                0 <= y < height,
                0 <= x <= w,
                pixels@.len() == y * w + x,
                forall|xx: int, yy: int|
                    0 <= xx < w && 0 <= yy < y ==> #[trigger] pixels@[yy * w + xx] == image.pixel(
                        x0 + xx,
                        yy,
                    ),
                forall|xx: int|
                    0 <= xx < x ==> #[trigger] pixels@[y * w + xx] == image.pixel(x0 + xx, y as int),
            decreases w - x,
        {
            proof {
                lemma_pixel_index(x0 + x, y as int, width as int, height as int);
            }
            let c = image.pixels[y as usize * width as usize + (x0 + x) as usize];
            let ghost before = pixels@;
            pixels.push(c);
            proof {
                assert forall|xx: int, yy: int| 0 <= xx < w && 0 <= yy < y implies
                    #[trigger] pixels@[yy * w + xx] == image.pixel(x0 + xx, yy) by {
                    assert(yy * w + xx < y * w) by (nonlinear_arith)
                        requires
                            0 <= xx < w,
                            0 <= yy < y,
                    ;
                    assert(pixels@[yy * w + xx] == before[yy * w + xx]);
                }
            }
            x = x + 1;
        }
        proof {
            assert((y + 1) * w == y * w + w) by (nonlinear_arith);
            assert forall|xx: int, yy: int| 0 <= xx < w && 0 <= yy < y + 1 implies
                #[trigger] pixels@[yy * w + xx] == image.pixel(x0 + xx, yy) by {
                if yy == y as int {
                    assert(pixels@[y * w + xx] == image.pixel(x0 + xx, y as int));
                }
            }
        }
        y = y + 1;
    }
    assert(height * w == w * height) by (nonlinear_arith);
    let r = Raster { width: w, height, pixels };
    assert forall|x: int, y: int| 0 <= x < w && 0 <= y < height implies
        #[trigger] r.pixel(x, y) == image.pixel(x0 + x, y) by {
        assert(r.pixel(x, y) == pixels@[y * w + x]);
    }
    r
}

/// The RGBA bytes of a row-major sequence of pixels: four bytes per pixel.
pub open spec fn rgba_bytes(px: Seq<Color>) -> Seq<u8> {
    Seq::new(
        4 * px.len(),
        |i: int|
            {
                let c = px[i / 4];
                if i % 4 == 0 {
                    c.r
                } else if i % 4 == 1 {
                    c.g
                } else if i % 4 == 2 {
                    c.b
                } else {
                    c.a
                }
            },
    )
}

impl Raster {
    /// Creates a raster of the given size from its RGBA bytes, four per pixel, row by row.
    ///
    /// Returns `None` when the number of bytes does not match the size.
    pub fn from_rgba(width: u32, height: u32, rgba: &Vec<u8>) -> (r: Option<Raster>)
        ensures
            match r {
                Some(img) => {
                    &&& img.wf()
                    &&& img.width == width
                    &&& img.height == height
                    &&& rgba_bytes(img.pixels@) == rgba@
                },
                None => rgba@.len() != 4 * (width * height),
            },
    {
        let len = rgba.len();
        let n = match (width as usize).checked_mul(height as usize) {
            Some(n) => n,
            None => {
                return None;
            },
        };
        if len / 4 != n || len % 4 != 0 {
            return None;
        }
        let mut pixels: Vec<Color> = Vec::new();
        let mut i: usize = 0;
        while i < n
            invariant
                len == rgba@.len(),
                len == 4 * n,
                0 <= i <= n,
                pixels@.len() == i,
                forall|j: int|
                    0 <= j < i ==> #[trigger] pixels@[j] == (Color {
                        r: rgba@[4 * j],
                        g: rgba@[4 * j + 1],
                        b: rgba@[4 * j + 2],
                        a: rgba@[4 * j + 3],
                    }),
            decreases n - i,
        {
            let c = Color {
                r: rgba[4 * i],
                g: rgba[4 * i + 1],
                b: rgba[4 * i + 2],
                a: rgba[4 * i + 3],
            };
            pixels.push(c);
            i = i + 1;
        }
        let img = Raster { width, height, pixels };
        assert(rgba_bytes(img.pixels@) =~= rgba@) by {
            assert forall|k: int| 0 <= k < 4 * n implies #[trigger] rgba_bytes(img.pixels@)[k]
                == rgba@[k] by {
                let j = k / 4;
                assert(0 <= j < n);
                assert(k == 4 * j + k % 4);
                assert(pixels@[j] == (Color {
                    r: rgba@[4 * j],
                    g: rgba@[4 * j + 1],
                    b: rgba@[4 * j + 2],
                    a: rgba@[4 * j + 3],
                }));
            }
        }
        Some(img)
    }
}

} // verus!
