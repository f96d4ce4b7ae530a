use vstd::prelude::*;

verus! {

/// One pixel, eight bits per channel.
#[derive(Clone, Copy, PartialEq, Eq, Structural, Debug)]
pub struct Pixel {
    pub r: u8,
    pub g: u8,
    pub b: u8,
    pub a: u8,
}

/// A raster image: `width * height` pixels in row-major order, row 0 at the top.
pub struct Image {
    /// The pixels in row-major order, row 0 first
    pub pixels: Vec<Pixel>,
    /// The width of the image in pixels
    pub width: usize,
    /// The height of the image in pixels
    pub height: usize,
}

impl View for Image {
    type V = Seq<Pixel>;

    open spec fn view(&self) -> Seq<Pixel> {
        self.pixels@
    }
}

/// In a `width`-pixel-wide row-major grid, cell `(x, y)` with `x < width` and
/// `y` below the height stays inside the buffer.
pub proof fn lemma_row_major_bound(x: int, y: int, width: int, height: int)
    requires
        0 <= x < width,
        0 <= y < height,
    ensures
        0 <= y * width + x < height * width,
        width * y + x == y * width + x,
        height * width == width * height,
{
    assert(0 <= y * width + x < height * width && width * y == y * width
        && height * width == width * height) by (nonlinear_arith)
        requires
            0 <= x < width,
            0 <= y < height,
    ;
}

impl Image {
    /// The pixel buffer holds exactly one pixel per grid cell.
    pub open spec fn wf(&self) -> bool {
        self@.len() == self.width * self.height
    }

    /// Create an image of certain dimensions of a solid color
    pub fn solid_color(width: usize, height: usize, color: Pixel) -> (img: Image)
        requires
            width * height <= usize::MAX,
        ensures
            img.wf(),
            img.width == width,
            img.height == height,
            img@ =~= Seq::new((width * height) as nat, |i: int| color),
    {
        let n: usize = width * height;
        let mut pixels: Vec<Pixel> = Vec::new();
        let mut i: usize = 0;
        while i < n
            invariant
                i <= n,
                pixels@.len() == i,
                forall|j: int| 0 <= j < i ==> pixels@[j] == color,
            decreases n - i,
        {
            pixels.push(color);
            i = i + 1;
        }
        Image { pixels, width, height }
    }

    /// Get the color of a certain pixel
    pub fn get_pixel(&self, x: usize, y: usize) -> (p: Pixel)
        requires
            self.wf(),
            x < self.width,
            y < self.height,
        ensures
            p == self@[y * self.width + x],
    {
        // the buffer is no longer than usize::MAX, so the index fits
        let _n: usize = self.pixels.len();
        proof {
            lemma_row_major_bound(x as int, y as int, self.width as int, self.height as int);
        }
        self.pixels[self.width * y + x]
    }

    /// Set the color of a certain pixel, leaving every other pixel as it was
    pub fn set_pixel(&mut self, x: usize, y: usize, color: Pixel)
        requires
            old(self).wf(),
            x < old(self).width,
            y < old(self).height,
        ensures
            final(self).wf(),
            final(self).width == old(self).width,
            final(self).height == old(self).height,
            final(self)@ == old(self)@.update(y * old(self).width + x, color),
    {
        // the buffer is no longer than usize::MAX, so the index fits
        let _n: usize = self.pixels.len();
        proof {
            lemma_row_major_bound(x as int, y as int, self.width as int, self.height as int);
        }
        let idx: usize = self.width * y + x;
        self.pixels[idx] = color;
    }
}

} // verus!
