use crate::rgb::Rgb;
use vstd::prelude::*;

verus! {

/// Position in a row-major pixel sequence of the pixel at column `x`, row `y`.
pub open spec fn pixel_index(x: nat, y: nat, width: nat) -> nat {
    x + y * width
}

/// The bytes of a sequence of pixels, three per pixel in the order red, green, blue.
pub open spec fn rgb_bytes(pixels: Seq<Rgb>) -> Seq<u8>
    decreases pixels.len(),
{
    if pixels.len() == 0 {
        Seq::empty()
    } else {
        rgb_bytes(pixels.drop_last()) + seq![
            pixels.last().r,
            pixels.last().g,
            pixels.last().b,
        ]
    }
}

/// The column and row of the pixel at `pixel` in a row-major image `width` pixels wide.
pub fn pixel_position(pixel: u32, width: u32) -> (r: (u32, u32))
    requires
        width > 0,
    ensures
        r.0 == pixel % width,
        r.1 == pixel / width,
        r.0 < width,
        pixel_index(r.0 as nat, r.1 as nat, width as nat) == pixel,
{
    let y = pixel / width;
    let x = pixel % width;
    assert(x + y * width == pixel) by (nonlinear_arith)
        requires
            y == pixel / width,
            x == pixel % width,
            width > 0,
    ;
    (x, y)
}

/// An image of `Rgb` pixels, stored row by row.
pub struct RgbImage {
    width: u32,
    height: u32,
    pixels: Vec<Rgb>,
}

impl View for RgbImage {
    type V = Seq<Rgb>;

    /// The pixels, row by row from the top, each row from the left.
    closed spec fn view(&self) -> Seq<Rgb> {
        self.pixels@
    }
}

impl RgbImage {
    pub closed spec fn spec_width(&self) -> nat {
        self.width as nat
    }

    pub closed spec fn spec_height(&self) -> nat {
        self.height as nat
    }

    /// There is exactly one pixel for each column and row.
    pub open spec fn wf(&self) -> bool {
        self@.len() == self.spec_width() * self.spec_height()
    }

    /// A black image of the given size.
    pub fn new(width: u32, height: u32) -> (image: RgbImage)
        requires
            width as nat * height as nat <= usize::MAX,
        ensures
            image.wf(),
            image.spec_width() == width,
            image.spec_height() == height,
            forall|i: int| 0 <= i < image@.len() ==> image@[i] == (Rgb { r: 0, g: 0, b: 0 }),
    {
        let count = width as usize * height as usize;
        let mut pixels: Vec<Rgb> = Vec::with_capacity(count);
        let mut i: usize = 0;
        while i < count
            invariant
                i <= count,
                pixels@.len() == i,
                forall|j: int| 0 <= j < i ==> pixels@[j] == (Rgb { r: 0, g: 0, b: 0 }),
            decreases count - i,
        {
            pixels.push(Rgb::new(0, 0, 0));
            i += 1;
        }
        RgbImage { width, height, pixels }
    }

    /// An image of the given size holding `pixels`, row by row.
    pub fn from_rgb_pixels(width: u32, height: u32, pixels: Vec<Rgb>) -> (image: RgbImage)
        requires
            pixels@.len() == width as nat * height as nat,
        ensures
            image.wf(),
            image.spec_width() == width,
            image.spec_height() == height,
            image@ == pixels@,
    {
        RgbImage { width, height, pixels }
    }

    pub fn width(&self) -> (w: u32)
        ensures
            w == self.spec_width(),
    {
        self.width
    }

    pub fn height(&self) -> (h: u32)
        ensures
            h == self.spec_height(),
    {
        self.height
    }

    pub fn get_pixel(&self, x: u32, y: u32) -> (c: Rgb)
        requires
            self.wf(),
            x < self.spec_width(),
            y < self.spec_height(),
        ensures
            c == self@[pixel_index(x as nat, y as nat, self.spec_width()) as int],
    {
        let count = self.pixels.len();
        assert(count == self.pixels@.len());
        let i = pixel_offset(x, y, self.width, self.height);
        self.pixels[i]
    }

    pub fn set_pixel(&mut self, x: u32, y: u32, colour: Rgb)
        requires
            old(self).wf(),
            x < old(self).spec_width(),
            y < old(self).spec_height(),
        ensures
            final(self).wf(),
            final(self).spec_width() == old(self).spec_width(),
            final(self).spec_height() == old(self).spec_height(),
            final(self)@ == old(self)@.update(
                pixel_index(x as nat, y as nat, old(self).spec_width()) as int,
                colour,
            ),
    {
        let count = self.pixels.len();
        assert(count == old(self).pixels@.len());
        let i = pixel_offset(x, y, self.width, self.height);
        self.pixels.set(i, colour);
    }

    /// The bytes handed to an image encoder: three per pixel (red, green,
    /// blue), pixels row by row.
    pub fn to_rgb_bytes(&self) -> (bytes: Vec<u8>)
        requires
            3 * self@.len() <= usize::MAX,
        ensures
            bytes@ == rgb_bytes(self@),
            bytes@.len() == 3 * self@.len(),
    {
        let mut bytes: Vec<u8> = Vec::with_capacity(3 * self.pixels.len());
        let mut i: usize = 0;
        while i < self.pixels.len()
            invariant
                i <= self.pixels@.len(),
                3 * self.pixels@.len() <= usize::MAX,
                bytes@ == rgb_bytes(self.pixels@.subrange(0, i as int)),
                bytes@.len() == 3 * i,
            decreases self.pixels@.len() - i,
        {
            let c = self.pixels[i];
            bytes.push(c.r);
            bytes.push(c.g);
            bytes.push(c.b);
            proof {
                let next = self.pixels@.subrange(0, i + 1);
                assert(next.drop_last() =~= self.pixels@.subrange(0, i as int));
            }
            i += 1;
        }
        assert(self.pixels@.subrange(0, i as int) =~= self.pixels@);
        bytes
    }
}

/// Offset into a row-major pixel vector of column `x`, row `y`.
fn pixel_offset(x: u32, y: u32, width: u32, height: u32) -> (i: usize)
    requires
        x < width,
        y < height,
        width as nat * height as nat <= usize::MAX,
    ensures
        i == pixel_index(x as nat, y as nat, width as nat),
        i < width as nat * height as nat,
{
    assert(x + y * width < width * height) by (nonlinear_arith)
        requires
            x < width,
            y < height,
    ;
    x as usize + y as usize * width as usize
}

} // verus!
