use vstd::prelude::*;

verus! {

/// One colour everywhere. `V` is the type of a colour.
pub struct Solid<V> {
    pub color: V,
}

/// A blend from one colour to another along `u`.
pub struct LinearGradient<V> {
    pub from: V,
    pub to: V,
}

/// Why a pixel buffer is no image.
#[derive(Clone, Copy, Debug, PartialEq, Eq, Structural)]
pub enum ImageError {
    /// A pixel has neither three channels (RGB) nor four (RGBA).
    ChannelCount { channels: u8 },
    /// The buffer does not hold one byte for each channel of each pixel.
    BufferLength { len: usize },
}

/// What an image is, as a plain value.
pub struct ImageView {
    pub path: Seq<char>,
    pub width: nat,
    pub height: nat,
    pub channels: nat,
    pub data: Seq<u8>,
}

impl ImageView {
    /// A pixel is RGB or RGBA, and the buffer holds the pixels one after
    /// another, with nothing left over.
    pub open spec fn wf(self) -> bool {
        &&& self.channels == 3 || self.channels == 4
        &&& self.data.len() == self.width * self.height * self.channels
    }

    /// Where the pixel in column `x` of row `y` starts in the buffer. Rows
    /// follow one another from the top.
    pub open spec fn offset(self, x: int, y: int) -> int {
        (y * self.width + x) * self.channels
    }

    /// Red, green and blue of the pixel in column `x` of row `y`. A fourth
    /// channel is passed over.
    pub open spec fn pixel(self, x: int, y: int) -> (u8, u8, u8) {
        let at = self.offset(x, y);
        (self.data[at], self.data[at + 1], self.data[at + 2])
    }
}

/// A decoded picture: eight bits per channel, rows from the top.
pub struct Image {
    path: String,
    width: u32,
    height: u32,
    channels: u8,
    data: Vec<u8>,
}

impl View for Image {
    type V = ImageView;

    closed spec fn view(&self) -> ImageView {
        ImageView {
            path: self.path@,
            width: self.width as nat,
            height: self.height as nat,
            channels: self.channels as nat,
            data: self.data@,
        }
    }
}

/// A pixel inside the image lies inside the buffer, last channel included.
pub proof fn lemma_pixel_in_buffer(image: ImageView, x: int, y: int)
    requires
        image.wf(),
        0 <= x < image.width,
        0 <= y < image.height,
    ensures
        0 <= y * image.width,
        y * image.width + x < image.data.len(),
        0 <= image.offset(x, y),
        image.offset(x, y) + image.channels <= image.data.len(),
{
    let w = image.width as int;
    let h = image.height as int;
    let c = image.channels as int;
    assert(0 <= y * w && y * w + x + 1 <= h * w) by (nonlinear_arith)
        requires
            0 <= x < w,
            0 <= y < h,
    ;
    assert(0 <= (y * w + x) * c && (y * w + x) * c + c <= w * h * c && h * w <= w * h * c)
        by (nonlinear_arith)
        requires
            0 <= y * w + x,
            y * w + x + 1 <= h * w,
            c >= 3,
    ;
}

impl Image {
    /// Makes an image of a buffer of `width` by `height` pixels with
    /// `channels` bytes each, if the buffer is one.
    pub fn new(path: String, width: u32, height: u32, channels: u8, data: Vec<u8>) -> (r: Result<
        Image,
        ImageError,
    >)
        ensures
            match r {
                Ok(image) => {
                    &&& image@.wf()
                    &&& image@ == (ImageView {
                        path: path@,
                        width: width as nat,
                        height: height as nat,
                        channels: channels as nat,
                        data: data@,
                    })
                },
                Err(ImageError::ChannelCount { channels: c }) => {
                    &&& c == channels
                    &&& channels != 3
                    &&& channels != 4
                },
                Err(ImageError::BufferLength { len }) => {
                    &&& channels == 3 || channels == 4
                    &&& len == data@.len()
                    &&& data@.len() != width * height * channels
                },
            },
    {
        if channels != 3 && channels != 4 {
            return Err(ImageError::ChannelCount { channels });
        }
        assert(width * height <= 0xffff_ffff * 0xffff_ffff) by (nonlinear_arith)
            requires
                0 <= width <= 0xffff_ffff,
                0 <= height <= 0xffff_ffff,
        ;
        let pixels: u128 = (width as u128) * (height as u128);
        assert(pixels * channels <= 0xffff_ffff * 0xffff_ffff * 4) by (nonlinear_arith)
            requires
                0 <= pixels <= 0xffff_ffff * 0xffff_ffff,
                0 <= channels <= 4,
        ;
        let expected: u128 = pixels * (channels as u128);
        if data.len() as u128 != expected {
            return Err(ImageError::BufferLength { len: data.len() });
        }
        Ok(Image { path, width, height, channels, data })
    }

    /// Where the image came from.
    pub fn path(&self) -> (path: &str)
        ensures
            path@ == self@.path,
    {
        self.path.as_str()
    }

    /// The number of pixels in a row.
    pub fn width(&self) -> (width: u32)
        ensures
            width == self@.width,
    {
        self.width
    }

    /// The number of rows.
    pub fn height(&self) -> (height: u32)
        ensures
            height == self@.height,
    {
        self.height
    }

    /// The number of bytes per pixel.
    pub fn channels(&self) -> (channels: u8)
        ensures
            channels == self@.channels,
    {
        self.channels
    }

    /// Red, green and blue of the pixel in column `x` of row `y`, rows
    /// counted from the top.
    pub fn pixel(&self, x: u32, y: u32) -> (rgb: (u8, u8, u8))
        requires
            self@.wf(),
            x < self@.width,
            y < self@.height,
        ensures
            rgb == self@.pixel(x as int, y as int),
    {
        let len = self.data.len();
        proof {
            lemma_pixel_in_buffer(self@, x as int, y as int);
        }
        assert((y * self.width + x) * self.channels + 2 < len);
        let row: usize = (y as usize) * (self.width as usize);
        let at: usize = (row + x as usize) * (self.channels as usize);
        (self.data[at], self.data[at + 1], self.data[at + 2])
    }
}

/// Where a surface or the sky takes its colours from.
pub enum Texture<V> {
    Image(Image),
    LinearGradient(LinearGradient<V>),
    Solid(Solid<V>),
}

} // verus!
