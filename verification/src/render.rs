//! What a rendering is made with, and the grid of bytes that it fills.
//!
//! The pixels of an image are independent of each other. A pixel is named by
//! its row and column in the viewport, where row 0 is the lowest one; the
//! grid holds the rows in the order that was asked for, each row from left
//! to right, each pixel as three bytes: red, green, blue.

use crate::error::ConfigError;
use vstd::prelude::*;

verus! {

/// The order of the rows in the grid.
#[derive(Clone, Copy, Debug, PartialEq, Eq, Structural)]
pub enum RowOrder {
    /// The highest row of the viewport comes first.
    TopDown,
    /// The lowest row of the viewport comes first.
    BottomUp,
}

/// What a rendering is made with.
#[derive(Clone, Copy, Debug)]
pub struct RenderConfig {
    width: u32,
    height: u32,
    samples_per_pixel: u32,
    max_depth: u32,
    seed: Option<u64>,
}

/// The values of a `RenderConfig`.
pub struct Settings {
    pub width: u32,
    pub height: u32,
    pub samples_per_pixel: u32,
    pub max_depth: u32,
    pub seed: Option<u64>,
}

/// What is wrong with the values of a rendering, if anything: the first of
/// no columns, no rows, no samples, no bounces, and more bytes than this
/// machine can address.
pub open spec fn fault(width: u32, height: u32, samples_per_pixel: u32, max_depth: u32) -> Option<
    ConfigError,
> {
    if width == 0 {
        Some(ConfigError::Width)
    } else if height == 0 {
        Some(ConfigError::Height)
    } else if samples_per_pixel == 0 {
        Some(ConfigError::Samples)
    } else if max_depth == 0 {
        Some(ConfigError::Depth)
    } else if 3 * width * height > usize::MAX {
        Some(ConfigError::Size)
    } else {
        None
    }
}

impl View for RenderConfig {
    type V = Settings;

    closed spec fn view(&self) -> Settings {
        Settings {
            width: self.width,
            height: self.height,
            samples_per_pixel: self.samples_per_pixel,
            max_depth: self.max_depth,
            seed: self.seed,
        }
    }
}

impl RenderConfig {
    #[verifier::type_invariant]
    spec fn sound(self) -> bool {
        fault(self.width, self.height, self.samples_per_pixel, self.max_depth) is None
    }

    /// The values of a rendering, where nothing is wrong with them.
    pub fn new(
        width: u32,
        height: u32,
        samples_per_pixel: u32,
        max_depth: u32,
        seed: Option<u64>,
    ) -> (r: Result<RenderConfig, ConfigError>)
        ensures
            match fault(width, height, samples_per_pixel, max_depth) {
                Some(e) => r == Err::<RenderConfig, ConfigError>(e),
                None => (r matches Ok(c) && c@ == (Settings {
                    width,
                    height,
                    samples_per_pixel,
                    max_depth,
                    seed,
                })),
            },
    {
        if width == 0 {
            return Err(ConfigError::Width);
        }
        if height == 0 {
            return Err(ConfigError::Height);
        }
        if samples_per_pixel == 0 {
            return Err(ConfigError::Samples);
        }
        if max_depth == 0 {
            return Err(ConfigError::Depth);
        }
        assert(3 * width * height <= 3 * 0xffff_ffff * 0xffff_ffff) by (nonlinear_arith)
            requires
                width <= 0xffff_ffff,
                height <= 0xffff_ffff,
        ;
        let bytes: u128 = 3 * (width as u128) * (height as u128);
        if bytes > usize::MAX as u128 {
            return Err(ConfigError::Size);
        }
        Ok(RenderConfig { width, height, samples_per_pixel, max_depth, seed })
    }

    /// The number of bytes of the image: three for each pixel.
    pub fn byte_count(&self) -> (n: usize)
        ensures
            n == 3 * self@.width * self@.height,
    {
        proof {
            use_type_invariant(self);
        }
        let width = self.width;
        let height = self.height;
        assert(3 * width * height <= 3 * 0xffff_ffff * 0xffff_ffff) by (nonlinear_arith)
            requires
                width <= 0xffff_ffff,
                height <= 0xffff_ffff,
        ;
        let bytes: u128 = 3 * (width as u128) * (height as u128);
        bytes as usize
    }

    pub fn width(&self) -> (r: u32)
        ensures
            r == self@.width,
            r > 0,
    {
        proof {
            use_type_invariant(self);
        }
        self.width
    }

    pub fn height(&self) -> (r: u32)
        ensures
            r == self@.height,
            r > 0,
    {
        proof {
            use_type_invariant(self);
        }
        self.height
    }

    pub fn samples_per_pixel(&self) -> (r: u32)
        ensures
            r == self@.samples_per_pixel,
            r > 0,
    {
        proof {
            use_type_invariant(self);
        }
        self.samples_per_pixel
    }

    pub fn max_depth(&self) -> (r: u32)
        ensures
            r == self@.max_depth,
            r > 0,
    {
        proof {
            use_type_invariant(self);
        }
        self.max_depth
    }

    pub fn seed(&self) -> (r: Option<u64>)
        ensures
            r == self@.seed,
    {
        self.seed
    }
}

/// The place of the viewport's row `row` among the rows of a grid of
/// `height` rows.
pub open spec fn line_spec(order: RowOrder, height: int, row: int) -> int {
    match order {
        RowOrder::TopDown => height - 1 - row,
        RowOrder::BottomUp => row,
    }
}

/// The place in the grid of the first byte of the pixel in the viewport's
/// row `row` and column `col`.
pub open spec fn offset_spec(order: RowOrder, width: int, height: int, row: int, col: int) -> int {
    3 * (line_spec(order, height, row) * width + col)
}

/// The grid of an image: its rows one after the other, three bytes a pixel.
pub struct Image {
    width: u32,
    height: u32,
    order: RowOrder,
    data: Vec<u8>,
}

/// The values of an `Image`.
pub struct Grid {
    pub width: u32,
    pub height: u32,
    pub order: RowOrder,
    pub bytes: Seq<u8>,
}

impl Grid {
    /// Whether the viewport has a pixel in row `row` and column `col`.
    pub open spec fn holds(self, row: u32, col: u32) -> bool {
        row < self.height && col < self.width
    }

    /// The place of the first byte of a pixel.
    pub open spec fn offset(self, row: u32, col: u32) -> int {
        offset_spec(self.order, self.width as int, self.height as int, row as int, col as int)
    }

    /// The three bytes of a pixel.
    pub open spec fn pixel(self, row: u32, col: u32) -> Seq<u8> {
        self.bytes.subrange(self.offset(row, col), self.offset(row, col) + 3)
    }

    /// The grid with the three bytes of a pixel replaced.
    pub open spec fn with_pixel(self, row: u32, col: u32, rgb: [u8; 3]) -> Grid {
        let at = self.offset(row, col);
        Grid {
            bytes: self.bytes.update(at, rgb[0]).update(at + 1, rgb[1]).update(at + 2, rgb[2]),
            ..self
        }
    }
}

impl View for Image {
    type V = Grid;

    closed spec fn view(&self) -> Grid {
        Grid { width: self.width, height: self.height, order: self.order, bytes: self.data@ }
    }
}

/// The pixels of a grid lie inside it, and no two of them share a byte.
pub proof fn lemma_pixels_apart(
    order: RowOrder,
    width: int,
    height: int,
    row: int,
    col: int,
    other_row: int,
    other_col: int,
)
    requires
        0 <= row < height,
        0 <= col < width,
        0 <= other_row < height,
        0 <= other_col < width,
    ensures
        0 <= offset_spec(order, width, height, row, col),
        offset_spec(order, width, height, row, col) + 3 <= 3 * width * height,
        (row != other_row || col != other_col) ==> (offset_spec(order, width, height, row, col) + 3
            <= offset_spec(order, width, height, other_row, other_col) || offset_spec(
            order,
            width,
            height,
            other_row,
            other_col,
        ) + 3 <= offset_spec(order, width, height, row, col)),
{
    let a = line_spec(order, height, row);
    let b = line_spec(order, height, other_row);
    assert(0 <= a < height && 0 <= b < height);
    assert(0 <= a * width && a * width + width <= height * width) by (nonlinear_arith)
        requires
            0 <= a < height,
            0 < width,
    ;
    assert(3 * (height * width) == 3 * width * height) by (nonlinear_arith);
    if a < b {
        assert(a * width + width <= b * width) by (nonlinear_arith)
            requires
                a < b,
                0 < width,
        ;
    }
    if b < a {
        assert(b * width + width <= a * width) by (nonlinear_arith)
            requires
                b < a,
                0 < width,
        ;
    }
}

impl Image {
    /// The grid has a byte for each channel of each pixel, and at least one
    /// pixel. Every image that `new` makes is well formed, and stays so.
    pub closed spec fn wf(&self) -> bool {
        &&& self.width > 0
        &&& self.height > 0
        &&& self.data@.len() == 3 * self.width * self.height
    }

    /// A black image of the size that `config` gives, with its rows in the
    /// given order.
    pub fn new(config: &RenderConfig, order: RowOrder) -> (image: Image)
        ensures
            image.wf(),
            image@.width == config@.width,
            image@.height == config@.height,
            image@.order == order,
            image@.bytes.len() == 3 * config@.width * config@.height,
            forall|i: int| 0 <= i < image@.bytes.len() ==> image@.bytes[i] == 0,
    {
        let width = config.width();
        let height = config.height();
        let data = vec![0u8; config.byte_count()];
        Image { width, height, order, data }
    }

    pub fn width(&self) -> (r: u32)
        ensures
            r == self@.width,
    {
        self.width
    }

    pub fn height(&self) -> (r: u32)
        ensures
            r == self@.height,
    {
        self.height
    }

    pub fn order(&self) -> (r: RowOrder)
        ensures
            r == self@.order,
    {
        self.order
    }

    /// The bytes of the grid.
    pub fn bytes(&self) -> (r: &Vec<u8>)
        ensures
            r@ == self@.bytes,
    {
        &self.data
    }

    /// A well-formed image has at least one pixel and three bytes for each.
    pub proof fn lemma_size(&self)
        requires
            self.wf(),
        ensures
            self@.width > 0,
            self@.height > 0,
            self@.bytes.len() == 3 * self@.width * self@.height,
    {
    }

    /// The place in the grid of the first byte of a pixel, where the
    /// viewport has that pixel.
    pub fn offset(&self, row: u32, col: u32) -> (r: Option<usize>)
        requires
            self.wf(),
        ensures
            self@.holds(row, col) ==> (r == Some(self@.offset(row, col) as usize) && 0
                <= self@.offset(row, col) && self@.offset(row, col) + 3 <= self@.bytes.len()
                <= usize::MAX),
            !self@.holds(row, col) ==> r is None,
    {
        if row >= self.height || col >= self.width {
            return None;
        }
        let size = self.data.len();
        let line = match self.order {
            RowOrder::TopDown => self.height - 1 - row,
            RowOrder::BottomUp => row,
        };
        proof {
            lemma_pixels_apart(
                self.order,
                self.width as int,
                self.height as int,
                row as int,
                col as int,
                row as int,
                col as int,
            );
            assert(line == line_spec(self.order, self.height as int, row as int));
            assert(0 <= line * self.width) by (nonlinear_arith)
                requires
                    0 <= line,
                    0 <= self.width,
            ;
            assert(self@.offset(row, col) == 3 * (line * self.width + col));
            assert(self@.offset(row, col) + 3 <= size);
        }
        let pixel = line as usize * self.width as usize + col as usize;
        Some(3 * pixel)
    }

    /// Writes the bytes of a pixel, and says whether the viewport has that
    /// pixel. Where it has not, the image stays as it is.
    pub fn put(&mut self, row: u32, col: u32, rgb: [u8; 3]) -> (done: bool)
        requires
            old(self).wf(),
        ensures
            final(self).wf(),
            done == old(self)@.holds(row, col),
            done ==> final(self)@ == old(self)@.with_pixel(row, col, rgb),
            !done ==> final(self)@ == old(self)@,
    {
        match self.offset(row, col) {
            Some(at) => {
                self.data.set(at, rgb[0]);
                self.data.set(at + 1, rgb[1]);
                self.data.set(at + 2, rgb[2]);
                true
            },
            None => false,
        }
    }

    /// The bytes of a pixel, where the viewport has that pixel.
    pub fn get(&self, row: u32, col: u32) -> (r: Option<[u8; 3]>)
        requires
            self.wf(),
        ensures
            self@.holds(row, col) ==> (r matches Some(rgb) && rgb@ == self@.pixel(row, col)),
            !self@.holds(row, col) ==> r is None,
    {
        match self.offset(row, col) {
            Some(at) => {
                let rgb = [self.data[at], self.data[at + 1], self.data[at + 2]];
                assert(rgb@ =~= self@.pixel(row, col));
                Some(rgb)
            },
            None => None,
        }
    }
}

} // verus!
