//! Framebuffers, surfaces, windows, and the compositor that paints the
//! windows into the framebuffer.
//!
//! A framebuffer keeps one colour word per pixel. How a colour word is laid
//! out in device memory for a given pixel format is the business of
//! whoever copies the picture to the device.

use crate::collections::btree_get_mut;
use crate::memory::{after_allocation, allocation_result, PageAllocator};
use std::collections::BTreeMap;
use vstd::prelude::*;

verus! {

/// Why a graphics operation did not succeed.
#[derive(Debug, Clone, Copy, PartialEq, Eq, Structural)]
pub enum GraphicsError {
    InvalidFramebuffer,
    UnsupportedFormat,
    OutOfMemory,
    InvalidDimensions,
}

/// How the colour of a pixel is laid out in device memory.
#[derive(Debug, Clone, Copy, PartialEq, Eq, Structural)]
pub enum PixelFormat {
    RGB888,
    RGBA8888,
    BGR888,
    BGRA8888,
    RGB565,
}

impl PixelFormat {
    /// How many bytes a pixel takes in device memory.
    pub open spec fn spec_bytes_per_pixel(self) -> u32 {
        match self {
            PixelFormat::RGB888 => 3,
            PixelFormat::RGBA8888 => 4,
            PixelFormat::BGR888 => 3,
            PixelFormat::BGRA8888 => 4,
            PixelFormat::RGB565 => 2,
        }
    }

    /// How many bytes a pixel takes in device memory.
    pub fn bytes_per_pixel(&self) -> (bytes: u32)
        ensures
            bytes == self.spec_bytes_per_pixel(),
    {
        match self {
            PixelFormat::RGB888 => 3,
            PixelFormat::RGBA8888 => 4,
            PixelFormat::BGR888 => 3,
            PixelFormat::BGRA8888 => 4,
            PixelFormat::RGB565 => 2,
        }
    }
}

/// The colour of the frame of a focused window.
pub const FOCUSED_FRAME_COLOR: u32 = 0x4A90E2;

/// The colour of the frame of any other window.
pub const UNFOCUSED_FRAME_COLOR: u32 = 0x7F7F7F;

/// The colour of the content area of a window.
pub const CONTENT_COLOR: u32 = 0xFFFFFF;

/// The colour behind the windows.
pub const BACKGROUND_COLOR: u32 = 0x000000;

/// The height of the title bar of a window.
pub const TITLE_BAR_HEIGHT: u32 = 30;

/// The height of the border below the title bar.
pub const BORDER_WIDTH: u32 = 2;

/// Whether the pixel (`px`, `py`) lies in the rectangle of the given
/// width and height whose top left corner is (`x`, `y`).
pub open spec fn in_rectangle(px: int, py: int, x: u32, y: u32, width: u32, height: u32) -> bool {
    x <= px < x + width && y <= py < y + height
}

/// The abstract state of a framebuffer.
pub struct FramebufferState {
    pub width: u32,
    pub height: u32,
    pub format: PixelFormat,
    /// The bytes of a row in device memory.
    pub stride: u32,
    /// The address of the device memory.
    pub buffer: usize,
    /// The size of the device memory in bytes.
    pub size: usize,
    /// The colour words, row by row from the top, each row from the left.
    pub pixels: Seq<Seq<u32>>,
}

impl FramebufferState {
    /// There is a colour word for each pixel.
    pub open spec fn wf(self) -> bool {
        &&& self.pixels.len() == self.height
        &&& forall|py: int| 0 <= py < self.height ==> (#[trigger] self.pixels[py]).len() == self.width
    }

    /// The framebuffer with every pixel in the colour `color`.
    pub open spec fn cleared(self, color: u32) -> FramebufferState {
        FramebufferState {
            pixels: Seq::new(
                self.height as nat,
                |py: int| Seq::new(self.width as nat, |px: int| color),
            ),
            ..self
        }
    }

    /// The framebuffer with the pixel (`x`, `y`) in the colour `color`.
    pub open spec fn with_pixel(self, x: u32, y: u32, color: u32) -> FramebufferState {
        FramebufferState {
            pixels: self.pixels.update(y as int, self.pixels[y as int].update(x as int, color)),
            ..self
        }
    }

    /// The framebuffer with the part of the rectangle that lies on the
    /// screen in the colour `color`.
    pub open spec fn with_rectangle(
        self,
        x: u32,
        y: u32,
        width: u32,
        height: u32,
        color: u32,
    ) -> FramebufferState {
        FramebufferState {
            pixels: Seq::new(
                self.height as nat,
                |py: int|
                    Seq::new(
                        self.width as nat,
                        |px: int|
                            if in_rectangle(px, py, x, y, width, height) {
                                color
                            } else {
                                self.pixels[py][px]
                            },
                    ),
            ),
            ..self
        }
    }

    /// The framebuffer with a window painted over it: the title bar, the
    /// border below it, and the white content area.
    pub open spec fn with_window(
        self,
        x: i32,
        y: i32,
        width: u32,
        height: u32,
        focused: bool,
    ) -> FramebufferState {
        let frame = if focused {
            FOCUSED_FRAME_COLOR
        } else {
            UNFOCUSED_FRAME_COLOR
        };
        let rest = if height >= TITLE_BAR_HEIGHT + BORDER_WIDTH {
            (height - TITLE_BAR_HEIGHT - BORDER_WIDTH) as u32
        } else {
            0u32
        };
        self.with_rectangle(x as u32, y as u32, width, TITLE_BAR_HEIGHT, frame).with_rectangle(
            x as u32,
            y.wrapping_add(30) as u32,
            width,
            BORDER_WIDTH,
            frame,
        ).with_rectangle(x as u32, y.wrapping_add(32) as u32, width, rest, CONTENT_COLOR)
    }
}

/// What creating a framebuffer answers when the page allocator stands at
/// `next_addr`. A side of no pixels, and a picture whose rows or whose
/// whole do not fit 32 bits, are refused as dimensions; an allocator
/// that cannot serve the bytes is reported as out of memory.
pub open spec fn framebuffer_result(next_addr: u64, width: u32, height: u32, format: PixelFormat) -> Result<
    (),
    GraphicsError,
> {
    if width == 0 || height == 0 {
        Err(GraphicsError::InvalidDimensions)
    } else if width * format.spec_bytes_per_pixel() * height > u32::MAX {
        Err(GraphicsError::InvalidDimensions)
    } else if allocation_result(
        next_addr,
        (width * format.spec_bytes_per_pixel() * height) as usize,
    ) is Err {
        Err(GraphicsError::OutOfMemory)
    } else {
        Ok(())
    }
}

/// The framebuffer that is created when the page allocator stands at
/// `next_addr`: its device memory is what the allocator hands out, and
/// every pixel is zero.
pub open spec fn new_framebuffer(next_addr: u64, width: u32, height: u32, format: PixelFormat) -> FramebufferState {
    FramebufferState {
        width,
        height,
        format,
        stride: (width * format.spec_bytes_per_pixel()) as u32,
        buffer: next_addr as usize,
        size: (width * format.spec_bytes_per_pixel() * height) as usize,
        pixels: Seq::new(height as nat, |py: int| Seq::new(width as nat, |px: int| 0u32)),
    }
}

/// The next free address of the page allocator after a framebuffer was
/// asked for.
pub open spec fn pages_after_framebuffer(
    next_addr: u64,
    width: u32,
    height: u32,
    format: PixelFormat,
) -> u64 {
    if framebuffer_result(next_addr, width, height, format) is Ok {
        after_allocation(next_addr, (width * format.spec_bytes_per_pixel() * height) as usize)
    } else {
        next_addr
    }
}

/// A picture in memory.
#[derive(Debug)]
pub struct Framebuffer {
    width: u32,
    height: u32,
    format: PixelFormat,
    stride: u32,
    buffer: usize,
    size: usize,
    rows: Vec<Vec<u32>>,
}

impl View for Framebuffer {
    type V = FramebufferState;

    closed spec fn view(&self) -> FramebufferState {
        FramebufferState {
            width: self.width,
            height: self.height,
            format: self.format,
            stride: self.stride,
            buffer: self.buffer,
            size: self.size,
            pixels: Seq::new(self.rows@.len(), |py: int| self.rows@[py]@),
        }
    }
}

/// A row of `width` pixels in the colour `color`.
fn plain_row(width: u32, color: u32) -> (row: Vec<u32>)
    ensures
        row@ == Seq::new(width as nat, |px: int| color),
{
    let mut row: Vec<u32> = Vec::new();
    let mut px: u32 = 0;
    while px < width
        invariant
            px <= width,
            row@ =~= Seq::new(px as nat, |k: int| color),
        decreases width - px,
    {
        row.push(color);
        px += 1;
    }
    row
}

/// `height` rows of `width` pixels in the colour `color`.
fn plain_rows(width: u32, height: u32, color: u32) -> (rows: Vec<Vec<u32>>)
    ensures
        rows@.len() == height,
        forall|py: int| 0 <= py < height ==> (#[trigger] rows@[py])@ == Seq::new(
            width as nat,
            |px: int| color,
        ),
{
    let mut rows: Vec<Vec<u32>> = Vec::new();
    let mut py: u32 = 0;
    while py < height
        invariant
            py <= height,
            rows@.len() == py,
            forall|k: int| 0 <= k < py ==> (#[trigger] rows@[k])@ == Seq::new(
                width as nat,
                |px: int| color,
            ),
        decreases height - py,
    {
        rows.push(plain_row(width, color));
        py += 1;
    }
    rows
}

/// Puts the colour `color` into the pixels `from..to` of `row`.
fn fill_row(row: &mut Vec<u32>, from: u32, to: u32, color: u32)
    requires
        from <= to <= old(row)@.len(),
    ensures
        final(row)@ == Seq::new(
            old(row)@.len(),
            |px: int|
                if from <= px < to {
                    color
                } else {
                    old(row)@[px]
                },
        ),
{
    let mut px: u32 = from;
    while px < to
        invariant
            from <= px <= to,
            to <= row@.len(),
            row@ =~= Seq::new(
                old(row)@.len(),
                |k: int|
                    if from <= k < px {
                        color
                    } else {
                        old(row)@[k]
                    },
            ),
        decreases to - px,
    {
        row[px as usize] = color;
        px += 1;
    }
}

impl Framebuffer {
    /// Creates a framebuffer of `width` by `height` pixels whose device
    /// memory comes from `pages`. Every pixel starts as zero.
    pub fn new(pages: &mut PageAllocator, width: u32, height: u32, format: PixelFormat) -> (r:
        Result<Framebuffer, GraphicsError>)
        requires
            old(pages).wf(),
        ensures
            final(pages).wf(),
            final(pages)@ == pages_after_framebuffer(old(pages)@, width, height, format),
            match r {
                Ok(fb) => framebuffer_result(old(pages)@, width, height, format) is Ok && fb@
                    == new_framebuffer(old(pages)@, width, height, format) && fb@.wf(),
                Err(e) => framebuffer_result(old(pages)@, width, height, format) == Err::<
                    (),
                    GraphicsError,
                >(e),
            },
    {
        if width == 0 || height == 0 {
            return Err(GraphicsError::InvalidDimensions);
        }
        let bytes_per_pixel = format.bytes_per_pixel();
        assert(width * bytes_per_pixel <= 0x4_0000_0000) by (nonlinear_arith)
            requires
                width <= 0x1_0000_0000,
                bytes_per_pixel <= 4,
        ;
        let row: u64 = (width as u64) * (bytes_per_pixel as u64);
        assert(row == width * format.spec_bytes_per_pixel());
        if row > u32::MAX as u64 {
            assert(width * format.spec_bytes_per_pixel() * height > u32::MAX) by (nonlinear_arith)
                requires
                    width * format.spec_bytes_per_pixel() > u32::MAX,
                    height >= 1,
            ;
            return Err(GraphicsError::InvalidDimensions);
        }
        assert(row * height <= 0xffff_ffff * 0xffff_ffff) by (nonlinear_arith)
            requires
                row <= 0xffff_ffff,
                height <= 0xffff_ffff,
        ;
        let total: u64 = row * (height as u64);
        assert(total == width * format.spec_bytes_per_pixel() * height);
        if total > u32::MAX as u64 {
            return Err(GraphicsError::InvalidDimensions);
        }
        assert(width * bytes_per_pixel <= total) by (nonlinear_arith)
            requires
                total == (width * bytes_per_pixel) * height,
                height >= 1,
        ;
        let stride: u32 = width * bytes_per_pixel;
        let size = total as usize;
        let buffer = match crate::memory::allocate_pages(pages, size) {
            Ok(addr) => addr,
            Err(_) => {
                return Err(GraphicsError::OutOfMemory);
            },
        };
        let rows = plain_rows(width, height, 0);
        let fb = Framebuffer {
            width,
            height,
            format,
            stride,
            buffer: #[verifier::truncate]
            (buffer as usize),
            size,
            rows,
        };
        assert(fb@.pixels =~~= new_framebuffer(old(pages)@, width, height, format).pixels);
        Ok(fb)
    }

    /// The address of the device memory.
    pub fn get_buffer_ptr(&self) -> (addr: usize)
        ensures
            addr == self@.buffer,
    {
        self.buffer
    }

    pub fn get_width(&self) -> (width: u32)
        ensures
            width == self@.width,
    {
        self.width
    }

    pub fn get_height(&self) -> (height: u32)
        ensures
            height == self@.height,
    {
        self.height
    }

    pub fn get_stride(&self) -> (stride: u32)
        ensures
            stride == self@.stride,
    {
        self.stride
    }

    pub fn get_format(&self) -> (format: PixelFormat)
        ensures
            format == self@.format,
    {
        self.format
    }

    /// The colour of the pixel (`x`, `y`), if it is on the screen.
    pub fn pixel(&self, x: u32, y: u32) -> (color: Option<u32>)
        requires
            self@.wf(),
        ensures
            color == if x < self@.width && y < self@.height {
                Some(self@.pixels[y as int][x as int])
            } else {
                None
            },
    {
        if x < self.width && y < self.height {
            assert(self@.pixels[y as int].len() == self.width);
            Some(self.rows[y as usize][x as usize])
        } else {
            None
        }
    }

    /// Puts every pixel in the colour `color`.
    pub fn clear(&mut self, color: u32) -> (r: Result<(), GraphicsError>)
        requires
            old(self)@.wf(),
        ensures
            final(self)@.wf(),
            r == Ok::<(), GraphicsError>(()),
            final(self)@ == old(self)@.cleared(color),
    {
        self.rows = plain_rows(self.width, self.height, color);
        assert(self@.pixels =~~= old(self)@.cleared(color).pixels);
        Ok(())
    }

    /// Puts the pixel (`x`, `y`) in the colour `color`. A pixel off the
    /// screen is refused.
    pub fn draw_pixel(&mut self, x: u32, y: u32, color: u32) -> (r: Result<(), GraphicsError>)
        requires
            old(self)@.wf(),
        ensures
            final(self)@.wf(),
            r == if x < old(self)@.width && y < old(self)@.height {
                Ok::<(), GraphicsError>(())
            } else {
                Err::<(), GraphicsError>(GraphicsError::InvalidDimensions)
            },
            final(self)@ == if r is Ok {
                old(self)@.with_pixel(x, y, color)
            } else {
                old(self)@
            },
    {
        if x >= self.width || y >= self.height {
            return Err(GraphicsError::InvalidDimensions);
        }
        assert(self@.pixels[y as int].len() == self.width);
        self.rows[y as usize][x as usize] = color;
        assert(self@.pixels =~~= old(self)@.with_pixel(x, y, color).pixels);
        Ok(())
    }

    /// Puts the part of a rectangle that lies on the screen in the colour
    /// `color`. The rest of the rectangle is left out without a word.
    pub fn draw_rectangle(&mut self, x: u32, y: u32, width: u32, height: u32, color: u32) -> (r:
        Result<(), GraphicsError>)
        requires
            old(self)@.wf(),
        ensures
            final(self)@.wf(),
            r == Ok::<(), GraphicsError>(()),
            final(self)@ == old(self)@.with_rectangle(x, y, width, height, color),
    {
        let ghost pre = self@;
        let x_end: u32 = if (x as u64) + (width as u64) < self.width as u64 {
            x + width
        } else {
            self.width
        };
        let y_end: u32 = if (y as u64) + (height as u64) < self.height as u64 {
            y + height
        } else {
            self.height
        };
        if x >= x_end || y >= y_end {
            assert(self@.pixels =~~= pre.with_rectangle(x, y, width, height, color).pixels);
            return Ok(());
        }
        let mut py: u32 = y;
        while py < y_end
            invariant
                y <= py <= y_end,
                y_end <= self.height,
                x < x_end <= self.width,
                x_end == if x + width < self.width {
                    (x + width) as u32
                } else {
                    self.width
                },
                y_end == if y + height < self.height {
                    (y + height) as u32
                } else {
                    self.height
                },
                self.width == pre.width,
                self.height == pre.height,
                self.format == pre.format,
                self.stride == pre.stride,
                self.buffer == pre.buffer,
                self.size == pre.size,
                pre.wf(),
                self.rows@.len() == pre.height,
                forall|qy: int|
                    0 <= qy < pre.height ==> (#[trigger] self.rows@[qy])@ == if y <= qy < py {
                        Seq::new(
                            pre.width as nat,
                            |px: int|
                                if x <= px < x_end {
                                    color
                                } else {
                                    pre.pixels[qy][px]
                                },
                        )
                    } else {
                        pre.pixels[qy]
                    },
            decreases y_end - py,
        {
            assert(self.rows@[py as int]@ == pre.pixels[py as int]);
            assert(pre.pixels[py as int].len() == pre.width);
            fill_row(&mut self.rows[py as usize], x, x_end, color);
            py += 1;
        }
        assert(self@.pixels =~~= pre.with_rectangle(x, y, width, height, color).pixels);
        Ok(())
    }

    /// Paints a window: the title bar, the border below it, and the white
    /// content area.
    fn draw_window(&mut self, x: i32, y: i32, width: u32, height: u32, focused: bool)
        requires
            old(self)@.wf(),
        ensures
            final(self)@.wf(),
            final(self)@ == old(self)@.with_window(x, y, width, height, focused),
    {
        let frame_color = if focused {
            FOCUSED_FRAME_COLOR
        } else {
            UNFOCUSED_FRAME_COLOR
        };
        let rest = if height >= TITLE_BAR_HEIGHT + BORDER_WIDTH {
            height - TITLE_BAR_HEIGHT - BORDER_WIDTH
        } else {
            0
        };
        let left = #[verifier::truncate]
        (x as u32);
        let _ = self.draw_rectangle(
            left,
            #[verifier::truncate]
            (y as u32),
            width,
            TITLE_BAR_HEIGHT,
            frame_color,
        );
        let _ = self.draw_rectangle(
            left,
            #[verifier::truncate]
            (y.wrapping_add(30) as u32),
            width,
            BORDER_WIDTH,
            frame_color,
        );
        let _ = self.draw_rectangle(
            left,
            #[verifier::truncate]
            (y.wrapping_add(32) as u32),
            width,
            rest,
            CONTENT_COLOR,
        );
    }
}

/// The abstract state of a surface.
pub struct SurfaceState {
    pub id: u32,
    pub x: i32,
    pub y: i32,
    pub width: u32,
    pub height: u32,
    pub format: PixelFormat,
    pub buffer: Option<usize>,
    pub visible: bool,
    pub z_order: i32,
}

/// A rectangle of content that a window can show.
#[derive(Debug)]
pub struct Surface {
    id: u32,
    x: i32,
    y: i32,
    width: u32,
    height: u32,
    format: PixelFormat,
    buffer: Option<usize>,
    visible: bool,
    z_order: i32,
}

impl View for Surface {
    type V = SurfaceState;

    closed spec fn view(&self) -> SurfaceState {
        SurfaceState {
            id: self.id,
            x: self.x,
            y: self.y,
            width: self.width,
            height: self.height,
            format: self.format,
            buffer: self.buffer,
            visible: self.visible,
            z_order: self.z_order,
        }
    }
}

impl SurfaceState {
    /// A new surface: at the origin, visible, without a buffer.
    pub open spec fn fresh(id: u32, width: u32, height: u32, format: PixelFormat) -> SurfaceState {
        SurfaceState {
            id,
            x: 0,
            y: 0,
            width,
            height,
            format,
            buffer: None,
            visible: true,
            z_order: 0,
        }
    }
}

impl Surface {
    /// A new surface: at the origin, visible, without a buffer.
    pub fn new(id: u32, width: u32, height: u32, format: PixelFormat) -> (r: Result<
        Surface,
        GraphicsError,
    >)
        ensures
            r is Ok,
            r->Ok_0@ == SurfaceState::fresh(id, width, height, format),
    {
        Ok(
            Surface {
                id,
                x: 0,
                y: 0,
                width,
                height,
                format,
                buffer: None,
                visible: true,
                z_order: 0,
            },
        )
    }

    pub fn set_position(&mut self, x: i32, y: i32)
        ensures
            final(self)@ == (SurfaceState { x, y, ..old(self)@ }),
    {
        self.x = x;
        self.y = y;
    }

    /// Resizes the surface. A side of no pixels is refused.
    pub fn set_size(&mut self, width: u32, height: u32) -> (r: Result<(), GraphicsError>)
        ensures
            r == if width == 0 || height == 0 {
                Err::<(), GraphicsError>(GraphicsError::InvalidDimensions)
            } else {
                Ok::<(), GraphicsError>(())
            },
            final(self)@ == if r is Ok {
                SurfaceState { width, height, ..old(self)@ }
            } else {
                old(self)@
            },
    {
        if width == 0 || height == 0 {
            return Err(GraphicsError::InvalidDimensions);
        }
        self.width = width;
        self.height = height;
        Ok(())
    }

    pub fn attach_buffer(&mut self, buffer: usize)
        ensures
            final(self)@ == (SurfaceState { buffer: Some(buffer), ..old(self)@ }),
    {
        self.buffer = Some(buffer);
    }

    pub fn set_visible(&mut self, visible: bool)
        ensures
            final(self)@ == (SurfaceState { visible, ..old(self)@ }),
    {
        self.visible = visible;
    }

    pub fn set_z_order(&mut self, z_order: i32)
        ensures
            final(self)@ == (SurfaceState { z_order, ..old(self)@ }),
    {
        self.z_order = z_order;
    }

    /// The position and the size: x, y, width, height.
    pub fn get_bounds(&self) -> (bounds: (i32, i32, u32, u32))
        ensures
            bounds == (self@.x, self@.y, self@.width, self@.height),
    {
        (self.x, self.y, self.width, self.height)
    }

    /// Whether the surface is shown.
    pub fn is_visible(&self) -> (visible: bool)
        ensures
            visible == self@.visible,
    {
        self.visible
    }
}

/// The abstract state of a window.
pub struct WindowState {
    pub id: u32,
    pub title: Seq<char>,
    pub x: i32,
    pub y: i32,
    pub width: u32,
    pub height: u32,
    pub surface: Option<u32>,
    pub focused: bool,
    pub minimized: bool,
    pub maximized: bool,
}

/// A window on the screen.
#[derive(Debug)]
pub struct Window {
    id: u32,
    title: &'static str,
    x: i32,
    y: i32,
    width: u32,
    height: u32,
    surface: Option<u32>,
    focused: bool,
    minimized: bool,
    maximized: bool,
}

impl View for Window {
    type V = WindowState;

    closed spec fn view(&self) -> WindowState {
        WindowState {
            id: self.id,
            title: self.title@,
            x: self.x,
            y: self.y,
            width: self.width,
            height: self.height,
            surface: self.surface,
            focused: self.focused,
            minimized: self.minimized,
            maximized: self.maximized,
        }
    }
}

impl WindowState {
    /// A new window: without a surface, neither focused nor minimized nor
    /// maximized.
    pub open spec fn fresh(id: u32, title: Seq<char>, x: i32, y: i32, width: u32, height: u32) -> WindowState {
        WindowState {
            id,
            title,
            x,
            y,
            width,
            height,
            surface: None,
            focused: false,
            minimized: false,
            maximized: false,
        }
    }
}

impl Window {
    /// A new window: without a surface, neither focused nor minimized nor
    /// maximized.
    pub fn new(id: u32, title: &'static str, x: i32, y: i32, width: u32, height: u32) -> (window:
        Window)
        ensures
            window@ == WindowState::fresh(id, title@, x, y, width, height),
    {
        Window {
            id,
            title,
            x,
            y,
            width,
            height,
            surface: None,
            focused: false,
            minimized: false,
            maximized: false,
        }
    }

    pub fn attach_surface(&mut self, surface_id: u32)
        ensures
            final(self)@ == (WindowState { surface: Some(surface_id), ..old(self)@ }),
    {
        self.surface = Some(surface_id);
    }

    pub fn set_focused(&mut self, focused: bool)
        ensures
            final(self)@ == (WindowState { focused, ..old(self)@ }),
    {
        self.focused = focused;
    }

    pub fn set_minimized(&mut self, minimized: bool)
        ensures
            final(self)@ == (WindowState { minimized, ..old(self)@ }),
    {
        self.minimized = minimized;
    }

    pub fn set_maximized(&mut self, maximized: bool)
        ensures
            final(self)@ == (WindowState { maximized, ..old(self)@ }),
    {
        self.maximized = maximized;
    }

    pub fn move_window(&mut self, x: i32, y: i32)
        ensures
            final(self)@ == (WindowState { x, y, ..old(self)@ }),
    {
        self.x = x;
        self.y = y;
    }

    /// Resizes the window. A side of no pixels is refused.
    pub fn resize_window(&mut self, width: u32, height: u32) -> (r: Result<(), GraphicsError>)
        ensures
            r == if width == 0 || height == 0 {
                Err::<(), GraphicsError>(GraphicsError::InvalidDimensions)
            } else {
                Ok::<(), GraphicsError>(())
            },
            final(self)@ == if r is Ok {
                WindowState { width, height, ..old(self)@ }
            } else {
                old(self)@
            },
    {
        if width == 0 || height == 0 {
            return Err(GraphicsError::InvalidDimensions);
        }
        self.width = width;
        self.height = height;
        Ok(())
    }

    /// The position and the size: x, y, width, height.
    pub fn get_bounds(&self) -> (bounds: (i32, i32, u32, u32))
        ensures
            bounds == (self@.x, self@.y, self@.width, self@.height),
    {
        (self.x, self.y, self.width, self.height)
    }

    /// A window is visible unless it is minimized.
    pub fn is_visible(&self) -> (visible: bool)
        ensures
            visible == !self@.minimized,
    {
        !self.minimized
    }
}

/// The abstract state of the compositor.
pub struct CompositorState {
    pub framebuffer: Option<FramebufferState>,
    pub surfaces: Map<u32, SurfaceState>,
    pub windows: Map<u32, WindowState>,
    pub next_surface_id: u32,
    pub next_window_id: u32,
    pub focused_window: Option<u32>,
}

impl CompositorState {
    /// The framebuffer, if there is one, has a colour word for each pixel,
    /// and window ids start at 1.
    pub open spec fn wf(self) -> bool {
        &&& self.framebuffer is Some ==> self.framebuffer->Some_0.wf()
        &&& self.next_window_id >= 1
    }

    /// The compositor at start-up.
    pub open spec fn empty() -> CompositorState {
        CompositorState {
            framebuffer: None,
            surfaces: Map::empty(),
            windows: Map::empty(),
            next_surface_id: 1,
            next_window_id: 1,
            focused_window: None,
        }
    }

    /// What creating a surface or a window answers when the id counter
    /// stands at `next_id`.
    pub open spec fn id_result(next_id: u32) -> Result<u32, GraphicsError> {
        if next_id < u32::MAX {
            Ok(next_id)
        } else {
            Err(GraphicsError::OutOfMemory)
        }
    }

    /// The compositor after `create_surface`.
    pub open spec fn after_create_surface(self, width: u32, height: u32, format: PixelFormat) -> CompositorState {
        if self.next_surface_id < u32::MAX {
            CompositorState {
                surfaces: self.surfaces.insert(
                    self.next_surface_id,
                    SurfaceState::fresh(self.next_surface_id, width, height, format),
                ),
                next_surface_id: (self.next_surface_id + 1) as u32,
                ..self
            }
        } else {
            self
        }
    }

    /// The compositor after `create_window`.
    pub open spec fn after_create_window(
        self,
        title: Seq<char>,
        x: i32,
        y: i32,
        width: u32,
        height: u32,
    ) -> CompositorState {
        if self.next_window_id < u32::MAX {
            CompositorState {
                windows: self.windows.insert(
                    self.next_window_id,
                    WindowState::fresh(self.next_window_id, title, x, y, width, height),
                ),
                next_window_id: (self.next_window_id + 1) as u32,
                ..self
            }
        } else {
            self
        }
    }

    /// What `attach_surface_to_window` answers.
    pub open spec fn attach_result(self, window_id: u32, surface_id: u32) -> Result<
        (),
        GraphicsError,
    > {
        if self.surfaces.contains_key(surface_id) && self.windows.contains_key(window_id) {
            Ok(())
        } else {
            Err(GraphicsError::InvalidFramebuffer)
        }
    }

    /// The compositor after `attach_surface_to_window`.
    pub open spec fn after_attach(self, window_id: u32, surface_id: u32) -> CompositorState {
        if self.attach_result(window_id, surface_id) is Ok {
            CompositorState {
                windows: self.windows.insert(
                    window_id,
                    WindowState { surface: Some(surface_id), ..self.windows[window_id] },
                ),
                ..self
            }
        } else {
            self
        }
    }

    /// The windows after the focused one, if it exists, lost the focus.
    pub open spec fn unfocused_windows(self) -> Map<u32, WindowState> {
        match self.focused_window {
            Some(id) => if self.windows.contains_key(id) {
                self.windows.insert(id, WindowState { focused: false, ..self.windows[id] })
            } else {
                self.windows
            },
            None => self.windows,
        }
    }

    /// What `set_window_focus` answers.
    pub open spec fn focus_result(self, window_id: Option<u32>) -> Result<(), GraphicsError> {
        match window_id {
            Some(id) => if self.windows.contains_key(id) {
                Ok(())
            } else {
                Err(GraphicsError::InvalidFramebuffer)
            },
            None => Ok(()),
        }
    }

    /// The compositor after `set_window_focus`. The window that had the
    /// focus loses it in any case, also where the new one is unknown; the
    /// record of who has the focus then stays as it was.
    pub open spec fn after_focus(self, window_id: Option<u32>) -> CompositorState {
        let windows = self.unfocused_windows();
        match window_id {
            Some(id) => if self.windows.contains_key(id) {
                CompositorState {
                    windows: windows.insert(id, WindowState { focused: true, ..windows[id] }),
                    focused_window: Some(id),
                    ..self
                }
            } else {
                CompositorState { windows, ..self }
            },
            None => CompositorState { windows, focused_window: None, ..self },
        }
    }

    /// Whether the window `id` is painted: it exists, it is not minimized,
    /// and its surface exists and is visible.
    pub open spec fn is_painted(self, id: u32) -> bool {
        &&& self.windows.contains_key(id)
        &&& !self.windows[id].minimized
        &&& self.windows[id].surface is Some
        &&& self.surfaces.contains_key(self.windows[id].surface->Some_0)
        &&& self.surfaces[self.windows[id].surface->Some_0].visible
    }

    /// The picture after the windows with the ids 1 to `upto` were painted,
    /// in this order, over the cleared framebuffer `fb`.
    pub open spec fn painted(self, fb: FramebufferState, upto: nat) -> FramebufferState
        decreases upto,
    {
        if upto == 0 {
            fb.cleared(BACKGROUND_COLOR)
        } else {
            let below = self.painted(fb, (upto - 1) as nat);
            if self.is_painted(upto as u32) {
                let w = self.windows[upto as u32];
                below.with_window(w.x, w.y, w.width, w.height, w.focused)
            } else {
                below
            }
        }
    }

    /// What `composite` answers.
    pub open spec fn composite_result(self) -> Result<(), GraphicsError> {
        if self.framebuffer is Some {
            Ok(())
        } else {
            Err(GraphicsError::InvalidFramebuffer)
        }
    }

    /// The compositor after `composite`: the framebuffer shows the
    /// background and over it every painted window, later ids over
    /// earlier ones.
    pub open spec fn after_composite(self) -> CompositorState {
        match self.framebuffer {
            Some(fb) => CompositorState {
                framebuffer: Some(self.painted(fb, (self.next_window_id - 1) as nat)),
                ..self
            },
            None => self,
        }
    }
}

/// Owns the framebuffer, the surfaces and the windows.
#[derive(Debug)]
pub struct Compositor {
    framebuffer: Option<Framebuffer>,
    surfaces: BTreeMap<u32, Surface>,
    windows: BTreeMap<u32, Window>,
    next_surface_id: u32,
    next_window_id: u32,
    focused_window: Option<u32>,
}

impl View for Compositor {
    type V = CompositorState;

    closed spec fn view(&self) -> CompositorState {
        CompositorState {
            framebuffer: match self.framebuffer {
                Some(fb) => Some(fb@),
                None => None,
            },
            surfaces: self.surfaces@.map_values(|s: Surface| s@),
            windows: self.windows@.map_values(|w: Window| w@),
            next_surface_id: self.next_surface_id,
            next_window_id: self.next_window_id,
            focused_window: self.focused_window,
        }
    }
}

impl Compositor {
    /// A compositor without a framebuffer, a surface or a window.
    pub fn new() -> (compositor: Compositor)
        ensures
            compositor@ == CompositorState::empty(),
            compositor@.wf(),
    {
        let compositor = Compositor {
            framebuffer: None,
            surfaces: BTreeMap::new(),
            windows: BTreeMap::new(),
            next_surface_id: 1,
            next_window_id: 1,
            focused_window: None,
        };
        assert(compositor@.surfaces =~= Map::empty());
        assert(compositor@.windows =~= Map::empty());
        compositor
    }

    /// Gives the compositor a new framebuffer, which replaces the one it
    /// had. Where none can be created, the old one stays.
    pub fn initialize_framebuffer(
        &mut self,
        pages: &mut PageAllocator,
        width: u32,
        height: u32,
        format: PixelFormat,
    ) -> (r: Result<(), GraphicsError>)
        requires
            old(self)@.wf(),
            old(pages).wf(),
        ensures
            final(self)@.wf(),
            final(pages).wf(),
            r == framebuffer_result(old(pages)@, width, height, format),
            final(pages)@ == pages_after_framebuffer(old(pages)@, width, height, format),
            final(self)@ == if r is Ok {
                CompositorState {
                    framebuffer: Some(new_framebuffer(old(pages)@, width, height, format)),
                    ..old(self)@
                }
            } else {
                old(self)@
            },
    {
        match Framebuffer::new(pages, width, height, format) {
            Ok(fb) => {
                self.framebuffer = Some(fb);
                Ok(())
            },
            Err(e) => Err(e),
        }
    }

    /// Creates a surface and answers its id.
    pub fn create_surface(&mut self, width: u32, height: u32, format: PixelFormat) -> (r: Result<
        u32,
        GraphicsError,
    >)
        ensures
            r == CompositorState::id_result(old(self)@.next_surface_id),
            final(self)@ == old(self)@.after_create_surface(width, height, format),
            old(self)@.wf() ==> final(self)@.wf(),
    {
        if self.next_surface_id == u32::MAX {
            return Err(GraphicsError::OutOfMemory);
        }
        let surface_id = self.next_surface_id;
        self.next_surface_id += 1;
        let surface = match Surface::new(surface_id, width, height, format) {
            Ok(surface) => surface,
            Err(e) => {
                return Err(e);
            },
        };
        self.surfaces.insert(surface_id, surface);
        assert(self@.surfaces =~= old(self)@.after_create_surface(width, height, format).surfaces);
        Ok(surface_id)
    }

    /// Creates a window and answers its id.
    pub fn create_window(&mut self, title: &'static str, x: i32, y: i32, width: u32, height: u32) -> (r:
        Result<u32, GraphicsError>)
        ensures
            r == CompositorState::id_result(old(self)@.next_window_id),
            final(self)@ == old(self)@.after_create_window(title@, x, y, width, height),
            old(self)@.wf() ==> final(self)@.wf(),
    {
        if self.next_window_id == u32::MAX {
            return Err(GraphicsError::OutOfMemory);
        }
        let window_id = self.next_window_id;
        self.next_window_id += 1;
        let window = Window::new(window_id, title, x, y, width, height);
        self.windows.insert(window_id, window);
        assert(self@.windows =~= old(self)@.after_create_window(
            title@,
            x,
            y,
            width,
            height,
        ).windows);
        Ok(window_id)
    }

    /// The surface `surface_id`, to be changed in place.
    pub fn get_surface_mut(&mut self, surface_id: u32) -> (found: Option<&mut Surface>)
        ensures
            found is Some <==> old(self)@.surfaces.contains_key(surface_id),
            found is Some ==> found->Some_0@ == old(self)@.surfaces[surface_id] && final(self)@ == (
            CompositorState {
                surfaces: old(self)@.surfaces.insert(surface_id, final(found->Some_0)@),
                ..old(self)@
            }),
            found is None ==> final(self)@ == old(self)@,
    {
        let ghost pre = self@;
        let ghost before = self.surfaces@;
        assert(pre.surfaces.contains_key(surface_id) == before.contains_key(surface_id));
        let found = btree_get_mut(&mut self.surfaces, surface_id);
        proof {
            if found is Some {
                assert(before.insert(surface_id, *final(found->Some_0)).map_values(
                    |s: Surface| s@,
                ) =~= pre.surfaces.insert(surface_id, final(found->Some_0)@));
            }
        }
        found
    }

    /// The window `window_id`, to be changed in place.
    pub fn get_window_mut(&mut self, window_id: u32) -> (found: Option<&mut Window>)
        ensures
            found is Some <==> old(self)@.windows.contains_key(window_id),
            found is Some ==> found->Some_0@ == old(self)@.windows[window_id] && final(self)@ == (
            CompositorState {
                windows: old(self)@.windows.insert(window_id, final(found->Some_0)@),
                ..old(self)@
            }),
            found is None ==> final(self)@ == old(self)@,
    {
        let ghost pre = self@;
        let ghost before = self.windows@;
        assert(pre.windows.contains_key(window_id) == before.contains_key(window_id));
        let found = btree_get_mut(&mut self.windows, window_id);
        proof {
            if found is Some {
                assert(before.insert(window_id, *final(found->Some_0)).map_values(
                    |w: Window| w@,
                ) =~= pre.windows.insert(window_id, final(found->Some_0)@));
            }
        }
        found
    }

    /// Shows the surface `surface_id` in the window `window_id`.
    pub fn attach_surface_to_window(&mut self, window_id: u32, surface_id: u32) -> (r: Result<
        (),
        GraphicsError,
    >)
        ensures
            r == old(self)@.attach_result(window_id, surface_id),
            final(self)@ == old(self)@.after_attach(window_id, surface_id),
            old(self)@.wf() ==> final(self)@.wf(),
    {
        let ghost pre = self@;
        assert(pre.surfaces.contains_key(surface_id) == self.surfaces@.contains_key(surface_id));
        assert(pre.windows.contains_key(window_id) == self.windows@.contains_key(window_id));
        if !self.surfaces.contains_key(&surface_id) {
            return Err(GraphicsError::InvalidFramebuffer);
        }
        match self.windows.remove(&window_id) {
            Some(mut window) => {
                window.attach_surface(surface_id);
                self.windows.insert(window_id, window);
                assert(self@.windows =~= pre.after_attach(window_id, surface_id).windows);
                Ok(())
            },
            None => {
                assert(self@.windows =~= pre.windows);
                Err(GraphicsError::InvalidFramebuffer)
            },
        }
    }

    /// Sets the focus of the window `id` to `focused`, if the window exists.
    fn mark_focus(&mut self, id: u32, focused: bool)
        ensures
            final(self)@ == (CompositorState {
                windows: if old(self)@.windows.contains_key(id) {
                    old(self)@.windows.insert(
                        id,
                        WindowState { focused, ..old(self)@.windows[id] },
                    )
                } else {
                    old(self)@.windows
                },
                ..old(self)@
            }),
    {
        let ghost pre = self@;
        assert(pre.windows.contains_key(id) == self.windows@.contains_key(id));
        match self.windows.remove(&id) {
            Some(mut window) => {
                window.set_focused(focused);
                self.windows.insert(id, window);
                assert(self@.windows =~= pre.windows.insert(
                    id,
                    WindowState { focused, ..pre.windows[id] },
                ));
            },
            None => {
                assert(self@.windows =~= pre.windows);
            },
        }
    }

    /// Moves the focus to the window `window_id`, or takes it from every
    /// window where `window_id` is `None`.
    pub fn set_window_focus(&mut self, window_id: Option<u32>) -> (r: Result<(), GraphicsError>)
        ensures
            r == old(self)@.focus_result(window_id),
            final(self)@ == old(self)@.after_focus(window_id),
            old(self)@.wf() ==> final(self)@.wf(),
    {
        let ghost pre = self@;
        if let Some(current_focus) = self.focused_window {
            self.mark_focus(current_focus, false);
        }
        assert(self@.windows == pre.unfocused_windows());
        match window_id {
            Some(id) => {
                assert(self@.windows.contains_key(id) == self.windows@.contains_key(id));
                if self.windows.contains_key(&id) {
                    self.mark_focus(id, true);
                    self.focused_window = Some(id);
                    Ok(())
                } else {
                    Err(GraphicsError::InvalidFramebuffer)
                }
            },
            None => {
                self.focused_window = None;
                Ok(())
            },
        }
    }

    /// Whether the window `id` is painted, and if so, where and how.
    fn painted_window(&self, id: u32) -> (found: Option<(i32, i32, u32, u32, bool)>)
        ensures
            found is Some <==> self@.is_painted(id),
            found is Some ==> found->Some_0 == (
                self@.windows[id].x,
                self@.windows[id].y,
                self@.windows[id].width,
                self@.windows[id].height,
                self@.windows[id].focused,
            ),
    {
        assert(self@.windows.contains_key(id) == self.windows@.contains_key(id));
        match self.windows.get(&id) {
            Some(window) => {
                if window.minimized {
                    return None;
                }
                match window.surface {
                    Some(surface_id) => {
                        assert(self@.surfaces.contains_key(surface_id)
                            == self.surfaces@.contains_key(surface_id));
                        match self.surfaces.get(&surface_id) {
                            Some(surface) => if surface.visible {
                                Some(
                                    (
                                        window.x,
                                        window.y,
                                        window.width,
                                        window.height,
                                        window.focused,
                                    ),
                                )
                            } else {
                                None
                            },
                            None => None,
                        }
                    },
                    None => None,
                }
            },
            None => None,
        }
    }

    /// Paints the picture: the background, and over it every window that
    /// is not minimized and has a visible surface, in the order of the
    /// window ids.
    pub fn composite(&mut self) -> (r: Result<(), GraphicsError>)
        requires
            old(self)@.wf(),
        ensures
            final(self)@.wf(),
            r == old(self)@.composite_result(),
            final(self)@ == old(self)@.after_composite(),
    {
        let ghost pre = self@;
        let mut fb = match self.framebuffer.take() {
            Some(fb) => fb,
            None => {
                assert(self@.surfaces =~= pre.surfaces);
                return Err(GraphicsError::InvalidFramebuffer);
            },
        };
        let ghost before = fb@;
        let _ = fb.clear(BACKGROUND_COLOR);
        let mut id: u32 = 1;
        while id < self.next_window_id
            invariant
                1 <= id <= self.next_window_id,
                self.framebuffer is None,
                self@ == (CompositorState { framebuffer: None, ..pre }),
                fb@.wf(),
                fb@ == pre.painted(before, (id - 1) as nat),
            decreases self.next_window_id - id,
        {
            match self.painted_window(id) {
                Some((x, y, width, height, focused)) => {
                    fb.draw_window(x, y, width, height, focused);
                },
                None => {},
            }
            id += 1;
        }
        self.framebuffer = Some(fb);
        Ok(())
    }

    /// The framebuffer, if there is one.
    pub fn get_framebuffer(&self) -> (fb: Option<&Framebuffer>)
        ensures
            fb is Some <==> self@.framebuffer is Some,
            fb is Some ==> fb->Some_0@ == self@.framebuffer->Some_0,
    {
        self.framebuffer.as_ref()
    }

    /// How many windows there are.
    pub fn get_window_count(&self) -> (count: usize)
        ensures
            count == self@.windows.len(),
    {
        assert(self@.windows.dom() =~= self.windows@.dom());
        self.windows.len()
    }

    /// How many surfaces there are.
    pub fn get_surface_count(&self) -> (count: usize)
        ensures
            count == self@.surfaces.len(),
    {
        assert(self@.surfaces.dom() =~= self.surfaces@.dom());
        self.surfaces.len()
    }
}

/// The state of a place that holds the compositor once it is set up.
pub open spec fn slot_state(slot: Option<Compositor>) -> Option<CompositorState> {
    match slot {
        Some(compositor) => Some(compositor@),
        None => None,
    }
}

/// Sets the compositor up. A second set-up is refused.
pub fn graphics_init(slot: &mut Option<Compositor>) -> (r: Result<(), GraphicsError>)
    ensures
        r == if *old(slot) is Some {
            Err::<(), GraphicsError>(GraphicsError::InvalidFramebuffer)
        } else {
            Ok::<(), GraphicsError>(())
        },
        slot_state(*final(slot)) == if *old(slot) is Some {
            slot_state(*old(slot))
        } else {
            Some(CompositorState::empty())
        },
{
    if slot.is_some() {
        return Err(GraphicsError::InvalidFramebuffer);
    }
    *slot = Some(Compositor::new());
    Ok(())
}

/// The compositor, if it is set up.
pub fn graphics_get_compositor(slot: &mut Option<Compositor>) -> (found: Option<&mut Compositor>)
    ensures
        found is Some <==> *old(slot) is Some,
        found is Some ==> *found->Some_0 == old(slot)->Some_0 && *final(slot) == Some(
            *final(found->Some_0),
        ),
        found is None ==> *final(slot) == *old(slot),
{
    slot.as_mut()
}

/// Gives the compositor a framebuffer.
pub fn graphics_init_framebuffer(
    slot: &mut Option<Compositor>,
    pages: &mut PageAllocator,
    width: u32,
    height: u32,
    format: PixelFormat,
) -> (r: Result<(), GraphicsError>)
    requires
        *old(slot) is Some ==> old(slot)->Some_0@.wf(),
        old(pages).wf(),
    ensures
        final(pages).wf(),
        *final(slot) is Some ==> final(slot)->Some_0@.wf(),
        match slot_state(*old(slot)) {
            Some(before) => r == framebuffer_result(old(pages)@, width, height, format)
                && final(pages)@ == pages_after_framebuffer(old(pages)@, width, height, format)
                && slot_state(*final(slot)) == Some(
                if r is Ok {
                    CompositorState {
                        framebuffer: Some(new_framebuffer(old(pages)@, width, height, format)),
                        ..before
                    }
                } else {
                    before
                },
            ),
            None => r == Err::<(), GraphicsError>(GraphicsError::InvalidFramebuffer)
                && *final(slot) is None && final(pages)@ == old(pages)@,
        },
{
    match slot {
        Some(compositor) => compositor.initialize_framebuffer(pages, width, height, format),
        None => Err(GraphicsError::InvalidFramebuffer),
    }
}

/// Creates a window.
pub fn graphics_create_window(
    slot: &mut Option<Compositor>,
    title: &'static str,
    x: i32,
    y: i32,
    width: u32,
    height: u32,
) -> (r: Result<u32, GraphicsError>)
    ensures
        match slot_state(*old(slot)) {
            Some(before) => r == CompositorState::id_result(before.next_window_id) && slot_state(
                *final(slot),
            ) == Some(before.after_create_window(title@, x, y, width, height)),
            None => r == Err::<u32, GraphicsError>(GraphicsError::InvalidFramebuffer)
                && *final(slot) is None,
        },
        *old(slot) is Some && old(slot)->Some_0@.wf() ==> final(slot)->Some_0@.wf(),
{
    match slot {
        Some(compositor) => compositor.create_window(title, x, y, width, height),
        None => Err(GraphicsError::InvalidFramebuffer),
    }
}

/// Creates a surface.
pub fn graphics_create_surface(
    slot: &mut Option<Compositor>,
    width: u32,
    height: u32,
    format: PixelFormat,
) -> (r: Result<u32, GraphicsError>)
    ensures
        match slot_state(*old(slot)) {
            Some(before) => r == CompositorState::id_result(before.next_surface_id) && slot_state(
                *final(slot),
            ) == Some(before.after_create_surface(width, height, format)),
            None => r == Err::<u32, GraphicsError>(GraphicsError::InvalidFramebuffer)
                && *final(slot) is None,
        },
        *old(slot) is Some && old(slot)->Some_0@.wf() ==> final(slot)->Some_0@.wf(),
{
    match slot {
        Some(compositor) => compositor.create_surface(width, height, format),
        None => Err(GraphicsError::InvalidFramebuffer),
    }
}

/// Shows a surface in a window.
pub fn graphics_attach_surface_to_window(
    slot: &mut Option<Compositor>,
    window_id: u32,
    surface_id: u32,
) -> (r: Result<(), GraphicsError>)
    ensures
        match slot_state(*old(slot)) {
            Some(before) => r == before.attach_result(window_id, surface_id) && slot_state(
                *final(slot),
            ) == Some(before.after_attach(window_id, surface_id)),
            None => r == Err::<(), GraphicsError>(GraphicsError::InvalidFramebuffer)
                && *final(slot) is None,
        },
        *old(slot) is Some && old(slot)->Some_0@.wf() ==> final(slot)->Some_0@.wf(),
{
    match slot {
        Some(compositor) => compositor.attach_surface_to_window(window_id, surface_id),
        None => Err(GraphicsError::InvalidFramebuffer),
    }
}

/// Moves the focus.
pub fn graphics_set_window_focus(slot: &mut Option<Compositor>, window_id: Option<u32>) -> (r:
    Result<(), GraphicsError>)
    ensures
        match slot_state(*old(slot)) {
            Some(before) => r == before.focus_result(window_id) && slot_state(*final(slot))
                == Some(before.after_focus(window_id)),
            None => r == Err::<(), GraphicsError>(GraphicsError::InvalidFramebuffer)
                && *final(slot) is None,
        },
        *old(slot) is Some && old(slot)->Some_0@.wf() ==> final(slot)->Some_0@.wf(),
{
    match slot {
        Some(compositor) => compositor.set_window_focus(window_id),
        None => Err(GraphicsError::InvalidFramebuffer),
    }
}

/// Paints the picture.
pub fn graphics_composite(slot: &mut Option<Compositor>) -> (r: Result<(), GraphicsError>)
    requires
        *old(slot) is Some ==> old(slot)->Some_0@.wf(),
    ensures
        *final(slot) is Some ==> final(slot)->Some_0@.wf(),
        match slot_state(*old(slot)) {
            Some(before) => r == before.composite_result() && slot_state(*final(slot)) == Some(
                before.after_composite(),
            ),
            None => r == Err::<(), GraphicsError>(GraphicsError::InvalidFramebuffer)
                && *final(slot) is None,
        },
{
    match slot {
        Some(compositor) => compositor.composite(),
        None => Err(GraphicsError::InvalidFramebuffer),
    }
}

/// How many windows and how many surfaces there are; none of either
/// before the compositor is set up.
pub fn graphics_get_stats(slot: &Option<Compositor>) -> (stats: (usize, usize))
    ensures
        stats == match slot_state(*slot) {
            Some(state) => (state.windows.len() as usize, state.surfaces.len() as usize),
            None => (0usize, 0usize),
        },
{
    match slot {
        Some(compositor) => (compositor.get_window_count(), compositor.get_surface_count()),
        None => (0, 0),
    }
}

} // verus!
