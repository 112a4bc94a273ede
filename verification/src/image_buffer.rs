//! An image data buffer of RGBA bytes, row-major, top to bottom and
//! left to right, with an integer upscaling factor: each logical pixel
//! covers `scale * scale` device pixels.

use vstd::prelude::*;

verus! {

/// The number of components in an RGBA value (always 4).
pub const RGBA_COMPONENTS: usize = 4;

/// An image data buffer: raw RGBA bytes for a `width * scale` by
/// `height * scale` device-pixel image.
#[derive(Debug, Clone)]
pub struct ImageBuffer {
    data: Vec<u8>,
    width: usize,
    height: usize,
    scale: usize,
}

impl ImageBuffer {
    /// The logical width, in pixels.
    pub closed spec fn spec_width(&self) -> int {
        self.width as int
    }

    /// The logical height, in pixels.
    pub closed spec fn spec_height(&self) -> int {
        self.height as int
    }

    /// The upscaling factor.
    pub closed spec fn spec_scale(&self) -> int {
        self.scale as int
    }

    /// The raw bytes of the buffer.
    pub closed spec fn spec_data(&self) -> Seq<u8> {
        self.data@
    }

    /// The buffer holds exactly one RGBA value for every device pixel.
    pub open spec fn wf(&self) -> bool {
        self.spec_data().len() == RGBA_COMPONENTS * self.spec_width() * self.spec_scale()
            * self.spec_height() * self.spec_scale()
    }

    /// The bounds that keep the byte count of a buffer within address
    /// range, including every partial product along the computation.
    pub open spec fn fits(width: int, height: int, scale: int) -> bool {
        &&& RGBA_COMPONENTS * width <= usize::MAX
        &&& RGBA_COMPONENTS * width * scale <= usize::MAX
        &&& RGBA_COMPONENTS * width * scale * height <= usize::MAX
        &&& RGBA_COMPONENTS * width * scale * height * scale <= usize::MAX
    }

    /// A zero-filled buffer for a `width` by `height` image at the given
    /// upscaling factor.
    pub fn new(width: usize, height: usize, scale: usize) -> (r: ImageBuffer)
        requires
            ImageBuffer::fits(width as int, height as int, scale as int),
        ensures
            r.wf(),
            r.spec_width() == width,
            r.spec_height() == height,
            r.spec_scale() == scale,
            forall|i: int| 0 <= i < r.spec_data().len() ==> r.spec_data()[i] == 0,
    {
        let size = RGBA_COMPONENTS * width * scale * height * scale;
        let mut data: Vec<u8> = Vec::new();
        let mut i: usize = 0;
        while i < size
            invariant
                i <= size,
                data@.len() == i,
                forall|k: int| 0 <= k < i ==> data@[k] == 0,
            decreases size - i,
        {
            data.push(0);
            i += 1;
        }
        ImageBuffer { data, width, height, scale }
    }

    /// The logical width, in pixels.
    pub fn width(&self) -> (r: usize)
        ensures
            r == self.spec_width(),
    {
        self.width
    }

    /// The logical height, in pixels.
    pub fn height(&self) -> (r: usize)
        ensures
            r == self.spec_height(),
    {
        self.height
    }

    /// The upscaling factor.
    pub fn scale(&self) -> (r: usize)
        ensures
            r == self.spec_scale(),
    {
        self.scale
    }

    /// The number of bytes in the buffer.
    pub fn len(&self) -> (r: usize)
        ensures
            r == self.spec_data().len(),
    {
        self.data.len()
    }

    /// Changes the scale of the image buffer. The buffer's contents
    /// should not be relied on until it has been redrawn with this new
    /// scale.
    pub fn set_scale(&mut self, scale: usize)
        requires
            ImageBuffer::fits(
                old(self).spec_width(),
                old(self).spec_height(),
                scale as int,
            ),
        ensures
            final(self).wf(),
            final(self).spec_scale() == scale,
            final(self).spec_width() == old(self).spec_width(),
            final(self).spec_height() == old(self).spec_height(),
    {
        self.scale = scale;
        self.resize_buffer();
    }

    /// Changes the width of the image buffer. The buffer's contents
    /// should not be relied on until it has been redrawn with this new
    /// width.
    pub fn set_width(&mut self, width: usize)
        requires
            ImageBuffer::fits(
                width as int,
                old(self).spec_height(),
                old(self).spec_scale(),
            ),
        ensures
            final(self).wf(),
            final(self).spec_width() == width,
            final(self).spec_height() == old(self).spec_height(),
            final(self).spec_scale() == old(self).spec_scale(),
    {
        self.width = width;
        self.resize_buffer();
    }

    /// Changes the height of the image buffer. The buffer's contents
    /// should not be relied on until it has been redrawn with this new
    /// height.
    pub fn set_height(&mut self, height: usize)
        requires
            ImageBuffer::fits(
                old(self).spec_width(),
                height as int,
                old(self).spec_scale(),
            ),
        ensures
            final(self).wf(),
            final(self).spec_height() == height,
            final(self).spec_width() == old(self).spec_width(),
            final(self).spec_scale() == old(self).spec_scale(),
    {
        self.height = height;
        self.resize_buffer();
    }

    /// Sets the raw number of elements in the buffer to match the
    /// current dimensions. After calling this method, the buffer's
    /// contents should not be relied on until it has been redrawn.
    fn resize_buffer(&mut self)
        requires
            ImageBuffer::fits(
                old(self).spec_width(),
                old(self).spec_height(),
                old(self).spec_scale(),
            ),
        ensures
            final(self).wf(),
            final(self).spec_width() == old(self).spec_width(),
            final(self).spec_height() == old(self).spec_height(),
            final(self).spec_scale() == old(self).spec_scale(),
    {
        let size = RGBA_COMPONENTS * self.width * self.scale * self.height * self.scale;
        self.data.resize(size, 0);
    }
}

} // verus!
