//! Textures that the compositor hands to the renderer, DMA-BUF metadata,
//! framebuffers and frames.

use vstd::prelude::*;
use std::time::{Duration, Instant};
use crate::ids::{IdAllocator, ObjectId, TextureId, after};

verus! {

#[verifier::external_type_specification]
#[verifier::external_body]
pub struct ExInstant(Instant);

/// The current time, from `Instant::now`. Nothing is stated of it: it
/// depends on the clock.
#[verifier::external_body]
pub(crate) fn instant_now() -> Instant {
    Instant::now()
}

/// The time since `start`, from `Instant::elapsed`. Nothing is stated of
/// it: it depends on the clock.
#[verifier::external_body]
pub(crate) fn instant_elapsed(start: &Instant) -> Duration {
    start.elapsed()
}

/// Layout of a buffer shared through a DMA-BUF file descriptor.
#[derive(Debug)]
pub struct DmaBufInfo {
    pub fd: i32,
    pub width: u32,
    pub height: u32,
    pub format: String,
    pub stride: u32,
    pub offset: u32,
    pub modifier: u64,
}

impl DmaBufInfo {
    /// A linear buffer (modifier 0) that starts at offset 0.
    pub fn new(fd: i32, width: u32, height: u32, format: String, stride: u32) -> (d: Self)
        ensures
            d.fd == fd,
            d.width == width,
            d.height == height,
            d.format == format,
            d.stride == stride,
            d.offset == 0,
            d.modifier == 0,
    {
        DmaBufInfo { fd, width, height, format, stride, offset: 0, modifier: 0 }
    }
}

impl Clone for DmaBufInfo {
    fn clone(&self) -> (d: Self)
        ensures
            d == *self,
    {
        DmaBufInfo {
            fd: self.fd,
            width: self.width,
            height: self.height,
            format: self.format.clone(),
            stride: self.stride,
            offset: self.offset,
            modifier: self.modifier,
        }
    }
}

/// A texture of the renderer: its identity, size, format, and the DMA-BUF
/// it was imported from, if any.
#[derive(Debug)]
pub struct BlitzTexture {
    id: TextureId,
    width: u32,
    height: u32,
    format: String,
    dmabuf_info: Option<DmaBufInfo>,
    created_at: Instant,
}

impl BlitzTexture {
    pub closed spec fn spec_id(&self) -> TextureId {
        self.id
    }

    pub closed spec fn spec_width(&self) -> u32 {
        self.width
    }

    pub closed spec fn spec_height(&self) -> u32 {
        self.height
    }

    pub closed spec fn spec_format(&self) -> Seq<char> {
        self.format@
    }

    pub closed spec fn spec_dmabuf(&self) -> Option<DmaBufInfo> {
        self.dmabuf_info
    }

    /// A texture allocated by the renderer, with a fresh identifier from `ids`.
    pub fn new(width: u32, height: u32, format: String, ids: &mut IdAllocator) -> (t: Self)
        ensures
            t.spec_id()@ == old(ids).next_value(),
            final(ids).next_value() == after(old(ids).next_value()),
            t.spec_width() == width,
            t.spec_height() == height,
            t.spec_format() == format@,
            t.spec_dmabuf() == None::<DmaBufInfo>,
    {
        let id = TextureId::new(ids);
        BlitzTexture { id, width, height, format, dmabuf_info: None, created_at: instant_now() }
    }

    /// A texture imported from a DMA-BUF, with a fresh identifier from `ids`.
    pub fn from_dmabuf(width: u32, height: u32, format: String, dmabuf_info: DmaBufInfo, ids: &mut IdAllocator) -> (t: Self)
        ensures
            t.spec_id()@ == old(ids).next_value(),
            final(ids).next_value() == after(old(ids).next_value()),
            t.spec_width() == width,
            t.spec_height() == height,
            t.spec_format() == format@,
            t.spec_dmabuf() == Some(dmabuf_info),
    {
        let id = TextureId::new(ids);
        BlitzTexture { id, width, height, format, dmabuf_info: Some(dmabuf_info), created_at: instant_now() }
    }

    /// Whether the texture was imported from a DMA-BUF.
    pub fn is_dmabuf(&self) -> (b: bool)
        ensures
            b == self.spec_dmabuf() is Some,
    {
        self.dmabuf_info.is_some()
    }

    /// The DMA-BUF the texture was imported from, if any.
    pub fn dmabuf_info(&self) -> (d: Option<&DmaBufInfo>)
        ensures
            match self.spec_dmabuf() {
                Some(x) => d == Some(&x),
                None => d is None,
            },
    {
        self.dmabuf_info.as_ref()
    }

    /// Time since the texture was created.
    pub fn age(&self) -> Duration {
        instant_elapsed(&self.created_at)
    }

    /// The texture's identifier.
    pub fn id(&self) -> (i: TextureId)
        ensures
            i == self.spec_id(),
    {
        self.id
    }

    /// Width and height, in pixels.
    pub fn dimensions(&self) -> (d: (u32, u32))
        ensures
            d == (self.spec_width(), self.spec_height()),
    {
        (self.width, self.height)
    }

    /// The pixel format's name.
    pub fn format(&self) -> (f: &str)
        ensures
            f@ == self.spec_format(),
    {
        self.format.as_str()
    }
}

impl Clone for BlitzTexture {
    fn clone(&self) -> (t: Self)
        ensures
            t.spec_id() == self.spec_id(),
            t.spec_width() == self.spec_width(),
            t.spec_height() == self.spec_height(),
            t.spec_format() == self.spec_format(),
            t.spec_dmabuf() == self.spec_dmabuf(),
    {
        let dmabuf_info = match &self.dmabuf_info {
            Some(d) => Some(d.clone()),
            None => None,
        };
        BlitzTexture {
            id: self.id,
            width: self.width,
            height: self.height,
            format: self.format.clone(),
            dmabuf_info,
            created_at: self.created_at,
        }
    }
}

/// A render target backed by a texture.
#[derive(Debug)]
pub struct BlitzFramebuffer {
    target_texture: BlitzTexture,
}

impl BlitzFramebuffer {
    pub closed spec fn target(&self) -> BlitzTexture {
        self.target_texture
    }

    /// A framebuffer that renders into `target_texture`.
    pub fn new(target_texture: BlitzTexture) -> (f: Self)
        ensures
            f.target() == target_texture,
    {
        BlitzFramebuffer { target_texture }
    }

    /// Width and height of the target texture.
    pub fn dimensions(&self) -> (d: (u32, u32))
        ensures
            d == (self.target().spec_width(), self.target().spec_height()),
    {
        self.target_texture.dimensions()
    }
}

/// A frame being rendered, and the surface it is currently drawing.
#[derive(Debug)]
pub struct BlitzFrame {
    current_surface_id: Option<ObjectId>,
}

impl BlitzFrame {
    pub closed spec fn current_surface(&self) -> Option<ObjectId> {
        self.current_surface_id
    }

    /// A frame that is not drawing any surface yet.
    pub fn new() -> (f: Self)
        ensures
            f.current_surface() == None::<ObjectId>,
    {
        BlitzFrame { current_surface_id: None }
    }

    /// Makes `surface_id` the surface being drawn.
    pub fn set_current_surface(&mut self, surface_id: ObjectId)
        ensures
            final(self).current_surface() == Some(surface_id),
    {
        self.current_surface_id = Some(surface_id);
    }
}

} // verus!
