//! A host-side device and queue that record the resources created on them
//! and the texture writes submitted to them.
use vstd::prelude::*;

verus! {

/// Bit set of the roles a buffer may take.
#[derive(Debug, Clone, Copy, PartialEq, Eq, Structural)]
pub struct BufferUsage {
    pub bits: u32,
}

/// Bit set of the roles a texture may take.
#[derive(Debug, Clone, Copy, PartialEq, Eq, Structural)]
pub struct TextureUsage {
    pub bits: u32,
}

/// Describes a buffer to create.
#[derive(Debug, Clone, Copy, PartialEq, Eq)]
pub struct BufferDescriptor<'a> {
    pub label: Option<&'a str>,
    pub size: u64,
    pub usage: BufferUsage,
    pub mapped_at_creation: bool,
}

/// A buffer and the bytes it holds.
#[derive(Debug, Clone, PartialEq, Eq)]
pub struct Buffer {
    pub size: u64,
    pub usage: BufferUsage,
    pub contents: Vec<u8>,
    pub mapped: bool,
}

impl Buffer {
    /// Writes `data` into the mapped buffer at `offset`.
    pub fn write_mapped(&mut self, offset: usize, data: &[u8])
        requires
            old(self).mapped,
            offset + data@.len() <= old(self).contents@.len(),
        ensures
            final(self).size == old(self).size,
            final(self).usage == old(self).usage,
            final(self).mapped,
            final(self).contents@ == old(self).contents@.subrange(0, offset as int) + data@
                + old(self).contents@.subrange(
                offset + data@.len(),
                old(self).contents@.len() as int,
            ),
    {
        let ghost before = self.contents@;
        let len = self.contents.len();
        let mut i: usize = 0;
        while i < data.len()
            invariant
                offset + data@.len() <= before.len(),
                len == before.len(),
                i <= data@.len(),
                self.contents@.len() == before.len(),
                self.size == old(self).size,
                self.usage == old(self).usage,
                self.mapped,
                forall|k: int|
                    0 <= k < before.len() ==> #[trigger] self.contents@[k] == if offset <= k
                        < offset + i {
                        data@[k - offset]
                    } else {
                        before[k]
                    },
            decreases data@.len() - i,
        {
            self.contents.set(offset + i, data[i]);
            i = i + 1;
        }
        assert(self.contents@ =~= before.subrange(0, offset as int) + data@ + before.subrange(
            offset + data@.len(),
            before.len() as int,
        ));
    }

    /// Ends the mapping, handing the buffer to the device.
    pub fn unmap(&mut self)
        ensures
            final(self).size == old(self).size,
            final(self).usage == old(self).usage,
            final(self).contents@ == old(self).contents@,
            !final(self).mapped,
    {
        self.mapped = false;
    }
}

/// Width, height and depth (or layer count) of a texture.
#[derive(Debug, Clone, Copy, PartialEq, Eq, Structural)]
pub struct Extent3d {
    pub width: u32,
    pub height: u32,
    pub depth: u32,
}

/// A texel position inside a texture.
#[derive(Debug, Clone, Copy, PartialEq, Eq, Structural)]
pub struct Origin3d {
    pub x: u32,
    pub y: u32,
    pub z: u32,
}

/// Dimensionality of a texture.
#[derive(Debug, Clone, Copy, PartialEq, Eq, Structural)]
pub enum TextureDimension {
    D1,
    D2,
    D3,
}

/// How a pixel format lays out its texels: blocks of `block_width` by
/// `block_height` texels, `block_size` bytes each.
#[derive(Debug, Clone, Copy, PartialEq, Eq, Structural)]
pub struct FormatBlockInfo {
    pub block_width: u8,
    pub block_height: u8,
    pub block_size: u8,
}

impl FormatBlockInfo {
    /// Both block dimensions are at least one texel.
    pub open spec fn wf(&self) -> bool {
        self.block_width > 0 && self.block_height > 0
    }
}

/// Describes a texture to create.
#[derive(Debug, Clone, Copy, PartialEq, Eq)]
pub struct TextureDescriptor<'a> {
    pub label: Option<&'a str>,
    pub size: Extent3d,
    pub mip_level_count: u32,
    pub sample_count: u32,
    pub dimension: TextureDimension,
    pub format: FormatBlockInfo,
    pub usage: TextureUsage,
}

/// A texture created on the device.
#[derive(Debug, Clone, Copy, PartialEq, Eq, Structural)]
pub struct Texture {
    pub size: Extent3d,
    pub mip_level_count: u32,
    pub sample_count: u32,
    pub dimension: TextureDimension,
    pub format: FormatBlockInfo,
    pub usage: TextureUsage,
}

/// Layout of texel data in a source buffer.
#[derive(Debug, Clone, Copy, PartialEq, Eq, Structural)]
pub struct TextureDataLayout {
    pub offset: u64,
    pub bytes_per_row: u64,
    pub rows_per_image: u64,
}

/// One texture write submitted to a queue.
#[derive(Debug, Clone, PartialEq, Eq)]
pub struct TextureWrite {
    pub texture: Texture,
    pub mip_level: u32,
    pub origin: Origin3d,
    pub data: Vec<u8>,
    pub layout: TextureDataLayout,
    pub size: Extent3d,
}

/// The device on which buffers and textures are created.
#[derive(Debug, Clone, Copy, PartialEq, Eq, Structural)]
pub struct Device {}

impl Device {
    pub fn new() -> (r: Device) {
        Device {}
    }

    /// Creates a zero-filled buffer, mapped if the descriptor asks for it.
    pub fn create_buffer(&self, desc: &BufferDescriptor) -> (r: Buffer)
        requires
            desc.size <= usize::MAX,
        ensures
            r.size == desc.size,
            r.usage == desc.usage,
            r.mapped == desc.mapped_at_creation,
            r.contents@ == Seq::new(desc.size as nat, |i: int| 0u8),
    {
        let contents = vec![0u8; desc.size as usize];
        assert(contents@ =~= Seq::new(desc.size as nat, |i: int| 0u8));
        Buffer { size: desc.size, usage: desc.usage, contents, mapped: desc.mapped_at_creation }
    }

    /// Creates a texture as the descriptor describes it.
    pub fn create_texture(&self, desc: &TextureDescriptor) -> (r: Texture)
        ensures
            r == texture_of(*desc),
    {
        Texture {
            size: desc.size,
            mip_level_count: desc.mip_level_count,
            sample_count: desc.sample_count,
            dimension: desc.dimension,
            format: desc.format,
            usage: desc.usage,
        }
    }
}

/// The texture that a descriptor describes.
pub open spec fn texture_of(desc: TextureDescriptor) -> Texture {
    Texture {
        size: desc.size,
        mip_level_count: desc.mip_level_count,
        sample_count: desc.sample_count,
        dimension: desc.dimension,
        format: desc.format,
        usage: desc.usage,
    }
}

/// A queue that records, in order, the texture writes submitted to it.
#[derive(Debug, Clone, PartialEq, Eq)]
pub struct Queue {
    pub writes: Vec<TextureWrite>,
}

impl Queue {
    pub fn new() -> (r: Queue)
        ensures
            r.writes@.len() == 0,
    {
        Queue { writes: Vec::new() }
    }

    /// Submits a write of `data` into one mip level of a texture.
    pub fn write_texture(
        &mut self,
        texture: &Texture,
        mip_level: u32,
        origin: Origin3d,
        data: &[u8],
        layout: TextureDataLayout,
        size: Extent3d,
    )
        ensures
            final(self).writes@ == old(self).writes@.push(final(self).writes@.last()),
            final(self).writes@.last().texture == *texture,
            final(self).writes@.last().mip_level == mip_level,
            final(self).writes@.last().origin == origin,
            final(self).writes@.last().data@ == data@,
            final(self).writes@.last().layout == layout,
            final(self).writes@.last().size == size,
    {
        let w = TextureWrite {
            texture: *texture,
            mip_level,
            origin,
            data: vstd::slice::slice_to_vec(data),
            layout,
            size,
        };
        self.writes.push(w);
    }
}

} // verus!
