//! Buffers created with initial contents, and textures uploaded with all
//! their layers and mip levels.
use crate::device::{
    Buffer, BufferDescriptor, BufferUsage, Device, Extent3d, Origin3d, Queue, Texture,
    TextureDataLayout, TextureDescriptor, TextureWrite, texture_of,
};
use crate::layout::{
    COPY_BUFFER_ALIGNMENT, buffer_padded_size, bytes_per_row, initial_contents, is_volume,
    layer_count, lemma_physical_extent_max, lemma_sub_image_in_bounds, mip_block_counts,
    mip_chain_bytes, mip_depth, mip_dimension, padded_size, physical_height, physical_width,
    sub_image_bytes, sub_image_size, total_upload_size, upload_offset,
};
use vstd::prelude::*;

verus! {

/// Describes a buffer to create with initial contents.
#[derive(Debug, Clone, Copy, PartialEq, Eq)]
pub struct BufferInitDescriptor<'a> {
    /// Debug label of the buffer.
    pub label: Option<&'a str>,
    /// Contents of the buffer on creation; they also give its size.
    pub contents: &'a [u8],
    /// Roles the buffer may take.
    pub usage: BufferUsage,
}

/// Why a texture cannot be uploaded.
#[derive(Debug, Clone, Copy, PartialEq, Eq, Structural)]
pub enum TextureUploadError {
    /// The mip level count does not fit in eight bits.
    MipLevelCountOverflow { count: u32 },
    /// The most detailed mip level, rounded up to whole blocks, is wider or
    /// taller than an extent can be.
    PhysicalExtentOverflow { width: u64, height: u64 },
    /// The source buffer is shorter than the texture's layers and mip levels.
    DataTooShort { required: u128, available: usize },
}

/// Why uploading `d` from `len` bytes fails, if it does; checked in this order.
pub open spec fn upload_error(d: TextureDescriptor, len: int) -> Option<TextureUploadError> {
    if d.mip_level_count > 255 {
        Some(TextureUploadError::MipLevelCountOverflow { count: d.mip_level_count })
    } else if d.mip_level_count > 0 && layer_count(d) > 0 && (physical_width(d, 0) > u32::MAX
        || physical_height(d, 0) > u32::MAX) {
        Some(
            TextureUploadError::PhysicalExtentOverflow {
                width: physical_width(d, 0) as u64,
                height: physical_height(d, 0) as u64,
            },
        )
    } else if total_upload_size(d) > len {
        Some(
            TextureUploadError::DataTooShort {
                required: total_upload_size(d) as u128,
                available: len as usize,
            },
        )
    } else {
        None
    }
}

/// The write of mip level `m` of layer `l` when `d` is uploaded from `data`.
pub open spec fn write_is(
    w: TextureWrite,
    d: TextureDescriptor,
    data: Seq<u8>,
    l: int,
    m: int,
) -> bool {
    &&& w.texture == texture_of(d)
    &&& w.mip_level == m
    &&& w.origin == (Origin3d { x: 0, y: 0, z: if is_volume(d) { 0 } else { l as u32 } })
    &&& w.data@ == data.subrange(upload_offset(d, l, m), upload_offset(d, l, m) + sub_image_size(d, m))
    &&& w.layout == (TextureDataLayout {
        offset: 0,
        bytes_per_row: bytes_per_row(d, m) as u64,
        rows_per_image: 0,
    })
    &&& w.size == (Extent3d {
        width: physical_width(d, m) as u32,
        height: physical_height(d, m) as u32,
        depth: mip_depth(d, m) as u32,
    })
}

/// Entry `base + l * mip_level_count + m` of `ws` is the write of mip level
/// `m` of layer `l`.
pub open spec fn upload_write_at(
    ws: Seq<TextureWrite>,
    base: int,
    d: TextureDescriptor,
    data: Seq<u8>,
    l: int,
    m: int,
) -> bool {
    write_is(ws[base + l * d.mip_level_count + m], d, data, l, m)
}

/// Creation of resources together with their initial data.
pub trait DeviceExt {
    /// Creates a buffer that holds `desc.contents`, padded with zeros.
    fn create_buffer_init(&self, desc: &BufferInitDescriptor) -> (r: Buffer)
        requires
            desc.contents@.len() + COPY_BUFFER_ALIGNMENT <= usize::MAX,
        ensures
            r.size == padded_size(desc.contents@.len() as int),
            r.usage == desc.usage,
            r.contents@ == initial_contents(desc.contents@),
            !r.mapped,
    ;

    /// Creates a texture and uploads all its mip levels from `data`, which
    /// holds every layer's mip levels in order, most detailed first, tightly
    /// packed. A volume texture is uploaded as one layer.
    fn create_texture_with_data(
        &self,
        queue: &mut Queue,
        desc: &TextureDescriptor,
        data: &[u8],
    ) -> (r: Result<Texture, TextureUploadError>)
        requires
            desc.format.wf(),
        ensures
            r is Err <==> upload_error(*desc, data@.len() as int) is Some,
            r matches Err(e) ==> upload_error(*desc, data@.len() as int) == Some(e),
            r is Err ==> final(queue).writes@ == old(queue).writes@,
            r matches Ok(t) ==> {
                &&& t == texture_of(*desc)
                &&& final(queue).writes@.len() == old(queue).writes@.len() + layer_count(*desc)
                    * desc.mip_level_count
                &&& final(queue).writes@.subrange(0, old(queue).writes@.len() as int)
                    == old(queue).writes@
                &&& forall|l: int, m: int|
                    0 <= l < layer_count(*desc) && 0 <= m < desc.mip_level_count
                        ==> #[trigger] upload_write_at(
                        final(queue).writes@,
                        old(queue).writes@.len() as int,
                        *desc,
                        data@,
                        l,
                        m,
                    )
            },
    ;
}

proof fn lemma_write_index(l: int, m: int, layer: int, mip: int, n: int)
    requires
        0 <= l,
        0 <= m,
        0 <= mip,
        (l < layer && m < n) || (l == layer && m < mip),
    ensures
        l * n + m < layer * n + mip,
{
    if l < layer {
        assert(l * n + n <= layer * n) by (nonlinear_arith)
            requires
                l < layer,
                n >= 0,
        ;
    }
}

proof fn lemma_next_row(a: int, n: int)
    ensures
        a * n + n == (a + 1) * n,
{
    assert(a * n + n == (a + 1) * n) by (nonlinear_arith);
}

/// Checks what `upload_error` checks, computing the total upload size.
fn check_upload(desc: &TextureDescriptor, len: usize) -> (r: Result<(), TextureUploadError>)
    requires
        desc.format.wf(),
    ensures
        r is Err <==> upload_error(*desc, len as int) is Some,
        r matches Err(e) ==> upload_error(*desc, len as int) == Some(e),
{
    if desc.mip_level_count > 255 {
        return Err(TextureUploadError::MipLevelCountOverflow { count: desc.mip_level_count });
    }
    let layers: u32 = if desc.dimension == crate::device::TextureDimension::D3 {
        1
    } else {
        desc.size.depth
    };
    if desc.mip_level_count > 0 && layers > 0 {
        let (wb, hb) = mip_block_counts(desc, 0);
        let bw = desc.format.block_width as u64;
        let bh = desc.format.block_height as u64;
        assert(wb * bw <= 0xff_ffff_ffff && hb * bh <= 0xff_ffff_ffff) by (nonlinear_arith)
            requires
                wb <= u32::MAX,
                hb <= u32::MAX,
                bw <= 255,
                bh <= 255,
        ;
        let pw = wb * bw;
        let ph = hb * bh;
        if pw > u32::MAX as u64 || ph > u32::MAX as u64 {
            return Err(TextureUploadError::PhysicalExtentOverflow { width: pw, height: ph });
        }
    }
    let chain = mip_chain_bytes(desc, desc.mip_level_count);
    assert((layers as u128) * chain <= 0x1_0000_0000 * 255 * 0x100_0000_0000_0000_0000)
        by (nonlinear_arith)
        requires
            layers <= u32::MAX,
            chain <= 255 * 0x100_0000_0000_0000_0000,
    ;
    let total = (layers as u128) * chain;
    if total > len as u128 {
        return Err(TextureUploadError::DataTooShort { required: total, available: len });
    }
    Ok(())
}

/// Writes mip level `mip` of layer `layer`, which starts at `cursor` in
/// `data`, and returns where the next sub-image starts.
fn write_sub_image(
    queue: &mut Queue,
    texture: &Texture,
    desc: &TextureDescriptor,
    data: &[u8],
    layer: u32,
    mip: u32,
    cursor: usize,
) -> (end: usize)
    requires
        desc.format.wf(),
        upload_error(*desc, data@.len() as int) is None,
        layer < layer_count(*desc),
        mip < desc.mip_level_count,
        cursor == upload_offset(*desc, layer as int, mip as int),
        *texture == texture_of(*desc),
    ensures
        end == cursor + sub_image_size(*desc, mip as int),
        final(queue).writes@ == old(queue).writes@.push(final(queue).writes@.last()),
        write_is(final(queue).writes@.last(), *desc, data@, layer as int, mip as int),
{
    proof {
        lemma_physical_extent_max(*desc, mip as int);
        lemma_sub_image_in_bounds(*desc, layer as int, mip as int);
    }
    let (wb, hb) = mip_block_counts(desc, mip);
    let size = sub_image_bytes(desc, mip);
    let len = data.len();
    assert(total_upload_size(*desc) <= len);
    let end = cursor + size as usize;
    let bs = desc.format.block_size as u64;
    assert(wb * bs <= 0xff_ffff_ffff) by (nonlinear_arith)
        requires
            wb <= u32::MAX,
            bs <= 255,
    ;
    let bytes_per_row = wb * bs;
    let bw = desc.format.block_width as u64;
    let bh = desc.format.block_height as u64;
    assert(wb * bw <= u32::MAX && hb * bh <= u32::MAX);
    let is_3d = desc.dimension == crate::device::TextureDimension::D3;
    let width = (wb * bw) as u32;
    let height = (hb * bh) as u32;
    let depth: u32 = if is_3d {
        mip_dimension(desc.size.depth, mip)
    } else {
        1
    };
    let z: u32 = if is_3d {
        0
    } else {
        layer
    };
    queue.write_texture(
        texture,
        mip,
        Origin3d { x: 0, y: 0, z },
        vstd::slice::slice_subrange(data, cursor, end),
        TextureDataLayout { offset: 0, bytes_per_row, rows_per_image: 0 },
        Extent3d { width, height, depth },
    );
    end
}

impl DeviceExt for Device {
    fn create_buffer_init(&self, desc: &BufferInitDescriptor) -> (r: Buffer) {
        let unpadded = desc.contents.len();
        let padded = buffer_padded_size(unpadded);
        let buffer_desc = BufferDescriptor {
            label: desc.label,
            size: padded as u64,
            usage: desc.usage,
            mapped_at_creation: true,
        };
        let mut buffer = self.create_buffer(&buffer_desc);
        buffer.write_mapped(0, desc.contents);
        let padding = padded - unpadded;
        let zeros = vec![0u8; padding];
        buffer.write_mapped(unpadded, zeros.as_slice());
        buffer.unmap();
        assert(buffer.contents@ =~= initial_contents(desc.contents@));
        buffer
    }

    fn create_texture_with_data(
        &self,
        queue: &mut Queue,
        desc: &TextureDescriptor,
        data: &[u8],
    ) -> (r: Result<Texture, TextureUploadError>) {
        match check_upload(desc, data.len()) {
            Err(e) => {
                return Err(e);
            },
            Ok(()) => {},
        }
        let texture = self.create_texture(desc);
        let is_3d = desc.dimension == crate::device::TextureDimension::D3;
        let layers: u32 = if is_3d {
            1
        } else {
            desc.size.depth
        };
        let mips: u32 = desc.mip_level_count;
        let ghost base = old(queue).writes@.len() as int;
        let mut cursor: usize = 0;
        let mut layer: u32 = 0;
        while layer < layers
            invariant
                desc.format.wf(),
                layers == layer_count(*desc),
                mips == desc.mip_level_count,
                mips <= 255,
                is_3d == is_volume(*desc),
                texture == texture_of(*desc),
                upload_error(*desc, data@.len() as int) is None,
                layer <= layers,
                cursor == upload_offset(*desc, layer as int, 0),
                queue.writes@.len() == base + layer * mips,
                base == old(queue).writes@.len(),
                base <= queue.writes@.len(),
                queue.writes@.subrange(0, base) == old(queue).writes@,
                forall|l: int, m: int|
                    0 <= l < layer && 0 <= m < mips ==> #[trigger] upload_write_at(
                        queue.writes@,
                        base,
                        *desc,
                        data@,
                        l,
                        m,
                    ),
            decreases layers - layer,
        {
            let mut mip: u32 = 0;
            while mip < mips
                invariant
                    desc.format.wf(),
                    layers == layer_count(*desc),
                    mips == desc.mip_level_count,
                    mips <= 255,
                    is_3d == is_volume(*desc),
                    texture == texture_of(*desc),
                    upload_error(*desc, data@.len() as int) is None,
                    layer < layers,
                    mip <= mips,
                    cursor == upload_offset(*desc, layer as int, mip as int),
                    queue.writes@.len() == base + layer * mips + mip,
                    base == old(queue).writes@.len(),
                base <= queue.writes@.len(),
                    queue.writes@.subrange(0, base) == old(queue).writes@,
                    forall|l: int, m: int|
                        (0 <= l < layer && 0 <= m < mips) || (l == layer && 0 <= m < mip)
                            ==> #[trigger] upload_write_at(
                            queue.writes@,
                            base,
                            *desc,
                            data@,
                            l,
                            m,
                        ),
                decreases mips - mip,
            {
                let ghost before = queue.writes@;
                cursor = write_sub_image(queue, &texture, desc, data, layer, mip, cursor);
                proof {
                    assert(upload_write_at(queue.writes@, base, *desc, data@, layer as int, mip as int));
                    assert(queue.writes@ == before.push(queue.writes@.last()));
                    assert forall|l: int, m: int|
                        (0 <= l < layer && 0 <= m < mips) || (l == layer && 0 <= m < mip + 1)
                            implies #[trigger] upload_write_at(
                            queue.writes@,
                            base,
                            *desc,
                            data@,
                            l,
                            m,
                        ) by {
                        if l != layer || m != mip {
                            lemma_write_index(l, m, layer as int, mip as int, mips as int);
                            assert(upload_write_at(before, base, *desc, data@, l, m));
                        }
                    }
                    assert(queue.writes@.subrange(0, base) =~= before.subrange(0, base));
                }
                mip = mip + 1;
            }
            proof {
                lemma_next_row(layer as int, mips as int);
                lemma_next_row(layer as int, crate::layout::mip_chain_size(*desc, mips as int));
            }
            layer = layer + 1;
        }
        assert(queue.writes@.subrange(0, base) == old(queue).writes@);
        Ok(texture)
    }
}

} // verus!
