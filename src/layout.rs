//! Byte layout of buffers created with contents, and of textures uploaded
//! with all their layers and mip levels from one tightly packed buffer.
use crate::device::{TextureDescriptor, TextureDimension};
use vstd::prelude::*;

verus! {

/// Granularity to which buffer sizes are padded.
pub const COPY_BUFFER_ALIGNMENT: u64 = 4;

/// Size of a buffer created with `len` bytes of contents: the contents are
/// always followed by one to `COPY_BUFFER_ALIGNMENT` bytes of padding.
pub open spec fn padded_size(len: int) -> int {
    len + (COPY_BUFFER_ALIGNMENT - len % (COPY_BUFFER_ALIGNMENT as int))
}

/// What a buffer created with `contents` holds: the contents, then zeros.
pub open spec fn initial_contents(contents: Seq<u8>) -> Seq<u8> {
    contents + Seq::new((padded_size(contents.len() as int) - contents.len()) as nat, |i: int| 0u8)
}

/// Computes the padded size of a buffer with `len` bytes of contents.
pub fn buffer_padded_size(len: usize) -> (r: usize)
    requires
        len + COPY_BUFFER_ALIGNMENT <= usize::MAX,
    ensures
        r == padded_size(len as int),
{
    let a = COPY_BUFFER_ALIGNMENT as usize;
    let padding = a - len % a;
    len + padding
}

/// A buffer created with some contents is padded to the copy alignment, starts
/// with the contents and holds zeros after them.
pub proof fn lemma_buffer_init_contents(contents: Seq<u8>)
    ensures
        initial_contents(contents).len() == padded_size(contents.len() as int),
        padded_size(contents.len() as int) % (COPY_BUFFER_ALIGNMENT as int) == 0,
        contents.len() < padded_size(contents.len() as int) <= contents.len()
            + COPY_BUFFER_ALIGNMENT,
        initial_contents(contents).subrange(0, contents.len() as int) == contents,
        forall|i: int|
            contents.len() <= i < padded_size(contents.len() as int) ==> #[trigger] initial_contents(
                contents,
            )[i] == 0,
{
    assert(initial_contents(contents).subrange(0, contents.len() as int) =~= contents);
}

/// `x` halved `level` times, rounding down.
pub open spec fn halved(x: int, level: int) -> int
    decreases level,
{
    if level <= 0 {
        x
    } else {
        halved(x, level - 1) / 2
    }
}

/// Extent along one axis at a mip level: halved per level, at least one.
pub open spec fn mip_dim(x: int, level: int) -> int {
    if halved(x, level) == 0 {
        1
    } else {
        halved(x, level)
    }
}

/// Number of blocks of `b` texels needed to cover `x` texels.
pub open spec fn block_count(x: int, b: int) -> int {
    (x + b - 1) / b
}

pub open spec fn is_volume(d: TextureDescriptor) -> bool {
    d.dimension == TextureDimension::D3
}

/// How many layers are uploaded: one for a volume, else one per array layer.
pub open spec fn layer_count(d: TextureDescriptor) -> int {
    if is_volume(d) {
        1
    } else {
        d.size.depth as int
    }
}

pub open spec fn mip_width(d: TextureDescriptor, m: int) -> int {
    mip_dim(d.size.width as int, m)
}

pub open spec fn mip_height(d: TextureDescriptor, m: int) -> int {
    mip_dim(d.size.height as int, m)
}

/// Depth written per mip level: the volume's depth, or one slice per layer.
pub open spec fn mip_depth(d: TextureDescriptor, m: int) -> int {
    if is_volume(d) {
        mip_dim(d.size.depth as int, m)
    } else {
        1
    }
}

pub open spec fn width_blocks(d: TextureDescriptor, m: int) -> int {
    block_count(mip_width(d, m), d.format.block_width as int)
}

pub open spec fn height_blocks(d: TextureDescriptor, m: int) -> int {
    block_count(mip_height(d, m), d.format.block_height as int)
}

/// Width of a mip level rounded up to whole blocks.
pub open spec fn physical_width(d: TextureDescriptor, m: int) -> int {
    width_blocks(d, m) * d.format.block_width
}

/// Height of a mip level rounded up to whole blocks.
pub open spec fn physical_height(d: TextureDescriptor, m: int) -> int {
    height_blocks(d, m) * d.format.block_height
}

pub open spec fn bytes_per_row(d: TextureDescriptor, m: int) -> int {
    width_blocks(d, m) * d.format.block_size
}

/// Bytes that one mip level of one layer takes in the source buffer.
pub open spec fn sub_image_size(d: TextureDescriptor, m: int) -> int {
    bytes_per_row(d, m) * height_blocks(d, m)
}

/// Bytes that the first `n` mip levels of one layer take.
pub open spec fn mip_chain_size(d: TextureDescriptor, n: int) -> int
    decreases n,
{
    if n <= 0 {
        0
    } else {
        mip_chain_size(d, n - 1) + sub_image_size(d, n - 1)
    }
}

/// Where mip level `m` of layer `l` starts in the source buffer.
pub open spec fn upload_offset(d: TextureDescriptor, l: int, m: int) -> int {
    l * mip_chain_size(d, d.mip_level_count as int) + mip_chain_size(d, m)
}

/// Bytes that a whole texture takes in the source buffer.
pub open spec fn total_upload_size(d: TextureDescriptor) -> int {
    layer_count(d) * mip_chain_size(d, d.mip_level_count as int)
}

pub proof fn lemma_halved_bounds(x: int, level: int)
    requires
        x >= 0,
    ensures
        0 <= halved(x, level) <= x,
    decreases level,
{
    if level > 0 {
        lemma_halved_bounds(x, level - 1);
    }
}

/// Rounding up to whole blocks keeps the order of extents.
proof fn lemma_block_count_mono(a: int, c: int, b: int)
    requires
        1 <= a <= c,
        b >= 1,
    ensures
        1 <= block_count(a, b) <= block_count(c, b),
{
    vstd::arithmetic::div_mod::lemma_div_is_ordered(a + b - 1, c + b - 1, b);
    vstd::arithmetic::div_mod::lemma_div_is_ordered(b, a + b - 1, b);
    vstd::arithmetic::div_mod::lemma_div_by_self(b);
}

/// No mip level is physically larger than the most detailed one.
pub proof fn lemma_physical_extent_max(d: TextureDescriptor, m: int)
    requires
        d.format.wf(),
    ensures
        1 <= width_blocks(d, m) <= width_blocks(d, 0),
        1 <= height_blocks(d, m) <= height_blocks(d, 0),
        physical_width(d, m) <= physical_width(d, 0),
        physical_height(d, m) <= physical_height(d, 0),
        1 <= mip_depth(d, m) <= mip_depth(d, 0),
{
    lemma_halved_bounds(d.size.width as int, m);
    lemma_halved_bounds(d.size.height as int, m);
    lemma_halved_bounds(d.size.depth as int, m);
    lemma_block_count_mono(mip_width(d, m), mip_width(d, 0), d.format.block_width as int);
    lemma_block_count_mono(mip_height(d, m), mip_height(d, 0), d.format.block_height as int);
    vstd::arithmetic::mul::lemma_mul_inequality(
        width_blocks(d, m),
        width_blocks(d, 0),
        d.format.block_width as int,
    );
    vstd::arithmetic::mul::lemma_mul_inequality(
        height_blocks(d, m),
        height_blocks(d, 0),
        d.format.block_height as int,
    );
}

pub proof fn lemma_mip_chain_mono(d: TextureDescriptor, a: int, b: int)
    requires
        0 <= a <= b,
        d.format.wf(),
    ensures
        0 <= mip_chain_size(d, a) <= mip_chain_size(d, b),
    decreases b - a,
{
    if a < b {
        lemma_mip_chain_mono(d, a, b - 1);
        lemma_sub_image_nonneg(d, b - 1);
    } else {
        lemma_mip_chain_nonneg(d, a);
    }
}

proof fn lemma_sub_image_nonneg(d: TextureDescriptor, m: int)
    requires
        d.format.wf(),
    ensures
        sub_image_size(d, m) >= 0,
{
    lemma_physical_extent_max(d, m);
    vstd::arithmetic::mul::lemma_mul_nonnegative(
        width_blocks(d, m),
        d.format.block_size as int,
    );
    vstd::arithmetic::mul::lemma_mul_nonnegative(bytes_per_row(d, m), height_blocks(d, m));
}

proof fn lemma_mip_chain_nonneg(d: TextureDescriptor, n: int)
    requires
        d.format.wf(),
    ensures
        mip_chain_size(d, n) >= 0,
    decreases n,
{
    if n > 0 {
        lemma_mip_chain_nonneg(d, n - 1);
        lemma_sub_image_nonneg(d, n - 1);
    }
}

/// The sub-images of a texture tile a prefix of the source buffer in
/// (layer, mip level) order: the first starts at zero, each one starts where
/// the one before it ends, and the last ends at the total upload size.
pub proof fn lemma_upload_tiles_prefix(d: TextureDescriptor)
    requires
        d.format.wf(),
    ensures
        upload_offset(d, 0, 0) == 0,
        forall|l: int, m: int|
            0 <= l < layer_count(d) && 0 <= m && m + 1 < d.mip_level_count ==> #[trigger] upload_offset(
                d,
                l,
                m,
            ) + sub_image_size(d, m) == upload_offset(d, l, m + 1),
        forall|l: int|
            0 <= l < layer_count(d) && d.mip_level_count > 0 ==> #[trigger] upload_offset(
                d,
                l,
                d.mip_level_count - 1,
            ) + sub_image_size(d, d.mip_level_count - 1) == upload_offset(d, l + 1, 0),
        upload_offset(d, layer_count(d), 0) == total_upload_size(d),
        forall|l: int, m: int|
            0 <= l < layer_count(d) && 0 <= m < d.mip_level_count ==> 0 <= #[trigger] upload_offset(
                d,
                l,
                m,
            ) && upload_offset(d, l, m) + sub_image_size(d, m) <= total_upload_size(d),
{
    let n = d.mip_level_count as int;
    let c = mip_chain_size(d, n);
    assert forall|l: int| 0 <= l < layer_count(d) && n > 0 implies #[trigger] upload_offset(
        d,
        l,
        n - 1,
    ) + sub_image_size(d, n - 1) == upload_offset(d, l + 1, 0) by {
        assert((l + 1) * c == l * c + c) by (nonlinear_arith);
    }
    assert forall|l: int, m: int|
        0 <= l < layer_count(d) && 0 <= m < n implies 0 <= #[trigger] upload_offset(d, l, m)
        && upload_offset(d, l, m) + sub_image_size(d, m) <= total_upload_size(d) by {
        lemma_sub_image_in_bounds(d, l, m);
    }
}

/// Mip level `m` of layer `l` lies within the total upload size.
pub proof fn lemma_sub_image_in_bounds(d: TextureDescriptor, l: int, m: int)
    requires
        d.format.wf(),
        0 <= l < layer_count(d),
        0 <= m < d.mip_level_count,
    ensures
        0 <= upload_offset(d, l, m),
        upload_offset(d, l, m) + sub_image_size(d, m) <= total_upload_size(d),
{
    lemma_mip_chain_mono(d, 0, m);
    lemma_mip_chain_mono(d, m + 1, d.mip_level_count as int);
    lemma_upload_layer_bound(l, layer_count(d), mip_chain_size(d, d.mip_level_count as int));
}

proof fn lemma_upload_layer_bound(l: int, layers: int, c: int)
    requires
        0 <= l < layers,
        c >= 0,
    ensures
        0 <= l * c,
        l * c + c <= layers * c,
{
    assert(0 <= l * c) by (nonlinear_arith)
        requires
            0 <= l,
            c >= 0,
    ;
    assert(l * c + c <= layers * c) by (nonlinear_arith)
        requires
            l < layers,
            c >= 0,
    ;
}

/// Extent along one axis at mip level `level`.
pub fn mip_dimension(x: u32, level: u32) -> (r: u32)
    ensures
        r == mip_dim(x as int, level as int),
        1 <= r,
        r <= x || x == 0,
{
    let mut cur: u32 = x;
    let mut i: u32 = 0;
    while i < level
        invariant
            i <= level,
            cur == halved(x as int, i as int),
        decreases level - i,
    {
        cur = cur / 2;
        i = i + 1;
    }
    proof {
        lemma_halved_bounds(x as int, level as int);
    }
    if cur == 0 {
        1
    } else {
        cur
    }
}

/// Blocks across and down mip level `level`.
pub fn mip_block_counts(d: &TextureDescriptor, level: u32) -> (r: (u64, u64))
    requires
        d.format.wf(),
    ensures
        r.0 == width_blocks(*d, level as int),
        r.1 == height_blocks(*d, level as int),
        r.0 <= u32::MAX,
        r.1 <= u32::MAX,
{
    let w = mip_dimension(d.size.width, level) as u64;
    let h = mip_dimension(d.size.height, level) as u64;
    let bw = d.format.block_width as u64;
    let bh = d.format.block_height as u64;
    let wb = (w + bw - 1) / bw;
    let hb = (h + bh - 1) / bh;
    assert(wb <= u32::MAX) by (nonlinear_arith)
        requires
            wb == (w + bw - 1) / (bw as int),
            1 <= w <= u32::MAX,
            1 <= bw <= 255,
    ;
    assert(hb <= u32::MAX) by (nonlinear_arith)
        requires
            hb == (h + bh - 1) / (bh as int),
            1 <= h <= u32::MAX,
            1 <= bh <= 255,
    ;
    (wb, hb)
}

/// Bytes that mip level `level` of one layer takes.
pub fn sub_image_bytes(d: &TextureDescriptor, level: u32) -> (r: u128)
    requires
        d.format.wf(),
    ensures
        r == sub_image_size(*d, level as int),
        r <= 0x100_0000_0000_0000_0000,
{
    let (wb, hb) = mip_block_counts(d, level);
    let bs = d.format.block_size as u64;
    assert(wb * bs <= 0xff_ffff_ffff) by (nonlinear_arith)
        requires
            wb <= u32::MAX,
            bs <= 255,
    ;
    let bpr = wb * bs;
    assert(bpr * hb <= 0x100_0000_0000_0000_0000) by (nonlinear_arith)
        requires
            bpr <= 0xff_ffff_ffff,
            hb <= u32::MAX,
    ;
    let size = (bpr as u128) * (hb as u128);
    size
}

/// Bytes that the first `count` mip levels of one layer take.
pub fn mip_chain_bytes(d: &TextureDescriptor, count: u32) -> (r: u128)
    requires
        d.format.wf(),
        count <= 255,
    ensures
        r == mip_chain_size(*d, count as int),
        r <= 255 * 0x100_0000_0000_0000_0000,
{
    let mut sum: u128 = 0;
    let mut m: u32 = 0;
    while m < count
        invariant
            d.format.wf(),
            m <= count <= 255,
            sum == mip_chain_size(*d, m as int),
            sum <= m * 0x100_0000_0000_0000_0000,
        decreases count - m,
    {
        let s = sub_image_bytes(d, m);
        sum = sum + s;
        m = m + 1;
    }
    sum
}

} // verus!
