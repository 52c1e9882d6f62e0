use wgpu_util::device::{
    BufferUsage, Device, Extent3d, FormatBlockInfo, Origin3d, Queue, TextureDataLayout,
    TextureDescriptor, TextureDimension, TextureUsage,
};
use wgpu_util::layout::{buffer_padded_size, mip_chain_bytes, mip_dimension, sub_image_bytes};
use wgpu_util::spirv::{spirv_to_bytes, ShaderSource, SpirvError, SPIRV_MAGIC_NUMBER};
use wgpu_util::util::TextureUploadError;
use wgpu_util::{make_spirv, BufferInitDescriptor, DeviceExt};

fn bc1() -> FormatBlockInfo {
    FormatBlockInfo { block_width: 4, block_height: 4, block_size: 16 }
}

fn rgba8() -> FormatBlockInfo {
    FormatBlockInfo { block_width: 1, block_height: 1, block_size: 4 }
}

fn texture_desc(
    size: Extent3d,
    mips: u32,
    dimension: TextureDimension,
    format: FormatBlockInfo,
) -> TextureDescriptor<'static> {
    TextureDescriptor {
        label: Some("texture"),
        size,
        mip_level_count: mips,
        sample_count: 1,
        dimension,
        format,
        usage: TextureUsage { bits: 2 },
    }
}

fn spirv_header() -> Vec<u8> {
    vec![0x03, 0x02, 0x23, 0x07, 0x00, 0x00, 0x01, 0x00]
}

#[test]
fn spirv_accepts_a_module() {
    let bytes = spirv_header();
    match make_spirv(&bytes) {
        Ok(ShaderSource::SpirV(words)) => {
            assert_eq!(words, vec![SPIRV_MAGIC_NUMBER, 0x0001_0000]);
        }
        Err(e) => panic!("unexpected error {:?}", e),
    }
}

#[test]
fn spirv_rejects_length_not_multiple_of_four() {
    for len in [1usize, 2, 3, 5, 6, 7, 9] {
        let mut bytes = spirv_header();
        bytes.resize(len, 0);
        assert_eq!(make_spirv(&bytes), Err(SpirvError::LengthNotMultipleOfFour { len }));
    }
}

#[test]
fn spirv_rejects_empty_input() {
    assert_eq!(make_spirv(&[]), Err(SpirvError::Empty));
}

#[test]
fn spirv_rejects_wrong_magic_number() {
    let bytes = vec![0x07, 0x23, 0x02, 0x03, 0, 0, 0, 0];
    assert_eq!(make_spirv(&bytes), Err(SpirvError::WrongMagicNumber { found: 0x0302_2307 }));
}

#[test]
fn spirv_unaligned_input_is_copied() {
    let mut storage = vec![0u8];
    storage.extend(spirv_header());
    let r = make_spirv(&storage[1..]);
    assert_eq!(r, Ok(ShaderSource::SpirV(vec![SPIRV_MAGIC_NUMBER, 0x0001_0000])));
}

#[test]
fn spirv_round_trip_gives_the_bytes_back() {
    let mut bytes = spirv_header();
    bytes.extend([0xde, 0xad, 0xbe, 0xef, 0x01, 0x02, 0x03, 0x04]);
    match make_spirv(&bytes) {
        Ok(ShaderSource::SpirV(words)) => {
            assert_eq!(words[2], 0xefbe_adde);
            assert_eq!(spirv_to_bytes(&words), bytes);
        }
        Err(e) => panic!("unexpected error {:?}", e),
    }
}

#[test]
fn padded_size_always_adds_padding() {
    assert_eq!(buffer_padded_size(0), 4);
    assert_eq!(buffer_padded_size(1), 4);
    assert_eq!(buffer_padded_size(3), 4);
    assert_eq!(buffer_padded_size(4), 8);
    assert_eq!(buffer_padded_size(5), 8);
}

#[test]
fn buffer_init_pads_with_zeros() {
    let device = Device::new();
    let contents = [1u8, 2, 3, 4, 5];
    let desc = BufferInitDescriptor {
        label: Some("vertices"),
        contents: &contents,
        usage: BufferUsage { bits: 32 },
    };
    let buffer = device.create_buffer_init(&desc);
    assert_eq!(buffer.size, 8);
    assert_eq!(buffer.contents, vec![1, 2, 3, 4, 5, 0, 0, 0]);
    assert_eq!(buffer.usage, BufferUsage { bits: 32 });
    assert!(!buffer.mapped);
}

#[test]
fn buffer_init_aligned_contents_get_a_whole_pad_block() {
    let device = Device::new();
    let contents = [9u8, 8, 7, 6];
    let desc = BufferInitDescriptor { label: None, contents: &contents, usage: BufferUsage { bits: 0 } };
    let buffer = device.create_buffer_init(&desc);
    assert_eq!(buffer.size, 8);
    assert_eq!(buffer.contents, vec![9, 8, 7, 6, 0, 0, 0, 0]);
}

#[test]
fn buffer_init_empty_contents() {
    let device = Device::new();
    let desc = BufferInitDescriptor { label: None, contents: &[], usage: BufferUsage { bits: 0 } };
    let buffer = device.create_buffer_init(&desc);
    assert_eq!(buffer.size, 4);
    assert_eq!(buffer.contents, vec![0, 0, 0, 0]);
}

#[test]
fn mip_dimension_halves_down_to_one() {
    assert_eq!(mip_dimension(8, 0), 8);
    assert_eq!(mip_dimension(8, 1), 4);
    assert_eq!(mip_dimension(8, 3), 1);
    assert_eq!(mip_dimension(8, 4), 1);
    assert_eq!(mip_dimension(7, 1), 3);
    assert_eq!(mip_dimension(u32::MAX, 255), 1);
    assert_eq!(mip_dimension(0, 0), 1);
}

#[test]
fn sub_image_sizes_round_to_blocks() {
    let d = texture_desc(Extent3d { width: 8, height: 8, depth: 1 }, 4, TextureDimension::D2, bc1());
    assert_eq!(sub_image_bytes(&d, 0), 64);
    assert_eq!(sub_image_bytes(&d, 1), 16);
    assert_eq!(sub_image_bytes(&d, 2), 16);
    assert_eq!(sub_image_bytes(&d, 3), 16);
    assert_eq!(mip_chain_bytes(&d, 4), 112);
}

#[test]
fn upload_single_compressed_mip() {
    let device = Device::new();
    let mut queue = Queue::new();
    let d = texture_desc(Extent3d { width: 8, height: 8, depth: 1 }, 1, TextureDimension::D2, bc1());
    // 2x2 blocks of 16 bytes.
    let data: Vec<u8> = (0..64).map(|i| i as u8).collect();
    let texture = device.create_texture_with_data(&mut queue, &d, &data).unwrap();
    assert_eq!(texture.size, d.size);
    assert_eq!(queue.writes.len(), 1);
    let w = &queue.writes[0];
    assert_eq!(w.texture, texture);
    assert_eq!(w.mip_level, 0);
    assert_eq!(w.origin, Origin3d { x: 0, y: 0, z: 0 });
    assert_eq!(w.data.len(), 64);
    assert_eq!(w.data, data);
    assert_eq!(w.layout, TextureDataLayout { offset: 0, bytes_per_row: 32, rows_per_image: 0 });
    assert_eq!(w.size, Extent3d { width: 8, height: 8, depth: 1 });
}

#[test]
fn upload_rejects_mip_count_over_255() {
    let device = Device::new();
    let mut queue = Queue::new();
    let d = texture_desc(Extent3d { width: 8, height: 8, depth: 1 }, 256, TextureDimension::D2, bc1());
    let data = vec![0u8; 4096];
    let r = device.create_texture_with_data(&mut queue, &d, &data);
    assert_eq!(r, Err(TextureUploadError::MipLevelCountOverflow { count: 256 }));
    assert!(queue.writes.is_empty());
}

#[test]
fn upload_rejects_short_data() {
    let device = Device::new();
    let mut queue = Queue::new();
    let d = texture_desc(Extent3d { width: 8, height: 8, depth: 2 }, 2, TextureDimension::D2, bc1());
    // Each layer: 64 bytes for mip 0 and 16 for mip 1.
    let data = vec![0u8; 159];
    let r = device.create_texture_with_data(&mut queue, &d, &data);
    assert_eq!(r, Err(TextureUploadError::DataTooShort { required: 160, available: 159 }));
    assert!(queue.writes.is_empty());
}

#[test]
fn upload_rejects_physical_extent_overflow() {
    let device = Device::new();
    let mut queue = Queue::new();
    let d = texture_desc(Extent3d { width: u32::MAX, height: 4, depth: 1 }, 1, TextureDimension::D2, bc1());
    let r = device.create_texture_with_data(&mut queue, &d, &[]);
    assert_eq!(
        r,
        Err(TextureUploadError::PhysicalExtentOverflow { width: 0x1_0000_0000, height: 4 })
    );
    assert!(queue.writes.is_empty());
}

#[test]
fn upload_array_layers_in_order() {
    let device = Device::new();
    let mut queue = Queue::new();
    let d = texture_desc(Extent3d { width: 4, height: 2, depth: 2 }, 2, TextureDimension::D2, rgba8());
    // Each layer: mip 0 is 4x2x4 = 32 bytes, mip 1 is 2x1x4 = 8 bytes.
    let data: Vec<u8> = (0..85).map(|i| i as u8).collect();
    device.create_texture_with_data(&mut queue, &d, &data).unwrap();
    assert_eq!(queue.writes.len(), 4);
    let expected = [(0u32, 0u32, 0usize, 32usize), (0, 1, 32, 8), (1, 0, 40, 32), (1, 1, 72, 8)];
    let mut consumed = 0usize;
    for (w, &(layer, mip, start, len)) in queue.writes.iter().zip(expected.iter()) {
        assert_eq!(w.origin, Origin3d { x: 0, y: 0, z: layer });
        assert_eq!(w.mip_level, mip);
        assert_eq!(w.data, data[start..start + len].to_vec());
        assert_eq!(start, consumed);
        consumed += len;
    }
    assert_eq!(consumed, 80);
    assert_eq!(queue.writes[1].size, Extent3d { width: 2, height: 1, depth: 1 });
    assert_eq!(queue.writes[1].layout.bytes_per_row, 8);
}

#[test]
fn upload_volume_as_one_layer() {
    let device = Device::new();
    let mut queue = Queue::new();
    let d = texture_desc(Extent3d { width: 4, height: 4, depth: 4 }, 2, TextureDimension::D3, rgba8());
    let data = vec![7u8; 80];
    device.create_texture_with_data(&mut queue, &d, &data).unwrap();
    assert_eq!(queue.writes.len(), 2);
    assert_eq!(queue.writes[0].origin, Origin3d { x: 0, y: 0, z: 0 });
    assert_eq!(queue.writes[0].size, Extent3d { width: 4, height: 4, depth: 4 });
    assert_eq!(queue.writes[0].data.len(), 64);
    assert_eq!(queue.writes[1].size, Extent3d { width: 2, height: 2, depth: 2 });
    assert_eq!(queue.writes[1].data.len(), 16);
}

#[test]
fn upload_rounds_small_mips_to_whole_blocks() {
    let device = Device::new();
    let mut queue = Queue::new();
    let d = texture_desc(Extent3d { width: 6, height: 10, depth: 1 }, 3, TextureDimension::D2, bc1());
    // Physical sizes: 8x12 (2x3 blocks), 4x8 (1x2 blocks), 4x4 (1x1 block).
    let data = vec![1u8; 96 + 32 + 16];
    device.create_texture_with_data(&mut queue, &d, &data).unwrap();
    let sizes: Vec<usize> = queue.writes.iter().map(|w| w.data.len()).collect();
    assert_eq!(sizes, vec![96, 32, 16]);
    assert_eq!(queue.writes[0].size, Extent3d { width: 8, height: 12, depth: 1 });
    assert_eq!(queue.writes[1].size, Extent3d { width: 4, height: 8, depth: 1 });
    assert_eq!(queue.writes[2].size, Extent3d { width: 4, height: 4, depth: 1 });
    assert_eq!(queue.writes[2].layout.bytes_per_row, 16);
}

#[test]
fn upload_keeps_earlier_writes() {
    let device = Device::new();
    let mut queue = Queue::new();
    let d = texture_desc(Extent3d { width: 1, height: 1, depth: 1 }, 1, TextureDimension::D2, rgba8());
    device.create_texture_with_data(&mut queue, &d, &[1, 2, 3, 4]).unwrap();
    device.create_texture_with_data(&mut queue, &d, &[5, 6, 7, 8, 9]).unwrap();
    assert_eq!(queue.writes.len(), 2);
    assert_eq!(queue.writes[0].data, vec![1, 2, 3, 4]);
    assert_eq!(queue.writes[1].data, vec![5, 6, 7, 8]);
}

#[test]
fn buffer_init_layout_for_many_lengths() {
    let device = Device::new();
    for len in 0usize..13 {
        let contents: Vec<u8> = (0..len).map(|i| (i as u8) + 1).collect();
        let desc = BufferInitDescriptor { label: None, contents: &contents, usage: BufferUsage { bits: 8 } };
        let buffer = device.create_buffer_init(&desc);
        let padded = len + 4 - len % 4;
        assert_eq!(buffer.size as usize, padded);
        assert_eq!(buffer.contents.len(), padded);
        assert_eq!(&buffer.contents[..len], &contents[..]);
        assert!(buffer.contents[len..].iter().all(|&b| b == 0));
    }
}

#[test]
fn upload_consumes_prefix_without_gaps() {
    let device = Device::new();
    let mut queue = Queue::new();
    let d = texture_desc(Extent3d { width: 12, height: 5, depth: 3 }, 3, TextureDimension::D2, bc1());
    // Per layer: 3x2 blocks, 2x1 blocks, 1x1 block of 16 bytes: 96 + 32 + 16.
    let data: Vec<u8> = (0..500).map(|i| (i % 251) as u8).collect();
    device.create_texture_with_data(&mut queue, &d, &data).unwrap();
    assert_eq!(queue.writes.len(), 9);
    let joined: Vec<u8> = queue.writes.iter().flat_map(|w| w.data.iter().copied()).collect();
    assert_eq!(joined.len(), 3 * 144);
    assert_eq!(joined, data[..3 * 144].to_vec());
}

#[test]
fn spirv_round_trip_many_words() {
    let mut bytes = spirv_header();
    for i in 0u32..64 {
        bytes.extend(i.wrapping_mul(0x9e37_79b9).to_le_bytes());
    }
    match make_spirv(&bytes) {
        Ok(ShaderSource::SpirV(words)) => {
            assert_eq!(words.len(), 66);
            assert_eq!(words[3], 0x9e37_79b9);
            assert_eq!(spirv_to_bytes(&words), bytes);
        }
        Err(e) => panic!("unexpected error {:?}", e),
    }
}
