use shatter::id::IdMap;
use shatter::texture::{
    bytes_per_row, Texture, TextureError, TextureFormat, TextureStorageD1, TextureStorageD2,
    TextureStorageData,
};

#[test]
fn rows_are_padded_to_the_copy_alignment() {
    assert_eq!(bytes_per_row(4, 10), Some(256));
    assert_eq!(bytes_per_row(4, 64), Some(256));
    assert_eq!(bytes_per_row(4, 65), Some(512));
    assert_eq!(bytes_per_row(16, 16), Some(256));
    assert_eq!(bytes_per_row(8, 0), Some(0));
    assert_eq!(bytes_per_row(16, usize::MAX), None);
}

#[test]
fn texel_sizes_follow_the_format() {
    assert_eq!(TextureFormat::Rgba8Unorm.texel_size(), 4);
    assert_eq!(TextureFormat::Rgba16Float.texel_size(), 8);
    assert_eq!(TextureFormat::Rg32Uint.texel_size(), 8);
    assert_eq!(TextureFormat::Rgba32Float.texel_size(), 16);
    assert!(!TextureFormat::Rgba8UnormSrgb.is_storable());
    assert!(TextureFormat::Rgba8Unorm.is_storable());
}

#[test]
fn storage_shapes() {
    let d1 = TextureStorageD1::new(TextureFormat::R32Float, 3).ok().unwrap();
    assert_eq!(d1.bytes_per_row, 256);
    let d2 = TextureStorageD2::new(TextureFormat::Rgba8Unorm, 100, 3).ok().unwrap();
    assert_eq!(d2.bytes_per_row, 512);
    assert!(matches!(
        TextureStorageD2::new(TextureFormat::Rgba32Float, usize::MAX / 32, 4),
        Err(TextureError::TooLarge)
    ));
    let data = TextureStorageData::new(12);
    assert_eq!(data.size(), 12);
    assert_eq!(data.bytes(), &[0u8; 12][..]);
}

#[test]
fn texels_are_written_in_the_padded_layout() {
    let mut store: IdMap<u32> = IdMap::new();
    let mut t = Texture::new_2d(TextureFormat::Rgba8Unorm, 2, 2, &mut store, 1).ok().unwrap();
    assert_eq!(t.bytes_per_row(), 256);
    assert_eq!(t.download_size(), 512);
    assert!(!t.needs_upload());
    assert_eq!(t.set_texel(1, 1, 0, &[1, 2, 3, 4]), Ok(()));
    assert!(t.needs_upload());
    assert_eq!(t.texel(1, 1, 0), Ok(vec![1, 2, 3, 4]));
    assert_eq!(t.texel(0, 1, 0), Ok(vec![0, 0, 0, 0]));
    let bytes = t.bytes().ok().unwrap();
    assert_eq!(&bytes[256 + 4..256 + 8], &[1, 2, 3, 4]);
    assert_eq!(t.texel(2, 0, 0), Err(TextureError::OutOfBounds));
    assert_eq!(t.set_texel(0, 2, 0, &[0; 4]), Err(TextureError::OutOfBounds));
}

#[test]
fn upload_and_download_flags_are_independent() {
    let mut store: IdMap<u32> = IdMap::new();
    let mut t = Texture::new_2d(TextureFormat::R32Uint, 1, 1, &mut store, 1).ok().unwrap();
    assert!(!t.upload());
    t.mark_needs_upload();
    t.mark_needs_download();
    assert!(t.upload());
    assert!(!t.needs_upload());
    assert!(t.needs_download());
    assert!(!t.upload());
    assert_eq!(t.texel(0, 0, 0), Err(TextureError::NeedsDownload));
    let mut data = vec![0u8; 256];
    data[..4].copy_from_slice(&[9, 8, 7, 6]);
    t.complete_download(&data);
    assert!(!t.needs_download());
    assert_eq!(t.texel(0, 0, 0), Ok(vec![9, 8, 7, 6]));
}

#[test]
fn texture_is_registered_in_its_store() {
    let mut store: IdMap<u32> = IdMap::new();
    let t = Texture::new_2d(TextureFormat::Rgba8Uint, 4, 4, &mut store, 42).ok().unwrap();
    assert_eq!(store.get(&t.texture_id()), Some(&42));
    assert_eq!((t.width(), t.height(), t.depth()), (4, 4, 1));
    assert_eq!(t.format(), TextureFormat::Rgba8Uint);
}

#[test]
fn texels_past_the_last_layer_are_out_of_bounds() {
    let mut store: IdMap<u32> = IdMap::new();
    let mut t = Texture::new_2d(TextureFormat::R32Uint, 2, 1, &mut store, 1).ok().unwrap();
    assert_eq!(t.texel(0, 0, 1), Err(TextureError::OutOfBounds));
    assert_eq!(t.set_texel(1, 0, 1, &[1, 2, 3, 4]), Err(TextureError::OutOfBounds));
    assert_eq!(t.set_texel(1, 0, 0, &[1, 2, 3, 4]), Ok(()));
    assert_eq!(t.host_bytes()[4..8], [1, 2, 3, 4]);
}
