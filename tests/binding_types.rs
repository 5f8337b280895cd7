use shatter::bind_group::{
    BindGroupLayoutDescriptor, BindGroupLayoutEntry, BindingType, BufferBindingType,
    StorageTextureAccess, TextureSampleType, SHADER_STAGE_COMPUTE,
};
use shatter::cache::DescriptorCache;
use shatter::canonical::canonical_order;
use shatter::id::IdMap;
use shatter::texture::{
    Float, StorageTextureBinding, TextureBinding, TextureFormat, TextureViewDimension, Uint, D2,
    D3,
};

fn entry(binding: u32, read_only: bool) -> BindGroupLayoutEntry {
    BindGroupLayoutEntry {
        binding,
        visibility: SHADER_STAGE_COMPUTE,
        ty: BindingType::Buffer {
            ty: BufferBindingType::Storage { read_only },
            has_dynamic_offset: false,
            min_binding_size: 0,
        },
        count: 0,
    }
}

#[test]
fn canonical_order_sorts_by_binding() {
    let sorted = canonical_order(vec![entry(3, true), entry(1, false), entry(2, true)]);
    assert_eq!(sorted, vec![entry(1, false), entry(2, true), entry(3, true)]);
    assert_eq!(canonical_order(Vec::<BindGroupLayoutEntry>::new()), vec![]);
}

#[test]
fn canonical_order_keeps_one_entry_per_binding() {
    let sorted = canonical_order(vec![entry(0, true), entry(0, false), entry(1, true)]);
    assert_eq!(sorted.len(), 2);
    assert_eq!(sorted[0], entry(0, false));
    assert_eq!(sorted[1], entry(1, true));
}

#[test]
fn canonicalize_layout_descriptor() {
    let d = BindGroupLayoutDescriptor { entries: vec![entry(5, true), entry(4, true)] }
        .canonicalize();
    assert_eq!(d.entries, vec![entry(4, true), entry(5, true)]);
}

#[test]
fn cache_insert_replaces_and_counts() {
    let mut ids: IdMap<u8> = IdMap::new();
    let a = ids.next_id();
    let b = ids.next_id();
    let mut cache: DescriptorCache<BindGroupLayoutDescriptor> = DescriptorCache::new();
    let key = || BindGroupLayoutDescriptor { entries: vec![entry(0, true)] };
    assert!(cache.get(&key()).is_none());
    cache.insert(key(), &a);
    assert_eq!(cache.len(), 1);
    assert_eq!(cache.get(&key()).map(|id| id.value()), Some(a.value()));
    cache.insert(key(), &b);
    assert_eq!(cache.len(), 1);
    let got = cache.get(&key()).unwrap();
    assert_eq!(got.value(), b.value());
    assert!(!got.is_counted());
}

#[test]
fn marker_types_name_their_binding_kinds() {
    assert_eq!(
        TextureBinding::<Float<true>, D2, false>::binding_type(),
        BindingType::Texture {
            sample_type: TextureSampleType::Float { filterable: true },
            view_dimension: TextureViewDimension::D2,
            multisampled: false,
        }
    );
    assert_eq!(
        TextureBinding::<Uint, D3, true>::binding_type(),
        BindingType::Texture {
            sample_type: TextureSampleType::Uint,
            view_dimension: TextureViewDimension::D3,
            multisampled: true,
        }
    );
    assert_eq!(
        StorageTextureBinding::<(), D2>::binding_type(
            TextureFormat::Rgba8Unorm,
            StorageTextureAccess::WriteOnly
        ),
        BindingType::StorageTexture {
            access: StorageTextureAccess::WriteOnly,
            format: TextureFormat::Rgba8Unorm,
            view_dimension: TextureViewDimension::D2,
        }
    );
    assert_eq!(
        TextureFormat::Rgba16Float.sample_type(),
        TextureSampleType::Float { filterable: false }
    );
    assert_eq!(TextureFormat::Rgba8Sint.sample_type(), TextureSampleType::Sint);
}
