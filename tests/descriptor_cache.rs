use shatter::bind_group::{
    BindGroupDescriptor, BindGroupEntry, BindGroupLayoutDescriptor, BindGroupLayoutEntry,
    BindingResource, BindingType, BufferBinding, BufferBindingType, SHADER_STAGE_COMPUTE,
};
use shatter::cache::Registry;
use shatter::id::{Id, IdMap};
use shatter::pipeline::{ComputePipelineDescriptor, PipelineLayoutDescriptor, ShaderSource};

fn storage_entry(binding: u32, read_only: bool) -> BindGroupLayoutEntry {
    BindGroupLayoutEntry {
        binding,
        visibility: SHADER_STAGE_COMPUTE,
        ty: BindingType::Buffer {
            ty: BufferBindingType::Storage { read_only },
            has_dynamic_offset: false,
            min_binding_size: 0,
        },
        count: 0,
    }
}

fn uniform_entry(binding: u32) -> BindGroupLayoutEntry {
    BindGroupLayoutEntry {
        binding,
        visibility: SHADER_STAGE_COMPUTE,
        ty: BindingType::Buffer {
            ty: BufferBindingType::Uniform,
            has_dynamic_offset: false,
            min_binding_size: 0,
        },
        count: 0,
    }
}

#[test]
fn same_layout_twice_builds_once() {
    let mut reg: Registry<BindGroupLayoutDescriptor, String> = Registry::new();
    let mut built = 0;
    let a = reg.get_bind_group_layout(
        BindGroupLayoutDescriptor { entries: vec![storage_entry(0, false), uniform_entry(1)] },
        |_| {
            built += 1;
            "layout".to_string()
        },
    );
    let b = reg.get_bind_group_layout(
        BindGroupLayoutDescriptor { entries: vec![storage_entry(0, false), uniform_entry(1)] },
        |_| {
            built += 1;
            "layout again".to_string()
        },
    );
    assert_eq!(built, 1);
    assert_eq!(a.value(), b.value());
    assert_eq!(reg.cache.len(), 1);
    assert_eq!(reg.store.get(&a), Some(&"layout".to_string()));
    assert_eq!(a.ref_count(&reg.store), 2);
}

#[test]
fn permuted_layouts_share_identity() {
    let mut reg: Registry<BindGroupLayoutDescriptor, u32> = Registry::new();
    let a = reg.get_bind_group_layout(
        BindGroupLayoutDescriptor {
            entries: vec![uniform_entry(2), storage_entry(0, true), storage_entry(1, false)],
        },
        |d| {
            assert_eq!(
                d.entries.iter().map(|e| e.binding).collect::<Vec<_>>(),
                vec![0, 1, 2]
            );
            10
        },
    );
    let b = reg.get_bind_group_layout(
        BindGroupLayoutDescriptor {
            entries: vec![storage_entry(1, false), uniform_entry(2), storage_entry(0, true)],
        },
        |_| 20,
    );
    assert_eq!(a.value(), b.value());
    assert_eq!(reg.cache.len(), 1);
}

#[test]
fn different_layouts_get_different_identities() {
    let mut reg: Registry<BindGroupLayoutDescriptor, u32> = Registry::new();
    let a = reg.get_bind_group_layout(
        BindGroupLayoutDescriptor { entries: vec![storage_entry(0, true)] },
        |_| 1,
    );
    let b = reg.get_bind_group_layout(
        BindGroupLayoutDescriptor { entries: vec![storage_entry(0, false)] },
        |_| 2,
    );
    assert_ne!(a.value(), b.value());
    assert_eq!(reg.cache.len(), 2);
}

fn bind_group(layout: &Id, buffer: &Id) -> BindGroupDescriptor {
    BindGroupDescriptor {
        layout: layout.clone_untracked(),
        entries: vec![BindGroupEntry {
            binding: 0,
            resource: BindingResource::Buffer(BufferBinding {
                buffer: buffer.clone_untracked(),
                offset: 0,
                size: 0,
            }),
        }],
    }
}

#[test]
fn identical_bind_groups_add_no_cache_entry() {
    let mut buffers: IdMap<&str> = IdMap::new();
    let fresh = buffers.next_id();
    let buffer = buffers.insert(fresh, "device buffer");
    let mut layouts: Registry<BindGroupLayoutDescriptor, &str> = Registry::new();
    let layout = layouts.get_bind_group_layout(
        BindGroupLayoutDescriptor { entries: vec![storage_entry(0, false)] },
        |_| "layout",
    );
    let mut groups: Registry<BindGroupDescriptor, &str> = Registry::new();
    let first = groups.get_bind_group(bind_group(&layout, &buffer), |_| "group");
    assert_eq!(groups.cache.len(), 1);
    let second = groups.get_bind_group(bind_group(&layout, &buffer), |_| "other group");
    assert_eq!(groups.cache.len(), 1);
    assert_eq!(first.value(), second.value());
}

#[test]
fn shader_modules_are_keyed_by_text() {
    let mut reg: Registry<ShaderSource, u32> = Registry::new();
    let a = reg.get_shader_module(ShaderSource { text: "fn main() {}".to_string() }, |_| 1);
    let b = reg.get_shader_module(ShaderSource { text: "fn main() {}".to_string() }, |_| 2);
    let c = reg.get_shader_module(ShaderSource { text: "fn main()  {}".to_string() }, |_| 3);
    assert_eq!(a.value(), b.value());
    assert_ne!(a.value(), c.value());
    assert_eq!(reg.store.get(&c), Some(&3));
}

#[test]
fn pipelines_are_keyed_by_layout_module_and_entry_point() {
    let mut layouts: Registry<PipelineLayoutDescriptor, u32> = Registry::new();
    let mut ids: IdMap<u32> = IdMap::new();
    let g0 = ids.next_id();
    let pl = layouts.get_pipeline_layout(
        PipelineLayoutDescriptor { bind_group_layouts: vec![g0.clone_untracked()], push_constant_ranges: vec![] },
        |_| 5,
    );
    let pl2 = layouts.get_pipeline_layout(
        PipelineLayoutDescriptor { bind_group_layouts: vec![g0], push_constant_ranges: vec![] },
        |_| 6,
    );
    assert_eq!(pl.value(), pl2.value());
    let module = ids.next_id();
    let mut pipelines: Registry<ComputePipelineDescriptor, u32> = Registry::new();
    let p1 = pipelines.get_compute_pipeline(
        ComputePipelineDescriptor {
            layout: Some(pl.clone_untracked()),
            module: module.clone_untracked(),
            entry_point: "main".to_string(),
        },
        |_| 1,
    );
    let p2 = pipelines.get_compute_pipeline(
        ComputePipelineDescriptor {
            layout: Some(pl.clone_untracked()),
            module: module.clone_untracked(),
            entry_point: "other".to_string(),
        },
        |_| 2,
    );
    let p3 = pipelines.get_compute_pipeline(
        ComputePipelineDescriptor {
            layout: Some(pl),
            module,
            entry_point: "main".to_string(),
        },
        |_| 3,
    );
    assert_ne!(p1.value(), p2.value());
    assert_eq!(p1.value(), p3.value());
}

#[test]
fn reclaimed_objects_are_built_again() {
    let mut reg: Registry<ShaderSource, u32> = Registry::new();
    let a = reg.get_shader_module(ShaderSource { text: "a".to_string() }, |_| 1);
    let probe = a.clone_untracked();
    reg.store.release(a);
    reg.store.clean();
    assert_eq!(reg.store.get(&probe), None);
    let mut built = false;
    let b = reg.get_shader_module(ShaderSource { text: "a".to_string() }, |_| {
        built = true;
        2
    });
    assert!(built);
    assert_ne!(b.value(), probe.value());
    assert_eq!(reg.store.get(&b), Some(&2));
}
