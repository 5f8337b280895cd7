use vstd::prelude::*;

use crate::cache::{
    cache_hit, key_views, lemma_resolve_twice_same_identity, next_after, resolved, same_keys, CacheKey,
    Registry,
};
use crate::canonical::{
    canonical_order, is_canonical_form, lemma_canonical_form_ignores_order, unique_bindings,
    BindingIndexed,
};
use crate::id::Id;
use crate::texture::{TextureFormat, TextureViewDimension};

verus! {

/// Visibility bit of the vertex stage.
pub const SHADER_STAGE_VERTEX: u32 = 1;

/// Visibility bit of the fragment stage.
pub const SHADER_STAGE_FRAGMENT: u32 = 2;

/// Visibility bit of the compute stage.
pub const SHADER_STAGE_COMPUTE: u32 = 4;

#[derive(Clone, Copy, Debug, PartialEq, Eq, Structural)]
pub enum BufferBindingType {
    Uniform,
    Storage { read_only: bool },
}

#[derive(Clone, Copy, Debug, PartialEq, Eq, Structural)]
pub enum StorageTextureAccess {
    ReadOnly,
    WriteOnly,
    ReadWrite,
}

#[derive(Clone, Copy, Debug, PartialEq, Eq, Structural)]
pub enum TextureSampleType {
    Float { filterable: bool },
    Depth,
    Sint,
    Uint,
}

#[derive(Clone, Copy, Debug, PartialEq, Eq, Structural)]
pub enum SamplerBindingType {
    Filtering,
    NonFiltering,
    Comparison,
}

/// The kind of resource a binding slot takes.
///
/// A size or count of zero stands for "not given".
#[derive(Clone, Copy, Debug, PartialEq, Eq, Structural)]
pub enum BindingType {
    Buffer { ty: BufferBindingType, has_dynamic_offset: bool, min_binding_size: u64 },
    Sampler { kind: SamplerBindingType },
    Texture { sample_type: TextureSampleType, view_dimension: TextureViewDimension, multisampled: bool },
    StorageTexture {
        access: StorageTextureAccess,
        format: TextureFormat,
        view_dimension: TextureViewDimension,
    },
}

/// One slot of a bind group layout.
#[derive(Clone, Copy, Debug, PartialEq, Eq, Structural)]
pub struct BindGroupLayoutEntry {
    pub binding: u32,
    pub visibility: u32,
    pub ty: BindingType,
    pub count: u32,
}

impl View for BindGroupLayoutEntry {
    type V = BindGroupLayoutEntry;

    open spec fn view(&self) -> BindGroupLayoutEntry {
        *self
    }
}

impl CacheKey for BindGroupLayoutEntry {
    fn same_key(&self, other: &Self) -> (r: bool) {
        *self == *other
    }
}

impl BindingIndexed for BindGroupLayoutEntry {
    open spec fn binding_spec(&self) -> u32 {
        self.binding
    }

    fn binding_index(&self) -> (r: u32) {
        self.binding
    }
}

/// The type-level description of a bind group: its slots.
pub struct BindGroupLayoutDescriptor {
    pub entries: Vec<BindGroupLayoutEntry>,
}

impl View for BindGroupLayoutDescriptor {
    type V = Seq<BindGroupLayoutEntry>;

    open spec fn view(&self) -> Seq<BindGroupLayoutEntry> {
        key_views(self.entries@)
    }
}

impl CacheKey for BindGroupLayoutDescriptor {
    fn same_key(&self, other: &Self) -> (r: bool) {
        same_keys(&self.entries, &other.entries)
    }
}

impl BindGroupLayoutDescriptor {
    /// The same slots sorted by binding index, one per index.
    pub fn canonicalize(self) -> (r: Self)
        ensures
            is_canonical_form(self.entries@, r.entries@),
    {
        BindGroupLayoutDescriptor { entries: canonical_order(self.entries) }
    }
}

/// Two layouts that list the same slots in different orders resolve to the
/// same identity: resolving one and then the other, each in its canonical
/// order `e1`, `e2`, hands back one identity and builds nothing the second time.
pub proof fn lemma_permuted_layouts_share_identity<T>(
    d1: Seq<BindGroupLayoutEntry>,
    d2: Seq<BindGroupLayoutEntry>,
    e1: Seq<BindGroupLayoutEntry>,
    e2: Seq<BindGroupLayoutEntry>,
    c: Map<Seq<BindGroupLayoutEntry>, u64>,
    s: Map<u64, (u32, T)>,
    next: nat,
    next1: nat,
    c1: Map<Seq<BindGroupLayoutEntry>, u64>,
    s1: Map<u64, (u32, T)>,
    r1: u64,
    c2: Map<Seq<BindGroupLayoutEntry>, u64>,
    s2: Map<u64, (u32, T)>,
    r2: u64,
)
    requires
        unique_bindings(d1),
        unique_bindings(d2),
        forall|x: BindGroupLayoutEntry| d1.contains(x) <==> d2.contains(x),
        is_canonical_form(d1, e1),
        is_canonical_form(d2, e2),
        resolved(c, s, next, key_views(e1), c1, s1, r1),
        resolved(c1, s1, next1, key_views(e2), c2, s2, r2),
    ensures
        r2 == r1,
        c2 == c1,
        s2.dom() == s1.dom(),
{
    lemma_canonical_form_ignores_order(d1, d2, e1, e2);
    assert(cache_hit(c1, s1, key_views(e2)));
    assert(s2.dom() =~= s1.dom());
}

impl<T> Registry<BindGroupLayoutDescriptor, T> {
    /// The identity of the layout object for `desc`, taken in canonical order:
    /// the one already built, else one that `build` makes now from the
    /// canonical descriptor.
    pub fn get_bind_group_layout<F: FnOnce(&BindGroupLayoutDescriptor) -> T>(
        &mut self,
        desc: BindGroupLayoutDescriptor,
        build: F,
    ) -> (r: Id)
        requires
            old(self).wf(),
            old(self).store.next_value() < u64::MAX,
            forall|k: u64| #[trigger] old(self).store@.contains_key(k) ==> old(self).store@[k].0 < u32::MAX,
            forall|d: &BindGroupLayoutDescriptor| build.requires((d,)),
        ensures
            final(self).wf(),
            r.counted(),
            final(self).store.next_value() <= old(self).store.next_value() + 1,
            exists|e: BindGroupLayoutDescriptor|
                #[trigger] is_canonical_form(desc.entries@, e.entries@) && {
                    &&& resolved(
                        old(self).cache@,
                        old(self).store@,
                        old(self).store.next_value(),
                        e@,
                        final(self).cache@,
                        final(self).store@,
                        r@,
                    )
                    &&& final(self).store.next_value() == next_after(
                        old(self).cache@,
                        old(self).store@,
                        old(self).store.next_value(),
                        e@,
                    )
                    &&& !cache_hit(old(self).cache@, old(self).store@, e@) ==> exists|v: T|
                        build.ensures((&e,), v) && final(self).store@ == old(self).store@.insert(
                            r@,
                            (1u32, v),
                        )
                }
    {
        let canonical = desc.canonicalize();
        let ghost g = canonical;
        let r = self.resolve(canonical, build);
        assert(is_canonical_form(desc.entries@, g.entries@));
        r
    }
}

/// A buffer bound to a slot: `size` zero binds the rest of the buffer.
pub struct BufferBinding {
    pub buffer: Id,
    pub offset: u64,
    pub size: u64,
}

/// The resource placed in a slot of a bind group.
pub enum BindingResource {
    Buffer(BufferBinding),
    Sampler(Id),
    TextureView(Id),
}

/// What a bound resource is, with identities taken by value.
#[derive(Clone, Copy, Debug, PartialEq, Eq, Structural)]
pub enum ResourceKey {
    Buffer { buffer: u64, offset: u64, size: u64 },
    Sampler { sampler: u64 },
    TextureView { texture: u64 },
}

impl View for BindingResource {
    type V = ResourceKey;

    open spec fn view(&self) -> ResourceKey {
        match self {
            BindingResource::Buffer(b) => ResourceKey::Buffer {
                buffer: b.buffer@,
                offset: b.offset,
                size: b.size,
            },
            BindingResource::Sampler(id) => ResourceKey::Sampler { sampler: id@ },
            BindingResource::TextureView(id) => ResourceKey::TextureView { texture: id@ },
        }
    }
}

impl BindingResource {
    pub fn key(&self) -> (r: ResourceKey)
        ensures
            r == self@,
    {
        match self {
            BindingResource::Buffer(b) => ResourceKey::Buffer {
                buffer: b.buffer.value(),
                offset: b.offset,
                size: b.size,
            },
            BindingResource::Sampler(id) => ResourceKey::Sampler { sampler: id.value() },
            BindingResource::TextureView(id) => ResourceKey::TextureView { texture: id.value() },
        }
    }
}

/// One slot of a bind group and the resource in it.
pub struct BindGroupEntry {
    pub binding: u32,
    pub resource: BindingResource,
}

impl View for BindGroupEntry {
    type V = (u32, ResourceKey);

    open spec fn view(&self) -> (u32, ResourceKey) {
        (self.binding, self.resource@)
    }
}

impl CacheKey for BindGroupEntry {
    fn same_key(&self, other: &Self) -> (r: bool) {
        self.binding == other.binding && self.resource.key() == other.resource.key()
    }
}

impl BindingIndexed for BindGroupEntry {
    open spec fn binding_spec(&self) -> u32 {
        self.binding
    }

    fn binding_index(&self) -> (r: u32) {
        self.binding
    }
}

/// A bind group: a layout and the resources placed in its slots.
pub struct BindGroupDescriptor {
    pub layout: Id,
    pub entries: Vec<BindGroupEntry>,
}

impl View for BindGroupDescriptor {
    type V = (u64, Seq<(u32, ResourceKey)>);

    open spec fn view(&self) -> (u64, Seq<(u32, ResourceKey)>) {
        (self.layout@, key_views(self.entries@))
    }
}

impl CacheKey for BindGroupDescriptor {
    fn same_key(&self, other: &Self) -> (r: bool) {
        self.layout.value() == other.layout.value() && same_keys(&self.entries, &other.entries)
    }
}

impl BindGroupDescriptor {
    /// The same slots sorted by binding index, one per index.
    pub fn canonicalize(self) -> (r: Self)
        ensures
            r.layout == self.layout,
            is_canonical_form(self.entries@, r.entries@),
    {
        BindGroupDescriptor { layout: self.layout, entries: canonical_order(self.entries) }
    }
}

impl<T> Registry<BindGroupDescriptor, T> {
    /// The identity of the bind group object for `desc`, taken in canonical
    /// order: the one already built, else one that `build` makes now from the
    /// canonical descriptor.
    pub fn get_bind_group<F: FnOnce(&BindGroupDescriptor) -> T>(
        &mut self,
        desc: BindGroupDescriptor,
        build: F,
    ) -> (r: Id)
        requires
            old(self).wf(),
            old(self).store.next_value() < u64::MAX,
            forall|k: u64| #[trigger] old(self).store@.contains_key(k) ==> old(self).store@[k].0 < u32::MAX,
            forall|d: &BindGroupDescriptor| build.requires((d,)),
        ensures
            final(self).wf(),
            r.counted(),
            final(self).store.next_value() <= old(self).store.next_value() + 1,
            exists|e: BindGroupDescriptor|
                #[trigger] is_canonical_form(desc.entries@, e.entries@) && {
                    &&& e.layout@ == desc.layout@
                    &&& resolved(
                        old(self).cache@,
                        old(self).store@,
                        old(self).store.next_value(),
                        e@,
                        final(self).cache@,
                        final(self).store@,
                        r@,
                    )
                    &&& final(self).store.next_value() == next_after(
                        old(self).cache@,
                        old(self).store@,
                        old(self).store.next_value(),
                        e@,
                    )
                    &&& !cache_hit(old(self).cache@, old(self).store@, e@) ==> exists|v: T|
                        build.ensures((&e,), v) && final(self).store@ == old(self).store@.insert(
                            r@,
                            (1u32, v),
                        )
                }
    {
        let canonical = desc.canonicalize();
        let ghost g = canonical;
        let r = self.resolve(canonical, build);
        assert(is_canonical_form(desc.entries@, g.entries@));
        r
    }
}

/// Two bind groups on one layout that list the same (binding, resource)
/// entries in different orders resolve to the same identity: resolving one
/// and then the other, each in its canonical order `e1`, `e2`, hands back one
/// identity and builds nothing the second time.
pub proof fn lemma_permuted_bind_groups_share_identity<T>(
    layout: u64,
    d1: Seq<BindGroupEntry>,
    d2: Seq<BindGroupEntry>,
    e1: Seq<BindGroupEntry>,
    e2: Seq<BindGroupEntry>,
    c: Map<(u64, Seq<(u32, ResourceKey)>), u64>,
    s: Map<u64, (u32, T)>,
    next: nat,
    next1: nat,
    c1: Map<(u64, Seq<(u32, ResourceKey)>), u64>,
    s1: Map<u64, (u32, T)>,
    r1: u64,
    c2: Map<(u64, Seq<(u32, ResourceKey)>), u64>,
    s2: Map<u64, (u32, T)>,
    r2: u64,
)
    requires
        unique_bindings(d1),
        unique_bindings(d2),
        forall|x: BindGroupEntry| d1.contains(x) <==> d2.contains(x),
        is_canonical_form(d1, e1),
        is_canonical_form(d2, e2),
        forall|j: u64| s.contains_key(j) ==> (j as nat) < next,
        resolved(c, s, next, (layout, key_views(e1)), c1, s1, r1),
        resolved(c1, s1, next1, (layout, key_views(e2)), c2, s2, r2),
    ensures
        r2 == r1,
        c2 == c1,
        s2.dom() == s1.dom(),
{
    lemma_canonical_form_ignores_order(d1, d2, e1, e2);
    lemma_resolve_twice_same_identity(c, s, next, next1, (layout, key_views(e1)), c1, s1, r1, c2, s2, r2);
}

} // verus!
