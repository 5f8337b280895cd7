use vstd::prelude::*;

use crate::cache::{cache_hit, key_views, next_after, resolved, same_keys, CacheKey, Registry};
use crate::id::Id;

verus! {

/// A range of push-constant bytes visible to the given stages.
#[derive(Clone, Copy, Debug, PartialEq, Eq, Structural)]
pub struct PushConstantRange {
    pub stages: u32,
    pub start: u32,
    pub end: u32,
}

impl View for PushConstantRange {
    type V = PushConstantRange;

    open spec fn view(&self) -> PushConstantRange {
        *self
    }
}

impl CacheKey for PushConstantRange {
    fn same_key(&self, other: &Self) -> (r: bool) {
        *self == *other
    }
}

/// A pipeline layout: the bind group layouts in group order, and the
/// push-constant ranges.
pub struct PipelineLayoutDescriptor {
    pub bind_group_layouts: Vec<Id>,
    pub push_constant_ranges: Vec<PushConstantRange>,
}

impl View for PipelineLayoutDescriptor {
    type V = (Seq<u64>, Seq<PushConstantRange>);

    open spec fn view(&self) -> (Seq<u64>, Seq<PushConstantRange>) {
        (key_views(self.bind_group_layouts@), key_views(self.push_constant_ranges@))
    }
}

impl CacheKey for PipelineLayoutDescriptor {
    fn same_key(&self, other: &Self) -> (r: bool) {
        same_keys(&self.bind_group_layouts, &other.bind_group_layouts) && same_keys(
            &self.push_constant_ranges,
            &other.push_constant_ranges,
        )
    }
}

/// A compute pipeline: its layout (if any), its shader module and the name of
/// the entry point it runs.
pub struct ComputePipelineDescriptor {
    pub layout: Option<Id>,
    pub module: Id,
    pub entry_point: String,
}

impl View for ComputePipelineDescriptor {
    type V = (Option<u64>, u64, Seq<char>);

    open spec fn view(&self) -> (Option<u64>, u64, Seq<char>) {
        (
            match self.layout {
                Some(id) => Some(id@),
                None => None,
            },
            self.module@,
            self.entry_point@,
        )
    }
}

impl CacheKey for ComputePipelineDescriptor {
    fn same_key(&self, other: &Self) -> (r: bool) {
        let same_layout = match (&self.layout, &other.layout) {
            (Some(a), Some(b)) => a.value() == b.value(),
            (None, None) => true,
            _ => false,
        };
        same_layout && self.module.value() == other.module.value() && self.entry_point
            == other.entry_point
    }
}

/// The source text of a shader module. Modules are keyed by the text itself,
/// so sources that differ in spelling are never shared.
pub struct ShaderSource {
    pub text: String,
}

impl View for ShaderSource {
    type V = Seq<char>;

    open spec fn view(&self) -> Seq<char> {
        self.text@
    }
}

impl CacheKey for ShaderSource {
    fn same_key(&self, other: &Self) -> (r: bool) {
        self.text == other.text
    }
}

impl<T> Registry<PipelineLayoutDescriptor, T> {
    /// The identity of the pipeline layout object for `desc`: the one already
    /// built, else one that `build` makes now.
    pub fn get_pipeline_layout<F: FnOnce(&PipelineLayoutDescriptor) -> T>(
        &mut self,
        desc: PipelineLayoutDescriptor,
        build: F,
    ) -> (r: Id)
        requires
            old(self).wf(),
            old(self).store.next_value() < u64::MAX,
            forall|k: u64| #[trigger] old(self).store@.contains_key(k) ==> old(self).store@[k].0 < u32::MAX,
            build.requires((&desc,)),
        ensures
            final(self).wf(),
            r.counted(),
            final(self).store.next_value() == next_after(
                old(self).cache@,
                old(self).store@,
                old(self).store.next_value(),
                desc@,
            ),
            resolved(
                old(self).cache@,
                old(self).store@,
                old(self).store.next_value(),
                desc@,
                final(self).cache@,
                final(self).store@,
                r@,
            ),
            !cache_hit(old(self).cache@, old(self).store@, desc@) ==> exists|v: T|
                build.ensures((&desc,), v) && final(self).store@ == old(self).store@.insert(
                    r@,
                    (1u32, v),
                ),
    {
        self.resolve(desc, build)
    }
}

impl<T> Registry<ComputePipelineDescriptor, T> {
    /// The identity of the compute pipeline object for `desc`: the one
    /// already built, else one that `build` makes now.
    pub fn get_compute_pipeline<F: FnOnce(&ComputePipelineDescriptor) -> T>(
        &mut self,
        desc: ComputePipelineDescriptor,
        build: F,
    ) -> (r: Id)
        requires
            old(self).wf(),
            old(self).store.next_value() < u64::MAX,
            forall|k: u64| #[trigger] old(self).store@.contains_key(k) ==> old(self).store@[k].0 < u32::MAX,
            build.requires((&desc,)),
        ensures
            final(self).wf(),
            r.counted(),
            final(self).store.next_value() == next_after(
                old(self).cache@,
                old(self).store@,
                old(self).store.next_value(),
                desc@,
            ),
            resolved(
                old(self).cache@,
                old(self).store@,
                old(self).store.next_value(),
                desc@,
                final(self).cache@,
                final(self).store@,
                r@,
            ),
            !cache_hit(old(self).cache@, old(self).store@, desc@) ==> exists|v: T|
                build.ensures((&desc,), v) && final(self).store@ == old(self).store@.insert(
                    r@,
                    (1u32, v),
                ),
    {
        self.resolve(desc, build)
    }
}

impl<T> Registry<ShaderSource, T> {
    /// The identity of the shader module built from `source`: the one
    /// already built from the same text, else one that `build` makes now.
    pub fn get_shader_module<F: FnOnce(&ShaderSource) -> T>(
        &mut self,
        source: ShaderSource,
        build: F,
    ) -> (r: Id)
        requires
            old(self).wf(),
            old(self).store.next_value() < u64::MAX,
            forall|k: u64| #[trigger] old(self).store@.contains_key(k) ==> old(self).store@[k].0 < u32::MAX,
            build.requires((&source,)),
        ensures
            final(self).wf(),
            r.counted(),
            final(self).store.next_value() == next_after(
                old(self).cache@,
                old(self).store@,
                old(self).store.next_value(),
                source@,
            ),
            resolved(
                old(self).cache@,
                old(self).store@,
                old(self).store.next_value(),
                source@,
                final(self).cache@,
                final(self).store@,
                r@,
            ),
            !cache_hit(old(self).cache@, old(self).store@, source@) ==> exists|v: T|
                build.ensures((&source,), v) && final(self).store@ == old(self).store@.insert(
                    r@,
                    (1u32, v),
                ),
    {
        self.resolve(source, build)
    }
}

} // verus!
