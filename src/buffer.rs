use vstd::prelude::*;

use crate::bytes::{copy_into, copy_out, zero_extend};
use crate::id::{after_release, live_entries, Id, IdMap};

verus! {

/// The smallest device buffer this library creates, in bytes.
pub const MIN_DEVICE_BUFFER_SIZE: u64 = 4;

/// The largest allocation the host side accepts, in bytes.
pub const MAX_ALLOCATION: usize = isize::MAX as usize;

/// How the value held by a buffer is laid out: a fixed head, followed, for a
/// growable value, by a run of items of one size.
#[derive(Clone, Copy, Debug, PartialEq, Eq, Structural)]
pub struct BufferLayout {
    pub head_size: usize,
    pub item_size: usize,
    pub growable: bool,
}

impl BufferLayout {
    /// A value of `size` bytes with no trailing items.
    pub fn fixed(size: usize) -> (r: Self)
        ensures
            r == (BufferLayout { head_size: size, item_size: 0, growable: false }),
    {
        BufferLayout { head_size: size, item_size: 0, growable: false }
    }

    /// A head of `head_size` bytes followed by items of `item_size` bytes.
    pub fn with_items(head_size: usize, item_size: usize) -> (r: Self)
        ensures
            r == (BufferLayout { head_size, item_size, growable: true }),
    {
        BufferLayout { head_size, item_size, growable: true }
    }
}

/// A type whose values a `Buffer` can hold: it states how they are laid out.
pub trait BufferData {
    spec fn layout_spec() -> BufferLayout;

    fn layout() -> (r: BufferLayout)
        ensures
            r == Self::layout_spec(),
            r.head_size <= MAX_ALLOCATION,
    ;
}

/// A `BufferData` type that ends in a run of items, each written as
/// `item_size` bytes.
pub trait BufferVec: BufferData {
    type Item;

    /// A value that ends in items can grow.
    proof fn lemma_growable()
        ensures
            Self::layout_spec().growable,
    ;

    fn item_bytes(item: &Self::Item) -> (r: Vec<u8>)
        ensures
            r@.len() == Self::layout_spec().item_size,
    ;
}

/// The bytes that a value with `len` items takes.
pub open spec fn byte_size(layout: BufferLayout, len: nat) -> nat {
    (layout.head_size + len * layout.item_size) as nat
}

/// The capacity a growable value starts with: none for items that take room,
/// unbounded for items that take none.
pub open spec fn initial_capacity(layout: BufferLayout) -> nat {
    if layout.growable && layout.item_size == 0 {
        usize::MAX as nat
    } else {
        0
    }
}

/// The capacity after growing from `cap`: one, then doubling.
pub open spec fn grown_capacity(cap: nat) -> nat {
    if cap == 0 {
        1
    } else {
        2 * cap
    }
}

/// The capacity after one push onto `len` items with room for `cap`: a full
/// buffer grows first.
pub open spec fn capacity_after_push(len: nat, cap: nat) -> nat {
    if len == cap {
        grown_capacity(cap)
    } else {
        cap
    }
}

/// The capacity after `n` pushes onto an empty buffer whose items take room.
pub open spec fn capacity_after_pushes(n: nat) -> nat
    decreases n,
{
    if n == 0 {
        0
    } else {
        capacity_after_push((n - 1) as nat, capacity_after_pushes((n - 1) as nat))
    }
}

pub open spec fn pow2(k: nat) -> nat
    decreases k,
{
    if k == 0 {
        1
    } else {
        2 * pow2((k - 1) as nat)
    }
}

/// After `n` pushes onto an empty buffer whose items take room, the capacity
/// is the least power of two that is at least `n`: it went 1, 2, 4, ... .
pub proof fn lemma_capacity_after_pushes(n: nat) -> (k: nat)
    requires
        n >= 1,
    ensures
        capacity_after_pushes(n) == pow2(k),
        n <= pow2(k),
        k == 0 || pow2((k - 1) as nat) < n,
    decreases n,
{
    if n == 1 {
        assert(capacity_after_pushes(0) == 0);
        assert(capacity_after_pushes(1) == 1);
        0
    } else {
        let j = lemma_capacity_after_pushes((n - 1) as nat);
        let c = capacity_after_pushes((n - 1) as nat);
        if (n - 1) as nat == c {
            assert(pow2(j + 1) == 2 * pow2(j));
            assert(pow2(j) >= 1) by {
                lemma_pow2_positive(j);
            }
            j + 1
        } else {
            j
        }
    }
}

/// Push number `i + 1` of a run moves the count and the capacity as `push` says.
pub open spec fn push_step(lens: Seq<nat>, caps: Seq<nat>, i: int) -> bool {
    lens[i + 1] == lens[i] + 1 && caps[i + 1] == capacity_after_push(lens[i], caps[i])
}

/// A run of successful pushes onto an empty buffer whose items take room:
/// `lens[i]` and `caps[i]` are the count and the capacity after `i` pushes, each
/// push moving them as `push` says. Then after `n` pushes the count is `n`, the
/// capacity grew (to 1, 2, 4, ...) exactly at the pushes onto a full buffer,
/// and it ends as the least power of two at least `n`.
pub proof fn lemma_pushes_from_empty(lens: Seq<nat>, caps: Seq<nat>) -> (k: nat)
    requires
        lens.len() == caps.len(),
        lens.len() >= 2,
        lens[0] == 0,
        caps[0] == 0,
        forall|i: int| 0 <= i < lens.len() - 1 ==> #[trigger] push_step(lens, caps, i),
    ensures
        forall|i: int| 0 <= i < lens.len() ==> #[trigger] lens[i] == i,
        forall|i: int| 0 <= i < caps.len() ==> #[trigger] caps[i] == capacity_after_pushes(i as nat),
        caps.last() == pow2(k),
        lens.last() <= pow2(k),
        k == 0 || pow2((k - 1) as nat) < lens.last(),
{
    assert forall|i: int| 0 <= i < lens.len() implies #[trigger] lens[i] == i by {
        lemma_pushes_prefix(lens, caps, i);
    }
    assert forall|i: int| 0 <= i < caps.len() implies #[trigger] caps[i] == capacity_after_pushes(i as nat) by {
        lemma_pushes_prefix(lens, caps, i);
    }
    lemma_pushes_prefix(lens, caps, lens.len() - 1);
    lemma_capacity_after_pushes((lens.len() - 1) as nat)
}

proof fn lemma_pushes_prefix(lens: Seq<nat>, caps: Seq<nat>, i: int)
    requires
        lens.len() == caps.len(),
        0 <= i < lens.len(),
        lens[0] == 0,
        caps[0] == 0,
        forall|j: int| 0 <= j < lens.len() - 1 ==> #[trigger] push_step(lens, caps, j),
    ensures
        lens[i] == i,
        caps[i] == capacity_after_pushes(i as nat),
    decreases i,
{
    if i > 0 {
        lemma_pushes_prefix(lens, caps, i - 1);
        assert(push_step(lens, caps, i - 1));
    }
}

proof fn lemma_pow2_positive(k: nat)
    ensures
        pow2(k) >= 1,
    decreases k,
{
    if k > 0 {
        lemma_pow2_positive((k - 1) as nat);
    }
}

/// The size of a device buffer that holds `size` bytes.
pub open spec fn device_size_for(size: nat) -> nat {
    if size < MIN_DEVICE_BUFFER_SIZE {
        MIN_DEVICE_BUFFER_SIZE as nat
    } else {
        size
    }
}

/// Whether one more item fits: there is room left, or the grown arena stays
/// within the largest allocation.
pub open spec fn push_fits(layout: BufferLayout, len: nat, cap: nat) -> bool {
    len < cap || (layout.item_size > 0 && byte_size(layout, grown_capacity(cap))
        <= MAX_ALLOCATION)
}

#[derive(Clone, Copy, Debug, PartialEq, Eq, Structural)]
pub enum BufferError {
    /// The device copy may be newer than the host copy: download first.
    NeedsDownload,
    /// The range lies outside the value.
    OutOfRange,
    /// Growing would pass the largest allocation.
    CapacityOverflow,
}

/// What an upload asks of the device.
#[derive(Clone, Copy, Debug, PartialEq, Eq, Structural)]
pub enum UploadPlan {
    /// Nothing: the device copy may be newer, or there are no bytes.
    Skip,
    /// Copy the value's bytes into the current device buffer.
    Write,
    /// Replace the device buffer by one of `size` bytes, then copy.
    ResizeThenWrite { size: u64 },
}

/// The next step in making the device buffer large enough.
#[derive(Clone, Copy, Debug, PartialEq, Eq, Structural)]
pub enum ResizeStep {
    /// The device buffer is large enough.
    Keep,
    /// Download the pending device data first, so that none is lost.
    Download,
    /// Replace the device buffer by one of `size` bytes.
    Allocate { size: u64 },
}

/// A value kept in host memory and mirrored by a device buffer.
///
/// The host copy is a byte arena: the head, then room for `capacity` items.
/// `needs_download` set means that the device copy may be newer than the
/// host copy.
pub struct Buffer {
    layout: BufferLayout,
    len: usize,
    capacity: usize,
    arena: Vec<u8>,
    id: Id,
    device_size: u64,
    needs_download: bool,
}

impl Buffer {
    pub closed spec fn layout_spec(&self) -> BufferLayout {
        self.layout
    }

    pub closed spec fn len_spec(&self) -> nat {
        self.len as nat
    }

    pub closed spec fn capacity_spec(&self) -> nat {
        self.capacity as nat
    }

    /// The bytes of the value as the host holds them.
    pub closed spec fn contents(&self) -> Seq<u8> {
        self.arena@.subrange(0, byte_size(self.layout, self.len as nat) as int)
    }

    pub closed spec fn id_spec(&self) -> u64 {
        self.id@
    }

    pub closed spec fn device_size_spec(&self) -> nat {
        self.device_size as nat
    }

    pub closed spec fn needs_download_spec(&self) -> bool {
        self.needs_download
    }

    pub closed spec fn wf(&self) -> bool {
        &&& self.len <= self.capacity
        &&& !self.layout.growable ==> self.len == 0 && self.capacity == 0
        &&& self.layout.growable && self.layout.item_size == 0 ==> self.capacity == usize::MAX
        &&& self.arena@.len() == if self.layout.item_size == 0 {
            self.layout.head_size as nat
        } else {
            byte_size(self.layout, self.capacity as nat)
        }
        &&& self.arena@.len() <= MAX_ALLOCATION
        &&& self.id.counted()
        &&& self.device_size >= MIN_DEVICE_BUFFER_SIZE
    }

    proof fn lemma_size_in_arena(&self)
        requires
            self.wf(),
        ensures
            byte_size(self.layout, self.len as nat) <= self.arena@.len(),
    {
        let l = self.layout;
        if l.item_size > 0 {
            assert(self.len * l.item_size <= self.capacity * l.item_size) by (nonlinear_arith)
                requires
                    self.len <= self.capacity,
            ;
        } else {
            assert(self.len * l.item_size == 0) by (nonlinear_arith)
                requires
                    l.item_size == 0,
            ;
        }
    }

    /// A buffer holding a zeroed value of `layout`, mirrored by `object`: a
    /// device buffer of `initial_device_size(layout)` bytes, which `store`
    /// keeps from now on.
    pub fn new<D>(layout: BufferLayout, store: &mut IdMap<D>, object: D) -> (r: Self)
        requires
            layout.head_size <= MAX_ALLOCATION,
            old(store).next_value() < u64::MAX,
        ensures
            r.wf(),
            r.layout_spec() == layout,
            r.len_spec() == 0,
            r.capacity_spec() == initial_capacity(layout),
            r.contents() == Seq::new(layout.head_size as nat, |i: int| 0u8),
            r.device_size_spec() == device_size_for(layout.head_size as nat),
            !r.needs_download_spec(),
            r.id_spec() == old(store).next_value(),
            !old(store)@.contains_key(r.id_spec()),
            final(store).next_value() == old(store).next_value() + 1,
            final(store)@ == old(store)@.insert(r.id_spec(), (1u32, object)),
    {
        let mut arena: Vec<u8> = Vec::new();
        zero_extend(&mut arena, layout.head_size);
        assert(arena@ =~= Seq::new(layout.head_size as nat, |i: int| 0u8));
        let capacity: usize = if layout.growable && layout.item_size == 0 {
            usize::MAX
        } else {
            0
        };
        let fresh = store.next_id();
        proof {
            if old(store)@.contains_key(fresh@) {
                old(store).lemma_present_were_allocated(fresh@);
            }
        }
        let id = store.insert(fresh, object);
        let device_size = initial_device_size(layout);
        let r = Buffer { layout, len: 0, capacity, arena, id, device_size, needs_download: false };
        proof {
            assert(layout.head_size + 0 * layout.item_size == layout.head_size) by (nonlinear_arith);
            assert(r.contents() =~= Seq::new(layout.head_size as nat, |i: int| 0u8));
        }
        r
    }

    /// A buffer holding a zeroed value of `T` (see `new`).
    pub fn of<T: BufferData, D>(store: &mut IdMap<D>, object: D) -> (r: Self)
        requires
            old(store).next_value() < u64::MAX,
        ensures
            r.wf(),
            r.layout_spec() == T::layout_spec(),
            r.len_spec() == 0,
            r.capacity_spec() == initial_capacity(T::layout_spec()),
            r.contents() == Seq::new(T::layout_spec().head_size as nat, |i: int| 0u8),
            r.device_size_spec() == device_size_for(T::layout_spec().head_size as nat),
            !r.needs_download_spec(),
            r.id_spec() == old(store).next_value(),
            final(store)@ == old(store)@.insert(r.id_spec(), (1u32, object)),
    {
        Buffer::new(T::layout(), store, object)
    }

    /// Appends `item` of a value of `T` (see `push`).
    pub fn push_item<T: BufferVec>(&mut self, item: &T::Item) -> (r: Result<(), BufferError>)
        requires
            old(self).wf(),
            old(self).layout_spec() == T::layout_spec(),
        ensures
            final(self).wf(),
            final(self).same_device_side(old(self)),
            r is Ok == (!old(self).needs_download_spec() && push_fits(
                old(self).layout_spec(),
                old(self).len_spec(),
                old(self).capacity_spec(),
            )),
            r is Ok ==> exists|b: Seq<u8>|
                b.len() == T::layout_spec().item_size && final(self).contents() == old(
                    self,
                ).contents() + b && final(self).len_spec() == old(self).len_spec() + 1,
            r is Err ==> *final(self) == *old(self),
    {
        proof {
            T::lemma_growable();
        }
        let bytes = T::item_bytes(item);
        self.push(bytes.as_slice())
    }

    pub fn layout(&self) -> (r: BufferLayout)
        ensures
            r == self.layout_spec(),
    {
        self.layout
    }

    /// The number of trailing items.
    pub fn len(&self) -> (r: usize)
        ensures
            r == self.len_spec(),
    {
        self.len
    }

    pub fn capacity(&self) -> (r: usize)
        ensures
            r == self.capacity_spec(),
    {
        self.capacity
    }

    /// The number of bytes the value takes now.
    pub fn size(&self) -> (r: usize)
        requires
            self.wf(),
        ensures
            r == byte_size(self.layout_spec(), self.len_spec()),
            r == self.contents().len(),
    {
        proof {
            self.lemma_size_in_arena();
        }
        self.layout.head_size + self.len * self.layout.item_size
    }

    /// An uncounted handle on the current device buffer.
    pub fn id(&self) -> (r: Id)
        ensures
            r@ == self.id_spec(),
            !r.counted(),
    {
        self.id.clone_untracked()
    }

    /// The size of the current device buffer, in bytes.
    pub fn device_size(&self) -> (r: u64)
        ensures
            r == self.device_size_spec(),
    {
        self.device_size
    }

    pub fn needs_download(&self) -> (r: bool)
        ensures
            r == self.needs_download_spec(),
    {
        self.needs_download
    }

    /// Records that the device has written, or will write, the buffer.
    pub fn mark_needs_download(&mut self)
        requires
            old(self).wf(),
        ensures
            final(self).wf(),
            final(self).needs_download_spec(),
            final(self).contents() == old(self).contents(),
            final(self).layout_spec() == old(self).layout_spec(),
            final(self).len_spec() == old(self).len_spec(),
            final(self).capacity_spec() == old(self).capacity_spec(),
            final(self).id_spec() == old(self).id_spec(),
            final(self).device_size_spec() == old(self).device_size_spec(),
    {
        self.needs_download = true;
    }

    /// Whether the other fields are those of `old`, but for the arena, the
    /// count of items and the capacity.
    pub open spec fn same_device_side(&self, old: &Buffer) -> bool {
        &&& self.layout_spec() == old.layout_spec()
        &&& self.id_spec() == old.id_spec()
        &&& self.device_size_spec() == old.device_size_spec()
        &&& self.needs_download_spec() == old.needs_download_spec()
    }

    /// Appends an item, growing the arena first when it is full.
    pub fn push(&mut self, item: &[u8]) -> (r: Result<(), BufferError>)
        requires
            old(self).wf(),
            old(self).layout_spec().growable,
            item@.len() == old(self).layout_spec().item_size,
        ensures
            final(self).wf(),
            final(self).same_device_side(old(self)),
            old(self).needs_download_spec() ==> r == Err::<(), BufferError>(BufferError::NeedsDownload),
            !old(self).needs_download_spec() && !push_fits(
                old(self).layout_spec(),
                old(self).len_spec(),
                old(self).capacity_spec(),
            ) ==> r == Err::<(), BufferError>(BufferError::CapacityOverflow),
            r is Ok == (!old(self).needs_download_spec() && push_fits(
                old(self).layout_spec(),
                old(self).len_spec(),
                old(self).capacity_spec(),
            )),
            r is Ok ==> {
                &&& final(self).len_spec() == old(self).len_spec() + 1
                &&& final(self).capacity_spec() == capacity_after_push(
                    old(self).len_spec(),
                    old(self).capacity_spec(),
                )
                &&& final(self).contents() == old(self).contents() + item@
            },
            r is Err ==> *final(self) == *old(self),
    {
        if self.needs_download {
            return Err(BufferError::NeedsDownload);
        }
        let head = self.layout.head_size;
        let item_size = self.layout.item_size;
        if self.len == self.capacity {
            if item_size == 0 {
                return Err(BufferError::CapacityOverflow);
            }
            let new_cap: usize = if self.capacity == 0 {
                1
            } else {
                match self.capacity.checked_mul(2) {
                    Some(c) => c,
                    None => {
                        proof {
                            assert(byte_size(self.layout, grown_capacity(self.capacity as nat))
                                > MAX_ALLOCATION) by (nonlinear_arith)
                                requires
                                    2 * self.capacity > usize::MAX,
                                    item_size >= 1,
                                    self.layout.item_size == item_size,
                            ;
                        }
                        return Err(BufferError::CapacityOverflow);
                    },
                }
            };
            let bytes = match new_cap.checked_mul(item_size) {
                Some(b) => b,
                None => {
                    proof {
                        assert(byte_size(self.layout, grown_capacity(self.capacity as nat))
                            > MAX_ALLOCATION) by (nonlinear_arith)
                            requires
                                new_cap * item_size > usize::MAX,
                                new_cap == grown_capacity(self.capacity as nat),
                                self.layout.item_size == item_size,
                        ;
                    }
                    return Err(BufferError::CapacityOverflow);
                },
            };
            if bytes > MAX_ALLOCATION - head {
                return Err(BufferError::CapacityOverflow);
            }
            let new_len = head + bytes;
            proof {
                assert(self.capacity * item_size <= new_cap * item_size) by (nonlinear_arith)
                    requires
                        self.capacity <= new_cap,
                ;
            }
            zero_extend(&mut self.arena, new_len);
            self.capacity = new_cap;
        }
        proof {
            self.lemma_size_in_arena();
            assert(self.len * item_size + item_size <= self.capacity * item_size) by (nonlinear_arith)
                requires
                    self.len < self.capacity,
            ;
        }
        let base = head + self.len * item_size;
        copy_into(&mut self.arena, base, item);
        self.len = self.len + 1;
        proof {
            assert(byte_size(self.layout, self.len as nat) == base + item_size) by (nonlinear_arith)
                requires
                    base == head + (self.len - 1) * item_size,
                    self.layout.head_size == head,
                    self.layout.item_size == item_size,
            ;
            assert(self.contents() =~= old(self).contents() + item@);
        }
        Ok(())
    }

    /// Removes the last item and hands back its bytes.
    pub fn pop(&mut self) -> (r: Result<Option<Vec<u8>>, BufferError>)
        requires
            old(self).wf(),
            old(self).layout_spec().growable,
        ensures
            final(self).wf(),
            final(self).same_device_side(old(self)),
            final(self).capacity_spec() == old(self).capacity_spec(),
            old(self).needs_download_spec() ==> r == Err::<Option<Vec<u8>>, BufferError>(
                BufferError::NeedsDownload,
            ) && *final(self) == *old(self),
            !old(self).needs_download_spec() && old(self).len_spec() == 0 ==> r == Ok::<
                Option<Vec<u8>>,
                BufferError,
            >(None) && *final(self) == *old(self),
            !old(self).needs_download_spec() && old(self).len_spec() > 0 ==> {
                let n = old(self).contents().len() - old(self).layout_spec().item_size;
                &&& r matches Ok(Some(v)) && v@ == old(self).contents().subrange(n, old(self).contents().len() as int)
                &&& final(self).len_spec() == old(self).len_spec() - 1
                &&& final(self).contents() == old(self).contents().subrange(0, n)
            },
    {
        if self.needs_download {
            return Err(BufferError::NeedsDownload);
        }
        if self.len == 0 {
            return Ok(None);
        }
        let size = self.size();
        let item_size = self.layout.item_size;
        proof {
            self.lemma_size_in_arena();
            assert(self.len * item_size >= item_size) by (nonlinear_arith)
                requires
                    self.len >= 1,
            ;
            assert(size - item_size == self.layout.head_size + (self.len - 1) * item_size) by (nonlinear_arith)
                requires
                    size == self.layout.head_size + self.len * item_size,
                    self.layout.item_size == item_size,
            ;
        }
        let base = size - item_size;
        let out = copy_out(&self.arena, base, item_size);
        self.len = self.len - 1;
        proof {
            assert(out@ =~= old(self).contents().subrange(base as int, old(self).contents().len() as int));
            assert(self.contents() =~= old(self).contents().subrange(0, base as int));
        }
        Ok(Some(out))
    }

    /// The `len` bytes of the value from `offset` on.
    pub fn read(&self, offset: usize, len: usize) -> (r: Result<Vec<u8>, BufferError>)
        requires
            self.wf(),
        ensures
            self.needs_download_spec() ==> r == Err::<Vec<u8>, BufferError>(BufferError::NeedsDownload),
            !self.needs_download_spec() && offset + len > self.contents().len() ==> r == Err::<
                Vec<u8>,
                BufferError,
            >(BufferError::OutOfRange),
            r is Ok == (!self.needs_download_spec() && offset + len <= self.contents().len()),
            r matches Ok(v) ==> v@ == self.contents().subrange(offset as int, offset + len),
    {
        if self.needs_download {
            return Err(BufferError::NeedsDownload);
        }
        let size = self.size();
        if offset > size || len > size - offset {
            return Err(BufferError::OutOfRange);
        }
        proof {
            self.lemma_size_in_arena();
        }
        let out = copy_out(&self.arena, offset, len);
        assert(out@ =~= self.contents().subrange(offset as int, offset + len));
        Ok(out)
    }

    /// Overwrites the bytes of the value from `offset` on with `data`.
    pub fn write(&mut self, offset: usize, data: &[u8]) -> (r: Result<(), BufferError>)
        requires
            old(self).wf(),
        ensures
            final(self).wf(),
            final(self).same_device_side(old(self)),
            final(self).len_spec() == old(self).len_spec(),
            final(self).capacity_spec() == old(self).capacity_spec(),
            old(self).needs_download_spec() ==> r == Err::<(), BufferError>(BufferError::NeedsDownload),
            !old(self).needs_download_spec() && offset + data@.len() > old(self).contents().len()
                ==> r == Err::<(), BufferError>(BufferError::OutOfRange),
            r is Ok == (!old(self).needs_download_spec() && offset + data@.len() <= old(
                self,
            ).contents().len()),
            r is Ok ==> final(self).contents() == old(self).contents().subrange(0, offset as int)
                + data@ + old(self).contents().subrange(
                offset + data@.len(),
                old(self).contents().len() as int,
            ),
            r is Err ==> *final(self) == *old(self),
    {
        if self.needs_download {
            return Err(BufferError::NeedsDownload);
        }
        let size = self.size();
        if offset > size || data.len() > size - offset {
            return Err(BufferError::OutOfRange);
        }
        proof {
            self.lemma_size_in_arena();
        }
        copy_into(&mut self.arena, offset, data);
        proof {
            assert(self.contents() =~= old(self).contents().subrange(0, offset as int) + data@
                + old(self).contents().subrange(offset + data@.len(), old(self).contents().len() as int));
        }
        Ok(())
    }

    /// The size the device buffer must have for the value as it is now.
    pub fn required_device_size(&self) -> (r: u64)
        requires
            self.wf(),
        ensures
            r == device_size_for(self.contents().len()),
    {
        let size = self.size() as u64;
        if size < MIN_DEVICE_BUFFER_SIZE {
            MIN_DEVICE_BUFFER_SIZE
        } else {
            size
        }
    }

    /// What pushing the host copy to the device takes. Where the device copy
    /// may be newer, nothing: pushing would discard the newer data.
    pub fn upload(&self) -> (r: UploadPlan)
        requires
            self.wf(),
        ensures
            self.needs_download_spec() ==> r == UploadPlan::Skip,
            !self.needs_download_spec() && self.device_size_spec() < device_size_for(
                self.contents().len(),
            ) ==> r == (UploadPlan::ResizeThenWrite {
                size: device_size_for(self.contents().len()) as u64,
            }),
            !self.needs_download_spec() && self.device_size_spec() >= device_size_for(
                self.contents().len(),
            ) ==> r == if self.contents().len() == 0 {
                UploadPlan::Skip
            } else {
                UploadPlan::Write
            },
    {
        if self.needs_download {
            return UploadPlan::Skip;
        }
        let required = self.required_device_size();
        if self.device_size < required {
            UploadPlan::ResizeThenWrite { size: required }
        } else if self.size() == 0 {
            UploadPlan::Skip
        } else {
            UploadPlan::Write
        }
    }

    /// The next step in making the device buffer large enough for the value.
    pub fn resize_buffer(&self) -> (r: ResizeStep)
        requires
            self.wf(),
        ensures
            self.needs_download_spec() ==> r == ResizeStep::Download,
            !self.needs_download_spec() && self.device_size_spec() < device_size_for(
                self.contents().len(),
            ) ==> r == (ResizeStep::Allocate {
                size: device_size_for(self.contents().len()) as u64,
            }),
            !self.needs_download_spec() && self.device_size_spec() >= device_size_for(
                self.contents().len(),
            ) ==> r == ResizeStep::Keep,
    {
        if self.needs_download {
            return ResizeStep::Download;
        }
        let required = self.required_device_size();
        if self.device_size < required {
            ResizeStep::Allocate { size: required }
        } else {
            ResizeStep::Keep
        }
    }

    /// Installs `object`, a device buffer of `size` bytes, in place of the
    /// current one: the store keeps it under a fresh identity, the old one
    /// gives up this buffer's reference, and the store is cleaned.
    pub fn replace_device_buffer<D>(&mut self, store: &mut IdMap<D>, object: D, size: u64)
        requires
            old(self).wf(),
            old(store).next_value() < u64::MAX,
            size >= MIN_DEVICE_BUFFER_SIZE,
        ensures
            final(self).wf(),
            final(self).contents() == old(self).contents(),
            final(self).layout_spec() == old(self).layout_spec(),
            final(self).len_spec() == old(self).len_spec(),
            final(self).capacity_spec() == old(self).capacity_spec(),
            final(self).needs_download_spec() == old(self).needs_download_spec(),
            final(self).device_size_spec() == size,
            final(self).id_spec() == old(store).next_value(),
            !old(store)@.contains_key(final(self).id_spec()),
            final(store).next_value() == old(store).next_value() + 1,
            final(store)@ == live_entries(
                after_release(
                    old(store)@.insert(final(self).id_spec(), (1u32, object)),
                    old(self).id_spec(),
                    true,
                ),
            ),
    {
        let fresh = store.next_id();
        proof {
            if old(store)@.contains_key(fresh@) {
                old(store).lemma_present_were_allocated(fresh@);
            }
        }
        let mut previous = store.insert(fresh, object);
        std::mem::swap(&mut self.id, &mut previous);
        store.release(previous);
        store.clean();
        self.device_size = size;
    }

    /// The number of bytes a download reads back.
    pub fn download_size(&self) -> (r: usize)
        requires
            self.wf(),
        ensures
            r == self.contents().len(),
    {
        self.size()
    }

    /// Takes `data`, read back from the device buffer, as the host copy; the
    /// host copy is then current.
    pub fn complete_download(&mut self, data: &[u8])
        requires
            old(self).wf(),
            data@.len() == old(self).contents().len(),
        ensures
            final(self).wf(),
            final(self).contents() == data@,
            !final(self).needs_download_spec(),
            final(self).layout_spec() == old(self).layout_spec(),
            final(self).len_spec() == old(self).len_spec(),
            final(self).capacity_spec() == old(self).capacity_spec(),
            final(self).id_spec() == old(self).id_spec(),
            final(self).device_size_spec() == old(self).device_size_spec(),
    {
        proof {
            self.lemma_size_in_arena();
        }
        copy_into(&mut self.arena, 0, data);
        self.needs_download = false;
        assert(self.contents() =~= data@);
    }
}

/// The device buffer size a value of `layout` starts with.
pub fn initial_device_size(layout: BufferLayout) -> (r: u64)
    requires
        layout.head_size <= MAX_ALLOCATION,
    ensures
        r == device_size_for(layout.head_size as nat),
{
    let size = layout.head_size as u64;
    if size < MIN_DEVICE_BUFFER_SIZE {
        MIN_DEVICE_BUFFER_SIZE
    } else {
        size
    }
}

} // verus!
