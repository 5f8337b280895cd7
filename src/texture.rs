use vstd::prelude::*;

use crate::bytes::{copy_into, copy_out, zero_extend};
use crate::bind_group::{BindingType, StorageTextureAccess, TextureSampleType};
use crate::id::{Id, IdMap};

verus! {

#[derive(Clone, Copy, Debug, PartialEq, Eq, Structural)]
pub enum TextureViewDimension {
    D1,
    D2,
    D2Array,
    Cube,
    CubeArray,
    D3,
}

/// The pixel formats a texture can hold.
#[derive(Clone, Copy, Debug, PartialEq, Eq, Structural)]
pub enum TextureFormat {
    Rgba8UnormSrgb,
    Rgba8Unorm,
    Rgba8Snorm,
    Rgba8Uint,
    Rgba8Sint,
    Rgba16Uint,
    Rgba16Sint,
    Rgba16Float,
    R32Uint,
    R32Sint,
    R32Float,
    Rg32Uint,
    Rg32Sint,
    Rg32Float,
    Rgba32Uint,
    Rgba32Sint,
    Rgba32Float,
}

impl TextureFormat {
    /// The bytes one texel of this format takes.
    pub open spec fn texel_size_spec(self) -> nat {
        match self {
            TextureFormat::Rgba8UnormSrgb | TextureFormat::Rgba8Unorm | TextureFormat::Rgba8Snorm
            | TextureFormat::Rgba8Uint | TextureFormat::Rgba8Sint | TextureFormat::R32Uint
            | TextureFormat::R32Sint | TextureFormat::R32Float => 4,
            TextureFormat::Rgba16Uint | TextureFormat::Rgba16Sint | TextureFormat::Rgba16Float
            | TextureFormat::Rg32Uint | TextureFormat::Rg32Sint | TextureFormat::Rg32Float => 8,
            TextureFormat::Rgba32Uint | TextureFormat::Rgba32Sint | TextureFormat::Rgba32Float => 16,
        }
    }

    pub fn texel_size(self) -> (r: usize)
        ensures
            r == self.texel_size_spec(),
    {
        match self {
            TextureFormat::Rgba8UnormSrgb | TextureFormat::Rgba8Unorm | TextureFormat::Rgba8Snorm
            | TextureFormat::Rgba8Uint | TextureFormat::Rgba8Sint | TextureFormat::R32Uint
            | TextureFormat::R32Sint | TextureFormat::R32Float => 4,
            TextureFormat::Rgba16Uint | TextureFormat::Rgba16Sint | TextureFormat::Rgba16Float
            | TextureFormat::Rg32Uint | TextureFormat::Rg32Sint | TextureFormat::Rg32Float => 8,
            TextureFormat::Rgba32Uint | TextureFormat::Rgba32Sint | TextureFormat::Rgba32Float => 16,
        }
    }
}

/// The alignment the device asks of the byte length of each row in a copy.
pub const COPY_BYTES_PER_ROW_ALIGNMENT: usize = 256;

/// The largest image the host side holds, in bytes.
pub const MAX_IMAGE_BYTES: usize = isize::MAX as usize;

/// The bytes of `width` texels of `texel_size` bytes, padded up to the row
/// alignment.
pub open spec fn padded_row(texel_size: nat, width: nat) -> nat {
    let raw = width * texel_size;
    let a = COPY_BYTES_PER_ROW_ALIGNMENT as nat;
    (((raw + a - 1) / a as int) * a) as nat
}

/// Where texel (`x`, `y`, `z`) starts, for rows of `row` bytes and images of
/// `height` rows.
pub open spec fn texel_offset(texel_size: nat, row: nat, height: nat, x: nat, y: nat, z: nat) -> nat {
    z * (height * row) + y * row + x * texel_size
}

#[derive(Clone, Copy, Debug, PartialEq, Eq, Structural)]
pub enum TextureError {
    /// The device copy may be newer than the host copy: download first.
    NeedsDownload,
    /// The texel lies outside the texture.
    OutOfBounds,
    /// The image would pass the largest allocation.
    TooLarge,
}

/// The row pitch for `width` texels of `texel_size` bytes, or `None` where it
/// does not fit in a `usize`.
pub fn bytes_per_row(texel_size: usize, width: usize) -> (r: Option<usize>)
    ensures
        r is Some == (padded_row(texel_size as nat, width as nat) <= usize::MAX),
        r matches Some(n) ==> n == padded_row(texel_size as nat, width as nat),
{
    let a = COPY_BYTES_PER_ROW_ALIGNMENT;
    match width.checked_mul(texel_size) {
        None => {
            proof {
                let raw = width * texel_size;
                assert(raw > usize::MAX);
                assert(((raw + a - 1) / a as int) * a >= raw) by (nonlinear_arith)
                    requires
                        a == 256,
                        raw >= 0,
                ;
            }
            None
        },
        Some(raw) => {
            let rounded = raw / a + if raw % a == 0 {
                0
            } else {
                1
            };
            proof {
                assert((rounded as int) == (raw + a - 1) / a as int) by (nonlinear_arith)
                    requires
                        a == 256,
                        rounded == raw / a + if raw % a == 0 {
                            0int
                        } else {
                            1int
                        },
                ;
            }
            match rounded.checked_mul(a) {
                Some(n) => Some(n),
                None => None,
            }
        },
    }
}

/// The host memory of an image: zeroed bytes of a fixed length.
pub struct TextureStorageData {
    bytes: Vec<u8>,
}

impl TextureStorageData {
    pub closed spec fn view(&self) -> Seq<u8> {
        self.bytes@
    }

    /// `size` zero bytes.
    pub fn new(size: usize) -> (r: Self)
        ensures
            r.view() == Seq::new(size as nat, |i: int| 0u8),
    {
        let mut bytes: Vec<u8> = Vec::new();
        zero_extend(&mut bytes, size);
        assert(bytes@ =~= Seq::new(size as nat, |i: int| 0u8));
        TextureStorageData { bytes }
    }

    pub fn size(&self) -> (r: usize)
        ensures
            r == self.view().len(),
    {
        self.bytes.len()
    }

    pub fn bytes(&self) -> (r: &[u8])
        ensures
            r@ == self.view(),
    {
        self.bytes.as_slice()
    }
}

/// The shape of a one-dimensional image: one row of `width` texels.
pub struct TextureStorageD1 {
    pub width: usize,
    pub texel_size: usize,
    pub bytes_per_row: usize,
}

impl TextureStorageD1 {
    pub fn new(format: TextureFormat, width: usize) -> (r: Result<Self, TextureError>)
        ensures
            r is Ok == (padded_row(format.texel_size_spec(), width as nat) <= MAX_IMAGE_BYTES),
            r matches Ok(t) ==> t.width == width && t.texel_size == format.texel_size_spec()
                && t.bytes_per_row == padded_row(format.texel_size_spec(), width as nat),
    {
        let texel_size = format.texel_size();
        match bytes_per_row(texel_size, width) {
            Some(n) => {
                if n > MAX_IMAGE_BYTES {
                    Err(TextureError::TooLarge)
                } else {
                    Ok(TextureStorageD1 { width, texel_size, bytes_per_row: n })
                }
            },
            None => Err(TextureError::TooLarge),
        }
    }
}

/// The shape of a two-dimensional image: `height` rows of `width` texels, each
/// row padded to the row alignment.
pub struct TextureStorageD2 {
    pub width: usize,
    pub height: usize,
    pub texel_size: usize,
    pub bytes_per_row: usize,
}

impl TextureStorageD2 {
    pub fn new(format: TextureFormat, width: usize, height: usize) -> (r: Result<
        Self,
        TextureError,
    >)
        ensures
            r is Ok == (padded_row(format.texel_size_spec(), width as nat) <= usize::MAX
                && padded_row(format.texel_size_spec(), width as nat) * height <= MAX_IMAGE_BYTES),
            r matches Ok(t) ==> t.width == width && t.height == height && t.texel_size
                == format.texel_size_spec() && t.bytes_per_row == padded_row(
                format.texel_size_spec(),
                width as nat,
            ),
    {
        let texel_size = format.texel_size();
        match bytes_per_row(texel_size, width) {
            Some(n) => {
                match n.checked_mul(height) {
                    Some(total) => {
                        if total > MAX_IMAGE_BYTES {
                            Err(TextureError::TooLarge)
                        } else {
                            Ok(TextureStorageD2 { width, height, texel_size, bytes_per_row: n })
                        }
                    },
                    None => Err(TextureError::TooLarge),
                }
            },
            None => {
                Err(TextureError::TooLarge)
            },
        }
    }
}

/// An image kept in host memory and mirrored by a device texture.
///
/// The host copy has the device's row layout: each row is padded up to the
/// row alignment, and the padding is never read or written through texel
/// access. `needs_upload` set means the host copy may be newer than the
/// device copy; `needs_download` set means the device copy may be newer.
pub struct Texture {
    format: TextureFormat,
    width: usize,
    height: usize,
    depth: usize,
    bytes_per_row: usize,
    storage: TextureStorageData,
    id: Id,
    needs_upload: bool,
    needs_download: bool,
}

impl Texture {
    pub closed spec fn format_spec(&self) -> TextureFormat {
        self.format
    }

    pub closed spec fn width_spec(&self) -> nat {
        self.width as nat
    }

    pub closed spec fn height_spec(&self) -> nat {
        self.height as nat
    }

    pub closed spec fn depth_spec(&self) -> nat {
        self.depth as nat
    }

    pub closed spec fn bytes_per_row_spec(&self) -> nat {
        self.bytes_per_row as nat
    }

    /// The host copy, padding included.
    pub closed spec fn contents(&self) -> Seq<u8> {
        self.storage.view()
    }

    pub closed spec fn id_spec(&self) -> u64 {
        self.id@
    }

    pub closed spec fn needs_upload_spec(&self) -> bool {
        self.needs_upload
    }

    pub closed spec fn needs_download_spec(&self) -> bool {
        self.needs_download
    }

    pub closed spec fn wf(&self) -> bool {
        &&& self.bytes_per_row == padded_row(self.format.texel_size_spec(), self.width as nat)
        &&& self.storage.view().len() == self.depth * (self.height * self.bytes_per_row)
        &&& self.storage.view().len() <= usize::MAX
        &&& self.id.counted()
    }

    /// Where texel (`x`, `y`, `z`) starts in the host copy.
    pub open spec fn texel_start(&self, x: nat, y: nat, z: nat) -> nat {
        texel_offset(
            self.format_spec().texel_size_spec(),
            self.bytes_per_row_spec(),
            self.height_spec(),
            x,
            y,
            z,
        )
    }

    /// The bytes of texel (`x`, `y`, `z`) in the host copy.
    pub open spec fn texel_spec(&self, x: nat, y: nat, z: nat) -> Seq<u8> {
        self.contents().subrange(
            self.texel_start(x, y, z) as int,
            (self.texel_start(x, y, z) + self.format_spec().texel_size_spec()) as int,
        )
    }

    pub open spec fn in_bounds(&self, x: nat, y: nat, z: nat) -> bool {
        x < self.width_spec() && y < self.height_spec() && z < self.depth_spec()
    }

    /// Where texel (`x`, `y`, `z`) starts, computed.
    fn texel_position(&self, x: usize, y: usize, z: usize) -> (r: usize)
        requires
            self.wf(),
            self.in_bounds(x as nat, y as nat, z as nat),
        ensures
            r == self.texel_start(x as nat, y as nat, z as nat),
            r + self.format_spec().texel_size_spec() <= self.contents().len(),
    {
        let t = self.format.texel_size();
        proof {
            self.lemma_texel_inside(x as nat, y as nat, z as nat);
            let image = self.height * self.bytes_per_row;
            assert(image <= self.depth * image) by (nonlinear_arith)
                requires
                    z < self.depth,
                    image >= 0,
            ;
            assert(z * image <= self.depth * image) by (nonlinear_arith)
                requires
                    z < self.depth,
                    image >= 0,
            ;
        }
        let image = self.height * self.bytes_per_row;
        z * image + y * self.bytes_per_row + x * t
    }

    proof fn lemma_texel_inside(&self, x: nat, y: nat, z: nat)
        requires
            self.wf(),
            x < self.width,
            y < self.height,
            z < self.depth,
        ensures
            self.texel_start(x, y, z) + self.format.texel_size_spec() <= self.contents().len(),
            z == 0 ==> y * self.bytes_per_row + x * self.format.texel_size_spec()
                + self.format.texel_size_spec() <= self.contents().len(),
    {
        let t = self.format.texel_size_spec();
        let row = self.bytes_per_row as nat;
        let h = self.height as nat;
        let w = self.width as nat;
        assert(w * t <= row) by (nonlinear_arith)
            requires
                row as int == (((w * t) as int + 255) / 256int) * 256,
        ;
        assert(x * t + t <= row) by (nonlinear_arith)
            requires
                x < w,
                w * t <= row,
        ;
        assert(y * row + row <= h * row) by (nonlinear_arith)
            requires
                y < h,
        ;
        assert(z * (h * row) + h * row <= self.depth * (h * row)) by (nonlinear_arith)
            requires
                z < self.depth,
        ;
    }

    /// A texel of the first layer lies within the logical part of its row, so
    /// texel access never reads or writes the padding at the end of a row.
    pub proof fn lemma_texel_within_row(&self, x: nat, y: nat)
        requires
            self.wf(),
            x < self.width_spec(),
            y < self.height_spec(),
        ensures
            y * self.bytes_per_row_spec() <= self.texel_start(x, y, 0),
            self.texel_start(x, y, 0) + self.format_spec().texel_size_spec() <= y
                * self.bytes_per_row_spec() + self.width_spec() * self.format_spec().texel_size_spec(),
    {
        let t = self.format.texel_size_spec();
        let row = self.bytes_per_row as nat;
        assert(0 * (self.height * row) == 0) by (nonlinear_arith);
        assert(x * t + t <= self.width * t) by (nonlinear_arith)
            requires
                x < self.width,
        ;
    }

    /// A two-dimensional texture of `format`, `width` by `height` texels,
    /// zeroed, mirrored by `object`, a device texture that `store` keeps from
    /// now on. Fails, storing nothing, where the image is too large.
    pub fn new_2d<D>(
        format: TextureFormat,
        width: usize,
        height: usize,
        store: &mut IdMap<D>,
        object: D,
    ) -> (r: Result<Self, TextureError>)
        requires
            old(store).next_value() < u64::MAX,
        ensures
            r is Ok == (padded_row(format.texel_size_spec(), width as nat) <= usize::MAX
                && padded_row(format.texel_size_spec(), width as nat) * height <= MAX_IMAGE_BYTES),
            r is Err ==> *final(store) == *old(store),
            r matches Ok(t) ==> {
                &&& t.wf()
                &&& t.format_spec() == format
                &&& t.width_spec() == width
                &&& t.height_spec() == height
                &&& t.depth_spec() == 1
                &&& t.bytes_per_row_spec() == padded_row(format.texel_size_spec(), width as nat)
                &&& t.contents() == Seq::new(
                    (padded_row(format.texel_size_spec(), width as nat) * height) as nat,
                    |i: int| 0u8,
                )
                &&& !t.needs_upload_spec()
                &&& !t.needs_download_spec()
                &&& t.id_spec() == old(store).next_value()
                &&& !old(store)@.contains_key(t.id_spec())
                &&& final(store).next_value() == old(store).next_value() + 1
                &&& final(store)@ == old(store)@.insert(t.id_spec(), (1u32, object))
            },
    {
        let shape = match TextureStorageD2::new(format, width, height) {
            Ok(shape) => shape,
            Err(e) => {
                return Err(e);
            },
        };
        let size = shape.bytes_per_row * height;
        let storage = TextureStorageData::new(size);
        let fresh = store.next_id();
        proof {
            if old(store)@.contains_key(fresh@) {
                old(store).lemma_present_were_allocated(fresh@);
            }
        }
        let id = store.insert(fresh, object);
        let t = Texture {
            format,
            width,
            height,
            depth: 1,
            bytes_per_row: shape.bytes_per_row,
            storage,
            id,
            needs_upload: false,
            needs_download: false,
        };
        proof {
            assert(1 * (height * shape.bytes_per_row) == shape.bytes_per_row * height) by (nonlinear_arith);
        }
        Ok(t)
    }

    pub fn format(&self) -> (r: TextureFormat)
        ensures
            r == self.format_spec(),
    {
        self.format
    }

    pub fn width(&self) -> (r: usize)
        ensures
            r == self.width_spec(),
    {
        self.width
    }

    pub fn height(&self) -> (r: usize)
        ensures
            r == self.height_spec(),
    {
        self.height
    }

    pub fn depth(&self) -> (r: usize)
        ensures
            r == self.depth_spec(),
    {
        self.depth
    }

    pub fn bytes_per_row(&self) -> (r: usize)
        ensures
            r == self.bytes_per_row_spec(),
    {
        self.bytes_per_row
    }

    /// An uncounted handle on the device texture.
    pub fn texture_id(&self) -> (r: Id)
        ensures
            r@ == self.id_spec(),
            !r.counted(),
    {
        self.id.clone_untracked()
    }

    pub fn needs_upload(&self) -> (r: bool)
        ensures
            r == self.needs_upload_spec(),
    {
        self.needs_upload
    }

    pub fn needs_download(&self) -> (r: bool)
        ensures
            r == self.needs_download_spec(),
    {
        self.needs_download
    }

    /// Records that the host copy has changed.
    pub fn mark_needs_upload(&mut self)
        requires
            old(self).wf(),
        ensures
            final(self).wf(),
            final(self).needs_upload_spec(),
            final(self).needs_download_spec() == old(self).needs_download_spec(),
            final(self).contents() == old(self).contents(),
            final(self).same_shape(old(self)),
    {
        self.needs_upload = true;
    }

    /// Records that the device has written, or will write, the texture.
    pub fn mark_needs_download(&mut self)
        requires
            old(self).wf(),
        ensures
            final(self).wf(),
            final(self).needs_download_spec(),
            final(self).needs_upload_spec() == old(self).needs_upload_spec(),
            final(self).contents() == old(self).contents(),
            final(self).same_shape(old(self)),
    {
        self.needs_download = true;
    }

    /// Whether format, extent, row pitch and device texture are those of `old`.
    pub open spec fn same_shape(&self, old: &Texture) -> bool {
        &&& self.format_spec() == old.format_spec()
        &&& self.width_spec() == old.width_spec()
        &&& self.height_spec() == old.height_spec()
        &&& self.depth_spec() == old.depth_spec()
        &&& self.bytes_per_row_spec() == old.bytes_per_row_spec()
        &&& self.id_spec() == old.id_spec()
    }

    /// The host copy, padding included, once it is current.
    pub fn bytes(&self) -> (r: Result<&[u8], TextureError>)
        ensures
            r is Ok == !self.needs_download_spec(),
            r matches Ok(b) ==> b@ == self.contents(),
            r is Err ==> r == Err::<&[u8], TextureError>(TextureError::NeedsDownload),
    {
        if self.needs_download {
            Err(TextureError::NeedsDownload)
        } else {
            Ok(self.storage.bytes())
        }
    }

    /// The host copy as it stands, padding included, whether or not the
    /// device holds newer data: what an upload writes.
    pub fn host_bytes(&self) -> (r: &[u8])
        ensures
            r@ == self.contents(),
    {
        self.storage.bytes()
    }

    /// The bytes of texel (`x`, `y`, `z`).
    pub fn texel(&self, x: usize, y: usize, z: usize) -> (r: Result<Vec<u8>, TextureError>)
        requires
            self.wf(),
        ensures
            self.needs_download_spec() ==> r == Err::<Vec<u8>, TextureError>(TextureError::NeedsDownload),
            !self.needs_download_spec() && !self.in_bounds(x as nat, y as nat, z as nat) ==> r
                == Err::<Vec<u8>, TextureError>(TextureError::OutOfBounds),
            r is Ok == (!self.needs_download_spec() && self.in_bounds(x as nat, y as nat, z as nat)),
            r matches Ok(v) ==> v@ == self.texel_spec(x as nat, y as nat, z as nat),
    {
        if self.needs_download {
            return Err(TextureError::NeedsDownload);
        }
        if x >= self.width || y >= self.height || z >= self.depth {
            return Err(TextureError::OutOfBounds);
        }
        let start = self.texel_position(x, y, z);
        Ok(copy_out(&self.storage.bytes, start, self.format.texel_size()))
    }

    /// Overwrites texel (`x`, `y`, `z`) with `data`; the host copy is then
    /// newer than the device copy.
    pub fn set_texel(&mut self, x: usize, y: usize, z: usize, data: &[u8]) -> (r: Result<
        (),
        TextureError,
    >)
        requires
            old(self).wf(),
            data@.len() == old(self).format_spec().texel_size_spec(),
        ensures
            final(self).wf(),
            final(self).same_shape(old(self)),
            final(self).needs_download_spec() == old(self).needs_download_spec(),
            old(self).needs_download_spec() ==> r == Err::<(), TextureError>(TextureError::NeedsDownload),
            !old(self).needs_download_spec() && !old(self).in_bounds(x as nat, y as nat, z as nat)
                ==> r == Err::<(), TextureError>(TextureError::OutOfBounds),
            r is Ok == (!old(self).needs_download_spec() && old(self).in_bounds(
                x as nat,
                y as nat,
                z as nat,
            )),
            r is Ok ==> {
                let start = old(self).texel_start(x as nat, y as nat, z as nat);
                &&& final(self).needs_upload_spec()
                &&& final(self).contents() == old(self).contents().subrange(0, start as int)
                    + data@ + old(self).contents().subrange(
                    (start + data@.len()) as int,
                    old(self).contents().len() as int,
                )
            },
            r is Err ==> *final(self) == *old(self),
    {
        if self.needs_download {
            return Err(TextureError::NeedsDownload);
        }
        if x >= self.width || y >= self.height || z >= self.depth {
            return Err(TextureError::OutOfBounds);
        }
        let start = self.texel_position(x, y, z);
        copy_into(&mut self.storage.bytes, start, data);
        self.needs_upload = true;
        Ok(())
    }

    /// Whether the host copy must now be written to the device texture; the
    /// texture then counts as uploaded.
    pub fn upload(&mut self) -> (r: bool)
        requires
            old(self).wf(),
        ensures
            final(self).wf(),
            r == (old(self).needs_upload_spec() && old(self).contents().len() > 0),
            !final(self).needs_upload_spec(),
            final(self).needs_download_spec() == old(self).needs_download_spec(),
            final(self).contents() == old(self).contents(),
            final(self).same_shape(old(self)),
    {
        let pending = self.needs_upload;
        self.needs_upload = false;
        pending && self.storage.size() > 0
    }

    /// The number of bytes a download reads back.
    pub fn download_size(&self) -> (r: usize)
        ensures
            r == self.contents().len(),
    {
        self.storage.size()
    }

    /// Takes `data`, read back from the device texture in the padded row
    /// layout, as the host copy; the host copy is then current.
    pub fn complete_download(&mut self, data: &[u8])
        requires
            old(self).wf(),
            data@.len() == old(self).contents().len(),
        ensures
            final(self).wf(),
            final(self).contents() == data@,
            !final(self).needs_download_spec(),
            final(self).needs_upload_spec() == old(self).needs_upload_spec(),
            final(self).same_shape(old(self)),
    {
        copy_into(&mut self.storage.bytes, 0, data);
        self.needs_download = false;
        assert(self.storage.view() =~= data@);
    }
}

/// Sampled as floating-point values; `FILTERABLE` where filtering is allowed.
pub struct Float<const FILTERABLE: bool>;

/// Sampled as depth values.
pub struct Depth;

/// Sampled as signed integers.
pub struct Sint;

/// Sampled as unsigned integers.
pub struct Uint;

/// A marker type that names how a texture is sampled.
pub trait SampleKind {
    spec fn sample_type_spec() -> TextureSampleType;

    fn sample_type() -> (r: TextureSampleType)
        ensures
            r == Self::sample_type_spec(),
    ;
}

impl<const FILTERABLE: bool> SampleKind for Float<FILTERABLE> {
    open spec fn sample_type_spec() -> TextureSampleType {
        TextureSampleType::Float { filterable: FILTERABLE }
    }

    fn sample_type() -> (r: TextureSampleType) {
        TextureSampleType::Float { filterable: FILTERABLE }
    }
}

impl SampleKind for Depth {
    open spec fn sample_type_spec() -> TextureSampleType {
        TextureSampleType::Depth
    }

    fn sample_type() -> (r: TextureSampleType) {
        TextureSampleType::Depth
    }
}

impl SampleKind for Sint {
    open spec fn sample_type_spec() -> TextureSampleType {
        TextureSampleType::Sint
    }

    fn sample_type() -> (r: TextureSampleType) {
        TextureSampleType::Sint
    }
}

impl SampleKind for Uint {
    open spec fn sample_type_spec() -> TextureSampleType {
        TextureSampleType::Uint
    }

    fn sample_type() -> (r: TextureSampleType) {
        TextureSampleType::Uint
    }
}

pub struct D1;

pub struct D2;

pub struct D2Array;

pub struct Cube;

pub struct CubeArray;

pub struct D3;

/// A marker type that names how a texture is viewed.
pub trait ViewDimension {
    spec fn view_dimension_spec() -> TextureViewDimension;

    fn view_dimension() -> (r: TextureViewDimension)
        ensures
            r == Self::view_dimension_spec(),
    ;
}

impl ViewDimension for D1 {
    open spec fn view_dimension_spec() -> TextureViewDimension {
        TextureViewDimension::D1
    }

    fn view_dimension() -> (r: TextureViewDimension) {
        TextureViewDimension::D1
    }
}

impl ViewDimension for D2 {
    open spec fn view_dimension_spec() -> TextureViewDimension {
        TextureViewDimension::D2
    }

    fn view_dimension() -> (r: TextureViewDimension) {
        TextureViewDimension::D2
    }
}

impl ViewDimension for D2Array {
    open spec fn view_dimension_spec() -> TextureViewDimension {
        TextureViewDimension::D2Array
    }

    fn view_dimension() -> (r: TextureViewDimension) {
        TextureViewDimension::D2Array
    }
}

impl ViewDimension for Cube {
    open spec fn view_dimension_spec() -> TextureViewDimension {
        TextureViewDimension::Cube
    }

    fn view_dimension() -> (r: TextureViewDimension) {
        TextureViewDimension::Cube
    }
}

impl ViewDimension for CubeArray {
    open spec fn view_dimension_spec() -> TextureViewDimension {
        TextureViewDimension::CubeArray
    }

    fn view_dimension() -> (r: TextureViewDimension) {
        TextureViewDimension::CubeArray
    }
}

impl ViewDimension for D3 {
    open spec fn view_dimension_spec() -> TextureViewDimension {
        TextureViewDimension::D3
    }

    fn view_dimension() -> (r: TextureViewDimension) {
        TextureViewDimension::D3
    }
}

/// A pixel value that a texture of some format holds, texel for texel.
pub trait TextureData: Copy {}

/// A format that can be sampled, and how.
pub trait Sampled {
    type SampleType: SampleKind;
}

/// A format that a storage texture can hold, and under which texel format.
pub trait Stored {
    type TexelFormat;
}

impl TextureFormat {
    /// How a texture of this format is sampled.
    pub open spec fn sample_type_spec(self) -> TextureSampleType {
        match self {
            TextureFormat::Rgba8UnormSrgb | TextureFormat::Rgba8Unorm
            | TextureFormat::Rgba8Snorm => TextureSampleType::Float { filterable: true },
            TextureFormat::Rgba16Float | TextureFormat::R32Float | TextureFormat::Rg32Float
            | TextureFormat::Rgba32Float => TextureSampleType::Float { filterable: false },
            TextureFormat::Rgba8Uint | TextureFormat::Rgba16Uint | TextureFormat::R32Uint
            | TextureFormat::Rg32Uint | TextureFormat::Rgba32Uint => TextureSampleType::Uint,
            TextureFormat::Rgba8Sint | TextureFormat::Rgba16Sint | TextureFormat::R32Sint
            | TextureFormat::Rg32Sint | TextureFormat::Rgba32Sint => TextureSampleType::Sint,
        }
    }

    pub fn sample_type(self) -> (r: TextureSampleType)
        ensures
            r == self.sample_type_spec(),
    {
        match self {
            TextureFormat::Rgba8UnormSrgb | TextureFormat::Rgba8Unorm
            | TextureFormat::Rgba8Snorm => TextureSampleType::Float { filterable: true },
            TextureFormat::Rgba16Float | TextureFormat::R32Float | TextureFormat::Rg32Float
            | TextureFormat::Rgba32Float => TextureSampleType::Float { filterable: false },
            TextureFormat::Rgba8Uint | TextureFormat::Rgba16Uint | TextureFormat::R32Uint
            | TextureFormat::Rg32Uint | TextureFormat::Rgba32Uint => TextureSampleType::Uint,
            TextureFormat::Rgba8Sint | TextureFormat::Rgba16Sint | TextureFormat::R32Sint
            | TextureFormat::Rg32Sint | TextureFormat::Rgba32Sint => TextureSampleType::Sint,
        }
    }

    /// Whether a storage texture can hold this format: every one but the
    /// sRGB format.
    pub fn is_storable(self) -> (r: bool)
        ensures
            r == (self != TextureFormat::Rgba8UnormSrgb),
    {
        !matches!(self, TextureFormat::Rgba8UnormSrgb)
    }
}

/// The binding kind of a texture sampled as `SampleType`, viewed as
/// `ViewDim`, multisampled or not.
pub struct TextureBinding<SampleType, ViewDim, const MULTISAMPLED: bool> {
    pub sample: SampleType,
    pub view: ViewDim,
}

/// The binding kind of a storage texture of `TexelFormat`, viewed as `ViewDim`.
pub struct StorageTextureBinding<TexelFormat, ViewDim> {
    pub texel_format: TexelFormat,
    pub view: ViewDim,
}

impl<SampleType: SampleKind, ViewDim: ViewDimension, const MULTISAMPLED: bool> TextureBinding<
    SampleType,
    ViewDim,
    MULTISAMPLED,
> {
    /// The layout slot type of this binding kind.
    pub fn binding_type() -> (r: BindingType)
        ensures
            r == (BindingType::Texture {
                sample_type: SampleType::sample_type_spec(),
                view_dimension: ViewDim::view_dimension_spec(),
                multisampled: MULTISAMPLED,
            }),
    {
        BindingType::Texture {
            sample_type: SampleType::sample_type(),
            view_dimension: ViewDim::view_dimension(),
            multisampled: MULTISAMPLED,
        }
    }
}

impl<TexelFormat, ViewDim: ViewDimension> StorageTextureBinding<TexelFormat, ViewDim> {
    /// The layout slot type of this binding kind, for `format` and `access`.
    pub fn binding_type(format: TextureFormat, access: StorageTextureAccess) -> (r: BindingType)
        ensures
            r == (BindingType::StorageTexture {
                access,
                format,
                view_dimension: ViewDim::view_dimension_spec(),
            }),
    {
        BindingType::StorageTexture { access, format, view_dimension: ViewDim::view_dimension() }
    }
}

} // verus!
