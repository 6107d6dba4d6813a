//! The recorded device: native operations as plain values, and the handles
//! that name the objects they create.

use vstd::prelude::*;

verus! {

/// The handle that names no object.
pub const NULL_HANDLE: u64 = 0;

/// Buffer usage: source of a transfer.
pub const BUFFER_USAGE_TRANSFER_SRC: u32 = 0x1;

/// Buffer usage: destination of a transfer.
pub const BUFFER_USAGE_TRANSFER_DST: u32 = 0x2;

/// Buffer usage: uniform data.
pub const BUFFER_USAGE_UNIFORM: u32 = 0x10;

/// Buffer usage: index data.
pub const BUFFER_USAGE_INDEX: u32 = 0x40;

/// Buffer usage: vertex data.
pub const BUFFER_USAGE_VERTEX: u32 = 0x80;

/// Image usage: source of a transfer.
pub const IMAGE_USAGE_TRANSFER_SRC: u32 = 0x1;

/// Image usage: destination of a transfer.
pub const IMAGE_USAGE_TRANSFER_DST: u32 = 0x2;

/// Image usage: sampled from a shader.
pub const IMAGE_USAGE_SAMPLED: u32 = 0x4;

/// Image usage: depth-stencil attachment.
pub const IMAGE_USAGE_DEPTH_STENCIL_ATTACHMENT: u32 = 0x20;

/// Memory property: local to the device.
pub const MEMORY_DEVICE_LOCAL: u32 = 0x1;

/// Memory property: mappable by the host.
pub const MEMORY_HOST_VISIBLE: u32 = 0x2;

/// Memory property: host writes need no explicit flush.
pub const MEMORY_HOST_COHERENT: u32 = 0x4;

/// Four 8-bit unsigned normalized channels, red first.
pub const FORMAT_R8G8B8A8_UNORM: i32 = 37;

/// One 32-bit float depth channel.
pub const FORMAT_D32_SFLOAT: i32 = 126;

/// How long a submission's fence is waited for, in nanoseconds.
pub const FENCE_TIMEOUT: u64 = 100_000_000_000;

/// The layout of one mip level of an image.
#[derive(Clone, Copy, PartialEq, Eq, Structural, Debug)]
pub enum ImageLayout {
    Undefined,
    TransferSrcOptimal,
    TransferDstOptimal,
    ShaderReadOnlyOptimal,
}

/// The kind of memory access that a barrier orders.
#[derive(Clone, Copy, PartialEq, Eq, Structural, Debug)]
pub enum Access {
    NoAccess,
    TransferRead,
    TransferWrite,
    ShaderRead,
}

/// The pipeline stage that a barrier waits for or blocks.
#[derive(Clone, Copy, PartialEq, Eq, Structural, Debug)]
pub enum Stage {
    TopOfPipe,
    Transfer,
    Blit,
    FragmentShader,
}

/// Which part of an image a view or a barrier covers.
#[derive(Clone, Copy, PartialEq, Eq, Structural, Debug)]
pub enum ImageAspect {
    Color,
    Depth,
}

/// How texels are filtered when an image is magnified or minified.
#[derive(Clone, Copy, PartialEq, Eq, Structural, Debug, Hash)]
pub enum Filter {
    Nearest,
    Linear,
}

/// How mip levels are blended.
#[derive(Clone, Copy, PartialEq, Eq, Structural, Debug, Hash)]
pub enum MipmapMode {
    Nearest,
    Linear,
}

/// What a sampler returns outside the unit square.
#[derive(Clone, Copy, PartialEq, Eq, Structural, Debug, Hash)]
pub enum AddressMode {
    Repeat,
    MirroredRepeat,
    ClampToEdge,
    ClampToBorder,
}

/// The configuration of a sampler; the key under which samplers are shared.
///
/// The level-of-detail values are bit patterns of 32-bit floats: they are
/// only ever compared and handed on.
#[derive(Clone, Copy, PartialEq, Eq, Structural, Debug, Hash)]
pub struct SamplerInfo {
    pub mag_filter: Filter,
    pub min_filter: Filter,
    pub mipmap_mode: MipmapMode,
    pub address_mode_u: AddressMode,
    pub address_mode_v: AddressMode,
    pub address_mode_w: AddressMode,
    pub mip_lod_bias: u32,
    pub min_lod: u32,
    pub max_lod: u32,
}

/// A width and a height in texels.
#[derive(Clone, Copy, PartialEq, Eq, Structural, Debug)]
pub struct Extent2D {
    pub width: u32,
    pub height: u32,
}

/// A layout transition of a range of mip levels of one image.
#[derive(Clone, Copy, PartialEq, Eq, Structural, Debug)]
pub struct ImageBarrier {
    pub image: u64,
    pub base_mip_level: u32,
    pub level_count: u32,
    pub old_layout: ImageLayout,
    pub new_layout: ImageLayout,
    pub src_access: Access,
    pub dst_access: Access,
    pub src_stage: Stage,
    pub dst_stage: Stage,
}

/// A scaled copy from one mip level of an image into another, both regions
/// starting at the origin.
#[derive(Clone, Copy, PartialEq, Eq, Structural, Debug)]
pub struct ImageBlit {
    pub src_level: u32,
    pub dst_level: u32,
    pub src_width: u32,
    pub src_height: u32,
    pub dst_width: u32,
    pub dst_height: u32,
}

/// One native operation, with everything the call needs.
#[derive(Clone, Copy, PartialEq, Eq, Structural, Debug)]
pub enum DeviceOp {
    CreateBuffer { buffer: u64, size: u64, usage: u32 },
    DestroyBuffer { buffer: u64 },
    /// Allocate what `buffer` requires, from a memory type with `properties`.
    AllocateBufferMemory { memory: u64, buffer: u64, properties: u32 },
    /// Allocate what `image` requires, from a memory type with `properties`.
    AllocateImageMemory { memory: u64, image: u64, properties: u32 },
    BindBufferMemory { buffer: u64, memory: u64, offset: u64 },
    BindImageMemory { image: u64, memory: u64, offset: u64 },
    FreeMemory { memory: u64 },
    MapMemory { memory: u64, offset: u64, size: u64 },
    /// Copy `len` staged bytes, from `start` in the payload, to the start of
    /// the mapped range.
    WriteMapped { memory: u64, start: u64, len: u64 },
    UnmapMemory { memory: u64 },
    CreateImage { image: u64, format: i32, extent: Extent2D, mip_levels: u32, usage: u32 },
    DestroyImage { image: u64 },
    CreateImageView { view: u64, image: u64, format: i32, mip_levels: u32, aspect: ImageAspect },
    DestroyImageView { view: u64 },
    CreateSampler { sampler: u64, info: SamplerInfo },
    DestroySampler { sampler: u64 },
    AllocateCommandBuffer { command_buffer: u64, pool: u64 },
    /// Begin recording, for a single submission.
    BeginCommandBuffer { command_buffer: u64 },
    EndCommandBuffer { command_buffer: u64 },
    CreateFence { fence: u64 },
    QueueSubmit { queue: u64, command_buffer: u64, fence: u64 },
    WaitForFence { fence: u64, timeout: u64 },
    DestroyFence { fence: u64 },
    FreeCommandBuffer { pool: u64, command_buffer: u64 },
    CmdPipelineBarrier { command_buffer: u64, barrier: ImageBarrier },
    /// Copy a tightly packed buffer into mip level 0 of `image`.
    CmdCopyBufferToImage { command_buffer: u64, buffer: u64, image: u64, extent: Extent2D },
    /// Blit within `image`, from a level in the transfer-source layout to
    /// one in the transfer-destination layout.
    CmdBlitImage { command_buffer: u64, image: u64, blit: ImageBlit, filter: Filter },
}

/// The `n`-th handle handed out after `first`, which is the 0-th.
pub open spec fn nth_handle(first: u64, n: nat) -> u64 {
    (first + n) as u64
}

/// The handle of the object that `op` brings into being, if it creates one
/// that the device numbers. Samplers are numbered by their cache.
pub open spec fn introduced(op: DeviceOp) -> Option<u64> {
    match op {
        DeviceOp::CreateBuffer { buffer, .. } => Some(buffer),
        DeviceOp::AllocateBufferMemory { memory, .. } => Some(memory),
        DeviceOp::AllocateImageMemory { memory, .. } => Some(memory),
        DeviceOp::CreateImage { image, .. } => Some(image),
        DeviceOp::CreateImageView { view, .. } => Some(view),
        DeviceOp::AllocateCommandBuffer { command_buffer, .. } => Some(command_buffer),
        DeviceOp::CreateFence { fence } => Some(fence),
        _ => None,
    }
}

/// Whether `op` reads staged bytes only inside a payload of `len` bytes.
pub open spec fn staged_within(op: DeviceOp, len: nat) -> bool {
    match op {
        DeviceOp::WriteMapped { start, len: n, .. } => start + n <= len,
        _ => true,
    }
}

/// Whether `op` creates only a handle below `next`, and reads staged bytes
/// only inside a payload of `len` bytes.
pub open spec fn op_within(op: DeviceOp, next: u64, len: nat) -> bool {
    &&& introduced(op) matches Some(h) ==> h < next
    &&& staged_within(op, len)
}

/// What a [`Device`] holds, as mathematics.
pub struct DeviceView {
    /// The operations recorded so far, oldest first.
    pub ops: Seq<DeviceOp>,
    /// The bytes staged for upload, in the order they were staged.
    pub payload: Seq<u8>,
    /// The next handle to hand out.
    pub next_handle: u64,
}

impl DeviceView {
    /// No recorded operation creates a handle that is still to be handed
    /// out, or reads past the staged bytes.
    pub open spec fn wf(self) -> bool {
        &&& self.next_handle >= 1
        &&& forall|i: int|
            0 <= i < self.ops.len() ==> op_within(
                #[trigger] self.ops[i],
                self.next_handle,
                self.payload.len(),
            )
    }

    /// Whether `n` more handles can be handed out.
    pub open spec fn room(self, n: int) -> bool {
        self.next_handle + n <= u64::MAX
    }

    /// The operations recorded since the record was `before`.
    pub open spec fn since(self, before: DeviceView) -> Seq<DeviceOp> {
        self.ops.skip(before.ops.len() as int)
    }

    /// Whether this record is `before` with `ops` appended, `staged` added to
    /// the payload and `handles` more handles handed out.
    pub open spec fn follows(
        self,
        before: DeviceView,
        ops: Seq<DeviceOp>,
        staged: Seq<u8>,
        handles: int,
    ) -> bool {
        &&& self.wf()
        &&& self.ops == before.ops + ops
        &&& self.payload == before.payload + staged
        &&& self.next_handle == before.next_handle + handles
    }
}

/// A recorder of native operations.
///
/// It hands out handles, each once, and keeps the operations in the order
/// they were recorded, with the bytes they upload.
pub struct Device {
    ops: Vec<DeviceOp>,
    payload: Vec<u8>,
    next_handle: u64,
}

impl View for Device {
    type V = DeviceView;

    closed spec fn view(&self) -> DeviceView {
        DeviceView { ops: self.ops@, payload: self.payload@, next_handle: self.next_handle }
    }
}

impl Device {
    /// Validity of the record: see [`DeviceView::wf`].
    pub open spec fn wf(&self) -> bool {
        self@.wf()
    }

    /// An empty record whose first handle is 1.
    pub fn new() -> (device: Device)
        ensures
            device.wf(),
            device@.ops == Seq::<DeviceOp>::empty(),
            device@.payload == Seq::<u8>::empty(),
            device@.next_handle == 1,
    {
        Device { ops: Vec::new(), payload: Vec::new(), next_handle: 1 }
    }

    /// The operations recorded so far.
    pub fn ops(&self) -> (ops: &Vec<DeviceOp>)
        ensures
            ops@ == self@.ops,
    {
        &self.ops
    }

    /// The bytes staged so far.
    pub fn payload(&self) -> (payload: &Vec<u8>)
        ensures
            payload@ == self@.payload,
    {
        &self.payload
    }

    /// The handle that the next created object will get.
    pub fn next_handle(&self) -> (next: u64)
        ensures
            next == self@.next_handle,
    {
        self.next_handle
    }

    /// Whether `n` more handles can be handed out.
    pub fn has_room(&self, n: u64) -> (ok: bool)
        ensures
            ok == self@.room(n as int),
    {
        n <= u64::MAX - self.next_handle
    }

    /// Forget the operations and the staged bytes, once they have been
    /// carried out. The handles handed out stay handed out; what the record
    /// said of objects and layouts is forgotten with it.
    pub fn clear(&mut self)
        requires
            old(self).wf(),
        ensures
            final(self).wf(),
            final(self)@.ops == Seq::<DeviceOp>::empty(),
            final(self)@.payload == Seq::<u8>::empty(),
            final(self)@.next_handle == old(self)@.next_handle,
    {
        self.ops.clear();
        self.payload.clear();
    }

    /// Hand out the next handle.
    pub(crate) fn fresh(&mut self) -> (handle: u64)
        requires
            old(self).wf(),
            old(self)@.room(1),
        ensures
            final(self).wf(),
            handle == old(self)@.next_handle,
            final(self)@.next_handle == handle + 1,
            final(self)@.ops == old(self)@.ops,
            final(self)@.payload == old(self)@.payload,
    {
        let handle: u64 = self.next_handle;
        self.next_handle = handle + 1;
        proof {
            assert(self@.ops == old(self)@.ops);
        }
        handle
    }

    /// Append one operation to the record.
    pub(crate) fn record(&mut self, op: DeviceOp)
        requires
            old(self).wf(),
            introduced(op) matches Some(h) ==> h < old(self)@.next_handle,
            staged_within(op, old(self)@.payload.len()),
        ensures
            final(self).wf(),
            final(self)@.ops == old(self)@.ops.push(op),
            final(self)@.payload == old(self)@.payload,
            final(self)@.next_handle == old(self)@.next_handle,
    {
        self.ops.push(op);
        proof {
            assert(self@.ops == old(self)@.ops.push(op));
            assert(self@.payload == old(self)@.payload);
        }
    }

    /// Stage `data` for upload; returns where in the payload it starts.
    pub(crate) fn stage(&mut self, data: &[u8]) -> (start: u64)
        requires
            old(self).wf(),
        ensures
            final(self).wf(),
            start == old(self)@.payload.len(),
            final(self)@.payload == old(self)@.payload + data@,
            final(self)@.ops == old(self)@.ops,
            final(self)@.next_handle == old(self)@.next_handle,
    {
        let start: usize = self.payload.len();
        self.payload.extend_from_slice(data);
        proof {
            assert(self@.ops == old(self)@.ops);
            assert(self@.payload == old(self)@.payload + data@);
        }
        start as u64
    }
}

} // verus!
