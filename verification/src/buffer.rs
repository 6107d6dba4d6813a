//! Buffers: a native buffer with the memory that backs it.

use vstd::prelude::*;
use crate::device::{Device, DeviceOp, MEMORY_DEVICE_LOCAL, nth_handle};
use crate::lifetime::{
    alive, lemma_alive_follows, lemma_alive_kept, lemma_buffer_lifetime,
    lemma_image_memory_lifetime, lemma_next_handles_unused,
};
use crate::order::{
    in_order, lemma_buffer_in_order, lemma_image_memory_in_order, lemma_in_order_concat,
    lemma_in_order_kept,
};

verus! {

/// The properties of the memory behind every buffer: mappable by the host,
/// with no flush needed.
pub const STAGING_MEMORY: u32 = 0x6;

/// The number of handles that creating a buffer takes: one for the buffer,
/// one for its memory.
pub const BUFFER_HANDLES: u64 = 2;

/// Where a buffer is in its life.
#[derive(Clone, Copy, PartialEq, Eq, Structural, Debug)]
pub enum BufferState {
    /// Created, with memory allocated but not bound.
    Unbound,
    /// Memory bound at offset 0.
    Bound,
    /// Buffer destroyed and memory freed.
    Destroyed,
}

/// What creating a buffer records: the buffer, then its memory.
pub open spec fn create_buffer_ops(buffer: u64, memory: u64, size: u64, usage: u32) -> Seq<
    DeviceOp,
> {
    seq![
        DeviceOp::CreateBuffer { buffer, size, usage },
        DeviceOp::AllocateBufferMemory { memory, buffer, properties: STAGING_MEMORY },
    ]
}

/// What allocating for an image records: device-local memory, bound to the
/// image at offset 0.
pub open spec fn image_memory_ops(memory: u64, image: u64) -> Seq<DeviceOp> {
    seq![
        DeviceOp::AllocateImageMemory { memory, image, properties: MEMORY_DEVICE_LOCAL },
        DeviceOp::BindImageMemory { image, memory, offset: 0 },
    ]
}

/// What an upload records: map `size` bytes, copy the `len` staged bytes
/// that start at `start`, unmap.
pub open spec fn upload_ops(memory: u64, size: u64, start: u64, len: u64) -> Seq<DeviceOp> {
    seq![
        DeviceOp::MapMemory { memory, offset: 0, size },
        DeviceOp::WriteMapped { memory, start, len },
        DeviceOp::UnmapMemory { memory },
    ]
}

/// What destroying a buffer records: the buffer goes before its memory.
pub open spec fn destroy_buffer_ops(buffer: u64, memory: u64) -> Seq<DeviceOp> {
    seq![DeviceOp::DestroyBuffer { buffer }, DeviceOp::FreeMemory { memory }]
}

/// The staged bytes that `op` copies, if it is a write to mapped memory.
pub open spec fn written(payload: Seq<u8>, op: DeviceOp) -> Seq<u8> {
    match op {
        DeviceOp::WriteMapped { start, len, .. } => payload.subrange(
            start as int,
            start as int + len as int,
        ),
        _ => Seq::empty(),
    }
}

/// What stands at the start of host-visible `memory` once `ops` have run:
/// each write lays its bytes over the start of what was there.
pub open spec fn read_back(ops: Seq<DeviceOp>, payload: Seq<u8>, memory: u64) -> Seq<u8>
    decreases ops.len(),
{
    if ops.len() == 0 {
        Seq::empty()
    } else {
        let before = read_back(ops.drop_last(), payload, memory);
        match ops.last() {
            DeviceOp::WriteMapped { memory: m, .. } if m == memory => {
                let bytes = written(payload, ops.last());
                if bytes.len() >= before.len() {
                    bytes
                } else {
                    bytes + before.skip(bytes.len() as int)
                }
            },
            _ => before,
        }
    }
}

/// An upload reads back: once the operations of an upload have run, the
/// memory starts with exactly the bytes that were staged for it, byte for
/// byte, whatever ran before and however many bytes there are.
pub proof fn lemma_upload_reads_back(
    earlier: Seq<DeviceOp>,
    payload: Seq<u8>,
    memory: u64,
    size: u64,
    start: u64,
    len: u64,
)
    requires
        start + len <= payload.len(),
    ensures
        read_back(earlier + upload_ops(memory, size, start, len), payload, memory).len() >= len,
        read_back(earlier + upload_ops(memory, size, start, len), payload, memory).take(
            len as int,
        ) == payload.subrange(start as int, start + len),
{
    let upload = upload_ops(memory, size, start, len);
    let mapped = earlier.push(upload[0]);
    let copied = mapped.push(upload[1]);
    let all = copied.push(upload[2]);
    assert(earlier + upload =~= all);
    assert(all.drop_last() =~= copied);
    assert(copied.drop_last() =~= mapped);
    let bytes = written(payload, upload[1]);
    let before = read_back(mapped, payload, memory);
    assert(read_back(all, payload, memory) == read_back(copied, payload, memory));
    if bytes.len() >= before.len() {
        assert(read_back(copied, payload, memory) == bytes);
        assert(bytes.take(len as int) =~= bytes);
    } else {
        assert(read_back(copied, payload, memory) == bytes + before.skip(bytes.len() as int));
        assert((bytes + before.skip(bytes.len() as int)).take(len as int) =~= bytes);
    }
}

/// A native buffer and its memory. It is destroyed by [`VulkanBuffer::destroy`]
/// and by nothing else.
#[derive(Debug)]
pub struct VulkanBuffer {
    pub buffer: u64,
    pub buffer_memory: u64,
    pub state: BufferState,
}

impl VulkanBuffer {
    /// Create a buffer of `size` bytes for `usage`, and allocate
    /// host-visible, host-coherent memory for it. The memory is not bound.
    pub fn new(device: &mut Device, size: u64, usage: u32) -> (created: VulkanBuffer)
        requires
            old(device).wf(),
            old(device)@.room(BUFFER_HANDLES as int),
        ensures
            created.buffer == old(device)@.next_handle,
            created.buffer_memory == old(device)@.next_handle + 1,
            created.state == BufferState::Unbound,
            final(device)@.follows(
                old(device)@,
                create_buffer_ops(created.buffer, created.buffer_memory, size, usage),
                Seq::empty(),
                2,
            ),
            alive(final(device)@.ops) == alive(old(device)@.ops).insert(created.buffer).insert(
                created.buffer_memory,
            ),
            in_order(final(device)@.since(old(device)@), alive(old(device)@.ops)),
    {
        let buffer: u64 = device.fresh();
        let buffer_memory: u64 = device.fresh();
        device.record(DeviceOp::CreateBuffer { buffer, size, usage });
        device.record(
            DeviceOp::AllocateBufferMemory {
                memory: buffer_memory,
                buffer,
                properties: STAGING_MEMORY,
            },
        );
        proof {
            let created = create_buffer_ops(buffer, buffer_memory, size, usage);
            assert(device@.ops =~= old(device)@.ops + created);
            assert(device@.payload =~= old(device)@.payload + Seq::<u8>::empty());
            lemma_alive_follows(old(device)@, device@, created, Seq::empty(), 2);
            lemma_buffer_lifetime(buffer, buffer_memory, size, usage, alive(old(device)@.ops));
            assert(device@.since(old(device)@) =~= created);
            lemma_next_handles_unused(old(device)@, 2);
            assert(buffer == nth_handle(buffer, 0));
            assert(buffer_memory == nth_handle(buffer, 1));
            lemma_buffer_in_order(
                buffer,
                buffer_memory,
                size,
                usage,
                0,
                0,
                alive(old(device)@.ops),
            );
        }
        VulkanBuffer { buffer, buffer_memory, state: BufferState::Unbound }
    }

    /// Allocate device-local memory for `image` and bind it; returns the
    /// memory.
    pub fn new_image(device: &mut Device, image: u64) -> (memory: u64)
        requires
            old(device).wf(),
            old(device)@.room(1),
        ensures
            memory == old(device)@.next_handle,
            final(device)@.follows(old(device)@, image_memory_ops(memory, image), Seq::empty(), 1),
            alive(final(device)@.ops) == alive(old(device)@.ops).insert(memory),
            alive(old(device)@.ops).contains(image) ==> in_order(
                final(device)@.since(old(device)@),
                alive(old(device)@.ops),
            ),
    {
        let memory: u64 = device.fresh();
        device.record(
            DeviceOp::AllocateImageMemory { memory, image, properties: MEMORY_DEVICE_LOCAL },
        );
        device.record(DeviceOp::BindImageMemory { image, memory, offset: 0 });
        proof {
            assert(device@.ops =~= old(device)@.ops + image_memory_ops(memory, image));
            assert(device@.payload =~= old(device)@.payload + Seq::<u8>::empty());
            lemma_alive_follows(
                old(device)@,
                device@,
                image_memory_ops(memory, image),
                Seq::empty(),
                1,
            );
            lemma_image_memory_lifetime(memory, image, alive(old(device)@.ops));
            assert(device@.since(old(device)@) =~= image_memory_ops(memory, image));
            lemma_next_handles_unused(old(device)@, 1);
            assert(memory == nth_handle(memory, 0));
            if alive(old(device)@.ops).contains(image) {
                lemma_image_memory_in_order(memory, image, alive(old(device)@.ops));
            }
        }
        memory
    }

    /// Create a buffer as [`VulkanBuffer::new`] does and upload `data` to
    /// the start of it.
    pub fn new_init(device: &mut Device, size: u64, usage: u32, data: &[u8]) -> (created:
        VulkanBuffer)
        requires
            old(device).wf(),
            old(device)@.room(BUFFER_HANDLES as int),
            data@.len() <= size,
        ensures
            created.buffer == old(device)@.next_handle,
            created.buffer_memory == old(device)@.next_handle + 1,
            created.state == BufferState::Unbound,
            final(device)@.follows(
                old(device)@,
                create_buffer_ops(created.buffer, created.buffer_memory, size, usage) + upload_ops(
                    created.buffer_memory,
                    size,
                    old(device)@.payload.len() as u64,
                    data@.len() as u64,
                ),
                data@,
                2,
            ),
            read_back(final(device)@.ops, final(device)@.payload, created.buffer_memory).take(
                data@.len() as int,
            ) == data@,
            alive(final(device)@.ops) == alive(old(device)@.ops).insert(created.buffer).insert(
                created.buffer_memory,
            ),
            in_order(final(device)@.since(old(device)@), alive(old(device)@.ops)),
    {
        let buffer = Self::new(device, size, usage);
        let ghost made = device@;
        buffer.upload_data(device, data, size);
        proof {
            let created = create_buffer_ops(buffer.buffer, buffer.buffer_memory, size, usage);
            let uploaded = upload_ops(
                buffer.buffer_memory,
                size,
                old(device)@.payload.len() as u64,
                data@.len() as u64,
            );
            assert(made.since(old(device)@) =~= created);
            assert(device@.since(made) =~= uploaded);
            assert(device@.since(old(device)@) =~= created + uploaded);
            lemma_alive_follows(old(device)@, made, created, Seq::empty(), 2);
            lemma_in_order_concat(created, uploaded, alive(old(device)@.ops));
            assert(device@.ops =~= old(device)@.ops + (create_buffer_ops(
                buffer.buffer,
                buffer.buffer_memory,
                size,
                usage,
            ) + upload_ops(
                buffer.buffer_memory,
                size,
                old(device)@.payload.len() as u64,
                data@.len() as u64,
            )));
            assert(device@.payload =~= old(device)@.payload + data@);
        }
        buffer
    }

    /// Map `size` bytes of the buffer's memory, copy `data` to the start of
    /// the mapped range, unmap. Exactly the bytes of `data` are written.
    pub fn upload_data(&self, device: &mut Device, data: &[u8], size: u64)
        requires
            old(device).wf(),
            self.state != BufferState::Destroyed,
            data@.len() <= size,
        ensures
            final(device)@.follows(
                old(device)@,
                upload_ops(
                    self.buffer_memory,
                    size,
                    old(device)@.payload.len() as u64,
                    data@.len() as u64,
                ),
                data@,
                0,
            ),
            read_back(final(device)@.ops, final(device)@.payload, self.buffer_memory).take(
                data@.len() as int,
            ) == data@,
            alive(final(device)@.ops) == alive(old(device)@.ops),
            alive(old(device)@.ops).contains(self.buffer_memory) ==> in_order(
                final(device)@.since(old(device)@),
                alive(old(device)@.ops),
            ),
    {
        let memory: u64 = self.buffer_memory;
        let start: u64 = device.stage(data);
        let len: u64 = data.len() as u64;
        device.record(DeviceOp::MapMemory { memory, offset: 0, size });
        device.record(DeviceOp::WriteMapped { memory, start, len });
        device.record(DeviceOp::UnmapMemory { memory });
        proof {
            assert(device@.ops =~= old(device)@.ops + upload_ops(memory, size, start, len));
            lemma_upload_reads_back(old(device)@.ops, device@.payload, memory, size, start, len);
            assert(device@.payload.subrange(start as int, start + len) =~= data@);
            lemma_alive_follows(
                old(device)@,
                device@,
                upload_ops(memory, size, start, len),
                data@,
                0,
            );
            lemma_alive_kept(upload_ops(memory, size, start, len), alive(old(device)@.ops));
            assert(device@.since(old(device)@) =~= upload_ops(memory, size, start, len));
            if alive(old(device)@.ops).contains(memory) {
                lemma_in_order_kept(
                    upload_ops(memory, size, start, len),
                    alive(old(device)@.ops),
                );
            }
        }
    }

    /// Bind the buffer's memory to it, at offset 0.
    pub fn bind(&mut self, device: &mut Device)
        requires
            old(device).wf(),
            old(self).state == BufferState::Unbound,
        ensures
            final(self).state == BufferState::Bound,
            final(self).buffer == old(self).buffer,
            final(self).buffer_memory == old(self).buffer_memory,
            final(device)@.follows(
                old(device)@,
                seq![
                    DeviceOp::BindBufferMemory {
                        buffer: old(self).buffer,
                        memory: old(self).buffer_memory,
                        offset: 0,
                    },
                ],
                Seq::empty(),
                0,
            ),
            alive(final(device)@.ops) == alive(old(device)@.ops),
            alive(old(device)@.ops).contains(old(self).buffer) && alive(
                old(device)@.ops,
            ).contains(old(self).buffer_memory) ==> in_order(
                final(device)@.since(old(device)@),
                alive(old(device)@.ops),
            ),
    {
        device.record(
            DeviceOp::BindBufferMemory {
                buffer: self.buffer,
                memory: self.buffer_memory,
                offset: 0,
            },
        );
        self.state = BufferState::Bound;
        proof {
            let bound = seq![
                DeviceOp::BindBufferMemory {
                    buffer: old(self).buffer,
                    memory: old(self).buffer_memory,
                    offset: 0,
                },
            ];
            assert(device@.ops =~= old(device)@.ops + bound);
            assert(device@.payload =~= old(device)@.payload + Seq::<u8>::empty());
            lemma_alive_follows(old(device)@, device@, bound, Seq::empty(), 0);
            lemma_alive_kept(bound, alive(old(device)@.ops));
            assert(device@.since(old(device)@) =~= bound);
            if alive(old(device)@.ops).contains(old(self).buffer) && alive(
                old(device)@.ops,
            ).contains(old(self).buffer_memory) {
                lemma_in_order_kept(bound, alive(old(device)@.ops));
            }
        }
    }

    /// Destroy the buffer, then free its memory.
    pub fn destroy(&mut self, device: &mut Device)
        requires
            old(device).wf(),
            old(self).state != BufferState::Destroyed,
        ensures
            final(self).state == BufferState::Destroyed,
            final(self).buffer == old(self).buffer,
            final(self).buffer_memory == old(self).buffer_memory,
            final(device)@.follows(
                old(device)@,
                destroy_buffer_ops(old(self).buffer, old(self).buffer_memory),
                Seq::empty(),
                0,
            ),
            alive(final(device)@.ops) == alive(old(device)@.ops).remove(old(self).buffer).remove(
                old(self).buffer_memory,
            ),
            alive(old(device)@.ops).contains(old(self).buffer) && alive(
                old(device)@.ops,
            ).contains(old(self).buffer_memory) && old(self).buffer != old(self).buffer_memory
                ==> in_order(final(device)@.since(old(device)@), alive(old(device)@.ops)),
    {
        device.record(DeviceOp::DestroyBuffer { buffer: self.buffer });
        device.record(DeviceOp::FreeMemory { memory: self.buffer_memory });
        self.state = BufferState::Destroyed;
        proof {
            let destroyed = destroy_buffer_ops(old(self).buffer, old(self).buffer_memory);
            assert(device@.ops =~= old(device)@.ops + destroyed);
            assert(device@.payload =~= old(device)@.payload + Seq::<u8>::empty());
            lemma_alive_follows(old(device)@, device@, destroyed, Seq::empty(), 0);
            lemma_buffer_lifetime(
                old(self).buffer,
                old(self).buffer_memory,
                0,
                0,
                alive(old(device)@.ops),
            );
            assert(device@.since(old(device)@) =~= destroyed);
            if old(self).buffer != old(self).buffer_memory {
                lemma_buffer_in_order(
                    old(self).buffer,
                    old(self).buffer_memory,
                    0,
                    0,
                    0,
                    0,
                    alive(old(device)@.ops),
                );
            }
        }
    }
}

} // verus!
