use vent::buffer::VulkanBuffer;
use vent::device::{Device, DeviceOp, Extent2D};
use vent::image::VulkanImage;
use vent::instance::VulkanInstance;
use vent::render::{Dimension, RuntimeRenderer};

/// A device that keeps account of what is alive and refuses an operation
/// that names anything else.
struct Strict {
    alive: Vec<u64>,
    calls: usize,
}

impl Strict {
    fn new() -> Strict {
        Strict { alive: Vec::new(), calls: 0 }
    }

    fn create(&mut self, handle: u64) {
        assert!(!self.alive.contains(&handle), "{handle} is created twice");
        self.alive.push(handle);
    }

    fn need(&self, handle: u64) {
        assert!(self.alive.contains(&handle), "{handle} is not alive");
    }

    fn release(&mut self, handle: u64) {
        self.need(handle);
        self.alive.retain(|other| *other != handle);
    }

    fn run(&mut self, ops: &[DeviceOp]) {
        for op in ops {
            self.calls += 1;
            match *op {
                DeviceOp::CreateBuffer { buffer, .. } => self.create(buffer),
                DeviceOp::DestroyBuffer { buffer } => self.release(buffer),
                DeviceOp::AllocateBufferMemory { memory, buffer, .. } => {
                    self.need(buffer);
                    self.create(memory);
                }
                DeviceOp::AllocateImageMemory { memory, image, .. } => {
                    self.need(image);
                    self.create(memory);
                }
                DeviceOp::BindBufferMemory { buffer, memory, .. } => {
                    self.need(buffer);
                    self.need(memory);
                }
                DeviceOp::BindImageMemory { image, memory, .. } => {
                    self.need(image);
                    self.need(memory);
                }
                DeviceOp::FreeMemory { memory } => self.release(memory),
                DeviceOp::MapMemory { memory, .. }
                | DeviceOp::WriteMapped { memory, .. }
                | DeviceOp::UnmapMemory { memory } => self.need(memory),
                DeviceOp::CreateImage { image, .. } => self.create(image),
                DeviceOp::DestroyImage { image } => self.release(image),
                DeviceOp::CreateImageView { view, image, .. } => {
                    self.need(image);
                    self.create(view);
                }
                DeviceOp::DestroyImageView { view } => self.release(view),
                DeviceOp::CreateSampler { .. } | DeviceOp::DestroySampler { .. } => {}
                DeviceOp::AllocateCommandBuffer { command_buffer, .. } => {
                    self.create(command_buffer)
                }
                DeviceOp::BeginCommandBuffer { command_buffer }
                | DeviceOp::EndCommandBuffer { command_buffer } => self.need(command_buffer),
                DeviceOp::CreateFence { fence } => self.create(fence),
                DeviceOp::QueueSubmit { command_buffer, fence, .. } => {
                    self.need(command_buffer);
                    self.need(fence);
                }
                DeviceOp::WaitForFence { fence, .. } => self.need(fence),
                DeviceOp::DestroyFence { fence } => self.release(fence),
                DeviceOp::FreeCommandBuffer { command_buffer, .. } => self.release(command_buffer),
                DeviceOp::CmdPipelineBarrier { command_buffer, barrier } => {
                    self.need(command_buffer);
                    self.need(barrier.image);
                }
                DeviceOp::CmdCopyBufferToImage { command_buffer, buffer, image, .. } => {
                    self.need(command_buffer);
                    self.need(buffer);
                    self.need(image);
                }
                DeviceOp::CmdBlitImage { command_buffer, image, .. } => {
                    self.need(command_buffer);
                    self.need(image);
                }
            }
        }
    }
}

#[test]
fn everything_an_image_records_finds_its_objects() {
    for (width, height) in [(1u32, 1u32), (4, 4), (5, 3), (64, 1), (100, 37)] {
        let mut instance = VulkanInstance::new(Vec::new(), 70, 80);
        let size = Extent2D { width, height };
        let data = vec![0u8; (width * height * 4) as usize];
        let mut plain = VulkanImage::new(&mut instance, &data, size, 37, None);
        let mut chained = VulkanImage::from_pixels(&mut instance, &data, size, None);
        let mut solid = VulkanImage::from_color(&mut instance, [1, 2, 3, 4], size);
        let mut strict = Strict::new();
        strict.run(instance.device.ops());
        assert_eq!(strict.alive.len(), 9);
        instance.device.clear();
        plain.destroy(&mut instance.device);
        chained.destroy(&mut instance.device);
        solid.destroy(&mut instance.device);
        strict.run(instance.device.ops());
        assert!(strict.alive.is_empty());
    }
}

#[test]
fn everything_a_buffer_records_finds_its_objects() {
    let mut device = Device::new();
    let mut buffer = VulkanBuffer::new_init(&mut device, 16, 0x80, &[1, 2, 3]);
    buffer.bind(&mut device);
    buffer.upload_data(&mut device, &[4, 5], 16);
    buffer.destroy(&mut device);
    let mut strict = Strict::new();
    strict.run(device.ops());
    assert!(strict.alive.is_empty());
    assert_eq!(strict.calls, device.ops().len());
}

#[test]
fn everything_a_renderer_records_finds_its_objects() {
    let mut device = Device::new();
    let mut renderer =
        RuntimeRenderer::new(Dimension::D3, &mut device, Extent2D { width: 8, height: 8 });
    renderer.resize(&mut device, Extent2D { width: 16, height: 8 });
    renderer.resize(&mut device, Extent2D { width: 16, height: 8 });
    renderer.resize(&mut device, Extent2D { width: 0, height: 0 });
    renderer.resize(&mut device, Extent2D { width: 3, height: 2 });
    let mut strict = Strict::new();
    strict.run(device.ops());
    assert_eq!(strict.alive.len(), 3);
    renderer.destroy(&mut device);
    let rest = device.ops().len() - 3;
    strict.run(&device.ops()[rest..]);
    assert!(strict.alive.is_empty());
}
