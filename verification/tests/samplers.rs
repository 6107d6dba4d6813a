use vent::cache::VulkanCache;
use vent::device::{AddressMode, Device, DeviceOp, Filter, MipmapMode, SamplerInfo};

fn base() -> SamplerInfo {
    SamplerInfo::default()
}

#[test]
fn default_sampler_is_linear_and_repeats() {
    assert_eq!(
        base(),
        SamplerInfo {
            mag_filter: Filter::Linear,
            min_filter: Filter::Linear,
            mipmap_mode: MipmapMode::Linear,
            address_mode_u: AddressMode::Repeat,
            address_mode_v: AddressMode::Repeat,
            address_mode_w: AddressMode::Repeat,
            mip_lod_bias: 0.0f32.to_bits(),
            min_lod: 0.0f32.to_bits(),
            max_lod: 1000.0f32.to_bits(),
        }
    );
}

#[test]
fn equal_configurations_share_one_sampler() {
    let mut device = Device::new();
    let mut cache = VulkanCache::new();
    let first = cache.get_sampler(&mut device, base());
    let second = cache.get_sampler(&mut device, base());
    assert_eq!(first, second);
    assert_eq!(cache.len(), 1);
    assert_eq!(device.ops(), &vec![DeviceOp::CreateSampler { sampler: first, info: base() }]);
}

#[test]
fn a_change_in_any_one_field_gives_another_sampler() {
    let variants = [
        SamplerInfo { mag_filter: Filter::Nearest, ..base() },
        SamplerInfo { min_filter: Filter::Nearest, ..base() },
        SamplerInfo { mipmap_mode: MipmapMode::Nearest, ..base() },
        SamplerInfo { address_mode_u: AddressMode::ClampToEdge, ..base() },
        SamplerInfo { address_mode_v: AddressMode::MirroredRepeat, ..base() },
        SamplerInfo { address_mode_w: AddressMode::ClampToBorder, ..base() },
        SamplerInfo { mip_lod_bias: 0.5f32.to_bits(), ..base() },
        SamplerInfo { min_lod: 1.0f32.to_bits(), ..base() },
        SamplerInfo { max_lod: 4.0f32.to_bits(), ..base() },
    ];
    let mut device = Device::new();
    let mut cache = VulkanCache::new();
    let plain = cache.get_sampler(&mut device, base());
    let mut seen = vec![plain];
    for variant in variants {
        let handle = cache.get_sampler(&mut device, variant);
        assert!(!seen.contains(&handle));
        seen.push(handle);
    }
    assert_eq!(cache.len(), 10);
    assert_eq!(device.ops().len(), 10);
    assert_eq!(cache.get_sampler(&mut device, base()), plain);
    assert_eq!(device.ops().len(), 10);
}

#[test]
fn handles_stay_as_the_cache_grows() {
    let mut device = Device::new();
    let mut cache = VulkanCache::new();
    let nearest = SamplerInfo { mag_filter: Filter::Nearest, ..base() };
    let clamped = SamplerInfo { address_mode_u: AddressMode::ClampToEdge, ..base() };
    let a = cache.get_sampler(&mut device, nearest);
    let b = cache.get_sampler(&mut device, clamped);
    let c = cache.get_sampler(&mut device, base());
    assert_eq!(cache.get_sampler(&mut device, clamped), b);
    assert_eq!(cache.get_sampler(&mut device, nearest), a);
    assert_eq!(cache.get_sampler(&mut device, base()), c);
    assert_eq!((a, b, c), (0, 1, 2));
}

#[test]
fn find_does_not_create() {
    let mut device = Device::new();
    let mut cache = VulkanCache::new();
    assert_eq!(cache.find(&base()), None);
    assert_eq!(cache.len(), 0);
    let handle = cache.get_sampler(&mut device, base());
    assert_eq!(cache.find(&base()), Some(handle));
    assert_eq!(cache.find(&SamplerInfo { max_lod: 0, ..base() }), None);
}

#[test]
fn clear_destroys_every_sampler_in_order() {
    let mut device = Device::new();
    let mut cache = VulkanCache::new();
    cache.get_sampler(&mut device, base());
    cache.get_sampler(&mut device, SamplerInfo { mag_filter: Filter::Nearest, ..base() });
    cache.clear(&mut device);
    assert_eq!(cache.len(), 0);
    assert_eq!(
        &device.ops()[2..],
        &[DeviceOp::DestroySampler { sampler: 0 }, DeviceOp::DestroySampler { sampler: 1 }]
    );
    let again = cache.get_sampler(&mut device, base());
    assert_eq!(again, 0);
    assert_eq!(device.ops().len(), 5);
}
