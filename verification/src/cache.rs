//! The object cache: one sampler for each configuration in use.

use vstd::prelude::*;
use crate::device::{AddressMode, Device, DeviceOp, Filter, MipmapMode, SamplerInfo};
use crate::lifetime::{alive, lemma_alive_follows, lemma_alive_kept};

verus! {

/// The handle that a request for `info` is answered with: the place of
/// `info` among the cached configurations, or the next free place.
pub open spec fn handle_for(cache: Seq<SamplerInfo>, info: SamplerInfo) -> nat {
    if cache.contains(info) {
        cache.index_of(info) as nat
    } else {
        cache.len()
    }
}

/// The cached configurations after a request for `info`.
pub open spec fn with_sampler(cache: Seq<SamplerInfo>, info: SamplerInfo) -> Seq<SamplerInfo> {
    if cache.contains(info) {
        cache
    } else {
        cache.push(info)
    }
}

/// What a request for `info` records: the creation of a sampler, unless one
/// with that configuration is cached.
pub open spec fn sampler_ops(cache: Seq<SamplerInfo>, info: SamplerInfo) -> Seq<DeviceOp> {
    if cache.contains(info) {
        Seq::empty()
    } else {
        seq![DeviceOp::CreateSampler { sampler: cache.len() as u64, info }]
    }
}

/// What tearing the cache down records: the destruction of each sampler, in
/// the order of creation.
pub open spec fn clear_ops(cache: Seq<SamplerInfo>) -> Seq<DeviceOp> {
    Seq::new(cache.len(), |i: int| DeviceOp::DestroySampler { sampler: i as u64 })
}

/// The sampler configuration used where none is asked for: linear filters,
/// repeating addresses, no bias, every mip level.
pub open spec fn default_sampler_info() -> SamplerInfo {
    SamplerInfo {
        mag_filter: Filter::Linear,
        min_filter: Filter::Linear,
        mipmap_mode: MipmapMode::Linear,
        address_mode_u: AddressMode::Repeat,
        address_mode_v: AddressMode::Repeat,
        address_mode_w: AddressMode::Repeat,
        mip_lod_bias: 0,
        min_lod: 0,
        max_lod: 0x447a_0000,
    }
}

impl Default for SamplerInfo {
    fn default() -> (info: SamplerInfo)
        ensures
            info == default_sampler_info(),
    {
        SamplerInfo {
            mag_filter: Filter::Linear,
            min_filter: Filter::Linear,
            mipmap_mode: MipmapMode::Linear,
            address_mode_u: AddressMode::Repeat,
            address_mode_v: AddressMode::Repeat,
            address_mode_w: AddressMode::Repeat,
            mip_lod_bias: 0,
            min_lod: 0,
            max_lod: 0x447a_0000,
        }
    }
}

/// The samplers created so far, by configuration.
///
/// A sampler's handle is its place in the order of creation. Entries stay
/// until [`VulkanCache::clear`].
pub struct VulkanCache {
    samplers: Vec<SamplerInfo>,
}

impl View for VulkanCache {
    type V = Seq<SamplerInfo>;

    closed spec fn view(&self) -> Seq<SamplerInfo> {
        self.samplers@
    }
}

impl VulkanCache {
    /// No configuration is cached twice.
    pub open spec fn wf(&self) -> bool {
        self@.no_duplicates()
    }

    /// A cache without samplers.
    pub fn new() -> (cache: VulkanCache)
        ensures
            cache.wf(),
            cache@ == Seq::<SamplerInfo>::empty(),
    {
        VulkanCache { samplers: Vec::new() }
    }

    /// The number of samplers in the cache.
    pub fn len(&self) -> (n: usize)
        ensures
            n == self@.len(),
    {
        self.samplers.len()
    }

    /// The handle of the cached sampler with configuration `info`, if there
    /// is one.
    pub fn find(&self, info: &SamplerInfo) -> (found: Option<u64>)
        requires
            self.wf(),
        ensures
            found is Some <==> self@.contains(*info),
            found matches Some(h) ==> h == handle_for(self@, *info),
    {
        let mut i: usize = 0;
        while i < self.samplers.len()
            invariant
                i <= self.samplers.len(),
                self.wf(),
                forall|j: int| 0 <= j < i ==> self@[j] != *info,
            decreases self.samplers.len() - i,
        {
            if self.samplers[i] == *info {
                proof {
                    assert(self@.contains(*info));
                    let k = self@.index_of(*info);
                    assert(self@[k] == *info && 0 <= k < self@.len());
                }
                return Some(i as u64);
            }
            i += 1;
        }
        None
    }

    /// The sampler for `info`: the cached one, or a new one, which is
    /// recorded and cached.
    pub fn get_sampler(&mut self, device: &mut Device, info: SamplerInfo) -> (sampler: u64)
        requires
            old(self).wf(),
            old(device).wf(),
        ensures
            final(self).wf(),
            sampler == handle_for(old(self)@, info),
            final(self)@ == with_sampler(old(self)@, info),
            final(device)@.follows(old(device)@, sampler_ops(old(self)@, info), Seq::empty(), 0),
            alive(final(device)@.ops) == alive(old(device)@.ops),
    {
        proof {
            assert(device@.ops =~= device@.ops + Seq::<DeviceOp>::empty());
            assert(device@.payload =~= device@.payload + Seq::<u8>::empty());
        }
        let sampler: u64 = match self.find(&info) {
            Some(sampler) => sampler,
            None => {
                let sampler: u64 = self.samplers.len() as u64;
                device.record(DeviceOp::CreateSampler { sampler, info });
                self.samplers.push(info);
                proof {
                    assert(device@.ops =~= old(device)@.ops + sampler_ops(old(self)@, info));
                    assert(self@ == old(self)@.push(info));
                    assert(self@.no_duplicates());
                }
                sampler
            },
        };
        proof {
            let recorded = sampler_ops(old(self)@, info);
            lemma_alive_follows(old(device)@, device@, recorded, Seq::empty(), 0);
            lemma_alive_kept(recorded, alive(old(device)@.ops));
        }
        sampler
    }

    /// Destroy every sampler and empty the cache.
    pub fn clear(&mut self, device: &mut Device)
        requires
            old(device).wf(),
        ensures
            final(self).wf(),
            final(self)@ == Seq::<SamplerInfo>::empty(),
            final(device)@.follows(old(device)@, clear_ops(old(self)@), Seq::empty(), 0),
            alive(final(device)@.ops) == alive(old(device)@.ops),
    {
        let n: usize = self.samplers.len();
        let mut i: usize = 0;
        proof {
            assert(device@.ops =~= old(device)@.ops + clear_ops(self@).take(0));
        }
        while i < n
            invariant
                i <= n,
                n == self@.len(),
                *self == *old(self),
                device.wf(),
                device@.ops == old(device)@.ops + clear_ops(self@).take(i as int),
                device@.payload == old(device)@.payload,
                device@.next_handle == old(device)@.next_handle,
            decreases n - i,
        {
            device.record(DeviceOp::DestroySampler { sampler: i as u64 });
            proof {
                assert(clear_ops(self@).take(i as int).push(clear_ops(self@)[i as int])
                    =~= clear_ops(self@).take(i as int + 1));
                assert(device@.ops =~= old(device)@.ops + clear_ops(self@).take(i as int + 1));
            }
            i += 1;
        }
        proof {
            assert(clear_ops(self@).take(n as int) =~= clear_ops(self@));
            assert(device@.payload =~= old(device)@.payload + Seq::<u8>::empty());
            lemma_alive_follows(old(device)@, device@, clear_ops(self@), Seq::empty(), 0);
            lemma_alive_kept(clear_ops(self@), alive(old(device)@.ops));
        }
        self.samplers.clear();
    }
}

/// Requests share a sampler exactly when their configurations are equal:
/// after a request for `first`, a request for `second` is answered with the
/// same handle if and only if the two configurations are the same value.
pub proof fn lemma_sampler_shared_iff_equal(
    cache: Seq<SamplerInfo>,
    first: SamplerInfo,
    second: SamplerInfo,
)
    requires
        cache.no_duplicates(),
    ensures
        with_sampler(cache, first).no_duplicates(),
        handle_for(with_sampler(cache, first), second) == handle_for(cache, first) <==> second
            == first,
{
    let after = with_sampler(cache, first);
    let h = handle_for(cache, first);
    assert(after.no_duplicates());
    assert(0 <= h < after.len() && after[h as int] == first) by {
        if cache.contains(first) {
            let k = cache.index_of(first);
            assert(cache[k] == first && 0 <= k < cache.len());
        }
    }
    assert(after.contains(first));
    if after.contains(second) {
        let k = after.index_of(second);
        assert(after[k] == second && 0 <= k < after.len());
    }
}

/// A request leaves every cached sampler under its handle.
pub proof fn lemma_request_keeps_handles(
    cache: Seq<SamplerInfo>,
    info: SamplerInfo,
    other: SamplerInfo,
)
    requires
        cache.no_duplicates(),
        cache.contains(other),
    ensures
        handle_for(with_sampler(cache, info), other) == handle_for(cache, other),
{
    let after = with_sampler(cache, info);
    let k = cache.index_of(other);
    assert(cache[k] == other && 0 <= k < cache.len());
    assert(after[k] == other);
    assert(after.contains(other));
    let j = after.index_of(other);
    assert(after[j] == other && 0 <= j < after.len());
    assert(after.no_duplicates());
}

} // verus!
