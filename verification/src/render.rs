//! The runtime renderer's share of the resources: the depth target that
//! follows the size of the surface.

use vstd::prelude::*;
use crate::device::{Device, DeviceOp, Extent2D, FORMAT_D32_SFLOAT, nth_handle};
use crate::lifetime::{alive, lemma_alive_follows};
use crate::order::{in_order, lemma_in_order_concat};
use crate::image::{
    DEPTH_IMAGE_HANDLES, DepthImage, VulkanImage, depth_image_ops, destroy_image_ops, held_apart,
};

verus! {

/// Whether the application draws in two or in three dimensions.
#[derive(Clone, Copy, PartialEq, Eq, Structural, Debug)]
pub enum Dimension {
    D2,
    D3,
}

/// The renderer of a running application: what it draws, the size of the
/// surface it draws to, and the depth target of that size.
#[derive(Debug)]
pub struct RuntimeRenderer {
    pub dimension: Dimension,
    pub extent: Extent2D,
    pub depth: DepthImage,
}

/// Whether a surface of `new_size` needs another depth target than the one
/// of `current`: the size has changed, and it is not empty.
pub open spec fn needs_new_target(current: Extent2D, new_size: Extent2D) -> bool {
    &&& new_size != current
    &&& new_size.width > 0
    &&& new_size.height > 0
}

/// What a resize to `new_size` records: nothing where the depth target
/// stays; else the destruction of the old target and the creation of one of
/// the new size.
pub open spec fn resize_ops(
    first: u64,
    current: Extent2D,
    depth: DepthImage,
    new_size: Extent2D,
) -> Seq<DeviceOp> {
    if needs_new_target(current, new_size) {
        destroy_image_ops(depth.image_view, depth.image, depth.memory) + depth_image_ops(
            first,
            FORMAT_D32_SFLOAT,
            new_size,
        )
    } else {
        Seq::empty()
    }
}

/// Whether a surface of `new_size` needs another depth target than the one
/// of `current`.
pub fn target_outdated(current: Extent2D, new_size: Extent2D) -> (outdated: bool)
    ensures
        outdated == needs_new_target(current, new_size),
{
    let changed: bool = new_size.width != current.width || new_size.height != current.height;
    changed && new_size.width > 0 && new_size.height > 0
}

impl RuntimeRenderer {
    /// The renderer and its depth target are in use.
    pub open spec fn wf(&self) -> bool {
        !self.depth.destroyed
    }

    /// A renderer for a surface of `extent`, with a depth target of that
    /// size.
    pub fn new(dimension: Dimension, device: &mut Device, extent: Extent2D) -> (renderer:
        RuntimeRenderer)
        requires
            old(device).wf(),
            old(device)@.room(DEPTH_IMAGE_HANDLES as int),
        ensures
            renderer.wf(),
            renderer.dimension == dimension,
            renderer.extent == extent,
            renderer.depth == (DepthImage {
                image: old(device)@.next_handle,
                image_view: nth_handle(old(device)@.next_handle, 2),
                memory: nth_handle(old(device)@.next_handle, 1),
                destroyed: false,
            }),
            final(device)@.follows(
                old(device)@,
                depth_image_ops(old(device)@.next_handle, FORMAT_D32_SFLOAT, extent),
                Seq::empty(),
                3,
            ),
            alive(final(device)@.ops) == alive(old(device)@.ops).insert(
                renderer.depth.image,
            ).insert(renderer.depth.memory).insert(renderer.depth.image_view),
            in_order(final(device)@.since(old(device)@), alive(old(device)@.ops)),
    {
        let depth = VulkanImage::new_depth(device, FORMAT_D32_SFLOAT, extent);
        RuntimeRenderer { dimension, extent, depth }
    }

    /// Follow the surface to `new_size`.
    ///
    /// Where the size has changed and is not empty, the depth target is
    /// destroyed and one of the new size is created. An empty size, as a
    /// minimized window reports it, and an unchanged one leave everything as
    /// it is.
    pub fn resize(&mut self, device: &mut Device, new_size: Extent2D)
        requires
            old(self).wf(),
            old(device).wf(),
            old(device)@.room(DEPTH_IMAGE_HANDLES as int),
        ensures
            final(self).wf(),
            final(self).dimension == old(self).dimension,
            final(device)@.follows(
                old(device)@,
                resize_ops(
                    old(device)@.next_handle,
                    old(self).extent,
                    old(self).depth,
                    new_size,
                ),
                Seq::empty(),
                if needs_new_target(old(self).extent, new_size) {
                    3int
                } else {
                    0int
                },
            ),
            needs_new_target(old(self).extent, new_size) ==> final(self).extent == new_size
                && final(self).depth == (DepthImage {
                image: old(device)@.next_handle,
                image_view: nth_handle(old(device)@.next_handle, 2),
                memory: nth_handle(old(device)@.next_handle, 1),
                destroyed: false,
            }),
            !needs_new_target(old(self).extent, new_size) ==> final(self).extent == old(
                self,
            ).extent && final(self).depth == old(self).depth,
            alive(final(device)@.ops) == if needs_new_target(old(self).extent, new_size) {
                alive(old(device)@.ops).remove(old(self).depth.image_view).remove(
                    old(self).depth.image,
                ).remove(old(self).depth.memory).insert(final(self).depth.image).insert(
                    final(self).depth.memory,
                ).insert(final(self).depth.image_view)
            } else {
                alive(old(device)@.ops)
            },
            held_apart(
                alive(old(device)@.ops),
                old(self).depth.image_view,
                old(self).depth.image,
                old(self).depth.memory,
            ) ==> in_order(final(device)@.since(old(device)@), alive(old(device)@.ops)),
    {
        if target_outdated(self.extent, new_size) {
            self.depth.destroy(device);
            let ghost released = device@;
            self.depth = VulkanImage::new_depth(device, FORMAT_D32_SFLOAT, new_size);
            self.extent = new_size;
            proof {
                let destroyed = destroy_image_ops(
                    old(self).depth.image_view,
                    old(self).depth.image,
                    old(self).depth.memory,
                );
                let created = depth_image_ops(
                    old(device)@.next_handle,
                    FORMAT_D32_SFLOAT,
                    new_size,
                );
                assert(released.since(old(device)@) =~= destroyed);
                assert(device@.since(released) =~= created);
                assert(device@.since(old(device)@) =~= destroyed + created);
                lemma_alive_follows(old(device)@, released, destroyed, Seq::empty(), 0);
                lemma_in_order_concat(destroyed, created, alive(old(device)@.ops));
                assert(device@.ops =~= old(device)@.ops + resize_ops(
                    old(device)@.next_handle,
                    old(self).extent,
                    old(self).depth,
                    new_size,
                ));
                assert(device@.payload =~= old(device)@.payload + Seq::<u8>::empty());
            }
        } else {
            proof {
                assert(device@.ops =~= old(device)@.ops + Seq::<DeviceOp>::empty());
                assert(device@.payload =~= old(device)@.payload + Seq::<u8>::empty());
                assert(device@.since(old(device)@) =~= Seq::<DeviceOp>::empty());
            }
        }
    }

    /// Destroy the depth target. The renderer is not to be used afterwards.
    pub fn destroy(&mut self, device: &mut Device)
        requires
            old(self).wf(),
            old(device).wf(),
        ensures
            final(self).depth.destroyed,
            final(self).dimension == old(self).dimension,
            final(self).extent == old(self).extent,
            final(device)@.follows(
                old(device)@,
                destroy_image_ops(
                    old(self).depth.image_view,
                    old(self).depth.image,
                    old(self).depth.memory,
                ),
                Seq::empty(),
                0,
            ),
            alive(final(device)@.ops) == alive(old(device)@.ops).remove(
                old(self).depth.image_view,
            ).remove(old(self).depth.image).remove(old(self).depth.memory),
            held_apart(
                alive(old(device)@.ops),
                old(self).depth.image_view,
                old(self).depth.image,
                old(self).depth.memory,
            ) ==> in_order(final(device)@.since(old(device)@), alive(old(device)@.ops)),
    {
        self.depth.destroy(device);
    }
}

} // verus!
