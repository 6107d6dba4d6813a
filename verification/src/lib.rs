//! The verified core of a small engine: a resource and transfer layer for a
//! Vulkan-style device, with the bookkeeping around it.
//!
//! The library never touches a driver. Every operation appends to a
//! [`device::Device`], an exact record of the native calls to make, in
//! order, over plain values. A host program replays that record against the
//! real device. What is decided here (which memory type, how many mip
//! levels, which barriers in which order, which sampler is shared) is proved
//! against the contracts of the functions that decide it.
//!
//! - [`allocator`]: the choice of a memory type.
//! - [`buffer`]: buffers, their memory and uploads.
//! - [`image`]: images, the transfer into them and their mip chains.
//! - [`mip`]: the number and the sizes of mip levels.
//! - [`layout`]: the layouts of mip levels, followed through a record.
//! - [`lifetime`]: which objects a record leaves alive.
//! - [`order`]: whether each operation finds alive what it uses.
//! - [`cache`]: samplers, one for each configuration.
//! - [`command`]: single-use command buffers.
//! - [`error`]: what is fatal.
//! - [`pixels`]: decoded pixels and their normalization to four channels.
//! - [`render`]: the depth target that follows the surface.
//! - [`window`]: keys, buttons and sizes as a window reports them.
//! - [`world`]: entities.

pub mod allocator;
pub mod assets;
pub mod buffer;
pub mod cache;
pub mod command;
pub mod device;
pub mod error;
pub mod image;
pub mod instance;
pub mod layout;
pub mod lifetime;
pub mod mip;
pub mod order;
pub mod pixels;
pub mod render;
pub mod window;
pub mod world;

pub use crate::command::{begin_single_time_command, end_single_time_command};
