//! What counts as an asset.

use vstd::prelude::*;
use crate::pixels::DecodedImage;

verus! {

/// Data that is loaded from outside and handed to the device.
pub trait Asset {

}

impl Asset for DecodedImage {

}

} // verus!
