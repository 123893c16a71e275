//! Verified core logic of the Deskkin desktop companion.
use vstd::prelude::*;

pub mod background;
pub mod band_ownership;
pub mod blit;
pub mod debug_overlay;
pub mod device;
pub mod identity;
pub mod owner_control;
pub mod pairing;
pub mod pairing_protocol;
pub mod profile;
pub mod renderer;
pub mod scratch;
pub mod session;
pub mod texture_storage;

verus! {
} // verus!
