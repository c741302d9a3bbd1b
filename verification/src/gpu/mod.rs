pub mod drm;
pub mod nvidia;

use vstd::prelude::*;

verus! {

#[derive(Debug, Clone, Copy, PartialEq, Eq, Structural)]
pub enum GpuVendor {
    Nvidia,
    AmdDiscrete,
    AmdIgpu,
    IntelArc,
    IntelIgpu,
    Unknown,
}

} // verus!
