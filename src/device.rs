//! Which compute device a model is loaded onto: an accelerator first, the
//! general-purpose processor when no accelerator can take it.
use vstd::prelude::*;

verus! {

/// Layers offloaded to an accelerator: enough to hold every layer of the
/// models served.
pub const ALL_LAYERS: u32 = 99;

/// A place to run the model.
#[derive(Clone, Copy, Debug, PartialEq, Eq, Structural)]
pub enum Device {
    Accelerator,
    Cpu,
}

impl Device {
    /// How many layers to offload when loading onto this device.
    pub fn gpu_layers(self) -> (r: u32)
        ensures
            r == if self is Accelerator {
                ALL_LAYERS
            } else {
                0
            },
    {
        match self {
            Device::Accelerator => ALL_LAYERS,
            Device::Cpu => 0,
        }
    }
}

/// The device to try on the given attempt to load a model, counting from
/// zero: the accelerator, then the processor, then none, at which point
/// loading has failed. A missing accelerator is thus no failure by itself.
pub fn candidate(attempt: usize) -> (r: Option<Device>)
    ensures
        attempt == 0 ==> r == Some(Device::Accelerator),
        attempt == 1 ==> r == Some(Device::Cpu),
        attempt >= 2 ==> r is None,
{
    if attempt == 0 {
        Some(Device::Accelerator)
    } else if attempt == 1 {
        Some(Device::Cpu)
    } else {
        None
    }
}

} // verus!
