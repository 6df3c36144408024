//! Device selection: the complete two-state policy around the inference
//! engine's execution providers.

use vstd::prelude::*;

use crate::config::OrtConfig;

verus! {

/// The execution path a session is built on.
#[derive(Debug, Clone, Copy, PartialEq, Eq, Structural)]
pub enum DevicePlan {
    /// The accelerated (GPU) execution provider.
    Accelerated,
    /// The default (CPU) execution provider.
    Cpu,
}

/// The accelerated path was requested and is unavailable, and falling back to
/// the default path is disallowed.
#[derive(Debug, Clone, Copy, PartialEq, Eq, Structural)]
pub struct AcceleratorInitError;

/// The device-selection state machine: two states, one fallback transition,
/// no retries. When the configuration does not ask for acceleration the
/// default path is used; when it does and the accelerator is available the
/// accelerated path is used; when the accelerator is unavailable the default
/// path is used only if fallback is allowed, and otherwise selection fails —
/// never a silent run on the default path.
pub fn select_device(config: &OrtConfig, accelerator_available: bool) -> (r: Result<
    DevicePlan,
    AcceleratorInitError,
>)
    ensures
        !config.use_gpu ==> r == Ok::<DevicePlan, AcceleratorInitError>(DevicePlan::Cpu),
        config.use_gpu && accelerator_available ==> r == Ok::<DevicePlan, AcceleratorInitError>(
            DevicePlan::Accelerated,
        ),
        config.use_gpu && !accelerator_available && config.fallback_to_cpu ==> r == Ok::<
            DevicePlan,
            AcceleratorInitError,
        >(DevicePlan::Cpu),
        config.use_gpu && !accelerator_available && !config.fallback_to_cpu ==> r == Err::<
            DevicePlan,
            AcceleratorInitError,
        >(AcceleratorInitError),
{
    if !config.use_gpu {
        Ok(DevicePlan::Cpu)
    } else if accelerator_available {
        Ok(DevicePlan::Accelerated)
    } else if config.fallback_to_cpu {
        Ok(DevicePlan::Cpu)
    } else {
        Err(AcceleratorInitError)
    }
}

} // verus!
