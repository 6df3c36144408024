//! Configuration of the inference session's execution device.

use vstd::prelude::*;

verus! {

/// Device configuration for building an inference session: whether to try the
/// accelerated (GPU) execution path, an optional memory limit for it in bytes,
/// and whether a failed accelerator initialization may fall back to the
/// default (CPU) path.
pub struct OrtConfig {
    pub use_gpu: bool,
    pub gpu_memory_limit: Option<usize>,
    pub fallback_to_cpu: bool,
}

impl Clone for OrtConfig {
    fn clone(&self) -> (r: Self)
        ensures
            r == *self,
    {
        OrtConfig { use_gpu: self.use_gpu, gpu_memory_limit: self.gpu_memory_limit, fallback_to_cpu: self.fallback_to_cpu }
    }
}

impl Default for OrtConfig {
    /// The default configuration: CPU only, no memory limit, fallback allowed.
    fn default() -> (r: Self)
        ensures
            r.use_gpu == false,
            r.gpu_memory_limit == None::<usize>,
            r.fallback_to_cpu == true,
    {
        OrtConfig { use_gpu: false, gpu_memory_limit: None, fallback_to_cpu: true }
    }
}

impl OrtConfig {
    /// Same as the default configuration.
    pub fn new() -> (r: Self)
        ensures
            r.use_gpu == false,
            r.gpu_memory_limit == None::<usize>,
            r.fallback_to_cpu == true,
    {
        Self::default()
    }

    /// Turns the accelerated execution path on or off; other fields are kept.
    pub fn with_gpu(self, enabled: bool) -> (r: Self)
        ensures
            r.use_gpu == enabled,
            r.gpu_memory_limit == self.gpu_memory_limit,
            r.fallback_to_cpu == self.fallback_to_cpu,
    {
        OrtConfig { use_gpu: enabled, ..self }
    }

    /// Sets the accelerator memory limit in bytes; other fields are kept.
    pub fn with_gpu_memory_limit(self, limit: Option<usize>) -> (r: Self)
        ensures
            r.use_gpu == self.use_gpu,
            r.gpu_memory_limit == limit,
            r.fallback_to_cpu == self.fallback_to_cpu,
    {
        OrtConfig { gpu_memory_limit: limit, ..self }
    }

    /// Allows or forbids falling back to the default (CPU) path when the
    /// accelerated path cannot be initialized; other fields are kept.
    pub fn with_cpu_fallback(self, fallback: bool) -> (r: Self)
        ensures
            r.use_gpu == self.use_gpu,
            r.gpu_memory_limit == self.gpu_memory_limit,
            r.fallback_to_cpu == fallback,
    {
        OrtConfig { fallback_to_cpu: fallback, ..self }
    }
}

} // verus!
