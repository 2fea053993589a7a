//! Parameters for loading a model.

use vstd::prelude::*;

verus! {

/// Context length and number of layers to offload to the GPU.
#[derive(Clone, Copy)]
pub struct Params {
    pub n_ctx: u32,
    pub n_gpu_layers: i32,
}

impl Default for Params {
    /// A 2048-token context with up to 99 layers on the GPU.
    fn default() -> (p: Self)
        ensures
            p.n_ctx == 2048,
            p.n_gpu_layers == 99,
    {
        Params { n_ctx: 2048, n_gpu_layers: 99 }
    }
}

} // verus!
