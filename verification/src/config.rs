use vstd::prelude::*;

verus! {

/// Deployment-wide configuration of the core.
///
/// `model_size` is the fixed length of every model and delta vector.
/// `init_weight` is the scalar (an IEEE-754 single-precision bit pattern)
/// that fills the genesis model. The quorum threshold is the exact
/// rational `majority_num / majority_den`.
#[derive(Debug)]
pub struct Config {
    pub model_size: u32,
    pub init_weight: u32,
    pub majority_num: u64,
    pub majority_den: u64,
}

impl Config {
    /// A usable configuration: the quorum threshold is a well-formed fraction.
    pub open spec fn wf(self) -> bool {
        self.majority_den >= 1
    }

    pub fn new(model_size: u32, init_weight: u32, majority_num: u64, majority_den: u64) -> (r: Config)
        requires
            majority_den >= 1,
        ensures
            r.wf(),
            r.model_size == model_size,
            r.init_weight == init_weight,
            r.majority_num == majority_num,
            r.majority_den == majority_den,
    {
        Config { model_size, init_weight, majority_num, majority_den }
    }
}

} // verus!
