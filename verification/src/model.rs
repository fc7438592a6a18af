use vstd::prelude::*;

verus! {

/// Mathematical value of a published model.
pub ghost struct ModelView {
    pub version: u32,
    pub size: u32,
    pub weights: Seq<u32>,
}

/// A published model: a monotonically increasing version, the fixed
/// vector length, and the weight vector, each scalar a 32-bit IEEE-754
/// bit pattern. Immutable once published.
#[derive(Debug)]
pub struct Model {
    pub version: u32,
    pub size: u32,
    pub weights: Vec<u32>,
}

impl View for Model {
    type V = ModelView;

    open spec fn view(&self) -> ModelView {
        ModelView { version: self.version, size: self.size, weights: self.weights@ }
    }
}

impl Model {
    /// The weight vector has exactly the declared length.
    pub open spec fn wf(self) -> bool {
        self.weights@.len() == self.size
    }

    pub fn new(version: u32, size: u32, weights: Vec<u32>) -> (r: Model)
        requires
            weights@.len() == size,
        ensures
            r@ == (ModelView { version, size, weights: weights@ }),
            r.wf(),
    {
        Model { version, size, weights }
    }

    /// An independent copy with the same value.
    pub fn duplicate(&self) -> (r: Model)
        ensures
            r@ == self@,
    {
        Model {
            version: self.version,
            size: self.size,
            weights: copy_scalars(&self.weights),
        }
    }
}

/// Element-for-element copy of a scalar vector.
pub fn copy_scalars(v: &Vec<u32>) -> (r: Vec<u32>)
    ensures
        r@ == v@,
{
    let mut out: Vec<u32> = Vec::new();
    let mut i: usize = 0;
    while i < v.len()
        invariant
            i <= v@.len(),
            out@ == v@.take(i as int),
        decreases v@.len() - i,
    {
        out.push(v[i]);
        proof {
            assert(out@ =~= v@.take(i + 1));
        }
        i = i + 1;
    }
    proof {
        assert(v@.take(v@.len() as int) =~= v@);
    }
    out
}

} // verus!
