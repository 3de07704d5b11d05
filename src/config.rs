use vstd::prelude::*;

verus! {

/// What the curve chip is configured with: the shared range-check gate and
/// the shared generic arithmetic gate.
#[derive(Clone, Copy, Debug, PartialEq, Eq)]
pub struct EccConfig<R, M> {
    pub range_config: R,
    pub main_gate_config: M,
}

/// What an integer chip is configured with: the same two shared gates.
#[derive(Clone, Copy, Debug, PartialEq, Eq)]
pub struct IntegerConfig<R, M> {
    pub range_config: R,
    pub main_gate_config: M,
}

/// The shared wiring of a signature-check gadget, from which the
/// configurations of the chips under it are derived.
#[derive(Clone, Copy, Debug, PartialEq, Eq)]
pub struct EcdsaConfig<R, M> {
    range_config: R,
    main_gate_config: M,
}

impl<R: Copy, M: Copy> EcdsaConfig<R, M> {
    pub closed spec fn range(&self) -> R {
        self.range_config
    }

    pub closed spec fn main_gate(&self) -> M {
        self.main_gate_config
    }

    pub fn new(range_config: R, main_gate_config: M) -> (r: Self)
        ensures
            r.range() == range_config,
            r.main_gate() == main_gate_config,
    {
        EcdsaConfig { range_config, main_gate_config }
    }

    /// The configuration of the curve chip.
    pub fn ecc_chip_config(&self) -> (r: EccConfig<R, M>)
        ensures
            r.range_config == self.range(),
            r.main_gate_config == self.main_gate(),
    {
        EccConfig { range_config: self.range_config, main_gate_config: self.main_gate_config }
    }

    /// The configuration of an integer chip.
    pub fn integer_chip_config(&self) -> (r: IntegerConfig<R, M>)
        ensures
            r.range_config == self.range(),
            r.main_gate_config == self.main_gate(),
    {
        IntegerConfig { range_config: self.range_config, main_gate_config: self.main_gate_config }
    }
}

} // verus!
