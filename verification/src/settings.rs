//! The settings that describe the shape and the size of a compiled circuit.

use crate::run_args::{CheckMode, RunArgs};
use crate::tensor::{checked_shape_len, copy_of, shape_len};
use vstd::prelude::*;

verus! {

/// A kind of lookup table that a circuit must provision: the code of the
/// operation and the bit patterns of the operation's parameters.
#[derive(Clone, Debug, PartialEq, Eq)]
pub struct LookupOp {
    /// The code of the operation.
    pub code: u32,
    /// The parameters of the operation.
    pub params: Vec<u64>,
}

/// What one module adds to a circuit.
#[derive(Clone, Debug, PartialEq, Eq)]
pub struct ModuleSize {
    /// The rows that the module's constraints take.
    pub num_rows: usize,
    /// The number of cells of each instance column of the module.
    pub num_instances: Vec<usize>,
}

/// What the modules add to a circuit, in the order of their slots: the
/// hashing module first, the encryption module second.
#[derive(Clone, Debug, PartialEq, Eq)]
pub struct ModuleSizes {
    /// The size of the hashing module.
    pub poseidon: ModuleSize,
    /// The size of the encryption module.
    pub elgamal: ModuleSize,
}

impl ModuleSizes {
    /// The instance counts of the modules, in slot order.
    pub open spec fn instance_counts(self) -> Seq<usize> {
        self.poseidon.num_instances@ + self.elgamal.num_instances@
    }

    /// The rows that the larger module takes.
    pub open spec fn most_rows(self) -> usize {
        if self.poseidon.num_rows >= self.elgamal.num_rows {
            self.poseidon.num_rows
        } else {
            self.elgamal.num_rows
        }
    }

    /// The rows that the larger module takes. The modules lie in rows of
    /// their own, so the larger one decides.
    pub fn max_constraints(&self) -> (r: usize)
        ensures
            r == self.most_rows(),
    {
        if self.poseidon.num_rows >= self.elgamal.num_rows {
            self.poseidon.num_rows
        } else {
            self.elgamal.num_rows
        }
    }

    /// The instance counts of the modules, in slot order.
    pub fn num_instances(&self) -> (r: Vec<usize>)
        ensures
            r@ == self.instance_counts(),
    {
        let mut r = copy_of(&self.poseidon.num_instances);
        let mut i: usize = 0;
        while i < self.elgamal.num_instances.len()
            invariant
                i <= self.elgamal.num_instances.len(),
                r@ == self.poseidon.num_instances@ + self.elgamal.num_instances@.take(i as int),
            decreases self.elgamal.num_instances.len() - i,
        {
            r.push(self.elgamal.num_instances[i]);
            assert(self.elgamal.num_instances@.take(i + 1) == self.elgamal.num_instances@.take(
                i as int,
            ).push(self.elgamal.num_instances@[i as int]));
            i = i + 1;
        }
        assert(self.elgamal.num_instances@.take(i as int) == self.elgamal.num_instances@);
        r
    }
}

/// The element count of each shape of `shapes`, in order.
pub open spec fn shape_lens(shapes: Seq<Vec<usize>>) -> Seq<usize> {
    Seq::new(shapes.len(), |i: int| shape_len(shapes[i]@) as usize)
}

/// Whether the element count of every shape of `shapes` fits in `usize`.
pub open spec fn shapes_fit(shapes: Seq<Vec<usize>>) -> bool {
    forall|i: int| 0 <= i < shapes.len() ==> shape_len(#[trigger] shapes[i]@) <= usize::MAX
}

/// The element count of each shape of `shapes`, in order, where each fits in
/// `usize`; else the index of the first shape whose count does not.
pub fn checked_shape_lens(shapes: &Vec<Vec<usize>>) -> (r: Result<Vec<usize>, usize>)
    ensures
        r is Ok <==> shapes_fit(shapes@),
        r is Ok ==> r->Ok_0@ == shape_lens(shapes@),
        r is Err ==> r->Err_0 < shapes@.len() && shape_len(shapes@[r->Err_0 as int]@) > usize::MAX
            && shapes_fit(shapes@.take(r->Err_0 as int)),
{
    let mut r: Vec<usize> = Vec::new();
    let mut i: usize = 0;
    while i < shapes.len()
        invariant
            i <= shapes.len(),
            shapes_fit(shapes@.take(i as int)),
            r@ == shape_lens(shapes@.take(i as int)),
        decreases shapes.len() - i,
    {
        match checked_shape_len(&shapes[i]) {
            None => {
                return Err(i);
            },
            Some(n) => {
                r.push(n);
                proof {
                    let before = shapes@.take(i as int);
                    let after = shapes@.take(i + 1);
                    assert forall|j: int| 0 <= j < after.len() implies shape_len(
                        #[trigger] after[j]@,
                    ) <= usize::MAX by {
                        if j < i {
                            assert(after[j] == before[j]);
                        }
                    }
                    assert(r@ =~= shape_lens(after)) by {
                        assert forall|j: int| 0 <= j < after.len() implies r@[j] == shape_lens(
                            after,
                        )[j] by {
                            if j < i {
                                assert(after[j] == before[j]);
                                assert(r@[j] == shape_lens(before)[j]);
                            }
                        }
                    }
                }
            },
        }
        i = i + 1;
    }
    assert(shapes@.take(i as int) == shapes@);
    Ok(r)
}

/// The description of a compiled circuit: whoever holds it can configure the
/// same circuit without the model. It is derived when a circuit is made,
/// changed only by calibration, and frozen before the circuit is configured.
#[derive(Clone, Debug, PartialEq, Eq)]
pub struct GraphSettings {
    /// The run configuration.
    pub run_args: RunArgs,
    /// The number of rows that the constraints of the model take.
    pub num_constraints: usize,
    /// The shapes of the public tensors of the model, inputs before outputs.
    pub model_instance_shapes: Vec<Vec<usize>>,
    /// The scales of the outputs of the model.
    pub model_output_scales: Vec<u32>,
    /// The sizes of the modules.
    pub module_sizes: ModuleSizes,
    /// The lookup tables that the circuit must provision.
    pub required_lookups: Vec<LookupOp>,
    /// How strictly constraints are checked.
    pub check_mode: CheckMode,
}

impl GraphSettings {
    /// Whether the element count of every public tensor fits in `usize`.
    pub open spec fn instances_fit(self) -> bool {
        shapes_fit(self.model_instance_shapes@)
    }

    /// The number of cells of each instance column: the element count of
    /// each public tensor of the model, then the instance counts of the
    /// modules. Instance values are produced in this order.
    pub open spec fn instance_sizes(self) -> Seq<usize> {
        shape_lens(self.model_instance_shapes@) + self.module_sizes.instance_counts()
    }

    /// The number of cells of each instance column.
    pub fn total_instances(&self) -> (r: Vec<usize>)
        requires
            self.instances_fit(),
        ensures
            r@ == self.instance_sizes(),
    {
        match self.checked_total_instances() {
            Some(r) => r,
            None => vstd::pervasive::unreached(),
        }
    }

    /// The number of cells of each instance column, where the element count
    /// of every public tensor fits in `usize`.
    pub fn checked_total_instances(&self) -> (r: Option<Vec<usize>>)
        ensures
            r is Some <==> self.instances_fit(),
            r is Some ==> r->0@ == self.instance_sizes(),
    {
        match checked_shape_lens(&self.model_instance_shapes) {
            Err(_) => None,
            Ok(mut sizes) => {
                let mut of_modules = self.module_sizes.num_instances();
                sizes.append(&mut of_modules);
                Some(sizes)
            },
        }
    }
}

} // verus!
