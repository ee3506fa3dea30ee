//! What a circuit asks of the graph that it is built from, and of the
//! modules that hash or encrypt its tensors.

use crate::error::GraphError;
use crate::felt::Felt;
use crate::run_args::{CheckMode, RunArgs, VarVisibility, Visibility};
use crate::settings::{GraphSettings, ModuleSizes};
use crate::source::GraphWitness;
use crate::tensor::Tensor;
use vstd::prelude::*;

verus! {

/// What one forward pass of a model gives.
#[derive(Debug)]
pub struct ModelForward {
    /// The outputs of the model.
    pub outputs: Vec<Tensor>,
    /// The largest value that a lookup has to check.
    pub max_lookup_inputs: i128,
}

/// A computational graph, as far as its plain evaluation and its sizes go.
/// Shapes and scales are listed in the order of the tensors they belong to.
pub trait Model {
    /// The shape of each input.
    fn input_shapes(&self) -> Vec<Vec<usize>>;

    /// The shape of each output.
    fn output_shapes(&self) -> Vec<Vec<usize>>;

    /// The shape of each constant.
    fn const_shapes(&self) -> Vec<Vec<usize>>;

    /// The scale of each input.
    fn get_input_scales(&self) -> Vec<u32>;

    /// The scale of each output.
    fn get_output_scales(&self) -> Vec<u32>;

    /// The constants, in the order of `const_shapes`.
    fn get_all_consts(&self) -> Vec<Tensor>;

    /// Evaluates the graph on `inputs`, outside any circuit.
    fn forward(&self, inputs: &Vec<Tensor>) -> Result<ModelForward, GraphError>;

    /// The settings of the circuit that the graph gives under `run_args`.
    fn gen_params(&self, run_args: RunArgs, check_mode: CheckMode) -> Result<
        GraphSettings,
        GraphError,
    >;
}

/// The modules that hash or encrypt the inputs, the parameters or the
/// outputs of a circuit, each class by its own visibility.
pub trait Modules {
    /// What the modules make of the tensors of one class.
    type Processed;

    /// The witness state that the modules need to lay themselves out.
    type Settings;

    /// The rows and instance cells that the modules need for tensors of the
    /// given shapes.
    fn num_constraints_and_instances(
        &self,
        input_shapes: &Vec<Vec<usize>>,
        param_shapes: &Vec<Vec<usize>>,
        output_shapes: &Vec<Vec<usize>>,
        visibility: VarVisibility,
    ) -> ModuleSizes;

    /// Processes `tensors` outside any circuit, as their visibility asks.
    fn forward(&self, tensors: &Vec<Tensor>, visibility: Visibility) -> Result<
        Self::Processed,
        GraphError,
    >;

    /// The public values that the modules add to the instance, in slot
    /// order.
    fn public_inputs(
        &self,
        witness: &GraphWitness<Self::Processed>,
        visibility: VarVisibility,
    ) -> Vec<Vec<Felt>>;

    /// The state that the modules need to replay `witness` in a circuit.
    fn settings_from(&self, witness: &GraphWitness<Self::Processed>) -> Self::Settings;

    /// The state of modules that have seen no witness yet.
    fn empty_settings(&self) -> Self::Settings;
}

/// `shapes` is an answer of the model to `input_shapes`.
pub open spec fn input_shapes_are<M: Model>(model: &M, shapes: Vec<Vec<usize>>) -> bool {
    call_ensures(M::input_shapes, (model,), shapes)
}

/// `shapes` is an answer of the model to `output_shapes`.
pub open spec fn output_shapes_are<M: Model>(model: &M, shapes: Vec<Vec<usize>>) -> bool {
    call_ensures(M::output_shapes, (model,), shapes)
}

/// `shapes` is an answer of the model to `const_shapes`.
pub open spec fn const_shapes_are<M: Model>(model: &M, shapes: Vec<Vec<usize>>) -> bool {
    call_ensures(M::const_shapes, (model,), shapes)
}

/// `scales` is an answer of the model to `get_input_scales`.
pub open spec fn input_scales_are<M: Model>(model: &M, scales: Vec<u32>) -> bool {
    call_ensures(M::get_input_scales, (model,), scales)
}

/// `scales` is an answer of the model to `get_output_scales`.
pub open spec fn output_scales_are<M: Model>(model: &M, scales: Vec<u32>) -> bool {
    call_ensures(M::get_output_scales, (model,), scales)
}

/// `consts` is an answer of the model to `get_all_consts`.
pub open spec fn consts_are<M: Model>(model: &M, consts: Vec<Tensor>) -> bool {
    call_ensures(M::get_all_consts, (model,), consts)
}

/// `r` is an outcome of the model's forward pass on `inputs`.
pub open spec fn forward_gives<M: Model>(
    model: &M,
    inputs: &Vec<Tensor>,
    r: Result<ModelForward, GraphError>,
) -> bool {
    call_ensures(M::forward, (model, inputs), r)
}

/// `r` is an outcome of the model's `gen_params` under `run_args`.
pub open spec fn gen_params_gives<M: Model>(
    model: &M,
    run_args: RunArgs,
    check_mode: CheckMode,
    r: Result<GraphSettings, GraphError>,
) -> bool {
    call_ensures(M::gen_params, (model, run_args, check_mode), r)
}

/// `sizes` is an answer of the modules to `num_constraints_and_instances`
/// for the given shapes.
pub open spec fn module_sizes_are<G: Modules>(
    modules: &G,
    input_shapes: &Vec<Vec<usize>>,
    param_shapes: &Vec<Vec<usize>>,
    output_shapes: &Vec<Vec<usize>>,
    visibility: VarVisibility,
    sizes: ModuleSizes,
) -> bool {
    call_ensures(
        G::num_constraints_and_instances,
        (modules, input_shapes, param_shapes, output_shapes, visibility),
        sizes,
    )
}

/// `r` is an outcome of the modules' forward pass on `tensors`.
pub open spec fn module_forward_gives<G: Modules>(
    modules: &G,
    tensors: &Vec<Tensor>,
    visibility: Visibility,
    r: Result<G::Processed, GraphError>,
) -> bool {
    call_ensures(G::forward, (modules, tensors, visibility), r)
}

/// `instances` is an answer of the modules to `public_inputs` for
/// `witness`.
pub open spec fn module_instances_are<G: Modules>(
    modules: &G,
    witness: &GraphWitness<G::Processed>,
    visibility: VarVisibility,
    instances: Vec<Vec<Felt>>,
) -> bool {
    call_ensures(G::public_inputs, (modules, witness, visibility), instances)
}

/// `settings` is an answer of the modules to `settings_from` for `witness`.
pub open spec fn module_settings_are<G: Modules>(
    modules: &G,
    witness: &GraphWitness<G::Processed>,
    settings: G::Settings,
) -> bool {
    call_ensures(G::settings_from, (modules, witness), settings)
}

/// `settings` is an answer of the modules to `empty_settings`.
pub open spec fn empty_settings_are<G: Modules>(modules: &G, settings: G::Settings) -> bool {
    call_ensures(G::empty_settings, (modules,), settings)
}

} // verus!
