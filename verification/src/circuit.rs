//! The circuit of a computational graph: the model, its quantized inputs and
//! outputs, and the settings of the circuit that is built from them.

use crate::calibration::{
    calibration_step, exceeds_lookup_range, required_bits, settled_logrows, CalibrationStep,
    MAX_PUBLIC_SRS,
};
use crate::error::{CircuitError, GraphError};
use crate::felt::Felt;
use crate::loading::{flat_values, flatten_tensors, offset_of};
use crate::model::{
    const_shapes_are, consts_are, empty_settings_are, forward_gives, gen_params_gives,
    input_shapes_are, module_forward_gives, module_instances_are, module_sizes_are,
    output_shapes_are, Model, ModelForward, Modules,
};
use crate::run_args::{CheckMode, RunArgs, VarVisibility, Visibility};
use crate::settings::{shapes_fit, GraphSettings, ModuleSizes};
use crate::source::GraphWitness;
use crate::tensor::{checked_shape_len, shape_len, Tensor};
use vstd::prelude::*;

verus! {

/// What one plain evaluation of a circuit gives.
#[derive(Clone, Debug)]
pub struct ForwardResult<P> {
    /// The inputs of the pass.
    pub inputs: Vec<Tensor>,
    /// The outputs of the model.
    pub outputs: Vec<Tensor>,
    /// What the modules made of the inputs, where their visibility asks for
    /// it.
    pub processed_inputs: Option<P>,
    /// What the modules made of the parameters, where their visibility asks
    /// for it.
    pub processed_params: Option<P>,
    /// What the modules made of the outputs, where their visibility asks
    /// for it.
    pub processed_outputs: Option<P>,
    /// The largest value that a lookup has to check.
    pub max_lookup_input: i128,
}

/// The circuit of a computational graph.
#[derive(Clone, Debug)]
pub struct GraphCircuit<M: Model, G: Modules> {
    /// The graph.
    pub model: M,
    /// The modules that hash or encrypt the tensors.
    pub modules: G,
    /// The quantized inputs of the graph.
    pub inputs: Vec<Tensor>,
    /// The quantized outputs of the graph.
    pub outputs: Vec<Tensor>,
    /// The settings of the circuit.
    pub settings: GraphSettings,
    /// The witness state of the modules.
    pub module_settings: G::Settings,
}

/// Whether `a` and `b` hold the same tensors: as many, each with the same
/// shape and the same values.
pub open spec fn same_tensors(a: Seq<Tensor>, b: Seq<Tensor>) -> bool {
    &&& a.len() == b.len()
    &&& forall|i: int|
        0 <= i < a.len() ==> (#[trigger] a[i]).values() == b[i].values() && a[i].shape()
            == b[i].shape()
}

/// The values of each tensor of `ts`, in order.
pub open spec fn values_of(ts: Seq<Tensor>) -> Seq<Seq<Felt>> {
    Seq::new(ts.len(), |i: int| ts[i].values())
}

/// The contents of each vector of `vs`, in order.
pub open spec fn contents_of(vs: Seq<Vec<Felt>>) -> Seq<Seq<Felt>> {
    Seq::new(vs.len(), |i: int| vs[i]@)
}

/// The public values of the model, one sequence for each public tensor: the
/// inputs where they are public, then the outputs where they are public.
pub open spec fn model_public_values(
    inputs: Seq<Tensor>,
    outputs: Seq<Tensor>,
    run_args: RunArgs,
) -> Seq<Seq<Felt>> {
    let of_inputs = if run_args.input_visibility is Public {
        values_of(inputs)
    } else {
        Seq::empty()
    };
    let of_outputs = if run_args.output_visibility is Public {
        values_of(outputs)
    } else {
        Seq::empty()
    };
    of_inputs + of_outputs
}

/// The shapes of the public tensors of the model: those of the inputs where
/// they are public, then those of the outputs where they are public.
pub open spec fn model_public_shapes(
    inputs: Seq<Tensor>,
    outputs: Seq<Tensor>,
    run_args: RunArgs,
) -> Seq<Seq<usize>> {
    let of_inputs = if run_args.input_visibility is Public {
        Seq::new(inputs.len(), |i: int| inputs[i].shape())
    } else {
        Seq::empty()
    };
    let of_outputs = if run_args.output_visibility is Public {
        Seq::new(outputs.len(), |i: int| outputs[i].shape())
    } else {
        Seq::empty()
    };
    of_inputs + of_outputs
}

/// Whether `settings` describe the instance of a circuit with the tensors
/// `inputs` and `outputs` to which the modules add `module_instances`: the
/// instance shapes of the settings are the shapes of the public tensors, and
/// the modules add as many values to each of their columns as the settings
/// count.
pub open spec fn settings_match(
    settings: GraphSettings,
    inputs: Seq<Tensor>,
    outputs: Seq<Tensor>,
    module_instances: Seq<Vec<Felt>>,
) -> bool {
    let shapes = model_public_shapes(inputs, outputs, settings.run_args);
    let counts = settings.module_sizes.instance_counts();
    &&& settings.model_instance_shapes@.len() == shapes.len()
    &&& forall|i: int|
        0 <= i < shapes.len() ==> (#[trigger] settings.model_instance_shapes@[i])@ == shapes[i]
    &&& module_instances.len() == counts.len()
    &&& forall|i: int|
        0 <= i < counts.len() ==> (#[trigger] module_instances[i])@.len() == counts[i]
}

/// The instance values of a circuit fill the instance columns that matching
/// settings describe: there is one vector of values for each column, in the
/// order of `total_instances`, and it holds as many values as the column
/// has cells.
pub proof fn lemma_public_inputs_fill_instances(
    settings: GraphSettings,
    inputs: Seq<Tensor>,
    outputs: Seq<Tensor>,
    module_instances: Seq<Vec<Felt>>,
)
    requires
        forall|i: int| 0 <= i < inputs.len() ==> (#[trigger] inputs[i]).wf(),
        forall|i: int| 0 <= i < outputs.len() ==> (#[trigger] outputs[i]).wf(),
        settings_match(settings, inputs, outputs, module_instances),
    ensures
        settings.instances_fit(),
        ({
            let values = model_public_values(inputs, outputs, settings.run_args) + contents_of(
                module_instances,
            );
            let sizes = settings.instance_sizes();
            &&& values.len() == sizes.len()
            &&& forall|i: int| 0 <= i < values.len() ==> (#[trigger] values[i]).len() == sizes[i]
        }),
{
    let args = settings.run_args;
    let shapes = model_public_shapes(inputs, outputs, args);
    let of_model = model_public_values(inputs, outputs, args);
    let values = of_model + contents_of(module_instances);
    let sizes = settings.instance_sizes();
    let n_in = if args.input_visibility is Public {
        inputs.len()
    } else {
        0
    };
    assert(of_model.len() == shapes.len());
    assert forall|i: int| 0 <= i < shapes.len() implies (#[trigger] of_model[i]).len()
        == shape_len(shapes[i]) by {
        if i < n_in {
            assert(inputs[i].wf());
        } else {
            assert(outputs[i - n_in].wf());
        }
    }
    assert forall|i: int| 0 <= i < settings.model_instance_shapes@.len() implies shape_len(
        #[trigger] settings.model_instance_shapes@[i]@,
    ) <= usize::MAX by {
        assert(settings.model_instance_shapes@[i]@ == shapes[i]);
        assert(of_model[i].len() == shape_len(shapes[i]));
        if i < n_in {
            inputs[i].lemma_len_fits();
        } else {
            outputs[i - n_in].lemma_len_fits();
        }
    }
    assert forall|i: int| 0 <= i < values.len() implies (#[trigger] values[i]).len()
        == sizes[i] by {
        if i < shapes.len() {
            assert(values[i] == of_model[i]);
            assert(settings.model_instance_shapes@[i]@ == shapes[i]);
        } else {
            assert(values[i] == module_instances[i - shapes.len()]@);
        }
    }
}

/// The settings `settings` with the sizes of the modules set to `sizes`.
/// The modules lie in rows of their own beside the model, so the circuit
/// needs as many rows as the larger of the two.
pub open spec fn settings_with_modules(
    settings: GraphSettings,
    sizes: ModuleSizes,
) -> GraphSettings {
    GraphSettings {
        num_constraints: if settings.num_constraints >= sizes.most_rows() {
            settings.num_constraints
        } else {
            sizes.most_rows()
        },
        module_sizes: sizes,
        ..settings
    }
}

/// Sets the sizes of the modules in `settings`.
pub fn with_module_sizes(settings: GraphSettings, sizes: ModuleSizes) -> (r: GraphSettings)
    ensures
        r == settings_with_modules(settings, sizes),
{
    let mut settings = settings;
    let rows = sizes.max_constraints();
    if settings.num_constraints < rows {
        settings.num_constraints = rows;
    }
    settings.module_sizes = sizes;
    settings
}

/// What `placeholders` gives for `shapes`: the zero tensors, or the error of
/// the first shape that has more elements than `usize` holds.
pub open spec fn placeholders_made(
    r: Result<Vec<Tensor>, CircuitError>,
    shapes: Seq<Vec<usize>>,
) -> bool {
    match r {
        Ok(ts) => {
            &&& shapes_fit(shapes)
            &&& ts@.len() == shapes.len()
            &&& forall|i: int|
                0 <= i < ts@.len() ==> (#[trigger] ts@[i]).wf() && ts@[i].shape() == shapes[i]@
                    && ts@[i].is_zero()
        },
        Err(CircuitError::ShapeTooLarge { index }) => {
            &&& index < shapes.len()
            &&& shape_len(shapes[index as int]@) > usize::MAX
            &&& shapes_fit(shapes.take(index as int))
        },
        Err(_) => false,
    }
}

/// One zero tensor for each shape of `shapes`. A shape with more elements
/// than `usize` holds is refused.
pub fn placeholders(shapes: &Vec<Vec<usize>>) -> (r: Result<Vec<Tensor>, CircuitError>)
    ensures
        placeholders_made(r, shapes@),
{
    let mut ts: Vec<Tensor> = Vec::new();
    let mut i: usize = 0;
    while i < shapes.len()
        invariant
            i <= shapes.len(),
            ts@.len() == i,
            shapes_fit(shapes@.take(i as int)),
            forall|k: int|
                0 <= k < i ==> (#[trigger] ts@[k]).wf() && ts@[k].shape() == shapes@[k]@
                    && ts@[k].is_zero(),
        decreases shapes.len() - i,
    {
        match Tensor::placeholder(&shapes[i]) {
            Some(t) => {
                ts.push(t);
            },
            None => {
                return Err(CircuitError::ShapeTooLarge { index: i });
            },
        }
        proof {
            let next = shapes@.take(i + 1);
            assert forall|k: int| 0 <= k < next.len() implies shape_len(#[trigger] next[k]@)
                <= usize::MAX by {
                if k < i {
                    assert(next[k] == shapes@.take(i as int)[k]);
                }
            }
        }
        i = i + 1;
    }
    assert(shapes@.take(i as int) == shapes@);
    Ok(ts)
}

/// What `count_params` gives for `shapes`: the number of values of all
/// tensors together, or the error of the first shape that takes the total
/// past what `usize` holds.
pub open spec fn params_counted(r: Result<usize, CircuitError>, shapes: Seq<Vec<usize>>) -> bool {
    match r {
        Ok(n) => n == offset_of(shapes, shapes.len() as int),
        Err(CircuitError::ShapeTooLarge { index }) => {
            &&& index < shapes.len()
            &&& offset_of(shapes, index as int) <= usize::MAX
            &&& offset_of(shapes, index + 1) > usize::MAX
        },
        Err(_) => false,
    }
}

/// The number of values of all tensors of the shapes `shapes` together. A
/// total that `usize` cannot hold is refused at the first shape that takes
/// it past the limit.
pub fn count_params(shapes: &Vec<Vec<usize>>) -> (r: Result<usize, CircuitError>)
    ensures
        params_counted(r, shapes@),
{
    let mut total: usize = 0;
    let mut i: usize = 0;
    while i < shapes.len()
        invariant
            i <= shapes.len(),
            total == offset_of(shapes@, i as int),
        decreases shapes.len() - i,
    {
        let n = match checked_shape_len(&shapes[i]) {
            Some(n) => n,
            None => {
                return Err(CircuitError::ShapeTooLarge { index: i });
            },
        };
        total = match total.checked_add(n) {
            Some(sum) => sum,
            None => {
                return Err(CircuitError::ShapeTooLarge { index: i });
            },
        };
        i = i + 1;
    }
    Ok(total)
}

/// A copy of each tensor of `ts`.
pub fn copy_tensors(ts: &Vec<Tensor>) -> (r: Vec<Tensor>)
    ensures
        same_tensors(r@, ts@),
        forall|i: int| 0 <= i < r@.len() ==> (#[trigger] r@[i]).wf(),
{
    let mut r: Vec<Tensor> = Vec::new();
    let mut i: usize = 0;
    while i < ts.len()
        invariant
            i <= ts.len(),
            r@.len() == i,
            forall|k: int|
                0 <= k < i ==> (#[trigger] r@[k]).values() == ts@[k].values() && r@[k].shape()
                    == ts@[k].shape() && r@[k].wf(),
        decreases ts.len() - i,
    {
        r.push(ts[i].duplicate());
        i = i + 1;
    }
    r
}

/// The values of each tensor of `ts`, appended to `into`.
fn push_values(into: &mut Vec<Vec<Felt>>, ts: &Vec<Tensor>)
    ensures
        contents_of(final(into)@) == contents_of(old(into)@) + values_of(ts@),
{
    let ghost before = contents_of(into@);
    let mut i: usize = 0;
    while i < ts.len()
        invariant
            i <= ts.len(),
            contents_of(into@) == before + values_of(ts@.take(i as int)),
        decreases ts.len() - i,
    {
        let ghost so_far = into@;
        let part = ts[i].to_vec();
        into.push(part);
        proof {
            let target = before + values_of(ts@.take(i + 1));
            assert(contents_of(so_far) == before + values_of(ts@.take(i as int)));
            assert(contents_of(so_far).len() == so_far.len());
            assert(values_of(ts@.take(i as int)).len() == i);
            assert(before.len() + i == so_far.len());
            assert(into@.len() == so_far.len() + 1);
            assert(target.len() == into@.len());
            assert forall|k: int| 0 <= k < into@.len() implies contents_of(into@)[k]
                == target[k] by {
                if k < so_far.len() {
                    assert(into@[k] == so_far[k]);
                    assert(contents_of(so_far)[k] == so_far[k]@);
                    if k >= before.len() {
                        assert(values_of(ts@.take(i as int))[k - before.len()] == ts@[k
                            - before.len()].values());
                        assert(values_of(ts@.take(i + 1))[k - before.len()] == ts@[k
                            - before.len()].values());
                    }
                } else {
                    assert(into@[k] == part);
                    assert(values_of(ts@.take(i + 1))[i as int] == ts@[i as int].values());
                }
            }
            assert(contents_of(into@) =~= target);
        }
        i = i + 1;
    }
    assert(ts@.take(i as int) == ts@);
}

/// The instance values of a circuit, one vector for each instance column:
/// the inputs where they are public, then the outputs where they are public,
/// then what the modules add. The instance columns of the circuit are
/// configured in the same order.
pub fn assemble_public_inputs(
    inputs: &Vec<Tensor>,
    outputs: &Vec<Tensor>,
    run_args: RunArgs,
    module_instances: Vec<Vec<Felt>>,
) -> (r: Vec<Vec<Felt>>)
    ensures
        contents_of(r@) == model_public_values(inputs@, outputs@, run_args) + contents_of(
            module_instances@,
        ),
{
    let mut r: Vec<Vec<Felt>> = Vec::new();
    assert(contents_of(r@) =~= Seq::<Seq<Felt>>::empty());
    if run_args.input_visibility.is_public() {
        push_values(&mut r, inputs);
    }
    if run_args.output_visibility.is_public() {
        push_values(&mut r, outputs);
    }
    let ghost of_model = r@;
    assert(contents_of(of_model) =~= model_public_values(inputs@, outputs@, run_args));
    let mut module_instances = module_instances;
    let ghost of_modules = module_instances@;
    r.append(&mut module_instances);
    assert(contents_of(r@) =~= contents_of(of_model) + contents_of(of_modules));
    r
}

/// The shapes of the parameters as the modules are asked to size them: a
/// single flat tensor that holds every value of the constants.
pub open spec fn is_flat_param_shape(
    param_shapes: Seq<Vec<usize>>,
    const_shapes: Seq<Vec<usize>>,
) -> bool {
    &&& param_shapes.len() == 1
    &&& param_shapes[0]@ == seq![offset_of(const_shapes, const_shapes.len() as int) as usize]
}

/// `settings` are settings that `model` and `modules` give under
/// `run_args`: settings that the model derives, with the sizes that the
/// modules need for the inputs of the model, for its parameters as one flat
/// tensor, and for its outputs.
pub open spec fn settings_derived<M: Model, G: Modules>(
    model: &M,
    modules: &G,
    run_args: RunArgs,
    check_mode: CheckMode,
    settings: GraphSettings,
) -> bool {
    exists|
        base: GraphSettings,
        const_shapes: Vec<Vec<usize>>,
        input_shapes: Vec<Vec<usize>>,
        param_shapes: Vec<Vec<usize>>,
        output_shapes: Vec<Vec<usize>>,
        sizes: ModuleSizes,
    |
        #![trigger
            gen_params_gives(model, run_args, check_mode, Ok(base)),
            const_shapes_are(model, const_shapes),
            module_sizes_are(
                modules,
                &input_shapes,
                &param_shapes,
                &output_shapes,
                VarVisibility::of(run_args),
                sizes,
            ),
        ]
        {
            &&& gen_params_gives(model, run_args, check_mode, Ok(base))
            &&& const_shapes_are(model, const_shapes)
            &&& input_shapes_are(model, input_shapes)
            &&& output_shapes_are(model, output_shapes)
            &&& is_flat_param_shape(param_shapes@, const_shapes@)
            &&& module_sizes_are(
                modules,
                &input_shapes,
                &param_shapes,
                &output_shapes,
                VarVisibility::of(run_args),
                sizes,
            )
            &&& settings == settings_with_modules(base, sizes)
        }
}

/// `inputs` are zero tensors of input shapes that `model` gives.
pub open spec fn are_placeholders_of<M: Model>(model: &M, inputs: Vec<Tensor>) -> bool {
    exists|shapes: Vec<Vec<usize>>| #[trigger]
        input_shapes_are(model, shapes) && placeholders_made(Ok(inputs), shapes@)
}

/// `max` is the largest lookup input of a forward pass of `model` on
/// `inputs`.
pub open spec fn is_max_lookup_of<M: Model>(model: &M, inputs: &Vec<Tensor>, max: i128) -> bool {
    exists|out: ModelForward| #[trigger]
        forward_gives(model, inputs, Ok(out)) && out.max_lookup_inputs == max
}

/// The run configuration `args` with the bit-width and the row-count
/// exponent that a largest lookup input of `max` settles, for a circuit of
/// `num_constraints` rows.
pub open spec fn calibrated_args(args: RunArgs, num_constraints: usize, max: i128) -> RunArgs {
    RunArgs {
        bits: required_bits(max as int) as usize,
        logrows: settled_logrows(max as int, num_constraints as nat) as u32,
        ..args
    }
}

impl<M: Model, G: Modules> GraphCircuit<M, G> {
    /// The settings of the circuit of `model` under `run_args`: what the
    /// model derives, with the sizes that the modules need for the model's
    /// inputs, for its parameters as one flat tensor, and for its outputs.
    /// The rows of the circuit are those of the model or of the modules,
    /// whichever needs more. A failure of the model is handed on; a
    /// configuration in which nothing is visible is refused.
    pub fn derive_settings(model: &M, modules: &G, run_args: RunArgs, check_mode: CheckMode) -> (r:
        Result<GraphSettings, CircuitError>)
        ensures
            match r {
                Ok(settings) => VarVisibility::is_configured(run_args) && settings_derived(
                    model,
                    modules,
                    run_args,
                    check_mode,
                    settings,
                ),
                Err(CircuitError::Graph(e)) => gen_params_gives(
                    model,
                    run_args,
                    check_mode,
                    Err(e),
                ) || (e == GraphError::Visibility && !VarVisibility::is_configured(run_args)),
                Err(CircuitError::ShapeTooLarge { index }) => exists|shapes: Vec<Vec<usize>>|
                    #[trigger]
                    const_shapes_are(model, shapes) && params_counted(
                        Err(CircuitError::ShapeTooLarge { index }),
                        shapes@,
                    ),
                Err(_) => false,
            },
    {
        let base = match model.gen_params(run_args, check_mode) {
            Ok(settings) => settings,
            Err(e) => {
                return Err(CircuitError::Graph(e));
            },
        };
        let const_shapes = model.const_shapes();
        assert(const_shapes_are(model, const_shapes));
        let num_params = count_params(&const_shapes)?;
        let visibility = match VarVisibility::from_args(run_args) {
            Ok(visibility) => visibility,
            Err(e) => {
                return Err(CircuitError::Graph(e));
            },
        };
        let mut flat: Vec<usize> = Vec::new();
        flat.push(num_params);
        let mut param_shapes: Vec<Vec<usize>> = Vec::new();
        param_shapes.push(flat);
        let input_shapes = model.input_shapes();
        let output_shapes = model.output_shapes();
        let sizes = modules.num_constraints_and_instances(
            &input_shapes,
            &param_shapes,
            &output_shapes,
            visibility,
        );
        let settings = with_module_sizes(base, sizes);
        proof {
            assert(param_shapes@[0]@ =~= seq![
                offset_of(const_shapes@, const_shapes@.len() as int) as usize,
            ]);
            assert(gen_params_gives(model, run_args, check_mode, Ok(base)));
            assert(module_sizes_are(
                modules,
                &input_shapes,
                &param_shapes,
                &output_shapes,
                VarVisibility::of(run_args),
                sizes,
            ));
        }
        Ok(settings)
    }

    /// A circuit for `model` under `run_args`, with zero tensors in place of
    /// the inputs, no outputs, the state of modules that have seen no
    /// witness, and settings derived from the model and the modules.
    pub fn new(model: M, modules: G, run_args: RunArgs, check_mode: CheckMode) -> (r: Result<
        Self,
        CircuitError,
    >)
        ensures
            match r {
                Ok(c) => {
                    &&& c.model == model
                    &&& c.modules == modules
                    &&& c.outputs@.len() == 0
                    &&& are_placeholders_of(&model, c.inputs)
                    &&& empty_settings_are(&modules, c.module_settings)
                    &&& VarVisibility::is_configured(run_args)
                    &&& settings_derived(&model, &modules, run_args, check_mode, c.settings)
                },
                Err(CircuitError::Graph(e)) => gen_params_gives(
                    &model,
                    run_args,
                    check_mode,
                    Err(e),
                ) || (e == GraphError::Visibility && !VarVisibility::is_configured(run_args)),
                Err(CircuitError::ShapeTooLarge { index }) => {
                    ||| exists|shapes: Vec<Vec<usize>>| #[trigger]
                        input_shapes_are(&model, shapes) && placeholders_made(
                            Err(CircuitError::ShapeTooLarge { index }),
                            shapes@,
                        )
                    ||| exists|shapes: Vec<Vec<usize>>| #[trigger]
                        const_shapes_are(&model, shapes) && params_counted(
                            Err(CircuitError::ShapeTooLarge { index }),
                            shapes@,
                        )
                },
                Err(_) => false,
            },
    {
        let input_shapes = model.input_shapes();
        assert(input_shapes_are(&model, input_shapes));
        let inputs = placeholders(&input_shapes)?;
        let module_settings = modules.empty_settings();
        let settings = Self::derive_settings(&model, &modules, run_args, check_mode)?;
        Ok(GraphCircuit { model, modules, inputs, outputs: Vec::new(), settings, module_settings })
    }

    /// A circuit for `model` with the settings `settings`, which are taken
    /// as they are but for the check mode; zero tensors stand in place of
    /// the inputs, and there are no outputs.
    pub fn new_from_settings(
        model: M,
        modules: G,
        settings: GraphSettings,
        check_mode: CheckMode,
    ) -> (r: Result<Self, CircuitError>)
        ensures
            match r {
                Ok(c) => {
                    &&& c.model == model
                    &&& c.modules == modules
                    &&& c.outputs@.len() == 0
                    &&& are_placeholders_of(&model, c.inputs)
                    &&& empty_settings_are(&modules, c.module_settings)
                    &&& c.settings == (GraphSettings { check_mode: check_mode, ..settings })
                },
                Err(e) => exists|shapes: Vec<Vec<usize>>| #[trigger]
                    input_shapes_are(&model, shapes) && placeholders_made(Err(e), shapes@),
            },
    {
        let input_shapes = model.input_shapes();
        assert(input_shapes_are(&model, input_shapes));
        let inputs = placeholders(&input_shapes)?;
        let module_settings = modules.empty_settings();
        let mut settings = settings;
        settings.check_mode = check_mode;
        Ok(GraphCircuit { model, modules, inputs, outputs: Vec::new(), settings, module_settings })
    }

    /// The instance values of the circuit, one vector for each instance
    /// column: the inputs where they are public, then the outputs where they
    /// are public, then what the modules add for `data`. A configuration in
    /// which nothing is visible is refused.
    pub fn prepare_public_inputs(&self, data: &GraphWitness<G::Processed>) -> (r: Result<
        Vec<Vec<Felt>>,
        CircuitError,
    >)
        ensures
            r is Ok <==> VarVisibility::is_configured(self.settings.run_args),
            r is Err ==> r->Err_0 == CircuitError::Graph(GraphError::Visibility),
            r is Ok ==> exists|of_modules: Vec<Vec<Felt>>| #[trigger]
                module_instances_are(
                    &self.modules,
                    data,
                    VarVisibility::of(self.settings.run_args),
                    of_modules,
                ) && contents_of(r->Ok_0@) == model_public_values(
                    self.inputs@,
                    self.outputs@,
                    self.settings.run_args,
                ) + contents_of(of_modules@),
    {
        let visibility = match VarVisibility::from_args(self.settings.run_args) {
            Ok(visibility) => visibility,
            Err(e) => {
                return Err(CircuitError::Graph(e));
            },
        };
        let of_modules = self.modules.public_inputs(data, visibility);
        assert(module_instances_are(
            &self.modules,
            data,
            VarVisibility::of(self.settings.run_args),
            of_modules,
        ));
        let r = assemble_public_inputs(
            &self.inputs,
            &self.outputs,
            self.settings.run_args,
            of_modules,
        );
        Ok(r)
    }

    /// What `forward` hands back as the processed tensors of one class:
    /// nothing where the visibility of the class asks for no processing,
    /// else an outcome of the modules on `tensors`.
    pub open spec fn is_processed(
        &self,
        processed: Option<G::Processed>,
        tensors: &Vec<Tensor>,
        visibility: Visibility,
    ) -> bool {
        match processed {
            None => !visibility.needs_processing(),
            Some(p) => visibility.needs_processing() && module_forward_gives(
                &self.modules,
                tensors,
                visibility,
                Ok(p),
            ),
        }
    }

    /// `flat` holds one tensor, of one dimension, with the values of all
    /// constants that the model gives.
    pub open spec fn holds_flat_consts(&self, flat: Vec<Tensor>) -> bool {
        exists|consts: Vec<Tensor>| #[trigger]
            consts_are(&self.model, consts) && flat@.len() == 1 && flat@[0].wf()
                && flat@[0].values() == flat_values(consts@) && flat@[0].shape() == seq![
                flat_values(consts@).len() as usize,
            ]
    }

    /// `e` is a failure of a forward pass: nothing is visible outside the
    /// circuit, or the model fails with `e` on the inputs, or a module fails
    /// with it.
    pub open spec fn forward_fails_with(&self, e: GraphError) -> bool {
        ||| e == GraphError::Visibility && !VarVisibility::is_configured(self.settings.run_args)
        ||| forward_gives(&self.model, &self.inputs, Err(e))
        ||| exists|tensors: Vec<Tensor>, visibility: Visibility| #[trigger]
            module_forward_gives(&self.modules, &tensors, visibility, Err(e))
    }

    /// Evaluates the circuit outside any proof system: the modules on the
    /// inputs, on the constants of the model as one flat tensor and on the
    /// outputs, each where the visibility of the class asks for it, and the
    /// model on the inputs. The circuit is not changed. The first failure
    /// of the model or of a module is handed on.
    pub fn forward(&self) -> (r: Result<ForwardResult<G::Processed>, CircuitError>)
        ensures
            !VarVisibility::is_configured(self.settings.run_args) ==> r == Err::<
                ForwardResult<G::Processed>,
                CircuitError,
            >(CircuitError::Graph(GraphError::Visibility)),
            match r {
                Ok(res) => {
                    let args = self.settings.run_args;
                    &&& VarVisibility::is_configured(args)
                    &&& same_tensors(res.inputs@, self.inputs@)
                    &&& exists|out: ModelForward| #[trigger]
                        forward_gives(&self.model, &self.inputs, Ok(out)) && res.outputs
                            == out.outputs && res.max_lookup_input == out.max_lookup_inputs
                    &&& self.is_processed(res.processed_inputs, &self.inputs, args.input_visibility)
                    &&& self.is_processed(
                        res.processed_outputs,
                        &res.outputs,
                        args.output_visibility,
                    )
                    &&& match res.processed_params {
                        None => !args.param_visibility.needs_processing(),
                        Some(p) => args.param_visibility.needs_processing() && exists|
                            flat: Vec<Tensor>,
                        | #[trigger]
                            module_forward_gives(
                                &self.modules,
                                &flat,
                                args.param_visibility,
                                Ok(p),
                            ) && self.holds_flat_consts(flat),
                    }
                },
                Err(CircuitError::Graph(e)) => self.forward_fails_with(e),
                Err(_) => false,
            },
    {
        let visibility = match VarVisibility::from_args(self.settings.run_args) {
            Ok(visibility) => visibility,
            Err(e) => {
                return Err(CircuitError::Graph(e));
            },
        };
        let mut processed_inputs: Option<G::Processed> = None;
        let mut processed_params: Option<G::Processed> = None;
        let mut processed_outputs: Option<G::Processed> = None;
        let ghost mut flat_consts: Vec<Tensor> = arbitrary();
        if visibility.input.requires_processing() {
            match self.modules.forward(&self.inputs, visibility.input) {
                Ok(processed) => {
                    processed_inputs = Some(processed);
                },
                Err(e) => {
                    assert(module_forward_gives(
                        &self.modules,
                        &self.inputs,
                        visibility.input,
                        Err(e),
                    ));
                    return Err(CircuitError::Graph(e));
                },
            }
        }
        if visibility.params.requires_processing() {
            let consts = self.model.get_all_consts();
            let mut flat: Vec<Tensor> = Vec::new();
            flat.push(flatten_tensors(&consts));
            assert(consts_are(&self.model, consts));
            assert(self.holds_flat_consts(flat));
            proof {
                flat_consts = flat;
            }
            match self.modules.forward(&flat, visibility.params) {
                Ok(processed) => {
                    assert(module_forward_gives(
                        &self.modules,
                        &flat,
                        visibility.params,
                        Ok(processed),
                    ));
                    processed_params = Some(processed);
                },
                Err(e) => {
                    assert(module_forward_gives(&self.modules, &flat, visibility.params, Err(e)));
                    return Err(CircuitError::Graph(e));
                },
            }
        }
        let evaluated = match self.model.forward(&self.inputs) {
            Ok(evaluated) => evaluated,
            Err(e) => {
                return Err(CircuitError::Graph(e));
            },
        };
        assert(forward_gives(&self.model, &self.inputs, Ok(evaluated)));
        if visibility.output.requires_processing() {
            match self.modules.forward(&evaluated.outputs, visibility.output) {
                Ok(processed) => {
                    processed_outputs = Some(processed);
                },
                Err(e) => {
                    assert(module_forward_gives(
                        &self.modules,
                        &evaluated.outputs,
                        visibility.output,
                        Err(e),
                    ));
                    return Err(CircuitError::Graph(e));
                },
            }
        }
        let res = ForwardResult {
            inputs: copy_tensors(&self.inputs),
            outputs: evaluated.outputs,
            processed_inputs,
            processed_params,
            processed_outputs,
            max_lookup_input: evaluated.max_lookup_inputs,
        };
        proof {
            let args = self.settings.run_args;
            assert(self.is_processed(res.processed_inputs, &self.inputs, args.input_visibility));
            assert(self.is_processed(res.processed_outputs, &res.outputs, args.output_visibility));
            assert(res.processed_params is Some ==> module_forward_gives(
                &self.modules,
                &flat_consts,
                args.param_visibility,
                Ok(res.processed_params->0),
            ) && self.holds_flat_consts(flat_consts));
        }
        Ok(res)
    }

    /// Runs forward passes until the lookup range holds the largest lookup
    /// input: while a pass exceeds the range, the bit-width is raised to
    /// what the pass asks for; the pass that fits settles the bit-width and
    /// the row-count exponent. Nothing but these two settings changes. The
    /// bit-width rises with every pass that exceeds the range and never
    /// passes `MAX_PUBLIC_SRS - 1`, so the passes come to an end.
    pub fn calibrate_range(&mut self) -> (r: Result<(), CircuitError>)
        ensures
            final(self).model == old(self).model,
            final(self).modules == old(self).modules,
            final(self).inputs == old(self).inputs,
            final(self).outputs == old(self).outputs,
            final(self).module_settings == old(self).module_settings,
            final(self).settings == (GraphSettings {
                run_args: RunArgs {
                    bits: final(self).settings.run_args.bits,
                    logrows: final(self).settings.run_args.logrows,
                    ..old(self).settings.run_args
                },
                ..old(self).settings
            }),
            !VarVisibility::is_configured(old(self).settings.run_args) ==> r == Err::<
                (),
                CircuitError,
            >(CircuitError::Graph(GraphError::Visibility)) && final(self).settings == old(
                self,
            ).settings,
            r is Ok ==> VarVisibility::is_configured(old(self).settings.run_args) && exists|
                max: i128,
            | #[trigger]
                is_max_lookup_of(&old(self).model, &old(self).inputs, max)
                    && final(self).settings.run_args == calibrated_args(
                    old(self).settings.run_args,
                    old(self).settings.num_constraints,
                    max,
                ) && !exceeds_lookup_range(max as int, final(self).settings.run_args.bits as nat),
            r is Err ==> final(self).settings.run_args.bits >= old(self).settings.run_args.bits,
            r is Err ==> match r->Err_0 {
                CircuitError::Graph(e) => old(self).forward_fails_with(e),
                CircuitError::BitsOutOfRange { estimate, scale } => {
                    &&& scale == old(self).settings.run_args.scale
                    &&& estimate > MAX_PUBLIC_SRS - 1
                    &&& exists|max: i128| #[trigger]
                        is_max_lookup_of(&old(self).model, &old(self).inputs, max) && estimate
                            == required_bits(max as int) && exceeds_lookup_range(
                            max as int,
                            final(self).settings.run_args.bits as nat,
                        )
                },
                _ => false,
            },
    {
        let mut settled = false;
        while !settled
            invariant
                self.model == old(self).model,
                self.modules == old(self).modules,
                self.inputs == old(self).inputs,
                self.outputs == old(self).outputs,
                self.module_settings == old(self).module_settings,
                self.settings == (GraphSettings {
                    run_args: RunArgs {
                        bits: self.settings.run_args.bits,
                        logrows: self.settings.run_args.logrows,
                        ..old(self).settings.run_args
                    },
                    ..old(self).settings
                }),
                !settled ==> self.settings.run_args.bits >= old(self).settings.run_args.bits,
                !settled && !VarVisibility::is_configured(old(self).settings.run_args)
                    ==> self.settings == old(self).settings,
                settled ==> VarVisibility::is_configured(old(self).settings.run_args),
                settled ==> exists|max: i128| #[trigger]
                    is_max_lookup_of(&old(self).model, &old(self).inputs, max)
                        && self.settings.run_args == calibrated_args(
                        old(self).settings.run_args,
                        old(self).settings.num_constraints,
                        max,
                    ) && !exceeds_lookup_range(max as int, self.settings.run_args.bits as nat),
            decreases
                    (if settled {
                        0int
                    } else if self.settings.run_args.bits <= MAX_PUBLIC_SRS {
                        MAX_PUBLIC_SRS - self.settings.run_args.bits + 1
                    } else {
                        1int
                    }),
        {
            let res = self.forward()?;
            let max = res.max_lookup_input;
            assert(is_max_lookup_of(&self.model, &self.inputs, max));
            let bits_before = self.settings.run_args.bits;
            let step = calibration_step(bits_before, self.settings.num_constraints, max);
            proof {
                crate::calibration::lemma_ceil_log2_u128(max as int);
            }
            match step {
                CalibrationStep::Widen { bits, logrows } => {
                    proof {
                        crate::calibration::lemma_widening_raises_bits(
                            bits_before as nat,
                            self.settings.num_constraints as nat,
                            max as int,
                        );
                    }
                    self.settings.run_args.bits = bits;
                    self.settings.run_args.logrows = logrows;
                },
                CalibrationStep::Fail { estimate } => {
                    return Err(
                        CircuitError::BitsOutOfRange {
                            estimate,
                            scale: self.settings.run_args.scale,
                        },
                    );
                },
                CalibrationStep::Settle { bits, logrows } => {
                    proof {
                        crate::calibration::lemma_settled_range_suffices(
                            bits_before as nat,
                            self.settings.num_constraints as nat,
                            max as int,
                        );
                    }
                    self.settings.run_args.bits = bits;
                    self.settings.run_args.logrows = logrows;
                    settled = true;
                    assert(self.settings.run_args == calibrated_args(
                        old(self).settings.run_args,
                        old(self).settings.num_constraints,
                        max,
                    ));
                },
            }
        }
        Ok(())
    }

    /// Calibrates the circuit to its inputs: finds the bit-width and the
    /// row-count exponent that the forward passes ask for, then derives the
    /// settings anew under them, since the constraint count may depend on
    /// the bit-width. Only the settings change.
    pub fn calibrate(&mut self) -> (r: Result<(), CircuitError>)
        ensures
            final(self).model == old(self).model,
            final(self).modules == old(self).modules,
            final(self).inputs == old(self).inputs,
            final(self).outputs == old(self).outputs,
            final(self).module_settings == old(self).module_settings,
            !VarVisibility::is_configured(old(self).settings.run_args) ==> r == Err::<
                (),
                CircuitError,
            >(CircuitError::Graph(GraphError::Visibility)) && final(self).settings == old(
                self,
            ).settings,
            r is Ok ==> exists|max: i128| #[trigger]
                is_max_lookup_of(&old(self).model, &old(self).inputs, max) && !exceeds_lookup_range(
                    max as int,
                    required_bits(max as int),
                ) && settings_derived(
                    &old(self).model,
                    &old(self).modules,
                    calibrated_args(
                        old(self).settings.run_args,
                        old(self).settings.num_constraints,
                        max,
                    ),
                    old(self).settings.check_mode,
                    final(self).settings,
                ),
            r is Err ==> final(self).settings == (GraphSettings {
                run_args: RunArgs {
                    bits: final(self).settings.run_args.bits,
                    logrows: final(self).settings.run_args.logrows,
                    ..old(self).settings.run_args
                },
                ..old(self).settings
            }),
            r is Err ==> match r->Err_0 {
                CircuitError::Graph(e) => old(self).forward_fails_with(e) || gen_params_gives(
                    &old(self).model,
                    final(self).settings.run_args,
                    old(self).settings.check_mode,
                    Err(e),
                ),
                CircuitError::ShapeTooLarge { index } => exists|shapes: Vec<Vec<usize>>| #[trigger]
                    const_shapes_are(&old(self).model, shapes) && params_counted(
                        Err(CircuitError::ShapeTooLarge { index }),
                        shapes@,
                    ),
                CircuitError::BitsOutOfRange { estimate, scale } => {
                    &&& scale == old(self).settings.run_args.scale
                    &&& estimate > MAX_PUBLIC_SRS - 1
                    &&& exists|max: i128| #[trigger]
                        is_max_lookup_of(&old(self).model, &old(self).inputs, max) && estimate
                            == required_bits(max as int)
                },
                _ => false,
            },
    {
        self.calibrate_range()?;
        proof {
            let max = choose|max: i128| #[trigger]
                is_max_lookup_of(&old(self).model, &old(self).inputs, max)
                    && self.settings.run_args == calibrated_args(
                    old(self).settings.run_args,
                    old(self).settings.num_constraints,
                    max,
                ) && !exceeds_lookup_range(max as int, self.settings.run_args.bits as nat);
            crate::calibration::lemma_ceil_log2_u128(max as int);
        }
        let derived = Self::derive_settings(
            &self.model,
            &self.modules,
            self.settings.run_args,
            self.settings.check_mode,
        )?;
        self.settings = derived;
        Ok(())
    }
}

} // verus!
