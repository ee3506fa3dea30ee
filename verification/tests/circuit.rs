use graph_circuit::circuit::{
    assemble_public_inputs, copy_tensors, count_params, placeholders, with_module_sizes,
    GraphCircuit,
};
use graph_circuit::error::{CircuitError, GraphError};
use graph_circuit::felt::{i128_to_felt, Felt, MODULUS_HI, MODULUS_LO};
use graph_circuit::loading::{
    encode_all, flatten_tensors, per_item_scales, uniform_scales, SourceLoad,
};
use graph_circuit::model::{Model, ModelForward, Modules};
use graph_circuit::on_chain_test::{
    scale_per_value, TestDataSource, TestLoad, TestOnChainData, TestSources,
};
use graph_circuit::quantize::quantize_bits;
use graph_circuit::run_args::{CheckMode, RunArgs, VarVisibility, Visibility};
use graph_circuit::settings::{GraphSettings, ModuleSize, ModuleSizes};
use graph_circuit::source::{
    CallsToAccount, DataSource, GraphInput, GraphWitness, OnChainSource, WitnessSource,
};
use graph_circuit::tensor::Tensor;

/// The signed integer that a field element stands for.
fn decode(f: &Felt) -> i128 {
    let (lo, hi) = f.halves();
    if hi == 0 && lo <= i128::MAX as u128 {
        lo as i128
    } else {
        assert_eq!(hi, MODULUS_HI);
        -((MODULUS_LO - lo) as i128)
    }
}

fn quantize(value: f64, scale: u32) -> i128 {
    quantize_bits(value.to_bits(), scale).unwrap()
}

fn tensor(values: &[i128], dims: &[usize]) -> Tensor {
    Tensor::from_values(encode_all(&values.to_vec()), &dims.to_vec()).unwrap()
}

fn integers(t: &Tensor) -> Vec<i128> {
    t.to_vec().iter().map(decode).collect()
}

/// A model of one input of `width` values and one constant weight: each
/// output is the input times the weight, at the scale of the input.
#[derive(Clone, Debug, PartialEq)]
struct Scaling {
    weight: Option<i128>,
    width: usize,
    scale: u32,
    rows: usize,
}

impl Model for Scaling {
    fn input_shapes(&self) -> Vec<Vec<usize>> {
        vec![vec![self.width]]
    }

    fn output_shapes(&self) -> Vec<Vec<usize>> {
        vec![vec![self.width]]
    }

    fn const_shapes(&self) -> Vec<Vec<usize>> {
        match self.weight {
            Some(_) => vec![vec![1]],
            None => vec![],
        }
    }

    fn get_input_scales(&self) -> Vec<u32> {
        vec![self.scale]
    }

    fn get_output_scales(&self) -> Vec<u32> {
        vec![self.scale]
    }

    fn get_all_consts(&self) -> Vec<Tensor> {
        match self.weight {
            Some(w) => vec![tensor(&[w], &[1])],
            None => vec![],
        }
    }

    fn forward(&self, inputs: &Vec<Tensor>) -> Result<ModelForward, GraphError> {
        if inputs.len() != 1 {
            return Err(GraphError::InvalidDims(0, "one input".to_string()));
        }
        let weight = self.weight.unwrap_or(1 << self.scale);
        let mut outputs = vec![];
        let mut max_lookup_inputs = 0i128;
        for x in integers(&inputs[0]) {
            let product = weight * x;
            max_lookup_inputs = max_lookup_inputs.max(product.abs());
            outputs.push(product >> self.scale);
        }
        Ok(ModelForward {
            outputs: vec![tensor(&outputs, &[self.width])],
            max_lookup_inputs,
        })
    }

    fn gen_params(
        &self,
        run_args: RunArgs,
        check_mode: CheckMode,
    ) -> Result<GraphSettings, GraphError> {
        let mut model_instance_shapes = vec![];
        if run_args.input_visibility.is_public() {
            model_instance_shapes.push(vec![self.width]);
        }
        if run_args.output_visibility.is_public() {
            model_instance_shapes.push(vec![self.width]);
        }
        Ok(GraphSettings {
            run_args,
            num_constraints: self.rows + run_args.bits,
            model_instance_shapes,
            model_output_scales: vec![self.scale],
            module_sizes: no_modules(),
            required_lookups: vec![],
            check_mode,
        })
    }
}

fn no_modules() -> ModuleSizes {
    ModuleSizes {
        poseidon: ModuleSize { num_rows: 0, num_instances: vec![0] },
        elgamal: ModuleSize { num_rows: 0, num_instances: vec![0, 0, 0, 0] },
    }
}

/// Modules whose hash of tensors is the number of their values, and which
/// encrypt nothing.
#[derive(Clone, Debug, PartialEq)]
struct Counting;

impl Counting {
    fn count(shapes: &Vec<Vec<usize>>) -> usize {
        shapes.iter().map(|s| s.iter().product::<usize>()).sum()
    }
}

impl Modules for Counting {
    type Processed = Vec<Felt>;
    type Settings = usize;

    fn num_constraints_and_instances(
        &self,
        input_shapes: &Vec<Vec<usize>>,
        param_shapes: &Vec<Vec<usize>>,
        output_shapes: &Vec<Vec<usize>>,
        visibility: VarVisibility,
    ) -> ModuleSizes {
        let mut sizes = no_modules();
        for (shapes, v) in [
            (input_shapes, visibility.input),
            (param_shapes, visibility.params),
            (output_shapes, visibility.output),
        ] {
            if v.is_hashed() && Self::count(shapes) > 0 {
                sizes.poseidon.num_rows += 100 * Self::count(shapes);
                sizes.poseidon.num_instances[0] += 1;
            }
        }
        sizes
    }

    fn forward(
        &self,
        tensors: &Vec<Tensor>,
        visibility: Visibility,
    ) -> Result<Vec<Felt>, GraphError> {
        if visibility.is_encrypted() {
            return Err(GraphError::UnsupportedOp);
        }
        let count: usize = tensors.iter().map(|t| t.len()).sum();
        Ok(vec![Felt::from_u128(count as u128)])
    }

    fn public_inputs(
        &self,
        witness: &GraphWitness<Vec<Felt>>,
        visibility: VarVisibility,
    ) -> Vec<Vec<Felt>> {
        let mut hashes = vec![];
        for (processed, v) in [
            (&witness.processed_inputs, visibility.input),
            (&witness.processed_params, visibility.params),
            (&witness.processed_outputs, visibility.output),
        ] {
            if v.is_hashed() {
                hashes.extend(processed.clone().unwrap_or_default());
            }
        }
        vec![hashes, vec![], vec![], vec![], vec![]]
    }

    fn settings_from(&self, witness: &GraphWitness<Vec<Felt>>) -> usize {
        [&witness.processed_inputs, &witness.processed_params, &witness.processed_outputs]
            .iter()
            .filter(|p| p.is_some())
            .count()
    }

    fn empty_settings(&self) -> usize {
        0
    }
}

fn args(bits: usize, input: Visibility, output: Visibility, params: Visibility) -> RunArgs {
    RunArgs {
        scale: 7,
        bits,
        logrows: 17,
        input_visibility: input,
        output_visibility: output,
        param_visibility: params,
    }
}

fn public_args(bits: usize) -> RunArgs {
    args(bits, Visibility::Public, Visibility::Public, Visibility::Private)
}

fn model(weight: f64) -> Scaling {
    Scaling { weight: Some(quantize(weight, 7)), width: 1, scale: 7, rows: 10 }
}

fn circuit(weight: f64, run_args: RunArgs) -> GraphCircuit<Scaling, Counting> {
    GraphCircuit::new(model(weight), Counting, run_args, CheckMode::Safe).unwrap()
}

fn file_witness(inputs: Vec<Vec<i128>>, outputs: Vec<Vec<i128>>) -> GraphWitness<Vec<Felt>> {
    GraphWitness {
        input_data: WitnessSource::File(inputs.iter().map(encode_all).collect()),
        output_data: WitnessSource::File(outputs.iter().map(encode_all).collect()),
        processed_inputs: None,
        processed_params: None,
        processed_outputs: None,
    }
}

fn chain() -> OnChainSource {
    OnChainSource {
        calls: vec![CallsToAccount {
            call_data: vec![("0x01".to_string(), 2)],
            address: "0xabc".to_string(),
        }],
        rpc: "http://localhost:3030".to_string(),
    }
}

fn test_data(input: TestDataSource, output: TestDataSource) -> TestOnChainData {
    TestOnChainData {
        data: std::path::PathBuf::from("witness.json"),
        rpc: None,
        data_sources: TestSources { input, output },
    }
}

#[test]
fn scenario_single_input_single_output_public() {
    let mut c = circuit(2.0, public_args(16));
    let quantized = quantize(1.5, 7);
    assert_eq!(quantized, 192);
    let input = GraphInput { input_data: DataSource::File(vec![vec![quantized]]) };
    c.load_graph_input(&input).unwrap();
    assert_eq!(integers(&c.inputs[0]), vec![192]);

    let res = c.forward().unwrap();
    assert_eq!(integers(&res.inputs[0]), vec![192]);
    assert_eq!(integers(&res.outputs[0]), vec![384]);
    assert_eq!(res.max_lookup_input, 256 * 192);
    assert!(res.processed_inputs.is_none());
    assert!(res.processed_params.is_none());
    assert!(res.processed_outputs.is_none());

    let witness = file_witness(vec![vec![192]], vec![vec![384]]);
    c.load_graph_witness(&witness).unwrap();
    let public = c.prepare_public_inputs(&witness).unwrap();
    assert_eq!(public[0], vec![i128_to_felt(192)]);
    assert_eq!(public[1], vec![i128_to_felt(384)]);
    let lengths: Vec<usize> = public.iter().map(|v| v.len()).collect();
    assert_eq!(lengths, c.settings.total_instances());
    assert_eq!(lengths, vec![1, 1, 0, 0, 0, 0, 0]);
}

#[test]
fn scenario_calibration_raises_bits() {
    let mut c = circuit(2.0, public_args(4));
    c.load_graph_input(&GraphInput { input_data: DataSource::File(vec![vec![192]]) }).unwrap();
    let before = c.forward().unwrap().max_lookup_input;
    assert!(before > 1 << 3);

    c.calibrate().unwrap();
    let bits = c.settings.run_args.bits;
    assert!(bits > 4);
    // 2^15 < 49152 <= 2^16
    assert_eq!(bits, 17);
    assert_eq!(c.settings.run_args.logrows, 18);
    let after = c.forward().unwrap().max_lookup_input;
    assert!(after <= 1i128 << (bits - 1));
    // the settings are derived anew under the final bit-width
    assert_eq!(c.settings.num_constraints, 10 + 17);
    assert_eq!(integers(&c.inputs[0]), vec![192]);
}

#[test]
fn calibration_lowers_a_range_that_is_wider_than_needed() {
    let mut c = circuit(1.0, public_args(20));
    c.load_graph_input(&GraphInput { input_data: DataSource::File(vec![vec![3]]) }).unwrap();
    c.calibrate().unwrap();
    // 128 * 3 = 384 <= 2^9
    assert_eq!(c.settings.run_args.bits, 10);
    assert_eq!(c.settings.run_args.logrows, 11);
}

#[test]
fn calibration_range_leaves_the_rest_of_the_settings() {
    let mut c = circuit(2.0, public_args(4));
    c.load_graph_input(&GraphInput { input_data: DataSource::File(vec![vec![192]]) }).unwrap();
    let before = c.settings.clone();
    c.calibrate_range().unwrap();
    assert_eq!(c.settings.run_args.bits, 17);
    assert_eq!(c.settings.run_args.logrows, 18);
    let mut expected = before;
    expected.run_args.bits = 17;
    expected.run_args.logrows = 18;
    assert_eq!(c.settings, expected);
}

#[test]
fn calibration_fails_when_no_bit_width_fits() {
    let mut c = circuit(2.0, public_args(4));
    let input = GraphInput { input_data: DataSource::File(vec![vec![1 << 40]]) };
    c.load_graph_input(&input).unwrap();
    // 256 * 2^40 = 2^48 needs 49 bits
    assert_eq!(
        c.calibrate(),
        Err(CircuitError::BitsOutOfRange { estimate: 49, scale: 7 })
    );
    assert_eq!(c.settings.run_args.bits, 4);
}

#[test]
fn calibration_needs_a_visible_variable() {
    let run_args = args(4, Visibility::Private, Visibility::Private, Visibility::Private);
    let settings = model(2.0).gen_params(run_args, CheckMode::Safe).unwrap();
    let mut c =
        GraphCircuit::new_from_settings(model(2.0), Counting, settings.clone(), CheckMode::Safe)
            .unwrap();
    assert_eq!(c.calibrate(), Err(CircuitError::Graph(GraphError::Visibility)));
    assert_eq!(c.settings, settings);
    assert_eq!(c.forward().err(), Some(CircuitError::Graph(GraphError::Visibility)));
    let witness = file_witness(vec![vec![1]], vec![vec![1]]);
    assert_eq!(
        c.prepare_public_inputs(&witness),
        Err(CircuitError::Graph(GraphError::Visibility))
    );
}

#[test]
fn new_needs_a_visible_variable() {
    let run_args = args(4, Visibility::Private, Visibility::Private, Visibility::Private);
    let r = GraphCircuit::new(model(2.0), Counting, run_args, CheckMode::Safe);
    assert_eq!(r.err(), Some(CircuitError::Graph(GraphError::Visibility)));
}

#[test]
fn new_makes_zero_inputs_and_derives_settings() {
    let m = Scaling { weight: Some(3), width: 4, scale: 7, rows: 10 };
    let run_args = args(5, Visibility::Hashed, Visibility::Public, Visibility::Hashed);
    let c = GraphCircuit::new(m.clone(), Counting, run_args, CheckMode::Unsafe).unwrap();
    assert_eq!(c.model, m);
    assert_eq!(c.inputs.len(), 1);
    assert_eq!(c.inputs[0].dims(), &vec![4]);
    assert_eq!(integers(&c.inputs[0]), vec![0, 0, 0, 0]);
    assert!(c.outputs.is_empty());
    assert_eq!(c.module_settings, 0);
    assert_eq!(c.settings.run_args, run_args);
    assert_eq!(c.settings.check_mode, CheckMode::Unsafe);
    // inputs: 4 values, parameters: 1 value, both hashed
    assert_eq!(c.settings.module_sizes.poseidon.num_rows, 500);
    assert_eq!(c.settings.module_sizes.poseidon.num_instances, vec![2]);
    // the modules take more rows than the model
    assert_eq!(c.settings.num_constraints, 500);
    assert_eq!(c.settings.model_instance_shapes, vec![vec![4]]);
}

#[test]
fn new_without_constants_sizes_an_empty_parameter_tensor() {
    let m = Scaling { weight: None, width: 2, scale: 7, rows: 10 };
    let run_args = args(5, Visibility::Public, Visibility::Public, Visibility::Hashed);
    let c = GraphCircuit::new(m, Counting, run_args, CheckMode::Safe).unwrap();
    assert_eq!(c.settings.module_sizes, no_modules());
    assert_eq!(c.settings.num_constraints, 15);
}

#[test]
fn new_from_settings_takes_the_settings_but_for_the_check_mode() {
    let settings = model(2.0).gen_params(public_args(9), CheckMode::Safe).unwrap();
    let c = GraphCircuit::new_from_settings(
        model(2.0),
        Counting,
        settings.clone(),
        CheckMode::Unsafe,
    )
    .unwrap();
    let mut expected = settings;
    expected.check_mode = CheckMode::Unsafe;
    assert_eq!(c.settings, expected);
    assert_eq!(integers(&c.inputs[0]), vec![0]);
    assert!(c.outputs.is_empty());
}

#[test]
fn new_refuses_a_shape_that_cannot_be_addressed() {
    let m = Scaling { weight: Some(3), width: usize::MAX, scale: 7, rows: 10 };
    let shapes = vec![vec![2], vec![usize::MAX, 2]];
    assert_eq!(
        placeholders(&shapes).err(),
        Some(CircuitError::ShapeTooLarge { index: 1 })
    );
    assert_eq!(m.input_shapes(), vec![vec![usize::MAX]]);
}

#[test]
fn placeholders_are_zero_tensors_of_the_shapes() {
    let ts = placeholders(&vec![vec![2, 3], vec![], vec![0, 5]]).unwrap();
    assert_eq!(ts.len(), 3);
    assert_eq!(ts[0].dims(), &vec![2, 3]);
    assert_eq!(integers(&ts[0]), vec![0; 6]);
    assert_eq!(ts[1].len(), 1);
    assert_eq!(ts[2].len(), 0);
}

#[test]
fn count_params_adds_the_element_counts() {
    assert_eq!(count_params(&vec![]), Ok(0));
    assert_eq!(count_params(&vec![vec![2, 3], vec![4], vec![]]), Ok(11));
    assert_eq!(
        count_params(&vec![vec![usize::MAX], vec![1]]),
        Err(CircuitError::ShapeTooLarge { index: 1 })
    );
    assert_eq!(
        count_params(&vec![vec![1], vec![usize::MAX, 2]]),
        Err(CircuitError::ShapeTooLarge { index: 1 })
    );
}

#[test]
fn with_module_sizes_takes_the_larger_row_count() {
    let settings = model(2.0).gen_params(public_args(9), CheckMode::Safe).unwrap();
    assert_eq!(settings.num_constraints, 19);
    let mut sizes = no_modules();
    sizes.elgamal.num_rows = 7;
    let small = with_module_sizes(settings.clone(), sizes.clone());
    assert_eq!(small.num_constraints, 19);
    assert_eq!(small.module_sizes, sizes);
    sizes.poseidon.num_rows = 70;
    let large = with_module_sizes(settings.clone(), sizes.clone());
    assert_eq!(large.num_constraints, 70);
    assert_eq!(large.run_args, settings.run_args);
}

#[test]
fn forward_processes_the_classes_that_ask_for_it() {
    let run_args = args(16, Visibility::Hashed, Visibility::Public, Visibility::Hashed);
    let m = Scaling { weight: Some(128), width: 3, scale: 7, rows: 10 };
    let mut c = GraphCircuit::new(m, Counting, run_args, CheckMode::Safe).unwrap();
    c.load_graph_input(&GraphInput { input_data: DataSource::File(vec![vec![1, -2, 3]]) })
        .unwrap();
    let res = c.forward().unwrap();
    assert_eq!(integers(&res.outputs[0]), vec![1, -2, 3]);
    assert_eq!(res.max_lookup_input, 384);
    assert_eq!(res.processed_inputs, Some(vec![Felt::from_u128(3)]));
    assert_eq!(res.processed_params, Some(vec![Felt::from_u128(1)]));
    assert_eq!(res.processed_outputs, None);
    // the circuit itself is not changed
    assert!(c.outputs.is_empty());
}

#[test]
fn forward_hands_on_the_error_of_a_module() {
    let run_args = args(16, Visibility::Public, Visibility::Encrypted, Visibility::Private);
    let c = circuit(1.0, run_args);
    assert_eq!(c.forward().err(), Some(CircuitError::Graph(GraphError::UnsupportedOp)));
}

#[test]
fn public_inputs_come_before_outputs_before_modules() {
    let run_args = args(16, Visibility::Public, Visibility::Public, Visibility::Hashed);
    let m = Scaling { weight: Some(128), width: 2, scale: 7, rows: 10 };
    let mut c = GraphCircuit::new(m, Counting, run_args, CheckMode::Safe).unwrap();
    let mut witness = file_witness(vec![vec![5, 6]], vec![vec![7, 8]]);
    witness.processed_params = Some(vec![Felt::from_u128(99)]);
    c.load_graph_witness(&witness).unwrap();
    assert_eq!(c.module_settings, 1);
    let public = c.prepare_public_inputs(&witness).unwrap();
    assert_eq!(
        public,
        vec![
            encode_all(&vec![5, 6]),
            encode_all(&vec![7, 8]),
            vec![Felt::from_u128(99)],
            vec![],
            vec![],
            vec![],
            vec![],
        ]
    );
    let lengths: Vec<usize> = public.iter().map(|v| v.len()).collect();
    assert_eq!(lengths, c.settings.total_instances());
}

#[test]
fn public_inputs_leave_out_what_is_not_public() {
    let inputs = vec![tensor(&[1, 2], &[2])];
    let outputs = vec![tensor(&[3], &[1])];
    let modules = vec![vec![Felt::from_u128(4)]];
    let only_outputs = assemble_public_inputs(
        &inputs,
        &outputs,
        args(4, Visibility::Hashed, Visibility::Public, Visibility::Private),
        modules.clone(),
    );
    assert_eq!(only_outputs, vec![encode_all(&vec![3]), vec![Felt::from_u128(4)]]);
    let only_inputs = assemble_public_inputs(
        &inputs,
        &outputs,
        args(4, Visibility::Public, Visibility::Private, Visibility::Private),
        vec![],
    );
    assert_eq!(only_inputs, vec![encode_all(&vec![1, 2])]);
    let neither = assemble_public_inputs(
        &inputs,
        &outputs,
        args(4, Visibility::Private, Visibility::Hashed, Visibility::Private),
        modules.clone(),
    );
    assert_eq!(neither, modules);
}

#[test]
fn copy_tensors_keeps_shapes_and_values() {
    let ts = vec![tensor(&[1, 2, 3, 4], &[2, 2]), tensor(&[-9], &[])];
    let copy = copy_tensors(&ts);
    assert_eq!(copy.len(), 2);
    assert_eq!(copy[0].dims(), &vec![2, 2]);
    assert_eq!(integers(&copy[0]), vec![1, 2, 3, 4]);
    assert_eq!(copy[1].dims(), &Vec::<usize>::new());
    assert_eq!(integers(&copy[1]), vec![-9]);
}

#[test]
fn load_file_data_encodes_and_reshapes() {
    let c = circuit(1.0, public_args(4));
    let data = vec![vec![1, -1, 192, -192, 0, 7], vec![5]];
    let ts = c.load_file_data(&data, &vec![vec![2, 3], vec![1]]).unwrap();
    assert_eq!(ts.len(), 2);
    assert_eq!(ts[0].dims(), &vec![2, 3]);
    assert_eq!(ts[0].to_vec(), encode_all(&data[0]));
    assert_eq!(ts[0].to_vec()[1].halves(), (MODULUS_LO - 1, MODULUS_HI));
    assert_eq!(integers(&ts[0]), data[0]);
    assert_eq!(integers(&ts[1]), vec![5]);
}

#[test]
fn load_file_data_refuses_a_wrong_number_of_arrays() {
    let c = circuit(1.0, public_args(4));
    assert_eq!(
        c.load_file_data(&vec![vec![1], vec![2]], &vec![vec![1]]).err(),
        Some(CircuitError::ArityMismatch { expected: 1, found: 2 })
    );
    assert_eq!(
        c.load_file_data(&vec![], &vec![vec![1]]).err(),
        Some(CircuitError::ArityMismatch { expected: 1, found: 0 })
    );
}

#[test]
fn load_file_data_refuses_an_array_of_the_wrong_length() {
    let c = circuit(1.0, public_args(4));
    assert_eq!(
        c.load_file_data(&vec![vec![1, 2], vec![3, 4, 5], vec![6]], &vec![
            vec![2],
            vec![2, 2],
            vec![3]
        ])
        .err(),
        Some(CircuitError::DimMismatch { index: 1 })
    );
    assert_eq!(
        c.load_file_data(&vec![vec![1]], &vec![vec![usize::MAX, 4]]).err(),
        Some(CircuitError::DimMismatch { index: 0 })
    );
}

#[test]
fn load_witness_file_data_reshapes_without_quantizing() {
    let c = circuit(1.0, public_args(4));
    let arrays = vec![encode_all(&vec![1, 2, 3, 4]), encode_all(&vec![])];
    let ts = c.load_witness_file_data(&arrays, &vec![vec![4, 1], vec![0]]).unwrap();
    assert_eq!(ts[0].dims(), &vec![4, 1]);
    assert_eq!(ts[0].to_vec(), arrays[0]);
    assert_eq!(ts[1].len(), 0);
    assert_eq!(
        c.load_witness_file_data(&arrays, &vec![vec![4]]).err(),
        Some(CircuitError::ArityMismatch { expected: 1, found: 2 })
    );
    assert_eq!(
        c.load_witness_file_data(&arrays, &vec![vec![4], vec![1]]).err(),
        Some(CircuitError::DimMismatch { index: 1 })
    );
}

#[test]
fn load_on_chain_data_splits_the_values_by_shape() {
    let c = circuit(1.0, public_args(4));
    let values = encode_all(&vec![1, 2, 3, 4, 5, 6, 7]);
    let ts = c.load_on_chain_data(&values, &vec![vec![2, 2], vec![3]]).unwrap();
    assert_eq!(ts.len(), 2);
    assert_eq!(ts[0].dims(), &vec![2, 2]);
    assert_eq!(integers(&ts[0]), vec![1, 2, 3, 4]);
    assert_eq!(integers(&ts[1]), vec![5, 6, 7]);
    let one = c.load_on_chain_data(&values, &vec![vec![7]]).unwrap();
    assert_eq!(integers(&one[0]), vec![1, 2, 3, 4, 5, 6, 7]);
}

#[test]
fn load_on_chain_data_names_what_the_values_do_not_fill() {
    let c = circuit(1.0, public_args(4));
    let values = encode_all(&vec![1, 2, 3, 4, 5]);
    assert_eq!(
        c.load_on_chain_data(&values, &vec![vec![2], vec![4]]).err(),
        Some(CircuitError::DimMismatch { index: 1 })
    );
    assert_eq!(
        c.load_on_chain_data(&values, &vec![vec![2], vec![2]]).err(),
        Some(CircuitError::DimMismatch { index: 2 })
    );
    assert_eq!(
        c.load_on_chain_data(&values, &vec![vec![usize::MAX, 2]]).err(),
        Some(CircuitError::DimMismatch { index: 0 })
    );
    assert!(c.load_on_chain_data(&vec![], &vec![]).unwrap().is_empty());
}

#[test]
fn per_item_scales_repeat_each_scale_for_each_value() {
    assert_eq!(
        per_item_scales(&vec![vec![2, 2], vec![0], vec![3]], &vec![7, 8, 9]),
        Ok(vec![7, 7, 7, 7, 9, 9, 9])
    );
    assert_eq!(per_item_scales(&vec![vec![]], &vec![5]), Ok(vec![5]));
    assert_eq!(
        per_item_scales(&vec![vec![2]], &vec![7, 8]),
        Err(CircuitError::ArityMismatch { expected: 1, found: 2 })
    );
    assert_eq!(
        per_item_scales(&vec![vec![1], vec![usize::MAX, 3]], &vec![7, 8]),
        Err(CircuitError::ShapeTooLarge { index: 1 })
    );
}

#[test]
fn uniform_scales_repeat_one_scale() {
    assert_eq!(uniform_scales(7, 3), vec![7, 7, 7]);
    assert_eq!(uniform_scales(7, 0), Vec::<u32>::new());
}

#[test]
fn flatten_tensors_lays_the_values_end_to_end() {
    let flat = flatten_tensors(&vec![tensor(&[1, 2, 3, 4], &[2, 2]), tensor(&[5], &[1])]);
    assert_eq!(flat.dims(), &vec![5]);
    assert_eq!(integers(&flat), vec![1, 2, 3, 4, 5]);
    let none = flatten_tensors(&vec![]);
    assert_eq!(none.dims(), &vec![0]);
    assert_eq!(none.len(), 0);
}

#[test]
fn flatten_and_split_round_trip() {
    let c = circuit(1.0, public_args(4));
    let ts = vec![tensor(&[1, 2, 3, 4, 5, 6], &[3, 2]), tensor(&[7], &[]), tensor(&[8, 9], &[2])];
    let shapes: Vec<Vec<usize>> = ts.iter().map(|t| t.dims().clone()).collect();
    let back = c.load_on_chain_data(&flatten_tensors(&ts).to_vec(), &shapes).unwrap();
    assert_eq!(back.len(), 3);
    for (a, b) in ts.iter().zip(back.iter()) {
        assert_eq!(a.dims(), b.dims());
        assert_eq!(a.to_vec(), b.to_vec());
    }
}

#[test]
fn data_source_of_arrays_is_ready() {
    let c = circuit(1.0, public_args(4));
    let source = DataSource::File(vec![vec![3, 4]]);
    match c.process_data_source(&source, &vec![vec![2]], &vec![7]).unwrap() {
        SourceLoad::Ready(ts) => assert_eq!(integers(&ts[0]), vec![3, 4]),
        other => panic!("not ready: {:?}", other),
    }
    assert_eq!(
        c.process_data_source(&source, &vec![vec![3]], &vec![7]).err(),
        Some(CircuitError::DimMismatch { index: 0 })
    );
}

#[test]
fn data_source_on_chain_asks_for_a_fetch_with_one_scale_for_each_value() {
    let c = circuit(1.0, public_args(4));
    let source = DataSource::OnChain(chain());
    match c.process_data_source(&source, &vec![vec![2], vec![1, 3]], &vec![7, 9]).unwrap() {
        SourceLoad::Fetch { per_item_scale } => assert_eq!(per_item_scale, vec![7, 7, 9, 9, 9]),
        other => panic!("no fetch: {:?}", other),
    }
    let witness = WitnessSource::OnChain(chain());
    match c.process_witness_source(&witness, &vec![vec![2]], &vec![4]).unwrap() {
        SourceLoad::Fetch { per_item_scale } => assert_eq!(per_item_scale, vec![4, 4]),
        other => panic!("no fetch: {:?}", other),
    }
    assert_eq!(
        c.process_witness_source(&witness, &vec![vec![2]], &vec![]).err(),
        Some(CircuitError::ArityMismatch { expected: 1, found: 0 })
    );
}

#[test]
fn witness_source_of_arrays_is_ready() {
    let c = circuit(1.0, public_args(4));
    let source = WitnessSource::File(vec![encode_all(&vec![3, 4])]);
    match c.process_witness_source(&source, &vec![vec![1, 2]], &vec![7]).unwrap() {
        SourceLoad::Ready(ts) => {
            assert_eq!(ts[0].dims(), &vec![1, 2]);
            assert_eq!(integers(&ts[0]), vec![3, 4]);
        }
        other => panic!("not ready: {:?}", other),
    }
}

#[test]
fn load_graph_witness_loads_inputs_outputs_and_module_state() {
    let mut c = circuit(1.0, public_args(4));
    let mut witness = file_witness(vec![vec![11]], vec![vec![12]]);
    witness.processed_inputs = Some(vec![]);
    witness.processed_outputs = Some(vec![]);
    let settings = c.settings.clone();
    c.load_graph_witness(&witness).unwrap();
    assert_eq!(integers(&c.inputs[0]), vec![11]);
    assert_eq!(integers(&c.outputs[0]), vec![12]);
    assert_eq!(c.module_settings, 2);
    assert_eq!(c.settings, settings);
}

#[test]
fn load_graph_witness_refuses_data_that_do_not_fit() {
    let mut c = circuit(1.0, public_args(4));
    let witness = file_witness(vec![vec![11]], vec![vec![12, 13]]);
    assert_eq!(
        c.load_graph_witness(&witness),
        Err(CircuitError::DimMismatch { index: 0 })
    );
    assert!(c.outputs.is_empty());
    assert_eq!(c.module_settings, 0);
    let witness = file_witness(vec![], vec![vec![12]]);
    assert_eq!(
        c.load_graph_witness(&witness),
        Err(CircuitError::ArityMismatch { expected: 1, found: 0 })
    );
}

#[test]
fn load_graph_input_refuses_data_that_do_not_fit() {
    let mut c = circuit(1.0, public_args(4));
    let input = GraphInput { input_data: DataSource::File(vec![vec![1, 2]]) };
    assert_eq!(c.load_graph_input(&input), Err(CircuitError::DimMismatch { index: 0 }));
    assert_eq!(integers(&c.inputs[0]), vec![0]);
}

#[test]
fn data_on_a_chain_are_out_of_reach() {
    let mut c = circuit(1.0, public_args(4));
    let input = GraphInput { input_data: DataSource::OnChain(chain()) };
    assert_eq!(c.load_graph_input(&input), Err(CircuitError::OnChainUnavailable));
    assert_eq!(integers(&c.inputs[0]), vec![0]);
    let mut witness = file_witness(vec![vec![11]], vec![vec![12]]);
    witness.output_data = WitnessSource::OnChain(chain());
    assert_eq!(c.load_graph_witness(&witness), Err(CircuitError::OnChainUnavailable));
    assert_eq!(integers(&c.inputs[0]), vec![0]);
    assert!(c.outputs.is_empty());
    let mut witness = file_witness(vec![vec![11]], vec![vec![12]]);
    witness.input_data = WitnessSource::OnChain(chain());
    assert_eq!(c.load_graph_witness(&witness), Err(CircuitError::OnChainUnavailable));
}

#[test]
fn private_inputs_cannot_go_on_chain() {
    let run_args = args(4, Visibility::Private, Visibility::Public, Visibility::Private);
    let c = circuit(1.0, run_args);
    let witness = file_witness(vec![vec![1]], vec![vec![1]]);
    let r = c.populate_on_chain_test_data(
        &witness,
        &test_data(TestDataSource::OnChain, TestDataSource::File),
    );
    assert_eq!(r.err(), Some(CircuitError::PrivateOnChainData));
}

#[test]
fn private_outputs_cannot_go_on_chain() {
    let run_args = args(4, Visibility::Public, Visibility::Hashed, Visibility::Private);
    let c = circuit(1.0, run_args);
    // the inputs would not even load: the outputs are refused before that
    let witness = file_witness(vec![vec![1, 2, 3]], vec![vec![1]]);
    let r = c.populate_on_chain_test_data(
        &witness,
        &test_data(TestDataSource::File, TestDataSource::OnChain),
    );
    assert_eq!(r.err(), Some(CircuitError::PrivateOnChainData));
}

#[test]
fn public_data_are_published_with_their_scales() {
    let m = Scaling { weight: Some(128), width: 3, scale: 5, rows: 10 };
    let c = GraphCircuit::new(m, Counting, public_args(4), CheckMode::Safe).unwrap();
    let witness = file_witness(vec![vec![1, 2, 3]], vec![vec![4, 5, 6]]);
    let plan = c
        .populate_on_chain_test_data(
            &witness,
            &test_data(TestDataSource::OnChain, TestDataSource::OnChain),
        )
        .unwrap();
    match plan.input {
        // one scale of the run for each value
        TestLoad::Publish { scales } => assert_eq!(scales, vec![7, 7, 7]),
        other => panic!("not published: {:?}", other),
    }
    match plan.output {
        // one scale of the model for each output
        TestLoad::Publish { scales } => assert_eq!(scales, vec![5]),
        other => panic!("not published: {:?}", other),
    }
}

#[test]
fn data_that_stay_in_the_file_are_loaded() {
    let c = circuit(1.0, public_args(4));
    let witness = file_witness(vec![vec![8]], vec![vec![9]]);
    let plan = c
        .populate_on_chain_test_data(
            &witness,
            &test_data(TestDataSource::File, TestDataSource::File),
        )
        .unwrap();
    match plan.input {
        TestLoad::Load(SourceLoad::Ready(ts)) => assert_eq!(integers(&ts[0]), vec![8]),
        other => panic!("not loaded: {:?}", other),
    }
    match plan.output {
        TestLoad::Load(SourceLoad::Ready(ts)) => assert_eq!(integers(&ts[0]), vec![9]),
        other => panic!("not loaded: {:?}", other),
    }
}

#[test]
fn scale_per_value_counts_every_value() {
    let arrays = vec![encode_all(&vec![1, 2]), vec![], encode_all(&vec![3])];
    assert_eq!(scale_per_value(&arrays, 9), vec![9, 9, 9]);
    assert_eq!(scale_per_value(&vec![], 9), Vec::<u32>::new());
}

#[test]
fn test_data_source_is_named_in_any_case() {
    assert_eq!(TestDataSource::from_name("file"), Some(TestDataSource::File));
    assert_eq!(TestDataSource::from_name("FILE"), Some(TestDataSource::File));
    assert_eq!(TestDataSource::from_name("On-Chain"), Some(TestDataSource::OnChain));
    assert_eq!(TestDataSource::from_name("onchain"), None);
    assert_eq!(TestDataSource::from_name(""), None);
    assert_eq!(
        TestDataSource::from_lowercase(&"on-chain".to_string()),
        Some(TestDataSource::OnChain)
    );
    assert_eq!(TestDataSource::from_lowercase(&"File".to_string()), None);
}

#[test]
fn test_on_chain_data_names_the_path_and_the_sources() {
    let test = test_data(TestDataSource::File, TestDataSource::OnChain);
    assert_eq!(test.data, std::path::PathBuf::from("witness.json"));
    assert_eq!(test.rpc, None);
    assert_eq!(
        test.data_sources,
        TestSources { input: TestDataSource::File, output: TestDataSource::OnChain }
    );
}

#[test]
fn test_sources_default_to_the_chain() {
    assert_eq!(TestDataSource::default(), TestDataSource::OnChain);
    assert_eq!(
        TestSources::default(),
        TestSources { input: TestDataSource::OnChain, output: TestDataSource::OnChain }
    );
    let from_root: graph_circuit::TestDataSource = TestDataSource::File;
    assert_eq!(from_root, TestDataSource::File);
}
