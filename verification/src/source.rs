//! Where the values of a circuit's tensors come from: arrays read from a
//! file, or calls to a contract on a chain.

use crate::felt::Felt;
use vstd::prelude::*;

verus! {

/// The calls to make to one account.
#[derive(Clone, Debug, PartialEq, Eq)]
pub struct CallsToAccount {
    /// Each call, as its encoded data and the number of decimals of what it
    /// returns.
    pub call_data: Vec<(String, u8)>,
    /// The address of the account.
    pub address: String,
}

/// Values that live on a chain: the calls that read them, and the endpoint
/// to make the calls at.
#[derive(Clone, Debug, PartialEq, Eq)]
pub struct OnChainSource {
    /// The calls that read the values.
    pub calls: Vec<CallsToAccount>,
    /// The endpoint.
    pub rpc: String,
}

/// The source of the inputs of a model, before a circuit has seen them.
#[derive(Clone, Debug, PartialEq, Eq)]
pub enum DataSource {
    /// One array for each tensor, each value quantized at the scale of its
    /// tensor.
    File(Vec<Vec<i128>>),
    /// Values that are read from a chain and quantized there.
    OnChain(OnChainSource),
}

/// The source of the inputs or of the outputs of a witness.
#[derive(Clone, Debug, PartialEq, Eq)]
pub enum WitnessSource {
    /// One array of field elements for each tensor.
    File(Vec<Vec<Felt>>),
    /// Values that are read from a chain and quantized there.
    OnChain(OnChainSource),
}

/// The inputs of a model.
#[derive(Clone, Debug, PartialEq, Eq)]
pub struct GraphInput {
    /// Where the inputs come from.
    pub input_data: DataSource,
}

/// The witness of a circuit: its inputs and outputs, and what the modules
/// made of the inputs, the parameters and the outputs.
#[derive(Clone, Debug)]
pub struct GraphWitness<P> {
    /// Where the inputs come from.
    pub input_data: WitnessSource,
    /// Where the outputs come from.
    pub output_data: WitnessSource,
    /// What the modules made of the inputs.
    pub processed_inputs: Option<P>,
    /// What the modules made of the parameters.
    pub processed_params: Option<P>,
    /// What the modules made of the outputs.
    pub processed_outputs: Option<P>,
}

} // verus!
