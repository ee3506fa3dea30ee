//! Orchestration of a quantized computational graph as an arithmetic circuit:
//! the settings that describe a compiled circuit, the calibration of its
//! lookup range and row count, the loading of witnesses, and the order in
//! which the circuit's parts are laid out.

pub mod calibration;
pub mod circuit;
pub mod error;
pub mod felt;
pub mod loading;
pub mod model;
pub mod quantize;
pub mod run_args;
pub mod settings;
pub mod source;
pub mod synthesis;
pub mod tensor;

pub use circuit::{ForwardResult, GraphCircuit};
pub use error::{CircuitError, GraphError};
pub use on_chain_test::{TestDataSource, TestOnChainData, TestSources};
pub use settings::GraphSettings;
pub use source::{DataSource, GraphWitness, WitnessSource};
pub use synthesis::GraphConfig;
