//! The errors of the graph and of the circuit built from it.

use vstd::prelude::*;

verus! {

/// Errors of the graph: each of them says that the circuit cannot be built.
#[derive(Clone, Debug, PartialEq, Eq)]
pub enum GraphError {
    /// The wrong inputs were passed to a lookup node.
    InvalidLookupInputs,
    /// Shape mismatch in circuit construction: the node and what was found.
    InvalidDims(usize, String),
    /// The wrong method was called to configure an operation.
    WrongMethod(usize, String),
    /// A requested node is missing in the graph.
    MissingNode(usize),
    /// An unsupported method was called on an operation.
    OpMismatch(usize, String),
    /// The operation is unsupported.
    UnsupportedOp,
    /// A node is missing required parameters.
    MissingParams(String),
    /// A node has malformed parameters.
    MisformedParams(String),
    /// No set of variables is visible outside the circuit.
    Visibility,
    /// Only divisions by constants are supported.
    NonConstantDiv,
    /// Only constant exponents are supported.
    NonConstantPower,
    /// The inputs of an operation could not be rescaled.
    RescalingError(String),
    /// The model could not be loaded.
    ModelLoad,
    /// The largest packing exponent exceeds the maximum.
    PackingExponent,
}

/// Errors of the circuit that is built from a graph.
#[derive(Clone, Debug, PartialEq, Eq)]
pub enum CircuitError {
    /// An error of the graph, of its modules, or of the visibility settings.
    Graph(GraphError),
    /// The data holds `found` arrays where `expected` tensors are declared.
    ArityMismatch { expected: usize, found: usize },
    /// The array at `index` does not hold as many values as the shape
    /// declared for it has elements.
    DimMismatch { index: usize },
    /// The shape at `index` has more elements than can be addressed.
    ShapeTooLarge { index: usize },
    /// A forward pass needs `estimate` bits of lookup range at the given
    /// scale, more than the structural maximum allows.
    BitsOutOfRange { estimate: usize, scale: u32 },
    /// On-chain data was asked for a tensor that is not public.
    PrivateOnChainData,
    /// The data live on a chain, and nothing here can reach a chain.
    OnChainUnavailable,
}

} // verus!
