//! The run configuration of a circuit and the visibility of its variables.

use crate::error::GraphError;
use vstd::prelude::*;

verus! {

/// Whether the values of a tensor are public, private, or routed through the
/// hashing or the encryption module.
#[derive(Clone, Copy, Debug, PartialEq, Eq, Structural)]
pub enum Visibility {
    /// Known to the prover only.
    Private,
    /// Part of the public instance.
    Public,
    /// Private, with its hash in the public instance.
    Hashed,
    /// Private, with its ciphertext in the public instance.
    Encrypted,
}

impl Visibility {
    /// Whether a module has to process the tensors of this visibility.
    pub open spec fn needs_processing(self) -> bool {
        self is Hashed || self is Encrypted
    }

    /// Whether the values are part of the public instance.
    pub fn is_public(&self) -> (r: bool)
        ensures
            r == (*self is Public),
    {
        matches!(self, Visibility::Public)
    }

    /// Whether the values are hashed.
    pub fn is_hashed(&self) -> (r: bool)
        ensures
            r == (*self is Hashed),
    {
        matches!(self, Visibility::Hashed)
    }

    /// Whether the values are encrypted.
    pub fn is_encrypted(&self) -> (r: bool)
        ensures
            r == (*self is Encrypted),
    {
        matches!(self, Visibility::Encrypted)
    }

    /// Whether a module has to process the tensors of this visibility.
    pub fn requires_processing(&self) -> (r: bool)
        ensures
            r == self.needs_processing(),
    {
        matches!(self, Visibility::Hashed | Visibility::Encrypted)
    }
}

/// How strictly the constraints are checked while the circuit is laid out.
#[derive(Clone, Copy, Debug, PartialEq, Eq, Structural)]
pub enum CheckMode {
    /// Every constraint is checked.
    Safe,
    /// Constraints are not checked.
    Unsafe,
}

/// The configuration of one run.
#[derive(Clone, Copy, Debug, PartialEq, Eq, Structural)]
pub struct RunArgs {
    /// The fixed-point scale: a value `v` is held as `round(v * 2^scale)`.
    pub scale: u32,
    /// The bit-width of the signed range that lookups enforce.
    pub bits: usize,
    /// The base-two logarithm of the number of rows of the circuit.
    pub logrows: u32,
    /// The visibility of the model's inputs.
    pub input_visibility: Visibility,
    /// The visibility of the model's outputs.
    pub output_visibility: Visibility,
    /// The visibility of the model's parameters.
    pub param_visibility: Visibility,
}

/// The visibility of each class of variables of a circuit.
#[derive(Clone, Copy, Debug, PartialEq, Eq, Structural)]
pub struct VarVisibility {
    /// The visibility of the inputs.
    pub input: Visibility,
    /// The visibility of the parameters.
    pub params: Visibility,
    /// The visibility of the outputs.
    pub output: Visibility,
}

impl VarVisibility {
    /// Whether `args` makes anything visible outside the circuit: some class
    /// of variables is not private.
    pub open spec fn is_configured(args: RunArgs) -> bool {
        !(args.input_visibility is Private && args.param_visibility is Private
            && args.output_visibility is Private)
    }

    /// The visibilities that `args` holds.
    pub open spec fn of(args: RunArgs) -> VarVisibility {
        VarVisibility {
            input: args.input_visibility,
            params: args.param_visibility,
            output: args.output_visibility,
        }
    }

    /// Reads the visibilities from the run configuration. A configuration
    /// in which every class is private is refused.
    pub fn from_args(args: RunArgs) -> (r: Result<VarVisibility, GraphError>)
        ensures
            r is Ok <==> Self::is_configured(args),
            r is Ok ==> r->Ok_0 == Self::of(args),
            r is Err ==> r->Err_0 == GraphError::Visibility,
    {
        if matches!(args.input_visibility, Visibility::Private) && matches!(
            args.param_visibility,
            Visibility::Private
        ) && matches!(args.output_visibility, Visibility::Private) {
            Err(GraphError::Visibility)
        } else {
            Ok(
                VarVisibility {
                    input: args.input_visibility,
                    params: args.param_visibility,
                    output: args.output_visibility,
                },
            )
        }
    }
}

} // verus!
