//! The order in which the parts of a circuit are laid out, and the
//! configuration that the layout works on.

use crate::run_args::Visibility;
use vstd::prelude::*;

verus! {

/// The region of a circuit that is reserved for one module.
#[derive(Clone, Copy, Debug, PartialEq, Eq, Structural)]
pub enum ModuleSlot {
    /// The region of the hashing module.
    Poseidon,
    /// The region of the encryption module.
    ElGamal,
}

/// The region in which the model itself is laid out: the one after the
/// regions of the modules.
pub const MODEL_REGION: usize = 2;

impl ModuleSlot {
    /// The place of the slot among the regions of a circuit.
    pub open spec fn place(self) -> usize {
        match self {
            ModuleSlot::Poseidon => 0,
            ModuleSlot::ElGamal => 1,
        }
    }

    /// The slot of the module that processes tensors of the visibility
    /// `visibility`; none where they need no processing.
    pub open spec fn serving(visibility: Visibility) -> Option<ModuleSlot> {
        match visibility {
            Visibility::Hashed => Some(ModuleSlot::Poseidon),
            Visibility::Encrypted => Some(ModuleSlot::ElGamal),
            _ => None,
        }
    }

    /// The place of the slot among the regions of a circuit.
    pub fn index(&self) -> (r: usize)
        ensures
            r == self.place(),
            r < MODEL_REGION,
    {
        match self {
            ModuleSlot::Poseidon => 0,
            ModuleSlot::ElGamal => 1,
        }
    }

    /// The slot of the module that processes tensors of the visibility
    /// `visibility`; none where they need no processing, in which case the
    /// layout of the module does nothing.
    pub fn for_visibility(visibility: Visibility) -> (r: Option<ModuleSlot>)
        ensures
            r == Self::serving(visibility),
            r is Some <==> visibility.needs_processing(),
    {
        match visibility {
            Visibility::Hashed => Some(ModuleSlot::Poseidon),
            Visibility::Encrypted => Some(ModuleSlot::ElGamal),
            _ => None,
        }
    }
}

/// One step of the assignment of a circuit's values.
#[derive(Clone, Copy, Debug, PartialEq, Eq, Structural)]
pub enum SynthesisStep {
    /// The module of the inputs' visibility is laid out over the inputs.
    LayoutInputModule,
    /// The constants of the model are flattened into one tensor, and the
    /// module of the parameters' visibility is laid out over it.
    LayoutParamModule,
    /// The flat tensor that the module has worked on is split into the
    /// shapes of the constants, and a copy of the model takes the parts in
    /// place of its constants.
    ReplaceConsts,
    /// A fresh, empty region is opened: it parts the modules from the model.
    OpenModelRegion,
    /// The constraints of the model are laid out.
    LayoutModel,
    /// The module of the outputs' visibility is laid out over the outputs of
    /// the model.
    LayoutOutputModule,
}

/// What the assignment of a circuit's values does next.
#[derive(Clone, Copy, Debug, PartialEq, Eq, Structural)]
pub enum SynthesisAction {
    /// This step is to be run.
    Run(SynthesisStep),
    /// Every step has been run.
    Finish,
    /// A step has failed: the synthesis fails with it, and nothing is tried
    /// again.
    Abort,
}

/// The steps of the assignment, in order. A model without constants has no
/// parameters to lay a module over and none to replace.
pub open spec fn synthesis_steps(has_consts: bool) -> Seq<SynthesisStep> {
    if has_consts {
        seq![
            SynthesisStep::LayoutInputModule,
            SynthesisStep::LayoutParamModule,
            SynthesisStep::ReplaceConsts,
            SynthesisStep::OpenModelRegion,
            SynthesisStep::LayoutModel,
            SynthesisStep::LayoutOutputModule,
        ]
    } else {
        seq![
            SynthesisStep::LayoutInputModule,
            SynthesisStep::OpenModelRegion,
            SynthesisStep::LayoutModel,
            SynthesisStep::LayoutOutputModule,
        ]
    }
}

/// What follows when the step `done` has ended, or when nothing has been
/// run yet.
pub open spec fn action_after(
    done: Option<SynthesisStep>,
    succeeded: bool,
    has_consts: bool,
) -> SynthesisAction {
    if !succeeded {
        SynthesisAction::Abort
    } else {
        match done {
            None => SynthesisAction::Run(SynthesisStep::LayoutInputModule),
            Some(SynthesisStep::LayoutInputModule) => if has_consts {
                SynthesisAction::Run(SynthesisStep::LayoutParamModule)
            } else {
                SynthesisAction::Run(SynthesisStep::OpenModelRegion)
            },
            Some(SynthesisStep::LayoutParamModule) => SynthesisAction::Run(
                SynthesisStep::ReplaceConsts,
            ),
            Some(SynthesisStep::ReplaceConsts) => SynthesisAction::Run(
                SynthesisStep::OpenModelRegion,
            ),
            Some(SynthesisStep::OpenModelRegion) => SynthesisAction::Run(
                SynthesisStep::LayoutModel,
            ),
            Some(SynthesisStep::LayoutModel) => SynthesisAction::Run(
                SynthesisStep::LayoutOutputModule,
            ),
            Some(SynthesisStep::LayoutOutputModule) => SynthesisAction::Finish,
        }
    }
}

/// Decides what the assignment of a circuit's values does next: `done` is
/// the step that has just ended, or nothing at the start; `succeeded` says
/// whether it ended well; `has_consts` says whether the model has constants.
pub fn next_synthesis_step(done: Option<SynthesisStep>, succeeded: bool, has_consts: bool) -> (r:
    SynthesisAction)
    ensures
        r == action_after(done, succeeded, has_consts),
{
    if !succeeded {
        return SynthesisAction::Abort;
    }
    match done {
        None => SynthesisAction::Run(SynthesisStep::LayoutInputModule),
        Some(SynthesisStep::LayoutInputModule) => {
            if has_consts {
                SynthesisAction::Run(SynthesisStep::LayoutParamModule)
            } else {
                SynthesisAction::Run(SynthesisStep::OpenModelRegion)
            }
        },
        Some(SynthesisStep::LayoutParamModule) => {
            SynthesisAction::Run(SynthesisStep::ReplaceConsts)
        },
        Some(SynthesisStep::ReplaceConsts) => SynthesisAction::Run(SynthesisStep::OpenModelRegion),
        Some(SynthesisStep::OpenModelRegion) => SynthesisAction::Run(SynthesisStep::LayoutModel),
        Some(SynthesisStep::LayoutModel) => SynthesisAction::Run(SynthesisStep::LayoutOutputModule),
        Some(SynthesisStep::LayoutOutputModule) => SynthesisAction::Finish,
    }
}

/// A synthesis in which every step ends well runs the steps of
/// `synthesis_steps` in their order, each once, and then finishes; one in
/// which a step fails aborts at once.
pub proof fn lemma_synthesis_follows_steps(has_consts: bool)
    ensures
        ({
            let steps = synthesis_steps(has_consts);
            &&& action_after(None, true, has_consts) == SynthesisAction::Run(steps[0])
            &&& forall|i: int|
                0 <= i < steps.len() - 1 ==> action_after(
                    Some(#[trigger] steps[i]),
                    true,
                    has_consts,
                ) == SynthesisAction::Run(steps[i + 1])
            &&& action_after(Some(steps.last()), true, has_consts) == SynthesisAction::Finish
            &&& forall|done: Option<SynthesisStep>| #[trigger]
                action_after(done, false, has_consts) == SynthesisAction::Abort
        }),
{
    let steps = synthesis_steps(has_consts);
    assert forall|i: int| 0 <= i < steps.len() - 1 implies action_after(
        Some(#[trigger] steps[i]),
        true,
        has_consts,
    ) == SynthesisAction::Run(steps[i + 1]) by {
        if has_consts {
            if i == 0 {
            } else if i == 1 {
            } else if i == 2 {
            } else if i == 3 {
            } else {
                assert(i == 4);
            }
        } else {
            if i == 0 {
            } else if i == 1 {
            } else {
                assert(i == 2);
            }
        }
    }
}

/// A model without constants is synthesized without a step for its
/// parameters: neither the layout of their module nor their replacement is
/// among the steps.
pub proof fn lemma_no_consts_no_param_steps()
    ensures
        !synthesis_steps(false).contains(SynthesisStep::LayoutParamModule),
        !synthesis_steps(false).contains(SynthesisStep::ReplaceConsts),
        synthesis_steps(true).contains(SynthesisStep::LayoutParamModule),
        synthesis_steps(true).contains(SynthesisStep::ReplaceConsts),
{
    assert(synthesis_steps(true)[1] == SynthesisStep::LayoutParamModule);
    assert(synthesis_steps(true)[2] == SynthesisStep::ReplaceConsts);
}

/// The configuration of a circuit: that of the model and that of the
/// modules, each made on its own.
#[derive(Clone, Debug)]
pub struct GraphConfig<C, D> {
    model_config: C,
    module_configs: D,
}

impl<C, D> GraphConfig<C, D> {
    /// The configuration of the model.
    pub closed spec fn of_model(self) -> C {
        self.model_config
    }

    /// The configuration of the modules.
    pub closed spec fn of_modules(self) -> D {
        self.module_configs
    }

    /// Joins the configuration of the model and that of the modules.
    pub fn new(model_config: C, module_configs: D) -> (r: Self)
        ensures
            r.of_model() == model_config,
            r.of_modules() == module_configs,
    {
        GraphConfig { model_config, module_configs }
    }

    /// The configuration of the model.
    pub fn model_config(&self) -> (r: &C)
        ensures
            *r == self.of_model(),
    {
        &self.model_config
    }

    /// The configuration of the modules.
    pub fn module_configs(&self) -> (r: &D)
        ensures
            *r == self.of_modules(),
    {
        &self.module_configs
    }
}

} // verus!
