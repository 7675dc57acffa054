//! The emitter: it takes a compiled module and what was asked for, has the
//! destination checked, and then leads the caller through the run one step
//! at a time.
//!
//! The caller carries out each step on the file system and reports how it
//! went.  The first step that fails ends the run: no further step is handed
//! out, and what was written before stays where it is.
//!
//! For as long as a run lasts the output directory is its own.  Nothing
//! here keeps a second writer out: whoever starts two runs into one
//! directory at the same time answers for what comes of it.

use crate::error::{EmitError, EmitFailure};
use crate::guard::{check_destination, destination_failure, Destination};
use crate::layout::{
    contracts_steps, emission_plan, module_steps, path_of, plan_emission, step_path, steps_text,
    Step, StepText,
};
use crate::model::{CompiledModule, ContractText, ModuleText};
use crate::target::{CompilationTarget, TargetSet};
use vstd::prelude::*;

verus! {

/// A run in progress: the steps that make it up, how many of them have been
/// carried out, and the failure that ended it, if one did.
#[derive(Debug)]
pub struct Emission {
    output_dir: String,
    steps: Vec<Step>,
    position: usize,
    failure: Option<EmitError>,
}

/// What an [`Emission`] holds, as plain values.
pub struct EmissionText {
    /// The path of the output directory, as the user gave it.
    pub output_dir: Seq<char>,
    /// All the steps of the run, in order.
    pub plan: Seq<StepText>,
    /// How many steps have been carried out.
    pub position: nat,
    /// The failure that ended the run.
    pub failure: Option<EmitFailure>,
}

/// Where a run stands.  A run begins in `Validate` and goes through the
/// phases in the order in which they are listed here, leaving out those for
/// which there is nothing to do, until it is `Done`; from any phase but
/// `Done` it can fail, and then it stays `Failed`.
#[derive(Clone, Copy, Debug, PartialEq, Eq, Structural)]
pub enum Phase {
    /// The destination was accepted; the output directory is yet to be
    /// created.
    Validate,
    /// An artifact of the module itself is to be written.
    EmitModuleArtifacts,
    /// The directory of a contract is to be created, or one of its artifacts
    /// is to be written.
    EmitPerContractArtifacts,
    /// Every step has been carried out.
    Done,
    /// A step failed.
    Failed,
}

/// The phase to which `step` belongs.
pub open spec fn phase_of_step(step: StepText) -> Phase {
    match step {
        StepText::CreateDirectory { contract: None } => Phase::Validate,
        StepText::WriteArtifact { contract: None, .. } => Phase::EmitModuleArtifacts,
        _ => Phase::EmitPerContractArtifacts,
    }
}

/// The place of a phase in the order of the phases.
pub open spec fn rank(phase: Phase) -> int {
    match phase {
        Phase::Validate => 0,
        Phase::EmitModuleArtifacts => 1,
        Phase::EmitPerContractArtifacts => 2,
        Phase::Done => 3,
        Phase::Failed => 4,
    }
}

impl EmissionText {
    /// A run of `plan` of which nothing has been done yet.
    pub open spec fn start(output_dir: Seq<char>, plan: Seq<StepText>) -> EmissionText {
        EmissionText { output_dir, plan, position: 0, failure: None }
    }

    /// The step that is to be carried out now.  There is none once the run
    /// has failed or every step has been carried out.
    pub open spec fn pending(self) -> Option<StepText> {
        if self.failure is None && self.position < self.plan.len() {
            Some(self.plan[self.position as int])
        } else {
            None
        }
    }

    /// Where the run stands.
    pub open spec fn phase(self) -> Phase {
        if self.failure is Some {
            Phase::Failed
        } else {
            match self.pending() {
                Some(step) => phase_of_step(step),
                None => Phase::Done,
            }
        }
    }

    /// The steps that have been carried out.
    pub open spec fn performed(self) -> Seq<StepText> {
        self.plan.take(self.position as int)
    }

    /// The run after the pending step succeeded.
    pub open spec fn completed(self) -> EmissionText {
        if self.pending() is Some {
            EmissionText { position: self.position + 1, ..self }
        } else {
            self
        }
    }

    /// The run after the pending step failed with `cause`.
    pub open spec fn failed(self, cause: Seq<char>) -> EmissionText {
        match self.pending() {
            Some(step) => EmissionText {
                failure: Some(
                    EmitFailure::IoFailure { path: step_path(self.output_dir, step), cause },
                ),
                ..self
            },
            None => self,
        }
    }

    /// How the run ended, once it has ended.
    pub open spec fn outcome(self) -> Option<Result<(), EmitFailure>> {
        match self.failure {
            Some(failure) => Some(Err(failure)),
            None => if self.position < self.plan.len() {
                None
            } else {
                Some(Ok(()))
            },
        }
    }
}

/// The plain value of an optional error.
pub open spec fn optional_failure(error: Option<EmitError>) -> Option<EmitFailure> {
    match error {
        Some(error) => Some(error@),
        None => None,
    }
}

impl View for Emission {
    type V = EmissionText;

    closed spec fn view(&self) -> EmissionText {
        EmissionText {
            output_dir: self.output_dir@,
            plan: steps_text(self.steps@),
            position: self.position as nat,
            failure: optional_failure(self.failure),
        }
    }
}

impl Emission {
    /// The step that is to be carried out now, if the run has not ended.
    pub fn current(&self) -> (step: Option<&Step>)
        ensures
            match step {
                Some(step) => self@.pending() == Some(step@),
                None => self@.pending() is None,
            },
    {
        if self.failure.is_none() && self.position < self.steps.len() {
            Some(&self.steps[self.position])
        } else {
            None
        }
    }

    /// Where the run stands.
    pub fn phase(&self) -> (phase: Phase)
        ensures
            phase == self@.phase(),
    {
        if self.failure.is_some() {
            return Phase::Failed;
        }
        if self.position < self.steps.len() {
            match &self.steps[self.position] {
                Step::CreateDirectory { contract: None } => Phase::Validate,
                Step::WriteArtifact { contract: None, .. } => Phase::EmitModuleArtifacts,
                _ => Phase::EmitPerContractArtifacts,
            }
        } else {
            Phase::Done
        }
    }

    /// Records that the pending step was carried out, and moves on to the
    /// next.  A run that has ended stays as it is.
    pub fn completed(&mut self)
        ensures
            final(self)@ == old(self)@.completed(),
    {
        if self.failure.is_none() && self.position < self.steps.len() {
            self.position = self.position + 1;
        }
    }

    /// Records that the pending step failed with `cause`, which ends the
    /// run with [`EmitError::IoFailure`] for the place of that step.  A run
    /// that has ended stays as it is.
    pub fn failed(&mut self, cause: String)
        ensures
            final(self)@ == old(self)@.failed(cause@),
    {
        if self.failure.is_none() && self.position < self.steps.len() {
            let path = path_of(self.output_dir.as_str(), &self.steps[self.position]);
            self.failure = Some(EmitError::IoFailure { path, cause });
        }
    }

    /// How the run ended: the failure that broke it off, or success once
    /// every step has been carried out.  `None` while a step is pending.
    pub fn outcome(self) -> (outcome: Option<Result<(), EmitError>>)
        ensures
            match outcome {
                Some(Ok(())) => self@.outcome() == Some(Ok::<(), EmitFailure>(())),
                Some(Err(error)) => self@.outcome() == Some(Err::<(), EmitFailure>(error@)),
                None => self@.outcome() is None,
            },
    {
        let position = self.position;
        let count = self.steps.len();
        match self.failure {
            Some(error) => Some(Err(error)),
            None => if position < count {
                None
            } else {
                Some(Ok(()))
            },
        }
    }
}

/// Whether the compiler is asked for binary payloads: it is where they were
/// asked for.
pub fn with_bytecode(targets: &TargetSet) -> (wanted: bool)
    ensures
        wanted == targets@.contains(CompilationTarget::Bytecode),
{
    targets.contains(CompilationTarget::Bytecode)
}

/// The advisory that is due before compilation: binary payloads were asked
/// for and the backend that produces them is not there, so that none will be
/// written.
pub open spec fn advisory_due(targets: Set<CompilationTarget>, backend: bool) -> bool {
    targets.contains(CompilationTarget::Bytecode) && !backend
}

/// The advisory that is shown once, before compilation, where binary
/// payloads were asked for and the backend that produces them is not there.
/// The run goes on without them.
pub fn bytecode_advisory(targets: &TargetSet, backend: bool) -> (advisory: Option<&'static str>)
    ensures
        advisory is Some <==> advisory_due(targets@, backend),
        advisory is Some ==> advisory->0@
            == "Warning: bytecode output requires 'solc-backend' feature. Try `cargo build --release --features solc-backend`. Skipping."@,
{
    if targets.contains(CompilationTarget::Bytecode) && !backend {
        Some(
            "Warning: bytecode output requires 'solc-backend' feature. Try `cargo build --release --features solc-backend`. Skipping.",
        )
    } else {
        None
    }
}

/// The failure of a run whose source could not be read: an
/// [`EmitError::IoFailure`] for the source file, with the cause as it was
/// observed.
pub fn source_unreadable(src_file: &str, cause: String) -> (error: EmitError)
    ensures
        error@ == (EmitFailure::IoFailure { path: src_file@, cause: cause@ }),
{
    EmitError::IoFailure { path: src_file.to_owned(), cause }
}

/// Begins the emission of `module` into `output_dir`.
///
/// `destination` is what was observed of `output_dir`.  Where the
/// destination may not be written into, the answer is the reason and nothing
/// is to be done.  Otherwise it is the run, with every step still to do: the
/// output directory is created first, then come the artifacts of the module,
/// then one contract after the other, and of each only what `targets` asks
/// for.  A binary payload is written only where `backend` says that the
/// backend which produces payloads is there, and the contract has one.
pub fn write_compiled_module(
    module: CompiledModule,
    targets: &TargetSet,
    output_dir: &str,
    destination: &Destination,
    overwrite: bool,
    backend: bool,
) -> (result: Result<Emission, EmitError>)
    ensures
        match result {
            Ok(emission) => {
                &&& destination_failure(output_dir@, *destination, overwrite) is None
                &&& emission@ == EmissionText::start(
                    output_dir@,
                    emission_plan(module@, targets@, backend),
                )
            },
            Err(error) => destination_failure(output_dir@, *destination, overwrite) == Some(error@),
        },
{
    match check_destination(output_dir, destination, overwrite) {
        Err(error) => Err(error),
        Ok(()) => {
            let steps = plan_emission(&module, targets, backend);
            Ok(Emission { output_dir: output_dir.to_owned(), steps, position: 0, failure: None })
        },
    }
}

/// Takes what the compiler made of the source and begins the emission.
///
/// Where the compiler rejected the source, its message comes back as
/// [`EmitError::CompilationFailed`], as it is, and the destination is not
/// looked at.  Otherwise the module goes to [`write_compiled_module`].
pub fn compile_and_write(
    compiled: Result<CompiledModule, String>,
    targets: &TargetSet,
    output_dir: &str,
    destination: &Destination,
    overwrite: bool,
    backend: bool,
) -> (result: Result<Emission, EmitError>)
    ensures
        match compiled {
            Err(message) => result matches Err(error) && error@ == (EmitFailure::CompilationFailed {
                message: message@,
            }),
            Ok(module) => match result {
                Ok(emission) => {
                    &&& destination_failure(output_dir@, *destination, overwrite) is None
                    &&& emission@ == EmissionText::start(
                        output_dir@,
                        emission_plan(module@, targets@, backend),
                    )
                },
                Err(error) => destination_failure(output_dir@, *destination, overwrite) == Some(
                    error@,
                ),
            },
        },
{
    match compiled {
        Err(message) => Err(EmitError::CompilationFailed { message }),
        Ok(module) => write_compiled_module(
            module,
            targets,
            output_dir,
            destination,
            overwrite,
            backend,
        ),
    }
}

/// Every step that is done for contracts belongs to the phase of the
/// contracts.
proof fn lemma_contract_phase(
    contracts: Seq<(Seq<char>, ContractText)>,
    targets: Set<CompilationTarget>,
    backend: bool,
)
    ensures
        forall|k: int|
            0 <= k < contracts_steps(contracts, targets, backend).len() ==> phase_of_step(
                #[trigger] contracts_steps(contracts, targets, backend)[k],
            ) == Phase::EmitPerContractArtifacts,
    decreases contracts.len(),
{
    if contracts.len() > 0 {
        lemma_contract_phase(contracts.drop_last(), targets, backend);
    }
}

/// The steps of a run stand in the order of the phases: the first creates
/// the output directory, and no step belongs to an earlier phase than a step
/// before it.
pub proof fn lemma_plan_follows_phases(
    module: ModuleText,
    targets: Set<CompilationTarget>,
    backend: bool,
    earlier: int,
    later: int,
)
    requires
        0 <= earlier <= later < emission_plan(module, targets, backend).len(),
    ensures
        emission_plan(module, targets, backend)[0] == (StepText::CreateDirectory { contract: None }),
        rank(phase_of_step(emission_plan(module, targets, backend)[earlier])) <= rank(
            phase_of_step(emission_plan(module, targets, backend)[later]),
        ),
        rank(phase_of_step(emission_plan(module, targets, backend)[later])) <= 2,
{
    lemma_contract_phase(module.contracts, targets, backend);
    let head = seq![StepText::CreateDirectory { contract: None }] + module_steps(module, targets);
    let rest = contracts_steps(module.contracts, targets, backend);
    let plan = emission_plan(module, targets, backend);
    assert(plan == head + rest);
    if earlier >= head.len() {
        assert(plan[earlier] == rest[earlier - head.len()]);
    }
    if later >= head.len() {
        assert(plan[later] == rest[later - head.len()]);
    }
}

/// A run moves through the phases in their order and never back: after a
/// step succeeded the run is in the same phase or in a later one, after a
/// step failed it is `Failed`, and a run that is `Done` or `Failed` stays
/// what it is, whatever is reported to it.
pub proof fn lemma_phases_advance(
    run: EmissionText,
    module: ModuleText,
    targets: Set<CompilationTarget>,
    backend: bool,
    cause: Seq<char>,
)
    requires
        run.plan == emission_plan(module, targets, backend),
        run.position <= run.plan.len(),
    ensures
        rank(run.phase()) <= rank(run.completed().phase()),
        run.pending() is Some ==> run.failed(cause).phase() == Phase::Failed,
        run.pending() is None ==> run.completed() == run && run.failed(cause) == run,
        run.pending() is None <==> run.phase() == Phase::Done || run.phase() == Phase::Failed,
        EmissionText::start(run.output_dir, run.plan).phase() == Phase::Validate,
{
    lemma_plan_follows_phases(module, targets, backend, 0, 0);
    if run.pending() is Some {
        lemma_plan_follows_phases(module, targets, backend, run.position as int, run.position as int);
        if run.position + 1 < run.plan.len() {
            lemma_plan_follows_phases(
                module,
                targets,
                backend,
                run.position as int,
                run.position as int + 1,
            );
        }
    }
}

/// A run that succeeded has carried out every step of its plan, and a run
/// that failed has carried out the steps before the one that failed and no
/// other.  A run has an outcome exactly when no step is pending.
pub proof fn lemma_outcome_tells_what_was_done(run: EmissionText, cause: Seq<char>)
    requires
        run.position <= run.plan.len(),
    ensures
        run.outcome() == Some(Ok::<(), EmitFailure>(())) ==> run.performed() == run.plan,
        run.completed().performed() == if run.pending() is Some {
            run.performed().push(run.pending()->0)
        } else {
            run.performed()
        },
        run.failed(cause).performed() == run.performed(),
        run.failed(cause).pending() is None,
        run.pending() is None <==> run.outcome() is Some,
        run.pending() is Some ==> run.failed(cause).outcome() == Some(
            Err::<(), EmitFailure>(
                EmitFailure::IoFailure {
                    path: step_path(run.output_dir, run.pending()->0),
                    cause,
                },
            ),
        ),
{
    if run.outcome() == Some(Ok::<(), EmitFailure>(())) {
        assert(run.performed() =~= run.plan);
    }
    if run.pending() is Some {
        assert(run.completed().performed() =~= run.performed().push(run.pending()->0));
    }
}

} // verus!
