//! The layout of the output directory: what a run creates and writes there,
//! and in what order.
//!
//! Every place is given relative to the output directory: a file is either
//! directly in it or in the directory of one contract, which bears the
//! contract's name.

use crate::model::{optional_text, CompiledContract, CompiledModule, ContractText, ModuleText};
use crate::pretty::{laid_out, pretty_curly_print};
use crate::target::{CompilationTarget, TargetSet};
use vstd::prelude::*;

verus! {

/// The number of blanks by which the intermediate representation is
/// indented for each level of nesting when it is written.
pub const YUL_INDENT: usize = 4;

/// One thing that is done to the output directory.
#[derive(Clone, Debug, PartialEq, Eq)]
pub enum Step {
    /// Create a directory and every missing directory above it; one that
    /// exists already is left as it is.  Without a contract it is the output
    /// directory itself, with one it is the directory of that contract.
    CreateDirectory { contract: Option<String> },
    /// Write `body` to the file `file_name`, replacing what the file held.
    /// The file is in the directory of `contract`, or in the output directory
    /// itself where there is none.  `kind` says what the file holds.
    WriteArtifact { kind: CompilationTarget, contract: Option<String>, file_name: String, body: String },
}

/// What a [`Step`] holds, as plain text.
pub enum StepText {
    CreateDirectory { contract: Option<Seq<char>> },
    WriteArtifact {
        kind: CompilationTarget,
        contract: Option<Seq<char>>,
        file_name: Seq<char>,
        body: Seq<char>,
    },
}

impl View for Step {
    type V = StepText;

    open spec fn view(&self) -> StepText {
        match self {
            Step::CreateDirectory { contract } => StepText::CreateDirectory {
                contract: optional_text(*contract),
            },
            Step::WriteArtifact { kind, contract, file_name, body } => StepText::WriteArtifact {
                kind: *kind,
                contract: optional_text(*contract),
                file_name: file_name@,
                body: body@,
            },
        }
    }
}

/// The text of each of `steps`, in order.
pub open spec fn steps_text(steps: Seq<Step>) -> Seq<StepText> {
    steps.map_values(|step: Step| step@)
}

/// The file that holds the interface description of `contract`.
pub open spec fn abi_file_name(contract: Seq<char>) -> Seq<char> {
    contract + "_abi.json"@
}

/// The file that holds the intermediate representation of `contract`.
pub open spec fn yul_file_name(contract: Seq<char>) -> Seq<char> {
    contract + "_ir.yul"@
}

/// The file that holds the binary payload of `contract`.
pub open spec fn bytecode_file_name(contract: Seq<char>) -> Seq<char> {
    contract + ".bin"@
}

/// `step`, if `wanted`, and nothing otherwise.
pub open spec fn step_if(wanted: bool, step: StepText) -> Seq<StepText> {
    if wanted {
        seq![step]
    } else {
        Seq::empty()
    }
}

/// What is written for the module itself: its syntax tree and its token
/// stream, each where it was asked for.
pub open spec fn module_steps(module: ModuleText, targets: Set<CompilationTarget>) -> Seq<StepText> {
    step_if(
        targets.contains(CompilationTarget::Ast),
        StepText::WriteArtifact {
            kind: CompilationTarget::Ast,
            contract: None,
            file_name: "module.ast"@,
            body: module.fe_ast,
        },
    ) + step_if(
        targets.contains(CompilationTarget::Tokens),
        StepText::WriteArtifact {
            kind: CompilationTarget::Tokens,
            contract: None,
            file_name: "module.tokens"@,
            body: module.fe_tokens,
        },
    )
}

/// Whether the binary payload of `contract` is written: it was asked for,
/// the backend that produces payloads is there, and the contract has one.
pub open spec fn emits_bytecode(
    contract: ContractText,
    targets: Set<CompilationTarget>,
    backend: bool,
) -> bool {
    targets.contains(CompilationTarget::Bytecode) && backend && contract.bytecode is Some
}

/// What is done for one contract: its directory is created, then its
/// interface description, its intermediate representation and its binary
/// payload are written there, the first two where they were asked for and
/// the last where [`emits_bytecode`] says so.  The interface description and
/// the payload are written as the contract holds them; the intermediate
/// representation is written laid out by its braces, with [`YUL_INDENT`]
/// blanks for each level.
pub open spec fn contract_steps(
    name: Seq<char>,
    contract: ContractText,
    targets: Set<CompilationTarget>,
    backend: bool,
) -> Seq<StepText> {
    seq![StepText::CreateDirectory { contract: Some(name) }] + step_if(
        targets.contains(CompilationTarget::Abi),
        StepText::WriteArtifact {
            kind: CompilationTarget::Abi,
            contract: Some(name),
            file_name: abi_file_name(name),
            body: contract.json_abi,
        },
    ) + step_if(
        targets.contains(CompilationTarget::Yul),
        StepText::WriteArtifact {
            kind: CompilationTarget::Yul,
            contract: Some(name),
            file_name: yul_file_name(name),
            body: laid_out(contract.yul, YUL_INDENT as nat, 0),
        },
    ) + step_if(
        emits_bytecode(contract, targets, backend),
        StepText::WriteArtifact {
            kind: CompilationTarget::Bytecode,
            contract: Some(name),
            file_name: bytecode_file_name(name),
            body: contract.bytecode->0,
        },
    )
}

/// What is done for `contracts`, one after the other.
pub open spec fn contracts_steps(
    contracts: Seq<(Seq<char>, ContractText)>,
    targets: Set<CompilationTarget>,
    backend: bool,
) -> Seq<StepText>
    decreases contracts.len(),
{
    if contracts.len() == 0 {
        Seq::empty()
    } else {
        contracts_steps(contracts.drop_last(), targets, backend) + contract_steps(
            contracts.last().0,
            contracts.last().1,
            targets,
            backend,
        )
    }
}

/// Everything that a run does to the output directory, in order: the
/// directory itself is created, the artifacts of the module are written, and
/// then each contract is dealt with in turn.
pub open spec fn emission_plan(
    module: ModuleText,
    targets: Set<CompilationTarget>,
    backend: bool,
) -> Seq<StepText> {
    seq![StepText::CreateDirectory { contract: None }] + module_steps(module, targets)
        + contracts_steps(module.contracts, targets, backend)
}

/// `name` with `suffix` behind it.
fn with_suffix(name: &String, suffix: &str) -> (file_name: String)
    ensures
        file_name@ == name@ + suffix@,
{
    let mut file_name = name.clone();
    file_name.append(suffix);
    file_name
}

/// Adds to `steps` what is done for the contract `name`.
fn push_contract_steps(
    steps: &mut Vec<Step>,
    name: &String,
    contract: &CompiledContract,
    targets: &TargetSet,
    backend: bool,
)
    ensures
        steps_text(final(steps)@) == steps_text(old(steps)@) + contract_steps(
            name@,
            contract@,
            targets@,
            backend,
        ),
{
    let ghost before = steps_text(steps@);
    steps.push(Step::CreateDirectory { contract: Some(name.clone()) });
    if targets.contains(CompilationTarget::Abi) {
        steps.push(
            Step::WriteArtifact {
                kind: CompilationTarget::Abi,
                contract: Some(name.clone()),
                file_name: with_suffix(name, "_abi.json"),
                body: contract.json_abi.clone(),
            },
        );
    }
    if targets.contains(CompilationTarget::Yul) {
        steps.push(
            Step::WriteArtifact {
                kind: CompilationTarget::Yul,
                contract: Some(name.clone()),
                file_name: with_suffix(name, "_ir.yul"),
                body: pretty_curly_print(contract.yul.as_str(), YUL_INDENT),
            },
        );
    }
    if targets.contains(CompilationTarget::Bytecode) && backend {
        match &contract.bytecode {
            Some(payload) => {
                steps.push(
                    Step::WriteArtifact {
                        kind: CompilationTarget::Bytecode,
                        contract: Some(name.clone()),
                        file_name: with_suffix(name, ".bin"),
                        body: payload.clone(),
                    },
                );
            },
            None => {},
        }
    }
    assert(steps_text(steps@) =~= before + contract_steps(name@, contract@, targets@, backend));
}

/// Lays out a run: everything that is to be done to the output directory,
/// in the order in which it is to be done.
pub fn plan_emission(module: &CompiledModule, targets: &TargetSet, backend: bool) -> (steps: Vec<
    Step,
>)
    ensures
        steps_text(steps@) == emission_plan(module@, targets@, backend),
{
    let mut steps: Vec<Step> = Vec::new();
    steps.push(Step::CreateDirectory { contract: None });
    if targets.contains(CompilationTarget::Ast) {
        steps.push(
            Step::WriteArtifact {
                kind: CompilationTarget::Ast,
                contract: None,
                file_name: "module.ast".to_owned(),
                body: module.fe_ast().clone(),
            },
        );
    }
    if targets.contains(CompilationTarget::Tokens) {
        steps.push(
            Step::WriteArtifact {
                kind: CompilationTarget::Tokens,
                contract: None,
                file_name: "module.tokens".to_owned(),
                body: module.fe_tokens().clone(),
            },
        );
    }
    let ghost head = seq![StepText::CreateDirectory { contract: None }] + module_steps(
        module@,
        targets@,
    );
    assert(steps_text(steps@) =~= head);
    let count = module.contract_count();
    let mut index: usize = 0;
    while index < count
        invariant
            index <= count,
            count == module@.contracts.len(),
            steps_text(steps@) == head + contracts_steps(
                module@.contracts.take(index as int),
                targets@,
                backend,
            ),
        decreases count - index,
    {
        let ghost done = module@.contracts.take(index as int);
        let ghost next = module@.contracts.take(index + 1);
        assert(next.drop_last() =~= done);
        assert(next.last() == module@.contracts[index as int]);
        match module.contract_at(index) {
            Some((name, contract)) => push_contract_steps(
                &mut steps,
                name,
                contract,
                targets,
                backend,
            ),
            None => {},
        }
        assert(steps_text(steps@) =~= head + contracts_steps(next, targets@, backend));
        index += 1;
    }
    assert(module@.contracts.take(index as int) =~= module@.contracts);
    steps
}

/// The path of the place that `step` creates or writes, as it is shown to
/// the user: the output directory, the contract's directory where there is
/// one, and the file where there is one, with `/` between them.
pub open spec fn step_path(output_dir: Seq<char>, step: StepText) -> Seq<char> {
    match step {
        StepText::CreateDirectory { contract: None } => output_dir,
        StepText::CreateDirectory { contract: Some(name) } => output_dir + "/"@ + name,
        StepText::WriteArtifact { contract: None, file_name, .. } => output_dir + "/"@ + file_name,
        StepText::WriteArtifact { contract: Some(name), file_name, .. } => output_dir + "/"@ + name
            + "/"@ + file_name,
    }
}

/// The path of the place that `step` creates or writes, as it is shown to
/// the user.  It is text for messages: whoever carries a step out joins the
/// output directory, the contract's directory and the file by the rules of
/// the platform.
pub fn path_of(output_dir: &str, step: &Step) -> (path: String)
    ensures
        path@ == step_path(output_dir@, step@),
{
    let mut path = output_dir.to_owned();
    match step {
        Step::CreateDirectory { contract: None } => {},
        Step::CreateDirectory { contract: Some(name) } => {
            path.append("/");
            path.append(name.as_str());
        },
        Step::WriteArtifact { contract: None, file_name, .. } => {
            path.append("/");
            path.append(file_name.as_str());
        },
        Step::WriteArtifact { contract: Some(name), file_name, .. } => {
            path.append("/");
            path.append(name.as_str());
            path.append("/");
            path.append(file_name.as_str());
        },
    }
    path
}

/// The kind of artifact that `step` writes, if it writes one.
pub open spec fn written_kind(step: StepText) -> Option<CompilationTarget> {
    match step {
        StepText::CreateDirectory { .. } => None,
        StepText::WriteArtifact { kind, .. } => Some(kind),
    }
}

proof fn lemma_contracts_write_what_was_asked(
    contracts: Seq<(Seq<char>, ContractText)>,
    targets: Set<CompilationTarget>,
    backend: bool,
)
    ensures
        forall|k: int|
            0 <= k < contracts_steps(contracts, targets, backend).len() ==> match written_kind(
                #[trigger] contracts_steps(contracts, targets, backend)[k],
            ) {
                Some(kind) => targets.contains(kind) && (kind == CompilationTarget::Bytecode
                    ==> backend),
                None => true,
            },
    decreases contracts.len(),
{
    if contracts.len() > 0 {
        lemma_contracts_write_what_was_asked(contracts.drop_last(), targets, backend);
    }
}

/// A run writes only what was asked for: whatever step of it writes an
/// artifact, the kind of that artifact is among the kinds that were asked
/// for, and a binary payload is written only where the backend that
/// produces payloads is there.
pub proof fn lemma_only_what_was_asked_is_written(
    module: ModuleText,
    targets: Set<CompilationTarget>,
    backend: bool,
    at: int,
)
    requires
        0 <= at < emission_plan(module, targets, backend).len(),
    ensures
        match written_kind(emission_plan(module, targets, backend)[at]) {
            Some(kind) => targets.contains(kind) && (kind == CompilationTarget::Bytecode
                ==> backend),
            None => true,
        },
{
    lemma_contracts_write_what_was_asked(module.contracts, targets, backend);
    let head = seq![StepText::CreateDirectory { contract: None }] + module_steps(module, targets);
    let rest = contracts_steps(module.contracts, targets, backend);
    if at >= head.len() {
        assert(emission_plan(module, targets, backend)[at] == rest[at - head.len()]);
    }
}

} // verus!
