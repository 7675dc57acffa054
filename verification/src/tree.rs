//! What a run leaves in the output directory.
//!
//! The directory is taken as a plain value: the files in it, each at its
//! place with its contents, and the directories.  On that value the steps of
//! a run can be followed, and it can be said exactly which files a run leaves
//! behind, with what contents, and that it leaves every other file alone.

use crate::guard::{destination_failure, Destination};
use crate::layout::{
    abi_file_name, bytecode_file_name, contract_steps, contracts_steps, emission_plan,
    emits_bytecode, module_steps, step_if, yul_file_name, StepText, YUL_INDENT,
};
use crate::model::{distinct_names, ContractText, ModuleText};
use crate::pretty::laid_out;
use crate::target::CompilationTarget;
use vstd::prelude::*;

verus! {

/// The place of a file under the output directory: in the directory of a
/// contract, or in the output directory itself where `contract` is `None`.
pub struct Place {
    pub contract: Option<Seq<char>>,
    pub file_name: Seq<char>,
}

/// The output directory: its files with their contents, and the directories
/// in it, each named by its contract.  `None` among the directories is the
/// output directory itself.
pub struct Tree {
    pub files: Map<Place, Seq<char>>,
    pub directories: Set<Option<Seq<char>>>,
}

/// The tree after `step` was carried out on it.  Creating a directory that
/// is there changes nothing; writing a file puts the body in place of
/// whatever the file held.
pub open spec fn after_step(tree: Tree, step: StepText) -> Tree {
    match step {
        StepText::CreateDirectory { contract } => Tree {
            directories: tree.directories.insert(contract),
            ..tree
        },
        StepText::WriteArtifact { contract, file_name, body, .. } => Tree {
            files: tree.files.insert(Place { contract, file_name }, body),
            ..tree
        },
    }
}

/// The tree after `steps` were carried out on it, one after the other.
pub open spec fn after_steps(tree: Tree, steps: Seq<StepText>) -> Tree
    decreases steps.len(),
{
    if steps.len() == 0 {
        tree
    } else {
        after_step(after_steps(tree, steps.drop_last()), steps.last())
    }
}

/// What the artifacts of the module put at `place`, if they put anything
/// there.
pub open spec fn module_writes(
    module: ModuleText,
    targets: Set<CompilationTarget>,
    place: Place,
) -> Option<Seq<char>> {
    if place.contract is Some {
        None
    } else if place.file_name == "module.ast"@ && targets.contains(CompilationTarget::Ast) {
        Some(module.fe_ast)
    } else if place.file_name == "module.tokens"@ && targets.contains(CompilationTarget::Tokens) {
        Some(module.fe_tokens)
    } else {
        None
    }
}

/// What the artifacts of the contract `name` put at `place`, if they put
/// anything there: the interface description and the payload as the
/// contract holds them, the intermediate representation laid out by its
/// braces.
pub open spec fn contract_writes(
    name: Seq<char>,
    contract: ContractText,
    targets: Set<CompilationTarget>,
    backend: bool,
    place: Place,
) -> Option<Seq<char>> {
    if place.contract != Some(name) {
        None
    } else if place.file_name == abi_file_name(name) && targets.contains(CompilationTarget::Abi) {
        Some(contract.json_abi)
    } else if place.file_name == yul_file_name(name) && targets.contains(CompilationTarget::Yul) {
        Some(laid_out(contract.yul, YUL_INDENT as nat, 0))
    } else if place.file_name == bytecode_file_name(name) && emits_bytecode(
        contract,
        targets,
        backend,
    ) {
        Some(contract.bytecode->0)
    } else {
        None
    }
}

/// What the artifacts of the contract at `index` put at `place`.
pub open spec fn writes_of(
    module: ModuleText,
    index: int,
    targets: Set<CompilationTarget>,
    backend: bool,
    place: Place,
) -> Option<Seq<char>> {
    contract_writes(
        module.contracts[index].0,
        module.contracts[index].1,
        targets,
        backend,
        place,
    )
}

/// The file at `place` is in `after` what it was in `before`: there with the
/// same contents, or not there.
pub open spec fn same_at(before: Tree, after: Tree, place: Place) -> bool {
    &&& after.files.contains_key(place) == before.files.contains_key(place)
    &&& after.files[place] == before.files[place]
}

/// The file at `place` is there and holds `body`.
pub open spec fn holds(tree: Tree, place: Place, body: Seq<char>) -> bool {
    tree.files.contains_key(place) && tree.files[place] == body
}

/// The file at `place` holds `written` where something was written, and is
/// what it was in `before` where nothing was.
pub open spec fn settled(before: Tree, after: Tree, place: Place, written: Option<Seq<char>>) -> bool {
    match written {
        Some(body) => holds(after, place, body),
        None => same_at(before, after, place),
    }
}

/// The directories of `contracts`, one for each, by the contract's name.
pub open spec fn contract_directories(contracts: Seq<(Seq<char>, ContractText)>) -> Set<
    Option<Seq<char>>,
> {
    Set::new(
        |directory: Option<Seq<char>>|
            exists|i: int|
                0 <= i < contracts.len() && directory == Some((#[trigger] contracts[i]).0),
    )
}

/// What the contracts, taken in order, put at `place`: where several write
/// there, the last of them.
spec fn last_write(
    contracts: Seq<(Seq<char>, ContractText)>,
    targets: Set<CompilationTarget>,
    backend: bool,
    place: Place,
) -> Option<Seq<char>>
    decreases contracts.len(),
{
    if contracts.len() == 0 {
        None
    } else {
        match contract_writes(contracts.last().0, contracts.last().1, targets, backend, place) {
            Some(body) => Some(body),
            None => last_write(contracts.drop_last(), targets, backend, place),
        }
    }
}

/// Carrying out one list of steps and then another is carrying out the two
/// lists joined.
pub proof fn lemma_steps_in_sequence(tree: Tree, first: Seq<StepText>, second: Seq<StepText>)
    ensures
        after_steps(tree, first + second) == after_steps(after_steps(tree, first), second),
    decreases second.len(),
{
    if second.len() == 0 {
        assert(first + second =~= first);
    } else {
        assert((first + second).drop_last() =~= first + second.drop_last());
        assert((first + second).last() == second.last());
        lemma_steps_in_sequence(tree, first, second.drop_last());
    }
}

/// No step takes anything away: every file and every directory that was
/// there before the steps is there after them.
pub proof fn lemma_nothing_is_removed(tree: Tree, steps: Seq<StepText>)
    ensures
        forall|place: Place| #[trigger]
            tree.files.contains_key(place) ==> after_steps(tree, steps).files.contains_key(place),
        tree.directories.subset_of(after_steps(tree, steps).directories),
    decreases steps.len(),
{
    if steps.len() > 0 {
        lemma_nothing_is_removed(tree, steps.drop_last());
    }
}

proof fn lemma_one_step(tree: Tree, wanted: bool, step: StepText)
    ensures
        after_steps(tree, step_if(wanted, step)) == if wanted {
            after_step(tree, step)
        } else {
            tree
        },
{
    if wanted {
        assert(step_if(wanted, step).drop_last() =~= Seq::<StepText>::empty());
        assert(after_steps(tree, step_if(wanted, step).drop_last()) == tree);
    }
}

proof fn lemma_file_names_differ(name: Seq<char>)
    ensures
        abi_file_name(name) != yul_file_name(name),
        abi_file_name(name) != bytecode_file_name(name),
        yul_file_name(name) != bytecode_file_name(name),
        "module.ast"@ != "module.tokens"@,
{
    reveal_strlit("_abi.json");
    reveal_strlit("_ir.yul");
    reveal_strlit(".bin");
    reveal_strlit("module.ast");
    reveal_strlit("module.tokens");
    assert(abi_file_name(name).len() == name.len() + 9);
    assert(yul_file_name(name).len() == name.len() + 7);
    assert(bytecode_file_name(name).len() == name.len() + 4);
    assert("module.ast"@.len() == 10);
    assert("module.tokens"@.len() == 13);
}

/// What the steps of one contract leave at `place`.
proof fn lemma_contract_effect(
    tree: Tree,
    name: Seq<char>,
    contract: ContractText,
    targets: Set<CompilationTarget>,
    backend: bool,
    place: Place,
)
    ensures
        settled(
            tree,
            after_steps(tree, contract_steps(name, contract, targets, backend)),
            place,
            contract_writes(name, contract, targets, backend, place),
        ),
        after_steps(tree, contract_steps(name, contract, targets, backend)).directories
            == tree.directories.insert(Some(name)),
{
    lemma_file_names_differ(name);
    let create = seq![StepText::CreateDirectory { contract: Some(name) }];
    let abi = StepText::WriteArtifact {
        kind: CompilationTarget::Abi,
        contract: Some(name),
        file_name: abi_file_name(name),
        body: contract.json_abi,
    };
    let yul = StepText::WriteArtifact {
        kind: CompilationTarget::Yul,
        contract: Some(name),
        file_name: yul_file_name(name),
        body: laid_out(contract.yul, YUL_INDENT as nat, 0),
    };
    let bytecode = StepText::WriteArtifact {
        kind: CompilationTarget::Bytecode,
        contract: Some(name),
        file_name: bytecode_file_name(name),
        body: contract.bytecode->0,
    };
    let with_abi = step_if(targets.contains(CompilationTarget::Abi), abi);
    let with_yul = step_if(targets.contains(CompilationTarget::Yul), yul);
    let with_bytecode = step_if(emits_bytecode(contract, targets, backend), bytecode);
    let created = after_steps(tree, create);
    assert(create.drop_last() =~= Seq::<StepText>::empty());
    assert(after_steps(tree, create.drop_last()) == tree);
    assert(created == after_step(tree, create[0]));
    lemma_steps_in_sequence(tree, create, with_abi);
    lemma_steps_in_sequence(tree, create + with_abi, with_yul);
    lemma_steps_in_sequence(tree, create + with_abi + with_yul, with_bytecode);
    lemma_one_step(created, targets.contains(CompilationTarget::Abi), abi);
    let one = after_steps(created, with_abi);
    lemma_one_step(one, targets.contains(CompilationTarget::Yul), yul);
    let two = after_steps(one, with_yul);
    lemma_one_step(two, emits_bytecode(contract, targets, backend), bytecode);
}

/// What the steps of the module itself, with the output directory created
/// before them, leave at `place`.
proof fn lemma_module_effect(
    tree: Tree,
    module: ModuleText,
    targets: Set<CompilationTarget>,
    place: Place,
)
    ensures
        settled(
            tree,
            after_steps(
                tree,
                seq![StepText::CreateDirectory { contract: None }] + module_steps(module, targets),
            ),
            place,
            module_writes(module, targets, place),
        ),
        after_steps(
            tree,
            seq![StepText::CreateDirectory { contract: None }] + module_steps(module, targets),
        ).directories == tree.directories.insert(None),
{
    lemma_file_names_differ(Seq::empty());
    let create = seq![StepText::CreateDirectory { contract: None }];
    let ast = StepText::WriteArtifact {
        kind: CompilationTarget::Ast,
        contract: None,
        file_name: "module.ast"@,
        body: module.fe_ast,
    };
    let tokens = StepText::WriteArtifact {
        kind: CompilationTarget::Tokens,
        contract: None,
        file_name: "module.tokens"@,
        body: module.fe_tokens,
    };
    let with_ast = step_if(targets.contains(CompilationTarget::Ast), ast);
    let with_tokens = step_if(targets.contains(CompilationTarget::Tokens), tokens);
    let created = after_steps(tree, create);
    assert(create.drop_last() =~= Seq::<StepText>::empty());
    assert(after_steps(tree, create.drop_last()) == tree);
    assert(created == after_step(tree, create[0]));
    assert(create + module_steps(module, targets) =~= create + with_ast + with_tokens);
    lemma_steps_in_sequence(tree, create, with_ast);
    lemma_steps_in_sequence(tree, create + with_ast, with_tokens);
    lemma_one_step(created, targets.contains(CompilationTarget::Ast), ast);
    let one = after_steps(created, with_ast);
    lemma_one_step(one, targets.contains(CompilationTarget::Tokens), tokens);
}

/// The directories of some contracts are those of all but the last, and
/// that of the last.
proof fn lemma_directories_grow(contracts: Seq<(Seq<char>, ContractText)>)
    requires
        contracts.len() > 0,
    ensures
        contract_directories(contracts) == contract_directories(contracts.drop_last()).insert(
            Some(contracts.last().0),
        ),
{
    let earlier = contracts.drop_last();
    let grown = contract_directories(earlier).insert(Some(contracts.last().0));
    assert forall|directory: Option<Seq<char>>|
        contract_directories(contracts).contains(directory) == grown.contains(directory) by {
        if contract_directories(contracts).contains(directory) {
            let i = choose|i: int|
                0 <= i < contracts.len() && directory == Some((#[trigger] contracts[i]).0);
            if i < earlier.len() {
                assert(earlier[i] == contracts[i]);
            }
        }
        if contract_directories(earlier).contains(directory) {
            let i = choose|i: int|
                0 <= i < earlier.len() && directory == Some((#[trigger] earlier[i]).0);
            assert(contracts[i] == earlier[i]);
        }
        if directory == Some(contracts.last().0) {
            assert(contracts[contracts.len() - 1] == contracts.last());
        }
    }
    assert(contract_directories(contracts) =~= grown);
}

/// What the steps of all the contracts leave at `place`, and which
/// directories they add.
proof fn lemma_contracts_effect(
    tree: Tree,
    contracts: Seq<(Seq<char>, ContractText)>,
    targets: Set<CompilationTarget>,
    backend: bool,
    place: Place,
)
    ensures
        settled(
            tree,
            after_steps(tree, contracts_steps(contracts, targets, backend)),
            place,
            last_write(contracts, targets, backend, place),
        ),
        after_steps(tree, contracts_steps(contracts, targets, backend)).directories
            == tree.directories.union(contract_directories(contracts)),
    decreases contracts.len(),
{
    if contracts.len() > 0 {
        let earlier = contracts.drop_last();
        let name = contracts.last().0;
        let contract = contracts.last().1;
        let middle = after_steps(tree, contracts_steps(earlier, targets, backend));
        let after = after_steps(tree, contracts_steps(contracts, targets, backend));
        lemma_contracts_effect(tree, earlier, targets, backend, place);
        lemma_steps_in_sequence(
            tree,
            contracts_steps(earlier, targets, backend),
            contract_steps(name, contract, targets, backend),
        );
        lemma_contract_effect(middle, name, contract, targets, backend, place);
        lemma_directories_grow(contracts);
        assert(after.directories =~= tree.directories.union(contract_directories(contracts)));
    } else {
        assert(contract_directories(contracts) =~= Set::empty());
        assert(tree.directories.union(contract_directories(contracts)) =~= tree.directories);
    }
}

/// Where no two contracts share a name, what the contracts leave at a place
/// is what the one contract wrote that writes there.
proof fn lemma_one_writer(
    contracts: Seq<(Seq<char>, ContractText)>,
    targets: Set<CompilationTarget>,
    backend: bool,
    place: Place,
    index: int,
)
    requires
        distinct_names(contracts),
        0 <= index < contracts.len(),
        contract_writes(contracts[index].0, contracts[index].1, targets, backend, place) is Some,
    ensures
        last_write(contracts, targets, backend, place) == contract_writes(
            contracts[index].0,
            contracts[index].1,
            targets,
            backend,
            place,
        ),
    decreases contracts.len(),
{
    let last = contracts.len() - 1;
    if index < last {
        assert(contracts[index].0 != contracts[last].0);
        let earlier = contracts.drop_last();
        assert(earlier[index] == contracts[index]);
        assert forall|i: int, j: int| 0 <= i < j < earlier.len() implies (#[trigger] earlier[i]).0
            != (#[trigger] earlier[j]).0 by {
            assert(earlier[i] == contracts[i] && earlier[j] == contracts[j]);
        }
        lemma_one_writer(earlier, targets, backend, place, index);
    }
}

/// Where no contract writes at a place, the contracts leave nothing there.
proof fn lemma_no_writer(
    contracts: Seq<(Seq<char>, ContractText)>,
    targets: Set<CompilationTarget>,
    backend: bool,
    place: Place,
)
    requires
        forall|i: int|
            0 <= i < contracts.len() ==> contract_writes(
                (#[trigger] contracts[i]).0,
                contracts[i].1,
                targets,
                backend,
                place,
            ) is None,
    ensures
        last_write(contracts, targets, backend, place) is None,
    decreases contracts.len(),
{
    if contracts.len() > 0 {
        let earlier = contracts.drop_last();
        assert(contracts[contracts.len() - 1] == contracts.last());
        assert forall|i: int| 0 <= i < earlier.len() implies contract_writes(
            (#[trigger] earlier[i]).0,
            earlier[i].1,
            targets,
            backend,
            place,
        ) is None by {
            assert(earlier[i] == contracts[i]);
        }
        lemma_no_writer(earlier, targets, backend, place);
    }
}

/// What a run leaves in the output directory, whatever was there before.
///
/// Of a module in which no two contracts share a name, and of any place:
/// where an artifact of the module or of one of its contracts belongs at the
/// place, the file is there after the run and holds that artifact's body;
/// where none does, the file is as it was before the run, there with its old
/// contents or not there.  The directories after the run are those from
/// before, the output directory itself, and one for each contract.
pub proof fn lemma_emitted_tree(
    tree: Tree,
    module: ModuleText,
    targets: Set<CompilationTarget>,
    backend: bool,
    place: Place,
)
    requires
        distinct_names(module.contracts),
    ensures
        ({
            let after = after_steps(tree, emission_plan(module, targets, backend));
            &&& module_writes(module, targets, place) matches Some(body) ==> holds(
                after,
                place,
                body,
            )
            &&& forall|i: int|
                0 <= i < module.contracts.len() && (#[trigger] writes_of(
                    module,
                    i,
                    targets,
                    backend,
                    place,
                )) is Some ==> holds(after, place, writes_of(module, i, targets, backend, place)->0)
            &&& (module_writes(module, targets, place) is None && forall|i: int|
                0 <= i < module.contracts.len() ==> (#[trigger] writes_of(
                    module,
                    i,
                    targets,
                    backend,
                    place,
                )) is None) ==> same_at(tree, after, place)
            &&& after.directories == tree.directories.insert(None).union(
                contract_directories(module.contracts),
            )
        }),
{
    let head = seq![StepText::CreateDirectory { contract: None }] + module_steps(module, targets);
    let middle = after_steps(tree, head);
    let rest = contracts_steps(module.contracts, targets, backend);
    let after = after_steps(tree, emission_plan(module, targets, backend));
    lemma_steps_in_sequence(tree, head, rest);
    lemma_module_effect(tree, module, targets, place);
    lemma_contracts_effect(middle, module.contracts, targets, backend, place);
    assert forall|i: int|
        0 <= i < module.contracts.len() && (#[trigger] writes_of(
            module,
            i,
            targets,
            backend,
            place,
        )) is Some implies holds(after, place, writes_of(module, i, targets, backend, place)->0) by {
        lemma_one_writer(module.contracts, targets, backend, place, i);
    }
    if forall|i: int|
        0 <= i < module.contracts.len() ==> (#[trigger] writes_of(
            module,
            i,
            targets,
            backend,
            place,
        )) is None {
        assert forall|i: int| 0 <= i < module.contracts.len() implies contract_writes(
            (#[trigger] module.contracts[i]).0,
            module.contracts[i].1,
            targets,
            backend,
            place,
        ) is None by {
            assert(writes_of(module, i, targets, backend, place) is None);
        }
        lemma_no_writer(module.contracts, targets, backend, place);
    }
    if module_writes(module, targets, place) is Some {
        assert forall|i: int| 0 <= i < module.contracts.len() implies contract_writes(
            (#[trigger] module.contracts[i]).0,
            module.contracts[i].1,
            targets,
            backend,
            place,
        ) is None by {}
        lemma_no_writer(module.contracts, targets, backend, place);
    }
}

/// The place of the file that `step` writes, if it writes one.
pub open spec fn written_place(step: StepText) -> Option<Place> {
    match step {
        StepText::CreateDirectory { .. } => None,
        StepText::WriteArtifact { contract, file_name, .. } => Some(Place { contract, file_name }),
    }
}

/// Steps of which none writes at `place` leave the file there as it was.
pub proof fn lemma_unwritten_place_is_kept(tree: Tree, steps: Seq<StepText>, place: Place)
    requires
        forall|k: int| 0 <= k < steps.len() ==> written_place(#[trigger] steps[k]) != Some(place),
    ensures
        same_at(tree, after_steps(tree, steps), place),
    decreases steps.len(),
{
    if steps.len() > 0 {
        let earlier = steps.drop_last();
        assert forall|k: int| 0 <= k < earlier.len() implies written_place(#[trigger] earlier[k])
            != Some(place) by {
            assert(earlier[k] == steps[k]);
        }
        lemma_unwritten_place_is_kept(tree, earlier, place);
        assert(steps.last() == steps[steps.len() - 1]);
    }
}

/// A step of the contracts that writes at `place` is a step of a contract
/// of which an artifact belongs there.
proof fn lemma_contracts_write_at_their_places(
    contracts: Seq<(Seq<char>, ContractText)>,
    targets: Set<CompilationTarget>,
    backend: bool,
    place: Place,
    at: int,
)
    requires
        0 <= at < contracts_steps(contracts, targets, backend).len(),
        written_place(contracts_steps(contracts, targets, backend)[at]) == Some(place),
    ensures
        exists|i: int|
            0 <= i < contracts.len() && contract_writes(
                (#[trigger] contracts[i]).0,
                contracts[i].1,
                targets,
                backend,
                place,
            ) is Some,
    decreases contracts.len(),
{
    if contracts.len() > 0 {
        let earlier = contracts.drop_last();
        let before = contracts_steps(earlier, targets, backend);
        let last = contracts.len() - 1;
        if at < before.len() {
            lemma_contracts_write_at_their_places(earlier, targets, backend, place, at);
            let i = choose|i: int|
                0 <= i < earlier.len() && contract_writes(
                    (#[trigger] earlier[i]).0,
                    earlier[i].1,
                    targets,
                    backend,
                    place,
                ) is Some;
            assert(contracts[i] == earlier[i]);
        } else {
            let own = contract_steps(contracts.last().0, contracts.last().1, targets, backend);
            assert(contracts_steps(contracts, targets, backend)[at] == own[at - before.len()]);
            assert(contracts[last] == contracts.last());
            assert(contract_writes(
                contracts[last].0,
                contracts[last].1,
                targets,
                backend,
                place,
            ) is Some);
        }
    }
}

/// A run writes nowhere but where its artifacts belong: whatever step of it
/// writes a file, an artifact of the module or of one of its contracts
/// belongs at the place of that file.
pub proof fn lemma_plan_writes_only_its_places(
    module: ModuleText,
    targets: Set<CompilationTarget>,
    backend: bool,
    at: int,
    place: Place,
)
    requires
        0 <= at < emission_plan(module, targets, backend).len(),
        written_place(emission_plan(module, targets, backend)[at]) == Some(place),
    ensures
        module_writes(module, targets, place) is Some || exists|i: int|
            0 <= i < module.contracts.len() && (#[trigger] writes_of(
                module,
                i,
                targets,
                backend,
                place,
            )) is Some,
{
    let head = seq![StepText::CreateDirectory { contract: None }] + module_steps(module, targets);
    let rest = contracts_steps(module.contracts, targets, backend);
    if at >= head.len() {
        assert(emission_plan(module, targets, backend)[at] == rest[at - head.len()]);
        lemma_contracts_write_at_their_places(
            module.contracts,
            targets,
            backend,
            place,
            at - head.len(),
        );
        let i = choose|i: int|
            0 <= i < module.contracts.len() && contract_writes(
                (#[trigger] module.contracts[i]).0,
                module.contracts[i].1,
                targets,
                backend,
                place,
            ) is Some;
        assert(writes_of(module, i, targets, backend, place) is Some);
    } else {
        assert(emission_plan(module, targets, backend)[at] == head[at]);
    }
}

/// With leave to overwrite, a run into a directory that holds entries goes
/// ahead, and it leaves alone what it does not write itself, however far it
/// gets: after any number of its steps, a file at a place where no artifact
/// of the run belongs is what it was before the run, and no file and no
/// directory is gone.
pub proof fn lemma_overwrite_keeps_other_files(
    dir: Seq<char>,
    destination: Destination,
    tree: Tree,
    module: ModuleText,
    targets: Set<CompilationTarget>,
    backend: bool,
    done: int,
    place: Place,
)
    requires
        !destination.is_file,
        0 <= done <= emission_plan(module, targets, backend).len(),
        module_writes(module, targets, place) is None,
        forall|i: int|
            0 <= i < module.contracts.len() ==> (#[trigger] writes_of(
                module,
                i,
                targets,
                backend,
                place,
            )) is None,
    ensures
        destination_failure(dir, destination, true) is None,
        same_at(
            tree,
            after_steps(tree, emission_plan(module, targets, backend).take(done)),
            place,
        ),
        forall|other: Place| #[trigger]
            tree.files.contains_key(other) ==> after_steps(
                tree,
                emission_plan(module, targets, backend).take(done),
            ).files.contains_key(other),
        tree.directories.subset_of(
            after_steps(tree, emission_plan(module, targets, backend).take(done)).directories,
        ),
{
    let plan = emission_plan(module, targets, backend);
    let carried_out = plan.take(done);
    assert forall|k: int| 0 <= k < carried_out.len() implies written_place(
        #[trigger] carried_out[k],
    ) != Some(place) by {
        assert(carried_out[k] == plan[k]);
        if written_place(plan[k]) == Some(place) {
            lemma_plan_writes_only_its_places(module, targets, backend, k, place);
        }
    }
    lemma_unwritten_place_is_kept(tree, carried_out, place);
    lemma_nothing_is_removed(tree, carried_out);
}

/// An output directory in which nothing is yet.
pub open spec fn empty_tree() -> Tree {
    Tree { files: Map::empty(), directories: Set::empty() }
}

/// In an output directory that was empty, a file is there after the run
/// exactly where an artifact of the run belongs: the syntax tree and the
/// token stream of the module where each was asked for, and of every
/// contract the interface description and the intermediate representation
/// where each was asked for, and the binary payload where it was asked for,
/// the backend is there and the contract has one.
pub proof fn lemma_fresh_directory(
    module: ModuleText,
    targets: Set<CompilationTarget>,
    backend: bool,
    place: Place,
)
    requires
        distinct_names(module.contracts),
    ensures
        after_steps(empty_tree(), emission_plan(module, targets, backend)).files.contains_key(place)
            <==> module_writes(module, targets, place) is Some || exists|i: int|
            0 <= i < module.contracts.len() && (#[trigger] writes_of(
                module,
                i,
                targets,
                backend,
                place,
            )) is Some,
{
    lemma_emitted_tree(empty_tree(), module, targets, backend, place);
}

} // verus!
