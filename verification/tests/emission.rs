use std::collections::BTreeMap;

use fe_emit::emitter::{
    bytecode_advisory, compile_and_write, source_unreadable, with_bytecode, write_compiled_module,
    Emission, Phase,
};
use fe_emit::error::EmitError;
use fe_emit::guard::{Destination, Listing};
use fe_emit::layout::{path_of, plan_emission, Step, YUL_INDENT};
use fe_emit::model::{CompiledContract, CompiledModule};
use fe_emit::target::{CompilationTarget, TargetSet};

fn fresh() -> Destination {
    Destination { is_file: false, exists: true, listing: Listing::Empty }
}

fn occupied() -> Destination {
    Destination { is_file: false, exists: true, listing: Listing::Occupied }
}

fn token_module(bytecode: Option<&str>) -> CompiledModule {
    let mut module = CompiledModule::new("the ast".to_string(), "the tokens".to_string());
    let added = module.add_contract(
        "Token".to_string(),
        CompiledContract {
            json_abi: "[...]".to_string(),
            yul: "object \"Token\" {...}".to_string(),
            bytecode: bytecode.map(|payload| payload.to_string()),
        },
    );
    assert!(added);
    module
}

fn two_contracts() -> CompiledModule {
    let mut module = token_module(Some("600a"));
    let added = module.add_contract(
        "Vault".to_string(),
        CompiledContract {
            json_abi: "[]".to_string(),
            yul: "object \"Vault\" { code { } }".to_string(),
            bytecode: None,
        },
    );
    assert!(added);
    module
}

fn targets(kinds: &[CompilationTarget]) -> TargetSet {
    TargetSet::from_targets(kinds)
}

fn create(contract: Option<&str>) -> Step {
    Step::CreateDirectory { contract: contract.map(|name| name.to_string()) }
}

fn write(kind: CompilationTarget, contract: Option<&str>, file_name: &str, body: &str) -> Step {
    Step::WriteArtifact {
        kind,
        contract: contract.map(|name| name.to_string()),
        file_name: file_name.to_string(),
        body: body.to_string(),
    }
}

/// Carries out every step on a tree that is kept in memory, and gives back
/// the files of the tree by their place under the output directory.
fn run(mut emission: Emission, tree: &mut BTreeMap<String, String>) -> Result<(), EmitError> {
    loop {
        let step = match emission.current() {
            Some(step) => step.clone(),
            None => break,
        };
        if let Step::WriteArtifact { contract, file_name, body, .. } = step {
            let place = match contract {
                Some(name) => format!("{}/{}", name, file_name),
                None => file_name,
            };
            tree.insert(place, body);
        }
        emission.completed();
    }
    emission.outcome().unwrap()
}

fn steps_of(mut emission: Emission) -> Vec<Step> {
    let mut steps = Vec::new();
    loop {
        let step = match emission.current() {
            Some(step) => step.clone(),
            None => break,
        };
        steps.push(step);
        emission.completed();
    }
    assert_eq!(emission.outcome(), Some(Ok(())));
    steps
}

#[test]
fn abi_and_yul_of_one_contract_into_a_fresh_directory() {
    let wanted = targets(&[CompilationTarget::Abi, CompilationTarget::Yul]);
    let emission =
        write_compiled_module(token_module(None), &wanted, "out", &fresh(), false, true).unwrap();
    let mut tree = BTreeMap::new();
    assert_eq!(run(emission, &mut tree), Ok(()));
    let mut expected = BTreeMap::new();
    expected.insert("Token/Token_abi.json".to_string(), "[...]".to_string());
    expected.insert(
        "Token/Token_ir.yul".to_string(),
        "object \"Token\" {\n    ...\n}".to_string(),
    );
    assert_eq!(tree, expected);
    assert!(!tree.contains_key("module.ast"));
    assert!(!tree.contains_key("module.tokens"));
}

#[test]
fn bytecode_is_skipped_without_a_payload() {
    let wanted = targets(&[CompilationTarget::Bytecode]);
    let emission =
        write_compiled_module(token_module(None), &wanted, "out", &fresh(), false, true).unwrap();
    assert_eq!(steps_of(emission), vec![create(None), create(Some("Token"))]);
}

#[test]
fn bytecode_is_skipped_without_the_backend() {
    let wanted = targets(&[CompilationTarget::Bytecode]);
    let emission =
        write_compiled_module(token_module(Some("600a")), &wanted, "out", &fresh(), false, false)
            .unwrap();
    assert_eq!(steps_of(emission), vec![create(None), create(Some("Token"))]);
}

#[test]
fn bytecode_is_written_with_backend_and_payload() {
    let wanted = targets(&[CompilationTarget::Bytecode]);
    let emission =
        write_compiled_module(token_module(Some("600a")), &wanted, "out", &fresh(), false, true)
            .unwrap();
    assert_eq!(
        steps_of(emission),
        vec![
            create(None),
            create(Some("Token")),
            write(CompilationTarget::Bytecode, Some("Token"), "Token.bin", "600a"),
        ]
    );
}

#[test]
fn everything_is_written_in_order() {
    let wanted = targets(&[
        CompilationTarget::Abi,
        CompilationTarget::Ast,
        CompilationTarget::Bytecode,
        CompilationTarget::Tokens,
        CompilationTarget::Yul,
    ]);
    let expected = vec![
        create(None),
        write(CompilationTarget::Ast, None, "module.ast", "the ast"),
        write(CompilationTarget::Tokens, None, "module.tokens", "the tokens"),
        create(Some("Token")),
        write(CompilationTarget::Abi, Some("Token"), "Token_abi.json", "[...]"),
        write(
            CompilationTarget::Yul,
            Some("Token"),
            "Token_ir.yul",
            "object \"Token\" {\n    ...\n}",
        ),
        write(CompilationTarget::Bytecode, Some("Token"), "Token.bin", "600a"),
        create(Some("Vault")),
        write(CompilationTarget::Abi, Some("Vault"), "Vault_abi.json", "[]"),
        write(
            CompilationTarget::Yul,
            Some("Vault"),
            "Vault_ir.yul",
            "object \"Vault\" {\n     code {\n         \n    } \n}",
        ),
    ];
    assert_eq!(plan_emission(&two_contracts(), &wanted, true), expected);
    let emission =
        write_compiled_module(two_contracts(), &wanted, "out", &fresh(), false, true).unwrap();
    assert_eq!(steps_of(emission), expected);
}

#[test]
fn nothing_asked_for_still_creates_the_directories() {
    let emission =
        write_compiled_module(two_contracts(), &targets(&[]), "out", &fresh(), false, true)
            .unwrap();
    assert_eq!(
        steps_of(emission),
        vec![create(None), create(Some("Token")), create(Some("Vault"))]
    );
}

#[test]
fn a_module_without_contracts_writes_only_its_own_artifacts() {
    let module = CompiledModule::new("tree".to_string(), "stream".to_string());
    let wanted = targets(&[CompilationTarget::Tokens, CompilationTarget::Abi]);
    let emission = write_compiled_module(module, &wanted, "out", &fresh(), false, true).unwrap();
    assert_eq!(
        steps_of(emission),
        vec![create(None), write(CompilationTarget::Tokens, None, "module.tokens", "stream")]
    );
}

#[test]
fn a_file_at_the_destination_stops_the_emission() {
    let file = Destination {
        is_file: true,
        exists: true,
        listing: Listing::Unreadable { cause: "Not a directory".to_string() },
    };
    let wanted = targets(&[CompilationTarget::Abi]);
    for overwrite in [false, true] {
        let result = write_compiled_module(token_module(None), &wanted, "out", &file, overwrite, true);
        assert_eq!(result.unwrap_err(), EmitError::DestinationIsFile { path: "out".to_string() });
    }
}

#[test]
fn an_occupied_destination_stops_the_emission_without_overwrite() {
    let wanted = targets(&[CompilationTarget::Abi]);
    let result = write_compiled_module(token_module(None), &wanted, "out", &occupied(), false, true);
    assert_eq!(result.unwrap_err(), EmitError::DestinationNotEmpty { path: "out".to_string() });
}

#[test]
fn overwrite_leaves_unrelated_files_alone() {
    let wanted = targets(&[CompilationTarget::Abi, CompilationTarget::Ast]);
    let emission =
        write_compiled_module(token_module(None), &wanted, "out", &occupied(), true, true).unwrap();
    let mut tree = BTreeMap::new();
    tree.insert("notes.txt".to_string(), "keep me".to_string());
    tree.insert("Token/Token_abi.json".to_string(), "stale".to_string());
    tree.insert("Token/Token_ir.yul".to_string(), "older run".to_string());
    assert_eq!(run(emission, &mut tree), Ok(()));
    let mut expected = BTreeMap::new();
    expected.insert("notes.txt".to_string(), "keep me".to_string());
    expected.insert("module.ast".to_string(), "the ast".to_string());
    expected.insert("Token/Token_abi.json".to_string(), "[...]".to_string());
    expected.insert("Token/Token_ir.yul".to_string(), "older run".to_string());
    assert_eq!(tree, expected);
}

#[test]
fn the_first_failure_ends_the_run() {
    let wanted = targets(&[CompilationTarget::Abi, CompilationTarget::Yul]);
    let mut emission =
        write_compiled_module(token_module(None), &wanted, "out", &fresh(), false, true).unwrap();
    assert_eq!(emission.current(), Some(&create(None)));
    emission.completed();
    assert_eq!(emission.current(), Some(&create(Some("Token"))));
    emission.completed();
    assert_eq!(
        emission.current(),
        Some(&write(CompilationTarget::Abi, Some("Token"), "Token_abi.json", "[...]"))
    );
    emission.failed("disk full".to_string());
    assert_eq!(emission.current(), None);
    emission.completed();
    assert_eq!(emission.current(), None);
    emission.failed("again".to_string());
    assert_eq!(
        emission.outcome(),
        Some(Err(EmitError::IoFailure {
            path: "out/Token/Token_abi.json".to_string(),
            cause: "disk full".to_string()
        }))
    );
}

#[test]
fn a_failure_to_create_the_output_directory_names_it() {
    let mut emission =
        write_compiled_module(token_module(None), &targets(&[]), "some/out", &fresh(), false, true)
            .unwrap();
    emission.failed("Permission denied".to_string());
    assert_eq!(
        emission.outcome(),
        Some(Err(EmitError::IoFailure {
            path: "some/out".to_string(),
            cause: "Permission denied".to_string()
        }))
    );
}

#[test]
fn a_run_has_no_outcome_while_a_step_is_pending() {
    let mut emission =
        write_compiled_module(token_module(None), &targets(&[]), "out", &fresh(), false, true)
            .unwrap();
    emission.completed();
    assert_eq!(emission.current(), Some(&create(Some("Token"))));
    assert_eq!(emission.outcome(), None);
}

#[test]
fn places_are_shown_under_the_output_directory() {
    assert_eq!(path_of("out", &create(None)), "out");
    assert_eq!(path_of("out", &create(Some("Token"))), "out/Token");
    assert_eq!(
        path_of("out", &write(CompilationTarget::Ast, None, "module.ast", "")),
        "out/module.ast"
    );
    assert_eq!(
        path_of("a/b", &write(CompilationTarget::Yul, Some("Token"), "Token_ir.yul", "")),
        "a/b/Token/Token_ir.yul"
    );
}

#[test]
fn a_rejected_source_is_reported_as_it_came() {
    let wanted = targets(&[CompilationTarget::Abi]);
    let file = Destination { is_file: true, exists: true, listing: Listing::Empty };
    let result =
        compile_and_write(Err("unexpected token".to_string()), &wanted, "out", &file, false, true);
    assert_eq!(
        result.unwrap_err(),
        EmitError::CompilationFailed { message: "unexpected token".to_string() }
    );
}

#[test]
fn a_compiled_source_is_emitted() {
    let wanted = targets(&[CompilationTarget::Ast]);
    let emission =
        compile_and_write(Ok(token_module(None)), &wanted, "out", &fresh(), false, true).unwrap();
    assert_eq!(
        steps_of(emission),
        vec![
            create(None),
            write(CompilationTarget::Ast, None, "module.ast", "the ast"),
            create(Some("Token")),
        ]
    );
    let result = compile_and_write(Ok(token_module(None)), &wanted, "out", &occupied(), false, true);
    assert_eq!(result.unwrap_err(), EmitError::DestinationNotEmpty { path: "out".to_string() });
}

#[test]
fn the_compiler_is_asked_for_bytecode_where_it_is_wanted() {
    assert!(with_bytecode(&targets(&[CompilationTarget::Abi, CompilationTarget::Bytecode])));
    assert!(!with_bytecode(&targets(&[CompilationTarget::Abi, CompilationTarget::Yul])));
}

#[test]
fn the_advisory_is_due_only_without_the_backend() {
    let with = targets(&[CompilationTarget::Bytecode]);
    let without = targets(&[CompilationTarget::Abi]);
    assert_eq!(
        bytecode_advisory(&with, false),
        Some("Warning: bytecode output requires 'solc-backend' feature. Try `cargo build --release --features solc-backend`. Skipping.")
    );
    assert_eq!(bytecode_advisory(&with, true), None);
    assert_eq!(bytecode_advisory(&without, false), None);
    assert_eq!(bytecode_advisory(&without, true), None);
}

#[test]
fn a_run_goes_through_the_phases_in_order() {
    let wanted = targets(&[
        CompilationTarget::Abi,
        CompilationTarget::Ast,
        CompilationTarget::Bytecode,
        CompilationTarget::Tokens,
        CompilationTarget::Yul,
    ]);
    let mut emission =
        write_compiled_module(two_contracts(), &wanted, "out", &fresh(), false, true).unwrap();
    let mut phases = Vec::new();
    loop {
        phases.push(emission.phase());
        if emission.current().is_none() {
            break;
        }
        emission.completed();
    }
    let mut expected = vec![Phase::Validate, Phase::EmitModuleArtifacts, Phase::EmitModuleArtifacts];
    expected.extend(vec![Phase::EmitPerContractArtifacts; 7]);
    expected.push(Phase::Done);
    assert_eq!(phases, expected);
    emission.completed();
    assert_eq!(emission.phase(), Phase::Done);
    emission.failed("too late".to_string());
    assert_eq!(emission.phase(), Phase::Done);
    assert_eq!(emission.outcome(), Some(Ok(())));
}

#[test]
fn phases_without_work_are_left_out() {
    let module = CompiledModule::new(String::new(), String::new());
    let mut emission =
        write_compiled_module(module, &targets(&[]), "out", &fresh(), false, true).unwrap();
    assert_eq!(emission.phase(), Phase::Validate);
    emission.completed();
    assert_eq!(emission.phase(), Phase::Done);
}

#[test]
fn a_failed_run_stays_failed() {
    let wanted = targets(&[CompilationTarget::Ast]);
    let mut emission =
        write_compiled_module(token_module(None), &wanted, "out", &fresh(), false, true).unwrap();
    emission.completed();
    assert_eq!(emission.phase(), Phase::EmitModuleArtifacts);
    emission.failed("disk full".to_string());
    assert_eq!(emission.phase(), Phase::Failed);
    emission.completed();
    emission.failed("again".to_string());
    assert_eq!(emission.phase(), Phase::Failed);
    assert_eq!(
        emission.outcome(),
        Some(Err(EmitError::IoFailure {
            path: "out/module.ast".to_string(),
            cause: "disk full".to_string()
        }))
    );
}

#[test]
fn the_intermediate_representation_is_laid_out_when_it_is_written() {
    assert_eq!(YUL_INDENT, 4);
    let mut module = CompiledModule::new(String::new(), String::new());
    let contract = CompiledContract {
        json_abi: "{}".to_string(),
        yul: "{".to_string(),
        bytecode: Some("{}".to_string()),
    };
    assert!(module.add_contract("C".to_string(), contract));
    assert_eq!(module.contract_at(0).unwrap().1.yul, "{");
    let wanted = targets(&[
        CompilationTarget::Abi,
        CompilationTarget::Bytecode,
        CompilationTarget::Yul,
    ]);
    assert_eq!(
        plan_emission(&module, &wanted, true),
        vec![
            create(None),
            create(Some("C")),
            write(CompilationTarget::Abi, Some("C"), "C_abi.json", "{}"),
            write(CompilationTarget::Yul, Some("C"), "C_ir.yul", "{\n    "),
            write(CompilationTarget::Bytecode, Some("C"), "C.bin", "{}"),
        ]
    );
}

#[test]
fn nested_blocks_are_indented_by_four_blanks_a_level() {
    let mut module = CompiledModule::new(String::new(), String::new());
    let contract = CompiledContract {
        json_abi: String::new(),
        yul: "object \"T\" {code {let x := 1}}".to_string(),
        bytecode: None,
    };
    assert!(module.add_contract("T".to_string(), contract));
    let emission = write_compiled_module(
        module,
        &targets(&[CompilationTarget::Yul]),
        "out",
        &fresh(),
        false,
        false,
    )
    .unwrap();
    assert_eq!(
        steps_of(emission),
        vec![
            create(None),
            create(Some("T")),
            write(
                CompilationTarget::Yul,
                Some("T"),
                "T_ir.yul",
                "object \"T\" {\n    code {\n        let x := 1\n    }\n}",
            ),
        ]
    );
}

#[test]
fn a_source_that_cannot_be_read_is_an_io_failure() {
    assert_eq!(
        source_unreadable("erc20.fe", "No such file or directory (os error 2)".to_string()),
        EmitError::IoFailure {
            path: "erc20.fe".to_string(),
            cause: "No such file or directory (os error 2)".to_string()
        }
    );
}
