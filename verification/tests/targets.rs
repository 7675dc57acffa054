use fe_emit::error::EmitError;
use fe_emit::target::{CompilationTarget, TargetSet};

const ALL: [CompilationTarget; 5] = [
    CompilationTarget::Abi,
    CompilationTarget::Ast,
    CompilationTarget::Bytecode,
    CompilationTarget::Tokens,
    CompilationTarget::Yul,
];

#[test]
fn every_kind_is_read_from_its_name() {
    assert_eq!(CompilationTarget::from_name("abi"), Some(CompilationTarget::Abi));
    assert_eq!(CompilationTarget::from_name("ast"), Some(CompilationTarget::Ast));
    assert_eq!(CompilationTarget::from_name("bytecode"), Some(CompilationTarget::Bytecode));
    assert_eq!(CompilationTarget::from_name("tokens"), Some(CompilationTarget::Tokens));
    assert_eq!(CompilationTarget::from_name("yul"), Some(CompilationTarget::Yul));
}

#[test]
fn names_are_matched_exactly() {
    assert_eq!(CompilationTarget::from_name(""), None);
    assert_eq!(CompilationTarget::from_name("Abi"), None);
    assert_eq!(CompilationTarget::from_name("YUL"), None);
    assert_eq!(CompilationTarget::from_name("abi "), None);
    assert_eq!(CompilationTarget::from_name("byte"), None);
    assert_eq!(CompilationTarget::from_name("abi,yul"), None);
}

#[test]
fn name_and_from_name_agree() {
    for kind in ALL {
        assert_eq!(CompilationTarget::from_name(kind.name()), Some(kind));
    }
    assert_eq!(CompilationTarget::Bytecode.name(), "bytecode");
    assert_eq!(CompilationTarget::Tokens.name(), "tokens");
}

#[test]
fn naming_a_kind_twice_is_naming_it_once() {
    let twice = TargetSet::from_names(&["abi", "abi"]).unwrap();
    let once = TargetSet::from_names(&["abi"]).unwrap();
    assert_eq!(twice, once);
    assert!(once.contains(CompilationTarget::Abi));
    assert!(!once.contains(CompilationTarget::Ast));
    assert!(!once.contains(CompilationTarget::Bytecode));
    assert!(!once.contains(CompilationTarget::Tokens));
    assert!(!once.contains(CompilationTarget::Yul));
}

#[test]
fn order_of_names_does_not_matter() {
    let first = TargetSet::from_names(&["yul", "abi", "tokens"]).unwrap();
    let second = TargetSet::from_names(&["tokens", "yul", "abi", "yul"]).unwrap();
    assert_eq!(first, second);
    assert!(first.contains(CompilationTarget::Yul));
    assert!(first.contains(CompilationTarget::Abi));
    assert!(first.contains(CompilationTarget::Tokens));
    assert!(!first.contains(CompilationTarget::Ast));
    assert!(!first.contains(CompilationTarget::Bytecode));
}

#[test]
fn no_names_ask_for_nothing() {
    let none = TargetSet::from_names(&[]).unwrap();
    for kind in ALL {
        assert!(!none.contains(kind));
    }
    assert_eq!(none, TargetSet::from_targets(&[]));
}

#[test]
fn all_names_ask_for_everything() {
    let all = TargetSet::from_names(&["abi", "bytecode", "ast", "tokens", "yul"]).unwrap();
    for kind in ALL {
        assert!(all.contains(kind));
    }
    assert_eq!(all, TargetSet::from_targets(&ALL));
}

#[test]
fn an_unknown_name_fails_the_whole_request() {
    let result = TargetSet::from_names(&["abi", "wasm", "yul"]);
    assert_eq!(result, Err(EmitError::UnknownTarget { token: "wasm".to_string() }));
}

#[test]
fn the_first_unknown_name_is_reported() {
    let result = TargetSet::from_names(&["abi", "Yul", "wasm"]);
    assert_eq!(result, Err(EmitError::UnknownTarget { token: "Yul".to_string() }));
    let result = TargetSet::from_names(&[""]);
    assert_eq!(result, Err(EmitError::UnknownTarget { token: String::new() }));
}

#[test]
fn sets_are_made_from_kinds() {
    let set = TargetSet::from_targets(&[
        CompilationTarget::Bytecode,
        CompilationTarget::Abi,
        CompilationTarget::Bytecode,
    ]);
    assert!(set.contains(CompilationTarget::Abi));
    assert!(set.contains(CompilationTarget::Bytecode));
    assert!(!set.contains(CompilationTarget::Ast));
    assert!(!set.contains(CompilationTarget::Tokens));
    assert!(!set.contains(CompilationTarget::Yul));
    assert_eq!(set, TargetSet::from_names(&["abi", "bytecode"]).unwrap());
}

#[test]
fn unknown_target_message_names_the_token() {
    let error = EmitError::UnknownTarget { token: "wasm".to_string() };
    assert_eq!(
        error.message(),
        "Unknown target `wasm`. Valid values: abi, ast, bytecode, tokens, yul."
    );
}
