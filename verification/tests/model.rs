use fe_emit::model::{CompiledContract, CompiledModule};

fn contract(tag: &str) -> CompiledContract {
    CompiledContract {
        json_abi: format!("[{}]", tag),
        yul: format!("object \"{}\" {{ }}", tag),
        bytecode: None,
    }
}

#[test]
fn a_new_module_has_no_contracts() {
    let module = CompiledModule::new("ast".to_string(), "tokens".to_string());
    assert_eq!(module.contract_count(), 0);
    assert_eq!(module.fe_ast(), "ast");
    assert_eq!(module.fe_tokens(), "tokens");
    assert!(!module.has_contract("Token"));
    assert_eq!(module.contract_at(0), None);
}

#[test]
fn contracts_are_kept_in_the_order_they_were_added() {
    let mut module = CompiledModule::new(String::new(), String::new());
    assert!(module.add_contract("Token".to_string(), contract("a")));
    assert!(module.add_contract("Vault".to_string(), contract("b")));
    assert_eq!(module.contract_count(), 2);
    assert_eq!(module.contract_at(0), Some((&"Token".to_string(), &contract("a"))));
    assert_eq!(module.contract_at(1), Some((&"Vault".to_string(), &contract("b"))));
    assert_eq!(module.contract_at(2), None);
    assert!(module.has_contract("Token"));
    assert!(module.has_contract("Vault"));
    assert!(!module.has_contract("token"));
}

#[test]
fn a_second_contract_of_the_same_name_is_not_accepted() {
    let mut module = CompiledModule::new(String::new(), String::new());
    assert!(module.add_contract("Token".to_string(), contract("first")));
    assert!(!module.add_contract("Token".to_string(), contract("second")));
    assert_eq!(module.contract_count(), 1);
    assert_eq!(module.contract_at(0), Some((&"Token".to_string(), &contract("first"))));
    assert_eq!(module.contract_at(1), None);
}
