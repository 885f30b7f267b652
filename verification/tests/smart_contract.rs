use eternal::smart_contract::{
    SmartContract, SmartContractApi, SmartContractStanderd, TokenDeclaration,
};
use eternal::vm::SmartContract as Declaration;

type Handler = fn(String, String, u128) -> Result<(), String>;

fn allow(_from: String, _to: String, _amount: u128) -> Result<(), String> {
    Ok(())
}

fn echo(from: String, to: String, amount: u128) -> Result<(), String> {
    Err(format!("{} -> {}: {}", from, to, amount))
}

fn token(transfer: Handler) -> SmartContract<Handler> {
    SmartContract::new(
        SmartContractStanderd::from("ESC20"),
        SmartContractApi::ESC20 { publisher: "pub".to_string(), total_suply: 100_000, transfer },
    )
}

#[test]
fn standard_from_its_names() {
    for name in ["ESC-20", "esc-20", "ESC20", "esc20"] {
        assert_eq!(SmartContractStanderd::from(name), SmartContractStanderd::ESC20);
        assert_eq!(SmartContractStanderd::parse(name), Some(SmartContractStanderd::ESC20));
    }
    for name in ["ESC-721", "esc-721", "ESC721", "esc721"] {
        assert_eq!(SmartContractStanderd::from(name), SmartContractStanderd::ESC721);
        assert_eq!(SmartContractStanderd::parse(name), Some(SmartContractStanderd::ESC721));
    }
}

#[test]
fn standard_from_an_unknown_name() {
    for name in ["", "ESC", "Esc20", "ESC_20", "ESC20 ", "esc-2", "ESC721x"] {
        assert_eq!(SmartContractStanderd::parse(name), None);
    }
}

#[test]
fn standard_to_its_name() {
    assert_eq!(SmartContractStanderd::ESC20.to(), "ESC20");
    assert_eq!(SmartContractStanderd::ESC721.to(), "ESC721");
    assert_eq!(
        SmartContractStanderd::from(SmartContractStanderd::ESC721.to()),
        SmartContractStanderd::ESC721
    );
}

#[test]
fn new_contract_holds_what_it_was_given() {
    let contract = token(allow);
    assert_eq!(contract.standard, SmartContractStanderd::ESC20);
    match contract.api {
        SmartContractApi::ESC20 { publisher, total_suply, .. } => {
            assert_eq!(publisher, "pub");
            assert_eq!(total_suply, 100_000);
        },
    }
}

#[test]
fn execute_fn_hands_the_arguments_to_the_handler() {
    let mut contract = token(echo);
    assert_eq!(
        contract.execute_fn("transfer", vec!["alice", "bob", "12"]),
        Err("alice -> bob: 12".to_string())
    );
    assert_eq!(
        contract.execute_fn("transfer", vec!["", "b", "+340282366920938463463374607431768211455", "x"]),
        Err(" -> b: 340282366920938463463374607431768211455".to_string())
    );
}

#[test]
fn execute_fn_hands_back_the_verdict() {
    let mut contract = token(allow);
    assert_eq!(contract.execute_fn("transfer", vec!["alice", "bob", "0"]), Ok(()));
    assert_eq!(contract.standard, SmartContractStanderd::ESC20);
}

#[test]
fn duplicate_contract_is_equal() {
    let contract = token(allow);
    let copy = contract.duplicate();
    assert!(copy == contract);
}

#[test]
fn declaration_deploys_an_esc20_record() {
    let declaration: TokenDeclaration<Handler> = TokenDeclaration { total_supply: 100, transfer: echo };
    let mut contract = declaration.deploy();
    assert_eq!(contract.standard, SmartContractStanderd::ESC20);
    match &contract.api {
        SmartContractApi::ESC20 { publisher, total_suply, .. } => {
            assert_eq!(publisher, "");
            assert_eq!(*total_suply, 100);
        },
    }
    assert_eq!(contract.execute_fn("transfer", vec!["a", "b", "1"]), Err("a -> b: 1".to_string()));
}
