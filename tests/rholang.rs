use std::rc::Rc;

use graphl::rholang::{Channel, ContractBuilder};

#[test]
fn test_new() {
    let contract = ContractBuilder::new("test_contract");

    assert_eq!(contract.contract_name, "test_contract");
}

#[test]
fn simple_builder_renders_declarations_and_calls() {
    let mut contract = ContractBuilder::new("test_contract");
    contract.add_channel(Channel::new("a"));
    contract.add_channel(Channel::new("b"));

    assert_eq!(
        contract.render(),
        "\ncontract test_contract (contract_result) = {\n  new a, a_result, b in {\n    a!(*a_result) |\nfor(){\n\n}\n| b!(*b_result) |\nfor(){\n\n}\n\n  }\n}"
    );
}

#[test]
fn simple_channel_renders_its_call() {
    let mut a = Channel::new("a");
    a.link(Rc::new(Channel::new("b")));

    assert_eq!(a.render(), "a!(*a_result) |\nfor(){\n\n}\n");
}
