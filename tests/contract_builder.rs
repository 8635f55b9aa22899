use graphl::rholang::channel::Channel;
use graphl::rholang::contract_builder::ContractBuilder;

#[test]
fn contract_builder_test_render() {
    let builder = ContractBuilder::new("test_contract", vec![]);

    assert_eq!(
        builder.render_rholang(),
        r#"contract test_contract (contract_result) = { contract_result!(Nil) }"#
    );
}

#[test]
fn test_render_with_one_channel() {
    let channels = vec![Channel::new("a")];
    let builder = ContractBuilder::new("test_contract", channels);
    let chain = builder.render_rholang();

    assert_eq!(
        chain,
        r#"contract test_contract (contract_result) = { new a, a_result in { a!(*a_result) | for (a_result_value <- a_result) { contract_result!(*a_result_value) } } }"#
    );
}

#[test]
fn test_render_with_two_channels() {
    let channels = vec![Channel::new("a"), Channel::new("b")];
    let builder = ContractBuilder::new("test_contract", channels);

    let chain = builder.render_rholang();

    assert_eq!(
        chain,
        r#"contract test_contract (contract_result) = { new a, a_result in { new b, b_result in { a!(*a_result) | for (a_result_value <- a_result) { b!(*a_result_value, *b_result) | for (b_result_value <- b_result) { contract_result!(*b_result_value) } } } } }"#
    );
}

#[test]
fn test_contract_arguments() {
    let mut builder = ContractBuilder::new("test_contract", vec![]);
    builder.add_argument("input_1");
    builder.add_argument("input_2");

    let chain = builder.render_rholang();

    assert_eq!(
        chain,
        r#"contract test_contract (input_1, input_2, contract_result) = { contract_result!(Nil) }"#
    );
}

#[test]
fn test_contract_with_arguments() {
    let channels = vec![Channel::new("a"), Channel::new("b")];
    let mut builder = ContractBuilder::new("test_contract", channels);
    builder.add_argument("input_1");

    let chain = builder.render_rholang();

    assert_eq!(
        chain,
        r#"contract test_contract (input_1, contract_result) = { new a, a_result in { new b, b_result in { a!(*input_1, *a_result) | for (a_result_value <- a_result) { b!(*a_result_value, *b_result) | for (b_result_value <- b_result) { contract_result!(*b_result_value) } } } } }"#
    );
}

#[test]
fn first_channel_gets_every_argument() {
    let channels = vec![Channel::new("a")];
    let mut builder = ContractBuilder::new("c", channels);
    builder.add_argument("x");
    builder.add_argument("y");

    assert_eq!(
        builder.render_rholang(),
        "contract c (x, y, contract_result) = { new a, a_result in { a!(*x,y, *a_result) | for (a_result_value <- a_result) { contract_result!(*a_result_value) } } }"
    );
}

#[test]
fn channel_keeps_its_name() {
    assert_eq!(Channel::new("store").name, "store");
}
