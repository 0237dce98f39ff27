use vote_ledger::hello::Hellocontract;

const OWNER: u64 = 11;
const STRANGER: u64 = 12;

#[test]
fn construction_stores_given_values() {
    let (contract, event) = Hellocontract::new(
        false,
        7,
        vec![5, 6, 7],
        3,
        500,
        String::from("greetings"),
        0xabcd,
        OWNER,
    );
    assert_eq!(contract.get(), false);
    let (number, _) = contract.get_number(OWNER);
    assert_eq!(number, 7);
    assert_eq!(contract.get_vector_item(0), 5);
    assert_eq!(contract.get_vector_item(2), 7);
    assert_eq!(contract.get_map_item(OWNER), 3);
    assert_eq!(contract.get_string(), String::from("greetings"));
    assert_eq!(contract.get_hash(), 0xabcd);
    assert_eq!(event.from, None);
    assert_eq!(event.to, Some(OWNER));
    assert_eq!(event.value, 500);
}

#[test]
fn default_uses_sample_values() {
    let (contract, event) = Hellocontract::default(OWNER);
    assert_eq!(contract.get(), true);
    let (number, _) = contract.get_number(OWNER);
    assert_eq!(number, -2);
    assert_eq!(contract.get_vector_item(0), -1);
    assert_eq!(contract.get_map_item(OWNER), 10);
    assert_eq!(contract.get_string(), String::from("Test it"));
    assert_eq!(contract.get_hash(), 0x9999_9999_9999_9999);
    assert_eq!(event.from, None);
    assert_eq!(event.to, Some(OWNER));
    assert_eq!(event.value, 1000);
}

#[test]
fn flip_inverts_the_flag() {
    let (mut contract, _) = Hellocontract::new(
        false,
        0,
        vec![],
        0,
        0,
        String::new(),
        0,
        OWNER,
    );
    assert_eq!(contract.get(), false);
    contract.flip();
    assert_eq!(contract.get(), true);
    contract.flip();
    assert_eq!(contract.get(), false);
}

#[test]
fn set_number_replaces_the_number() {
    let (mut contract, _) = Hellocontract::default(OWNER);
    contract.set_number(31);
    let (number, event) = contract.get_number(STRANGER);
    assert_eq!(number, 31);
    assert_eq!(event.from, Some(STRANGER));
    assert_eq!(event.to, None);
    assert_eq!(event.value, 10);
}

#[test]
fn vector_item_out_of_range_is_minus_one() {
    let (contract, _) = Hellocontract::new(
        true,
        0,
        vec![9],
        0,
        0,
        String::new(),
        0,
        OWNER,
    );
    assert_eq!(contract.get_vector_item(0), 9);
    assert_eq!(contract.get_vector_item(1), -1);
    assert_eq!(contract.get_vector_item(u32::MAX), -1);
}

#[test]
fn map_item_of_unknown_account_is_max() {
    let (contract, _) = Hellocontract::default(OWNER);
    assert_eq!(contract.get_map_item(STRANGER), u32::MAX);
}
