use expense_ledger::store::RecordStore;
use expense_ledger::RecordError;
use expense_ledger::ALLOCATION_COST;
use expense_ledger::MERCHANT_NAME_CAPACITY;
use expense_ledger::OWNER_LEN;

fn identity(seed: u8) -> Vec<u8> {
    vec![seed; OWNER_LEN]
}

fn funded_store(owner: &Vec<u8>, amount: u64) -> RecordStore {
    let mut store = RecordStore::new();
    store.fund(owner, amount);
    store
}

#[test]
fn create_then_read_returns_fields() {
    let owner = identity(1);
    let mut store = funded_store(&owner, 2 * ALLOCATION_COST);
    let name = b"Groceries".to_vec();
    assert_eq!(store.initialize(&owner, 7, &name, 250), Ok(()));
    let rec = store.read(&owner, 7).unwrap();
    assert_eq!(rec.id, 7);
    assert_eq!(rec.owner, owner);
    assert_eq!(rec.merchant_name, name);
    assert_eq!(rec.amount, 250);
}

#[test]
fn scenario_create_update_delete() {
    let owner = identity(2);
    let mut store = funded_store(&owner, ALLOCATION_COST);
    assert_eq!(store.initialize(&owner, 1, &b"Acme".to_vec(), 500), Ok(()));
    let rec = store.read(&owner, 1).unwrap();
    assert_eq!(rec.id, 1);
    assert_eq!(rec.merchant_name, b"Acme".to_vec());
    assert_eq!(rec.amount, 500);
    assert_eq!(rec.owner, owner);

    assert_eq!(store.update(&owner, 1, &b"Acme Corp".to_vec(), 750), Ok(()));
    let rec = store.read(&owner, 1).unwrap();
    assert_eq!(rec.id, 1);
    assert_eq!(rec.merchant_name, b"Acme Corp".to_vec());
    assert_eq!(rec.amount, 750);
    assert_eq!(rec.owner, owner);

    assert_eq!(store.delete(&owner, 1), Ok(()));
    assert_eq!(store.read(&owner, 1), Err(RecordError::RecordNotFound));
}

#[test]
fn create_twice_same_address_collides() {
    let owner = identity(3);
    let mut store = funded_store(&owner, 3 * ALLOCATION_COST);
    assert_eq!(store.initialize(&owner, 4, &b"First".to_vec(), 10), Ok(()));
    assert_eq!(
        store.initialize(&owner, 4, &b"Second".to_vec(), 20),
        Err(RecordError::AddressCollision)
    );
    let rec = store.read(&owner, 4).unwrap();
    assert_eq!(rec.merchant_name, b"First".to_vec());
    assert_eq!(rec.amount, 10);
}

#[test]
fn update_missing_record_fails_and_creates_nothing() {
    let owner = identity(4);
    let mut store = funded_store(&owner, ALLOCATION_COST);
    assert_eq!(
        store.update(&owner, 9, &b"Ghost".to_vec(), 1),
        Err(RecordError::RecordNotFound)
    );
    assert_eq!(store.read(&owner, 9), Err(RecordError::RecordNotFound));
    assert_eq!(store.balance_of(&owner), ALLOCATION_COST);
}

#[test]
fn update_preserves_owner() {
    let owner = identity(5);
    let mut store = funded_store(&owner, ALLOCATION_COST);
    assert_eq!(store.initialize(&owner, 11, &b"Cafe".to_vec(), 40), Ok(()));
    assert_eq!(store.update(&owner, 11, &b"Diner".to_vec(), 55), Ok(()));
    let rec = store.read(&owner, 11).unwrap();
    assert_eq!(rec.owner, owner);
}

#[test]
fn delete_refunds_allocation_cost() {
    let owner = identity(6);
    let mut store = funded_store(&owner, ALLOCATION_COST);
    assert_eq!(store.initialize(&owner, 2, &b"Rent".to_vec(), 900), Ok(()));
    assert_eq!(store.balance_of(&owner), 0);
    assert_eq!(store.delete(&owner, 2), Ok(()));
    assert_eq!(store.balance_of(&owner), ALLOCATION_COST);
    assert_eq!(store.read(&owner, 2), Err(RecordError::RecordNotFound));
}

#[test]
fn delete_missing_record_fails() {
    let owner = identity(7);
    let mut store = RecordStore::new();
    assert_eq!(store.delete(&owner, 1), Err(RecordError::RecordNotFound));
}

#[test]
fn oversized_name_fails_create_and_mutates_nothing() {
    let owner = identity(8);
    let mut store = funded_store(&owner, ALLOCATION_COST);
    let long = vec![b'x'; MERCHANT_NAME_CAPACITY + 1];
    assert_eq!(
        store.initialize(&owner, 3, &long, 5),
        Err(RecordError::SerializationOverflow)
    );
    assert_eq!(store.read(&owner, 3), Err(RecordError::RecordNotFound));
    assert_eq!(store.balance_of(&owner), ALLOCATION_COST);
}

#[test]
fn oversized_name_fails_update_and_mutates_nothing() {
    let owner = identity(9);
    let mut store = funded_store(&owner, ALLOCATION_COST);
    assert_eq!(store.initialize(&owner, 6, &b"Short".to_vec(), 70), Ok(()));
    let long = vec![b'y'; MERCHANT_NAME_CAPACITY + 1];
    assert_eq!(
        store.update(&owner, 6, &long, 80),
        Err(RecordError::SerializationOverflow)
    );
    let rec = store.read(&owner, 6).unwrap();
    assert_eq!(rec.merchant_name, b"Short".to_vec());
    assert_eq!(rec.amount, 70);
}

#[test]
fn name_at_exact_capacity_is_accepted() {
    let owner = identity(10);
    let mut store = funded_store(&owner, ALLOCATION_COST);
    let name = vec![b'z'; MERCHANT_NAME_CAPACITY];
    assert_eq!(store.initialize(&owner, 12, &name, 1), Ok(()));
    let rec = store.read(&owner, 12).unwrap();
    assert_eq!(rec.merchant_name, name);
}

#[test]
fn empty_name_is_accepted() {
    let owner = identity(11);
    let mut store = funded_store(&owner, ALLOCATION_COST);
    assert_eq!(store.initialize(&owner, 13, &Vec::new(), 0), Ok(()));
    let rec = store.read(&owner, 13).unwrap();
    assert_eq!(rec.merchant_name, Vec::<u8>::new());
    assert_eq!(rec.amount, 0);
}

#[test]
fn insufficient_funds_fails_create() {
    let owner = identity(12);
    let mut store = funded_store(&owner, ALLOCATION_COST - 1);
    assert_eq!(
        store.initialize(&owner, 1, &b"Too poor".to_vec(), 1),
        Err(RecordError::InsufficientFunds)
    );
    assert_eq!(store.read(&owner, 1), Err(RecordError::RecordNotFound));
    assert_eq!(store.balance_of(&owner), ALLOCATION_COST - 1);
}

#[test]
fn create_charges_allocation_cost() {
    let owner = identity(13);
    let mut store = funded_store(&owner, ALLOCATION_COST + 17);
    assert_eq!(store.initialize(&owner, 5, &b"Fuel".to_vec(), 30), Ok(()));
    assert_eq!(store.balance_of(&owner), 17);
}

#[test]
fn records_of_distinct_ids_are_independent() {
    let owner = identity(14);
    let mut store = funded_store(&owner, 2 * ALLOCATION_COST);
    assert_eq!(store.initialize(&owner, 1, &b"One".to_vec(), 10), Ok(()));
    assert_eq!(store.initialize(&owner, 2, &b"Two".to_vec(), 20), Ok(()));
    assert_eq!(store.delete(&owner, 1), Ok(()));
    assert_eq!(store.read(&owner, 1), Err(RecordError::RecordNotFound));
    let rec = store.read(&owner, 2).unwrap();
    assert_eq!(rec.merchant_name, b"Two".to_vec());
}

#[test]
fn records_of_distinct_owners_are_independent() {
    let alice = identity(15);
    let bob = identity(16);
    let mut store = RecordStore::new();
    store.fund(&alice, ALLOCATION_COST);
    store.fund(&bob, ALLOCATION_COST);
    assert_eq!(store.initialize(&alice, 5, &b"Alice's".to_vec(), 1), Ok(()));
    assert_eq!(store.read(&bob, 5), Err(RecordError::RecordNotFound));
    assert_eq!(store.initialize(&bob, 5, &b"Bob's".to_vec(), 2), Ok(()));
    let rec = store.read(&alice, 5).unwrap();
    assert_eq!(rec.merchant_name, b"Alice's".to_vec());
    let rec = store.read(&bob, 5).unwrap();
    assert_eq!(rec.merchant_name, b"Bob's".to_vec());
}

#[test]
fn create_after_delete_succeeds() {
    let owner = identity(17);
    let mut store = funded_store(&owner, ALLOCATION_COST);
    assert_eq!(store.initialize(&owner, 8, &b"Old".to_vec(), 1), Ok(()));
    assert_eq!(store.delete(&owner, 8), Ok(()));
    assert_eq!(store.initialize(&owner, 8, &b"New".to_vec(), 2), Ok(()));
    let rec = store.read(&owner, 8).unwrap();
    assert_eq!(rec.merchant_name, b"New".to_vec());
    assert_eq!(rec.amount, 2);
}

#[test]
fn funding_accumulates() {
    let owner = identity(18);
    let mut store = RecordStore::new();
    assert_eq!(store.balance_of(&owner), 0);
    store.fund(&owner, 40);
    store.fund(&owner, 2);
    assert_eq!(store.balance_of(&owner), 42);
}
