use generic_asset::asset_options;
use generic_asset::Error;
use generic_asset::GenericAsset;
use generic_asset::PermissionLatest;

fn new_test_ext() -> GenericAsset {
    GenericAsset::new(16000, 16001, 1000)
}

#[test]
fn issuing_asset_units_to_issuer_should_work() {
    let next_asset_id = 1000;
    let asset_id = 16000;
    let mut ga = new_test_ext();
    ga.endow(asset_id, 1, 100);
    let permissions = PermissionLatest::new(1);

    assert_eq!(ga.next_asset_id(), next_asset_id);
    assert!(ga.create(1, asset_options(100, permissions)).is_ok());
    assert_eq!(ga.next_asset_id(), next_asset_id + 1);

    assert_eq!(ga.total_issuance(next_asset_id), 100);
    assert_eq!(ga.free_balance(next_asset_id, 1), 100);
    assert_eq!(ga.free_balance(asset_id, 1), 100);
}

#[test]
fn issuing_with_next_asset_id_overflow_should_not_work() {
    let mut ga = GenericAsset::new(16000, 16001, u32::MAX);
    ga.endow(16000, 1, 100000);
    let permissions = PermissionLatest::new(1);

    assert_eq!(ga.create(1, asset_options(1, permissions)), Err(Error::NoIdAvailable));
    assert_eq!(ga.next_asset_id(), u32::MAX);
}

#[test]
fn querying_total_supply_should_work() {
    let asset_id = 1000;
    let mut ga = new_test_ext();
    ga.endow(16000, 1, 100000);
    let permissions = PermissionLatest::new(1);

    assert!(ga.create(1, asset_options(100, permissions)).is_ok());
    assert_eq!(ga.free_balance(asset_id, 1), 100);
    assert_eq!(ga.total_issuance(asset_id), 100);

    assert!(ga.transfer(1, asset_id, 2, 50).is_ok());
    assert_eq!(ga.free_balance(asset_id, 1), 50);
    assert_eq!(ga.free_balance(asset_id, 2), 50);
    assert_eq!(ga.total_issuance(asset_id), 100);

    assert!(ga.transfer(2, asset_id, 3, 31).is_ok());
    assert_eq!(ga.free_balance(asset_id, 1), 50);
    assert_eq!(ga.free_balance(asset_id, 2), 19);
    assert_eq!(ga.free_balance(asset_id, 3), 31);
    assert_eq!(ga.total_issuance(asset_id), 100);

    assert!(ga.transfer(1, asset_id, 1, 1).is_ok());
    assert_eq!(ga.free_balance(asset_id, 1), 50);
    assert_eq!(ga.total_issuance(asset_id), 100);
}

#[test]
fn transferring_amount_should_work() {
    let asset_id = 1000;
    let mut ga = new_test_ext();
    ga.endow(16000, 1, 100000);
    let permissions = PermissionLatest::new(1);

    assert!(ga.create(1, asset_options(100, permissions)).is_ok());
    assert_eq!(ga.free_balance(asset_id, 1), 100);
    assert!(ga.transfer(1, asset_id, 2, 40).is_ok());
    assert_eq!(ga.free_balance(asset_id, 1), 60);
    assert_eq!(ga.free_balance(asset_id, 2), 40);
}

#[test]
fn transferring_amount_should_fail_when_transferring_more_than_free_balance() {
    let asset_id = 1000;
    let mut ga = new_test_ext();
    ga.endow(16000, 1, 100000);
    let permissions = PermissionLatest::new(1);

    assert!(ga.create(1, asset_options(100, permissions)).is_ok());
    assert_eq!(ga.transfer(1, asset_id, 2, 2000), Err(Error::InsufficientBalance));
}

#[test]
fn transferring_less_than_one_unit_should_not_work() {
    let asset_id = 1000;
    let mut ga = new_test_ext();
    ga.endow(16000, 1, 100000);
    let permissions = PermissionLatest::new(1);

    assert!(ga.create(1, asset_options(100, permissions)).is_ok());
    assert_eq!(ga.free_balance(asset_id, 1), 100);
    assert_eq!(ga.transfer(1, asset_id, 2, 0), Err(Error::ZeroAmount));
}

#[test]
fn self_transfer_should_unchanged() {
    let asset_id = 1000;
    let mut ga = new_test_ext();
    ga.endow(16000, 1, 100000);
    let permissions = PermissionLatest::new(1);

    assert!(ga.create(1, asset_options(100, permissions)).is_ok());
    assert_eq!(ga.free_balance(asset_id, 1), 100);
    assert!(ga.transfer(1, asset_id, 1, 10).is_ok());
    assert_eq!(ga.free_balance(asset_id, 1), 100);
}

#[test]
fn transferring_more_units_than_total_supply_should_not_work() {
    let asset_id = 1000;
    let mut ga = new_test_ext();
    ga.endow(16000, 1, 100000);
    let permissions = PermissionLatest::new(1);

    assert!(ga.create(1, asset_options(100, permissions)).is_ok());
    assert_eq!(ga.free_balance(asset_id, 1), 100);
    assert_eq!(ga.transfer(1, asset_id, 2, 101), Err(Error::InsufficientBalance));
}

#[test]
fn staking_asset_id_should_correct() {
    let ga = new_test_ext();
    assert_eq!(ga.staking_asset_id(), 16000);
}

#[test]
fn spending_asset_id_should_correct() {
    let ga = new_test_ext();
    assert_eq!(ga.spending_asset_id(), 16001);
}

#[test]
fn total_balance_should_be_zero() {
    let ga = new_test_ext();
    assert_eq!(ga.total_balance(0, 0), 0);
}

#[test]
fn total_balance_should_be_equal_to_account_balance() {
    let asset_id = 1000;
    let mut ga = new_test_ext();
    ga.endow(16000, 1, 100000);
    let permissions = PermissionLatest::new(1);

    assert!(ga.create(1, asset_options(100, permissions)).is_ok());
    assert_eq!(ga.free_balance(asset_id, 1), 100);
    assert!(ga.reserve(asset_id, 1, 40).is_ok());
    assert_eq!(ga.reserved_balance(asset_id, 1), 40);
    assert_eq!(ga.free_balance(asset_id, 1), 60);
    assert_eq!(ga.total_balance(asset_id, 1), 100);
}

#[test]
fn free_balance_should_only_return_account_free_balance() {
    let mut ga = new_test_ext();
    ga.endow(1, 0, 50);
    ga.set_reserved_balance(1, 0, 70);
    assert_eq!(ga.free_balance(1, 0), 50);
}

#[test]
fn total_balance_should_be_equal_to_sum_of_account_balance_and_free_balance() {
    let mut ga = new_test_ext();
    ga.endow(1, 0, 50);
    ga.set_reserved_balance(1, 0, 70);
    assert_eq!(ga.total_balance(1, 0), 120);
}

#[test]
fn reserved_balance_should_only_return_account_reserved_balance() {
    let mut ga = new_test_ext();
    ga.endow(1, 0, 50);
    ga.set_reserved_balance(1, 0, 70);
    assert_eq!(ga.reserved_balance(1, 0), 70);
}

#[test]
fn set_reserved_balance_should_add_balance_as_reserved() {
    let mut ga = new_test_ext();
    ga.set_reserved_balance(1, 0, 50);
    assert_eq!(ga.reserved_balance(1, 0), 50);
}

#[test]
fn set_free_balance_should_add_amount_as_free_balance() {
    let mut ga = new_test_ext();
    ga.endow(1, 0, 100);
    ga.set_free_balance(1, 0, 50);
    assert_eq!(ga.free_balance(1, 0), 50);
}

#[test]
fn reserve_should_moves_amount_from_balance_to_reserved_balance() {
    let mut ga = new_test_ext();
    ga.endow(1, 0, 100);
    assert!(ga.reserve(1, 0, 70).is_ok());
    assert_eq!(ga.free_balance(1, 0), 30);
    assert_eq!(ga.reserved_balance(1, 0), 70);
}

#[test]
fn reserve_should_not_moves_amount_from_balance_to_reserved_balance() {
    let mut ga = new_test_ext();
    ga.endow(1, 0, 100);
    assert_eq!(ga.reserve(1, 0, 120), Err(Error::InsufficientBalance));
    assert_eq!(ga.free_balance(1, 0), 100);
    assert_eq!(ga.reserved_balance(1, 0), 0);
}

#[test]
fn unreserve_should_return_subtracted_value_from_unreserved_amount_by_actual_account_balance() {
    let mut ga = new_test_ext();
    ga.endow(1, 0, 100);
    ga.set_reserved_balance(1, 0, 100);
    assert_eq!(ga.unreserve(1, 0, 120), 20);
}

#[test]
fn unreserve_should_return_none() {
    let mut ga = new_test_ext();
    ga.endow(1, 0, 100);
    ga.set_reserved_balance(1, 0, 100);
    assert_eq!(ga.unreserve(1, 0, 50), 0);
}

#[test]
fn unreserve_should_increase_free_balance_by_reserved_balance() {
    let mut ga = new_test_ext();
    ga.endow(1, 0, 100);
    ga.set_reserved_balance(1, 0, 100);
    ga.unreserve(1, 0, 120);
    assert_eq!(ga.free_balance(1, 0), 200);
}

#[test]
fn unreserve_should_deduct_reserved_balance_by_reserved_amount() {
    let mut ga = new_test_ext();
    ga.endow(1, 0, 100);
    ga.set_free_balance(1, 0, 100);
    ga.unreserve(1, 0, 120);
    assert_eq!(ga.reserved_balance(1, 0), 0);
}

#[test]
fn slash_should_return_slash_reserved_amount() {
    let mut ga = new_test_ext();
    ga.endow(1, 0, 100);
    ga.set_reserved_balance(1, 0, 100);
    assert_eq!(ga.slash(1, 0, 70), None);
    assert_eq!(ga.free_balance(1, 0), 30);
    assert_eq!(ga.total_balance(1, 0), 130);
}

#[test]
fn slash_reserved_should_deducts_up_to_amount_from_reserved_balance() {
    let mut ga = new_test_ext();
    ga.set_reserved_balance(1, 0, 100);
    assert_eq!(ga.slash_reserved(1, 0, 150), Some(50));
    assert_eq!(ga.reserved_balance(1, 0), 0);
}

#[test]
fn slash_reserved_should_return_none() {
    let mut ga = new_test_ext();
    ga.set_reserved_balance(1, 0, 100);
    assert_eq!(ga.slash_reserved(1, 0, 100), None);
    assert_eq!(ga.reserved_balance(1, 0), 0);
}

#[test]
fn repatriate_reserved_return_amount_subtracted_by_slash_amount() {
    let mut ga = new_test_ext();
    ga.set_reserved_balance(1, 0, 100);
    assert_eq!(ga.repatriate_reserved(1, 0, 1, 130), 30);
    assert_eq!(ga.free_balance(1, 1), 100);
}

#[test]
fn repatriate_reserved_return_none() {
    let mut ga = new_test_ext();
    ga.set_reserved_balance(1, 0, 100);
    assert_eq!(ga.repatriate_reserved(1, 0, 1, 90), 0);
    assert_eq!(ga.reserved_balance(1, 0), 10);
    assert_eq!(ga.free_balance(1, 1), 90);
}
