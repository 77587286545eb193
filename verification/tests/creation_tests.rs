use generic_asset::asset_options;
use generic_asset::Error;
use generic_asset::Event;
use generic_asset::GenericAsset;
use generic_asset::Owner;
use generic_asset::PermissionLatest;
use generic_asset::PermissionType;
use generic_asset::PermissionVersions;
use generic_asset::PermissionsV1;

fn new_test_ext() -> GenericAsset {
    GenericAsset::new(16000, 16001, 1000)
}

#[test]
fn create_reserved_should_create_a_default_account_with_the_balance_given() {
    let asset_id = 9;
    let mut ga = GenericAsset::new(16000, 16001, 10);
    let permissions = PermissionLatest::new(1);
    let options = asset_options(100, permissions);

    assert!(ga.create_reserved(asset_id, options).is_ok());
    assert_eq!(ga.total_issuance(asset_id), 100);
    assert_eq!(ga.free_balance(asset_id, 0), 100);
}

#[test]
fn create_reserved_with_non_reserved_asset_id_should_failed() {
    let mut ga = GenericAsset::new(16000, 16001, 10);
    let permissions = PermissionLatest::new(1);
    let options = asset_options(100, permissions);
    let asset_id = 11;

    // creating a reserved asset with asset_id >= next_asset_id must fail
    assert_eq!(ga.create_reserved(asset_id, options.clone()), Err(Error::IdUnavailable));
}

#[test]
fn create_reserved_with_a_taken_asset_id_should_failed() {
    let mut ga = GenericAsset::new(16000, 16001, 10);
    let permissions = PermissionLatest::new(1);
    let options = asset_options(100, permissions);
    let asset_id = 9;

    // creating a reserved asset with asset_id < next_asset_id succeeds
    assert!(ga.create_reserved(asset_id, options.clone()).is_ok());
    assert_eq!(ga.total_issuance(asset_id), 100);
    // all reserved assets belong to account 0, the default account
    assert_eq!(ga.free_balance(asset_id, 0), 100);
    // creating a reserved asset with the existing asset_id 9 must fail
    assert_eq!(ga.create_reserved(asset_id, options.clone()), Err(Error::IdAlreadyTaken));
}

#[test]
fn mint_without_permission_should_throw_error() {
    let mut ga = new_test_ext();
    assert_eq!(ga.mint(1, 9, 2, 100), Err(Error::NoMintPermission));
}

#[test]
fn mint_should_increase_asset() {
    let mut ga = new_test_ext();
    ga.endow(16000, 1, 100000);
    let origin = 1;
    let asset_id = 1000;
    let to_account = 2;
    let amount = 500;
    let initial_issuance = 100;
    let permissions = PermissionLatest::new(origin);

    assert!(ga.create(1, asset_options(initial_issuance, permissions)).is_ok());
    assert!(ga.mint(origin, asset_id, to_account, amount).is_ok());
    assert_eq!(ga.free_balance(asset_id, to_account), amount);
    // The origin's free balance must not change.
    assert_eq!(ga.free_balance(asset_id, origin), initial_issuance);
    assert_eq!(ga.total_issuance(asset_id), initial_issuance + amount);
}

#[test]
fn burn_should_throw_permission_error() {
    let mut ga = new_test_ext();
    ga.endow(16000, 1, 100000);
    let origin = 1;
    let asset_id = 4;
    let to_account = 2;
    let amount = 10;

    assert_eq!(ga.burn(origin, asset_id, to_account, amount), Err(Error::NoBurnPermission));
}

#[test]
fn burn_should_burn_an_asset() {
    let mut ga = new_test_ext();
    ga.endow(16000, 1, 100000);
    let origin = 1;
    let asset_id = 1000;
    let to_account = 2;
    let amount = 1000;
    let initial_issuance = 100;
    let burn_amount = 400;
    let permissions = PermissionLatest::new(origin);

    assert!(ga.create(1, asset_options(initial_issuance, permissions)).is_ok());
    assert!(ga.mint(origin, asset_id, to_account, amount).is_ok());
    assert_eq!(ga.total_issuance(asset_id), initial_issuance + amount);

    assert!(ga.burn(origin, asset_id, to_account, burn_amount).is_ok());
    assert_eq!(ga.free_balance(asset_id, to_account), amount - burn_amount);
    assert_eq!(ga.total_issuance(asset_id), initial_issuance + amount - burn_amount);
}

#[test]
fn check_permission_should_return_correct_permission() {
    let mut ga = new_test_ext();
    ga.endow(16000, 1, 100000);
    let origin = 1;
    let asset_id = 1000;
    let initial_issuance = 100;
    let permissions = PermissionLatest::new(origin);

    assert!(ga.create(1, asset_options(initial_issuance, permissions)).is_ok());
    assert!(ga.check_permission(asset_id, origin, &PermissionType::Burn));
    assert!(ga.check_permission(asset_id, origin, &PermissionType::Mint));
    assert!(ga.check_permission(asset_id, origin, &PermissionType::Update));
}

#[test]
fn check_permission_should_return_false_for_no_permission() {
    let mut ga = new_test_ext();
    ga.endow(16000, 1, 100000);
    let origin = 1;
    let asset_id = 1000;
    let initial_issuance = 100;
    let permissions = PermissionLatest::default();

    assert!(ga.create(1, asset_options(initial_issuance, permissions)).is_ok());
    assert!(!ga.check_permission(asset_id, origin, &PermissionType::Burn));
    assert!(!ga.check_permission(asset_id, origin, &PermissionType::Mint));
    assert!(!ga.check_permission(asset_id, origin, &PermissionType::Update));
}

#[test]
fn update_permission_should_change_permission() {
    let mut ga = new_test_ext();
    ga.endow(16000, 1, 100000);
    let origin = 1;
    let asset_id = 1000;
    let initial_issuance = 100;

    let permissions = PermissionLatest {
        update: Owner::Address(origin),
        mint: Owner::Nobody,
        burn: Owner::Nobody,
    };

    let new_permission = PermissionLatest {
        update: Owner::Address(origin),
        mint: Owner::Address(origin),
        burn: Owner::Nobody,
    };

    assert!(ga.create(1, asset_options(initial_issuance, permissions)).is_ok());
    assert!(ga.update_permission(origin, asset_id, new_permission).is_ok());
    assert!(ga.check_permission(asset_id, origin, &PermissionType::Mint));
    assert!(!ga.check_permission(asset_id, origin, &PermissionType::Burn));
}

#[test]
fn update_permission_should_throw_error_when_lack_of_permissions() {
    let mut ga = new_test_ext();
    ga.endow(16000, 1, 100000);
    let origin = 1;
    let asset_id = 1000;
    let initial_issuance = 100;

    let permissions = PermissionLatest::default();

    let new_permission = PermissionLatest {
        update: Owner::Address(origin),
        mint: Owner::Address(origin),
        burn: Owner::Nobody,
    };

    assert!(ga.create(1, asset_options(initial_issuance, permissions)).is_ok());
    assert_eq!(
        ga.update_permission(origin, asset_id, new_permission),
        Err(Error::NoUpdatePermission)
    );
}

#[test]
fn create_asset_works_with_given_asset_id_and_from_account() {
    let mut ga = GenericAsset::new(16000, 16001, 10);
    let origin = 1;
    let from_account: Option<u64> = Some(1);

    let permissions = PermissionLatest::new(origin);
    let expected_permission = PermissionVersions::V1(permissions.clone());
    let asset_id = 9;
    let initial_issuance = 100;

    assert!(ga.create_asset(Some(asset_id), from_account, asset_options(initial_issuance, permissions)).is_ok());
    // Check the side effects.
    assert_eq!(ga.next_asset_id(), 10);
    assert_eq!(ga.total_issuance(asset_id), initial_issuance);
    assert_eq!(ga.free_balance(asset_id, origin), initial_issuance);
    assert_eq!(ga.get_permission(asset_id), expected_permission);
}

#[test]
fn create_asset_with_non_reserved_asset_id_should_not_work() {
    let mut ga = GenericAsset::new(16000, 16001, 10);
    let origin = 1;
    let from_account: Option<u64> = Some(1);
    let permissions = PermissionLatest::new(origin);

    let asset_id = 11;

    assert_eq!(
        ga.create_asset(Some(asset_id), from_account, asset_options(100, permissions)),
        Err(Error::IdUnavailable)
    );
}

#[test]
fn create_asset_with_a_taken_asset_id_should_not_work() {
    let mut ga = GenericAsset::new(16000, 16001, 10);
    let origin = 1;
    let from_account: Option<u64> = Some(1);

    let permissions = PermissionLatest::new(origin);
    let asset_id = 9;

    assert!(ga.create_asset(Some(asset_id), from_account, asset_options(100, permissions.clone())).is_ok());
    assert_eq!(
        ga.create_asset(Some(asset_id), from_account, asset_options(100, permissions)),
        Err(Error::IdAlreadyTaken)
    );
}

#[test]
fn create_asset_should_create_a_reserved_asset_when_from_account_is_none() {
    let mut ga = GenericAsset::new(16000, 16001, 10);
    let origin = 1;
    let from_account: Option<u64> = None;

    let permissions = PermissionLatest::new(origin);
    let created_account_id = 0;
    let asset_id = 9;
    let initial_issuance = 100;

    assert!(ga.create_asset(Some(asset_id), from_account, asset_options(initial_issuance, permissions.clone())).is_ok());

    // Check the side effect.
    assert_eq!(ga.free_balance(asset_id, created_account_id), initial_issuance);
}

#[test]
fn create_asset_should_create_a_user_asset() {
    let mut ga = GenericAsset::new(16000, 16001, 10);
    let origin = 1;
    let from_account: Option<u64> = None;
    let permissions = PermissionLatest::new(origin);

    let created_account_id = 0;
    let reserved_asset_id = 100000;
    let initial_issuance = 100;
    let created_user_asset_id = 10;

    assert!(ga.create_asset(None, from_account, asset_options(initial_issuance, permissions)).is_ok());

    // Check the side effects.
    assert_eq!(ga.free_balance(reserved_asset_id, created_account_id), 0);
    assert_eq!(ga.free_balance(created_user_asset_id, created_account_id), initial_issuance);
    assert_eq!(ga.total_issuance(created_user_asset_id), initial_issuance);
}

#[test]
fn update_permission_should_raise_event() {
    let staking_asset_id = 16000;
    let asset_id = 1000;
    let origin = 1;
    let initial_balance = 1000;
    let permissions = PermissionLatest {
        update: Owner::Address(origin),
        mint: Owner::Address(origin),
        burn: Owner::Address(origin),
    };

    let mut ga = GenericAsset::new(staking_asset_id, 16001, asset_id);
    ga.endow(staking_asset_id, origin, initial_balance);

    assert!(ga.create(1, asset_options(0, permissions.clone())).is_ok());
    assert!(ga.update_permission(origin, asset_id, permissions.clone()).is_ok());

    let expected_event = Event::PermissionUpdated(asset_id, permissions.clone());
    assert!(ga.events().iter().any(|event| *event == expected_event));
}

#[test]
fn mint_should_raise_event() {
    let staking_asset_id = 16000;
    let asset_id = 1000;
    let origin = 1;
    let initial_balance = 1000;
    let permissions = PermissionLatest::new(origin);
    let to = 2;
    let amount = 100;

    let mut ga = GenericAsset::new(staking_asset_id, 16001, asset_id);
    ga.endow(staking_asset_id, origin, initial_balance);

    assert!(ga.create(1, asset_options(0, permissions)).is_ok());
    assert!(ga.mint(origin, asset_id, to, amount).is_ok());

    let expected_event = Event::Minted(asset_id, to, amount);
    assert!(ga.events().iter().any(|event| *event == expected_event));
}

#[test]
fn burn_should_raise_event() {
    let staking_asset_id = 16000;
    let asset_id = 1000;
    let origin = 1;
    let initial_balance = 1000;
    let permissions = PermissionLatest::new(origin);
    let amount = 100;

    let mut ga = GenericAsset::new(staking_asset_id, 16001, asset_id);
    ga.endow(staking_asset_id, origin, initial_balance);

    assert!(ga.create(1, asset_options(amount, permissions)).is_ok());
    assert!(ga.burn(origin, asset_id, origin, amount).is_ok());

    let expected_event = Event::Burned(asset_id, origin, amount);
    assert!(ga.events().iter().any(|event| *event == expected_event));
}

#[test]
fn can_set_asset_owner_permissions_in_genesis() {
    let (asset, owner) = (16001, 123);

    let mut ga = new_test_ext();
    ga.set_permission(asset, PermissionsV1::new(owner));

    let expected = PermissionVersions::V1(PermissionsV1::new(owner));
    let actual = ga.get_permission(asset);
    assert_eq!(expected, actual);
}
