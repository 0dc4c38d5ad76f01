use ink_sc::{AccountId, Error, InkSc, Mint, Transfer};

fn account(byte: u8) -> AccountId {
    AccountId::from([byte; 32])
}

/// The number of tokens among `0..limit` that `owner` owns.
fn tokens_owned(registry: &InkSc, owner: &AccountId, limit: u32) -> u32 {
    let mut owned = 0;
    for token_id in 0..limit {
        if registry.is_owner_of(token_id, owner) {
            owned += 1;
        }
    }
    owned
}

#[test]
fn default_initializer() {
    let ink_sc = InkSc::default(AccountId::from([0x1; 32]));
    let token_count = ink_sc.recorded_count(&AccountId::from([0x1; 32]));

    assert_eq!(ink_sc.owner(), AccountId::from([0x1; 32]));
    assert_eq!(token_count, None);
}

#[test]
fn mint() {
    //Given
    let mut ink_sc = InkSc::default(AccountId::from([0x1; 32]));
    let account_one = AccountId::from([0x1; 32]);
    let token_id = 95;

    //When
    ink_sc.mint(account_one, account_one, token_id).expect("Expected result");

    //Then
    assert_eq!(ink_sc.get_owner_of_token(95), account_one);
}

#[test]
fn transfer() {
    //Given
    let mut ink_sc = InkSc::default(AccountId::from([0x1; 32]));
    let account_one = AccountId::from([0x1; 32]);
    let account_two = AccountId::from([0x2; 32]);
    let token_id = 95;

    //When
    let minted = ink_sc.mint(account_one, account_one, token_id);
    let moved = ink_sc.transfer(account_one, account_one, account_two, token_id);

    //Then
    assert!(minted.is_ok());
    assert!(moved.is_ok());
    assert_eq!(ink_sc.recorded_count(&account_one), Some(0));
    assert_eq!(ink_sc.recorded_count(&account_two), Some(1));
}

#[test]
fn fresh_registry_has_no_tokens() {
    let admin = account(9);
    let registry = InkSc::default(admin);
    assert_eq!(registry.owner(), admin);
    assert_eq!(registry.owner_of(0), None);
    assert_eq!(registry.owner_of(95), None);
    assert_eq!(registry.owner_of(u32::MAX), None);
    assert_eq!(registry.recorded_count(&admin), None);
    assert!(!registry.is_owner_of(0, &admin));
}

#[test]
fn admin_mints_for_a_user() {
    let admin = account(1);
    let user1 = account(2);
    let mut registry = InkSc::default(admin);

    let minted = registry.mint(admin, user1, 95);

    assert_eq!(minted, Ok(Mint { receiver: user1, token_id: 95 }));
    assert_eq!(registry.get_owner_of_token(95), user1);
    assert_eq!(registry.count_of_owner(user1), 1);
    assert_eq!(registry.recorded_count(&admin), None);
}

#[test]
fn mint_by_a_user_is_refused() {
    let admin = account(1);
    let user1 = account(2);
    let mut registry = InkSc::default(admin);

    let minted = registry.mint(user1, user1, 96);

    assert_eq!(minted, Err(Error::NotOwner));
    assert_eq!(registry.owner_of(96), None);
    assert_eq!(registry.recorded_count(&user1), None);
    assert_eq!(registry.owner(), admin);
}

#[test]
fn mint_of_an_existing_token_is_refused() {
    let admin = account(1);
    let user1 = account(2);
    let user2 = account(3);
    let mut registry = InkSc::default(admin);
    assert!(registry.mint(admin, user1, 95).is_ok());

    let again = registry.mint(admin, user2, 95);

    assert_eq!(again, Err(Error::AlreadyMinted));
    assert_eq!(registry.get_owner_of_token(95), user1);
    assert_eq!(registry.count_of_owner(user1), 1);
    assert_eq!(registry.recorded_count(&user2), None);

    let same_receiver = registry.mint(admin, user1, 95);
    assert_eq!(same_receiver, Err(Error::AlreadyMinted));
    assert_eq!(registry.count_of_owner(user1), 1);
}

#[test]
fn a_user_who_mints_an_existing_token_is_told_not_owner() {
    let admin = account(1);
    let user1 = account(2);
    let mut registry = InkSc::default(admin);
    assert!(registry.mint(admin, user1, 95).is_ok());

    assert_eq!(registry.mint(user1, user1, 95), Err(Error::NotOwner));
}

#[test]
fn owner_transfers_a_token() {
    let admin = account(1);
    let user1 = account(2);
    let user2 = account(3);
    let mut registry = InkSc::default(admin);
    assert!(registry.mint(admin, user1, 95).is_ok());

    let moved = registry.transfer(user1, user1, user2, 95);

    assert_eq!(moved, Ok(Transfer { from: user1, to: user2, token_id: 95 }));
    assert_eq!(registry.count_of_owner(user1), 0);
    assert_eq!(registry.count_of_owner(user2), 1);
    assert_eq!(registry.get_owner_of_token(95), user2);
}

#[test]
fn transfer_by_someone_else_is_refused() {
    let admin = account(1);
    let user1 = account(2);
    let user2 = account(3);
    let user3 = account(4);
    let mut registry = InkSc::default(admin);
    assert!(registry.mint(admin, user1, 95).is_ok());
    assert!(registry.transfer(user1, user1, user2, 95).is_ok());

    let moved = registry.transfer(user1, user2, user3, 95);

    assert_eq!(moved, Err(Error::NotOwnedToken));
    assert_eq!(registry.get_owner_of_token(95), user2);
    assert_eq!(registry.count_of_owner(user2), 1);
    assert_eq!(registry.count_of_owner(user1), 0);
    assert_eq!(registry.recorded_count(&user3), None);
}

#[test]
fn transfer_of_a_token_never_minted_is_refused() {
    let admin = account(1);
    let user1 = account(2);
    let user2 = account(3);
    let mut registry = InkSc::default(admin);
    assert!(registry.mint(admin, user1, 95).is_ok());

    let moved = registry.transfer(user1, user1, user2, 999);

    assert_eq!(moved, Err(Error::NotOwnedToken));
    assert_eq!(registry.owner_of(999), None);
    assert_eq!(registry.count_of_owner(user1), 1);
    assert_eq!(registry.recorded_count(&user2), None);
}

#[test]
fn transfer_from_someone_who_does_not_own_the_token_is_refused() {
    let admin = account(1);
    let user1 = account(2);
    let user2 = account(3);
    let mut registry = InkSc::default(admin);
    assert!(registry.mint(admin, user1, 95).is_ok());

    // The caller names itself as giver, but the token is not its own.
    let moved = registry.transfer(user2, user2, user1, 95);

    assert_eq!(moved, Err(Error::NotOwnedToken));
    assert_eq!(registry.get_owner_of_token(95), user1);
    assert_eq!(registry.count_of_owner(user1), 1);
    assert_eq!(registry.recorded_count(&user2), None);
}

#[test]
fn the_admin_cannot_transfer_for_the_owner() {
    let admin = account(1);
    let user1 = account(2);
    let user2 = account(3);
    let mut registry = InkSc::default(admin);
    assert!(registry.mint(admin, user1, 95).is_ok());

    let moved = registry.transfer(admin, user1, user2, 95);

    assert_eq!(moved, Err(Error::NotOwnedToken));
    assert_eq!(registry.get_owner_of_token(95), user1);
}

#[test]
fn transfer_to_oneself_changes_nothing() {
    let admin = account(1);
    let user1 = account(2);
    let mut registry = InkSc::default(admin);
    assert!(registry.mint(admin, user1, 7).is_ok());
    assert!(registry.mint(admin, user1, 8).is_ok());

    let moved = registry.transfer(user1, user1, user1, 7);

    assert_eq!(moved, Ok(Transfer { from: user1, to: user1, token_id: 7 }));
    assert_eq!(registry.get_owner_of_token(7), user1);
    assert_eq!(registry.count_of_owner(user1), 2);
}

#[test]
fn a_giver_left_with_nothing_stays_recorded() {
    let admin = account(1);
    let user1 = account(2);
    let user2 = account(3);
    let mut registry = InkSc::default(admin);
    assert_eq!(registry.recorded_count(&user1), None);
    assert!(registry.mint(admin, user1, 1).is_ok());
    assert!(registry.transfer(user1, user1, user2, 1).is_ok());

    assert_eq!(registry.recorded_count(&user1), Some(0));
    assert_eq!(registry.count_of_owner(user1), 0);
    assert!(registry.transfer(user2, user2, user1, 1).is_ok());
    assert_eq!(registry.recorded_count(&user1), Some(1));
    assert_eq!(registry.recorded_count(&user2), Some(0));
}

#[test]
fn counts_are_the_numbers_of_tokens_owned() {
    let admin = account(1);
    let users = [account(2), account(3), account(4)];
    let mut registry = InkSc::default(admin);

    for token_id in 0..30u32 {
        let receiver = users[(token_id % 3) as usize];
        assert_eq!(registry.mint(admin, receiver, token_id), Ok(Mint { receiver, token_id }));
    }
    for token_id in 0..30u32 {
        if token_id % 2 == 0 {
            let from = users[(token_id % 3) as usize];
            let to = users[((token_id + 1) % 3) as usize];
            assert!(registry.transfer(from, from, to, token_id).is_ok());
        }
    }
    // Refused operations in between.
    assert_eq!(registry.mint(users[0], users[0], 100), Err(Error::NotOwner));
    assert_eq!(registry.mint(admin, users[0], 3), Err(Error::AlreadyMinted));
    assert_eq!(registry.transfer(admin, admin, users[0], 3), Err(Error::NotOwnedToken));

    let mut total = 0;
    for user in users.iter() {
        let owned = tokens_owned(&registry, user, 200);
        assert_eq!(registry.count_of_owner(*user), owned);
        total += owned;
    }
    assert_eq!(total, 30);
    assert_eq!(tokens_owned(&registry, &admin, 200), 0);
    assert_eq!(registry.recorded_count(&admin), None);
}

#[test]
fn a_token_has_one_owner() {
    let admin = account(1);
    let users = [account(2), account(3), account(4)];
    let mut registry = InkSc::default(admin);
    assert!(registry.mint(admin, users[0], 5).is_ok());
    assert!(registry.transfer(users[0], users[0], users[1], 5).is_ok());
    assert!(registry.transfer(users[1], users[1], users[2], 5).is_ok());

    let owners = users.iter().filter(|user| registry.is_owner_of(5, user)).count();

    assert_eq!(owners, 1);
    assert!(registry.is_owner_of(5, &users[2]));
    assert!(!registry.is_owner_of(5, &admin));
    assert!(!registry.is_owner_of(6, &users[2]));
    assert_eq!(registry.owner_of(5), Some(users[2]));
}

#[test]
fn asking_twice_gives_the_same_answer() {
    let admin = account(1);
    let user1 = account(2);
    let mut registry = InkSc::default(admin);
    assert!(registry.mint(admin, user1, 95).is_ok());

    let first_owner = registry.get_owner_of_token(95);
    let first_count = registry.count_of_owner(user1);
    let second_owner = registry.get_owner_of_token(95);
    let second_count = registry.count_of_owner(user1);

    assert_eq!(first_owner, second_owner);
    assert_eq!(first_count, second_count);
    assert_eq!(registry.owner_of(95), registry.owner_of(95));
    assert_eq!(registry.recorded_count(&user1), registry.recorded_count(&user1));
}

#[test]
fn the_admin_stays_the_admin() {
    let admin = account(1);
    let user1 = account(2);
    let user2 = account(3);
    let mut registry = InkSc::default(admin);
    assert!(registry.mint(admin, user1, 1).is_ok());
    assert!(registry.transfer(user1, user1, user2, 1).is_ok());
    assert!(registry.mint(user2, user2, 2).is_err());

    assert_eq!(registry.owner(), admin);
    assert!(registry.mint(admin, admin, 2).is_ok());
    assert_eq!(registry.count_of_owner(admin), 1);
}

#[test]
fn registries_are_independent() {
    let admin = account(1);
    let user1 = account(2);
    let mut first = InkSc::default(admin);
    let second = InkSc::default(user1);
    assert!(first.mint(admin, user1, 95).is_ok());

    assert_eq!(second.owner_of(95), None);
    assert_eq!(second.recorded_count(&user1), None);
    assert_eq!(second.owner(), user1);
}

#[test]
fn the_largest_token_id_can_be_minted() {
    let admin = account(1);
    let mut registry = InkSc::default(admin);

    assert_eq!(
        registry.mint(admin, admin, u32::MAX),
        Ok(Mint { receiver: admin, token_id: u32::MAX })
    );
    assert_eq!(registry.mint(admin, admin, 0), Ok(Mint { receiver: admin, token_id: 0 }));
    assert_eq!(registry.get_owner_of_token(u32::MAX), admin);
    assert_eq!(registry.count_of_owner(admin), 2);
}
