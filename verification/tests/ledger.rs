use chest::{Approval, Chest, Error, Minted, Redeemed, Transfer};
use ink_env::AccountId;

fn new_chest(price: u128) -> (Chest, AccountId, AccountId, AccountId) {
    let accounts = ink_env::test::default_accounts::<ink_env::DefaultEnvironment>();
    let chest = Chest::new(
        "Chest".to_string(),
        "CHEST".to_string(),
        18,
        accounts.alice,
        price,
    );
    (chest, accounts.alice, accounts.bob, accounts.charlie)
}

#[test]
fn create_contract_works() {
    let accounts = ink_env::test::default_accounts::<ink_env::DefaultEnvironment>();
    let chest = Chest::new("Chest".to_string(), "CHEST".to_string(), 18, accounts.alice, 100);
    assert_eq!(chest.name(), "Chest".to_string());
    assert_eq!(chest.symbol(), "CHEST".to_string());
    assert_eq!(chest.decimals(), 18);
    assert_eq!(chest.total_supply(), 0);
}

#[test]
fn mint_works() {
    let accounts = ink_env::test::default_accounts::<ink_env::DefaultEnvironment>();
    let mut chest = Chest::new("Chest".to_string(), "CHEST".to_string(), 18, accounts.alice, 100);
    let amount = 100_000;
    chest.mint(accounts.alice, amount).unwrap();
    assert_eq!(chest.total_supply(), amount);
    assert_eq!(chest.balance_of(accounts.alice), amount);
}

#[test]
fn redeem_works() {
    let accounts = ink_env::test::default_accounts::<ink_env::DefaultEnvironment>();
    let mut chest = Chest::new("Chest".to_string(), "CHEST".to_string(), 18, accounts.alice, 100);
    let amount = 100_000;
    chest.mint(accounts.alice, amount).unwrap();
    chest.redeem(accounts.alice, amount / 2).unwrap();
    assert_eq!(chest.total_supply(), amount / 2);
    assert_eq!(chest.balance_of(accounts.alice), amount / 2);
}

#[test]
fn redeem_not_enough_balance() {
    let accounts = ink_env::test::default_accounts::<ink_env::DefaultEnvironment>();
    let mut chest = Chest::new("Chest".to_string(), "CHEST".to_string(), 18, accounts.alice, 100);
    let amount = 100_000;
    chest.mint(accounts.alice, amount).unwrap();
    assert_eq!(chest.redeem(accounts.alice, amount * 2), Err(Error::InsufficientBalance));
    assert_eq!(chest.total_supply(), amount);
    assert_eq!(chest.balance_of(accounts.alice), amount);
    assert_eq!(chest.collateral_pool(), amount);
}

#[test]
fn redeem_not_enough_collateral() {
    let accounts = ink_env::test::default_accounts::<ink_env::DefaultEnvironment>();
    let mut chest = Chest::new("Chest".to_string(), "CHEST".to_string(), 18, accounts.alice, 100);
    let amount = 100_000;
    chest.mint(accounts.alice, amount).unwrap();
    chest.redeem(accounts.alice, amount).unwrap();
    // The balance is checked before the pool, and both are empty by now.
    assert_eq!(chest.redeem(accounts.alice, amount), Err(Error::InsufficientBalance));
    assert_eq!(chest.total_supply(), 0);
    assert_eq!(chest.collateral_pool(), 0);
}

#[test]
fn transfer_works() {
    let accounts = ink_env::test::default_accounts::<ink_env::DefaultEnvironment>();
    let mut chest = Chest::new("Chest".to_string(), "CHEST".to_string(), 18, accounts.alice, 100);
    let amount = 100_000;
    chest.mint(accounts.alice, amount).unwrap();

    // Transfer to Bob
    chest.transfer(accounts.alice, accounts.bob, amount / 2).unwrap();
    assert_eq!(chest.balance_of(accounts.alice), amount / 2);
    assert_eq!(chest.balance_of(accounts.bob), amount / 2);

    // Transfer from Bob to Charlie
    chest.approve(accounts.bob, accounts.bob, amount / 4);
    chest.transfer_from(accounts.bob, accounts.bob, accounts.charlie, amount / 4).unwrap();
    assert_eq!(chest.balance_of(accounts.bob), amount / 4);
    assert_eq!(chest.balance_of(accounts.charlie), amount / 4);
}

#[test]
fn transfer_not_enough_allowance() {
    let accounts = ink_env::test::default_accounts::<ink_env::DefaultEnvironment>();
    let mut chest = Chest::new("Chest".to_string(), "CHEST".to_string(), 18, accounts.alice, 100);
    let amount = 100_000;
    chest.mint(accounts.alice, amount).unwrap();

    chest.transfer(accounts.alice, accounts.bob, amount / 2).unwrap();
    chest.approve(accounts.bob, accounts.bob, amount / 4);
    assert_eq!(
        chest.transfer_from(accounts.bob, accounts.bob, accounts.charlie, amount / 2),
        Err(Error::InsufficientAllowance)
    );
    assert_eq!(chest.balance_of(accounts.bob), amount / 2);
    assert_eq!(chest.balance_of(accounts.charlie), 0);
    assert_eq!(chest.allowance(accounts.bob, accounts.bob), amount / 4);
}

#[test]
fn transfer_not_enough_balance() {
    let accounts = ink_env::test::default_accounts::<ink_env::DefaultEnvironment>();
    let mut chest = Chest::new("Chest".to_string(), "CHEST".to_string(), 18, accounts.alice, 100);
    let amount = 100_000;
    chest.mint(accounts.alice, amount).unwrap();

    assert_eq!(
        chest.transfer(accounts.alice, accounts.bob, amount * 2),
        Err(Error::InsufficientBalance)
    );
    assert_eq!(chest.balance_of(accounts.alice), amount);
    assert_eq!(chest.balance_of(accounts.bob), 0);
}

#[test]
fn new_ledger_is_empty() {
    let (chest, alice, bob, charlie) = new_chest(100);
    assert_eq!(chest.total_supply(), 0);
    assert_eq!(chest.collateral_pool(), 0);
    assert_eq!(chest.collateral_price(), 100);
    assert_eq!(chest.collateral_address(), alice);
    for account in [alice, bob, charlie] {
        assert_eq!(chest.balance_of(account), 0);
        for spender in [alice, bob, charlie] {
            assert_eq!(chest.allowance(account, spender), 0);
        }
    }
}

#[test]
fn two_ledgers_do_not_share_state() {
    let (mut first, alice, _, _) = new_chest(100);
    let (second, _, _, _) = new_chest(100);
    first.mint(alice, 7).unwrap();
    assert_eq!(first.balance_of(alice), 7);
    assert_eq!(second.balance_of(alice), 0);
    assert_eq!(second.total_supply(), 0);
}

#[test]
fn mint_reports_event_and_fills_pool() {
    let (mut chest, alice, _, _) = new_chest(100);
    let event = chest.mint(alice, 100_000);
    assert_eq!(event, Ok(Minted { from: alice, to: alice, amount: 100_000 }));
    assert_eq!(chest.total_supply(), 100_000);
    assert_eq!(chest.balance_of(alice), 100_000);
    assert_eq!(chest.collateral_pool(), 100_000);
}

#[test]
fn redeem_reports_event_and_drains_pool() {
    let (mut chest, alice, _, _) = new_chest(100);
    chest.mint(alice, 100_000).unwrap();
    let event = chest.redeem(alice, 50_000);
    assert_eq!(event, Ok(Redeemed { from: alice, to: alice, amount: 50_000 }));
    assert_eq!(chest.total_supply(), 50_000);
    assert_eq!(chest.balance_of(alice), 50_000);
    assert_eq!(chest.collateral_pool(), 50_000);
}

#[test]
fn collateral_is_rounded_down() {
    let (mut chest, alice, _, _) = new_chest(150);
    chest.mint(alice, 1).unwrap();
    assert_eq!(chest.collateral_pool(), 1);
    chest.mint(alice, 1).unwrap();
    assert_eq!(chest.collateral_pool(), 2);
    chest.mint(alice, 33).unwrap();
    // 33 * 150 / 100 = 49.5
    assert_eq!(chest.collateral_pool(), 51);
    assert_eq!(chest.total_supply(), 35);
    chest.redeem(alice, 33).unwrap();
    assert_eq!(chest.collateral_pool(), 2);
}

#[test]
fn redeem_fails_when_pool_is_short() {
    let (mut chest, alice, _, _) = new_chest(150);
    chest.mint(alice, 1).unwrap();
    chest.mint(alice, 1).unwrap();
    // Two mints of one unit deposited 1 + 1, a redeem of two releases 3.
    assert_eq!(chest.redeem(alice, 2), Err(Error::InsufficientCollateral));
    assert_eq!(chest.balance_of(alice), 2);
    assert_eq!(chest.total_supply(), 2);
    assert_eq!(chest.collateral_pool(), 2);
    assert_eq!(chest.redeem(alice, 1), Ok(Redeemed { from: alice, to: alice, amount: 1 }));
    assert_eq!(chest.collateral_pool(), 1);
}

#[test]
fn mint_fails_while_pool_stays_empty() {
    let (mut chest, alice, _, _) = new_chest(100);
    assert_eq!(chest.mint(alice, 0), Err(Error::CollateralPoolEmpty));
    let (mut free, alice, _, _) = new_chest(0);
    assert_eq!(free.mint(alice, 1_000), Err(Error::CollateralPoolEmpty));
    assert_eq!(free.total_supply(), 0);
    assert_eq!(free.balance_of(alice), 0);
    let (mut cheap, alice, _, _) = new_chest(1);
    assert_eq!(cheap.mint(alice, 99), Err(Error::CollateralPoolEmpty));
    assert_eq!(cheap.mint(alice, 100), Ok(Minted { from: alice, to: alice, amount: 100 }));
    assert_eq!(cheap.collateral_pool(), 1);
    // With something in the pool, a mint that adds nothing to it passes.
    assert_eq!(cheap.mint(alice, 0), Ok(Minted { from: alice, to: alice, amount: 0 }));
    assert_eq!(cheap.mint(alice, 99), Ok(Minted { from: alice, to: alice, amount: 99 }));
    assert_eq!(cheap.collateral_pool(), 1);
    assert_eq!(cheap.total_supply(), 199);
}

#[test]
fn mint_fails_on_overflow() {
    let (mut chest, alice, bob, _) = new_chest(100);
    chest.mint(alice, u128::MAX).unwrap();
    assert_eq!(chest.collateral_pool(), u128::MAX);
    assert_eq!(chest.mint(bob, 1), Err(Error::Overflow));
    assert_eq!(chest.total_supply(), u128::MAX);
    assert_eq!(chest.balance_of(bob), 0);

    let (mut dear, alice, _, _) = new_chest(200);
    assert_eq!(dear.mint(alice, u128::MAX), Err(Error::Overflow));
    assert_eq!(dear.collateral_pool(), 0);
    assert_eq!(dear.total_supply(), 0);

    // The pool has room, the supply has not.
    let (mut cheap, alice, bob, _) = new_chest(1);
    cheap.mint(alice, u128::MAX).unwrap();
    assert_eq!(cheap.collateral_pool(), u128::MAX / 100);
    assert_eq!(cheap.mint(bob, 1), Err(Error::Overflow));
    assert_eq!(cheap.collateral_pool(), u128::MAX / 100);
    assert_eq!(cheap.balance_of(bob), 0);
}

#[test]
fn collateral_is_exact_where_the_product_exceeds_128_bits() {
    let (mut chest, alice, _, _) = new_chest(100);
    let amount = 1u128 << 127;
    chest.mint(alice, amount).unwrap();
    assert_eq!(chest.collateral_pool(), amount);
    chest.redeem(alice, amount).unwrap();
    assert_eq!(chest.collateral_pool(), 0);
    assert_eq!(chest::required_collateral(u128::MAX, 100), Some(u128::MAX));
    assert_eq!(chest::required_collateral(u128::MAX, 99), Some(336879543251729078828740861357450529340));
    assert_eq!(chest::required_collateral(u128::MAX, 101), None);
    assert_eq!(chest::required_collateral(u128::MAX / 2, 200), Some(u128::MAX - 1));
    assert_eq!(chest::required_collateral(12_345, 67), Some(8_271));
    assert_eq!(chest::required_collateral(0, u128::MAX), Some(0));
    assert_eq!(chest::required_collateral(100, u128::MAX), Some(u128::MAX));
    assert_eq!(chest::required_collateral(101, u128::MAX), None);
}

#[test]
fn approve_overwrites_and_is_idempotent() {
    let (mut chest, alice, bob, charlie) = new_chest(100);
    let event = chest.approve(alice, bob, 10);
    assert_eq!(event, Approval { owner: alice, spender: bob, amount: 10 });
    assert_eq!(chest.allowance(alice, bob), 10);
    chest.approve(alice, bob, 10);
    assert_eq!(chest.allowance(alice, bob), 10);
    chest.approve(alice, bob, 3);
    assert_eq!(chest.allowance(alice, bob), 3);
    assert_eq!(chest.allowance(bob, alice), 0);
    assert_eq!(chest.allowance(alice, charlie), 0);
    chest.approve(alice, bob, 0);
    assert_eq!(chest.allowance(alice, bob), 0);
}

#[test]
fn transfer_round_trip_restores_balances() {
    let (mut chest, alice, bob, _) = new_chest(100);
    chest.mint(alice, 1_000).unwrap();
    chest.mint(bob, 10).unwrap();
    let there = chest.transfer(alice, bob, 400);
    assert_eq!(there, Ok(Transfer { from: alice, to: bob, amount: 400 }));
    assert_eq!(chest.balance_of(alice), 600);
    assert_eq!(chest.balance_of(bob), 410);
    let back = chest.transfer(bob, alice, 400);
    assert_eq!(back, Ok(Transfer { from: bob, to: alice, amount: 400 }));
    assert_eq!(chest.balance_of(alice), 1_000);
    assert_eq!(chest.balance_of(bob), 10);
    assert_eq!(chest.total_supply(), 1_010);
    assert_eq!(chest.collateral_pool(), 1_010);
}

#[test]
fn transfer_to_oneself_changes_nothing() {
    let (mut chest, alice, _, _) = new_chest(100);
    chest.mint(alice, 1_000).unwrap();
    assert_eq!(
        chest.transfer(alice, alice, 1_000),
        Ok(Transfer { from: alice, to: alice, amount: 1_000 })
    );
    assert_eq!(chest.balance_of(alice), 1_000);
    assert_eq!(chest.total_supply(), 1_000);
    assert_eq!(chest.transfer(alice, alice, 1_001), Err(Error::InsufficientBalance));
}

#[test]
fn transfer_of_nothing_from_an_unknown_account_succeeds() {
    let (mut chest, alice, bob, _) = new_chest(100);
    assert_eq!(chest.transfer(alice, bob, 0), Ok(Transfer { from: alice, to: bob, amount: 0 }));
    assert_eq!(chest.balance_of(alice), 0);
    assert_eq!(chest.balance_of(bob), 0);
    assert_eq!(chest.transfer(alice, bob, 1), Err(Error::InsufficientBalance));
}

#[test]
fn supply_equals_sum_of_balances() {
    let (mut chest, alice, bob, charlie) = new_chest(100);
    chest.mint(alice, 1_000).unwrap();
    chest.mint(bob, 500).unwrap();
    chest.transfer(alice, charlie, 250).unwrap();
    chest.redeem(bob, 100).unwrap();
    chest.transfer(charlie, bob, 50).unwrap();
    let sum = chest.balance_of(alice) + chest.balance_of(bob) + chest.balance_of(charlie);
    assert_eq!(chest.balance_of(alice), 750);
    assert_eq!(chest.balance_of(bob), 450);
    assert_eq!(chest.balance_of(charlie), 200);
    assert_eq!(chest.total_supply(), 1_400);
    assert_eq!(sum, chest.total_supply());
    assert_eq!(chest.collateral_pool(), 1_400);
}

#[test]
fn delegated_transfer_uses_the_allowance_of_owner_and_caller() {
    let (mut chest, alice, bob, charlie) = new_chest(100);
    chest.mint(alice, 100_000).unwrap();
    chest.transfer(alice, bob, 50_000).unwrap();
    chest.approve(alice, bob, 25_000);
    // Bob holds an allowance on Alice, none on himself.
    assert_eq!(
        chest.transfer_from(bob, bob, charlie, 25_000),
        Err(Error::InsufficientAllowance)
    );
    assert_eq!(chest.balance_of(bob), 50_000);
    assert_eq!(chest.balance_of(charlie), 0);
    assert_eq!(chest.allowance(alice, bob), 25_000);
    assert_eq!(
        chest.transfer_from(bob, alice, charlie, 10_000),
        Ok(Transfer { from: alice, to: charlie, amount: 10_000 })
    );
    assert_eq!(chest.balance_of(alice), 40_000);
    assert_eq!(chest.balance_of(charlie), 10_000);
    assert_eq!(chest.allowance(alice, bob), 15_000);
    assert_eq!(chest.total_supply(), 100_000);
}

#[test]
fn delegated_transfer_checks_allowance_before_balance() {
    let (mut chest, alice, bob, charlie) = new_chest(100);
    chest.mint(alice, 10).unwrap();
    assert_eq!(
        chest.transfer_from(bob, alice, charlie, 20),
        Err(Error::InsufficientAllowance)
    );
    chest.approve(alice, bob, 20);
    assert_eq!(chest.transfer_from(bob, alice, charlie, 20), Err(Error::InsufficientBalance));
    // The failed call consumed nothing.
    assert_eq!(chest.allowance(alice, bob), 20);
    assert_eq!(chest.balance_of(alice), 10);
    assert_eq!(chest.balance_of(charlie), 0);
}
