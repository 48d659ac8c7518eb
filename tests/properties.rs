use psp20::{AccountId, Approval, Event, Psp20, Transfer};

fn account(byte: u8) -> AccountId {
    AccountId::new([byte; 32])
}

fn transfer_event(from: Option<AccountId>, to: Option<AccountId>, value: u128) -> Event {
    Event::Transfer(Transfer { from, to, value })
}

#[test]
fn initialization_records_one_creation_event() {
    let alice = account(1);
    let psp20 = Psp20::new(100, alice);
    assert_eq!(psp20.total_supply(), 100);
    assert_eq!(psp20.balance_of(alice), 100);
    assert_eq!(psp20.recorded_events().clone(), vec![transfer_event(None, Some(alice), 100)]);
}

#[test]
fn transfer_success_moves_tokens_and_records_event() {
    let (alice, bob) = (account(1), account(2));
    let mut psp20 = Psp20::new(100, alice);
    assert!(psp20.transfer(alice, bob, 10));
    assert_eq!(psp20.balance_of(alice), 90);
    assert_eq!(psp20.balance_of(bob), 10);
    assert_eq!(psp20.recorded_events().len(), 2);
    assert_eq!(psp20.recorded_events()[1], transfer_event(Some(alice), Some(bob), 10));
}

#[test]
fn transfer_with_insufficient_funds_changes_nothing() {
    let (alice, bob, eve) = (account(1), account(2), account(5));
    let mut psp20 = Psp20::new(100, alice);
    assert!(!psp20.transfer(bob, eve, 10));
    assert_eq!(psp20.balance_of(alice), 100);
    assert_eq!(psp20.balance_of(bob), 0);
    assert_eq!(psp20.balance_of(eve), 0);
    assert_eq!(psp20.recorded_events().len(), 1);
}

#[test]
fn transfer_of_whole_balance_then_one_more_fails() {
    let (alice, bob) = (account(1), account(2));
    let mut psp20 = Psp20::new(100, alice);
    assert!(psp20.transfer(alice, bob, 100));
    assert_eq!(psp20.balance_of(alice), 0);
    assert!(!psp20.transfer(alice, bob, 1));
    assert_eq!(psp20.balance_of(bob), 100);
}

#[test]
fn self_transfer_keeps_balance_and_records_event() {
    let alice = account(1);
    let mut psp20 = Psp20::new(100, alice);
    assert!(psp20.transfer(alice, alice, 40));
    assert_eq!(psp20.balance_of(alice), 100);
    assert_eq!(psp20.recorded_events()[1], transfer_event(Some(alice), Some(alice), 40));
}

#[test]
fn approve_overwrites_earlier_allowance() {
    let (alice, bob) = (account(1), account(2));
    let mut psp20 = Psp20::new(100, alice);
    assert!(psp20.approve(alice, bob, 10));
    assert!(psp20.approve(alice, bob, 5));
    assert_eq!(psp20.allowance(alice, bob), 5);
    assert_eq!(psp20.allowance(bob, alice), 0);
    assert_eq!(
        psp20.recorded_events()[2],
        Event::Approval(Approval { owner: alice, spender: bob, value: 5 })
    );
}

#[test]
fn approve_beyond_balance_is_allowed() {
    let (alice, bob) = (account(1), account(2));
    let mut psp20 = Psp20::new(100, alice);
    assert!(psp20.approve(bob, alice, 1_000));
    assert_eq!(psp20.allowance(bob, alice), 1_000);
    assert_eq!(psp20.balance_of(bob), 0);
}

#[test]
fn delegated_transfer_spends_allowance() {
    let (alice, bob, eve) = (account(1), account(2), account(5));
    let mut psp20 = Psp20::new(100, alice);
    assert!(psp20.approve(alice, bob, 10));
    assert!(psp20.transfer_from(bob, alice, eve, 10));
    assert_eq!(psp20.allowance(alice, bob), 0);
    assert_eq!(psp20.balance_of(eve), 10);
    assert_eq!(psp20.balance_of(alice), 90);
    assert_eq!(psp20.recorded_events()[2], transfer_event(Some(alice), Some(eve), 10));
}

#[test]
fn delegated_transfer_over_allowance_changes_nothing() {
    let (alice, bob, eve) = (account(1), account(2), account(5));
    let mut psp20 = Psp20::new(100, alice);
    assert!(psp20.approve(alice, bob, 10));
    assert!(!psp20.transfer_from(bob, alice, eve, 11));
    assert_eq!(psp20.allowance(alice, bob), 10);
    assert_eq!(psp20.balance_of(alice), 100);
    assert_eq!(psp20.balance_of(eve), 0);
    assert_eq!(psp20.recorded_events().len(), 2);
}

#[test]
fn delegated_transfer_short_of_balance_still_spends_allowance() {
    let (alice, bob, eve) = (account(1), account(2), account(5));
    let mut psp20 = Psp20::new(100, alice);
    assert!(psp20.approve(bob, alice, 30));
    assert!(!psp20.transfer_from(alice, bob, eve, 20));
    assert_eq!(psp20.allowance(bob, alice), 10);
    assert_eq!(psp20.balance_of(bob), 0);
    assert_eq!(psp20.balance_of(eve), 0);
    assert_eq!(psp20.recorded_events().len(), 2);
}

#[test]
fn supply_is_conserved_over_operations() {
    let (alice, bob, eve) = (account(1), account(2), account(5));
    let mut psp20 = Psp20::new(1_000, alice);
    psp20.transfer(alice, bob, 300);
    psp20.transfer(bob, eve, 120);
    psp20.approve(eve, alice, 50);
    psp20.transfer_from(alice, eve, bob, 50);
    psp20.transfer(eve, eve, 10);
    psp20.transfer(bob, alice, 5_000);
    let sum = psp20.balance_of(alice) + psp20.balance_of(bob) + psp20.balance_of(eve);
    assert_eq!(psp20.total_supply(), 1_000);
    assert_eq!(sum, 1_000);
    assert_eq!(psp20.balance_of(alice), 700);
    assert_eq!(psp20.balance_of(bob), 230);
    assert_eq!(psp20.balance_of(eve), 70);
}

#[test]
fn largest_supply_moves_without_overflow() {
    let (alice, bob) = (account(1), account(2));
    let mut psp20 = Psp20::new(u128::MAX, alice);
    assert!(psp20.transfer(alice, bob, u128::MAX - 1));
    assert!(psp20.transfer(alice, bob, 1));
    assert_eq!(psp20.balance_of(bob), u128::MAX);
    assert_eq!(psp20.balance_of(alice), 0);
}

#[test]
fn zero_supply_is_accepted() {
    let (alice, bob) = (account(1), account(2));
    let mut psp20 = Psp20::new(0, alice);
    assert_eq!(psp20.total_supply(), 0);
    assert_eq!(psp20.balance_of(alice), 0);
    assert!(psp20.transfer(alice, bob, 0));
    assert!(!psp20.transfer(alice, bob, 1));
}

#[test]
fn reads_repeat() {
    let (alice, bob) = (account(1), account(2));
    let mut psp20 = Psp20::new(100, alice);
    psp20.approve(alice, bob, 7);
    assert_eq!(psp20.total_supply(), psp20.total_supply());
    assert_eq!(psp20.balance_of(alice), psp20.balance_of(alice));
    assert_eq!(psp20.allowance(alice, bob), psp20.allowance(alice, bob));
}

#[test]
fn take_events_hands_over_and_clears() {
    let (alice, bob) = (account(1), account(2));
    let mut psp20 = Psp20::new(100, alice);
    psp20.transfer(alice, bob, 1);
    let taken = psp20.take_events();
    assert_eq!(taken.len(), 2);
    assert_eq!(taken[0], transfer_event(None, Some(alice), 100));
    assert!(psp20.recorded_events().is_empty());
    assert_eq!(psp20.balance_of(bob), 1);
}

#[test]
fn account_ids_compare_by_bytes() {
    let mut bytes = [7u8; 32];
    assert_eq!(AccountId::new(bytes), AccountId::new(bytes));
    bytes[31] = 8;
    assert_ne!(AccountId::new(bytes), AccountId::new([7u8; 32]));
    assert_eq!(AccountId::new(bytes).to_bytes(), bytes);
}
