use token_ledger::account::AccountId;
use token_ledger::event::Event;
use token_ledger::ledger::TokenLedger;

fn alice() -> AccountId {
    AccountId(1)
}

fn bob() -> AccountId {
    AccountId(2)
}

fn charlie() -> AccountId {
    AccountId(3)
}

#[test]
fn default_works() {
    let ledger = TokenLedger::new(0, alice());
    assert_eq!(ledger.total_supply(), 0);
    assert_eq!(ledger.balance_of(alice()), 0);
    assert_eq!(ledger.allowance(alice(), bob()), 0);
    assert_eq!(ledger.events().len(), 1);
    assert_eq!(
        ledger.events()[0],
        Event::Transferred { from: None, to: Some(alice()), amount: 0 }
    );
}

#[test]
fn it_works() {
    let mut ledger = TokenLedger::new(100, alice());
    assert!(ledger.transfer(alice(), bob(), 40));
    assert_eq!(ledger.balance_of(alice()), 60);
    assert_eq!(ledger.balance_of(bob()), 40);
    assert_eq!(ledger.total_supply(), 100);
}

#[test]
fn genesis_event() {
    let ledger = TokenLedger::new(1234, alice());
    assert_eq!(ledger.events().len(), 1);
    assert_eq!(
        ledger.events()[0],
        Event::Transferred { from: None, to: Some(alice()), amount: 1234 }
    );
    assert_eq!(ledger.total_supply(), 1234);
    assert_eq!(ledger.balance_of(alice()), 1234);
}

#[test]
fn approve_overwrites_does_not_add() {
    let mut ledger = TokenLedger::new(1000, alice());
    assert!(ledger.approve(alice(), bob(), 10));
    assert_eq!(ledger.allowance(alice(), bob()), 10);
    assert!(ledger.approve(alice(), bob(), 5));
    assert_eq!(ledger.allowance(alice(), bob()), 5);
}

#[test]
fn approve_emits_event_and_always_succeeds() {
    let mut ledger = TokenLedger::new(0, alice());
    // Zero amount, self-approval and re-approval are all legal.
    assert!(ledger.approve(alice(), alice(), 0));
    assert!(ledger.approve(alice(), bob(), 7));
    assert!(ledger.approve(alice(), bob(), 9));
    assert_eq!(ledger.events().len(), 4);
    assert_eq!(
        ledger.events()[1],
        Event::Approved { owner: alice(), spender: alice(), amount: 0 }
    );
    assert_eq!(
        ledger.events()[3],
        Event::Approved { owner: alice(), spender: bob(), amount: 9 }
    );
}

#[test]
fn transfer_from_decrements_allowance() {
    let mut ledger = TokenLedger::new(1000, alice());
    assert!(ledger.approve(alice(), bob(), 20));
    assert!(ledger.transfer_from(bob(), alice(), charlie(), 10));
    assert_eq!(ledger.allowance(alice(), bob()), 10);
    assert_eq!(ledger.balance_of(charlie()), 10);
    assert_eq!(ledger.balance_of(alice()), 990);
}

#[test]
fn insufficient_funds_rejected_without_side_effects() {
    let mut ledger = TokenLedger::new(1000, alice());
    assert_eq!(ledger.balance_of(alice()), 1000);
    assert!(!ledger.transfer(alice(), bob(), 1001));
    assert_eq!(ledger.balance_of(alice()), 1000);
    assert_eq!(ledger.balance_of(bob()), 0);
    assert_eq!(ledger.events().len(), 1);
}

#[test]
fn insufficient_allowance_rejected() {
    let mut ledger = TokenLedger::new(1000, alice());
    assert_eq!(ledger.allowance(alice(), bob()), 0);
    let before: usize = ledger.events().len();
    assert!(!ledger.transfer_from(bob(), alice(), bob(), 1));
    assert_eq!(ledger.events().len(), before);
    assert_eq!(ledger.balance_of(alice()), 1000);
    assert_eq!(ledger.balance_of(bob()), 0);
}

#[test]
fn sufficient_allowance_but_insufficient_funds_rejected_atomically() {
    let mut ledger = TokenLedger::new(5, alice());
    assert!(ledger.approve(alice(), bob(), 100));
    let before: usize = ledger.events().len();
    assert!(!ledger.transfer_from(bob(), alice(), charlie(), 10));
    // The allowance decrement must not take effect on the failing path.
    assert_eq!(ledger.allowance(alice(), bob()), 100);
    assert_eq!(ledger.balance_of(alice()), 5);
    assert_eq!(ledger.balance_of(charlie()), 0);
    assert_eq!(ledger.events().len(), before);
}

#[test]
fn event_count_matches_mutation_count() {
    let mut ledger = TokenLedger::new(1000, alice());
    assert_eq!(ledger.events().len(), 1);
    // Five successful mutating calls.
    assert!(ledger.transfer(alice(), bob(), 100));
    assert!(ledger.approve(alice(), bob(), 50));
    assert!(ledger.transfer_from(bob(), alice(), charlie(), 30));
    assert!(ledger.transfer(bob(), charlie(), 100));
    assert!(ledger.approve(bob(), alice(), 1));
    assert_eq!(ledger.events().len(), 1 + 5);
    // Failed calls add no event.
    assert!(!ledger.transfer(alice(), bob(), 10_000));
    assert!(!ledger.transfer_from(charlie(), alice(), bob(), 1));
    assert_eq!(ledger.events().len(), 1 + 5);
}

#[test]
fn allowance_exhaustion_scenario() {
    let mut ledger = TokenLedger::new(1234, alice());
    assert!(ledger.approve(alice(), bob(), 20));
    assert_eq!(ledger.allowance(alice(), bob()), 20);
    assert!(!ledger.transfer_from(bob(), alice(), charlie(), 25));
    assert_eq!(ledger.allowance(alice(), bob()), 20);
    assert!(ledger.transfer_from(bob(), alice(), charlie(), 10));
    assert_eq!(ledger.allowance(alice(), bob()), 10);
    assert_eq!(ledger.balance_of(charlie()), 10);
}

#[test]
fn self_transfer_is_net_neutral_but_still_checked_and_logged() {
    let mut ledger = TokenLedger::new(50, alice());
    assert!(ledger.transfer(alice(), alice(), 50));
    assert_eq!(ledger.balance_of(alice()), 50);
    assert_eq!(ledger.events().len(), 2);
    assert_eq!(
        ledger.events()[1],
        Event::Transferred { from: Some(alice()), to: Some(alice()), amount: 50 }
    );
    // A self-transfer of more than the balance fails like any other.
    assert!(!ledger.transfer(alice(), alice(), 51));
    assert_eq!(ledger.events().len(), 2);
}

#[test]
fn zero_amount_transfer_succeeds_and_emits() {
    let mut ledger = TokenLedger::new(10, alice());
    assert!(ledger.transfer(bob(), charlie(), 0));
    assert_eq!(ledger.events().len(), 2);
    assert_eq!(
        ledger.events()[1],
        Event::Transferred { from: Some(bob()), to: Some(charlie()), amount: 0 }
    );
    assert_eq!(ledger.balance_of(bob()), 0);
    assert_eq!(ledger.balance_of(charlie()), 0);
}

#[test]
fn supply_conserved_across_sequence() {
    let mut ledger = TokenLedger::new(1_000_000, alice());
    assert!(ledger.transfer(alice(), bob(), 300_000));
    assert!(ledger.approve(alice(), charlie(), 250_000));
    assert!(ledger.transfer_from(charlie(), alice(), charlie(), 200_000));
    assert!(!ledger.transfer(bob(), charlie(), 300_001));
    assert!(ledger.transfer(bob(), alice(), 1));
    let sum: u128 = ledger.balance_of(alice()) + ledger.balance_of(bob())
        + ledger.balance_of(charlie());
    assert_eq!(sum, 1_000_000);
    assert_eq!(ledger.total_supply(), 1_000_000);
}

#[test]
fn largest_supply_moves_without_overflow() {
    let mut ledger = TokenLedger::new(u128::MAX, alice());
    assert!(ledger.transfer(alice(), bob(), u128::MAX));
    assert_eq!(ledger.balance_of(alice()), 0);
    assert_eq!(ledger.balance_of(bob()), u128::MAX);
    assert!(ledger.approve(bob(), alice(), u128::MAX));
    assert!(ledger.transfer_from(alice(), bob(), alice(), u128::MAX));
    assert_eq!(ledger.balance_of(alice()), u128::MAX);
    assert_eq!(ledger.allowance(bob(), alice()), 0);
}

#[test]
fn queries_never_fail_on_unknown_accounts() {
    let ledger = TokenLedger::new(9, alice());
    assert_eq!(ledger.balance_of(AccountId(999)), 0);
    assert_eq!(ledger.allowance(AccountId(999), AccountId(1000)), 0);
    // Key order matters: first component is the owner, second the spender.
    let mut ledger = ledger;
    assert!(ledger.approve(alice(), bob(), 4));
    assert_eq!(ledger.allowance(alice(), bob()), 4);
    assert_eq!(ledger.allowance(bob(), alice()), 0);
}
