use erc20::AccountId;
use erc20::Approval;
use erc20::Burn;
use erc20::Create;
use erc20::Erc20;
use erc20::Error;
use erc20::Event;
use erc20::Issue;
use erc20::Transfer;
use erc20::TransferFrom;

fn alice() -> AccountId {
    AccountId { id: 1 }
}

fn bob() -> AccountId {
    AccountId { id: 2 }
}

fn charlie() -> AccountId {
    AccountId { id: 3 }
}

#[test]
fn absent_entries_read_as_zero() {
    let erc20 = Erc20::new(1000, alice());
    assert_eq!(erc20.balance_of(AccountId { id: 99 }), 0);
    assert_eq!(erc20.allowance(alice(), bob()), 0);
    assert_eq!(erc20.allowance(bob(), alice()), 0);
}

#[test]
fn each_success_emits_one_matching_event() {
    let mut erc20 = Erc20::new(1000, alice());
    assert_eq!(erc20.transfer(alice(), bob(), 100), Ok(()));
    assert_eq!(erc20.approve(alice(), charlie(), 200), Ok(()));
    assert_eq!(erc20.transfer_from(charlie(), alice(), bob(), 50), Ok(()));
    assert_eq!(erc20.burn(bob(), 25), Ok(()));
    assert_eq!(erc20.issue(alice(), 10), Ok(()));

    let events = erc20.events();
    assert_eq!(events.len(), 6);
    assert_eq!(
        events[0],
        Event::Create(Create {
            from: alice(),
            total_supply: 1000
        })
    );
    assert_eq!(
        events[1],
        Event::Transfer(Transfer {
            from: alice(),
            to: bob(),
            value: 100
        })
    );
    assert_eq!(
        events[2],
        Event::Approval(Approval {
            owner: alice(),
            spender: charlie(),
            value: 200
        })
    );
    assert_eq!(
        events[3],
        Event::TransferFrom(TransferFrom {
            from: charlie(),
            owner: alice(),
            to: bob(),
            value: 50
        })
    );
    assert_eq!(
        events[4],
        Event::Burn(Burn {
            from: bob(),
            value: 25
        })
    );
    assert_eq!(
        events[5],
        Event::Issue(Issue {
            issuer: alice(),
            value: 10
        })
    );
}

#[test]
fn failed_calls_change_nothing_and_emit_nothing() {
    let mut erc20 = Erc20::new(1000, alice());
    assert_eq!(erc20.approve(alice(), bob(), 300), Ok(()));
    let events_before = erc20.events().len();

    assert_eq!(
        erc20.transfer(alice(), bob(), 701),
        Err(Error::InsufficentBalance)
    );
    assert_eq!(
        erc20.approve(alice(), charlie(), 701),
        Err(Error::InsufficentBalance)
    );
    assert_eq!(
        erc20.transfer_from(bob(), alice(), charlie(), 301),
        Err(Error::InsufficentAllowance)
    );
    assert_eq!(erc20.burn(alice(), 701), Err(Error::InsufficentBalance));
    assert_eq!(erc20.issue(bob(), 1), Err(Error::NotIssuer));

    assert_eq!(erc20.total_supply(), 1000);
    assert_eq!(erc20.balance_of(alice()), 700);
    assert_eq!(erc20.balance_of(bob()), 0);
    assert_eq!(erc20.balance_of(charlie()), 0);
    assert_eq!(erc20.allowance(alice(), bob()), 300);
    assert_eq!(erc20.allowance(alice(), charlie()), 0);
    assert_eq!(erc20.events().len(), events_before);
}

#[test]
fn reapproving_adds_to_the_pocket() {
    let mut erc20 = Erc20::new(1000, alice());
    assert_eq!(erc20.approve(alice(), bob(), 100), Ok(()));
    assert_eq!(erc20.approve(alice(), bob(), 100), Ok(()));
    assert_eq!(erc20.balance_of(alice()), 800);
    assert_eq!(erc20.allowance(alice(), bob()), 200);
}

#[test]
fn approve_reserves_out_of_the_balance() {
    let mut erc20 = Erc20::new(1000, alice());
    assert_eq!(erc20.approve(alice(), bob(), 100), Ok(()));
    // The reserved tokens are neither spendable nor destroyed.
    assert_eq!(erc20.balance_of(alice()), 900);
    assert_eq!(erc20.total_supply(), 1000);
    // A delegated transfer credits the recipient straight from the pocket.
    assert_eq!(erc20.transfer_from(bob(), alice(), bob(), 100), Ok(()));
    assert_eq!(erc20.balance_of(alice()), 900);
    assert_eq!(erc20.balance_of(bob()), 100);
    assert_eq!(erc20.allowance(alice(), bob()), 0);
    assert_eq!(erc20.total_supply(), 1000);
}

#[test]
fn transfer_to_self_keeps_the_balance() {
    let mut erc20 = Erc20::new(1000, alice());
    assert_eq!(erc20.transfer(alice(), alice(), 400), Ok(()));
    assert_eq!(erc20.balance_of(alice()), 1000);
    assert_eq!(erc20.events().len(), 2);
}

#[test]
fn burn_shrinks_the_supply() {
    let mut erc20 = Erc20::new(1000, alice());
    assert_eq!(erc20.burn(alice(), 100), Ok(()));
    assert_eq!(erc20.balance_of(alice()), 900);
    assert_eq!(erc20.total_supply(), 900);
}

#[test]
fn issue_by_non_issuer_keeps_the_supply() {
    let mut erc20 = Erc20::new(1000, alice());
    assert_eq!(erc20.issue(bob(), 1000), Err(Error::NotIssuer));
    assert_eq!(erc20.total_supply(), 1000);
    assert_eq!(erc20.balance_of(bob()), 0);
    assert_eq!(erc20.events().len(), 1);
}

#[test]
fn zero_value_operations_succeed() {
    let mut erc20 = Erc20::new(0, alice());
    assert_eq!(erc20.total_supply(), 0);
    assert_eq!(erc20.balance_of(alice()), 0);
    assert_eq!(erc20.transfer(alice(), bob(), 0), Ok(()));
    assert_eq!(erc20.approve(alice(), bob(), 0), Ok(()));
    assert_eq!(erc20.transfer_from(bob(), alice(), charlie(), 0), Ok(()));
    assert_eq!(erc20.burn(alice(), 0), Ok(()));
    assert_eq!(erc20.issue(alice(), 0), Ok(()));
    assert_eq!(erc20.total_supply(), 0);
    assert_eq!(erc20.events().len(), 6);
}

#[test]
fn balances_and_pockets_always_account_for_the_supply() {
    let mut erc20 = Erc20::new(1000, alice());
    assert_eq!(erc20.transfer(alice(), bob(), 250), Ok(()));
    assert_eq!(erc20.approve(alice(), charlie(), 300), Ok(()));
    assert_eq!(erc20.transfer_from(charlie(), alice(), charlie(), 120), Ok(()));
    assert_eq!(erc20.burn(bob(), 50), Ok(()));
    assert_eq!(erc20.issue(alice(), 500), Ok(()));

    let balances = erc20.balance_of(alice()) + erc20.balance_of(bob()) + erc20.balance_of(charlie());
    let pockets = erc20.allowance(alice(), charlie());
    assert_eq!(balances + pockets, erc20.total_supply());
}
