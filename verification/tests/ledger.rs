use erc20::AccountId;
use erc20::Erc20;
use erc20::Error;

fn default_accounts() -> (AccountId, AccountId, AccountId) {
    (AccountId { id: 1 }, AccountId { id: 2 }, AccountId { id: 3 })
}

#[test]
fn create_contract_works() {
    let (alice, bob, _charlie) = default_accounts();

    let erc20 = Erc20::new(1000, alice);

    assert_eq!(erc20.total_supply(), 1000);
    assert_eq!(erc20.balance_of(alice), 1000);
    assert_eq!(erc20.balance_of(bob), 0);
    assert_eq!(erc20.events().len(), 1);
}

#[test]
fn transfer_works() {
    let (alice, bob, _charlie) = default_accounts();

    let mut erc20 = Erc20::new(1000, alice);

    assert_eq!(erc20.total_supply(), 1000);
    assert_eq!(erc20.balance_of(alice), 1000);

    assert_eq!(erc20.transfer(alice, bob, 100), Ok(()));

    assert_eq!(erc20.balance_of(alice), 900);
    assert_eq!(erc20.balance_of(bob), 100);
    assert_eq!(erc20.events().len(), 2);
}

#[test]
fn transfer_failed_with_insufficentbalance() {
    let (alice, bob, _charlie) = default_accounts();

    let mut erc20 = Erc20::new(1000, alice);

    assert_eq!(erc20.total_supply(), 1000);
    assert_eq!(erc20.balance_of(alice), 1000);

    assert_eq!(
        erc20.transfer(alice, bob, 2000),
        Err(Error::InsufficentBalance)
    );
}

#[test]
fn approve_works() {
    let (alice, bob, charlie) = default_accounts();

    let mut erc20 = Erc20::new(1000, alice);

    assert_eq!(erc20.total_supply(), 1000);
    assert_eq!(erc20.balance_of(alice), 1000);
    assert_eq!(erc20.balance_of(bob), 0);
    assert_eq!(erc20.balance_of(charlie), 0);
    assert_eq!(erc20.allowance(alice, bob), 0);

    assert_eq!(erc20.approve(alice, bob, 100), Ok(()));

    assert_eq!(erc20.balance_of(alice), 900);
    assert_eq!(erc20.balance_of(bob), 0);
    assert_eq!(erc20.balance_of(charlie), 0);
    assert_eq!(erc20.allowance(alice, bob), 100);
    assert_eq!(erc20.events().len(), 2);

    assert_eq!(erc20.transfer_from(bob, alice, charlie, 50), Ok(()));

    assert_eq!(erc20.balance_of(alice), 900);
    assert_eq!(erc20.balance_of(bob), 0);
    assert_eq!(erc20.balance_of(charlie), 50);
    assert_eq!(erc20.allowance(alice, bob), 50);
}

#[test]
fn approve_failed_with_insufficientallowance() {
    let (alice, bob, charlie) = default_accounts();

    let mut erc20 = Erc20::new(1000, alice);

    assert_eq!(erc20.total_supply(), 1000);
    assert_eq!(erc20.balance_of(alice), 1000);
    assert_eq!(erc20.balance_of(bob), 0);
    assert_eq!(erc20.balance_of(charlie), 0);
    assert_eq!(erc20.allowance(alice, bob), 0);

    assert_eq!(erc20.approve(alice, bob, 100), Ok(()));

    assert_eq!(erc20.balance_of(alice), 900);
    assert_eq!(erc20.balance_of(bob), 0);
    assert_eq!(erc20.balance_of(charlie), 0);
    assert_eq!(erc20.allowance(alice, bob), 100);
    assert_eq!(erc20.events().len(), 2);

    assert_eq!(
        erc20.transfer_from(bob, alice, charlie, 500),
        Err(Error::InsufficentAllowance)
    );
}

#[test]
fn burn_works() {
    let (alice, _bob, _charlie) = default_accounts();

    let mut erc20 = Erc20::new(1000, alice);

    assert_eq!(erc20.total_supply(), 1000);
    assert_eq!(erc20.balance_of(alice), 1000);

    assert_eq!(erc20.burn(alice, 100), Ok(()));

    assert_eq!(erc20.balance_of(alice), 900);
    assert_eq!(erc20.events().len(), 2);
}

#[test]
fn burn_failed_with_insufficientbalance() {
    let (alice, _bob, _charlie) = default_accounts();

    let mut erc20 = Erc20::new(1000, alice);

    assert_eq!(erc20.total_supply(), 1000);
    assert_eq!(erc20.balance_of(alice), 1000);

    assert_eq!(erc20.burn(alice, 2000), Err(Error::InsufficentBalance));
}

#[test]
fn issue_works() {
    let (alice, _bob, _charlie) = default_accounts();

    let mut erc20 = Erc20::new(1000, alice);

    assert_eq!(erc20.total_supply(), 1000);
    assert_eq!(erc20.balance_of(alice), 1000);

    assert_eq!(erc20.issue(alice, 1000), Ok(()));

    assert_eq!(erc20.total_supply(), 2000);
    assert_eq!(erc20.balance_of(alice), 2000);
    assert_eq!(erc20.events().len(), 2);
}

#[test]
fn issue_failed_with_notissuer() {
    let (alice, bob, _charlie) = default_accounts();

    let mut erc20 = Erc20::new(1000, alice);

    assert_eq!(erc20.total_supply(), 1000);
    assert_eq!(erc20.balance_of(alice), 1000);

    assert_eq!(erc20.issue(bob, 1000), Err(Error::NotIssuer));
}
