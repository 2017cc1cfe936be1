//! The ledger itself: a state machine over balances, allowances and total
//! supply, with a fixed issuer and a notification log.

use crate::account::AccountId;
use crate::account::Balance;
use crate::errors::Error;
use crate::events::Approval;
use crate::events::Burn;
use crate::events::Create;
use crate::events::Event;
use crate::events::Issue;
use crate::events::Transfer;
use crate::events::TransferFrom;
use crate::store::allowance_get;
use crate::store::allowance_keys_distinct;
use crate::store::allowance_lookup;
use crate::store::allowance_set;
use crate::store::balance_get;
use crate::store::balance_keys_distinct;
use crate::store::balance_lookup;
use crate::store::balance_set;
use crate::store::lemma_allowance_lookup_le_sum;
use crate::store::lemma_balance_lookup_le_sum;
use crate::store::lemma_sum_allowances_nonneg;
use crate::store::lemma_sum_balances_nonneg;
use crate::store::sum_allowances;
use crate::store::sum_balances;
use vstd::prelude::*;

verus! {

/// The fungible-token ledger.
///
/// A missing balance or allowance entry reads as zero. Approving does not
/// merely authorize a ceiling: it moves tokens out of the owner's spendable
/// balance into an `(owner, spender)` allowance pocket, and a delegated
/// transfer draws from that pocket alone, crediting the recipient directly.
pub struct Erc20 {
    issuer: AccountId,
    total_supply: Balance,
    balances: Vec<(AccountId, Balance)>,
    allowances: Vec<((AccountId, AccountId), Balance)>,
    events: Vec<Event>,
}

impl Erc20 {
    /// The account's spendable balance; accounts never touched hold zero.
    pub closed spec fn spec_balance_of(self, account: AccountId) -> Balance {
        balance_lookup(self.balances@, account)
    }

    /// What `spender` may still draw from the pocket `owner` reserved for it.
    pub closed spec fn spec_allowance(self, owner: AccountId, spender: AccountId) -> Balance {
        allowance_lookup(self.allowances@, (owner, spender))
    }

    pub closed spec fn spec_total_supply(self) -> Balance {
        self.total_supply
    }

    pub closed spec fn spec_issuer(self) -> AccountId {
        self.issuer
    }

    /// The notification log, oldest first.
    pub closed spec fn spec_events(self) -> Seq<Event> {
        self.events@
    }

    /// The sum of all spendable balances.
    pub closed spec fn spec_balance_total(self) -> int {
        sum_balances(self.balances@)
    }

    /// The sum of all outstanding allowance pockets.
    pub closed spec fn spec_allowance_total(self) -> int {
        sum_allowances(self.allowances@)
    }

    /// Well-formedness: both stores hold each key at most once, and every
    /// token is accounted for — spendable balances plus reserved allowances
    /// equal the total supply. Construction establishes it and every
    /// operation preserves it.
    pub closed spec fn wf(self) -> bool {
        &&& balance_keys_distinct(self.balances@)
        &&& allowance_keys_distinct(self.allowances@)
        &&& self.spec_balance_total() + self.spec_allowance_total()
            == self.spec_total_supply() as int
    }

    /// Creates the ledger: `caller` becomes the issuer and holds the whole
    /// initial supply; no allowances exist; one `Create` notification is
    /// recorded. Construction cannot fail.
    pub fn new(total_supply: Balance, caller: AccountId) -> (ledger: Erc20)
        ensures
            ledger.wf(),
            ledger.spec_issuer() == caller,
            ledger.spec_total_supply() == total_supply,
            ledger.spec_balance_of(caller) == total_supply,
            forall|a: AccountId| a != caller ==> ledger.spec_balance_of(a) == 0,
            forall|o: AccountId, s: AccountId| ledger.spec_allowance(o, s) == 0,
            ledger.spec_events() == seq![
                Event::Create((Create { from: caller, total_supply: total_supply })),
            ],
    {
        let mut balances: Vec<(AccountId, Balance)> = Vec::new();
        balances.push((caller, total_supply));
        let mut events: Vec<Event> = Vec::new();
        events.push(Event::Create(Create { from: caller, total_supply }));
        let ledger = Erc20 {
            issuer: caller,
            total_supply,
            balances,
            allowances: Vec::new(),
            events,
        };
        proof {
            assert(ledger.balances@.drop_last() =~= Seq::<(AccountId, Balance)>::empty());
            assert(sum_balances(Seq::<(AccountId, Balance)>::empty()) == 0);
            assert(sum_balances(ledger.balances@) == total_supply);
            assert(ledger.allowances@ =~= Seq::<((AccountId, AccountId), Balance)>::empty());
            assert(sum_allowances(ledger.allowances@) == 0);
            assert forall|a: AccountId| a != caller implies ledger.spec_balance_of(a) == 0 by {
                assert(balance_lookup(ledger.balances@, a)
                    == balance_lookup(ledger.balances@.drop_last(), a));
            }
            assert(ledger.spec_events() =~= seq![
                Event::Create((Create { from: caller, total_supply: total_supply })),
            ]);
        }
        ledger
    }

    /// The number of tokens in existence.
    pub fn total_supply(&self) -> (r: Balance)
        ensures
            r == self.spec_total_supply(),
    {
        self.total_supply
    }

    /// The account with exclusive minting rights, fixed at construction.
    pub fn issuer(&self) -> (r: AccountId)
        ensures
            r == self.spec_issuer(),
    {
        self.issuer
    }

    /// The account's spendable balance, zero when the account is unknown.
    pub fn balance_of(&self, owner: AccountId) -> (r: Balance)
        requires
            self.wf(),
        ensures
            r == self.spec_balance_of(owner),
    {
        balance_get(&self.balances, owner)
    }

    /// What `spender` may still draw from `owner`'s reserved pocket, zero
    /// when no approval is outstanding.
    pub fn allowance(&self, owner: AccountId, spender: AccountId) -> (r: Balance)
        requires
            self.wf(),
        ensures
            r == self.spec_allowance(owner, spender),
    {
        allowance_get(&self.allowances, (owner, spender))
    }

    /// The notification log, oldest first. Construction and each successful
    /// mutating operation append exactly one record; failed calls append none.
    pub fn events(&self) -> (r: &Vec<Event>)
        ensures
            r@ == self.spec_events(),
    {
        &self.events
    }

    /// Moves `value` tokens from `from`'s balance to `to`'s, when `from` can
    /// cover them; otherwise fails and changes nothing.
    pub fn transfer_help(&mut self, from: AccountId, to: AccountId, value: Balance) -> (r: Result<
        (),
        Error,
    >)
        requires
            old(self).wf(),
        ensures
            final(self).wf(),
            final(self).spec_issuer() == old(self).spec_issuer(),
            r == (if old(self).spec_balance_of(from) < value {
                Result::<(), Error>::Err(Error::InsufficentBalance)
            } else {
                Result::<(), Error>::Ok(())
            }),
            r is Err ==> *final(self) == *old(self),
            r is Ok ==> transfer_post(*old(self), *final(self), from, to, value),
    {
        let from_balance: Balance = balance_get(&self.balances, from);
        if from_balance < value {
            return Err(Error::InsufficentBalance);
        }
        proof {
            lemma_balance_lookup_le_sum(self.balances@, from);
            lemma_sum_allowances_nonneg(self.allowances@);
        }
        balance_set(&mut self.balances, from, from_balance - value);
        let to_balance: Balance = balance_get(&self.balances, to);
        proof {
            lemma_balance_lookup_le_sum(self.balances@, to);
        }
        balance_set(&mut self.balances, to, to_balance + value);
        self.events.push(Event::Transfer(Transfer { from, to, value }));
        Ok(())
    }

    /// Entry point of a transfer: `caller` is the identity the hosting
    /// environment resolved for this call.
    pub fn transfer(&mut self, caller: AccountId, to: AccountId, value: Balance) -> (r: Result<
        (),
        Error,
    >)
        requires
            old(self).wf(),
        ensures
            final(self).wf(),
            final(self).spec_issuer() == old(self).spec_issuer(),
            r == (if old(self).spec_balance_of(caller) < value {
                Result::<(), Error>::Err(Error::InsufficentBalance)
            } else {
                Result::<(), Error>::Ok(())
            }),
            r is Err ==> *final(self) == *old(self),
            r is Ok ==> transfer_post(*old(self), *final(self), caller, to, value),
    {
        self.transfer_help(caller, to, value)
    }

    /// Reserves `value` tokens: they leave `owner`'s spendable balance and
    /// enter the `(owner, spender)` allowance pocket, adding to whatever the
    /// pocket already held. Fails, changing nothing, when `owner` cannot
    /// cover them.
    pub fn approve_help(&mut self, owner: AccountId, spender: AccountId, value: Balance) -> (r:
        Result<(), Error>)
        requires
            old(self).wf(),
        ensures
            final(self).wf(),
            final(self).spec_issuer() == old(self).spec_issuer(),
            r == (if old(self).spec_balance_of(owner) < value {
                Result::<(), Error>::Err(Error::InsufficentBalance)
            } else {
                Result::<(), Error>::Ok(())
            }),
            r is Err ==> *final(self) == *old(self),
            r is Ok ==> approve_post(*old(self), *final(self), owner, spender, value),
    {
        let owner_balance: Balance = balance_get(&self.balances, owner);
        if owner_balance < value {
            return Err(Error::InsufficentBalance);
        }
        proof {
            lemma_balance_lookup_le_sum(self.balances@, owner);
            lemma_allowance_lookup_le_sum(self.allowances@, (owner, spender));
        }
        balance_set(&mut self.balances, owner, owner_balance - value);
        let current: Balance = allowance_get(&self.allowances, (owner, spender));
        allowance_set(&mut self.allowances, (owner, spender), current + value);
        self.events.push(Event::Approval(Approval { owner, spender, value }));
        Ok(())
    }

    /// Entry point of an approval: the caller reserves funds for `spender`.
    pub fn approve(&mut self, caller: AccountId, spender: AccountId, value: Balance) -> (r: Result<
        (),
        Error,
    >)
        requires
            old(self).wf(),
        ensures
            final(self).wf(),
            final(self).spec_issuer() == old(self).spec_issuer(),
            r == (if old(self).spec_balance_of(caller) < value {
                Result::<(), Error>::Err(Error::InsufficentBalance)
            } else {
                Result::<(), Error>::Ok(())
            }),
            r is Err ==> *final(self) == *old(self),
            r is Ok ==> approve_post(*old(self), *final(self), caller, spender, value),
    {
        self.approve_help(caller, spender, value)
    }

    /// Spender `from` draws `value` tokens out of the `(owner, from)`
    /// allowance pocket into `to`'s balance. The owner's spendable balance is
    /// not touched: the tokens already left it when the approval was made.
    /// Fails, changing nothing, when the pocket cannot cover the draw.
    pub fn transfer_from_help(
        &mut self,
        from: AccountId,
        owner: AccountId,
        to: AccountId,
        value: Balance,
    ) -> (r: Result<(), Error>)
        requires
            old(self).wf(),
        ensures
            final(self).wf(),
            final(self).spec_issuer() == old(self).spec_issuer(),
            r == (if old(self).spec_allowance(owner, from) < value {
                Result::<(), Error>::Err(Error::InsufficentAllowance)
            } else {
                Result::<(), Error>::Ok(())
            }),
            r is Err ==> *final(self) == *old(self),
            r is Ok ==> transfer_from_post(*old(self), *final(self), from, owner, to, value),
    {
        let current: Balance = allowance_get(&self.allowances, (owner, from));
        if current < value {
            return Err(Error::InsufficentAllowance);
        }
        proof {
            lemma_allowance_lookup_le_sum(self.allowances@, (owner, from));
            lemma_sum_balances_nonneg(self.balances@);
        }
        allowance_set(&mut self.allowances, (owner, from), current - value);
        let to_balance: Balance = balance_get(&self.balances, to);
        proof {
            lemma_balance_lookup_le_sum(self.balances@, to);
        }
        balance_set(&mut self.balances, to, to_balance + value);
        self.events.push(Event::TransferFrom(TransferFrom { from, owner, to, value }));
        Ok(())
    }

    /// Entry point of a delegated transfer: `caller` spends from the pocket
    /// `from` reserved for it, crediting `to`.
    pub fn transfer_from(
        &mut self,
        caller: AccountId,
        from: AccountId,
        to: AccountId,
        value: Balance,
    ) -> (r: Result<(), Error>)
        requires
            old(self).wf(),
        ensures
            final(self).wf(),
            final(self).spec_issuer() == old(self).spec_issuer(),
            r == (if old(self).spec_allowance(from, caller) < value {
                Result::<(), Error>::Err(Error::InsufficentAllowance)
            } else {
                Result::<(), Error>::Ok(())
            }),
            r is Err ==> *final(self) == *old(self),
            r is Ok ==> transfer_from_post(*old(self), *final(self), caller, from, to, value),
    {
        self.transfer_from_help(caller, from, to, value)
    }

    /// Destroys `value` tokens out of `from`'s balance, shrinking the total
    /// supply with it. Fails, changing nothing, when `from` cannot cover them.
    pub fn burn_help(&mut self, from: AccountId, value: Balance) -> (r: Result<(), Error>)
        requires
            old(self).wf(),
        ensures
            final(self).wf(),
            final(self).spec_issuer() == old(self).spec_issuer(),
            r == (if old(self).spec_balance_of(from) < value {
                Result::<(), Error>::Err(Error::InsufficentBalance)
            } else {
                Result::<(), Error>::Ok(())
            }),
            r is Err ==> *final(self) == *old(self),
            r is Ok ==> burn_post(*old(self), *final(self), from, value),
    {
        let from_balance: Balance = balance_get(&self.balances, from);
        if from_balance < value {
            return Err(Error::InsufficentBalance);
        }
        proof {
            lemma_balance_lookup_le_sum(self.balances@, from);
            lemma_sum_allowances_nonneg(self.allowances@);
        }
        balance_set(&mut self.balances, from, from_balance - value);
        self.total_supply = self.total_supply - value;
        self.events.push(Event::Burn(Burn { from, value }));
        Ok(())
    }

    /// Entry point of a burn: the caller destroys their own tokens.
    pub fn burn(&mut self, caller: AccountId, value: Balance) -> (r: Result<(), Error>)
        requires
            old(self).wf(),
        ensures
            final(self).wf(),
            final(self).spec_issuer() == old(self).spec_issuer(),
            r == (if old(self).spec_balance_of(caller) < value {
                Result::<(), Error>::Err(Error::InsufficentBalance)
            } else {
                Result::<(), Error>::Ok(())
            }),
            r is Err ==> *final(self) == *old(self),
            r is Ok ==> burn_post(*old(self), *final(self), caller, value),
    {
        self.burn_help(caller, value)
    }

    /// Mints `value` new tokens into the issuer's balance, growing the total
    /// supply with them. Only the issuer may mint; anyone else fails and
    /// changes nothing. The supply bound is a machine limit: minting past the
    /// amount type's maximum is a programming error, not a recoverable one.
    pub fn issue_help(&mut self, from: AccountId, value: Balance) -> (r: Result<(), Error>)
        requires
            old(self).wf(),
            from == old(self).spec_issuer() ==> old(self).spec_total_supply() + value
                <= u128::MAX,
        ensures
            final(self).wf(),
            final(self).spec_issuer() == old(self).spec_issuer(),
            r == (if from != old(self).spec_issuer() {
                Result::<(), Error>::Err(Error::NotIssuer)
            } else {
                Result::<(), Error>::Ok(())
            }),
            r is Err ==> *final(self) == *old(self),
            r is Ok ==> issue_post(*old(self), *final(self), from, value),
    {
        if from != self.issuer {
            return Err(Error::NotIssuer);
        }
        let from_balance: Balance = balance_get(&self.balances, from);
        proof {
            lemma_balance_lookup_le_sum(self.balances@, from);
            lemma_sum_allowances_nonneg(self.allowances@);
        }
        balance_set(&mut self.balances, from, from_balance + value);
        self.total_supply = self.total_supply + value;
        self.events.push(Event::Issue(Issue { issuer: from, value }));
        Ok(())
    }

    /// Entry point of an issue: the caller asks to mint; only the issuer may.
    pub fn issue(&mut self, caller: AccountId, value: Balance) -> (r: Result<(), Error>)
        requires
            old(self).wf(),
            caller == old(self).spec_issuer() ==> old(self).spec_total_supply() + value
                <= u128::MAX,
        ensures
            final(self).wf(),
            final(self).spec_issuer() == old(self).spec_issuer(),
            r == (if caller != old(self).spec_issuer() {
                Result::<(), Error>::Err(Error::NotIssuer)
            } else {
                Result::<(), Error>::Ok(())
            }),
            r is Err ==> *final(self) == *old(self),
            r is Ok ==> issue_post(*old(self), *final(self), caller, value),
    {
        self.issue_help(caller, value)
    }
}

/// The successful-transfer relation: `value` moved from `from`'s balance to
/// `to`'s, every other observable untouched, and exactly one matching
/// notification appended.
pub open spec fn transfer_post(
    pre: Erc20,
    post: Erc20,
    from: AccountId,
    to: AccountId,
    value: Balance,
) -> bool {
    &&& post.wf()
    &&& post.spec_issuer() == pre.spec_issuer()
    &&& post.spec_total_supply() == pre.spec_total_supply()
    &&& (if from == to {
        post.spec_balance_of(from) == pre.spec_balance_of(from)
    } else {
        post.spec_balance_of(from) == pre.spec_balance_of(from) - value
            && post.spec_balance_of(to) == pre.spec_balance_of(to) + value
    })
    &&& forall|a: AccountId|
        a != from && a != to ==> post.spec_balance_of(a) == pre.spec_balance_of(a)
    &&& forall|o: AccountId, s: AccountId| post.spec_allowance(o, s) == pre.spec_allowance(o, s)
    &&& post.spec_events() == pre.spec_events().push(
        Event::Transfer(Transfer { from, to, value }),
    )
}

/// The successful-approval relation: `value` left `owner`'s spendable balance
/// for the `(owner, spender)` pocket, which grew by it; every other
/// observable untouched, and exactly one matching notification appended.
pub open spec fn approve_post(
    pre: Erc20,
    post: Erc20,
    owner: AccountId,
    spender: AccountId,
    value: Balance,
) -> bool {
    &&& post.wf()
    &&& post.spec_issuer() == pre.spec_issuer()
    &&& post.spec_total_supply() == pre.spec_total_supply()
    &&& post.spec_balance_of(owner) == pre.spec_balance_of(owner) - value
    &&& forall|a: AccountId| a != owner ==> post.spec_balance_of(a) == pre.spec_balance_of(a)
    &&& post.spec_allowance(owner, spender) == pre.spec_allowance(owner, spender) + value
    &&& forall|o: AccountId, s: AccountId|
        !(o == owner && s == spender) ==> post.spec_allowance(o, s) == pre.spec_allowance(o, s)
    &&& post.spec_events() == pre.spec_events().push(
        Event::Approval(Approval { owner, spender, value }),
    )
}

/// The successful-delegated-transfer relation: `value` left the
/// `(owner, spender)` pocket for `to`'s balance; every other observable
/// untouched, and exactly one matching notification appended.
pub open spec fn transfer_from_post(
    pre: Erc20,
    post: Erc20,
    spender: AccountId,
    owner: AccountId,
    to: AccountId,
    value: Balance,
) -> bool {
    &&& post.wf()
    &&& post.spec_issuer() == pre.spec_issuer()
    &&& post.spec_total_supply() == pre.spec_total_supply()
    &&& post.spec_allowance(owner, spender) == pre.spec_allowance(owner, spender) - value
    &&& forall|o: AccountId, s: AccountId|
        !(o == owner && s == spender) ==> post.spec_allowance(o, s) == pre.spec_allowance(o, s)
    &&& post.spec_balance_of(to) == pre.spec_balance_of(to) + value
    &&& forall|a: AccountId| a != to ==> post.spec_balance_of(a) == pre.spec_balance_of(a)
    &&& post.spec_events() == pre.spec_events().push(
        Event::TransferFrom(TransferFrom { from: spender, owner, to, value }),
    )
}

/// The successful-burn relation: `value` left `from`'s balance and the total
/// supply alike; every other observable untouched, and exactly one matching
/// notification appended.
pub open spec fn burn_post(pre: Erc20, post: Erc20, from: AccountId, value: Balance) -> bool {
    &&& post.wf()
    &&& post.spec_issuer() == pre.spec_issuer()
    &&& post.spec_total_supply() == pre.spec_total_supply() - value
    &&& post.spec_balance_of(from) == pre.spec_balance_of(from) - value
    &&& forall|a: AccountId| a != from ==> post.spec_balance_of(a) == pre.spec_balance_of(a)
    &&& forall|o: AccountId, s: AccountId| post.spec_allowance(o, s) == pre.spec_allowance(o, s)
    &&& post.spec_events() == pre.spec_events().push(Event::Burn(Burn { from, value }))
}

/// The successful-issue relation: `value` fresh tokens entered the issuer's
/// balance and the total supply alike; every other observable untouched, and
/// exactly one matching notification appended.
pub open spec fn issue_post(pre: Erc20, post: Erc20, from: AccountId, value: Balance) -> bool {
    &&& post.wf()
    &&& post.spec_issuer() == pre.spec_issuer()
    &&& post.spec_total_supply() == pre.spec_total_supply() + value
    &&& post.spec_balance_of(from) == pre.spec_balance_of(from) + value
    &&& forall|a: AccountId| a != from ==> post.spec_balance_of(a) == pre.spec_balance_of(a)
    &&& forall|o: AccountId, s: AccountId| post.spec_allowance(o, s) == pre.spec_allowance(o, s)
    &&& post.spec_events() == pre.spec_events().push(Event::Issue(Issue { issuer: from, value }))
}

/// Conservation law: in every well-formed state — construction establishes
/// well-formedness and every operation preserves it — the spendable balances
/// and the reserved allowance pockets together account for exactly the total
/// supply.
pub proof fn lemma_supply_conservation(ledger: Erc20)
    requires
        ledger.wf(),
    ensures
        ledger.spec_balance_total() + ledger.spec_allowance_total()
            == ledger.spec_total_supply() as int,
{
}

/// When no allowance is outstanding, the balances alone sum to the total
/// supply. The qualification is needed: an approval parks tokens in a pocket
/// that is neither balance nor destroyed, so while one is outstanding the
/// balances sum to strictly less than the supply.
pub proof fn lemma_balances_cover_supply(ledger: Erc20)
    requires
        ledger.wf(),
        ledger.spec_allowance_total() == 0,
    ensures
        ledger.spec_balance_total() == ledger.spec_total_supply() as int,
{
}

/// No single balance can exceed the total supply (and, the amount type being
/// unsigned, none can fall below zero).
pub proof fn lemma_balance_bounded(ledger: Erc20, account: AccountId)
    requires
        ledger.wf(),
    ensures
        ledger.spec_balance_of(account) <= ledger.spec_total_supply(),
{
    lemma_balance_lookup_le_sum(ledger.balances@, account);
    lemma_sum_allowances_nonneg(ledger.allowances@);
}

/// No single allowance pocket can exceed the total supply (and, the amount
/// type being unsigned, none can fall below zero).
pub proof fn lemma_allowance_bounded(ledger: Erc20, owner: AccountId, spender: AccountId)
    requires
        ledger.wf(),
    ensures
        ledger.spec_allowance(owner, spender) <= ledger.spec_total_supply(),
{
    lemma_allowance_lookup_le_sum(ledger.allowances@, (owner, spender));
    lemma_sum_balances_nonneg(ledger.balances@);
}

} // verus!
