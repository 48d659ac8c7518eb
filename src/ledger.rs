use vstd::prelude::*;
use crate::account::{AccountId, Balance};
use crate::table::{sum_of, AccountPair, Table};

verus! {

/// Signifies that `value` tokens moved from `from` to `to`; `from` is `None`
/// when the tokens were created.
#[derive(Clone, Copy, Debug, PartialEq, Eq)]
pub struct Transfer {
    pub from: Option<AccountId>,
    pub to: Option<AccountId>,
    pub value: Balance,
}

/// Signifies that `spender` may now spend up to `value` tokens of `owner`.
#[derive(Clone, Copy, Debug, PartialEq, Eq)]
pub struct Approval {
    pub owner: AccountId,
    pub spender: AccountId,
    pub value: Balance,
}

/// A record of a completed mutation of the ledger.
#[derive(Clone, Copy, Debug, PartialEq, Eq)]
pub enum Event {
    Transfer(Transfer),
    Approval(Approval),
}

/// The balances after `value` is taken from `from` and then added to `to`,
/// each read after the previous write (so a self-transfer changes nothing).
pub open spec fn moved(
    b: Map<Seq<u8>, nat>,
    from: Seq<u8>,
    to: Seq<u8>,
    value: nat,
) -> Map<Seq<u8>, nat> {
    let debited = b.insert(from, (b[from] - value) as nat);
    debited.insert(to, debited[to] + value)
}

/// The event recorded for a successful transfer.
pub open spec fn transfer_event(from: AccountId, to: AccountId, value: Balance) -> Event {
    Event::Transfer(Transfer { from: Some(from), to: Some(to), value })
}

/// A fungible-token ledger with a fixed total supply.
pub struct Psp20 {
    total_supply: Balance,
    balances: Table<AccountId>,
    allowances: Table<AccountPair>,
    events: Vec<Event>,
}

impl Psp20 {
    /// Both tables are well formed and the balances add up to the supply.
    pub closed spec fn wf(&self) -> bool {
        &&& self.balances.wf()
        &&& self.allowances.wf()
        &&& self.balances.total() == self.total_supply
    }

    /// The total supply, fixed at creation.
    pub closed spec fn supply(&self) -> nat {
        self.total_supply as nat
    }

    /// The balance of every account; an untouched account has zero.
    pub closed spec fn balances(&self) -> Map<Seq<u8>, nat> {
        self.balances@
    }

    /// The allowance of every (owner, spender) pair; an unset pair has zero.
    pub closed spec fn allowances(&self) -> Map<(Seq<u8>, Seq<u8>), nat> {
        self.allowances@
    }

    /// The accounts that have a balance entry.
    pub closed spec fn accounts(&self) -> Seq<Seq<u8>> {
        self.balances.keys()
    }

    /// The events recorded and not yet taken.
    pub closed spec fn events(&self) -> Seq<Event> {
        self.events@
    }

    /// Creates a ledger whose whole `initial_supply` belongs to `creator`,
    /// and records the creation as a transfer from nobody.
    pub fn new(initial_supply: Balance, creator: AccountId) -> (r: Psp20)
        ensures
            r.wf(),
            r.supply() == initial_supply,
            r.balances() == Map::total(|a: Seq<u8>| 0nat).insert(creator@, initial_supply as nat),
            r.allowances() == Map::total(|p: (Seq<u8>, Seq<u8>)| 0nat),
            r.events() == seq![Event::Transfer(Transfer { from: None, to: Some(creator), value: initial_supply })],
    {
        let mut balances = Table::new();
        balances.set(creator, initial_supply);
        let mut events = Vec::new();
        events.push(Event::Transfer(Transfer { from: None, to: Some(creator), value: initial_supply }));
        Psp20 { total_supply: initial_supply, balances, allowances: Table::new(), events }
    }

    /// The total number of tokens.
    pub fn total_supply(&self) -> (r: Balance)
        ensures
            r == self.supply(),
    {
        self.total_supply
    }

    /// The number of tokens that `owner` holds.
    pub fn balance_of(&self, owner: AccountId) -> (r: Balance)
        requires
            self.wf(),
        ensures
            r == self.balances()[owner@],
    {
        self.balance_of_or_zero(&owner)
    }

    /// The number of tokens that `spender` may still spend from `owner`.
    pub fn allowance(&self, owner: AccountId, spender: AccountId) -> (r: Balance)
        requires
            self.wf(),
        ensures
            r == self.allowances()[(owner@, spender@)],
    {
        self.allowance_of_or_zero(&owner, &spender)
    }

    fn balance_of_or_zero(&self, owner: &AccountId) -> (r: Balance)
        requires
            self.wf(),
        ensures
            r == self.balances()[owner@],
    {
        self.balances.get(owner)
    }

    fn allowance_of_or_zero(&self, owner: &AccountId, spender: &AccountId) -> (r: Balance)
        requires
            self.wf(),
        ensures
            r == self.allowances()[(owner@, spender@)],
    {
        self.allowances.get(&AccountPair { owner: *owner, spender: *spender })
    }

    /// Moves `value` tokens from `caller` to `to`. Returns `false`, changing
    /// nothing, when `caller` holds less than `value`; otherwise moves the
    /// tokens, records a transfer event and returns `true`.
    pub fn transfer(&mut self, caller: AccountId, to: AccountId, value: Balance) -> (r: bool)
        requires
            old(self).wf(),
        ensures
            final(self).wf(),
            final(self).supply() == old(self).supply(),
            final(self).allowances() == old(self).allowances(),
            r == (old(self).balances()[caller@] >= value),
            r ==> final(self).balances() == moved(old(self).balances(), caller@, to@, value as nat),
            r ==> final(self).events() == old(self).events().push(transfer_event(caller, to, value)),
            !r ==> final(self).balances() == old(self).balances(),
            !r ==> final(self).events() == old(self).events(),
    {
        self.transfer_from_to(caller, to, value)
    }

    /// Lets `spender` spend up to `value` tokens of `caller`, replacing any
    /// earlier allowance for that pair, and records an approval event.
    /// Always returns `true`.
    pub fn approve(&mut self, caller: AccountId, spender: AccountId, value: Balance) -> (r: bool)
        requires
            old(self).wf(),
        ensures
            final(self).wf(),
            r,
            final(self).supply() == old(self).supply(),
            final(self).balances() == old(self).balances(),
            final(self).allowances() == old(self).allowances().insert((caller@, spender@), value as nat),
            final(self).events() == old(self).events().push(
                Event::Approval(Approval { owner: caller, spender, value }),
            ),
    {
        self.allowances.set(AccountPair { owner: caller, spender }, value);
        self.events.push(Event::Approval(Approval { owner: caller, spender, value }));
        true
    }

    /// Lets `caller` move `value` tokens from `from` to `to` on the strength
    /// of the allowance `from` gave it. Returns `false`, changing nothing,
    /// when that allowance is below `value`. Otherwise the allowance is first
    /// reduced by `value`, and then the tokens move as in a direct transfer;
    /// when `from` holds too little, the reduced allowance stays and `false`
    /// is returned.
    pub fn transfer_from(
        &mut self,
        caller: AccountId,
        from: AccountId,
        to: AccountId,
        value: Balance,
    ) -> (r: bool)
        requires
            old(self).wf(),
        ensures
            final(self).wf(),
            final(self).supply() == old(self).supply(),
            ({
                let allowed = old(self).allowances()[(from@, caller@)];
                if allowed < value {
                    &&& !r
                    &&& final(self).allowances() == old(self).allowances()
                    &&& final(self).balances() == old(self).balances()
                    &&& final(self).events() == old(self).events()
                } else {
                    &&& final(self).allowances() == old(self).allowances().insert(
                        (from@, caller@),
                        (allowed - value) as nat,
                    )
                    &&& r == (old(self).balances()[from@] >= value)
                    &&& r ==> final(self).balances() == moved(old(self).balances(), from@, to@, value as nat)
                    &&& r ==> final(self).events() == old(self).events().push(transfer_event(from, to, value))
                    &&& !r ==> final(self).balances() == old(self).balances()
                    &&& !r ==> final(self).events() == old(self).events()
                }
            }),
    {
        let allowance = self.allowance_of_or_zero(&from, &caller);
        if allowance < value {
            return false;
        }
        self.allowances.set(AccountPair { owner: from, spender: caller }, allowance - value);
        self.transfer_from_to(from, to, value)
    }

    /// The events recorded and not yet taken, oldest first.
    pub fn recorded_events(&self) -> (r: &Vec<Event>)
        ensures
            r@ == self.events(),
    {
        &self.events
    }

    /// Hands over the recorded events, oldest first, and clears the record.
    pub fn take_events(&mut self) -> (r: Vec<Event>)
        requires
            old(self).wf(),
        ensures
            final(self).wf(),
            r@ == old(self).events(),
            final(self).events() == Seq::<Event>::empty(),
            final(self).supply() == old(self).supply(),
            final(self).balances() == old(self).balances(),
            final(self).allowances() == old(self).allowances(),
    {
        let mut taken = Vec::new();
        std::mem::swap(&mut taken, &mut self.events);
        taken
    }

    /// Moves `value` tokens from `from` to `to` when `from` holds at least
    /// `value`, recording the transfer; otherwise changes nothing.
    fn transfer_from_to(&mut self, from: AccountId, to: AccountId, value: Balance) -> (r: bool)
        requires
            old(self).wf(),
        ensures
            final(self).wf(),
            final(self).supply() == old(self).supply(),
            final(self).allowances() == old(self).allowances(),
            r == (old(self).balances()[from@] >= value),
            r ==> final(self).balances() == moved(old(self).balances(), from@, to@, value as nat),
            r ==> final(self).events() == old(self).events().push(transfer_event(from, to, value)),
            !r ==> final(self).balances() == old(self).balances(),
            !r ==> final(self).events() == old(self).events(),
    {
        let from_balance = self.balance_of_or_zero(&from);
        if from_balance < value {
            return false;
        }
        self.balances.set(from, from_balance - value);

        let to_balance = self.balances.get(&to);
        proof {
            self.balances.lemma_entry_le_total(to@);
        }
        self.balances.set(to, to_balance + value);

        self.events.push(Event::Transfer(Transfer { from: Some(from), to: Some(to), value }));
        true
    }
}

/// Conservation: in a well-formed ledger the total supply equals the sum of
/// the balances of the accounts that were ever credited, each counted once,
/// and every other account holds nothing. Every operation keeps the ledger
/// well formed and the supply unchanged, so this holds after any sequence of
/// operations.
pub proof fn lemma_conservation(l: &Psp20)
    requires
        l.wf(),
    ensures
        l.supply() == sum_of(l.balances(), l.accounts()),
        l.accounts().no_duplicates(),
        forall|a: Seq<u8>| !l.accounts().contains(a) ==> l.balances()[a] == 0,
{
    l.balances.lemma_total_is_sum_over_keys();
}

/// No balance is negative, and none exceeds the total supply.
pub proof fn lemma_balance_bounded(l: &Psp20, a: Seq<u8>)
    requires
        l.wf(),
    ensures
        0 <= l.balances()[a] <= l.supply(),
{
    l.balances.lemma_entry_le_total(a);
}

/// Reading the same ledger twice gives the same answer, for each query.
pub proof fn lemma_reads_repeat(
    l: &Psp20,
    owner: AccountId,
    spender: AccountId,
    supply1: Balance,
    supply2: Balance,
    balance1: Balance,
    balance2: Balance,
    allowance1: Balance,
    allowance2: Balance,
)
    requires
        call_ensures(Psp20::total_supply, (l,), supply1),
        call_ensures(Psp20::total_supply, (l,), supply2),
        call_ensures(Psp20::balance_of, (l, owner), balance1),
        call_ensures(Psp20::balance_of, (l, owner), balance2),
        call_ensures(Psp20::allowance, (l, owner, spender), allowance1),
        call_ensures(Psp20::allowance, (l, owner, spender), allowance2),
    ensures
        supply1 == supply2,
        balance1 == balance2,
        allowance1 == allowance2,
{
}

} // verus!
