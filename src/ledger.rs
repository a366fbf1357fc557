use vstd::prelude::*;
use crate::account::AccountId;
use crate::error::Error;
use crate::event::{Approval, BlacklistUpdated, Burn, Event, Mint, Paused, Transfer};
use crate::store::{
    keys_unique, lemma_lookup_within_total, lemma_total_insert, lookup, or_zero, total, Store,
};

verus! {

/// The ledger: balances, allowances, restriction flags, the administrator,
/// the halt switch and the total supply.
///
/// Every operation takes the identity of its caller as its first argument
/// and, on success, returns the notification records it produced.
pub struct Token {
    balances: Store<AccountId, u128>,
    owner: AccountId,
    total_supply: u128,
    allowances: Store<(AccountId, AccountId), u128>,
    paused: bool,
    blacklist: Store<AccountId, bool>,
}

/// The sum of `am[0..n]`.
pub open spec fn sum_prefix(am: Seq<u128>, n: int) -> int
    decreases n,
{
    if n <= 0 {
        0
    } else {
        sum_prefix(am, n - 1) + am[n - 1]
    }
}

/// Sums of longer prefixes are no smaller.
pub proof fn lemma_sum_prefix_mono(am: Seq<u128>, n: int, m: int)
    requires
        0 <= n <= m,
    ensures
        0 <= sum_prefix(am, n) <= sum_prefix(am, m),
    decreases m,
{
    if n < m {
        lemma_sum_prefix_mono(am, n, m - 1);
    } else if n > 0 {
        lemma_sum_prefix_mono(am, n - 1, n - 1);
    }
}

/// Credits of the first `n` entries never exceed their amounts' sum, and grow with `n`.
pub proof fn lemma_credited_bounds(t: &Token, from: AccountId, rs: Seq<AccountId>, am: Seq<u128>, n: int, m: int)
    requires
        0 <= n <= m,
    ensures
        0 <= t.credited(from, rs, am, n) <= t.credited(from, rs, am, m),
        t.credited(from, rs, am, m) - t.credited(from, rs, am, n) <= sum_prefix(am, m) - sum_prefix(am, n),
    decreases m,
{
    if n < m {
        lemma_credited_bounds(t, from, rs, am, n, m - 1);
    } else if n > 0 {
        lemma_credited_bounds(t, from, rs, am, n - 1, n - 1);
    }
}

impl Token {
    /// The balance of `a`; zero where none was ever stored.
    pub closed spec fn spec_balance(&self, a: AccountId) -> u128 {
        or_zero(lookup(self.balances@, a))
    }

    /// What `spender` may still move out of `owner`'s balance.
    pub closed spec fn spec_allowance(&self, owner: AccountId, spender: AccountId) -> u128 {
        or_zero(lookup(self.allowances@, (owner, spender)))
    }

    /// Whether `a` is restricted.
    pub closed spec fn spec_blacklisted(&self, a: AccountId) -> bool {
        match lookup(self.blacklist@, a) {
            Some(b) => b,
            None => false,
        }
    }

    /// Whether transfers are halted.
    pub closed spec fn spec_paused(&self) -> bool {
        self.paused
    }

    /// The administrator.
    pub closed spec fn spec_owner(&self) -> AccountId {
        self.owner
    }

    /// The total supply.
    pub closed spec fn spec_supply(&self) -> u128 {
        self.total_supply
    }

    /// The sum of all balances.
    pub closed spec fn spec_sum_of_balances(&self) -> int {
        total(self.balances@)
    }

    /// The ledger's invariant: each store has one entry per key, and the total
    /// supply is the sum of all balances.
    pub closed spec fn wf(&self) -> bool {
        &&& keys_unique(self.balances@)
        &&& keys_unique(self.allowances@)
        &&& keys_unique(self.blacklist@)
        &&& total(self.balances@) == self.total_supply as int
    }

    /// Owner, halt switch and restrictions agree.
    pub open spec fn same_controls(&self, o: &Token) -> bool {
        &&& self.spec_owner() == o.spec_owner()
        &&& self.spec_paused() == o.spec_paused()
        &&& forall|x: AccountId| #[trigger] self.spec_blacklisted(x) == o.spec_blacklisted(x)
    }

    /// Balances and supply agree.
    pub open spec fn same_balances(&self, o: &Token) -> bool {
        &&& self.spec_supply() == o.spec_supply()
        &&& forall|x: AccountId| #[trigger] self.spec_balance(x) == o.spec_balance(x)
    }

    /// Allowances agree.
    pub open spec fn same_allowances(&self, o: &Token) -> bool {
        forall|a: AccountId, b: AccountId| #[trigger] self.spec_allowance(a, b) == o.spec_allowance(a, b)
    }

    /// Only balances differ, and only by moving `amount` from `from` to `to`.
    pub open spec fn moved(&self, o: &Token, from: AccountId, to: AccountId, amount: u128) -> bool {
        &&& self.same_controls(o)
        &&& self.spec_supply() == o.spec_supply()
        &&& forall|x: AccountId| #[trigger] o.spec_balance(x) as int == if x == from {
            self.spec_balance(x) - amount
        } else if x == to {
            self.spec_balance(x) + amount
        } else {
            self.spec_balance(x) as int
        }
    }

    /// Only allowances differ, and only the one of `(owner, spender)`, which is `amount`.
    pub open spec fn approved(&self, o: &Token, owner: AccountId, spender: AccountId, amount: u128) -> bool {
        &&& self.same_controls(o)
        &&& self.same_balances(o)
        &&& forall|a: AccountId, b: AccountId| #[trigger] o.spec_allowance(a, b) == if a == owner && b == spender {
            amount
        } else {
            self.spec_allowance(a, b)
        }
    }

    /// Restriction flags differ only at `account`, which is `flag`.
    pub open spec fn restricted(&self, o: &Token, account: AccountId, flag: bool) -> bool {
        &&& self.spec_owner() == o.spec_owner()
        &&& self.spec_paused() == o.spec_paused()
        &&& self.same_balances(o)
        &&& self.same_allowances(o)
        &&& forall|x: AccountId| #[trigger] self.spec_blacklisted(x)
            == if x == account { flag } else { o.spec_blacklisted(x) }
    }

    /// `self` is what setting the halt switch to `flag` by `caller` leaves of
    /// `o`, with result `r`: refused unless `caller` administers `o`.
    pub open spec fn paused_set(&self, o: &Token, caller: AccountId, flag: bool, r: Result<Event, Error>) -> bool {
        if caller != o.spec_owner() {
            r == Err::<Event, Error>(Error::Unauthorized) && *self == *o
        } else {
            &&& r == Ok::<Event, Error>(Event::Paused(Paused { is_paused: flag }))
            &&& self.spec_paused() == flag
            &&& self.spec_owner() == o.spec_owner()
            &&& forall|x: AccountId| #[trigger] self.spec_blacklisted(x) == o.spec_blacklisted(x)
            &&& self.same_balances(o)
            &&& self.same_allowances(o)
        }
    }

    /// `self` is what setting `account`'s restriction to `flag` by `caller`
    /// leaves of `o`, with result `r`: refused unless `caller` administers `o`.
    pub open spec fn blacklist_set(
        &self,
        o: &Token,
        caller: AccountId,
        account: AccountId,
        flag: bool,
        r: Result<Event, Error>,
    ) -> bool {
        if caller != o.spec_owner() {
            r == Err::<Event, Error>(Error::Unauthorized) && *self == *o
        } else {
            &&& r == Ok::<Event, Error>(Event::BlacklistUpdated(BlacklistUpdated { account, is_blacklisted: flag }))
            &&& self.restricted(o, account, flag)
        }
    }

    /// The error that `mint` by `caller` meets first, if any.
    pub open spec fn mint_error(&self, caller: AccountId, to: AccountId, amount: u128) -> Option<Error> {
        if caller != self.spec_owner() {
            Some(Error::Unauthorized)
        } else if self.spec_balance(to) + amount > u128::MAX || self.spec_supply() + amount > u128::MAX {
            Some(Error::Overflow)
        } else {
            None
        }
    }

    /// The error that `transfer` by `from` to `to` meets first, if any.
    pub open spec fn transfer_error(&self, from: AccountId, to: AccountId, amount: u128) -> Option<Error> {
        if self.spec_paused() {
            Some(Error::ContractPaused)
        } else if self.spec_blacklisted(from) || self.spec_blacklisted(to) {
            Some(Error::Blacklisted)
        } else if from == to {
            Some(Error::SelfTransfer)
        } else if self.spec_balance(from) < amount {
            Some(Error::InsufficientBalance)
        } else if self.spec_balance(to) + amount > u128::MAX {
            Some(Error::Overflow)
        } else {
            None
        }
    }

    /// The error that `transfer_from` by `spender` meets first, if any.
    pub open spec fn transfer_from_error(
        &self,
        spender: AccountId,
        from: AccountId,
        to: AccountId,
        amount: u128,
    ) -> Option<Error> {
        if self.spec_paused() {
            Some(Error::ContractPaused)
        } else if self.spec_blacklisted(from) || self.spec_blacklisted(to) {
            Some(Error::Blacklisted)
        } else if from == to {
            Some(Error::SelfTransfer)
        } else if self.spec_allowance(from, spender) < amount {
            Some(Error::InsufficientAllowance)
        } else if self.spec_balance(from) < amount {
            Some(Error::InsufficientBalance)
        } else if self.spec_balance(to) + amount > u128::MAX {
            Some(Error::Overflow)
        } else {
            None
        }
    }

    /// A batch entry for `r` from `from` is passed over: no credit, no record.
    pub open spec fn skipped(&self, from: AccountId, r: AccountId) -> bool {
        self.spec_blacklisted(r) || r == from
    }

    /// What the first `n` batch entries credit to `x`.
    pub open spec fn credit_to(&self, from: AccountId, rs: Seq<AccountId>, am: Seq<u128>, x: AccountId, n: int) -> int
        decreases n,
    {
        if n <= 0 {
            0
        } else {
            self.credit_to(from, rs, am, x, n - 1) + if rs[n - 1] == x && !self.skipped(from, rs[n - 1]) {
                am[n - 1] as int
            } else {
                0
            }
        }
    }

    /// What the first `n` batch entries credit in all.
    pub open spec fn credited(&self, from: AccountId, rs: Seq<AccountId>, am: Seq<u128>, n: int) -> int
        decreases n,
    {
        if n <= 0 {
            0
        } else {
            self.credited(from, rs, am, n - 1) + if !self.skipped(from, rs[n - 1]) {
                am[n - 1] as int
            } else {
                0
            }
        }
    }

    /// The records of the first `n` batch entries, in order.
    pub open spec fn batch_events(&self, from: AccountId, rs: Seq<AccountId>, am: Seq<u128>, n: int) -> Seq<Event>
        decreases n,
    {
        if n <= 0 {
            Seq::empty()
        } else if self.skipped(from, rs[n - 1]) {
            self.batch_events(from, rs, am, n - 1)
        } else {
            self.batch_events(from, rs, am, n - 1).push(
                Event::Transfer(Transfer { from, to: rs[n - 1], amount: am[n - 1] }),
            )
        }
    }

    /// The error that `batch_transfer` by `from` meets first, if any.
    pub open spec fn batch_error(&self, from: AccountId, rs: Seq<AccountId>, am: Seq<u128>) -> Option<Error> {
        if rs.len() != am.len() {
            Some(Error::BatchLengthMismatch)
        } else if self.spec_paused() {
            Some(Error::ContractPaused)
        } else if self.spec_blacklisted(from) {
            Some(Error::Blacklisted)
        } else if sum_prefix(am, am.len() as int) > u128::MAX {
            Some(Error::Overflow)
        } else if self.spec_balance(from) < sum_prefix(am, am.len() as int) {
            Some(Error::InsufficientBalance)
        } else {
            None
        }
    }

    fn set_balance(&mut self, a: AccountId, v: u128)
        requires
            keys_unique(old(self).balances@),
        ensures
            keys_unique(final(self).balances@),
            total(final(self).balances@) == total(old(self).balances@) - old(self).spec_balance(a) + v,
            forall|x: AccountId| #[trigger] final(self).spec_balance(x)
                == if x == a { v } else { old(self).spec_balance(x) },
            final(self).same_controls(old(self)),
            final(self).owner == old(self).owner,
            final(self).paused == old(self).paused,
            final(self).blacklist@ == old(self).blacklist@,
            final(self).total_supply == old(self).total_supply,
            final(self).allowances@ == old(self).allowances@,
            forall|x: AccountId, y: AccountId| #[trigger] final(self).spec_allowance(x, y)
                == old(self).spec_allowance(x, y),
    {
        self.balances.insert(a, v);
        proof {
            lemma_total_insert(old(self).balances@, self.balances@, a, v);
            assert forall|x: AccountId| #[trigger] self.spec_balance(x)
                == if x == a { v } else { old(self).spec_balance(x) } by {
                assert(lookup(self.balances@, x) == if x == a { Some(v) } else { lookup(old(self).balances@, x) });
            }
        }
    }

    /// Creates an empty ledger administered by `caller`.
    pub fn new(caller: AccountId) -> (r: Token)
        ensures
            r.wf(),
            r.spec_owner() == caller,
            r.spec_supply() == 0,
            !r.spec_paused(),
            forall|a: AccountId| #[trigger] r.spec_balance(a) == 0,
            forall|a: AccountId| !#[trigger] r.spec_blacklisted(a),
            forall|a: AccountId, b: AccountId| #[trigger] r.spec_allowance(a, b) == 0,
    {
        Token {
            balances: Store::new(),
            owner: caller,
            total_supply: 0,
            allowances: Store::new(),
            paused: false,
            blacklist: Store::new(),
        }
    }

    /// The balance of `account`.
    pub fn balance_of(&self, account: AccountId) -> (r: u128)
        ensures
            r == self.spec_balance(account),
    {
        match self.balances.get(&account) {
            Some(v) => v,
            None => 0,
        }
    }

    /// The administrator.
    pub fn owner(&self) -> (r: AccountId)
        ensures
            r == self.spec_owner(),
    {
        self.owner
    }

    /// The total supply.
    pub fn total_supply(&self) -> (r: u128)
        ensures
            r == self.spec_supply(),
    {
        self.total_supply
    }

    /// What `spender` may move out of `owner`'s balance.
    pub fn allowance(&self, owner: AccountId, spender: AccountId) -> (r: u128)
        ensures
            r == self.spec_allowance(owner, spender),
    {
        match self.allowances.get(&(owner, spender)) {
            Some(v) => v,
            None => 0,
        }
    }

    /// Whether transfers are halted.
    pub fn is_paused(&self) -> (r: bool)
        ensures
            r == self.spec_paused(),
    {
        self.paused
    }

    /// Whether `account` is restricted.
    pub fn is_blacklisted(&self, account: AccountId) -> (r: bool)
        ensures
            r == self.spec_blacklisted(account),
    {
        match self.blacklist.get(&account) {
            Some(b) => b,
            None => false,
        }
    }
    fn set_allowance(&mut self, owner: AccountId, spender: AccountId, v: u128)
        requires
            keys_unique(old(self).allowances@),
        ensures
            keys_unique(final(self).allowances@),
            old(self).approved(final(self), owner, spender, v),
            final(self).owner == old(self).owner,
            final(self).paused == old(self).paused,
            final(self).blacklist@ == old(self).blacklist@,
            final(self).total_supply == old(self).total_supply,
            final(self).balances@ == old(self).balances@,
    {
        self.allowances.insert((owner, spender), v);
        proof {
            assert forall|a: AccountId, b: AccountId| #[trigger] self.spec_allowance(a, b)
                == if a == owner && b == spender { v } else { old(self).spec_allowance(a, b) } by {
                assert(lookup(self.allowances@, (a, b)) == if (a, b) == (owner, spender) {
                    Some(v)
                } else {
                    lookup(old(self).allowances@, (a, b))
                });
            }
        }
    }

    fn set_blacklisted(&mut self, account: AccountId, flag: bool)
        requires
            keys_unique(old(self).blacklist@),
        ensures
            keys_unique(final(self).blacklist@),
            final(self).restricted(old(self), account, flag),
            final(self).owner == old(self).owner,
            final(self).paused == old(self).paused,
            final(self).total_supply == old(self).total_supply,
            final(self).balances@ == old(self).balances@,
            final(self).allowances@ == old(self).allowances@,
    {
        self.blacklist.insert(account, flag);
        proof {
            assert forall|x: AccountId| #[trigger] self.spec_blacklisted(x)
                == if x == account { flag } else { old(self).spec_blacklisted(x) } by {
                assert(lookup(self.blacklist@, x) == if x == account {
                    Some(flag)
                } else {
                    lookup(old(self).blacklist@, x)
                });
            }
        }
    }

    /// Creates `amount` units for `to`. Only the administrator may; the
    /// balance and the supply are both checked before either is written.
    pub fn mint(&mut self, caller: AccountId, to: AccountId, amount: u128) -> (r: Result<Event, Error>)
        requires
            old(self).wf(),
        ensures
            final(self).wf(),
            match old(self).mint_error(caller, to, amount) {
                Some(e) => r == Err::<Event, Error>(e) && *final(self) == *old(self),
                None => {
                    &&& r == Ok::<Event, Error>(Event::Mint(Mint { to, amount }))
                    &&& final(self).spec_supply() == old(self).spec_supply() + amount
                    &&& final(self).same_controls(old(self))
                    &&& forall|x: AccountId| #[trigger] final(self).spec_balance(x) as int
                        == if x == to { old(self).spec_balance(x) + amount } else { old(self).spec_balance(x) as int }
                    &&& forall|a: AccountId, b: AccountId| #[trigger] final(self).spec_allowance(a, b)
                        == old(self).spec_allowance(a, b)
                },
            },
    {
        if caller != self.owner {
            return Err(Error::Unauthorized);
        }
        let current = self.balance_of(to);
        let new_balance = match current.checked_add(amount) {
            Some(v) => v,
            None => return Err(Error::Overflow),
        };
        let new_supply = match self.total_supply.checked_add(amount) {
            Some(v) => v,
            None => return Err(Error::Overflow),
        };
        self.total_supply = new_supply;
        self.set_balance(to, new_balance);
        Ok(Event::Mint(Mint { to, amount }))
    }

    /// Destroys `amount` of the caller's units.
    pub fn burn(&mut self, caller: AccountId, amount: u128) -> (r: Result<Event, Error>)
        requires
            old(self).wf(),
        ensures
            final(self).wf(),
            old(self).spec_balance(caller) < amount ==> r == Err::<Event, Error>(Error::InsufficientBalance),
            r is Err ==> *final(self) == *old(self),
            old(self).spec_balance(caller) >= amount ==> {
                &&& r == Ok::<Event, Error>(Event::Burn(Burn { from: caller, amount }))
                &&& final(self).spec_supply() == old(self).spec_supply() - amount
                &&& final(self).same_controls(old(self))
                &&& forall|x: AccountId| #[trigger] final(self).spec_balance(x) as int
                    == if x == caller { old(self).spec_balance(x) - amount } else { old(self).spec_balance(x) as int }
                &&& forall|a: AccountId, b: AccountId| #[trigger] final(self).spec_allowance(a, b)
                    == old(self).spec_allowance(a, b)
            },
    {
        let from_balance = self.balance_of(caller);
        if from_balance < amount {
            return Err(Error::InsufficientBalance);
        }
        proof {
            lemma_lookup_within_total(self.balances@, caller);
        }
        let new_balance = from_balance - amount;
        let new_supply = self.total_supply - amount;
        self.total_supply = new_supply;
        self.set_balance(caller, new_balance);
        Ok(Event::Burn(Burn { from: caller, amount }))
    }

    /// Moves `amount` of the caller's units to `to`.
    pub fn transfer(&mut self, caller: AccountId, to: AccountId, amount: u128) -> (r: Result<Event, Error>)
        requires
            old(self).wf(),
        ensures
            final(self).wf(),
            match old(self).transfer_error(caller, to, amount) {
                Some(e) => r == Err::<Event, Error>(e) && *final(self) == *old(self),
                None => {
                    &&& r == Ok::<Event, Error>(Event::Transfer(Transfer { from: caller, to, amount }))
                    &&& old(self).moved(final(self), caller, to, amount)
                    &&& forall|a: AccountId, b: AccountId| #[trigger] final(self).spec_allowance(a, b)
                        == old(self).spec_allowance(a, b)
                },
            },
    {
        if self.paused {
            return Err(Error::ContractPaused);
        }
        if self.is_blacklisted(caller) || self.is_blacklisted(to) {
            return Err(Error::Blacklisted);
        }
        if caller == to {
            return Err(Error::SelfTransfer);
        }
        let from_balance = self.balance_of(caller);
        if from_balance < amount {
            return Err(Error::InsufficientBalance);
        }
        let to_balance = self.balance_of(to);
        let new_to_balance = match to_balance.checked_add(amount) {
            Some(v) => v,
            None => return Err(Error::Overflow),
        };
        self.set_balance(caller, from_balance - amount);
        self.set_balance(to, new_to_balance);
        Ok(Event::Transfer(Transfer { from: caller, to, amount }))
    }

    /// Sets what `spender` may move out of the caller's balance to `amount`,
    /// replacing any earlier value.
    pub fn approve(&mut self, caller: AccountId, spender: AccountId, amount: u128) -> (r: Result<Event, Error>)
        requires
            old(self).wf(),
        ensures
            final(self).wf(),
            r == Ok::<Event, Error>(Event::Approval(Approval { owner: caller, spender, amount })),
            old(self).approved(final(self), caller, spender, amount),
    {
        self.set_allowance(caller, spender, amount);
        Ok(Event::Approval(Approval { owner: caller, spender, amount }))
    }

    /// Moves `amount` from `from` to `to` on `from`'s behalf, spending the
    /// caller's allowance.
    pub fn transfer_from(&mut self, caller: AccountId, from: AccountId, to: AccountId, amount: u128) -> (r: Result<Event, Error>)
        requires
            old(self).wf(),
        ensures
            final(self).wf(),
            match old(self).transfer_from_error(caller, from, to, amount) {
                Some(e) => r == Err::<Event, Error>(e) && *final(self) == *old(self),
                None => {
                    &&& r == Ok::<Event, Error>(Event::Transfer(Transfer { from, to, amount }))
                    &&& old(self).moved(final(self), from, to, amount)
                    &&& forall|a: AccountId, b: AccountId| #[trigger] final(self).spec_allowance(a, b)
                        == if a == from && b == caller {
                            (old(self).spec_allowance(a, b) - amount) as u128
                        } else {
                            old(self).spec_allowance(a, b)
                        }
                },
            },
    {
        if self.paused {
            return Err(Error::ContractPaused);
        }
        if self.is_blacklisted(from) || self.is_blacklisted(to) {
            return Err(Error::Blacklisted);
        }
        if from == to {
            return Err(Error::SelfTransfer);
        }
        let allowance = self.allowance(from, caller);
        if allowance < amount {
            return Err(Error::InsufficientAllowance);
        }
        let from_balance = self.balance_of(from);
        if from_balance < amount {
            return Err(Error::InsufficientBalance);
        }
        let to_balance = self.balance_of(to);
        let new_to_balance = match to_balance.checked_add(amount) {
            Some(v) => v,
            None => return Err(Error::Overflow),
        };
        self.set_allowance(from, caller, allowance - amount);
        self.set_balance(from, from_balance - amount);
        self.set_balance(to, new_to_balance);
        Ok(Event::Transfer(Transfer { from, to, amount }))
    }

    fn set_paused(&mut self, caller: AccountId, flag: bool) -> (r: Result<Event, Error>)
        requires
            old(self).wf(),
        ensures
            final(self).wf(),
            final(self).paused_set(old(self), caller, flag, r),
    {
        if caller != self.owner {
            return Err(Error::Unauthorized);
        }
        self.paused = flag;
        Ok(Event::Paused(Paused { is_paused: flag }))
    }

    /// Halts transfers. Only the administrator may.
    pub fn pause(&mut self, caller: AccountId) -> (r: Result<Event, Error>)
        requires
            old(self).wf(),
        ensures
            final(self).wf(),
            final(self).paused_set(old(self), caller, true, r),
    {
        self.set_paused(caller, true)
    }

    /// Lets transfers run again. Only the administrator may.
    pub fn unpause(&mut self, caller: AccountId) -> (r: Result<Event, Error>)
        requires
            old(self).wf(),
        ensures
            final(self).wf(),
            final(self).paused_set(old(self), caller, false, r),
    {
        self.set_paused(caller, false)
    }

    fn update_blacklist(&mut self, caller: AccountId, account: AccountId, flag: bool) -> (r: Result<Event, Error>)
        requires
            old(self).wf(),
        ensures
            final(self).wf(),
            final(self).blacklist_set(old(self), caller, account, flag, r),
    {
        if caller != self.owner {
            return Err(Error::Unauthorized);
        }
        self.set_blacklisted(account, flag);
        Ok(Event::BlacklistUpdated(BlacklistUpdated { account, is_blacklisted: flag }))
    }

    /// Restricts `account`. Only the administrator may.
    pub fn blacklist_account(&mut self, caller: AccountId, account: AccountId) -> (r: Result<Event, Error>)
        requires
            old(self).wf(),
        ensures
            final(self).wf(),
            final(self).blacklist_set(old(self), caller, account, true, r),
    {
        self.update_blacklist(caller, account, true)
    }

    /// Lifts the restriction on `account`. Only the administrator may.
    pub fn remove_from_blacklist(&mut self, caller: AccountId, account: AccountId) -> (r: Result<Event, Error>)
        requires
            old(self).wf(),
        ensures
            final(self).wf(),
            final(self).blacklist_set(old(self), caller, account, false, r),
    {
        self.update_blacklist(caller, account, false)
    }
    /// Sends `amounts[i]` to `recipients[i]` for each `i`, in order. Entries
    /// whose recipient is restricted or is the caller are passed over: they
    /// are neither credited nor taken from the caller, so the supply stays
    /// the sum of all balances. The caller's balance must cover the sum of
    /// all amounts, passed-over ones included.
    pub fn batch_transfer(&mut self, caller: AccountId, recipients: Vec<AccountId>, amounts: Vec<u128>) -> (r: Result<Vec<Event>, Error>)
        requires
            old(self).wf(),
        ensures
            final(self).wf(),
            match old(self).batch_error(caller, recipients@, amounts@) {
                Some(e) => r == Err::<Vec<Event>, Error>(e) && *final(self) == *old(self),
                None => {
                    &&& r is Ok
                    &&& r->Ok_0@ == old(self).batch_events(caller, recipients@, amounts@, amounts@.len() as int)
                    &&& final(self).same_controls(old(self))
                    &&& final(self).spec_supply() == old(self).spec_supply()
                    &&& forall|x: AccountId| #[trigger] final(self).spec_balance(x) as int == if x == caller {
                        old(self).spec_balance(x) - old(self).credited(caller, recipients@, amounts@, amounts@.len() as int)
                    } else {
                        old(self).spec_balance(x) + old(self).credit_to(caller, recipients@, amounts@, x, amounts@.len() as int)
                    }
                    &&& forall|a: AccountId, b: AccountId| #[trigger] final(self).spec_allowance(a, b)
                        == old(self).spec_allowance(a, b)
                },
            },
    {
        if recipients.len() != amounts.len() {
            return Err(Error::BatchLengthMismatch);
        }
        if self.paused {
            return Err(Error::ContractPaused);
        }
        if self.is_blacklisted(caller) {
            return Err(Error::Blacklisted);
        }
        let n = amounts.len();
        let ghost am = amounts@;
        let ghost rs = recipients@;
        let mut sum: u128 = 0;
        let mut i: usize = 0;
        while i < n
            invariant
                n == am.len(),
                am == amounts@,
                *self == *old(self),
                old(self).wf(),
                rs == recipients@,
                rs.len() == n,
                !old(self).spec_paused(),
                !old(self).spec_blacklisted(caller),
                i <= n,
                sum == sum_prefix(am, i as int),
            decreases n - i,
        {
            sum = match sum.checked_add(amounts[i]) {
                Some(v) => v,
                None => {
                    proof {
                        assert(sum_prefix(am, i as int + 1) == sum_prefix(am, i as int) + am[i as int]);
                        lemma_sum_prefix_mono(am, i as int + 1, n as int);
                    }
                    return Err(Error::Overflow);
                },
            };
            i = i + 1;
        }
        let from_balance = self.balance_of(caller);
        if from_balance < sum {
            return Err(Error::InsufficientBalance);
        }
        let ghost before = *self;
        let mut debit: u128 = 0;
        let mut i: usize = 0;
        while i < n
            invariant
                n == am.len(),
                n == rs.len(),
                am == amounts@,
                rs == recipients@,
                *self == before,
                before == *old(self),
                before.wf(),
                i <= n,
                debit == before.credited(caller, rs, am, i as int),
                sum == sum_prefix(am, n as int),
            decreases n - i,
        {
            proof {
                lemma_credited_bounds(&before, caller, rs, am, i as int + 1, n as int);
                lemma_credited_bounds(&before, caller, rs, am, i as int, i as int + 1);
                lemma_credited_bounds(&before, caller, rs, am, 0, n as int);
                lemma_sum_prefix_mono(am, i as int + 1, n as int);
            }
            if !(self.is_blacklisted(recipients[i]) || recipients[i] == caller) {
                debit = debit + amounts[i];
            }
            i = i + 1;
        }
        proof {
            lemma_credited_bounds(&before, caller, rs, am, 0, n as int);
        }
        self.set_balance(caller, from_balance - debit);
        let mut events: Vec<Event> = Vec::new();
        let mut i: usize = 0;
        while i < n
            invariant
                n == am.len(),
                n == rs.len(),
                am == amounts@,
                rs == recipients@,
                i <= n,
                debit == before.credited(caller, rs, am, n as int),
                before.wf(),
                keys_unique(self.balances@),
                keys_unique(self.allowances@),
                keys_unique(self.blacklist@),
                self.same_controls(&before),
                self.total_supply == before.total_supply,
                self.allowances@ == before.allowances@,
                total(self.balances@) == before.total_supply - debit + before.credited(caller, rs, am, i as int),
                forall|x: AccountId| #[trigger] self.spec_balance(x) as int == if x == caller {
                    before.spec_balance(x) - debit
                } else {
                    before.spec_balance(x) + before.credit_to(caller, rs, am, x, i as int)
                },
                events@ == before.batch_events(caller, rs, am, i as int),
            decreases n - i,
        {
            let to = recipients[i];
            let amount = amounts[i];
            if !(self.is_blacklisted(to) || to == caller) {
                let to_balance = self.balance_of(to);
                proof {
                    lemma_lookup_within_total(self.balances@, to);
                    lemma_credited_bounds(&before, caller, rs, am, i as int + 1, n as int);
                }
                self.set_balance(to, to_balance + amount);
                events.push(Event::Transfer(Transfer { from: caller, to, amount }));
            }
            i = i + 1;
        }
        Ok(events)
    }
}

/// In every well-formed ledger the total supply is the sum of all balances;
/// every operation keeps its ledger well-formed.
pub proof fn supply_is_sum_of_balances(t: &Token)
    requires
        t.wf(),
    ensures
        t.spec_supply() as int == t.spec_sum_of_balances(),
{
}

/// No account's balance exceeds the total supply.
pub proof fn balance_within_supply(t: &Token, a: AccountId)
    requires
        t.wf(),
    ensures
        t.spec_balance(a) <= t.spec_supply(),
{
    lemma_lookup_within_total(t.balances@, a);
}

/// Approving twice for the same pair leaves what approving the second amount
/// once would: the first amount is gone, nothing else differs.
pub proof fn approve_replaces(
    t0: &Token,
    t1: &Token,
    t2: &Token,
    owner: AccountId,
    spender: AccountId,
    first: u128,
    second: u128,
)
    requires
        t0.approved(t1, owner, spender, first),
        t1.approved(t2, owner, spender, second),
    ensures
        t0.approved(t2, owner, spender, second),
        t2.spec_allowance(owner, spender) == second,
{
}

/// A transfer to oneself never succeeds; once the halt and restriction checks
/// pass it fails with `SelfTransfer`, whatever the amount and the balance.
pub proof fn self_transfer_fails(t: &Token, caller: AccountId, amount: u128)
    ensures
        t.transfer_error(caller, caller, amount) is Some,
        !t.spec_paused() && !t.spec_blacklisted(caller) ==> t.transfer_error(caller, caller, amount)
            == Some(Error::SelfTransfer),
{
}

} // verus!
