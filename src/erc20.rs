use vstd::prelude::*;
use crate::address::Address;
use crate::amount::{Amount, amount_limit, checked_add, checked_sub, lemma_amount_below_limit};

verus! {

/// The fixed description of a token: its name, its symbol and its number of decimals.
pub struct ERC20Params {
    pub name: String,
    pub symbol: String,
    pub decimals: u8,
}

/// One row of the balance table.
#[derive(Clone, Copy, Debug, PartialEq, Eq)]
pub struct Account {
    pub holder: Address,
    pub balance: Amount,
}

/// The record emitted for every successful transfer, mint (from the zero address) and burn
/// (to the zero address).
#[derive(Clone, Copy, Debug, PartialEq, Eq)]
pub struct TransferEvent {
    pub from: Address,
    pub to: Address,
    pub amount: Amount,
}

/// Why a ledger operation was rejected.
#[derive(Clone, Copy, Debug, PartialEq, Eq)]
pub enum TokenError {
    /// A debit exceeds the available balance.
    InsufficientBalance,
    /// The caller is not the current owner.
    Unauthorized,
    /// The result would not fit in 256 bits.
    Overflow,
}

/// What `a` holds in the rows `s`: the sum of the balances of the rows held by `a`.
pub open spec fn balance_in(s: Seq<Account>, a: Address) -> nat
    decreases s.len(),
{
    if s.len() == 0 {
        0
    } else {
        balance_in(s.drop_last(), a) + if s.last().holder == a {
            s.last().balance@
        } else {
            0nat
        }
    }
}

/// The sum of all balances in the rows `s`.
pub open spec fn total_in(s: Seq<Account>) -> nat
    decreases s.len(),
{
    if s.len() == 0 {
        0
    } else {
        total_in(s.drop_last()) + s.last().balance@
    }
}

/// No address has two rows.
pub open spec fn holders_unique(s: Seq<Account>) -> bool {
    forall|i: int, j: int| 0 <= i < j < s.len() ==> s[i].holder != s[j].holder
}

/// The part of row `x`'s balance that belongs to `a`.
pub open spec fn share(x: Account, a: Address) -> nat {
    if x.holder == a {
        x.balance@
    } else {
        0
    }
}

proof fn lemma_balance_absent(s: Seq<Account>, a: Address)
    requires
        forall|j: int| 0 <= j < s.len() ==> s[j].holder != a,
    ensures
        balance_in(s, a) == 0,
    decreases s.len(),
{
    if s.len() > 0 {
        lemma_balance_absent(s.drop_last(), a);
    }
}

proof fn lemma_balance_at(s: Seq<Account>, i: int)
    requires
        holders_unique(s),
        0 <= i < s.len(),
    ensures
        balance_in(s, s[i].holder) == s[i].balance@,
    decreases s.len(),
{
    let a = s[i].holder;
    if i == s.len() - 1 {
        lemma_balance_absent(s.drop_last(), a);
    } else {
        lemma_balance_at(s.drop_last(), i);
    }
}

proof fn lemma_update(s: Seq<Account>, i: int, x: Account, a: Address)
    requires
        0 <= i < s.len(),
    ensures
        balance_in(s.update(i, x), a) + share(s[i], a) == balance_in(s, a) + share(x, a),
        total_in(s.update(i, x)) + s[i].balance@ == total_in(s) + x.balance@,
    decreases s.len(),
{
    let t = s.update(i, x);
    if i == s.len() - 1 {
        assert(t.drop_last() =~= s.drop_last());
    } else {
        assert(t.drop_last() =~= s.drop_last().update(i, x));
        lemma_update(s.drop_last(), i, x, a);
    }
}

proof fn lemma_push(s: Seq<Account>, x: Account, a: Address)
    ensures
        balance_in(s.push(x), a) == balance_in(s, a) + share(x, a),
        total_in(s.push(x)) == total_in(s) + x.balance@,
{
    assert(s.push(x).drop_last() =~= s);
}

proof fn lemma_two_balances(s: Seq<Account>, a: Address, b: Address)
    requires
        a != b,
    ensures
        balance_in(s, a) + balance_in(s, b) <= total_in(s),
    decreases s.len(),
{
    if s.len() > 0 {
        lemma_two_balances(s.drop_last(), a, b);
    }
}

proof fn lemma_one_balance(s: Seq<Account>, a: Address)
    ensures
        balance_in(s, a) <= total_in(s),
    decreases s.len(),
{
    if s.len() > 0 {
        lemma_one_balance(s.drop_last(), a);
    }
}

/// A token ledger: per-address balances, the total supply, and the log of transfer records.
pub struct Erc20 {
    params: ERC20Params,
    accounts: Vec<Account>,
    total_supply: Amount,
    events: Vec<TransferEvent>,
}

impl Erc20 {
    /// The balance of `a`; zero for an address never credited.
    pub closed spec fn balance(&self, a: Address) -> nat {
        balance_in(self.accounts@, a)
    }

    pub closed spec fn supply(&self) -> nat {
        self.total_supply@
    }

    /// The addresses that have ever been credited, each once.
    pub closed spec fn holders(&self) -> Seq<Address> {
        self.accounts@.map_values(|x: Account| x.holder)
    }

    /// Every transfer record emitted so far, oldest first.
    pub closed spec fn events(&self) -> Seq<TransferEvent> {
        self.events@
    }

    pub closed spec fn name_spec(&self) -> Seq<char> {
        self.params.name@
    }

    pub closed spec fn symbol_spec(&self) -> Seq<char> {
        self.params.symbol@
    }

    pub closed spec fn decimals_spec(&self) -> u8 {
        self.params.decimals
    }

    /// The ledger's invariant: one row per holder, and the supply is the sum of the rows.
    pub closed spec fn wf(&self) -> bool {
        holders_unique(self.accounts@) && self.total_supply@ == total_in(self.accounts@)
    }

    /// `post` keeps the name, symbol and decimals of `self`.
    pub open spec fn same_config(self, post: Erc20) -> bool {
        post.name_spec() == self.name_spec() && post.symbol_spec() == self.symbol_spec()
            && post.decimals_spec() == self.decimals_spec()
    }

    /// The outcome of `_transfer(from, to, amount)` on `self`, leading to `post` with result `r`.
    pub open spec fn transfer_result(
        self,
        from: Address,
        to: Address,
        amount: Amount,
        post: Erc20,
        r: Result<(), TokenError>,
    ) -> bool {
        if self.balance(from) < amount@ {
            r == Err::<(), TokenError>(TokenError::InsufficientBalance) && post == self
        } else {
            &&& r == Ok::<(), TokenError>(())
            &&& post.wf()
            &&& self.same_config(post)
            &&& post.supply() == self.supply()
            &&& forall|a: Address| #[trigger]
                post.balance(a) == self.balance(a) - (if a == from {
                    amount@
                } else {
                    0nat
                }) + (if a == to {
                    amount@
                } else {
                    0nat
                })
            &&& post.events() == self.events().push(TransferEvent { from, to, amount })
        }
    }

    /// The outcome of `mint(to, amount)` on `self`, leading to `post` with result `r`.
    pub open spec fn mint_result(
        self,
        to: Address,
        amount: Amount,
        post: Erc20,
        r: Result<(), TokenError>,
    ) -> bool {
        if self.supply() + amount@ >= amount_limit() {
            r == Err::<(), TokenError>(TokenError::Overflow) && post == self
        } else {
            &&& r == Ok::<(), TokenError>(())
            &&& post.wf()
            &&& self.same_config(post)
            &&& post.supply() == self.supply() + amount@
            &&& post.balance(to) == self.balance(to) + amount@
            &&& forall|a: Address| a != to ==> #[trigger] post.balance(a) == self.balance(a)
            &&& post.events() == self.events().push(
                TransferEvent { from: Address::zero_spec(), to, amount },
            )
        }
    }

    /// The outcome of `burn(from, amount)` on `self`, leading to `post` with result `r`.
    pub open spec fn burn_result(
        self,
        from: Address,
        amount: Amount,
        post: Erc20,
        r: Result<(), TokenError>,
    ) -> bool {
        if self.balance(from) < amount@ {
            r == Err::<(), TokenError>(TokenError::InsufficientBalance) && post == self
        } else {
            &&& r == Ok::<(), TokenError>(())
            &&& post.wf()
            &&& self.same_config(post)
            &&& post.supply() == self.supply() - amount@
            &&& post.balance(from) == self.balance(from) - amount@
            &&& forall|a: Address| a != from ==> #[trigger] post.balance(a) == self.balance(a)
            &&& post.events() == self.events().push(
                TransferEvent { from, to: Address::zero_spec(), amount },
            )
        }
    }

    /// The sum of the balances of the addresses `hs`.
    pub open spec fn sum_balances(self, hs: Seq<Address>) -> nat
        decreases hs.len(),
    {
        if hs.len() == 0 {
            0
        } else {
            self.sum_balances(hs.drop_last()) + self.balance(hs.last())
        }
    }

    /// In every well-formed ledger, which is every ledger that `new` and the operations below
    /// can produce, the total supply equals the sum of the balances of all addresses ever
    /// credited, each counted once, and every other address holds nothing.
    pub proof fn lemma_supply_is_sum_of_balances(self)
        requires
            self.wf(),
        ensures
            self.holders().no_duplicates(),
            self.supply() == self.sum_balances(self.holders()),
            forall|a: Address| !self.holders().contains(a) ==> #[trigger] self.balance(a) == 0,
    {
        let s = self.accounts@;
        let hs = self.holders();
        assert forall|k: int| 0 <= k <= s.len() implies #[trigger] self.sum_balances(hs.take(k))
            == total_in(s.take(k)) by {
            self.lemma_prefix_sum(k);
        }
        assert(hs.take(s.len() as int) =~= hs);
        assert(s.take(s.len() as int) =~= s);
        assert forall|a: Address| !hs.contains(a) implies #[trigger] self.balance(a) == 0 by {
            assert forall|j: int| 0 <= j < s.len() implies s[j].holder != a by {
                assert(hs[j] == s[j].holder);
            }
            lemma_balance_absent(s, a);
        }
    }

    proof fn lemma_prefix_sum(self, k: int)
        requires
            self.wf(),
            0 <= k <= self.accounts@.len(),
        ensures
            self.sum_balances(self.holders().take(k)) == total_in(self.accounts@.take(k)),
        decreases k,
    {
        let s = self.accounts@;
        let hs = self.holders();
        if k > 0 {
            self.lemma_prefix_sum(k - 1);
            assert(hs.take(k).drop_last() =~= hs.take(k - 1));
            assert(s.take(k).drop_last() =~= s.take(k - 1));
            lemma_balance_at(s, k - 1);
        }
    }

    /// A fresh ledger: no balances, zero supply, no records.
    pub fn new(params: ERC20Params) -> (r: Erc20)
        ensures
            r.wf(),
            r.supply() == 0,
            forall|a: Address| #[trigger] r.balance(a) == 0,
            r.holders() == Seq::<Address>::empty(),
            r.events() == Seq::<TransferEvent>::empty(),
            r.name_spec() == params.name@,
            r.symbol_spec() == params.symbol@,
            r.decimals_spec() == params.decimals,
    {
        let r = Erc20 {
            params,
            accounts: Vec::new(),
            total_supply: Amount::zero(),
            events: Vec::new(),
        };
        assert(r.holders() =~= Seq::<Address>::empty());
        r
    }

    pub fn name(&self) -> (r: String)
        ensures
            r@ == self.name_spec(),
    {
        self.params.name.clone()
    }

    pub fn symbol(&self) -> (r: String)
        ensures
            r@ == self.symbol_spec(),
    {
        self.params.symbol.clone()
    }

    pub fn decimals(&self) -> (r: u8)
        ensures
            r == self.decimals_spec(),
    {
        self.params.decimals
    }

    pub fn total_supply(&self) -> (r: Amount)
        ensures
            r@ == self.supply(),
    {
        self.total_supply
    }

    /// The transfer records emitted so far, oldest first.
    pub fn transfer_events(&self) -> (r: &Vec<TransferEvent>)
        ensures
            r@ == self.events(),
    {
        &self.events
    }

    /// The row of `a`, if it has one.
    fn find(&self, a: Address) -> (r: Option<usize>)
        ensures
            match r {
                Some(i) => i < self.accounts@.len() && self.accounts@[i as int].holder == a,
                None => forall|j: int|
                    0 <= j < self.accounts@.len() ==> self.accounts@[j].holder != a,
            },
    {
        let mut i: usize = 0;
        while i < self.accounts.len()
            invariant
                0 <= i <= self.accounts@.len(),
                forall|j: int| 0 <= j < i ==> self.accounts@[j].holder != a,
            decreases self.accounts@.len() - i,
        {
            if self.accounts[i].holder.same(&a) {
                return Some(i);
            }
            i = i + 1;
        }
        None
    }

    pub fn balance_of(&self, owner: Address) -> (r: Amount)
        requires
            self.wf(),
        ensures
            r@ == self.balance(owner),
    {
        self.balance_of_rows(owner)
    }

    /// Sets the balance of `a` to `v`, leaving every other balance as it is.
    fn set_balance(&mut self, a: Address, v: Amount)
        requires
            holders_unique(old(self).accounts@),
        ensures
            holders_unique(final(self).accounts@),
            final(self).balance(a) == v@,
            forall|b: Address| b != a ==> #[trigger] final(self).balance(b) == old(self).balance(b),
            total_in(final(self).accounts@) + old(self).balance(a) == total_in(old(self).accounts@)
                + v@,
            final(self).total_supply == old(self).total_supply,
            final(self).events == old(self).events,
            final(self).params == old(self).params,
    {
        let ghost s = self.accounts@;
        let row = Account { holder: a, balance: v };
        match self.find(a) {
            Some(i) => {
                proof {
                    lemma_balance_at(s, i as int);
                }
                self.accounts.set(i, row);
                proof {
                    let t = self.accounts@;
                    assert(t =~= s.update(i as int, row));
                    lemma_update(s, i as int, row, a);
                    assert forall|b: Address| b != a implies #[trigger] balance_in(t, b)
                        == balance_in(s, b) by {
                        lemma_update(s, i as int, row, b);
                    }
                }
            },
            None => {
                proof {
                    lemma_balance_absent(s, a);
                }
                self.accounts.push(row);
                proof {
                    let t = self.accounts@;
                    assert(t =~= s.push(row));
                    lemma_push(s, row, a);
                    assert forall|b: Address| b != a implies #[trigger] balance_in(t, b)
                        == balance_in(s, b) by {
                        lemma_push(s, row, b);
                    }
                }
            },
        }
    }

    fn log_transfer_event(&mut self, from: Address, to: Address, amount: Amount)
        ensures
            final(self).events@ == old(self).events@.push(TransferEvent { from, to, amount }),
            final(self).accounts == old(self).accounts,
            final(self).total_supply == old(self).total_supply,
            final(self).params == old(self).params,
    {
        self.events.push(TransferEvent { from, to, amount });
    }

    /// Moves `amount` from `from` to `to`; on failure nothing changes.
    pub fn _transfer(&mut self, from: Address, to: Address, amount: Amount) -> (r: Result<
        (),
        TokenError,
    >)
        requires
            old(self).wf(),
        ensures
            old(self).transfer_result(from, to, amount, *final(self), r),
    {
        let old_sender_balance = self.balance_of(from);
        match checked_sub(old_sender_balance, amount) {
            None => Err(TokenError::InsufficientBalance),
            Some(debited) => {
                let ghost pre = *self;
                self.set_balance(from, debited);
                let ghost mid = *self;
                let receiver_balance = self.balance_of_rows(to);
                proof {
                    lemma_amount_below_limit(pre.total_supply);
                    if from != to {
                        lemma_two_balances(pre.accounts@, from, to);
                        assert(mid.balance(to) == pre.balance(to));
                    } else {
                        lemma_one_balance(pre.accounts@, from);
                    }
                    assert(receiver_balance@ + amount@ < amount_limit());
                }
                match checked_add(receiver_balance, amount) {
                    None => {
                        proof {
                            assert(false);
                        }
                        Err(TokenError::Overflow)
                    },
                    Some(credited) => {
                        self.set_balance(to, credited);
                        let ghost credited_state = *self;
                        self.log_transfer_event(from, to, amount);
                        assert(self.accounts@ == credited_state.accounts@);
                        proof {
                            assert forall|a: Address| #[trigger]
                                self.balance(a) == pre.balance(a) - (if a == from {
                                    amount@
                                } else {
                                    0nat
                                }) + (if a == to {
                                    amount@
                                } else {
                                    0nat
                                }) by {
                                assert(self.balance(a) == credited_state.balance(a));
                                if a != to {
                                    assert(credited_state.balance(a) == mid.balance(a));
                                }
                                if a != from {
                                    assert(mid.balance(a) == pre.balance(a));
                                }
                            }
                        }
                        Ok(())
                    },
                }
            },
        }
    }

    /// Credits `to` with `amount` and raises the supply by as much; rejected when the supply
    /// would leave 256 bits.
    pub fn mint(&mut self, address: Address, amount: Amount) -> (r: Result<(), TokenError>)
        requires
            old(self).wf(),
        ensures
            old(self).mint_result(address, amount, *final(self), r),
    {
        let new_supply = match checked_add(self.total_supply, amount) {
            None => {
                return Err(TokenError::Overflow);
            },
            Some(s) => s,
        };
        let ghost pre = *self;
        let balance = self.balance_of(address);
        proof {
            lemma_one_balance(pre.accounts@, address);
        }
        let new_balance = match checked_add(balance, amount) {
            None => {
                proof {
                    assert(false);
                }
                return Err(TokenError::Overflow);
            },
            Some(b) => b,
        };
        self.set_balance(address, new_balance);
        let ghost set_state = *self;
        self.total_supply = new_supply;
        let ghost credited_state = *self;
        assert(credited_state.accounts@ == set_state.accounts@);
        let zero = Address::zero();
        self.log_transfer_event(zero, address, amount);
        assert(self.accounts@ == credited_state.accounts@);
        proof {
            assert forall|a: Address| a != address implies #[trigger] self.balance(a)
                == pre.balance(a) by {
                assert(self.balance(a) == credited_state.balance(a));
                assert(set_state.balance(a) == pre.balance(a));
            }
        }
        Ok(())
    }

    /// Debits `from` by `amount` and lowers the supply by as much; rejected when `from` holds
    /// less than `amount`.
    pub fn burn(&mut self, address: Address, amount: Amount) -> (r: Result<(), TokenError>)
        requires
            old(self).wf(),
        ensures
            old(self).burn_result(address, amount, *final(self), r),
    {
        let old_balance = self.balance_of(address);
        let new_balance = match checked_sub(old_balance, amount) {
            None => {
                return Err(TokenError::InsufficientBalance);
            },
            Some(b) => b,
        };
        let ghost pre = *self;
        proof {
            lemma_one_balance(pre.accounts@, address);
        }
        let new_supply = match checked_sub(self.total_supply, amount) {
            None => {
                proof {
                    assert(false);
                }
                return Err(TokenError::InsufficientBalance);
            },
            Some(s) => s,
        };
        self.set_balance(address, new_balance);
        let ghost set_state = *self;
        self.total_supply = new_supply;
        let ghost debited_state = *self;
        assert(debited_state.accounts@ == set_state.accounts@);
        let zero = Address::zero();
        self.log_transfer_event(address, zero, amount);
        assert(self.accounts@ == debited_state.accounts@);
        proof {
            assert forall|a: Address| a != address implies #[trigger] self.balance(a)
                == pre.balance(a) by {
                assert(self.balance(a) == debited_state.balance(a));
                assert(set_state.balance(a) == pre.balance(a));
            }
        }
        Ok(())
    }

    /// Moves `value` from `caller` to `to`; `Ok(true)` on success.
    pub fn transfer(&mut self, caller: Address, to: Address, value: Amount) -> (r: Result<
        bool,
        TokenError,
    >)
        requires
            old(self).wf(),
        ensures
            old(self).transfer_result(
                caller,
                to,
                value,
                *final(self),
                match r {
                    Ok(_) => Ok::<(), TokenError>(()),
                    Err(e) => Err(e),
                },
            ),
            r is Ok ==> r == Ok::<bool, TokenError>(true),
            value@ == 0 ==> r is Ok && forall|a: Address| #[trigger] final(self).balance(a)
                == old(self).balance(a),
    {
        match self._transfer(caller, to, value) {
            Ok(()) => Ok(true),
            Err(e) => Err(e),
        }
    }

    /// `balance_of` for a ledger whose supply may be stale; only row uniqueness is needed.
    fn balance_of_rows(&self, owner: Address) -> (r: Amount)
        requires
            holders_unique(self.accounts@),
        ensures
            r@ == self.balance(owner),
    {
        match self.find(owner) {
            Some(i) => {
                proof {
                    lemma_balance_at(self.accounts@, i as int);
                }
                self.accounts[i].balance
            },
            None => {
                proof {
                    lemma_balance_absent(self.accounts@, owner);
                }
                Amount::zero()
            },
        }
    }
}

} // verus!
