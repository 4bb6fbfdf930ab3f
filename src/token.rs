use vstd::prelude::*;
use crate::address::Address;
use crate::amount::{Amount, amount_limit};
use crate::erc20::{ERC20Params, Erc20, TokenError, TransferEvent};

verus! {

/// The configuration of the Emorya token.
pub struct EmoryaTokenParams;

impl EmoryaTokenParams {
    pub fn params() -> (r: ERC20Params)
        ensures
            r.name@ == "Emorya Finance"@,
            r.symbol@ == "EMR"@,
            r.decimals == 9,
    {
        ERC20Params { name: "Emorya Finance".to_owned(), symbol: "EMR".to_owned(), decimals: 9 }
    }
}

/// A ledger guarded by a single owner, who alone may mint, burn and hand over ownership.
pub struct EmoryaToken {
    owner: Address,
    erc20: Erc20,
}

impl EmoryaToken {
    pub closed spec fn current_owner(&self) -> Address {
        self.owner
    }

    pub closed spec fn ledger(&self) -> Erc20 {
        self.erc20
    }

    pub open spec fn wf(&self) -> bool {
        self.ledger().wf()
    }

    /// The outcome of `transfer_ownership(caller, new_owner)` on `self`, leading to `post` with
    /// result `r`.
    pub open spec fn transfer_ownership_result(
        self,
        caller: Address,
        new_owner: Address,
        post: EmoryaToken,
        r: Result<(), TokenError>,
    ) -> bool {
        if caller != self.current_owner() {
            r == Err::<(), TokenError>(TokenError::Unauthorized) && post == self
        } else {
            r == Ok::<(), TokenError>(()) && post.current_owner() == new_owner && post.ledger()
                == self.ledger()
        }
    }

    /// The outcome of `mint(caller, to, amount)` on `self`, leading to `post` with result `r`.
    pub open spec fn mint_result(
        self,
        caller: Address,
        to: Address,
        amount: Amount,
        post: EmoryaToken,
        r: Result<(), TokenError>,
    ) -> bool {
        if caller != self.current_owner() {
            r == Err::<(), TokenError>(TokenError::Unauthorized) && post == self
        } else {
            post.current_owner() == self.current_owner() && self.ledger().mint_result(
                to,
                amount,
                post.ledger(),
                r,
            )
        }
    }

    /// The outcome of `burn(caller, amount)` on `self`, leading to `post` with result `r`: the
    /// owner burns from their own balance.
    pub open spec fn burn_result(
        self,
        caller: Address,
        amount: Amount,
        post: EmoryaToken,
        r: Result<(), TokenError>,
    ) -> bool {
        if caller != self.current_owner() {
            r == Err::<(), TokenError>(TokenError::Unauthorized) && post == self
        } else {
            post.current_owner() == self.current_owner() && self.ledger().burn_result(
                caller,
                amount,
                post.ledger(),
                r,
            )
        }
    }

    /// A fresh token owned by `creator`, with no balances.
    pub fn new(creator: Address) -> (r: EmoryaToken)
        ensures
            r.wf(),
            r.current_owner() == creator,
            r.ledger().supply() == 0,
            forall|a: Address| #[trigger] r.ledger().balance(a) == 0,
            r.ledger().events() == Seq::<TransferEvent>::empty(),
            r.ledger().name_spec() == "Emorya Finance"@,
            r.ledger().symbol_spec() == "EMR"@,
            r.ledger().decimals_spec() == 9,
    {
        EmoryaToken { owner: creator, erc20: Erc20::new(EmoryaTokenParams::params()) }
    }

    pub fn owner(&self) -> (r: Address)
        ensures
            r == self.current_owner(),
    {
        self.owner
    }

    /// The ledger, for its read-only accessors.
    pub fn erc20(&self) -> (r: &Erc20)
        ensures
            *r == self.ledger(),
    {
        &self.erc20
    }

    fn only_owner(&self, caller: Address) -> (r: Result<(), TokenError>)
        ensures
            r == if caller == self.current_owner() {
                Ok::<(), TokenError>(())
            } else {
                Err::<(), TokenError>(TokenError::Unauthorized)
            },
    {
        if !caller.same(&self.owner) {
            return Err(TokenError::Unauthorized);
        }
        Ok(())
    }

    pub fn transfer_ownership(&mut self, caller: Address, new_owner: Address) -> (r: Result<
        (),
        TokenError,
    >)
        ensures
            old(self).transfer_ownership_result(caller, new_owner, *final(self), r),
    {
        self.only_owner(caller)?;
        self.owner = new_owner;
        Ok(())
    }

    pub fn mint(&mut self, caller: Address, user_address: Address, amount: Amount) -> (r: Result<
        (),
        TokenError,
    >)
        requires
            old(self).wf(),
        ensures
            old(self).mint_result(caller, user_address, amount, *final(self), r),
    {
        self.only_owner(caller)?;
        self.erc20.mint(user_address, amount)
    }

    pub fn burn(&mut self, caller: Address, value: Amount) -> (r: Result<(), TokenError>)
        requires
            old(self).wf(),
        ensures
            old(self).burn_result(caller, value, *final(self), r),
    {
        self.only_owner(caller)?;
        self.erc20.burn(caller, value)
    }

    /// Moves `value` from `caller` to `to`; open to every caller.
    pub fn transfer(&mut self, caller: Address, to: Address, value: Amount) -> (r: Result<
        bool,
        TokenError,
    >)
        requires
            old(self).wf(),
        ensures
            final(self).current_owner() == old(self).current_owner(),
            old(self).ledger().transfer_result(
                caller,
                to,
                value,
                final(self).ledger(),
                match r {
                    Ok(_) => Ok::<(), TokenError>(()),
                    Err(e) => Err(e),
                },
            ),
            r is Ok ==> r == Ok::<bool, TokenError>(true),
    {
        self.erc20.transfer(caller, to, value)
    }

    pub fn balance_of(&self, owner: Address) -> (r: Amount)
        requires
            self.wf(),
        ensures
            r@ == self.ledger().balance(owner),
    {
        self.erc20.balance_of(owner)
    }

    pub fn total_supply(&self) -> (r: Amount)
        ensures
            r@ == self.ledger().supply(),
    {
        self.erc20.total_supply()
    }
}

/// Minting `x` to the owner `addr` and then burning `x` as that owner restores the owner's
/// balance and the total supply, provided the mint does not overflow.
pub proof fn lemma_mint_then_burn_restores(
    t0: EmoryaToken,
    t1: EmoryaToken,
    t2: EmoryaToken,
    addr: Address,
    x: Amount,
    r1: Result<(), TokenError>,
    r2: Result<(), TokenError>,
)
    requires
        t0.wf(),
        t0.current_owner() == addr,
        t0.ledger().supply() + x@ < amount_limit(),
        t0.mint_result(addr, addr, x, t1, r1),
        t1.burn_result(addr, x, t2, r2),
    ensures
        r1 is Ok,
        r2 is Ok,
        t2.ledger().balance(addr) == t0.ledger().balance(addr),
        t2.ledger().supply() == t0.ledger().supply(),
        t2.current_owner() == addr,
{
}

/// Every privileged operation attempted by anyone but the current owner fails with
/// `Unauthorized` and leaves the token exactly as it was.
pub proof fn lemma_only_owner_is_privileged(
    t: EmoryaToken,
    caller: Address,
    to: Address,
    amount: Amount,
    post: EmoryaToken,
    r: Result<(), TokenError>,
)
    requires
        caller != t.current_owner(),
    ensures
        t.mint_result(caller, to, amount, post, r) ==> r == Err::<(), TokenError>(
            TokenError::Unauthorized,
        ) && post == t,
        t.burn_result(caller, amount, post, r) ==> r == Err::<(), TokenError>(
            TokenError::Unauthorized,
        ) && post == t,
        t.transfer_ownership_result(caller, to, post, r) ==> r == Err::<(), TokenError>(
            TokenError::Unauthorized,
        ) && post == t,
{
}

} // verus!
