use emorya_token::address::Address;
use emorya_token::amount::Amount;
use emorya_token::erc20::{ERC20Params, Erc20, TokenError, TransferEvent};
use emorya_token::token::{EmoryaToken, EmoryaTokenParams};

fn addr(b: u8) -> Address {
    Address::new([b; 20])
}

fn amt(v: u64) -> Amount {
    Amount::from_u64(v)
}

fn max_amount() -> Amount {
    Amount::from_limbs([u64::MAX; 4])
}

fn plain_ledger() -> Erc20 {
    Erc20::new(ERC20Params { name: "Test".to_string(), symbol: "TST".to_string(), decimals: 18 })
}

#[test]
fn fresh_ledger_is_empty() {
    let l = plain_ledger();
    assert_eq!(l.total_supply(), amt(0));
    assert_eq!(l.balance_of(addr(1)), amt(0));
    assert_eq!(l.name(), "Test");
    assert_eq!(l.symbol(), "TST");
    assert_eq!(l.decimals(), 18);
}

#[test]
fn emorya_configuration() {
    let t = EmoryaToken::new(addr(1));
    assert_eq!(t.erc20().name(), "Emorya Finance");
    assert_eq!(t.erc20().symbol(), "EMR");
    assert_eq!(t.erc20().decimals(), 9);
    let p = EmoryaTokenParams::params();
    assert_eq!(p.decimals, 9);
    assert_eq!(t.owner(), addr(1));
}

#[test]
fn mint_as_owner_credits_and_raises_supply() {
    let a = addr(1);
    let mut t = EmoryaToken::new(a);
    assert_eq!(t.mint(a, a, amt(100)), Ok(()));
    assert_eq!(t.balance_of(a), amt(100));
    assert_eq!(t.total_supply(), amt(100));
}

#[test]
fn transfer_moves_balance() {
    let a = addr(1);
    let b = addr(2);
    let mut t = EmoryaToken::new(a);
    t.mint(a, a, amt(100)).unwrap();
    assert_eq!(t.transfer(a, b, amt(30)), Ok(true));
    assert_eq!(t.balance_of(a), amt(70));
    assert_eq!(t.balance_of(b), amt(30));
    assert_eq!(t.total_supply(), amt(100));
}

#[test]
fn transfer_beyond_balance_fails_and_changes_nothing() {
    let a = addr(1);
    let b = addr(2);
    let mut t = EmoryaToken::new(a);
    t.mint(a, a, amt(100)).unwrap();
    t.mint(a, b, amt(5)).unwrap();
    assert_eq!(t.transfer(a, b, amt(101)), Err(TokenError::InsufficientBalance));
    assert_eq!(t.balance_of(a), amt(100));
    assert_eq!(t.balance_of(b), amt(5));
    assert_eq!(t.total_supply(), amt(105));
    assert_eq!(t.erc20().transfer_events().len(), 2);
}

#[test]
fn non_owner_mint_is_unauthorized() {
    let a = addr(1);
    let b = addr(2);
    let mut t = EmoryaToken::new(a);
    t.mint(a, a, amt(10)).unwrap();
    assert_eq!(t.mint(b, b, amt(50)), Err(TokenError::Unauthorized));
    assert_eq!(t.total_supply(), amt(10));
    assert_eq!(t.balance_of(b), amt(0));
}

#[test]
fn non_owner_burn_and_handover_are_unauthorized() {
    let a = addr(1);
    let b = addr(2);
    let mut t = EmoryaToken::new(a);
    t.mint(a, b, amt(10)).unwrap();
    assert_eq!(t.burn(b, amt(1)), Err(TokenError::Unauthorized));
    assert_eq!(t.transfer_ownership(b, b), Err(TokenError::Unauthorized));
    assert_eq!(t.owner(), a);
    assert_eq!(t.balance_of(b), amt(10));
    assert_eq!(t.total_supply(), amt(10));
}

#[test]
fn ownership_handover_moves_mint_right() {
    let a = addr(1);
    let b = addr(2);
    let mut t = EmoryaToken::new(a);
    assert_eq!(t.transfer_ownership(a, b), Ok(()));
    assert_eq!(t.owner(), b);
    assert_eq!(t.mint(a, a, amt(1)), Err(TokenError::Unauthorized));
    assert_eq!(t.mint(b, a, amt(1)), Ok(()));
    assert_eq!(t.balance_of(a), amt(1));
}

#[test]
fn zero_transfer_always_succeeds() {
    let a = addr(1);
    let b = addr(2);
    let mut t = EmoryaToken::new(a);
    assert_eq!(t.transfer(b, a, amt(0)), Ok(true));
    assert_eq!(t.balance_of(a), amt(0));
    assert_eq!(t.balance_of(b), amt(0));
    let ev = t.erc20().transfer_events();
    assert_eq!(ev.len(), 1);
    assert_eq!(ev[0], TransferEvent { from: b, to: a, amount: amt(0) });
}

#[test]
fn self_transfer_keeps_balance() {
    let a = addr(1);
    let mut t = EmoryaToken::new(a);
    t.mint(a, a, amt(40)).unwrap();
    assert_eq!(t.transfer(a, a, amt(40)), Ok(true));
    assert_eq!(t.balance_of(a), amt(40));
    assert_eq!(t.transfer(a, a, amt(41)), Err(TokenError::InsufficientBalance));
}

#[test]
fn mint_then_burn_restores() {
    let a = addr(1);
    let b = addr(2);
    let mut t = EmoryaToken::new(a);
    t.mint(a, a, amt(7)).unwrap();
    t.mint(a, b, amt(3)).unwrap();
    t.mint(a, a, amt(500)).unwrap();
    assert_eq!(t.burn(a, amt(500)), Ok(()));
    assert_eq!(t.balance_of(a), amt(7));
    assert_eq!(t.total_supply(), amt(10));
}

#[test]
fn burn_beyond_balance_fails() {
    let a = addr(1);
    let mut t = EmoryaToken::new(a);
    t.mint(a, a, amt(5)).unwrap();
    assert_eq!(t.burn(a, amt(6)), Err(TokenError::InsufficientBalance));
    assert_eq!(t.balance_of(a), amt(5));
    assert_eq!(t.total_supply(), amt(5));
}

#[test]
fn burn_records_event_to_zero_address() {
    let a = addr(1);
    let mut l = plain_ledger();
    l.mint(a, amt(9)).unwrap();
    l.burn(a, amt(4)).unwrap();
    let ev = l.transfer_events();
    assert_eq!(ev[0], TransferEvent { from: Address::zero(), to: a, amount: amt(9) });
    assert_eq!(ev[1], TransferEvent { from: a, to: Address::zero(), amount: amt(4) });
    assert_eq!(l.balance_of(a), amt(5));
}

#[test]
fn mint_overflow_is_rejected() {
    let a = addr(1);
    let b = addr(2);
    let mut t = EmoryaToken::new(a);
    t.mint(a, a, max_amount()).unwrap();
    assert_eq!(t.mint(a, b, amt(1)), Err(TokenError::Overflow));
    assert_eq!(t.balance_of(b), amt(0));
    assert_eq!(t.total_supply(), max_amount());
}

#[test]
fn amounts_carry_across_limbs() {
    let a = addr(1);
    let b = addr(2);
    let mut l = plain_ledger();
    l.mint(a, Amount::from_limbs([u64::MAX, 0, 0, 0])).unwrap();
    l.mint(a, amt(1)).unwrap();
    assert_eq!(l.balance_of(a).into_limbs(), [0, 1, 0, 0]);
    l.transfer(a, b, amt(1)).unwrap();
    assert_eq!(l.balance_of(a).into_limbs(), [u64::MAX, 0, 0, 0]);
    assert_eq!(l.balance_of(b), amt(1));
}

#[test]
fn supply_is_sum_of_balances() {
    let a = addr(1);
    let b = addr(2);
    let c = addr(3);
    let mut t = EmoryaToken::new(a);
    t.mint(a, a, amt(50)).unwrap();
    t.mint(a, b, amt(20)).unwrap();
    t.transfer(a, c, amt(15)).unwrap();
    t.transfer(b, c, amt(5)).unwrap();
    t.burn(a, amt(10)).unwrap();
    assert_eq!(t.balance_of(a), amt(25));
    assert_eq!(t.balance_of(b), amt(15));
    assert_eq!(t.balance_of(c), amt(20));
    assert_eq!(t.total_supply(), amt(60));
}

#[test]
fn address_comparison() {
    let mut bytes = [7u8; 20];
    let x = Address::new(bytes);
    bytes[19] = 8;
    let y = Address::new(bytes);
    assert!(x.same(&x));
    assert!(!x.same(&y));
    assert_eq!(y.to_bytes()[19], 8);
    assert!(Address::zero().same(&Address::new([0; 20])));
}
