use token::{AccountId, Approval, BlacklistUpdated, Burn, Error, Event, Mint, Paused, Token, Transfer};

fn acct(n: u128) -> AccountId {
    AccountId::new(0, n)
}

fn a() -> AccountId { acct(1) }
fn b() -> AccountId { acct(2) }
fn c() -> AccountId { acct(3) }
fn d() -> AccountId { acct(4) }
fn e() -> AccountId { acct(5) }
fn f() -> AccountId { acct(6) }

/// A ledger created by `a` where `b` holds 100.
fn funded() -> Token {
    let mut t = Token::new(a());
    t.mint(a(), b(), 100).unwrap();
    t
}

#[test]
fn create_starts_empty() {
    let t = Token::new(a());
    assert_eq!(t.total_supply(), 0);
    assert_eq!(t.owner(), a());
    assert_eq!(t.balance_of(a()), 0);
    assert!(!t.is_paused());
    assert!(!t.is_blacklisted(b()));
    assert_eq!(t.allowance(a(), b()), 0);
}

#[test]
fn mint_credits_and_records() {
    let mut t = Token::new(a());
    assert_eq!(t.mint(a(), b(), 100), Ok(Event::Mint(Mint { to: b(), amount: 100 })));
    assert_eq!(t.balance_of(b()), 100);
    assert_eq!(t.total_supply(), 100);
}

#[test]
fn mint_by_non_administrator_is_refused() {
    let mut t = funded();
    assert_eq!(t.mint(c(), b(), 1), Err(Error::Unauthorized));
    assert_eq!(t.balance_of(b()), 100);
    assert_eq!(t.total_supply(), 100);
}

#[test]
fn transfer_moves_units() {
    let mut t = funded();
    assert_eq!(
        t.transfer(b(), d(), 30),
        Ok(Event::Transfer(Transfer { from: b(), to: d(), amount: 30 }))
    );
    assert_eq!(t.balance_of(b()), 70);
    assert_eq!(t.balance_of(d()), 30);
    assert_eq!(t.total_supply(), 100);
}

#[test]
fn transfer_beyond_balance_is_refused() {
    let mut t = funded();
    t.transfer(b(), d(), 30).unwrap();
    assert_eq!(t.transfer(b(), d(), 1000), Err(Error::InsufficientBalance));
    assert_eq!(t.balance_of(b()), 70);
    assert_eq!(t.balance_of(d()), 30);
}

#[test]
fn delegated_transfer_spends_allowance() {
    let mut t = funded();
    assert_eq!(
        t.approve(b(), e(), 50),
        Ok(Event::Approval(Approval { owner: b(), spender: e(), amount: 50 }))
    );
    assert_eq!(
        t.transfer_from(e(), b(), f(), 20),
        Ok(Event::Transfer(Transfer { from: b(), to: f(), amount: 20 }))
    );
    assert_eq!(t.allowance(b(), e()), 30);
    assert_eq!(t.balance_of(b()), 80);
    assert_eq!(t.balance_of(f()), 20);
    assert_eq!(t.total_supply(), 100);
}

#[test]
fn delegated_transfer_beyond_allowance_is_refused() {
    let mut t = funded();
    t.approve(b(), e(), 5).unwrap();
    assert_eq!(t.transfer_from(e(), b(), f(), 6), Err(Error::InsufficientAllowance));
    assert_eq!(t.transfer_from(e(), b(), f(), 5), Ok(Event::Transfer(Transfer { from: b(), to: f(), amount: 5 })));
    assert_eq!(t.allowance(b(), e()), 0);
}

#[test]
fn delegated_transfer_beyond_balance_is_refused() {
    let mut t = funded();
    t.approve(b(), e(), 500).unwrap();
    assert_eq!(t.transfer_from(e(), b(), f(), 101), Err(Error::InsufficientBalance));
    assert_eq!(t.allowance(b(), e()), 500);
    assert_eq!(t.balance_of(b()), 100);
}

#[test]
fn pause_blocks_transfers_but_not_mint() {
    let mut t = funded();
    t.approve(b(), e(), 50).unwrap();
    assert_eq!(t.pause(a()), Ok(Event::Paused(Paused { is_paused: true })));
    assert!(t.is_paused());
    assert_eq!(t.transfer(b(), d(), 1), Err(Error::ContractPaused));
    assert_eq!(t.transfer_from(e(), b(), f(), 1), Err(Error::ContractPaused));
    // Minting is not gated by the halt switch.
    assert_eq!(t.mint(a(), d(), 5), Ok(Event::Mint(Mint { to: d(), amount: 5 })));
    assert_eq!(t.balance_of(d()), 5);
    assert_eq!(t.unpause(a()), Ok(Event::Paused(Paused { is_paused: false })));
    assert!(t.transfer(b(), d(), 1).is_ok());
}

#[test]
fn pause_by_non_administrator_is_refused() {
    let mut t = funded();
    assert_eq!(t.pause(b()), Err(Error::Unauthorized));
    assert_eq!(t.unpause(b()), Err(Error::Unauthorized));
    assert!(!t.is_paused());
}

#[test]
fn restriction_blocks_sender_and_delegated_pull() {
    let mut t = funded();
    t.approve(b(), d(), 50).unwrap();
    assert_eq!(
        t.blacklist_account(a(), b()),
        Ok(Event::BlacklistUpdated(BlacklistUpdated { account: b(), is_blacklisted: true }))
    );
    assert!(t.is_blacklisted(b()));
    assert_eq!(t.transfer(b(), d(), 1), Err(Error::Blacklisted));
    assert_eq!(t.transfer_from(d(), b(), d(), 1), Err(Error::Blacklisted));
    assert_eq!(t.transfer_from(d(), b(), f(), 1), Err(Error::Blacklisted));
    assert_eq!(
        t.remove_from_blacklist(a(), b()),
        Ok(Event::BlacklistUpdated(BlacklistUpdated { account: b(), is_blacklisted: false }))
    );
    assert!(!t.is_blacklisted(b()));
    assert!(t.transfer(b(), d(), 1).is_ok());
}

#[test]
fn restricted_recipient_is_refused() {
    let mut t = funded();
    t.blacklist_account(a(), d()).unwrap();
    assert_eq!(t.transfer(b(), d(), 1), Err(Error::Blacklisted));
    assert_eq!(t.balance_of(b()), 100);
}

#[test]
fn restriction_by_non_administrator_is_refused() {
    let mut t = funded();
    assert_eq!(t.blacklist_account(b(), d()), Err(Error::Unauthorized));
    assert_eq!(t.remove_from_blacklist(b(), d()), Err(Error::Unauthorized));
    assert!(!t.is_blacklisted(d()));
}

#[test]
fn batch_skips_restricted_recipient_and_keeps_its_amount() {
    let mut t = Token::new(a());
    t.mint(a(), c(), 30).unwrap();
    t.mint(a(), b(), 5).unwrap();
    t.blacklist_account(a(), b()).unwrap();
    let events = t.batch_transfer(c(), vec![d(), b(), f()], vec![10, 10, 10]).unwrap();
    assert_eq!(
        events,
        vec![
            Event::Transfer(Transfer { from: c(), to: d(), amount: 10 }),
            Event::Transfer(Transfer { from: c(), to: f(), amount: 10 }),
        ]
    );
    // The passed-over entry is neither credited nor debited.
    assert_eq!(t.balance_of(c()), 10);
    assert_eq!(t.balance_of(d()), 10);
    assert_eq!(t.balance_of(b()), 5);
    assert_eq!(t.balance_of(f()), 10);
    assert_eq!(t.total_supply(), 35);
    let sum = t.balance_of(a()) + t.balance_of(b()) + t.balance_of(c()) + t.balance_of(d()) + t.balance_of(f());
    assert_eq!(sum, t.total_supply());
}

#[test]
fn batch_skips_sender_as_recipient() {
    let mut t = funded();
    let events = t.batch_transfer(b(), vec![b(), d()], vec![40, 20]).unwrap();
    assert_eq!(events, vec![Event::Transfer(Transfer { from: b(), to: d(), amount: 20 })]);
    assert_eq!(t.balance_of(b()), 80);
    assert_eq!(t.balance_of(d()), 20);
}

#[test]
fn batch_credits_repeated_recipient_each_time() {
    let mut t = funded();
    t.batch_transfer(b(), vec![d(), d()], vec![15, 25]).unwrap();
    assert_eq!(t.balance_of(d()), 40);
    assert_eq!(t.balance_of(b()), 60);
}

#[test]
fn batch_empty_succeeds_with_no_debit() {
    let mut t = funded();
    assert_eq!(t.batch_transfer(b(), vec![], vec![]), Ok(vec![]));
    assert_eq!(t.balance_of(b()), 100);
    assert_eq!(t.total_supply(), 100);
}

#[test]
fn batch_length_mismatch_is_refused() {
    let mut t = funded();
    assert_eq!(t.batch_transfer(b(), vec![d()], vec![1, 2]), Err(Error::BatchLengthMismatch));
    assert_eq!(t.balance_of(b()), 100);
}

#[test]
fn batch_refusals_in_order() {
    let mut t = funded();
    assert_eq!(t.batch_transfer(b(), vec![d()], vec![101]), Err(Error::InsufficientBalance));
    assert_eq!(
        t.batch_transfer(b(), vec![d(), f()], vec![u128::MAX, 1]),
        Err(Error::Overflow)
    );
    t.blacklist_account(a(), b()).unwrap();
    assert_eq!(t.batch_transfer(b(), vec![d()], vec![1]), Err(Error::Blacklisted));
    t.pause(a()).unwrap();
    assert_eq!(t.batch_transfer(b(), vec![d()], vec![1]), Err(Error::ContractPaused));
    assert_eq!(t.batch_transfer(b(), vec![d()], vec![]), Err(Error::BatchLengthMismatch));
    assert_eq!(t.balance_of(b()), 100);
    assert_eq!(t.balance_of(d()), 0);
}

#[test]
fn self_transfer_is_refused_whatever_the_amount() {
    let mut t = funded();
    assert_eq!(t.transfer(b(), b(), 0), Err(Error::SelfTransfer));
    assert_eq!(t.transfer(b(), b(), 10), Err(Error::SelfTransfer));
    assert_eq!(t.transfer(b(), b(), 1000), Err(Error::SelfTransfer));
    assert_eq!(t.transfer(c(), c(), 1), Err(Error::SelfTransfer));
    t.approve(b(), e(), 10).unwrap();
    assert_eq!(t.transfer_from(e(), b(), b(), 1), Err(Error::SelfTransfer));
    assert_eq!(t.balance_of(b()), 100);
}

#[test]
fn approve_replaces_earlier_amount() {
    let mut t = funded();
    t.approve(b(), e(), 50).unwrap();
    t.approve(b(), e(), 7).unwrap();
    assert_eq!(t.allowance(b(), e()), 7);
    assert_eq!(t.allowance(e(), b()), 0);
    t.approve(b(), e(), 0).unwrap();
    assert_eq!(t.allowance(b(), e()), 0);
}

#[test]
fn burn_destroys_units() {
    let mut t = funded();
    assert_eq!(t.burn(b(), 40), Ok(Event::Burn(Burn { from: b(), amount: 40 })));
    assert_eq!(t.balance_of(b()), 60);
    assert_eq!(t.total_supply(), 60);
    assert_eq!(t.burn(b(), 61), Err(Error::InsufficientBalance));
    assert_eq!(t.balance_of(b()), 60);
    assert_eq!(t.total_supply(), 60);
}

#[test]
fn zero_amounts_succeed_without_change() {
    let mut t = funded();
    assert_eq!(t.transfer(b(), d(), 0), Ok(Event::Transfer(Transfer { from: b(), to: d(), amount: 0 })));
    assert_eq!(t.mint(a(), d(), 0), Ok(Event::Mint(Mint { to: d(), amount: 0 })));
    assert_eq!(t.burn(d(), 0), Ok(Event::Burn(Burn { from: d(), amount: 0 })));
    assert_eq!(t.balance_of(b()), 100);
    assert_eq!(t.balance_of(d()), 0);
    assert_eq!(t.total_supply(), 100);
}

#[test]
fn mint_overflow_leaves_state_unchanged() {
    let mut t = Token::new(a());
    assert!(t.mint(a(), b(), u128::MAX).is_ok());
    assert_eq!(t.mint(a(), c(), 1), Err(Error::Overflow));
    assert_eq!(t.balance_of(c()), 0);
    assert_eq!(t.total_supply(), u128::MAX);
    assert_eq!(t.mint(a(), b(), 1), Err(Error::Overflow));
    assert_eq!(t.balance_of(b()), u128::MAX);
}

#[test]
fn balances_never_exceed_supply() {
    let mut t = funded();
    t.mint(a(), c(), 50).unwrap();
    t.transfer(b(), c(), 60).unwrap();
    t.burn(c(), 10).unwrap();
    for x in [a(), b(), c(), d()] {
        assert!(t.balance_of(x) <= t.total_supply());
    }
    let sum = t.balance_of(b()) + t.balance_of(c());
    assert_eq!(sum, t.total_supply());
}

#[test]
fn failed_operations_leave_state_unchanged() {
    let mut t = funded();
    t.approve(b(), e(), 10).unwrap();
    assert!(t.transfer(b(), d(), 101).is_err());
    assert!(t.transfer_from(e(), b(), d(), 11).is_err());
    assert!(t.burn(d(), 1).is_err());
    assert!(t.mint(b(), d(), 1).is_err());
    assert_eq!(t.balance_of(b()), 100);
    assert_eq!(t.balance_of(d()), 0);
    assert_eq!(t.allowance(b(), e()), 10);
    assert_eq!(t.total_supply(), 100);
}

#[test]
fn identifiers_differ_by_either_half() {
    let mut t = Token::new(a());
    let x = AccountId::new(1, 2);
    let y = AccountId::new(2, 2);
    t.mint(a(), x, 3).unwrap();
    assert_eq!(t.balance_of(x), 3);
    assert_eq!(t.balance_of(y), 0);
    assert_eq!(t.balance_of(AccountId::new(1, 3)), 0);
}
