use token_sell::address::{derive_address, token_holder_address, Address, Seed};
use token_sell::error::SellError;
use token_sell::instruction::{decode_instruction, price_bytes, read_price, SellInstruction};
use token_sell::ledger::{Ledger, LedgerAccount};
use token_sell::processor::{
    process_instruction, AccountView, Effect, PdaSigner, SaleConfig, PRICE_SPACE, VAULT_FUNDING,
};

const RENT_MINIMUM: u64 = 946_560;
const HOLDER_RENT: u64 = 2_039_280;

fn addr(b: u8) -> Address {
    Address::new([b; 32])
}

fn program() -> Address {
    addr(9)
}

fn config() -> SaleConfig {
    SaleConfig { admin: addr(1), treasury: addr(2), mint: addr(3) }
}

fn system() -> Address {
    addr(0)
}

fn token_program() -> Address {
    addr(5)
}

fn vault() -> Address {
    derive_address(&program(), Seed::Vault).unwrap().address
}

fn price_account() -> Address {
    derive_address(&program(), Seed::Price).unwrap().address
}

fn holder(wallet: &Address) -> Address {
    token_holder_address(wallet, &config().mint).unwrap()
}

fn account(key: Address, owner: Address, lamports: u64, tokens: u64) -> LedgerAccount {
    LedgerAccount { key, owner, lamports, tokens, data: Vec::new() }
}

/// A ledger with an initialized vault that holds `vault_tokens`, a buyer
/// `addr(4)` with `buyer_lamports`, and no price account owned by the program.
fn world(buyer_lamports: u64, vault_tokens: u64) -> Ledger {
    let buyer = addr(4);
    let admin = config().admin;
    Ledger {
        token_program: token_program(),
        holder_rent: HOLDER_RENT,
        accounts: vec![
            account(buyer, system(), buyer_lamports, 0),
            account(admin, system(), 50_000_000, 0),
            account(system(), system(), 1, 0),
            account(vault(), program(), VAULT_FUNDING, 0),
            account(holder(&vault()), token_program(), 2_039_280, vault_tokens),
            account(config().mint, token_program(), 1_461_600, 0),
            account(token_program(), system(), 1, 0),
            account(addr(6), system(), 1, 0),
            account(addr(7), system(), 1, 0),
            account(config().treasury, system(), 0, 0),
            account(holder(&buyer), system(), 0, 0),
            account(holder(&admin), system(), 0, 0),
            account(price_account(), system(), 0, 0),
        ],
    }
}

fn view(l: &Ledger, key: Address, signer: bool) -> AccountView {
    l.account_view(&key, signer).unwrap()
}

fn lamports(l: &Ledger, key: Address) -> u64 {
    l.accounts[l.find(&key).unwrap()].lamports
}

fn tokens(l: &Ledger, key: Address) -> u64 {
    l.accounts[l.find(&key).unwrap()].tokens
}

fn trade_accounts(l: &Ledger, who: Address, signer: bool) -> Vec<AccountView> {
    vec![
        view(l, who, signer),
        view(l, system(), false),
        view(l, vault(), false),
        view(l, holder(&vault()), false),
        view(l, config().mint, false),
        view(l, token_program(), false),
        view(l, addr(6), false),
        view(l, addr(7), false),
        view(l, config().treasury, false),
        view(l, holder(&who), false),
    ]
}

fn buy_accounts(l: &Ledger, signer: bool) -> Vec<AccountView> {
    let mut v = trade_accounts(l, addr(4), signer);
    v.push(view(l, price_account(), false));
    v
}

fn price_accounts(l: &Ledger, who: Address, signer: bool) -> Vec<AccountView> {
    vec![view(l, who, signer), view(l, price_account(), false), view(l, system(), false), view(l, addr(6), false)]
}

fn run(l: &mut Ledger, accounts: &Vec<AccountView>, i: SellInstruction) -> Result<(), SellError> {
    let plan = process_instruction(&program(), &config(), accounts, i.encode().as_slice(), RENT_MINIMUM)?;
    l.apply(&plan)
}

fn set_price(l: &mut Ledger, price: u64) {
    let accounts = price_accounts(l, config().admin, true);
    run(l, &accounts, SellInstruction::SetPrice { price }).unwrap();
}

#[test]
fn derivation_is_deterministic() {
    let a = derive_address(&program(), Seed::Vault).unwrap();
    let b = derive_address(&program(), Seed::Vault).unwrap();
    assert_eq!(a, b);
    let p = derive_address(&program(), Seed::Price).unwrap();
    assert_eq!(p, derive_address(&program(), Seed::Price).unwrap());
    assert_ne!(a.address, p.address);
    assert_ne!(a.address, derive_address(&addr(8), Seed::Vault).unwrap().address);
    assert_eq!(Seed::Vault.bytes(), b"vault".to_vec());
    assert_eq!(Seed::Price.bytes(), b"price".to_vec());
}

#[test]
fn holder_address_depends_on_wallet() {
    let a = token_holder_address(&addr(4), &addr(3)).unwrap();
    assert_eq!(a, token_holder_address(&addr(4), &addr(3)).unwrap());
    assert_ne!(a, addr(4));
    assert_ne!(a, token_holder_address(&addr(1), &addr(3)).unwrap());
    assert_ne!(a, token_holder_address(&addr(4), &addr(2)).unwrap());
}

#[test]
fn address_equality_is_bytewise() {
    let mut b = [7u8; 32];
    assert!(Address::new(b).same(&addr(7)));
    b[31] = 8;
    assert!(!Address::new(b).same(&addr(7)));
}

#[test]
fn decodes_each_tag() {
    assert_eq!(decode_instruction(&[0]), Ok(SellInstruction::CreateVault));
    assert_eq!(decode_instruction(&[1, 3, 0, 0, 0, 0, 0, 0, 0]), Ok(SellInstruction::Buy { amount: 3 }));
    assert_eq!(decode_instruction(&[2, 0, 1, 0, 0, 0, 0, 0, 0]), Ok(SellInstruction::Withdraw { amount: 256 }));
    assert_eq!(
        decode_instruction(&[3, 0, 0, 0, 0, 0, 0, 0, 0x80]),
        Ok(SellInstruction::SetPrice { price: 1u64 << 63 })
    );
    assert_eq!(decode_instruction(&[0, 5, 5]), Ok(SellInstruction::CreateVault));
    assert_eq!(decode_instruction(&[1, 2, 0, 0, 0, 0, 0, 0, 0, 9]), Ok(SellInstruction::Buy { amount: 2 }));
}

#[test]
fn rejects_malformed_payloads() {
    assert_eq!(decode_instruction(&[]), Err(SellError::MalformedInstruction));
    assert_eq!(decode_instruction(&[4, 0, 0, 0, 0, 0, 0, 0, 0]), Err(SellError::MalformedInstruction));
    assert_eq!(decode_instruction(&[1, 0, 0, 0, 0, 0, 0, 0]), Err(SellError::MalformedInstruction));
    let accounts: Vec<AccountView> = Vec::new();
    assert_eq!(
        process_instruction(&program(), &config(), &accounts, &[7], RENT_MINIMUM),
        Err(SellError::MalformedInstruction)
    );
}

#[test]
fn encodes_tag_then_little_endian() {
    assert_eq!(SellInstruction::CreateVault.encode(), vec![0]);
    assert_eq!(SellInstruction::Buy { amount: 0x0102 }.encode(), vec![1, 2, 1, 0, 0, 0, 0, 0, 0]);
    for i in [
        SellInstruction::CreateVault,
        SellInstruction::Buy { amount: u64::MAX },
        SellInstruction::Withdraw { amount: 50 },
        SellInstruction::SetPrice { price: 0 },
    ] {
        assert_eq!(decode_instruction(i.encode().as_slice()), Ok(i));
    }
}

#[test]
fn price_record_is_eight_bytes() {
    assert_eq!(price_bytes(100), vec![100, 0, 0, 0, 0, 0, 0, 0]);
    assert_eq!(read_price(&[100, 0, 0, 0, 0, 0, 0, 0]), Ok(100));
    assert_eq!(read_price(price_bytes(u64::MAX).as_slice()), Ok(u64::MAX));
    assert_eq!(read_price(&[]), Err(SellError::PriceNotSet));
    assert_eq!(read_price(&[1, 0, 0, 0, 0, 0, 0, 0, 0]), Err(SellError::PriceNotSet));
}

#[test]
fn create_vault_succeeds_once() {
    let mut l = world(10_000_000, 0);
    let vault = vault();
    l.accounts[3].owner = system();
    l.accounts[3].lamports = 0;
    let accounts = vec![view(&l, addr(4), true), view(&l, system(), false), view(&l, vault, false)];
    let plan = process_instruction(&program(), &config(), &accounts, &[0], RENT_MINIMUM).unwrap();
    let bump = derive_address(&program(), Seed::Vault).unwrap().bump;
    assert_eq!(
        plan,
        vec![
            Effect::Transfer { from: addr(4), to: vault, lamports: VAULT_FUNDING },
            Effect::Assign { account: vault, owner: program(), signer: PdaSigner { seed: Seed::Vault, bump } },
        ]
    );
    l.apply(&plan).unwrap();
    assert_eq!(lamports(&l, vault), 2_282_880);
    assert_eq!(lamports(&l, addr(4)), 10_000_000 - 2_282_880);
    assert_eq!(view(&l, vault, false).owner, program());
    let again = vec![view(&l, addr(4), true), view(&l, system(), false), view(&l, vault, false)];
    assert_eq!(
        process_instruction(&program(), &config(), &again, &[0], RENT_MINIMUM),
        Err(SellError::AlreadyInitialized)
    );
}

#[test]
fn create_vault_checks_the_vault_address() {
    let l = world(10_000_000, 0);
    let accounts = vec![view(&l, addr(4), true), view(&l, system(), false), view(&l, addr(7), false)];
    assert_eq!(
        process_instruction(&program(), &config(), &accounts, &[0], RENT_MINIMUM),
        Err(SellError::AccountMismatch)
    );
    let short = vec![view(&l, addr(4), true), view(&l, system(), false)];
    assert_eq!(process_instruction(&program(), &config(), &short, &[0], RENT_MINIMUM), Err(SellError::MissingAccount));
}

#[test]
fn set_price_by_others_is_unauthorized() {
    let l = world(10_000_000, 0);
    for price in [0u64, 1, 100, u64::MAX] {
        for signer in [true, false] {
            let accounts = price_accounts(&l, addr(4), signer);
            let data = SellInstruction::SetPrice { price }.encode();
            assert_eq!(
                process_instruction(&program(), &config(), &accounts, data.as_slice(), RENT_MINIMUM),
                Err(SellError::UnauthorizedCaller)
            );
        }
    }
}

#[test]
fn set_price_needs_signature_and_price_account() {
    let l = world(10_000_000, 0);
    let data = SellInstruction::SetPrice { price: 7 }.encode();
    let unsigned = price_accounts(&l, config().admin, false);
    assert_eq!(
        process_instruction(&program(), &config(), &unsigned, data.as_slice(), RENT_MINIMUM),
        Err(SellError::MissingSignature)
    );
    let mut wrong = price_accounts(&l, config().admin, true);
    wrong[1] = view(&l, vault(), false);
    assert_eq!(
        process_instruction(&program(), &config(), &wrong, data.as_slice(), RENT_MINIMUM),
        Err(SellError::AccountMismatch)
    );
}

#[test]
fn set_price_creates_then_overwrites() {
    let mut l = world(10_000_000, 0);
    let p = price_account();
    l.accounts[12].lamports = 1000;
    let accounts = price_accounts(&l, config().admin, true);
    let data = SellInstruction::SetPrice { price: 100 }.encode();
    let plan = process_instruction(&program(), &config(), &accounts, data.as_slice(), RENT_MINIMUM).unwrap();
    let signer = PdaSigner { seed: Seed::Price, bump: derive_address(&program(), Seed::Price).unwrap().bump };
    assert_eq!(
        plan,
        vec![
            Effect::Transfer { from: config().admin, to: p, lamports: RENT_MINIMUM - 1000 },
            Effect::Allocate { account: p, space: PRICE_SPACE, signer },
            Effect::Assign { account: p, owner: program(), signer },
            Effect::WritePrice { account: p, price: 100 },
        ]
    );
    l.apply(&plan).unwrap();
    assert_eq!(lamports(&l, p), RENT_MINIMUM);
    assert_eq!(view(&l, p, false).data, vec![100, 0, 0, 0, 0, 0, 0, 0]);
    let accounts = price_accounts(&l, config().admin, true);
    let data = SellInstruction::SetPrice { price: 5 }.encode();
    let plan = process_instruction(&program(), &config(), &accounts, data.as_slice(), RENT_MINIMUM).unwrap();
    assert_eq!(plan, vec![Effect::WritePrice { account: p, price: 5 }]);
    l.apply(&plan).unwrap();
    assert_eq!(read_price(view(&l, p, false).data.as_slice()), Ok(5));
}

#[test]
fn set_price_top_up_saturates() {
    let mut l = world(10_000_000, 0);
    l.accounts[12].lamports = 5_000_000;
    let accounts = price_accounts(&l, config().admin, true);
    let data = SellInstruction::SetPrice { price: 1 }.encode();
    let plan = process_instruction(&program(), &config(), &accounts, data.as_slice(), RENT_MINIMUM).unwrap();
    assert_eq!(plan[0], Effect::Transfer { from: config().admin, to: price_account(), lamports: 0 });
    let plan = process_instruction(&program(), &config(), &accounts, data.as_slice(), 0).unwrap();
    assert_eq!(plan[0], Effect::Transfer { from: config().admin, to: price_account(), lamports: 0 });
    l.accounts[12].lamports = 0;
    let accounts = price_accounts(&l, config().admin, true);
    let plan = process_instruction(&program(), &config(), &accounts, data.as_slice(), 0).unwrap();
    assert_eq!(plan[0], Effect::Transfer { from: config().admin, to: price_account(), lamports: 1 });
}

#[test]
fn buy_of_zero_moves_nothing() {
    let mut l = world(10_000_000, 10);
    l.accounts[10].owner = token_program();
    set_price(&mut l, 100);
    let before = lamports(&l, addr(4));
    let accounts = buy_accounts(&l, true);
    run(&mut l, &accounts, SellInstruction::Buy { amount: 0 }).unwrap();
    assert_eq!(lamports(&l, addr(4)), before);
    assert_eq!(lamports(&l, config().treasury), 0);
    assert_eq!(tokens(&l, holder(&addr(4))), 0);
    assert_eq!(tokens(&l, holder(&vault())), 10);
}

#[test]
fn price_100_buy_3_from_fresh_buyer() {
    let mut l = world(10_000_000, 10);
    set_price(&mut l, 100);
    let accounts = buy_accounts(&l, true);
    let data = SellInstruction::Buy { amount: 3 }.encode();
    let plan = process_instruction(&program(), &config(), &accounts, data.as_slice(), RENT_MINIMUM).unwrap();
    let bump = derive_address(&program(), Seed::Vault).unwrap().bump;
    assert_eq!(
        plan,
        vec![
            Effect::Transfer { from: addr(4), to: config().treasury, lamports: 300 },
            Effect::CreateTokenHolder { funder: addr(4), wallet: addr(4), mint: config().mint },
            Effect::TokenTransfer {
                token_program: token_program(),
                source: holder(&vault()),
                destination: holder(&addr(4)),
                authority: vault(),
                amount: 3,
                signer: PdaSigner { seed: Seed::Vault, bump },
            },
        ]
    );
    l.apply(&plan).unwrap();
    assert_eq!(lamports(&l, addr(4)), 10_000_000 - 300 - HOLDER_RENT);
    assert_eq!(lamports(&l, holder(&addr(4))), HOLDER_RENT);
    assert_eq!(lamports(&l, config().treasury), 300);
    assert_eq!(tokens(&l, holder(&addr(4))), 3);
    assert_eq!(view(&l, holder(&addr(4)), false).owner, token_program());
    assert_eq!(tokens(&l, holder(&vault())), 7);
    let again = buy_accounts(&l, true);
    let plan = process_instruction(&program(), &config(), &again, data.as_slice(), RENT_MINIMUM).unwrap();
    assert_eq!(plan.len(), 2);
    l.apply(&plan).unwrap();
    assert_eq!(tokens(&l, holder(&addr(4))), 6);
    assert_eq!(lamports(&l, config().treasury), 600);
}

#[test]
fn withdraw_50_of_10_fails_unchanged() {
    let mut l = world(10_000_000, 10);
    let admin = config().admin;
    let before: Vec<(u64, u64)> = l.accounts.iter().map(|a| (a.lamports, a.tokens)).collect();
    let accounts = trade_accounts(&l, admin, true);
    assert_eq!(run(&mut l, &accounts, SellInstruction::Withdraw { amount: 50 }), Err(SellError::InsufficientVaultBalance));
    let after: Vec<(u64, u64)> = l.accounts.iter().map(|a| (a.lamports, a.tokens)).collect();
    assert_eq!(before, after);
    assert_eq!(view(&l, holder(&admin), false).owner, system());
}

#[test]
fn price_zero_buy_5_is_free() {
    let mut l = world(10_000_000, 10);
    set_price(&mut l, 0);
    let accounts = buy_accounts(&l, true);
    let data = SellInstruction::Buy { amount: 5 }.encode();
    let plan = process_instruction(&program(), &config(), &accounts, data.as_slice(), RENT_MINIMUM).unwrap();
    assert_eq!(plan[0], Effect::Transfer { from: addr(4), to: config().treasury, lamports: 0 });
    l.apply(&plan).unwrap();
    assert_eq!(lamports(&l, addr(4)), 10_000_000 - HOLDER_RENT);
    assert_eq!(lamports(&l, config().treasury), 0);
    assert_eq!(tokens(&l, holder(&addr(4))), 5);
    assert_eq!(tokens(&l, holder(&vault())), 5);
}

#[test]
fn withdraw_credits_admin_tokens_only() {
    let mut l = world(10_000_000, 10);
    l.accounts[11].owner = token_program();
    let admin = config().admin;
    let accounts = trade_accounts(&l, admin, true);
    let lamports_before: Vec<u64> = l.accounts.iter().map(|a| a.lamports).collect();
    run(&mut l, &accounts, SellInstruction::Withdraw { amount: 4 }).unwrap();
    assert_eq!(tokens(&l, holder(&admin)), 4);
    assert_eq!(tokens(&l, holder(&vault())), 6);
    let lamports_after: Vec<u64> = l.accounts.iter().map(|a| a.lamports).collect();
    assert_eq!(lamports_before, lamports_after);
}

#[test]
fn withdraw_checks_caller_and_accounts() {
    let l = world(10_000_000, 10);
    let data = SellInstruction::Withdraw { amount: 1 }.encode();
    let other = trade_accounts(&l, addr(4), true);
    assert_eq!(
        process_instruction(&program(), &config(), &other, data.as_slice(), RENT_MINIMUM),
        Err(SellError::UnauthorizedCaller)
    );
    let unsigned = trade_accounts(&l, config().admin, false);
    assert_eq!(
        process_instruction(&program(), &config(), &unsigned, data.as_slice(), RENT_MINIMUM),
        Err(SellError::MissingSignature)
    );
    let mut wrong_treasury = trade_accounts(&l, config().admin, true);
    wrong_treasury[8] = view(&l, addr(4), false);
    assert_eq!(
        process_instruction(&program(), &config(), &wrong_treasury, data.as_slice(), RENT_MINIMUM),
        Err(SellError::AccountMismatch)
    );
    let mut wrong_vault_holder = trade_accounts(&l, config().admin, true);
    wrong_vault_holder[3] = view(&l, holder(&addr(4)), false);
    assert_eq!(
        process_instruction(&program(), &config(), &wrong_vault_holder, data.as_slice(), RENT_MINIMUM),
        Err(SellError::AccountMismatch)
    );
}

#[test]
fn buy_rejects_mismatched_accounts() {
    let mut l = world(10_000_000, 10);
    set_price(&mut l, 100);
    let data = SellInstruction::Buy { amount: 1 }.encode();
    for (pos, key) in [(10usize, vault()), (8, addr(4)), (4, addr(7)), (9, holder(&config().admin)), (2, addr(7))] {
        let mut accounts = buy_accounts(&l, true);
        accounts[pos] = view(&l, key, false);
        assert_eq!(
            process_instruction(&program(), &config(), &accounts, data.as_slice(), RENT_MINIMUM),
            Err(SellError::AccountMismatch)
        );
    }
    assert_eq!(tokens(&l, holder(&vault())), 10);
}

#[test]
fn buy_needs_signature_price_and_room() {
    let mut l = world(10_000_000, 10);
    let data = SellInstruction::Buy { amount: 1 }.encode();
    let accounts = buy_accounts(&l, true);
    assert_eq!(
        process_instruction(&program(), &config(), &accounts, data.as_slice(), RENT_MINIMUM),
        Err(SellError::PriceNotSet)
    );
    set_price(&mut l, u64::MAX);
    let unsigned = buy_accounts(&l, false);
    assert_eq!(
        process_instruction(&program(), &config(), &unsigned, data.as_slice(), RENT_MINIMUM),
        Err(SellError::MissingSignature)
    );
    let accounts = buy_accounts(&l, true);
    let two = SellInstruction::Buy { amount: 2 }.encode();
    assert_eq!(
        process_instruction(&program(), &config(), &accounts, two.as_slice(), RENT_MINIMUM),
        Err(SellError::ArithmeticOverflow)
    );
    let short: Vec<AccountView> = accounts[..10].to_vec();
    assert_eq!(
        process_instruction(&program(), &config(), &short, data.as_slice(), RENT_MINIMUM),
        Err(SellError::MissingAccount)
    );
}

#[test]
fn buy_without_funds_changes_nothing() {
    let mut l = world(250, 10);
    set_price(&mut l, 100);
    let accounts = buy_accounts(&l, true);
    assert_eq!(run(&mut l, &accounts, SellInstruction::Buy { amount: 3 }), Err(SellError::InsufficientFunds));
    assert_eq!(lamports(&l, addr(4)), 250);
    assert_eq!(tokens(&l, holder(&vault())), 10);
    assert_eq!(view(&l, holder(&addr(4)), false).owner, system());
}

#[test]
fn withdraw_creates_admin_holder_at_admin_cost() {
    let mut l = world(10_000_000, 10);
    let admin = config().admin;
    let accounts = trade_accounts(&l, admin, true);
    run(&mut l, &accounts, SellInstruction::Withdraw { amount: 10 }).unwrap();
    assert_eq!(lamports(&l, admin), 50_000_000 - HOLDER_RENT);
    assert_eq!(lamports(&l, holder(&admin)), HOLDER_RENT);
    assert_eq!(view(&l, holder(&admin), false).owner, token_program());
    assert_eq!(tokens(&l, holder(&admin)), 10);
    assert_eq!(tokens(&l, holder(&vault())), 0);
    assert_eq!(lamports(&l, config().treasury), 0);
}
