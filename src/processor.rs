//! The four transitions: each validates the supplied accounts in a fixed order
//! and, where all checks pass, yields the effects that the host performs.

use crate::address::{
    associated_search_of, derivation, derive_address, token_holder_address, Address,
    DerivedAddress, Seed,
};
use crate::error::SellError;
use crate::instruction::{decode_instruction, decode_spec, price_record, read_price, SellInstruction};
use vstd::prelude::*;

verus! {

/// Lamports that fund the vault account when it is created.
pub const VAULT_FUNDING: u64 = 2_282_880;

/// Bytes of data that the price account holds.
pub const PRICE_SPACE: u64 = 8;

/// What the program reads of one supplied account.
#[derive(Clone, Debug)]
pub struct AccountView {
    pub key: Address,
    pub is_signer: bool,
    pub owner: Address,
    pub lamports: u64,
    pub data: Vec<u8>,
}

/// The fixed identities that gate authority and fund flow.
#[derive(Clone, Copy, Debug, PartialEq, Eq)]
pub struct SaleConfig {
    pub admin: Address,
    pub treasury: Address,
    pub mint: Address,
}

/// Proof that the program may sign for the address derived from `seed`.
#[derive(Clone, Copy, Debug, PartialEq, Eq)]
pub struct PdaSigner {
    pub seed: Seed,
    pub bump: u8,
}

/// One step that the host performs for an accepted instruction, in order.
#[derive(Clone, Copy, Debug, PartialEq, Eq)]
pub enum Effect {
    /// Moves base currency.
    Transfer { from: Address, to: Address, lamports: u64 },
    /// Gives a derived account its data space.
    Allocate { account: Address, space: u64, signer: PdaSigner },
    /// Hands a derived account over to `owner`.
    Assign { account: Address, owner: Address, signer: PdaSigner },
    /// Creates the token-holding account of `wallet` for `mint`.
    CreateTokenHolder { funder: Address, wallet: Address, mint: Address },
    /// Moves tokens between token-holding accounts, through `token_program`.
    TokenTransfer {
        token_program: Address,
        source: Address,
        destination: Address,
        authority: Address,
        amount: u64,
        signer: PdaSigner,
    },
    /// Stores the price record in the price account.
    WritePrice { account: Address, price: u64 },
}

pub open spec fn effects_view(r: Result<Vec<Effect>, SellError>) -> Result<Seq<Effect>, SellError> {
    match r {
        Ok(v) => Ok(v@),
        Err(e) => Err(e),
    }
}

/// `max(minimum, 1)` less what the account holds, saturating at zero.
pub open spec fn rent_top_up(minimum: u64, held: u64) -> u64 {
    let m = if minimum > 1 { minimum } else { 1 };
    if m > held { (m - held) as u64 } else { 0 }
}

pub open spec fn create_vault_outcome(program: Address, accts: Seq<AccountView>) -> Result<Seq<Effect>, SellError> {
    match derivation(Seed::Vault, program@) {
        None => Err(SellError::DerivationFailed),
        Some((vault, bump)) => if accts.len() < 3 {
            Err(SellError::MissingAccount)
        } else if accts[2].key@ != vault {
            Err(SellError::AccountMismatch)
        } else if accts[2].owner@ == program@ {
            Err(SellError::AlreadyInitialized)
        } else {
            Ok(seq![
                Effect::Transfer { from: accts[0].key, to: accts[2].key, lamports: VAULT_FUNDING },
                Effect::Assign {
                    account: accts[2].key,
                    owner: program,
                    signer: PdaSigner { seed: Seed::Vault, bump },
                },
            ])
        },
    }
}

pub open spec fn set_price_outcome(
    program: Address,
    config: SaleConfig,
    accts: Seq<AccountView>,
    price: u64,
    rent_minimum: u64,
) -> Result<Seq<Effect>, SellError> {
    if accts.len() < 4 {
        Err(SellError::MissingAccount)
    } else if accts[0].key@ != config.admin@ {
        Err(SellError::UnauthorizedCaller)
    } else {
        match derivation(Seed::Price, program@) {
            None => Err(SellError::DerivationFailed),
            Some((addr, bump)) => if accts[1].key@ != addr {
                Err(SellError::AccountMismatch)
            } else if !accts[0].is_signer {
                Err(SellError::MissingSignature)
            } else {
                let write = seq![Effect::WritePrice { account: accts[1].key, price }];
                if accts[1].owner@ != program@ {
                    let signer = PdaSigner { seed: Seed::Price, bump };
                    Ok(seq![
                        Effect::Transfer {
                            from: accts[0].key,
                            to: accts[1].key,
                            lamports: rent_top_up(rent_minimum, accts[1].lamports),
                        },
                        Effect::Allocate { account: accts[1].key, space: PRICE_SPACE, signer },
                        Effect::Assign { account: accts[1].key, owner: program, signer },
                    ] + write)
                } else {
                    Ok(write)
                }
            },
        }
    }
}

/// Creation of the receiver's token-holding account where the token program
/// does not own it yet, then the transfer of `amount` tokens out of the vault.
/// Account positions: 0 receiver, 2 vault, 3 vault's holder, 4 mint,
/// 5 token program, 9 receiver's holder.
pub open spec fn delivery(accts: Seq<AccountView>, amount: u64, vault_bump: u8) -> Seq<Effect> {
    let create = if accts[9].owner@ != accts[5].key@ {
        seq![Effect::CreateTokenHolder { funder: accts[0].key, wallet: accts[0].key, mint: accts[4].key }]
    } else {
        Seq::empty()
    };
    create.push(
        Effect::TokenTransfer {
            token_program: accts[5].key,
            source: accts[3].key,
            destination: accts[9].key,
            authority: accts[2].key,
            amount,
            signer: PdaSigner { seed: Seed::Vault, bump: vault_bump },
        },
    )
}

/// The checks on the mint, the receiver's token holder, the vault and the
/// vault's token holder; where all pass, the vault's bump.
pub open spec fn vault_checks(
    program: Address,
    config: SaleConfig,
    accts: Seq<AccountView>,
) -> Result<u8, SellError> {
    if accts[4].key@ != config.mint@ {
        Err(SellError::AccountMismatch)
    } else {
        match associated_search_of(accts[0].key@, config.mint@) {
            None => Err(SellError::DerivationFailed),
            Some(holder) => if accts[9].key@ != holder {
                Err(SellError::AccountMismatch)
            } else {
                match derivation(Seed::Vault, program@) {
                    None => Err(SellError::DerivationFailed),
                    Some((vault, bump)) => if accts[2].key@ != vault {
                        Err(SellError::AccountMismatch)
                    } else {
                        match associated_search_of(vault, config.mint@) {
                            None => Err(SellError::DerivationFailed),
                            Some(vault_holder) => if accts[3].key@ != vault_holder {
                                Err(SellError::AccountMismatch)
                            } else {
                                Ok(bump)
                            },
                        }
                    },
                }
            },
        }
    }
}

pub open spec fn buy_outcome(
    program: Address,
    config: SaleConfig,
    accts: Seq<AccountView>,
    amount: u64,
) -> Result<Seq<Effect>, SellError> {
    if accts.len() < 11 {
        Err(SellError::MissingAccount)
    } else {
        match derivation(Seed::Price, program@) {
            None => Err(SellError::DerivationFailed),
            Some((price_addr, _)) => if accts[10].key@ != price_addr {
                Err(SellError::AccountMismatch)
            } else if accts[8].key@ != config.treasury@ {
                Err(SellError::AccountMismatch)
            } else if !accts[0].is_signer {
                Err(SellError::MissingSignature)
            } else {
                match vault_checks(program, config, accts) {
                    Err(e) => Err(e),
                    Ok(bump) => match price_record(accts[10].data@) {
                        None => Err(SellError::PriceNotSet),
                        Some(price) => if price * amount > u64::MAX {
                            Err(SellError::ArithmeticOverflow)
                        } else {
                            Ok(
                                seq![
                                    Effect::Transfer {
                                        from: accts[0].key,
                                        to: accts[8].key,
                                        lamports: (price * amount) as u64,
                                    },
                                ] + delivery(accts, amount, bump),
                            )
                        },
                    },
                }
            },
        }
    }
}

pub open spec fn withdraw_outcome(
    program: Address,
    config: SaleConfig,
    accts: Seq<AccountView>,
    amount: u64,
) -> Result<Seq<Effect>, SellError> {
    if accts.len() < 10 {
        Err(SellError::MissingAccount)
    } else if accts[0].key@ != config.admin@ {
        Err(SellError::UnauthorizedCaller)
    } else if accts[8].key@ != config.treasury@ {
        Err(SellError::AccountMismatch)
    } else if !accts[0].is_signer {
        Err(SellError::MissingSignature)
    } else {
        match vault_checks(program, config, accts) {
            Err(e) => Err(e),
            Ok(bump) => Ok(delivery(accts, amount, bump)),
        }
    }
}

/// What an instruction payload, run against the supplied accounts, yields.
pub open spec fn outcome(
    program: Address,
    config: SaleConfig,
    accts: Seq<AccountView>,
    data: Seq<u8>,
    rent_minimum: u64,
) -> Result<Seq<Effect>, SellError> {
    match decode_spec(data) {
        None => Err(SellError::MalformedInstruction),
        Some(SellInstruction::CreateVault) => create_vault_outcome(program, accts),
        Some(SellInstruction::SetPrice { price }) => set_price_outcome(
            program,
            config,
            accts,
            price,
            rent_minimum,
        ),
        Some(SellInstruction::Buy { amount }) => buy_outcome(program, config, accts, amount),
        Some(SellInstruction::Withdraw { amount }) => withdraw_outcome(program, config, accts, amount),
    }
}

/// Base currency that the effects move, in total.
pub open spec fn lamports_moved(plan: Seq<Effect>) -> int
    decreases plan.len(),
{
    if plan.len() == 0 {
        0
    } else {
        let here = match plan[0] {
            Effect::Transfer { lamports, .. } => lamports as int,
            _ => 0,
        };
        here + lamports_moved(plan.drop_first())
    }
}

/// Tokens that the effects move into the holder `to`.
pub open spec fn tokens_into(plan: Seq<Effect>, to: Seq<u8>) -> int
    decreases plan.len(),
{
    if plan.len() == 0 {
        0
    } else {
        let here = match plan[0] {
            Effect::TokenTransfer { destination, amount, .. } => if destination@ == to {
                amount as int
            } else {
                0
            },
            _ => 0,
        };
        here + tokens_into(plan.drop_first(), to)
    }
}

/// Tokens that the effects move, in total.
pub open spec fn tokens_moved(plan: Seq<Effect>) -> int
    decreases plan.len(),
{
    if plan.len() == 0 {
        0
    } else {
        let here = match plan[0] {
            Effect::TokenTransfer { amount, .. } => amount as int,
            _ => 0,
        };
        here + tokens_moved(plan.drop_first())
    }
}

/// Every base-currency transfer in the effects goes from `from` to `to`.
pub open spec fn transfers_only(plan: Seq<Effect>, from: Seq<u8>, to: Seq<u8>) -> bool {
    forall|i: int|
        0 <= i < plan.len() ==> (#[trigger] plan[i] matches Effect::Transfer { from: f, to: t, .. } ==> f@ == from
            && t@ == to)
}

proof fn lemma_delivery_totals(accts: Seq<AccountView>, amount: u64, bump: u8, head: Seq<Effect>)
    requires
        accts.len() >= 10,
        head.len() <= 1,
        head.len() == 1 ==> head[0] is Transfer,
    ensures
        ({
            let plan = head + delivery(accts, amount, bump);
            &&& lamports_moved(plan) == lamports_moved(head)
            &&& tokens_into(plan, accts[9].key@) == amount
            &&& tokens_moved(plan) == amount
            &&& forall|i: int| head.len() <= i < plan.len() ==> !(plan[i] is Transfer)
        }),
{
    let plan = head + delivery(accts, amount, bump);
    reveal_with_fuel(lamports_moved, 4);
    reveal_with_fuel(tokens_into, 4);
    reveal_with_fuel(tokens_moved, 4);
    let n = plan.len();
    assert(plan.drop_first().drop_first().drop_first().len() == 0 || n < 3);
    if head.len() == 1 {
        assert(plan.drop_first() =~= delivery(accts, amount, bump));
    }
    let d = delivery(accts, amount, bump);
    if d.len() == 2 {
        assert(d.drop_first() =~= seq![d[1]]);
        assert(d.drop_first().drop_first() =~= Seq::<Effect>::empty());
    } else {
        assert(d.drop_first() =~= Seq::<Effect>::empty());
    }
    if head.len() == 0 {
        assert(plan =~= d);
    }
}

/// `addr` is the address derived from `seed` under `program`.
pub open spec fn is_derived(seed: Seed, program: Seq<u8>, addr: Seq<u8>) -> bool {
    derivation(seed, program) matches Some((a, _)) && a == addr
}

/// Where every check on a purchase passes, the purchase is accepted.
pub open spec fn buy_accepts(program: Address, config: SaleConfig, accts: Seq<AccountView>, amount: u64) -> bool {
    &&& accts.len() >= 11
    &&& derivation(Seed::Price, program@) matches Some((p, _)) && accts[10].key@ == p
    &&& accts[8].key@ == config.treasury@
    &&& accts[0].is_signer
    &&& vault_checks(program, config, accts) is Ok
    &&& price_record(accts[10].data@) matches Some(price) && price * amount <= u64::MAX
}

/// Creating the vault works once: an accepted creation hands the vault to
/// the program, and a creation against a vault that the program already owns
/// fails with `AlreadyInitialized`.
pub proof fn lemma_create_vault_once(
    program: Address,
    config: SaleConfig,
    accts: Seq<AccountView>,
    data: Seq<u8>,
    rent_minimum: u64,
)
    requires
        decode_spec(data) == Some(SellInstruction::CreateVault),
    ensures
        outcome(program, config, accts, data, rent_minimum) is Ok ==> ({
            let plan = outcome(program, config, accts, data, rent_minimum)->Ok_0;
            &&& plan.len() == 2
            &&& plan[1] matches Effect::Assign { account, owner, .. } && owner == program && account
                == accts[2].key
            &&& is_derived(Seed::Vault, program@, accts[2].key@)
        }),
        ({
            &&& accts.len() >= 3
            &&& accts[2].owner@ == program@
            &&& is_derived(Seed::Vault, program@, accts[2].key@)
        }) ==> outcome(program, config, accts, data, rent_minimum) == Err::<Seq<Effect>, SellError>(
            SellError::AlreadyInitialized,
        ),
{
}

/// A price update by anyone but the administrator fails with
/// `UnauthorizedCaller`, whatever the price.
pub proof fn lemma_set_price_needs_admin(
    program: Address,
    config: SaleConfig,
    accts: Seq<AccountView>,
    price: u64,
    rent_minimum: u64,
)
    requires
        accts.len() >= 4,
        accts[0].key@ != config.admin@,
    ensures
        outcome(
            program,
            config,
            accts,
            crate::instruction::encode_spec(SellInstruction::SetPrice { price }),
            rent_minimum,
        ) == Err::<Seq<Effect>, SellError>(SellError::UnauthorizedCaller),
{
    crate::instruction::lemma_decode_encode(SellInstruction::SetPrice { price });
}

/// An accepted purchase moves `price * amount` of base currency, all of it
/// from the buyer to the treasury, and `amount` tokens, all of them into the
/// buyer's token holder.
pub proof fn lemma_buy_amounts(
    program: Address,
    config: SaleConfig,
    accts: Seq<AccountView>,
    amount: u64,
    plan: Seq<Effect>,
)
    requires
        buy_outcome(program, config, accts, amount) == Ok::<Seq<Effect>, SellError>(plan),
    ensures
        price_record(accts[10].data@) is Some,
        lamports_moved(plan) == price_record(accts[10].data@).unwrap() * amount,
        transfers_only(plan, accts[0].key@, config.treasury@),
        tokens_into(plan, accts[9].key@) == amount,
        tokens_moved(plan) == amount,
{
    let price = price_record(accts[10].data@).unwrap();
    let bump = vault_checks(program, config, accts)->Ok_0;
    let head = seq![
        Effect::Transfer { from: accts[0].key, to: accts[8].key, lamports: (price * amount) as u64 },
    ];
    lemma_delivery_totals(accts, amount, bump, head);
    reveal_with_fuel(lamports_moved, 2);
    assert(head.drop_first() =~= Seq::<Effect>::empty());
}

/// A purchase of zero tokens passes every check that any purchase passes and
/// then moves no base currency and no tokens.
pub proof fn lemma_buy_nothing(program: Address, config: SaleConfig, accts: Seq<AccountView>)
    requires
        buy_accepts(program, config, accts, 0),
    ensures
        buy_outcome(program, config, accts, 0) is Ok,
        lamports_moved(buy_outcome(program, config, accts, 0)->Ok_0) == 0,
        tokens_moved(buy_outcome(program, config, accts, 0)->Ok_0) == 0,
{
    let plan = buy_outcome(program, config, accts, 0)->Ok_0;
    lemma_buy_amounts(program, config, accts, 0, plan);
}

/// An accepted withdrawal moves no base currency and `amount` tokens, all of
/// them into the administrator's token holder.
pub proof fn lemma_withdraw_amounts(
    program: Address,
    config: SaleConfig,
    accts: Seq<AccountView>,
    amount: u64,
    plan: Seq<Effect>,
)
    requires
        withdraw_outcome(program, config, accts, amount) == Ok::<Seq<Effect>, SellError>(plan),
    ensures
        accts[0].key@ == config.admin@,
        lamports_moved(plan) == 0,
        tokens_into(plan, accts[9].key@) == amount,
        tokens_moved(plan) == amount,
{
    let bump = vault_checks(program, config, accts)->Ok_0;
    lemma_delivery_totals(accts, amount, bump, Seq::empty());
    assert(Seq::<Effect>::empty() + delivery(accts, amount, bump) =~= plan);
}

/// An accepted instruction was given, at each position that the program
/// checks, exactly the derived or fixed identity expected there; any other
/// account there makes it fail, before it has any effect.
pub proof fn lemma_accepted_accounts_match(
    program: Address,
    config: SaleConfig,
    accts: Seq<AccountView>,
    data: Seq<u8>,
    rent_minimum: u64,
)
    requires
        outcome(program, config, accts, data, rent_minimum) is Ok,
    ensures
        decode_spec(data) == Some(SellInstruction::CreateVault) ==> is_derived(
            Seed::Vault,
            program@,
            accts[2].key@,
        ),
        decode_spec(data) is Some && decode_spec(data).unwrap() is SetPrice ==> {
            &&& is_derived(Seed::Price, program@, accts[1].key@)
            &&& accts[0].key@ == config.admin@
        },
        decode_spec(data) is Some && decode_spec(data).unwrap() is Buy ==> is_derived(
            Seed::Price,
            program@,
            accts[10].key@,
        ),
        decode_spec(data) is Some && (decode_spec(data).unwrap() is Buy || decode_spec(data).unwrap() is Withdraw) ==> {
            &&& accts[8].key@ == config.treasury@
            &&& accts[4].key@ == config.mint@
            &&& associated_search_of(accts[0].key@, config.mint@) == Some(accts[9].key@)
            &&& is_derived(Seed::Vault, program@, accts[2].key@)
            &&& associated_search_of(accts[2].key@, config.mint@) == Some(accts[3].key@)
        },
{
}

/// The vault and price addresses that instructions are checked against are
/// fixed by the program identity alone: a creation shown another vault, a
/// purchase shown another price account, or a price update by the
/// administrator shown another price account fails with `AccountMismatch`,
/// whatever the other accounts, signer flags and data.
pub proof fn lemma_derived_addresses_fixed_by_program(
    program: Address,
    config: SaleConfig,
    accts: Seq<AccountView>,
    data: Seq<u8>,
    rent_minimum: u64,
)
    ensures
        ({
            &&& decode_spec(data) == Some(SellInstruction::CreateVault)
            &&& accts.len() >= 3
            &&& derivation(Seed::Vault, program@) is Some
            &&& !is_derived(Seed::Vault, program@, accts[2].key@)
        }) ==> outcome(program, config, accts, data, rent_minimum) == Err::<Seq<Effect>, SellError>(
            SellError::AccountMismatch,
        ),
        ({
            &&& decode_spec(data) is Some
            &&& decode_spec(data).unwrap() is SetPrice
            &&& accts.len() >= 4
            &&& accts[0].key@ == config.admin@
            &&& derivation(Seed::Price, program@) is Some
            &&& !is_derived(Seed::Price, program@, accts[1].key@)
        }) ==> outcome(program, config, accts, data, rent_minimum) == Err::<Seq<Effect>, SellError>(
            SellError::AccountMismatch,
        ),
        ({
            &&& decode_spec(data) is Some
            &&& decode_spec(data).unwrap() is Buy
            &&& accts.len() >= 11
            &&& derivation(Seed::Price, program@) is Some
            &&& !is_derived(Seed::Price, program@, accts[10].key@)
        }) ==> outcome(program, config, accts, data, rent_minimum) == Err::<Seq<Effect>, SellError>(
            SellError::AccountMismatch,
        ),
{
}

fn derive(program_id: &Address, seed: Seed) -> (r: Result<DerivedAddress, SellError>)
    ensures
        match derivation(seed, program_id@) {
            Some((a, b)) => r matches Ok(d) && d.address@ == a && d.bump == b && d.seed == seed,
            None => r == Err::<DerivedAddress, SellError>(SellError::DerivationFailed),
        },
{
    match derive_address(program_id, seed) {
        Some(d) => Ok(d),
        None => Err(SellError::DerivationFailed),
    }
}

fn create_vault(program_id: &Address, accounts: &Vec<AccountView>) -> (r: Result<Vec<Effect>, SellError>)
    ensures
        effects_view(r) == create_vault_outcome(*program_id, accounts@),
{
    let vault = derive(program_id, Seed::Vault)?;
    if accounts.len() < 3 {
        return Err(SellError::MissingAccount);
    }
    if !accounts[2].key.same(&vault.address) {
        return Err(SellError::AccountMismatch);
    }
    if accounts[2].owner.same(program_id) {
        return Err(SellError::AlreadyInitialized);
    }
    let signer = PdaSigner { seed: Seed::Vault, bump: vault.bump };
    let r = vec![
        Effect::Transfer { from: accounts[0].key, to: accounts[2].key, lamports: VAULT_FUNDING },
        Effect::Assign { account: accounts[2].key, owner: *program_id, signer },
    ];
    assert(r@ =~= create_vault_outcome(*program_id, accounts@).unwrap());
    Ok(r)
}

fn set_price(
    program_id: &Address,
    config: &SaleConfig,
    accounts: &Vec<AccountView>,
    price: u64,
    rent_minimum: u64,
) -> (r: Result<Vec<Effect>, SellError>)
    ensures
        effects_view(r) == set_price_outcome(*program_id, *config, accounts@, price, rent_minimum),
{
    if accounts.len() < 4 {
        return Err(SellError::MissingAccount);
    }
    let admin = &accounts[0];
    let price_account = &accounts[1];
    if !admin.key.same(&config.admin) {
        return Err(SellError::UnauthorizedCaller);
    }
    let derived = derive(program_id, Seed::Price)?;
    if !price_account.key.same(&derived.address) {
        return Err(SellError::AccountMismatch);
    }
    if !admin.is_signer {
        return Err(SellError::MissingSignature);
    }
    let mut r: Vec<Effect> = Vec::new();
    if !price_account.owner.same(program_id) {
        let minimum = if rent_minimum > 1 { rent_minimum } else { 1 };
        let top_up = if minimum > price_account.lamports { minimum - price_account.lamports } else { 0 };
        let signer = PdaSigner { seed: Seed::Price, bump: derived.bump };
        r.push(Effect::Transfer { from: admin.key, to: price_account.key, lamports: top_up });
        r.push(Effect::Allocate { account: price_account.key, space: PRICE_SPACE, signer });
        r.push(Effect::Assign { account: price_account.key, owner: *program_id, signer });
    }
    r.push(Effect::WritePrice { account: price_account.key, price });
    assert(r@ =~= set_price_outcome(*program_id, *config, accounts@, price, rent_minimum).unwrap());
    Ok(r)
}

fn check_vault(program_id: &Address, config: &SaleConfig, accounts: &Vec<AccountView>) -> (r: Result<u8, SellError>)
    requires
        accounts@.len() >= 10,
    ensures
        r == vault_checks(*program_id, *config, accounts@),
{
    if !accounts[4].key.same(&config.mint) {
        return Err(SellError::AccountMismatch);
    }
    let holder = match token_holder_address(&accounts[0].key, &config.mint) {
        Some(h) => h,
        None => return Err(SellError::DerivationFailed),
    };
    if !accounts[9].key.same(&holder) {
        return Err(SellError::AccountMismatch);
    }
    let vault = derive(program_id, Seed::Vault)?;
    if !accounts[2].key.same(&vault.address) {
        return Err(SellError::AccountMismatch);
    }
    let vault_holder = match token_holder_address(&vault.address, &config.mint) {
        Some(h) => h,
        None => return Err(SellError::DerivationFailed),
    };
    if !accounts[3].key.same(&vault_holder) {
        return Err(SellError::AccountMismatch);
    }
    Ok(vault.bump)
}

fn push_delivery(out: &mut Vec<Effect>, accounts: &Vec<AccountView>, amount: u64, vault_bump: u8)
    requires
        accounts@.len() >= 10,
    ensures
        final(out)@ == old(out)@ + delivery(accounts@, amount, vault_bump),
{
    if !accounts[9].owner.same(&accounts[5].key) {
        out.push(
            Effect::CreateTokenHolder { funder: accounts[0].key, wallet: accounts[0].key, mint: accounts[4].key },
        );
    }
    out.push(
        Effect::TokenTransfer {
            token_program: accounts[5].key,
            source: accounts[3].key,
            destination: accounts[9].key,
            authority: accounts[2].key,
            amount,
            signer: PdaSigner { seed: Seed::Vault, bump: vault_bump },
        },
    );
    assert(final(out)@ =~= old(out)@ + delivery(accounts@, amount, vault_bump));
}

fn buy(program_id: &Address, config: &SaleConfig, accounts: &Vec<AccountView>, amount: u64) -> (r: Result<Vec<Effect>, SellError>)
    ensures
        effects_view(r) == buy_outcome(*program_id, *config, accounts@, amount),
{
    if accounts.len() < 11 {
        return Err(SellError::MissingAccount);
    }
    let price_derived = derive(program_id, Seed::Price)?;
    if !accounts[10].key.same(&price_derived.address) {
        return Err(SellError::AccountMismatch);
    }
    if !accounts[8].key.same(&config.treasury) {
        return Err(SellError::AccountMismatch);
    }
    if !accounts[0].is_signer {
        return Err(SellError::MissingSignature);
    }
    let bump = check_vault(program_id, config, accounts)?;
    let price = read_price(accounts[10].data.as_slice())?;
    let total = match price.checked_mul(amount) {
        Some(t) => t,
        None => return Err(SellError::ArithmeticOverflow),
    };
    let mut r: Vec<Effect> = Vec::new();
    r.push(Effect::Transfer { from: accounts[0].key, to: accounts[8].key, lamports: total });
    push_delivery(&mut r, accounts, amount, bump);
    Ok(r)
}

fn withdraw(program_id: &Address, config: &SaleConfig, accounts: &Vec<AccountView>, amount: u64) -> (r: Result<Vec<Effect>, SellError>)
    ensures
        effects_view(r) == withdraw_outcome(*program_id, *config, accounts@, amount),
{
    if accounts.len() < 10 {
        return Err(SellError::MissingAccount);
    }
    if !accounts[0].key.same(&config.admin) {
        return Err(SellError::UnauthorizedCaller);
    }
    if !accounts[8].key.same(&config.treasury) {
        return Err(SellError::AccountMismatch);
    }
    if !accounts[0].is_signer {
        return Err(SellError::MissingSignature);
    }
    let bump = check_vault(program_id, config, accounts)?;
    let mut r: Vec<Effect> = Vec::new();
    push_delivery(&mut r, accounts, amount, bump);
    assert(r@ =~= delivery(accounts@, amount, bump));
    Ok(r)
}

/// Runs one instruction: decodes the payload, validates the accounts in the
/// positional order of its kind and, where every check passes, returns the
/// effects for the host to perform. `rent_minimum` is the rent-exempt balance
/// for the price account's eight bytes.
pub fn process_instruction(
    program_id: &Address,
    config: &SaleConfig,
    accounts: &Vec<AccountView>,
    data: &[u8],
    rent_minimum: u64,
) -> (r: Result<Vec<Effect>, SellError>)
    ensures
        effects_view(r) == outcome(*program_id, *config, accounts@, data@, rent_minimum),
{
    let instruction = decode_instruction(data)?;
    match instruction {
        SellInstruction::CreateVault => create_vault(program_id, accounts),
        SellInstruction::SetPrice { price } => set_price(program_id, config, accounts, price, rent_minimum),
        SellInstruction::Buy { amount } => buy(program_id, config, accounts, amount),
        SellInstruction::Withdraw { amount } => withdraw(program_id, config, accounts, amount),
    }
}

} // verus!
