//! A model of the host ledger's accounts, on which the effects of an accepted
//! instruction are applied all together or not at all. Creating a token holder
//! charges its funder the holder's rent-exempt balance, as the
//! associated-account program does; transaction fees are not modelled.

use crate::address::{associated_search_of, token_holder_address, Address};
use crate::error::SellError;
use crate::instruction::{push_u64_le, u64_le_bytes};
use crate::processor::{create_vault_outcome, rent_top_up, AccountView, Effect, VAULT_FUNDING};
use vstd::prelude::*;

verus! {

/// One account of the ledger: its base-currency balance, and its token
/// balance where it is a token holder.
#[derive(Debug)]
pub struct LedgerAccount {
    pub key: Address,
    pub owner: Address,
    pub lamports: u64,
    pub tokens: u64,
    pub data: Vec<u8>,
}

/// The state of one ledger account.
pub struct AccountState {
    pub key: Address,
    pub owner: Address,
    pub lamports: u64,
    pub tokens: u64,
    pub data: Seq<u8>,
}

impl View for LedgerAccount {
    type V = AccountState;

    open spec fn view(&self) -> AccountState {
        AccountState {
            key: self.key,
            owner: self.owner,
            lamports: self.lamports,
            tokens: self.tokens,
            data: self.data@,
        }
    }
}

impl LedgerAccount {
    pub fn duplicate(&self) -> (r: LedgerAccount)
        ensures
            r@ == self@,
    {
        let mut data: Vec<u8> = Vec::new();
        let mut i: usize = 0;
        while i < self.data.len()
            invariant
                i <= self.data@.len(),
                data@ == self.data@.subrange(0, i as int),
            decreases self.data@.len() - i,
        {
            data.push(self.data[i]);
            i = i + 1;
            assert(data@ =~= self.data@.subrange(0, i as int));
        }
        assert(data@ =~= self.data@);
        LedgerAccount { key: self.key, owner: self.owner, lamports: self.lamports, tokens: self.tokens, data }
    }
}

/// The ledger: its accounts, the token program that owns token holders, and
/// the rent-exempt balance of a token holder.
#[derive(Debug)]
pub struct Ledger {
    pub token_program: Address,
    pub holder_rent: u64,
    pub accounts: Vec<LedgerAccount>,
}

pub open spec fn states(accts: Seq<LedgerAccount>) -> Seq<AccountState> {
    accts.map_values(|a: LedgerAccount| a@)
}

/// The first position that holds the account `key`.
pub open spec fn index_of(accts: Seq<AccountState>, key: Seq<u8>) -> Option<int>
    decreases accts.len(),
{
    if accts.len() == 0 {
        None
    } else {
        match index_of(accts.drop_last(), key) {
            Some(i) => Some(i),
            None => if accts.last().key@ == key {
                Some(accts.len() - 1)
            } else {
                None
            },
        }
    }
}

proof fn lemma_index_of_bounds(accts: Seq<AccountState>, key: Seq<u8>)
    ensures
        index_of(accts, key) matches Some(i) ==> 0 <= i < accts.len() && accts[i].key@ == key,
    decreases accts.len(),
{
    if accts.len() > 0 {
        lemma_index_of_bounds(accts.drop_last(), key);
    }
}

/// The state after one effect.
pub open spec fn step(accts: Seq<AccountState>, token_program: Address, holder_rent: u64, e: Effect) -> Result<Seq<AccountState>, SellError> {
    match e {
        Effect::Transfer { from, to, lamports } => match (index_of(accts, from@), index_of(accts, to@)) {
            (Some(i), Some(j)) => if accts[i].lamports < lamports {
                Err(SellError::InsufficientFunds)
            } else {
                let a = accts.update(i, AccountState { lamports: (accts[i].lamports - lamports) as u64, ..accts[i] });
                if a[j].lamports + lamports > u64::MAX {
                    Err(SellError::ArithmeticOverflow)
                } else {
                    Ok(a.update(j, AccountState { lamports: (a[j].lamports + lamports) as u64, ..a[j] }))
                }
            },
            _ => Err(SellError::MissingAccount),
        },
        Effect::Allocate { account, space, .. } => match index_of(accts, account@) {
            Some(i) => Ok(accts.update(i, AccountState { data: Seq::new(space as nat, |k: int| 0u8), ..accts[i] })),
            None => Err(SellError::MissingAccount),
        },
        Effect::Assign { account, owner, .. } => match index_of(accts, account@) {
            Some(i) => Ok(accts.update(i, AccountState { owner, ..accts[i] })),
            None => Err(SellError::MissingAccount),
        },
        Effect::CreateTokenHolder { funder, wallet, mint } => match associated_search_of(wallet@, mint@) {
            None => Err(SellError::DerivationFailed),
            Some(h) => match (index_of(accts, funder@), index_of(accts, h)) {
                (Some(i), Some(j)) => {
                    let needed = rent_top_up(holder_rent, accts[j].lamports);
                    if accts[i].lamports < needed {
                        Err(SellError::InsufficientFunds)
                    } else {
                        let a = accts.update(i, AccountState { lamports: (accts[i].lamports - needed) as u64, ..accts[i] });
                        if a[j].lamports + needed > u64::MAX {
                            Err(SellError::ArithmeticOverflow)
                        } else {
                            Ok(a.update(j, AccountState {
                                owner: token_program,
                                tokens: 0,
                                lamports: (a[j].lamports + needed) as u64,
                                ..a[j]
                            }))
                        }
                    }
                },
                _ => Err(SellError::MissingAccount),
            },
        },
        Effect::TokenTransfer { source, destination, amount, .. } => match (
            index_of(accts, source@),
            index_of(accts, destination@),
        ) {
            (Some(i), Some(j)) => if accts[i].tokens < amount {
                Err(SellError::InsufficientVaultBalance)
            } else {
                let a = accts.update(i, AccountState { tokens: (accts[i].tokens - amount) as u64, ..accts[i] });
                if a[j].tokens + amount > u64::MAX {
                    Err(SellError::ArithmeticOverflow)
                } else {
                    Ok(a.update(j, AccountState { tokens: (a[j].tokens + amount) as u64, ..a[j] }))
                }
            },
            _ => Err(SellError::MissingAccount),
        },
        Effect::WritePrice { account, price } => match index_of(accts, account@) {
            Some(i) => Ok(accts.update(i, AccountState { data: u64_le_bytes(price), ..accts[i] })),
            None => Err(SellError::MissingAccount),
        },
    }
}

/// The state after the effects in order, or the first failure.
pub open spec fn apply_spec(accts: Seq<AccountState>, token_program: Address, holder_rent: u64, plan: Seq<Effect>) -> Result<Seq<AccountState>, SellError>
    decreases plan.len(),
{
    if plan.len() == 0 {
        Ok(accts)
    } else {
        match step(accts, token_program, holder_rent, plan[0]) {
            Err(e) => Err(e),
            Ok(a) => apply_spec(a, token_program, holder_rent, plan.drop_first()),
        }
    }
}

proof fn lemma_index_of_update(accts: Seq<AccountState>, i: int, st: AccountState, key: Seq<u8>)
    requires
        0 <= i < accts.len(),
        st.key == accts[i].key,
    ensures
        index_of(accts.update(i, st), key) == index_of(accts, key),
    decreases accts.len(),
{
    let u = accts.update(i, st);
    if i < accts.len() - 1 {
        assert(u.drop_last() =~= accts.drop_last().update(i, st));
        lemma_index_of_update(accts.drop_last(), i, st, key);
    } else {
        assert(u.drop_last() =~= accts.drop_last());
    }
}

/// Creating the vault works once: once an accepted creation has been applied
/// to the ledger, the program owns the vault, and every later creation that is
/// shown the vault as the ledger now holds it fails with `AlreadyInitialized`.
pub proof fn lemma_vault_created_once(
    program: Address,
    before: Seq<AccountState>,
    token_program: Address,
    holder_rent: u64,
    views: Seq<crate::processor::AccountView>,
    later: Seq<crate::processor::AccountView>,
)
    requires
        create_vault_outcome(program, views) is Ok,
        apply_spec(before, token_program, holder_rent, create_vault_outcome(program, views)->Ok_0) is Ok,
        later.len() >= 3,
        later[2].key == views[2].key,
    ensures
        ({
            let after = apply_spec(before, token_program, holder_rent, create_vault_outcome(program, views)->Ok_0)->Ok_0;
            &&& index_of(after, views[2].key@) is Some
            &&& after[index_of(after, views[2].key@)->Some_0].owner == program
            &&& later[2].owner == after[index_of(after, views[2].key@)->Some_0].owner
                ==> create_vault_outcome(program, later) == Err::<Seq<Effect>, SellError>(
                SellError::AlreadyInitialized,
            )
        }),
{
    let plan = create_vault_outcome(program, views)->Ok_0;
    let vault = views[2].key;
    reveal_with_fuel(apply_spec, 3);
    assert(plan.drop_first() =~= seq![plan[1]]);
    assert(plan.drop_first().drop_first() =~= Seq::<Effect>::empty());
    let a1 = step(before, token_program, holder_rent, plan[0])->Ok_0;
    match (index_of(before, views[0].key@), index_of(before, vault@)) {
        (Some(i), Some(j)) => {
            lemma_index_of_bounds(before, views[0].key@);
            lemma_index_of_bounds(before, vault@);
            let m = before.update(i, AccountState { lamports: (before[i].lamports - VAULT_FUNDING) as u64, ..before[i] });
            lemma_index_of_update(before, i, AccountState { lamports: (before[i].lamports - VAULT_FUNDING) as u64, ..before[i] }, vault@);
            lemma_index_of_update(m, j, AccountState { lamports: (m[j].lamports + VAULT_FUNDING) as u64, ..m[j] }, vault@);
        },
        _ => {},
    }
    assert(index_of(a1, vault@) == index_of(before, vault@));
    lemma_index_of_bounds(a1, vault@);
    let k = index_of(a1, vault@)->Some_0;
    let after = a1.update(k, AccountState { owner: program, ..a1[k] });
    lemma_index_of_update(a1, k, AccountState { owner: program, ..a1[k] }, vault@);
    assert(apply_spec(before, token_program, holder_rent, plan) == Ok::<Seq<AccountState>, SellError>(after));
}

impl Ledger {
    /// The position of the account `key`, if the ledger holds it.
    pub fn find(&self, key: &Address) -> (r: Option<usize>)
        ensures
            match r {
                Some(k) => index_of(states(self.accounts@), key@) == Some(k as int),
                None => index_of(states(self.accounts@), key@) is None,
            },
    {
        let ghost s = states(self.accounts@);
        let mut i: usize = 0;
        while i < self.accounts.len()
            invariant
                i <= self.accounts@.len(),
                s == states(self.accounts@),
                index_of(s.subrange(0, i as int), key@) is None,
            decreases self.accounts@.len() - i,
        {
            assert(s.subrange(0, i + 1).drop_last() =~= s.subrange(0, i as int));
            if self.accounts[i].key.same(key) {
                proof {
                    lemma_index_prefix(s, key@, i as int + 1);
                }
                return Some(i);
            }
            i = i + 1;
        }
        assert(s.subrange(0, i as int) =~= s);
        None
    }

    /// The account `key` as an instruction is given it.
    pub fn account_view(&self, key: &Address, is_signer: bool) -> (r: Option<AccountView>)
        ensures
            match index_of(states(self.accounts@), key@) {
                Some(i) => r matches Some(v) && v.key == states(self.accounts@)[i].key && v.owner
                    == states(self.accounts@)[i].owner && v.lamports == states(self.accounts@)[i].lamports
                    && v.data@ == states(self.accounts@)[i].data && v.is_signer == is_signer,
                None => r is None,
            },
    {
        match self.find(key) {
            Some(i) => {
                proof {
                    lemma_index_of_bounds(states(self.accounts@), key@);
                }
                let a = self.accounts[i].duplicate();
                Some(AccountView { key: a.key, is_signer, owner: a.owner, lamports: a.lamports, data: a.data })
            },
            None => None,
        }
    }

    fn replace(&mut self, i: usize, a: LedgerAccount)
        requires
            i < old(self).accounts@.len(),
        ensures
            states(final(self).accounts@) == states(old(self).accounts@).update(i as int, a@),
            final(self).token_program == old(self).token_program,
            final(self).holder_rent == old(self).holder_rent,
    {
        self.accounts.remove(i);
        self.accounts.insert(i, a);
        assert(states(self.accounts@) =~= states(old(self).accounts@).update(i as int, a@));
    }

    fn set_lamports(&mut self, i: usize, lamports: u64)
        requires
            i < old(self).accounts@.len(),
        ensures
            states(final(self).accounts@) == states(old(self).accounts@).update(
                i as int,
                AccountState { lamports, ..states(old(self).accounts@)[i as int] },
            ),
            final(self).token_program == old(self).token_program,
            final(self).holder_rent == old(self).holder_rent,
    {
        let mut a = self.accounts[i].duplicate();
        a.lamports = lamports;
        self.replace(i, a);
    }

    fn set_tokens(&mut self, i: usize, tokens: u64)
        requires
            i < old(self).accounts@.len(),
        ensures
            states(final(self).accounts@) == states(old(self).accounts@).update(
                i as int,
                AccountState { tokens, ..states(old(self).accounts@)[i as int] },
            ),
            final(self).token_program == old(self).token_program,
            final(self).holder_rent == old(self).holder_rent,
    {
        let mut a = self.accounts[i].duplicate();
        a.tokens = tokens;
        self.replace(i, a);
    }

    /// Applies one effect; on failure the ledger is left in no promised state.
    fn apply_effect(&mut self, e: &Effect) -> (r: Result<(), SellError>)
        ensures
            final(self).token_program == old(self).token_program,
            final(self).holder_rent == old(self).holder_rent,
            match step(states(old(self).accounts@), old(self).token_program, old(self).holder_rent, *e) {
                Ok(a) => r is Ok && states(final(self).accounts@) == a,
                Err(err) => r == Err::<(), SellError>(err),
            },
    {
        let ghost s = states(self.accounts@);
        match *e {
            Effect::Transfer { from, to, lamports } => {
                let fi = self.find(&from);
                let ti = self.find(&to);
                proof {
                    lemma_index_of_bounds(s, from@);
                    lemma_index_of_bounds(s, to@);
                }
                let (i, j) = match (fi, ti) {
                    (Some(i), Some(j)) => (i, j),
                    _ => return Err(SellError::MissingAccount),
                };
                assert(s[i as int] == self.accounts@[i as int]@);
                assert(s[j as int] == self.accounts@[j as int]@);
                assert(index_of(s, from@) == Some(i as int));
                assert(index_of(s, to@) == Some(j as int));
                if self.accounts[i].lamports < lamports {
                    return Err(SellError::InsufficientFunds);
                }
                let debited = self.accounts[i].lamports - lamports;
                self.set_lamports(i, debited);
                assert(states(self.accounts@).len() == self.accounts@.len());
                assert(states(self.accounts@)[j as int] == self.accounts@[j as int]@);
                if self.accounts[j].lamports > u64::MAX - lamports {
                    return Err(SellError::ArithmeticOverflow);
                }
                let credited = self.accounts[j].lamports + lamports;
                self.set_lamports(j, credited);
                Ok(())
            },
            Effect::Allocate { account, space, .. } => {
                let found = self.find(&account);
                proof {
                    lemma_index_of_bounds(s, account@);
                }
                let i = match found {
                    Some(i) => i,
                    None => return Err(SellError::MissingAccount),
                };
                let mut data: Vec<u8> = Vec::new();
                let mut k: u64 = 0;
                while k < space
                    invariant
                        k <= space,
                        data@ == Seq::new(k as nat, |n: int| 0u8),
                    decreases space - k,
                {
                    data.push(0u8);
                    k = k + 1;
                    assert(data@ =~= Seq::new(k as nat, |n: int| 0u8));
                }
                let mut a = self.accounts[i].duplicate();
                a.data = data;
                self.replace(i, a);
                Ok(())
            },
            Effect::Assign { account, owner, .. } => {
                let found = self.find(&account);
                proof {
                    lemma_index_of_bounds(s, account@);
                }
                let i = match found {
                    Some(i) => i,
                    None => return Err(SellError::MissingAccount),
                };
                let mut a = self.accounts[i].duplicate();
                a.owner = owner;
                self.replace(i, a);
                Ok(())
            },
            Effect::CreateTokenHolder { funder, wallet, mint } => {
                let holder = match token_holder_address(&wallet, &mint) {
                    Some(h) => h,
                    None => return Err(SellError::DerivationFailed),
                };
                let fi = self.find(&funder);
                let hi = self.find(&holder);
                proof {
                    lemma_index_of_bounds(s, funder@);
                    lemma_index_of_bounds(s, holder@);
                }
                let (i, j) = match (fi, hi) {
                    (Some(i), Some(j)) => (i, j),
                    _ => return Err(SellError::MissingAccount),
                };
                assert(s[i as int] == self.accounts@[i as int]@);
                assert(s[j as int] == self.accounts@[j as int]@);
                assert(index_of(s, funder@) == Some(i as int));
                assert(index_of(s, holder@) == Some(j as int));
                let minimum = if self.holder_rent > 1 { self.holder_rent } else { 1 };
                let needed = if minimum > self.accounts[j].lamports { minimum - self.accounts[j].lamports } else { 0 };
                if self.accounts[i].lamports < needed {
                    return Err(SellError::InsufficientFunds);
                }
                let debited = self.accounts[i].lamports - needed;
                self.set_lamports(i, debited);
                assert(states(self.accounts@).len() == self.accounts@.len());
                assert(states(self.accounts@)[j as int] == self.accounts@[j as int]@);
                if self.accounts[j].lamports > u64::MAX - needed {
                    return Err(SellError::ArithmeticOverflow);
                }
                let mut a = self.accounts[j].duplicate();
                a.lamports = a.lamports + needed;
                a.owner = self.token_program;
                a.tokens = 0;
                self.replace(j, a);
                Ok(())
            },
            Effect::TokenTransfer { source, destination, amount, .. } => {
                let si = self.find(&source);
                let di = self.find(&destination);
                proof {
                    lemma_index_of_bounds(s, source@);
                    lemma_index_of_bounds(s, destination@);
                }
                let (i, j) = match (si, di) {
                    (Some(i), Some(j)) => (i, j),
                    _ => return Err(SellError::MissingAccount),
                };
                assert(s[i as int] == self.accounts@[i as int]@);
                assert(s[j as int] == self.accounts@[j as int]@);
                assert(index_of(s, source@) == Some(i as int));
                assert(index_of(s, destination@) == Some(j as int));
                if self.accounts[i].tokens < amount {
                    return Err(SellError::InsufficientVaultBalance);
                }
                let debited = self.accounts[i].tokens - amount;
                self.set_tokens(i, debited);
                assert(states(self.accounts@).len() == self.accounts@.len());
                assert(states(self.accounts@)[j as int] == self.accounts@[j as int]@);
                if self.accounts[j].tokens > u64::MAX - amount {
                    return Err(SellError::ArithmeticOverflow);
                }
                let credited = self.accounts[j].tokens + amount;
                self.set_tokens(j, credited);
                Ok(())
            },
            Effect::WritePrice { account, price } => {
                let found = self.find(&account);
                proof {
                    lemma_index_of_bounds(s, account@);
                }
                let i = match found {
                    Some(i) => i,
                    None => return Err(SellError::MissingAccount),
                };
                let mut data: Vec<u8> = Vec::new();
                push_u64_le(&mut data, price);
                assert(data@ =~= u64_le_bytes(price));
                let mut a = self.accounts[i].duplicate();
                a.data = data;
                self.replace(i, a);
                Ok(())
            },
        }
    }

    /// Applies the effects in order. Either all of them take effect, or the
    /// first failure is returned and the ledger is left exactly as it was.
    pub fn apply(&mut self, plan: &Vec<Effect>) -> (r: Result<(), SellError>)
        ensures
            final(self).token_program == old(self).token_program,
            final(self).holder_rent == old(self).holder_rent,
            match apply_spec(states(old(self).accounts@), old(self).token_program, old(self).holder_rent, plan@) {
                Ok(a) => r is Ok && states(final(self).accounts@) == a,
                Err(err) => r == Err::<(), SellError>(err) && states(final(self).accounts@) == states(
                    old(self).accounts@,
                ),
            },
    {
        let mut saved: Vec<LedgerAccount> = Vec::new();
        let mut k: usize = 0;
        while k < self.accounts.len()
            invariant
                k <= self.accounts@.len(),
                self == old(self),
                states(saved@) == states(self.accounts@).subrange(0, k as int),
            decreases self.accounts@.len() - k,
        {
            let a = self.accounts[k].duplicate();
            let ghost before = saved@;
            saved.push(a);
            assert(saved@ == before.push(a));
            assert(states(saved@) =~= states(before).push(a@));
            assert(states(self.accounts@)[k as int] == a@);
            k = k + 1;
            assert(states(saved@) =~= states(self.accounts@).subrange(0, k as int));
        }
        assert(states(saved@) =~= states(self.accounts@));
        let ghost start = states(self.accounts@);
        let tp = self.token_program;
        let hr = self.holder_rent;
        assert(plan@.subrange(0, plan@.len() as int) =~= plan@);
        let mut i: usize = 0;
        while i < plan.len()
            invariant
                i <= plan@.len(),
                self.token_program == tp,
                tp == old(self).token_program,
                self.holder_rent == hr,
                hr == old(self).holder_rent,
                start == states(old(self).accounts@),
                states(saved@) == start,
                apply_spec(start, tp, hr, plan@) == apply_spec(
                    states(self.accounts@),
                    tp,
                    hr,
                    plan@.subrange(i as int, plan@.len() as int),
                ),
            decreases plan@.len() - i,
        {
            let ghost rest = plan@.subrange(i as int, plan@.len() as int);
            assert(rest.drop_first() =~= plan@.subrange(i + 1, plan@.len() as int));
            assert(rest[0] == plan@[i as int]);
            match self.apply_effect(&plan[i]) {
                Ok(()) => {},
                Err(err) => {
                    self.accounts = saved;
                    return Err(err);
                },
            }
            i = i + 1;
        }
        assert(plan@.subrange(i as int, plan@.len() as int) =~= Seq::<Effect>::empty());
        Ok(())
    }
}

proof fn lemma_index_prefix(s: Seq<AccountState>, key: Seq<u8>, n: int)
    requires
        0 < n <= s.len(),
        index_of(s.subrange(0, n - 1), key) is None,
        s[n - 1].key@ == key,
    ensures
        index_of(s, key) == Some(n - 1),
    decreases s.len() - n,
{
    assert(s.subrange(0, n).drop_last() =~= s.subrange(0, n - 1));
    if n < s.len() {
        assert(index_of(s.subrange(0, n), key) == Some(n - 1));
        lemma_index_extend(s, key, n);
    } else {
        assert(s.subrange(0, n) =~= s);
    }
}

proof fn lemma_index_extend(s: Seq<AccountState>, key: Seq<u8>, n: int)
    requires
        0 < n <= s.len(),
        index_of(s.subrange(0, n), key) is Some,
    ensures
        index_of(s, key) == index_of(s.subrange(0, n), key),
    decreases s.len() - n,
{
    if n < s.len() {
        assert(s.subrange(0, n + 1).drop_last() =~= s.subrange(0, n));
        lemma_index_extend(s, key, n + 1);
    } else {
        assert(s.subrange(0, n) =~= s);
    }
}

} // verus!
