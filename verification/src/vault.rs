use vstd::prelude::*;
use crate::address::native_id;
use crate::address::Address;
use crate::address::Key;
use crate::bank::Account;
use crate::bank::Bank;
use crate::bank::Ledger;
use crate::derive::derivation;
use crate::derive::derived_at;
use crate::derive::lemma_rederive_matches_derive;
use crate::derive::rederive;
use crate::derive::seed_views;
use crate::derive::signer_parts;
use crate::derive::Authority;
use crate::derive::Namespace;
use crate::derive::Seeds;
use crate::error::CustodyError;
use crate::registry::Registry;

verus! {

/// The record of one vault. `owner` is set when the record is made and never
/// changes; the two bumps reproduce the addresses of the record and of the
/// vault account; `total_deposits` counts all that was ever deposited.
#[derive(Clone, Copy, Debug, PartialEq, Eq)]
pub struct VaultState {
    pub vault_bump: u8,
    pub state_bump: u8,
    pub owner: Address,
    pub total_deposits: u64,
}

/// The state of the vault manager: its program and the records by address.
pub struct VaultBook {
    pub program: Seq<u8>,
    pub states: Map<Seq<u8>, VaultState>,
}

impl VaultBook {
    /// Every record stands at the address that its owner and its own bump
    /// derive, and its other bump derives a vault address.
    pub open spec fn consistent(self) -> bool {
        forall|s: Seq<u8>| #[trigger]
            self.states.dom().contains(s) ==> {
                &&& derived_at(
                    self.program,
                    Namespace::State,
                    self.states[s].owner@,
                    None,
                    self.states[s].state_bump,
                ) == Some(s)
                &&& derived_at(self.program, Namespace::Vault, s, None, self.states[s].vault_bump) is Some
            }
    }

    /// The address of the vault account of the record at `state`, reproduced
    /// from the recorded bump.
    pub open spec fn vault_of(self, state: Seq<u8>) -> Seq<u8> {
        derived_at(self.program, Namespace::Vault, state, None, self.states[state].vault_bump)->0
    }

    /// The address at which the record of `owner` stands or would stand.
    pub open spec fn state_for(self, owner: Seq<u8>) -> Seq<u8> {
        let (state, bump) = derivation(self.program, Namespace::State, owner, None)->0;
        state
    }

    /// The address of the vault account that `initialize` derives for
    /// `owner`.
    pub open spec fn vault_for(self, owner: Seq<u8>) -> Seq<u8> {
        let (vault, bump) = derivation(
            self.program,
            Namespace::Vault,
            self.state_for(owner),
            None,
        )->0;
        vault
    }

    /// Whether `user` may act on the record at `state`: `NotFound` where
    /// there is no record, `Unauthorized` where `user` is not its owner.
    pub open spec fn payment_check(self, user: Seq<u8>, state: Seq<u8>) -> Result<(), CustodyError> {
        if !self.states.dom().contains(state) {
            Err(CustodyError::NotFound)
        } else if self.states[state].owner@ != user {
            Err(CustodyError::Unauthorized)
        } else {
            Ok(())
        }
    }

    /// The book with `amount` added to the deposits counted at `state`.
    pub open spec fn with_deposit(self, state: Seq<u8>, amount: u64) -> VaultBook {
        VaultBook {
            states: self.states.insert(
                state,
                VaultState {
                    total_deposits: (self.states[state].total_deposits + amount) as u64,
                    ..self.states[state]
                },
            ),
            ..self
        }
    }
}

/// The ledger with an empty native account for `holder` where it had none.
pub open spec fn with_native_account(ledger: Ledger, holder: Seq<u8>) -> Ledger {
    if ledger.holds(holder, native_id()) {
        ledger
    } else {
        Ledger {
            accounts: ledger.accounts.insert(
                (holder, native_id()),
                Account { balance: 0, reserve: 0 },
            ),
            ..ledger
        }
    }
}

/// What stands at a vault's address in the native asset: its balance, or
/// nothing where it has no account.
pub open spec fn held_before(ledger: Ledger, vault: Seq<u8>) -> u64 {
    if ledger.holds(vault, native_id()) {
        ledger.balance(vault, native_id())
    } else {
        0
    }
}

/// Whether the reserve can be paid into a vault: always where the least
/// reserve is zero, else as the transfer of it from `user` decides.
pub open spec fn reserve_check(ledger: Ledger, user: Seq<u8>, vault: Seq<u8>) -> Result<
    (),
    CustodyError,
> {
    if ledger.reserve_min == 0 {
        Ok(())
    } else {
        ledger.transfer_check(native_id(), user, vault, true, ledger.reserve_min)
    }
}

/// The ledger after the reserve was paid into a vault, or as it was where
/// that was refused.
pub open spec fn reserve_paid(ledger: Ledger, user: Seq<u8>, vault: Seq<u8>) -> Ledger {
    if ledger.reserve_min == 0 {
        ledger
    } else {
        ledger.transfer(native_id(), user, vault, true, ledger.reserve_min)
    }
}

/// Whether `initialize` succeeds for `owner`, and if not, the first reason in
/// this order: no address can be derived for the record or for the vault; a
/// record already stands at the derived address; the reserve cannot be paid
/// from the owner's native account into the vault.
pub open spec fn initialize_check(book: VaultBook, ledger: Ledger, owner: Seq<u8>) -> Result<
    (),
    CustodyError,
> {
    match derivation(book.program, Namespace::State, owner, None) {
        None => Err(CustodyError::DerivationExhausted),
        Some((state, _)) => match derivation(book.program, Namespace::Vault, state, None) {
            None => Err(CustodyError::DerivationExhausted),
            Some((vault, _)) => if book.states.dom().contains(state) {
                Err(CustodyError::AlreadyInitialized)
            } else {
                reserve_check(with_native_account(ledger, vault), owner, vault)
            },
        },
    }
}

/// The book after a successful `initialize`: the new record stands at the
/// derived address with both bumps, the owner and no deposits.
pub open spec fn initialize_book(book: VaultBook, owner: Address) -> VaultBook {
    let (state, state_bump) = derivation(book.program, Namespace::State, owner@, None)->0;
    let (vault, vault_bump) = derivation(book.program, Namespace::Vault, state, None)->0;
    VaultBook {
        states: book.states.insert(
            state,
            VaultState { vault_bump, state_bump, owner, total_deposits: 0 },
        ),
        ..book
    }
}

/// The ledger after a successful `initialize`: the vault has a native account
/// and the reserve has moved into it from the owner.
pub open spec fn initialize_ledger(book: VaultBook, ledger: Ledger, owner: Seq<u8>) -> Ledger {
    let (state, state_bump) = derivation(book.program, Namespace::State, owner, None)->0;
    let (vault, vault_bump) = derivation(book.program, Namespace::Vault, state, None)->0;
    reserve_paid(with_native_account(ledger, vault), owner, vault)
}

/// Whether a record read at `state` can serve a payment by `user` under
/// `program`: `user` is its owner, its own bump and its owner reproduce
/// `state`, and its vault bump gives an address. Any mismatch is
/// `Unauthorized`.
pub open spec fn payment_accounts_check(
    program: Seq<u8>,
    user: Seq<u8>,
    state: Seq<u8>,
    record: VaultState,
) -> Result<(), CustodyError> {
    if record.owner@ != user || derived_at(
        program,
        Namespace::State,
        user,
        None,
        record.state_bump,
    ) != Some(state) || derived_at(program, Namespace::Vault, state, None, record.vault_bump) is None {
        Err(CustodyError::Unauthorized)
    } else {
        Ok(())
    }
}

/// Whether a deposit into a vault is accepted, and if not, the first reason
/// in this order: `user` is not the owner that the record names; the amount
/// is zero; the transfer from `user` to the vault is refused, with the
/// bank's own error; the count of deposits would overflow.
pub open spec fn payment_deposit_check(
    ledger: Ledger,
    record: VaultState,
    user: Seq<u8>,
    vault: Seq<u8>,
    amount: u64,
) -> Result<(), CustodyError> {
    if record.owner@ != user {
        Err(CustodyError::Unauthorized)
    } else if amount == 0 {
        Err(CustodyError::InvalidAmount)
    } else if ledger.transfer_check(native_id(), user, vault, true, amount) is Err {
        ledger.transfer_check(native_id(), user, vault, true, amount)
    } else if record.total_deposits + amount > u64::MAX {
        Err(CustodyError::InvalidAmount)
    } else {
        Ok(())
    }
}

/// Whether a withdrawal from a vault is accepted, and if not, the first
/// reason in this order: `user` is not the owner that the record names; the
/// amount is zero; the vault has no native account; what the vault holds
/// above the least reserve is less than the amount; the transfer from the
/// vault to `user` is refused.
pub open spec fn payment_withdraw_check(
    ledger: Ledger,
    record: VaultState,
    authorized: bool,
    user: Seq<u8>,
    vault: Seq<u8>,
    amount: u64,
) -> Result<(), CustodyError> {
    if record.owner@ != user {
        Err(CustodyError::Unauthorized)
    } else if amount == 0 {
        Err(CustodyError::InvalidAmount)
    } else if !ledger.holds(vault, native_id()) {
        Err(CustodyError::NotFound)
    } else if ledger.balance(vault, native_id()) - ledger.reserve_min < amount {
        Err(CustodyError::InsufficientBalance)
    } else {
        ledger.transfer_check(native_id(), vault, user, authorized, amount)
    }
}

/// Whether `deposit` succeeds, and if not, the first reason in this order:
/// the amount is zero; there is no record at `state`; `user` is not its
/// owner; the transfer from `user` to the vault is refused, with the bank's
/// own error; the count of deposits would overflow.
pub open spec fn deposit_check(
    book: VaultBook,
    ledger: Ledger,
    user: Seq<u8>,
    state: Seq<u8>,
    amount: u64,
) -> Result<(), CustodyError> {
    if amount == 0 {
        Err(CustodyError::InvalidAmount)
    } else if book.payment_check(user, state) is Err {
        book.payment_check(user, state)
    } else {
        payment_deposit_check(ledger, book.states[state], user, book.vault_of(state), amount)
    }
}

/// Whether `withdraw` succeeds, and if not, the first reason in this order:
/// there is no record at `state`; `user` is not its owner; then as
/// `payment_withdraw_check` decides for the vault's own authority.
pub open spec fn withdraw_check(
    book: VaultBook,
    ledger: Ledger,
    user: Seq<u8>,
    state: Seq<u8>,
    amount: u64,
) -> Result<(), CustodyError> {
    if book.payment_check(user, state) is Err {
        book.payment_check(user, state)
    } else {
        payment_withdraw_check(ledger, book.states[state], true, user, book.vault_of(state), amount)
    }
}

/// The bumps found when the addresses of a new vault were derived.
#[derive(Clone, Copy, Debug, PartialEq, Eq)]
pub struct InitializeBumps {
    pub vault: u8,
    pub vault_state: u8,
}

/// The accounts of `initialize`: the user who pays and will own the vault,
/// the vault account, and the record that is being made.
#[derive(Clone, Copy, Debug, PartialEq, Eq)]
pub struct Initialize {
    pub user: Address,
    pub vault: Address,
    pub vault_state: VaultState,
}

impl Initialize {
    /// Pays the least reserve from the user into the vault, signed by the
    /// user, and fills the record: both bumps, the user as owner, no
    /// deposits. Where the payment is refused, nothing changes.
    pub fn initialize(&mut self, bank: &mut Bank, bumps: &InitializeBumps) -> (r: Result<
        (),
        CustodyError,
    >)
        requires
            old(bank).wf(),
        ensures
            final(bank).wf(),
            r == reserve_check(old(bank)@, old(self).user@, old(self).vault@),
            final(bank)@ == reserve_paid(old(bank)@, old(self).user@, old(self).vault@),
            final(self).user == old(self).user,
            final(self).vault == old(self).vault,
            final(self).vault_state == (if r is Ok {
                VaultState {
                    vault_bump: bumps.vault,
                    state_bump: bumps.vault_state,
                    owner: old(self).user,
                    total_deposits: 0,
                }
            } else {
                old(self).vault_state
            }),
    {
        let reserve: u64 = bank.reserve_minimum();
        if reserve > 0 {
            let signer = Authority::Signer { key: self.user };
            match bank.transfer(&Address::native(), &self.user, &self.vault, &signer, reserve) {
                Ok(()) => {},
                Err(e) => {
                    return Err(e);
                },
            }
        }
        self.vault_state.vault_bump = bumps.vault;
        self.vault_state.state_bump = bumps.vault_state;
        self.vault_state.owner = self.user;
        self.vault_state.total_deposits = 0;
        Ok(())
    }
}

/// The accounts of `deposit` and `withdraw`: the program, the user, the
/// vault account, and the record with its address.
#[derive(Clone, Copy, Debug, PartialEq, Eq)]
pub struct Payment {
    pub program: Address,
    pub user: Address,
    pub vault: Address,
    pub vault_state_key: Address,
    pub vault_state: VaultState,
}

impl Payment {
    /// The seeds and bump that reproduce the vault's address: the tag
    /// `vault`, the address of the record, and the recorded bump.
    pub open spec fn vault_authorized(self) -> bool {
        derived_at(
            self.program@,
            Namespace::Vault,
            self.vault_state_key@,
            None,
            self.vault_state.vault_bump,
        ) == Some(self.vault@)
    }

    /// The seeds that sign for the vault, byte for byte: the tag `vault`, the
    /// address of the record, and the recorded bump as a single last byte.
    pub fn signer_seeds(&self) -> (v: Vec<Vec<u8>>)
        ensures
            seed_views(v@) == signer_parts(
                Namespace::Vault,
                self.vault_state_key@,
                None,
                self.vault_state.vault_bump,
            ),
    {
        let seeds = Seeds { namespace: Namespace::Vault, parent: self.vault_state_key, seed: None };
        seeds.to_signer_parts(self.vault_state.vault_bump)
    }

    /// Checks a record against the user before anything moves, and gives the
    /// accounts of a payment: the record must belong to `user` and stand at
    /// the address that `user` and its bump derive, and its vault bump must
    /// reproduce a vault address, which becomes the payment's vault.
    pub fn validate(program: &Address, user: &Address, state: &Address, record: &VaultState) -> (r:
        Result<Payment, CustodyError>)
        ensures
            match r {
                Ok(p) => {
                    &&& payment_accounts_check(program@, user@, state@, *record) is Ok
                    &&& p.program == *program
                    &&& p.user == *user
                    &&& p.vault_state_key == *state
                    &&& p.vault_state == *record
                    &&& p.vault_authorized()
                },
                Err(e) => payment_accounts_check(program@, user@, state@, *record) == Err::<
                    (),
                    CustodyError,
                >(e),
            },
    {
        if !record.owner.same(user) {
            return Err(CustodyError::Unauthorized);
        }
        let state_seeds = Seeds { namespace: Namespace::State, parent: *user, seed: None };
        match rederive(program, &state_seeds, record.state_bump) {
            Some(found) => {
                if !found.same(state) {
                    return Err(CustodyError::Unauthorized);
                }
            },
            None => {
                return Err(CustodyError::Unauthorized);
            },
        }
        let vault_seeds = Seeds { namespace: Namespace::Vault, parent: *state, seed: None };
        match rederive(program, &vault_seeds, record.vault_bump) {
            Some(vault) => Ok(
                Payment {
                    program: *program,
                    user: *user,
                    vault,
                    vault_state_key: *state,
                    vault_state: *record,
                },
            ),
            None => Err(CustodyError::Unauthorized),
        }
    }

    /// Moves `amount` from the user into the vault, signed by the user, and
    /// then adds it to the count of deposits. The user must be the owner that
    /// the record names: anyone else is refused with `Unauthorized`. A
    /// transfer that the bank refuses is reported with the bank's error,
    /// whatever the count; a count that would overflow undoes the transfer.
    /// Where the deposit is refused, nothing changes.
    pub fn deposit(&mut self, bank: &mut Bank, amount: u64) -> (r: Result<(), CustodyError>)
        requires
            old(bank).wf(),
        ensures
            final(bank).wf(),
            r == payment_deposit_check(
                old(bank)@,
                old(self).vault_state,
                old(self).user@,
                old(self).vault@,
                amount,
            ),
            old(self).vault_state.owner@ != old(self).user@ ==> r == Err::<(), CustodyError>(
                CustodyError::Unauthorized,
            ) && final(bank)@ == old(bank)@ && *final(self) == *old(self),
            final(bank)@ == (if r is Ok {
                old(bank)@.transferred(native_id(), old(self).user@, old(self).vault@, amount)
            } else {
                old(bank)@
            }),
            *final(self) == (if r is Ok {
                Payment {
                    vault_state: VaultState {
                        total_deposits: (old(self).vault_state.total_deposits + amount) as u64,
                        ..old(self).vault_state
                    },
                    ..*old(self)
                }
            } else {
                *old(self)
            }),
    {
        if !self.vault_state.owner.same(&self.user) {
            return Err(CustodyError::Unauthorized);
        }
        if amount == 0 {
            return Err(CustodyError::InvalidAmount);
        }
        let saved = bank.snapshot();
        let signer = Authority::Signer { key: self.user };
        match bank.transfer(&Address::native(), &self.user, &self.vault, &signer, amount) {
            Ok(()) => {},
            Err(e) => {
                return Err(e);
            },
        }
        match self.vault_state.total_deposits.checked_add(amount) {
            Some(total) => {
                self.vault_state.total_deposits = total;
                Ok(())
            },
            None => {
                *bank = saved;
                Err(CustodyError::InvalidAmount)
            },
        }
    }

    /// Moves `amount` from the vault to the user. The vault has no key: the
    /// transfer is authorised by the tag `vault`, the address of the record
    /// and the recorded bump, which the bank accepts only if they reproduce
    /// the vault's address. The vault keeps at least the least reserve. The
    /// user must be the owner that the record names: anyone else is refused
    /// with `Unauthorized`, whatever the amount, and nothing moves. Where the
    /// withdrawal is refused, nothing changes.
    pub fn withdraw(&mut self, bank: &mut Bank, amount: u64) -> (r: Result<(), CustodyError>)
        requires
            old(bank).wf(),
        ensures
            final(bank).wf(),
            r == payment_withdraw_check(
                old(bank)@,
                old(self).vault_state,
                old(self).vault_authorized(),
                old(self).user@,
                old(self).vault@,
                amount,
            ),
            final(bank)@ == (if r is Ok {
                old(bank)@.transferred(native_id(), old(self).vault@, old(self).user@, amount)
            } else {
                old(bank)@
            }),
            old(self).vault_state.owner@ != old(self).user@ ==> r == Err::<(), CustodyError>(
                CustodyError::Unauthorized,
            ) && final(bank)@ == old(bank)@,
            *final(self) == *old(self),
    {
        if !self.vault_state.owner.same(&self.user) {
            return Err(CustodyError::Unauthorized);
        }
        if amount == 0 {
            return Err(CustodyError::InvalidAmount);
        }
        let native = Address::native();
        let held: u64 = match bank.balance_of(&self.vault, &native) {
            Some(b) => b,
            None => {
                return Err(CustodyError::NotFound);
            },
        };
        let reserve: u64 = bank.reserve_minimum();
        if held < reserve || held - reserve < amount {
            return Err(CustodyError::InsufficientBalance);
        }
        let proof_of_vault = Authority::Derived {
            program: self.program,
            seeds: Seeds {
                namespace: Namespace::Vault,
                parent: self.vault_state_key,
                seed: None,
            },
            bump: self.vault_state.vault_bump,
        };
        bank.transfer(&native, &self.vault, &self.user, &proof_of_vault, amount)
    }
}

/// The vault manager: at most one vault per owner, each with a record at an
/// address derived from the owner and a native account at an address
/// derived from the record's.
#[derive(Debug)]
pub struct Vaults {
    program: Address,
    states: Registry<Address, VaultState>,
}

impl View for Vaults {
    type V = VaultBook;

    closed spec fn view(&self) -> VaultBook {
        VaultBook { program: self.program@, states: self.states@ }
    }
}

impl Vaults {
    /// No record is listed twice, and the book is consistent.
    pub closed spec fn wf(&self) -> bool {
        self.states.wf() && self@.consistent()
    }

    /// In a well-formed manager every record stands at the address that its
    /// owner and bump derive, and its vault bump derives an address.
    pub proof fn lemma_consistent(&self)
        requires
            self.wf(),
        ensures
            self@.consistent(),
    {
    }

    /// A manager without vaults for the program `program`.
    pub fn new(program: Address) -> (vaults: Vaults)
        ensures
            vaults.wf(),
            vaults@ == (VaultBook { program: program@, states: Map::empty() }),
    {
        Vaults { program, states: Registry::new() }
    }

    /// The program under which the addresses are derived.
    pub fn program(&self) -> (p: Address)
        ensures
            p@ == self@.program,
    {
        self.program
    }

    /// The record at `state`, if there is one.
    pub fn state(&self, state: &Address) -> (r: Option<VaultState>)
        requires
            self.wf(),
        ensures
            r == (if self@.states.dom().contains(state@) {
                Some(self@.states[state@])
            } else {
                None
            }),
    {
        self.states.get(state)
    }

    /// The address at which the record of `owner` stands or would stand.
    pub fn state_address(&self, owner: &Address) -> (r: Result<Address, CustodyError>)
        ensures
            match r {
                Ok(a) => derivation(self@.program, Namespace::State, owner@, None) matches Some(
                    (s, _),
                ) && s == a@,
                Err(e) => e == CustodyError::DerivationExhausted && derivation(
                    self@.program,
                    Namespace::State,
                    owner@,
                    None,
                ) is None,
            },
    {
        match crate::derive::derive(
            &self.program,
            &Seeds { namespace: Namespace::State, parent: *owner, seed: None },
        ) {
            Ok((a, _)) => Ok(a),
            Err(e) => Err(e),
        }
    }

    /// The address of the vault account of the record at `state`, reproduced
    /// from the recorded bump without scanning.
    pub fn vault_address(&self, state: &Address) -> (r: Option<Address>)
        requires
            self.wf(),
        ensures
            match r {
                Some(v) => self@.states.dom().contains(state@) && v@ == self@.vault_of(state@),
                None => !self@.states.dom().contains(state@),
            },
    {
        match self.states.get(state) {
            Some(record) => {
                let seeds = Seeds { namespace: Namespace::Vault, parent: *state, seed: None };
                rederive(&self.program, &seeds, record.vault_bump)
            },
            None => None,
        }
    }

    /// Checks the accounts of a payment before anything moves: there must be
    /// a record at `state`, and `user` must be its owner. Gives the accounts
    /// as the payment will use them; the vault's address is reproduced from
    /// the recorded bump.
    pub fn payment(&self, user: &Address, state: &Address) -> (r: Result<Payment, CustodyError>)
        requires
            self.wf(),
        ensures
            match r {
                Ok(p) => {
                    &&& self@.payment_check(user@, state@) is Ok
                    &&& p.program@ == self@.program
                    &&& p.user == *user
                    &&& p.vault@ == self@.vault_of(state@)
                    &&& p.vault_state_key == *state
                    &&& p.vault_state == self@.states[state@]
                    &&& p.vault_authorized()
                },
                Err(e) => self@.payment_check(user@, state@) == Err::<(), CustodyError>(e),
            },
    {
        let record = match self.states.get(state) {
            Some(r) => r,
            None => {
                return Err(CustodyError::NotFound);
            },
        };
        Payment::validate(&self.program, user, state, &record)
    }
}

/// Makes the vault of `owner`: derives the addresses of the record and of
/// the vault account, refuses if a record already stands there, opens the
/// vault's native account where it has none, pays the least reserve into it
/// from the owner, and stores the record. The vault then holds the least
/// reserve on top of what stood at its address before. Where it fails,
/// nothing changes.
pub fn initialize(vaults: &mut Vaults, bank: &mut Bank, owner: &Address) -> (r: Result<
    (),
    CustodyError,
>)
    requires
        old(vaults).wf(),
        old(bank).wf(),
    ensures
        final(vaults).wf(),
        final(bank).wf(),
        r == initialize_check(old(vaults)@, old(bank)@, owner@),
        r is Ok ==> final(vaults)@ == initialize_book(old(vaults)@, *owner),
        r is Ok ==> final(bank)@ == initialize_ledger(old(vaults)@, old(bank)@, owner@),
        r is Ok ==> {
            let vault = old(vaults)@.vault_for(owner@);
            &&& final(bank)@.holds(vault, native_id())
            &&& final(vaults)@.vault_of(old(vaults)@.state_for(owner@)) == vault
            &&& final(bank)@.balance(vault, native_id()) == held_before(old(bank)@, vault)
                + old(bank)@.reserve_min
        },
        r is Err ==> final(vaults)@ == old(vaults)@ && final(bank)@ == old(bank)@,
{
    let program = vaults.program;
    let state_seeds = Seeds { namespace: Namespace::State, parent: *owner, seed: None };
    let (state, state_bump) = match crate::derive::derive(&program, &state_seeds) {
        Ok(found) => found,
        Err(e) => {
            return Err(e);
        },
    };
    let vault_seeds = Seeds { namespace: Namespace::Vault, parent: state, seed: None };
    let (vault, vault_bump) = match crate::derive::derive(&program, &vault_seeds) {
        Ok(found) => found,
        Err(e) => {
            return Err(e);
        },
    };
    if vaults.states.contains(&state) {
        return Err(CustodyError::AlreadyInitialized);
    }
    let saved = bank.snapshot();
    let signer = Authority::Signer { key: *owner };
    let _ = bank.open_account(&Address::native(), &vault, owner, &signer, 0);
    assert(bank@ == with_native_account(old(bank)@, vault@)) by {
        assert(bank@.accounts =~= with_native_account(old(bank)@, vault@).accounts);
    }
    let mut accounts = Initialize {
        user: *owner,
        vault,
        vault_state: VaultState {
            vault_bump: 0,
            state_bump: 0,
            owner: Address::native(),
            total_deposits: 0,
        },
    };
    let bumps = InitializeBumps { vault: vault_bump, vault_state: state_bump };
    match accounts.initialize(bank, &bumps) {
        Ok(()) => {
            proof {
                lemma_rederive_matches_derive(program@, Namespace::State, owner@, None);
                lemma_rederive_matches_derive(program@, Namespace::Vault, state@, None);
            }
            vaults.states.insert(state, accounts.vault_state);
            assert(vaults@.states =~= initialize_book(old(vaults)@, *owner).states);
            Ok(())
        },
        Err(e) => {
            *bank = saved;
            Err(e)
        },
    }
}

/// Deposits `amount` from `user` into the vault whose record stands at
/// `state`. On success the vault's balance and the count of deposits have
/// both grown by `amount`; a zero amount is always `InvalidAmount`. Where it
/// fails, nothing changes.
pub fn deposit(
    vaults: &mut Vaults,
    bank: &mut Bank,
    user: &Address,
    state: &Address,
    amount: u64,
) -> (r: Result<(), CustodyError>)
    requires
        old(vaults).wf(),
        old(bank).wf(),
    ensures
        final(vaults).wf(),
        final(bank).wf(),
        r == deposit_check(old(vaults)@, old(bank)@, user@, state@, amount),
        amount == 0 ==> r == Err::<(), CustodyError>(CustodyError::InvalidAmount),
        r is Ok ==> {
            let vault = old(vaults)@.vault_of(state@);
            &&& final(vaults)@ == old(vaults)@.with_deposit(state@, amount)
            &&& final(bank)@ == old(bank)@.transferred(native_id(), user@, vault, amount)
            &&& final(bank)@.balance(vault, native_id()) == old(bank)@.balance(vault, native_id())
                + amount
            &&& final(bank)@.balance(user@, native_id()) == old(bank)@.balance(user@, native_id())
                - amount
            &&& final(vaults)@.states[state@].total_deposits
                == old(vaults)@.states[state@].total_deposits + amount
        },
        r is Err ==> final(vaults)@ == old(vaults)@ && final(bank)@ == old(bank)@,
{
    if amount == 0 {
        return Err(CustodyError::InvalidAmount);
    }
    let mut accounts = match vaults.payment(user, state) {
        Ok(p) => p,
        Err(e) => {
            return Err(e);
        },
    };
    match accounts.deposit(bank, amount) {
        Ok(()) => {
            vaults.states.insert(*state, accounts.vault_state);
            assert(vaults@.states =~= old(vaults)@.with_deposit(state@, amount).states);
            Ok(())
        },
        Err(e) => Err(e),
    }
}

/// Withdraws `amount` from the vault whose record stands at `state` to
/// `user`, who must be the recorded owner: any other caller is refused with
/// `Unauthorized`, whatever the amount. The vault keeps the least reserve.
/// Where it fails, nothing changes.
pub fn withdraw(
    vaults: &mut Vaults,
    bank: &mut Bank,
    user: &Address,
    state: &Address,
    amount: u64,
) -> (r: Result<(), CustodyError>)
    requires
        old(vaults).wf(),
        old(bank).wf(),
    ensures
        final(vaults).wf(),
        final(bank).wf(),
        r == withdraw_check(old(vaults)@, old(bank)@, user@, state@, amount),
        old(vaults)@.states.dom().contains(state@) && old(vaults)@.states[state@].owner@ != user@
            ==> r == Err::<(), CustodyError>(CustodyError::Unauthorized),
        final(vaults)@ == old(vaults)@,
        r is Ok ==> {
            let vault = old(vaults)@.vault_of(state@);
            &&& final(bank)@ == old(bank)@.transferred(native_id(), vault, user@, amount)
            &&& final(bank)@.balance(vault, native_id()) == old(bank)@.balance(vault, native_id())
                - amount
            &&& final(bank)@.balance(vault, native_id()) >= old(bank)@.reserve_min
            &&& final(bank)@.balance(user@, native_id()) == old(bank)@.balance(user@, native_id())
                + amount
        },
        r is Err ==> final(bank)@ == old(bank)@,
{
    let mut accounts = match vaults.payment(user, state) {
        Ok(p) => p,
        Err(e) => {
            return Err(e);
        },
    };
    accounts.withdraw(bank, amount)
}

/// A vault is made once: after a successful `initialize` for an owner, every
/// further `initialize` for that owner is refused with `AlreadyInitialized`,
/// whatever the ledger then holds. The vault that the first call made holds
/// the least reserve on top of what stood at its address before, so exactly
/// the least reserve where nothing did, and the address that the recorded
/// bump reproduces is the one that was derived.
pub proof fn lemma_initialize_once(book: VaultBook, ledger: Ledger, owner: Address, later: Ledger)
    requires
        initialize_check(book, ledger, owner@) is Ok,
    ensures
        initialize_check(initialize_book(book, owner), later, owner@) == Err::<(), CustodyError>(
            CustodyError::AlreadyInitialized,
        ),
        initialize_book(book, owner).vault_of(book.state_for(owner@)) == book.vault_for(owner@),
        book.consistent() ==> initialize_book(book, owner).consistent(),
        initialize_ledger(book, ledger, owner@).holds(book.vault_for(owner@), native_id()),
        initialize_ledger(book, ledger, owner@).balance(book.vault_for(owner@), native_id())
            == held_before(ledger, book.vault_for(owner@)) + ledger.reserve_min,
{
    lemma_rederive_matches_derive(book.program, Namespace::State, owner@, None);
    lemma_rederive_matches_derive(book.program, Namespace::Vault, book.state_for(owner@), None);
}

/// A deposit that is followed by a withdrawal of the same amount by the same
/// user leaves the ledger as it was before the deposit: the vault's balance,
/// the user's balance and every other account. The withdrawal is accepted
/// exactly when the vault held at least the least reserve before the
/// deposit.
pub proof fn lemma_deposit_withdraw_round_trip(
    book: VaultBook,
    ledger: Ledger,
    user: Seq<u8>,
    state: Seq<u8>,
    amount: u64,
)
    requires
        deposit_check(book, ledger, user, state, amount) is Ok,
    ensures
        ({
            let vault = book.vault_of(state);
            let after = ledger.transferred(native_id(), user, vault, amount);
            let back = withdraw_check(book.with_deposit(state, amount), after, user, state, amount);
            &&& back is Ok <==> ledger.balance(vault, native_id()) >= ledger.reserve_min
            &&& back is Ok ==> after.transferred(native_id(), vault, user, amount) == ledger
        }),
{
    let vault = book.vault_of(state);
    let after = ledger.transferred(native_id(), user, vault, amount);
    let again = after.transferred(native_id(), vault, user, amount);
    assert(book.with_deposit(state, amount).vault_of(state) == vault);
    assert(again.accounts =~= ledger.accounts);
}

} // verus!
