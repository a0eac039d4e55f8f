use vstd::prelude::*;
use crate::address::native_id;
use crate::address::Address;
use crate::address::Key;
use crate::bank::Bank;
use crate::bank::Ledger;
use crate::derive::derivation;
use crate::derive::derived_at;
use crate::derive::lemma_rederive_matches_derive;
use crate::derive::seed_views;
use crate::derive::signer_parts;
use crate::derive::Authority;
use crate::derive::Namespace;
use crate::derive::Seeds;
use crate::error::CustodyError;
use crate::registry::Registry;

verus! {

/// The record of one offer: the maker has put `amount_a` of `token_a` into
/// the escrow's holding account and wants `amount_b` of `token_b` for it.
/// `bump` reproduces the escrow's address.
#[derive(Clone, Copy, Debug, PartialEq, Eq)]
pub struct Escrow {
    pub maker: Address,
    pub token_a: Address,
    pub token_b: Address,
    pub amount_a: u64,
    pub amount_b: u64,
    pub bump: u8,
}

/// What the engine keeps at an escrow's address: the record and the numeric
/// seed it was made with. An escrow is listed from `make` until it is
/// settled: to be listed is to be in the state created. `take` and `refund`
/// destroy the record, so that nothing stands at its address afterwards.
#[derive(Clone, Copy, Debug, PartialEq, Eq)]
pub struct EscrowSlot {
    pub escrow: Escrow,
    pub seed: u64,
}

/// The state of the escrow engine: its program and the escrows by address.
pub struct EscrowBook {
    pub program: Seq<u8>,
    pub slots: Map<Seq<u8>, EscrowSlot>,
}

/// Whether the escrow's value can be released: moved from the holding account
/// to `receiver`, and the holding account then closed with its reserve going
/// to the maker. The first refusal of the two steps decides.
pub open spec fn release_check(
    ledger: Ledger,
    escrow: Escrow,
    key: Seq<u8>,
    receiver: Seq<u8>,
    authorized: bool,
) -> Result<(), CustodyError> {
    let moved = ledger.transfer_check(escrow.token_a@, key, receiver, authorized, escrow.amount_a);
    if moved is Err {
        moved
    } else {
        ledger.transferred(escrow.token_a@, key, receiver, escrow.amount_a).close_check(
            escrow.token_a@,
            key,
            escrow.maker@,
            authorized,
        )
    }
}

/// The ledger after the escrow's value was released to `receiver`.
pub open spec fn released(ledger: Ledger, escrow: Escrow, key: Seq<u8>, receiver: Seq<u8>) -> Ledger {
    ledger.transferred(escrow.token_a@, key, receiver, escrow.amount_a).closed(
        escrow.token_a@,
        key,
        escrow.maker@,
    )
}

/// Whether the swap goes through for `taker`: first the payment of
/// `amount_b` of `token_b` from the taker to the maker, then the release of
/// the escrow's value to the taker. The first refusal decides.
pub open spec fn swap_check(ledger: Ledger, escrow: Escrow, key: Seq<u8>, taker: Seq<u8>) -> Result<
    (),
    CustodyError,
> {
    let paid = ledger.transfer_check(escrow.token_b@, taker, escrow.maker@, true, escrow.amount_b);
    if paid is Err {
        paid
    } else {
        release_check(
            ledger.transferred(escrow.token_b@, taker, escrow.maker@, escrow.amount_b),
            escrow,
            key,
            taker,
            true,
        )
    }
}

/// The ledger after the swap went through for `taker`.
pub open spec fn swapped(ledger: Ledger, escrow: Escrow, key: Seq<u8>, taker: Seq<u8>) -> Ledger {
    released(
        ledger.transferred(escrow.token_b@, taker, escrow.maker@, escrow.amount_b),
        escrow,
        key,
        taker,
    )
}

/// Whether an escrow can be funded: the holding account opened for the
/// escrow's address, its reserve paid by the maker, and `amount_a` of
/// `token_a` moved into it from the maker. The first refusal decides.
pub open spec fn funding_check(
    ledger: Ledger,
    maker: Seq<u8>,
    token_a: Seq<u8>,
    key: Seq<u8>,
    amount_a: u64,
) -> Result<(), CustodyError> {
    let opened = ledger.open_check(token_a, key, maker, true, ledger.reserve_min);
    if opened is Err {
        opened
    } else {
        ledger.opened(token_a, key, maker, ledger.reserve_min).transfer_check(
            token_a,
            maker,
            key,
            true,
            amount_a,
        )
    }
}

/// The ledger after an escrow was funded.
pub open spec fn funded(
    ledger: Ledger,
    maker: Seq<u8>,
    token_a: Seq<u8>,
    key: Seq<u8>,
    amount_a: u64,
) -> Ledger {
    ledger.opened(token_a, key, maker, ledger.reserve_min).transferred(
        token_a,
        maker,
        key,
        amount_a,
    )
}

impl EscrowBook {
    /// Every escrow stands at the address that its maker, seed and bump
    /// derive.
    pub open spec fn consistent(self) -> bool {
        forall|k: Seq<u8>| #[trigger]
            self.slots.dom().contains(k) ==> derived_at(
                self.program,
                Namespace::Escrow,
                self.slots[k].escrow.maker@,
                Some(self.slots[k].seed),
                self.slots[k].escrow.bump,
            ) == Some(k)
    }

    /// An escrow stands at `key`: it was made and is not yet taken or
    /// refunded.
    pub open spec fn created(self, key: Seq<u8>) -> bool {
        self.slots.dom().contains(key)
    }

    /// The book after the escrow at `key` was taken or refunded: its record
    /// is gone, and every other escrow is as it was.
    pub open spec fn settled(self, key: Seq<u8>) -> EscrowBook {
        EscrowBook { slots: self.slots.remove(key), ..self }
    }

    /// Whether `make` succeeds, and if not, the first reason in this order:
    /// one of the amounts is zero; no address can be derived; an escrow
    /// already stands at the derived address; the funding is refused.
    pub open spec fn make_check(
        self,
        ledger: Ledger,
        maker: Seq<u8>,
        seed: u64,
        amount_a: u64,
        amount_b: u64,
        token_a: Seq<u8>,
    ) -> Result<(), CustodyError> {
        if amount_a == 0 || amount_b == 0 {
            Err(CustodyError::InvalidAmount)
        } else {
            match derivation(self.program, Namespace::Escrow, maker, Some(seed)) {
                None => Err(CustodyError::DerivationExhausted),
                Some((key, _)) => if self.slots.dom().contains(key) {
                    Err(CustodyError::AlreadyInitialized)
                } else {
                    funding_check(ledger, maker, token_a, key, amount_a)
                },
            }
        }
    }

    /// The address at which `make` puts the escrow of `maker` and `seed`.
    pub open spec fn made_at(self, maker: Seq<u8>, seed: u64) -> Seq<u8> {
        let (key, bump) = derivation(self.program, Namespace::Escrow, maker, Some(seed))->0;
        key
    }

    /// The book after a successful `make`: the new escrow stands at the
    /// derived address.
    pub open spec fn made(
        self,
        maker: Address,
        seed: u64,
        amount_a: u64,
        amount_b: u64,
        token_a: Address,
        token_b: Address,
    ) -> EscrowBook {
        let (key, bump) = derivation(self.program, Namespace::Escrow, maker@, Some(seed))->0;
        EscrowBook {
            slots: self.slots.insert(
                key,
                EscrowSlot {
                    escrow: Escrow { maker, token_a, token_b, amount_a, amount_b, bump },
                    seed,
                },
            ),
            ..self
        }
    }

    /// Whether `take` succeeds, and if not, the first reason in this order:
    /// there is no escrow at `key`, be it that none was made or that it was
    /// taken or refunded; then as `swap_check` decides.
    pub open spec fn take_check(self, ledger: Ledger, taker: Seq<u8>, key: Seq<u8>) -> Result<
        (),
        CustodyError,
    > {
        if !self.slots.dom().contains(key) {
            Err(CustodyError::NotFound)
        } else {
            swap_check(ledger, self.slots[key].escrow, key, taker)
        }
    }

    /// Whether `refund` succeeds, and if not, the first reason in this order:
    /// there is no escrow at `key`, be it that none was made or that it was
    /// taken or refunded; the caller is not its maker; then as
    /// `release_check` decides.
    pub open spec fn refund_check(self, ledger: Ledger, caller: Seq<u8>, key: Seq<u8>) -> Result<
        (),
        CustodyError,
    > {
        if !self.slots.dom().contains(key) {
            Err(CustodyError::NotFound)
        } else if self.slots[key].escrow.maker@ != caller {
            Err(CustodyError::Unauthorized)
        } else {
            release_check(ledger, self.slots[key].escrow, key, caller, true)
        }
    }
}

/// The bump found when the address of a new escrow was derived.
#[derive(Clone, Copy, Debug, PartialEq, Eq)]
pub struct MakeBumps {
    pub escrow: u8,
}

/// The accounts of `make`: the maker, the two assets, and the escrow with
/// its address, which is also the holder of the holding account.
#[derive(Clone, Copy, Debug, PartialEq, Eq)]
pub struct Make {
    pub maker: Address,
    pub mint_a: Address,
    pub mint_b: Address,
    pub escrow_key: Address,
    pub escrow: Escrow,
}

impl Make {
    /// Fills the escrow's record: the maker, both assets, both amounts and
    /// the bump. An offer in which one amount is zero is refused with
    /// `InvalidAmount`, and the record is left as it was.
    pub fn init_escrow(&mut self, amount_a: u64, amount_b: u64, bumps: &MakeBumps) -> (r: Result<
        (),
        CustodyError,
    >)
        ensures
            r == (if amount_a == 0 || amount_b == 0 {
                Err::<(), CustodyError>(CustodyError::InvalidAmount)
            } else {
                Ok::<(), CustodyError>(())
            }),
            *final(self) == (if r is Ok {
                Make {
                    escrow: Escrow {
                        maker: old(self).maker,
                        token_a: old(self).mint_a,
                        token_b: old(self).mint_b,
                        amount_a,
                        amount_b,
                        bump: bumps.escrow,
                    },
                    ..*old(self)
                }
            } else {
                *old(self)
            }),
    {
        if amount_a == 0 || amount_b == 0 {
            return Err(CustodyError::InvalidAmount);
        }
        self.escrow =
        Escrow {
            maker: self.maker,
            token_a: self.mint_a,
            token_b: self.mint_b,
            amount_a,
            amount_b,
            bump: bumps.escrow,
        };
        Ok(())
    }

    /// Moves `deposit` of the first asset from the maker into the holding
    /// account, signed by the maker. Where it is refused, nothing changes.
    pub fn deposit(&self, bank: &mut Bank, deposit: u64) -> (r: Result<(), CustodyError>)
        requires
            old(bank).wf(),
        ensures
            final(bank).wf(),
            r == old(bank)@.transfer_check(
                self.mint_a@,
                self.maker@,
                self.escrow_key@,
                true,
                deposit,
            ),
            final(bank)@ == old(bank)@.transfer(
                self.mint_a@,
                self.maker@,
                self.escrow_key@,
                true,
                deposit,
            ),
    {
        let signer = Authority::Signer { key: self.maker };
        bank.transfer(&self.mint_a, &self.maker, &self.escrow_key, &signer, deposit)
    }
}

/// The seeds and bump of an escrow reproduce the address `key`.
pub open spec fn escrow_authorized(program: Seq<u8>, escrow: Escrow, seed: u64, key: Seq<u8>) -> bool {
    derived_at(program, Namespace::Escrow, escrow.maker@, Some(seed), escrow.bump) == Some(key)
}

/// The authority of an escrow over its holding account: the tag `escrow`,
/// the maker's key, the numeric seed and the recorded bump.
pub fn escrow_authority(program: &Address, escrow: &Escrow, seed: u64) -> (a: Authority)
    ensures
        forall|key: Seq<u8>| #[trigger] a.proves(key) == escrow_authorized(program@, *escrow, seed, key),
        a == (Authority::Derived {
            program: *program,
            seeds: Seeds { namespace: Namespace::Escrow, parent: escrow.maker, seed: Some(seed) },
            bump: escrow.bump,
        }),
{
    Authority::Derived {
        program: *program,
        seeds: Seeds { namespace: Namespace::Escrow, parent: escrow.maker, seed: Some(seed) },
        bump: escrow.bump,
    }
}

/// The seeds that sign for an escrow, byte for byte: the tag `escrow`, the
/// maker's key, the numeric seed least significant byte first, and the
/// recorded bump as a single last byte.
pub fn escrow_signer_seeds(escrow: &Escrow, seed: u64) -> (v: Vec<Vec<u8>>)
    ensures
        seed_views(v@) == signer_parts(Namespace::Escrow, escrow.maker@, Some(seed), escrow.bump),
{
    let seeds = Seeds { namespace: Namespace::Escrow, parent: escrow.maker, seed: Some(seed) };
    seeds.to_signer_parts(escrow.bump)
}

/// Whether an escrow read at `key` can be released under `program`: its
/// maker, the seed and its bump must reproduce `key`. A mismatch is
/// `Unauthorized`.
pub open spec fn take_accounts_check(program: Seq<u8>, key: Seq<u8>, escrow: Escrow, seed: u64) -> Result<
    (),
    CustodyError,
> {
    if !escrow_authorized(program, escrow, seed, key) {
        Err(CustodyError::Unauthorized)
    } else {
        Ok(())
    }
}

/// Whether an escrow read at `key` can be refunded to `caller` under
/// `program`: `caller` must be its maker, and its maker, the seed and its
/// bump must reproduce `key`. Any mismatch is `Unauthorized`.
pub open spec fn refund_accounts_check(
    program: Seq<u8>,
    caller: Seq<u8>,
    key: Seq<u8>,
    escrow: Escrow,
    seed: u64,
) -> Result<(), CustodyError> {
    if escrow.maker@ != caller || !escrow_authorized(program, escrow, seed, key) {
        Err(CustodyError::Unauthorized)
    } else {
        Ok(())
    }
}

/// The accounts of `take`: the program, the taker, and the escrow with its
/// address and seed.
#[derive(Clone, Copy, Debug, PartialEq, Eq)]
pub struct Take {
    pub program: Address,
    pub taker: Address,
    pub escrow_key: Address,
    pub escrow: Escrow,
    pub seed: u64,
}

impl Take {
    /// The escrow's seeds and bump reproduce its address.
    pub open spec fn authorized(self) -> bool {
        escrow_authorized(self.program@, self.escrow, self.seed, self.escrow_key@)
    }

    /// Checks an escrow before anything moves, and gives the accounts of a
    /// `take`: the escrow's maker, seed and bump must reproduce `key`.
    pub fn validate(program: &Address, taker: &Address, key: &Address, escrow: &Escrow, seed: u64) -> (r:
        Result<Take, CustodyError>)
        ensures
            match r {
                Ok(t) => {
                    &&& take_accounts_check(program@, key@, *escrow, seed) is Ok
                    &&& t == (Take {
                        program: *program,
                        taker: *taker,
                        escrow_key: *key,
                        escrow: *escrow,
                        seed,
                    })
                    &&& t.authorized()
                },
                Err(e) => take_accounts_check(program@, key@, *escrow, seed) == Err::<
                    (),
                    CustodyError,
                >(e),
            },
    {
        if !escrow_authority(program, escrow, seed).authorizes(key) {
            return Err(CustodyError::Unauthorized);
        }
        Ok(Take { program: *program, taker: *taker, escrow_key: *key, escrow: *escrow, seed })
    }

    /// Pays the maker: `amount_b` of the second asset from the taker,
    /// signed by the taker. Where it is refused, nothing changes.
    pub fn transfer_token_b(&self, bank: &mut Bank) -> (r: Result<(), CustodyError>)
        requires
            old(bank).wf(),
        ensures
            final(bank).wf(),
            r == old(bank)@.transfer_check(
                self.escrow.token_b@,
                self.taker@,
                self.escrow.maker@,
                true,
                self.escrow.amount_b,
            ),
            final(bank)@ == old(bank)@.transfer(
                self.escrow.token_b@,
                self.taker@,
                self.escrow.maker@,
                true,
                self.escrow.amount_b,
            ),
    {
        let signer = Authority::Signer { key: self.taker };
        bank.transfer(
            &self.escrow.token_b,
            &self.taker,
            &self.escrow.maker,
            &signer,
            self.escrow.amount_b,
        )
    }

    /// Hands the escrowed `amount_a` of the first asset to the taker, on the
    /// escrow's own authority. Where it is refused, nothing changes.
    pub fn transfer_token_a(&self, bank: &mut Bank) -> (r: Result<(), CustodyError>)
        requires
            old(bank).wf(),
        ensures
            final(bank).wf(),
            r == old(bank)@.transfer_check(
                self.escrow.token_a@,
                self.escrow_key@,
                self.taker@,
                self.authorized(),
                self.escrow.amount_a,
            ),
            final(bank)@ == old(bank)@.transfer(
                self.escrow.token_a@,
                self.escrow_key@,
                self.taker@,
                self.authorized(),
                self.escrow.amount_a,
            ),
    {
        let authority = escrow_authority(&self.program, &self.escrow, self.seed);
        bank.transfer(
            &self.escrow.token_a,
            &self.escrow_key,
            &self.taker,
            &authority,
            self.escrow.amount_a,
        )
    }

    /// Closes the emptied holding account on the escrow's own authority; its
    /// reserve goes to the maker. Where it is refused, nothing changes.
    pub fn close_vault(&self, bank: &mut Bank) -> (r: Result<(), CustodyError>)
        requires
            old(bank).wf(),
        ensures
            final(bank).wf(),
            r == old(bank)@.close_check(
                self.escrow.token_a@,
                self.escrow_key@,
                self.escrow.maker@,
                self.authorized(),
            ),
            final(bank)@ == old(bank)@.close(
                self.escrow.token_a@,
                self.escrow_key@,
                self.escrow.maker@,
                self.authorized(),
            ),
    {
        let authority = escrow_authority(&self.program, &self.escrow, self.seed);
        bank.close_account(&self.escrow.token_a, &self.escrow_key, &self.escrow.maker, &authority)
    }
}

/// The accounts of `refund`: the program, and the escrow with its address
/// and seed. The value goes back to the escrow's maker.
#[derive(Clone, Copy, Debug, PartialEq, Eq)]
pub struct Refund {
    pub program: Address,
    pub escrow_key: Address,
    pub escrow: Escrow,
    pub seed: u64,
}

impl Refund {
    /// The escrow's seeds and bump reproduce its address.
    pub open spec fn authorized(self) -> bool {
        escrow_authorized(self.program@, self.escrow, self.seed, self.escrow_key@)
    }

    /// Checks an escrow against the caller before anything moves, and gives
    /// the accounts of a `refund`: `caller` must be the escrow's maker, and
    /// the maker, seed and bump must reproduce `key`.
    pub fn validate(program: &Address, caller: &Address, key: &Address, escrow: &Escrow, seed: u64) -> (r:
        Result<Refund, CustodyError>)
        ensures
            match r {
                Ok(t) => {
                    &&& refund_accounts_check(program@, caller@, key@, *escrow, seed) is Ok
                    &&& t == (Refund { program: *program, escrow_key: *key, escrow: *escrow, seed })
                    &&& t.authorized()
                },
                Err(e) => refund_accounts_check(program@, caller@, key@, *escrow, seed) == Err::<
                    (),
                    CustodyError,
                >(e),
            },
    {
        if !escrow.maker.same(caller) {
            return Err(CustodyError::Unauthorized);
        }
        if !escrow_authority(program, escrow, seed).authorizes(key) {
            return Err(CustodyError::Unauthorized);
        }
        Ok(Refund { program: *program, escrow_key: *key, escrow: *escrow, seed })
    }

    /// Hands the escrowed `amount_a` of the first asset back to the maker,
    /// on the escrow's own authority. Where it is refused, nothing changes.
    pub fn refund_to_maker(&self, bank: &mut Bank) -> (r: Result<(), CustodyError>)
        requires
            old(bank).wf(),
        ensures
            final(bank).wf(),
            r == old(bank)@.transfer_check(
                self.escrow.token_a@,
                self.escrow_key@,
                self.escrow.maker@,
                self.authorized(),
                self.escrow.amount_a,
            ),
            final(bank)@ == old(bank)@.transfer(
                self.escrow.token_a@,
                self.escrow_key@,
                self.escrow.maker@,
                self.authorized(),
                self.escrow.amount_a,
            ),
    {
        let authority = escrow_authority(&self.program, &self.escrow, self.seed);
        bank.transfer(
            &self.escrow.token_a,
            &self.escrow_key,
            &self.escrow.maker,
            &authority,
            self.escrow.amount_a,
        )
    }

    /// Closes the emptied holding account on the escrow's own authority; its
    /// reserve goes to the maker. Where it is refused, nothing changes.
    pub fn close_vault(&self, bank: &mut Bank) -> (r: Result<(), CustodyError>)
        requires
            old(bank).wf(),
        ensures
            final(bank).wf(),
            r == old(bank)@.close_check(
                self.escrow.token_a@,
                self.escrow_key@,
                self.escrow.maker@,
                self.authorized(),
            ),
            final(bank)@ == old(bank)@.close(
                self.escrow.token_a@,
                self.escrow_key@,
                self.escrow.maker@,
                self.authorized(),
            ),
    {
        let authority = escrow_authority(&self.program, &self.escrow, self.seed);
        bank.close_account(&self.escrow.token_a, &self.escrow_key, &self.escrow.maker, &authority)
    }
}

/// The escrow engine: one escrow per maker and seed, each at an address
/// derived from both, which also holds the escrowed value.
#[derive(Debug)]
pub struct Escrows {
    program: Address,
    slots: Registry<Address, EscrowSlot>,
}

impl View for Escrows {
    type V = EscrowBook;

    closed spec fn view(&self) -> EscrowBook {
        EscrowBook { program: self.program@, slots: self.slots@ }
    }
}

impl Escrows {
    /// No escrow is listed twice, and the book is consistent.
    pub closed spec fn wf(&self) -> bool {
        self.slots.wf() && self@.consistent()
    }

    /// In a well-formed engine every escrow stands at the address that its
    /// maker, seed and bump derive.
    pub proof fn lemma_consistent(&self)
        requires
            self.wf(),
        ensures
            self@.consistent(),
    {
    }

    /// An engine without escrows for the program `program`.
    pub fn new(program: Address) -> (escrows: Escrows)
        ensures
            escrows.wf(),
            escrows@ == (EscrowBook { program: program@, slots: Map::empty() }),
    {
        Escrows { program, slots: Registry::new() }
    }

    /// The program under which the addresses are derived.
    pub fn program(&self) -> (p: Address)
        ensures
            p@ == self@.program,
    {
        self.program
    }

    /// What stands at `key`, if anything.
    pub fn slot(&self, key: &Address) -> (r: Option<EscrowSlot>)
        requires
            self.wf(),
        ensures
            r == (if self@.slots.dom().contains(key@) {
                Some(self@.slots[key@])
            } else {
                None
            }),
    {
        self.slots.get(key)
    }

    /// The address at which the escrow of `maker` and `seed` stands or would
    /// stand.
    pub fn escrow_address(&self, maker: &Address, seed: u64) -> (r: Result<Address, CustodyError>)
        ensures
            match r {
                Ok(a) => derivation(self@.program, Namespace::Escrow, maker@, Some(seed)) is Some
                    && a@ == self@.made_at(maker@, seed),
                Err(e) => e == CustodyError::DerivationExhausted && derivation(
                    self@.program,
                    Namespace::Escrow,
                    maker@,
                    Some(seed),
                ) is None,
            },
    {
        match crate::derive::derive(
            &self.program,
            &Seeds { namespace: Namespace::Escrow, parent: *maker, seed: Some(seed) },
        ) {
            Ok((a, _)) => Ok(a),
            Err(e) => Err(e),
        }
    }
}

/// Makes an escrow: derives its address from the maker and the seed, refuses
/// if an escrow already stands there, opens the holding account with its
/// reserve paid by the maker, moves `amount_a` of `token_a` from the maker
/// into it, and lists the escrow, which is thereby created. On success the
/// holding account holds exactly `amount_a`. Where it fails, nothing
/// changes.
pub fn make(
    escrows: &mut Escrows,
    bank: &mut Bank,
    maker: &Address,
    seed: u64,
    amount_a: u64,
    amount_b: u64,
    token_a: &Address,
    token_b: &Address,
) -> (r: Result<(), CustodyError>)
    requires
        old(escrows).wf(),
        old(bank).wf(),
    ensures
        final(escrows).wf(),
        final(bank).wf(),
        r == old(escrows)@.make_check(old(bank)@, maker@, seed, amount_a, amount_b, token_a@),
        r is Ok ==> {
            let key = old(escrows)@.made_at(maker@, seed);
            &&& final(escrows)@ == old(escrows)@.made(
                *maker,
                seed,
                amount_a,
                amount_b,
                *token_a,
                *token_b,
            )
            &&& final(bank)@ == funded(old(bank)@, maker@, token_a@, key, amount_a)
            &&& final(escrows)@.created(key)
            &&& final(bank)@.holds(key, token_a@)
            &&& final(bank)@.balance(key, token_a@) == amount_a
        },
        r is Err ==> final(escrows)@ == old(escrows)@ && final(bank)@ == old(bank)@,
{
    if amount_a == 0 || amount_b == 0 {
        return Err(CustodyError::InvalidAmount);
    }
    let program = escrows.program;
    let seeds = Seeds { namespace: Namespace::Escrow, parent: *maker, seed: Some(seed) };
    let (key, bump) = match crate::derive::derive(&program, &seeds) {
        Ok(found) => found,
        Err(e) => {
            return Err(e);
        },
    };
    if escrows.slots.contains(&key) {
        return Err(CustodyError::AlreadyInitialized);
    }
    let mut accounts = Make {
        maker: *maker,
        mint_a: *token_a,
        mint_b: *token_b,
        escrow_key: key,
        escrow: Escrow {
            maker: Address::native(),
            token_a: Address::native(),
            token_b: Address::native(),
            amount_a: 0,
            amount_b: 0,
            bump: 0,
        },
    };
    match accounts.init_escrow(amount_a, amount_b, &MakeBumps { escrow: bump }) {
        Ok(()) => {},
        Err(e) => {
            return Err(e);
        },
    }
    let saved = bank.snapshot();
    let signer = Authority::Signer { key: *maker };
    let reserve: u64 = bank.reserve_minimum();
    match bank.open_account(token_a, &key, maker, &signer, reserve) {
        Ok(()) => {},
        Err(e) => {
            return Err(e);
        },
    }
    match accounts.deposit(bank, amount_a) {
        Ok(()) => {
            proof {
                lemma_rederive_matches_derive(program@, Namespace::Escrow, maker@, Some(seed));
            }
            escrows.slots.insert(
                key,
                EscrowSlot { escrow: accounts.escrow, seed },
            );
            assert(escrows@.slots =~= old(escrows)@.made(
                *maker,
                seed,
                amount_a,
                amount_b,
                *token_a,
                *token_b,
            ).slots);
            Ok(())
        },
        Err(e) => {
            *bank = saved;
            Err(e)
        },
    }
}

/// Takes the escrow at `key`: the taker pays `amount_b` of `token_b` to the
/// maker, receives the escrowed `amount_a` of `token_a`, and the holding
/// account is closed with its reserve going to the maker. The escrow is then
/// taken: its record is destroyed, nothing stands at `key`, and every other
/// escrow is as it was. Where any step fails, nothing changes: the escrow
/// stays listed and can be taken or refunded later.
pub fn take(escrows: &mut Escrows, bank: &mut Bank, taker: &Address, key: &Address) -> (r: Result<
    (),
    CustodyError,
>)
    requires
        old(escrows).wf(),
        old(bank).wf(),
    ensures
        final(escrows).wf(),
        final(bank).wf(),
        r == old(escrows)@.take_check(old(bank)@, taker@, key@),
        r is Ok ==> {
            let escrow = old(escrows)@.slots[key@].escrow;
            &&& final(escrows)@ == old(escrows)@.settled(key@)
            &&& !final(escrows)@.slots.dom().contains(key@)
            &&& final(bank)@ == swapped(old(bank)@, escrow, key@, taker@)
            &&& !final(bank)@.holds(key@, escrow.token_a@)
        },
        r is Err ==> final(escrows)@ == old(escrows)@ && final(bank)@ == old(bank)@,
{
    let slot = match escrows.slots.get(key) {
        Some(s) => s,
        None => {
            return Err(CustodyError::NotFound);
        },
    };
    let accounts = match Take::validate(&escrows.program, taker, key, &slot.escrow, slot.seed) {
        Ok(a) => a,
        Err(e) => {
            return Err(e);
        },
    };
    let saved = bank.snapshot();
    match accounts.transfer_token_b(bank) {
        Ok(()) => {},
        Err(e) => {
            return Err(e);
        },
    }
    match accounts.transfer_token_a(bank) {
        Ok(()) => {},
        Err(e) => {
            *bank = saved;
            return Err(e);
        },
    }
    match accounts.close_vault(bank) {
        Ok(()) => {},
        Err(e) => {
            *bank = saved;
            return Err(e);
        },
    }
    escrows.slots.remove(key);
    Ok(())
}

/// Refunds the escrow at `key` to its maker, who must be the caller: any
/// other caller is refused with `Unauthorized`. The escrowed `amount_a` of
/// `token_a` goes back to the maker and the holding account is closed with
/// its reserve going to the maker. The escrow is then refunded: its record
/// is destroyed, nothing stands at `key`, and every other escrow is as it
/// was. Where any step fails, nothing changes.
pub fn refund(escrows: &mut Escrows, bank: &mut Bank, caller: &Address, key: &Address) -> (r:
    Result<(), CustodyError>)
    requires
        old(escrows).wf(),
        old(bank).wf(),
    ensures
        final(escrows).wf(),
        final(bank).wf(),
        r == old(escrows)@.refund_check(old(bank)@, caller@, key@),
        old(escrows)@.slots.dom().contains(key@) && old(escrows)@.slots[key@].escrow.maker@
            != caller@ ==> r == Err::<(), CustodyError>(CustodyError::Unauthorized),
        r is Ok ==> {
            let escrow = old(escrows)@.slots[key@].escrow;
            &&& final(escrows)@ == old(escrows)@.settled(key@)
            &&& !final(escrows)@.slots.dom().contains(key@)
            &&& final(bank)@ == released(old(bank)@, escrow, key@, caller@)
            &&& !final(bank)@.holds(key@, escrow.token_a@)
        },
        r is Err ==> final(escrows)@ == old(escrows)@ && final(bank)@ == old(bank)@,
{
    let slot = match escrows.slots.get(key) {
        Some(s) => s,
        None => {
            return Err(CustodyError::NotFound);
        },
    };
    let accounts = match Refund::validate(&escrows.program, caller, key, &slot.escrow, slot.seed) {
        Ok(a) => a,
        Err(e) => {
            return Err(e);
        },
    };
    let saved = bank.snapshot();
    match accounts.refund_to_maker(bank) {
        Ok(()) => {},
        Err(e) => {
            return Err(e);
        },
    }
    match accounts.close_vault(bank) {
        Ok(()) => {},
        Err(e) => {
            *bank = saved;
            return Err(e);
        },
    }
    escrows.slots.remove(key);
    Ok(())
}

/// A seed is used once: after a successful `make` for a maker and a seed,
/// every further `make` for the same maker and seed is refused with
/// `AlreadyInitialized`, whatever the amounts, the assets and the ledger.
/// The escrow that the first call listed is created, and its holding
/// account holds exactly `amount_a`.
pub proof fn lemma_make_once(
    book: EscrowBook,
    ledger: Ledger,
    maker: Address,
    seed: u64,
    amount_a: u64,
    amount_b: u64,
    token_a: Address,
    token_b: Address,
    later: Ledger,
    next_a: u64,
    next_b: u64,
    next_token: Seq<u8>,
)
    requires
        book.make_check(ledger, maker@, seed, amount_a, amount_b, token_a@) is Ok,
        next_a > 0,
        next_b > 0,
    ensures
        book.made(maker, seed, amount_a, amount_b, token_a, token_b).make_check(
            later,
            maker@,
            seed,
            next_a,
            next_b,
            next_token,
        ) == Err::<(), CustodyError>(CustodyError::AlreadyInitialized),
        book.made(maker, seed, amount_a, amount_b, token_a, token_b).created(
            book.made_at(maker@, seed),
        ),
        book.consistent() ==> book.made(
            maker,
            seed,
            amount_a,
            amount_b,
            token_a,
            token_b,
        ).consistent(),
        funded(ledger, maker@, token_a@, book.made_at(maker@, seed), amount_a).balance(
            book.made_at(maker@, seed),
            token_a@,
        ) == amount_a,
{
    lemma_rederive_matches_derive(book.program, Namespace::Escrow, maker@, Some(seed));
}

/// A settled escrow is gone: once the escrow at `key` was taken or refunded,
/// nothing stands at `key`, every other escrow is as it was, and every later
/// `take` or `refund` at `key` is refused with `NotFound`, whoever calls and
/// whatever the ledger holds. The address is free again: a `make` with
/// amounts above zero that derives `key` is decided by the funding alone.
pub proof fn lemma_settled_is_gone(
    book: EscrowBook,
    key: Seq<u8>,
    ledger: Ledger,
    caller: Seq<u8>,
    maker: Seq<u8>,
    seed: u64,
    amount_a: u64,
    amount_b: u64,
    token_a: Seq<u8>,
)
    ensures
        !book.settled(key).created(key),
        forall|k: Seq<u8>|
            k != key ==> book.settled(key).created(k) == book.created(k) && (book.created(k)
                ==> #[trigger] book.settled(key).slots[k] == book.slots[k]),
        book.settled(key).take_check(ledger, caller, key) == Err::<(), CustodyError>(
            CustodyError::NotFound,
        ),
        book.settled(key).refund_check(ledger, caller, key) == Err::<(), CustodyError>(
            CustodyError::NotFound,
        ),
        amount_a > 0 && amount_b > 0 && derivation(
            book.program,
            Namespace::Escrow,
            maker,
            Some(seed),
        ) is Some && book.made_at(maker, seed) == key ==> book.settled(key).make_check(
            ledger,
            maker,
            seed,
            amount_a,
            amount_b,
            token_a,
        ) == funding_check(ledger, maker, token_a, key, amount_a),
        book.consistent() ==> book.settled(key).consistent(),
{
}

/// What a successful swap does to the balances. The holding account is gone.
/// Where the two assets differ, the taker has `amount_a` more of the first
/// and `amount_b` less of the second. The maker has `amount_b` more of the
/// second asset, and the reserve of the holding account more of the native
/// asset; where the second asset is the native one, both are added to the
/// same balance. (The maker's clause leaves out a maker whose own address is
/// the escrow's while both assets are one: that account is the holding
/// account itself.)
pub proof fn lemma_take_balances(ledger: Ledger, escrow: Escrow, key: Seq<u8>, taker: Seq<u8>)
    requires
        swap_check(ledger, escrow, key, taker) is Ok,
    ensures
        ({
            let after = swapped(ledger, escrow, key, taker);
            let maker = escrow.maker@;
            let a = escrow.token_a@;
            let b = escrow.token_b@;
            let fee = ledger.reserve(key, a);
            &&& !after.holds(key, a)
            &&& after.reserve_min == ledger.reserve_min
            &&& a != b ==> after.balance(taker, a) == ledger.balance(taker, a) + escrow.amount_a
            &&& a != b ==> after.balance(taker, b) == ledger.balance(taker, b) - escrow.amount_b
            &&& a == b ==> after.balance(taker, a) == ledger.balance(taker, a) + escrow.amount_a
                - escrow.amount_b
            &&& !(maker == key && a == b) ==> after.balance(maker, b) == ledger.balance(maker, b)
                + escrow.amount_b + (if b == native_id() {
                fee as int
            } else {
                0
            })
            &&& b != native_id() && fee > 0 ==> after.balance(maker, native_id())
                == ledger.balance(maker, native_id()) + fee
        }),
{
    let paid = ledger.transferred(escrow.token_b@, taker, escrow.maker@, escrow.amount_b);
    let moved = paid.transferred(escrow.token_a@, key, taker, escrow.amount_a);
    assert(moved.close_check(escrow.token_a@, key, escrow.maker@, true) is Ok);
}

/// What a successful refund does to the balances. The holding account is
/// gone, and the maker has `amount_a` more of the first asset and the reserve
/// of the holding account more of the native asset; where the first asset is
/// the native one, both are added to the same balance.
pub proof fn lemma_refund_balances(ledger: Ledger, escrow: Escrow, key: Seq<u8>)
    requires
        release_check(ledger, escrow, key, escrow.maker@, true) is Ok,
    ensures
        ({
            let after = released(ledger, escrow, key, escrow.maker@);
            let maker = escrow.maker@;
            let a = escrow.token_a@;
            let fee = ledger.reserve(key, a);
            &&& !after.holds(key, a)
            &&& after.reserve_min == ledger.reserve_min
            &&& after.balance(maker, a) == ledger.balance(maker, a) + escrow.amount_a + (if a
                == native_id() {
                fee as int
            } else {
                0
            })
            &&& a != native_id() && fee > 0 ==> after.balance(maker, native_id())
                == ledger.balance(maker, native_id()) + fee
        }),
{
    let moved = ledger.transferred(escrow.token_a@, key, escrow.maker@, escrow.amount_a);
    assert(moved.close_check(escrow.token_a@, key, escrow.maker@, true) is Ok);
}

/// An escrow that is made and then refunded, nothing else having happened,
/// leaves the ledger and the engine as they were before `make`: the maker
/// has the deposit and the reserve back, the holding account is gone, and
/// so is the record. Such a refund is always accepted.
pub proof fn lemma_make_refund_round_trip(
    book: EscrowBook,
    ledger: Ledger,
    maker: Address,
    seed: u64,
    amount_a: u64,
    amount_b: u64,
    token_a: Address,
    token_b: Address,
)
    requires
        book.make_check(ledger, maker@, seed, amount_a, amount_b, token_a@) is Ok,
    ensures
        ({
            let key = book.made_at(maker@, seed);
            let listed = book.made(maker, seed, amount_a, amount_b, token_a, token_b);
            let held = funded(ledger, maker@, token_a@, key, amount_a);
            &&& listed.refund_check(held, maker@, key) is Ok
            &&& released(held, listed.slots[key].escrow, key, maker@) == ledger
            &&& listed.settled(key) == book
        }),
{
    let key = book.made_at(maker@, seed);
    let listed = book.made(maker, seed, amount_a, amount_b, token_a, token_b);
    let held = funded(ledger, maker@, token_a@, key, amount_a);
    let escrow = listed.slots[key].escrow;
    let open = ledger.opened(token_a@, key, maker@, ledger.reserve_min);
    let back = held.transferred(token_a@, key, maker@, amount_a);
    assert(back.accounts =~= open.accounts);
    assert(released(held, escrow, key, maker@).accounts =~= ledger.accounts);
    assert(listed.settled(key).slots =~= book.slots);
}

} // verus!
