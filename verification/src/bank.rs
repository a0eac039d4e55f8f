use vstd::prelude::*;
use crate::address::native_id;
use crate::address::Address;
use crate::address::Key;
use crate::derive::Authority;
use crate::error::CustodyError;
use crate::registry::Registry;

verus! {

/// What identifies an account at the custody service: who holds it and in
/// which asset. The holder alone has authority over it.
#[derive(Clone, Copy, Debug, PartialEq, Eq)]
pub struct AccountKey {
    pub holder: Address,
    pub asset: Address,
}

impl View for AccountKey {
    type V = (Seq<u8>, Seq<u8>);

    open spec fn view(&self) -> (Seq<u8>, Seq<u8>) {
        (self.holder@, self.asset@)
    }
}

impl Key for AccountKey {
    fn same(&self, other: &AccountKey) -> (r: bool) {
        self.holder.same(&other.holder) && self.asset.same(&other.asset)
    }
}

/// An account: its balance, in units of its asset, and the storage fee
/// reserved with it, in units of the native asset.
#[derive(Clone, Copy, Debug, PartialEq, Eq, Structural)]
pub struct Account {
    pub balance: u64,
    pub reserve: u64,
}

/// The state of the custody service: the accounts by holder and asset, and
/// the least reserve that keeps an account allocated.
pub struct Ledger {
    pub reserve_min: u64,
    pub accounts: Map<(Seq<u8>, Seq<u8>), Account>,
}

impl Ledger {
    /// `holder` has an account in `asset`.
    pub open spec fn holds(self, holder: Seq<u8>, asset: Seq<u8>) -> bool {
        self.accounts.dom().contains((holder, asset))
    }

    /// The balance of `holder` in `asset`.
    pub open spec fn balance(self, holder: Seq<u8>, asset: Seq<u8>) -> u64 {
        self.accounts[(holder, asset)].balance
    }

    /// The storage fee reserved with the account of `holder` in `asset`.
    pub open spec fn reserve(self, holder: Seq<u8>, asset: Seq<u8>) -> u64 {
        self.accounts[(holder, asset)].reserve
    }

    /// The ledger with one account set to a new balance.
    pub open spec fn with_balance(self, holder: Seq<u8>, asset: Seq<u8>, balance: u64) -> Ledger {
        Ledger {
            accounts: self.accounts.insert(
                (holder, asset),
                Account { balance, reserve: self.reserve(holder, asset) },
            ),
            ..self
        }
    }

    /// Whether a transfer is accepted, and if not, the first reason in this
    /// order: the amount is zero or both ends are one holder; one end has no
    /// account in the asset; the authority does not stand for the sender;
    /// the sender holds too little; the receiver's balance would overflow.
    pub open spec fn transfer_check(
        self,
        asset: Seq<u8>,
        from: Seq<u8>,
        to: Seq<u8>,
        authorized: bool,
        amount: u64,
    ) -> Result<(), CustodyError> {
        if amount == 0 || from == to {
            Err(CustodyError::InvalidAmount)
        } else if !self.holds(from, asset) || !self.holds(to, asset) {
            Err(CustodyError::NotFound)
        } else if !authorized {
            Err(CustodyError::Unauthorized)
        } else if self.balance(from, asset) < amount {
            Err(CustodyError::InsufficientBalance)
        } else if self.balance(to, asset) + amount > u64::MAX {
            Err(CustodyError::InvalidAmount)
        } else {
            Ok(())
        }
    }

    /// The ledger after an accepted transfer: the sender's balance is less by
    /// `amount`, the receiver's more by `amount`, and nothing else differs.
    pub open spec fn transferred(self, asset: Seq<u8>, from: Seq<u8>, to: Seq<u8>, amount: u64) -> Ledger {
        self.with_balance(from, asset, (self.balance(from, asset) - amount) as u64).with_balance(
            to,
            asset,
            (self.balance(to, asset) + amount) as u64,
        )
    }

    /// The ledger after a transfer was asked for: changed if it was accepted,
    /// the same if not.
    pub open spec fn transfer(
        self,
        asset: Seq<u8>,
        from: Seq<u8>,
        to: Seq<u8>,
        authorized: bool,
        amount: u64,
    ) -> Ledger {
        if self.transfer_check(asset, from, to, authorized, amount) is Ok {
            self.transferred(asset, from, to, amount)
        } else {
            self
        }
    }

    /// Whether an account may be opened, and if not, the first reason in this
    /// order: the holder already has an account in the asset; then, where a
    /// reserve is asked for: the payer has no native account; the authority
    /// does not stand for the payer; the payer holds less than the reserve.
    pub open spec fn open_check(
        self,
        asset: Seq<u8>,
        holder: Seq<u8>,
        payer: Seq<u8>,
        authorized: bool,
        reserve: u64,
    ) -> Result<(), CustodyError> {
        if self.holds(holder, asset) {
            Err(CustodyError::AlreadyInitialized)
        } else if reserve == 0 {
            Ok(())
        } else if !self.holds(payer, native_id()) {
            Err(CustodyError::NotFound)
        } else if !authorized {
            Err(CustodyError::Unauthorized)
        } else if self.balance(payer, native_id()) < reserve {
            Err(CustodyError::InsufficientBalance)
        } else {
            Ok(())
        }
    }

    /// The ledger after an account was opened: the payer's native balance is
    /// less by the reserve, and the new account is empty and holds the
    /// reserve.
    pub open spec fn opened(self, asset: Seq<u8>, holder: Seq<u8>, payer: Seq<u8>, reserve: u64) -> Ledger {
        let paid = if reserve == 0 {
            self
        } else {
            self.with_balance(
                payer,
                native_id(),
                (self.balance(payer, native_id()) - reserve) as u64,
            )
        };
        Ledger {
            accounts: paid.accounts.insert((holder, asset), Account { balance: 0, reserve }),
            ..paid
        }
    }

    /// The ledger after the opening of an account was asked for.
    pub open spec fn open(
        self,
        asset: Seq<u8>,
        holder: Seq<u8>,
        payer: Seq<u8>,
        authorized: bool,
        reserve: u64,
    ) -> Ledger {
        if self.open_check(asset, holder, payer, authorized, reserve) is Ok {
            self.opened(asset, holder, payer, reserve)
        } else {
            self
        }
    }

    /// Whether an account may be closed, and if not, the first reason in this
    /// order: there is no such account; the authority does not stand for its
    /// holder; its balance is not zero; then, where it holds a reserve: the
    /// recipient has no native account other than the one being closed; the
    /// recipient's native balance would overflow.
    pub open spec fn close_check(
        self,
        asset: Seq<u8>,
        holder: Seq<u8>,
        recipient: Seq<u8>,
        authorized: bool,
    ) -> Result<(), CustodyError> {
        if !self.holds(holder, asset) {
            Err(CustodyError::NotFound)
        } else if !authorized {
            Err(CustodyError::Unauthorized)
        } else if self.balance(holder, asset) != 0 {
            Err(CustodyError::StaleState)
        } else if self.reserve(holder, asset) == 0 {
            Ok(())
        } else if (recipient, native_id()) == (holder, asset) || !self.holds(
            recipient,
            native_id(),
        ) {
            Err(CustodyError::NotFound)
        } else if self.balance(recipient, native_id()) + self.reserve(holder, asset) > u64::MAX {
            Err(CustodyError::InvalidAmount)
        } else {
            Ok(())
        }
    }

    /// The ledger after an account was closed: the account is gone and its
    /// reserve is added to the recipient's native balance.
    pub open spec fn closed(self, asset: Seq<u8>, holder: Seq<u8>, recipient: Seq<u8>) -> Ledger {
        let fee = self.reserve(holder, asset);
        let gone = Ledger { accounts: self.accounts.remove((holder, asset)), ..self };
        if fee == 0 {
            gone
        } else {
            gone.with_balance(
                recipient,
                native_id(),
                (gone.balance(recipient, native_id()) + fee) as u64,
            )
        }
    }

    /// The ledger after the closing of an account was asked for.
    pub open spec fn close(
        self,
        asset: Seq<u8>,
        holder: Seq<u8>,
        recipient: Seq<u8>,
        authorized: bool,
    ) -> Ledger {
        if self.close_check(asset, holder, recipient, authorized) is Ok {
            self.closed(asset, holder, recipient)
        } else {
            self
        }
    }

    /// Whether an amount can be issued to a holder: not if the balance would
    /// overflow.
    pub open spec fn fund_check(self, asset: Seq<u8>, holder: Seq<u8>, amount: u64) -> Result<
        (),
        CustodyError,
    > {
        if self.holds(holder, asset) && self.balance(holder, asset) + amount > u64::MAX {
            Err(CustodyError::InvalidAmount)
        } else {
            Ok(())
        }
    }

    /// The ledger after an amount was issued to a holder: added to the
    /// holder's account, which is opened without a reserve if it was not
    /// there.
    pub open spec fn funded(self, asset: Seq<u8>, holder: Seq<u8>, amount: u64) -> Ledger {
        if self.holds(holder, asset) {
            self.with_balance(holder, asset, (self.balance(holder, asset) + amount) as u64)
        } else {
            Ledger {
                accounts: self.accounts.insert((holder, asset), Account { balance: amount, reserve: 0 }),
                ..self
            }
        }
    }
}

/// The custody service: it owns the balances, and every movement of value
/// goes through `transfer`, `open_account` and `close_account`.
#[derive(Debug)]
pub struct Bank {
    reserve_min: u64,
    accounts: Registry<AccountKey, Account>,
}

impl View for Bank {
    type V = Ledger;

    closed spec fn view(&self) -> Ledger {
        Ledger { reserve_min: self.reserve_min, accounts: self.accounts@ }
    }
}

impl Bank {
    /// The bank's list of accounts holds no account twice.
    pub closed spec fn wf(&self) -> bool {
        self.accounts.wf()
    }

    /// A bank without accounts, in an environment where an account needs
    /// `reserve_min` native units to stay allocated.
    pub fn new(reserve_min: u64) -> (bank: Bank)
        ensures
            bank.wf(),
            bank@ == (Ledger { reserve_min, accounts: Map::empty() }),
    {
        Bank { reserve_min, accounts: Registry::new() }
    }

    /// The least reserve that keeps an account allocated.
    pub fn reserve_minimum(&self) -> (r: u64)
        ensures
            r == self@.reserve_min,
    {
        self.reserve_min
    }

    /// The account of `holder` in `asset`, if there is one.
    pub fn account(&self, holder: &Address, asset: &Address) -> (r: Option<Account>)
        requires
            self.wf(),
        ensures
            r == (if self@.holds(holder@, asset@) {
                Some(self@.accounts[(holder@, asset@)])
            } else {
                None
            }),
    {
        self.accounts.get(&AccountKey { holder: *holder, asset: *asset })
    }

    /// The balance of `holder` in `asset`, if `holder` has an account in it.
    pub fn balance_of(&self, holder: &Address, asset: &Address) -> (r: Option<u64>)
        requires
            self.wf(),
        ensures
            r == (if self@.holds(holder@, asset@) {
                Some(self@.balance(holder@, asset@))
            } else {
                None
            }),
    {
        match self.account(holder, asset) {
            Some(a) => Some(a.balance),
            None => None,
        }
    }

    /// Moves `amount` of `asset` from `from` to `to`, if `authority` stands
    /// for `from`. A refused transfer changes nothing.
    pub fn transfer(
        &mut self,
        asset: &Address,
        from: &Address,
        to: &Address,
        authority: &Authority,
        amount: u64,
    ) -> (r: Result<(), CustodyError>)
        requires
            old(self).wf(),
        ensures
            final(self).wf(),
            r == old(self)@.transfer_check(asset@, from@, to@, authority.proves(from@), amount),
            final(self)@ == old(self)@.transfer(
                asset@,
                from@,
                to@,
                authority.proves(from@),
                amount,
            ),
    {
        if amount == 0 || from.same(to) {
            return Err(CustodyError::InvalidAmount);
        }
        let from_key = AccountKey { holder: *from, asset: *asset };
        let to_key = AccountKey { holder: *to, asset: *asset };
        let source = match self.accounts.get(&from_key) {
            Some(a) => a,
            None => {
                return Err(CustodyError::NotFound);
            },
        };
        let target = match self.accounts.get(&to_key) {
            Some(a) => a,
            None => {
                return Err(CustodyError::NotFound);
            },
        };
        if !authority.authorizes(from) {
            return Err(CustodyError::Unauthorized);
        }
        if source.balance < amount {
            return Err(CustodyError::InsufficientBalance);
        }
        if target.balance > u64::MAX - amount {
            return Err(CustodyError::InvalidAmount);
        }
        self.accounts.insert(
            from_key,
            Account { balance: source.balance - amount, reserve: source.reserve },
        );
        self.accounts.insert(
            to_key,
            Account { balance: target.balance + amount, reserve: target.reserve },
        );
        assert(self@.accounts =~= old(self)@.transferred(asset@, from@, to@, amount).accounts);
        Ok(())
    }

    /// Opens an empty account for `holder` in `asset`. Where `reserve` is not
    /// zero, it is taken from the native balance of `payer`, for whom
    /// `authority` must stand, and kept with the new account until it is
    /// closed. A refused opening changes nothing.
    pub fn open_account(
        &mut self,
        asset: &Address,
        holder: &Address,
        payer: &Address,
        authority: &Authority,
        reserve: u64,
    ) -> (r: Result<(), CustodyError>)
        requires
            old(self).wf(),
        ensures
            final(self).wf(),
            r == old(self)@.open_check(asset@, holder@, payer@, authority.proves(payer@), reserve),
            final(self)@ == old(self)@.open(
                asset@,
                holder@,
                payer@,
                authority.proves(payer@),
                reserve,
            ),
    {
        let key = AccountKey { holder: *holder, asset: *asset };
        if self.accounts.contains(&key) {
            return Err(CustodyError::AlreadyInitialized);
        }
        if reserve > 0 {
            let payer_key = AccountKey { holder: *payer, asset: Address::native() };
            let wallet = match self.accounts.get(&payer_key) {
                Some(a) => a,
                None => {
                    return Err(CustodyError::NotFound);
                },
            };
            if !authority.authorizes(payer) {
                return Err(CustodyError::Unauthorized);
            }
            if wallet.balance < reserve {
                return Err(CustodyError::InsufficientBalance);
            }
            self.accounts.insert(
                payer_key,
                Account { balance: wallet.balance - reserve, reserve: wallet.reserve },
            );
        }
        self.accounts.insert(key, Account { balance: 0, reserve });
        assert(self@.accounts =~= old(self)@.opened(asset@, holder@, payer@, reserve).accounts);
        Ok(())
    }

    /// Closes the empty account of `holder` in `asset`, if `authority` stands
    /// for `holder`, and adds the reserve kept with it to the native balance
    /// of `recipient`. A refused closing changes nothing.
    pub fn close_account(
        &mut self,
        asset: &Address,
        holder: &Address,
        recipient: &Address,
        authority: &Authority,
    ) -> (r: Result<(), CustodyError>)
        requires
            old(self).wf(),
        ensures
            final(self).wf(),
            r == old(self)@.close_check(asset@, holder@, recipient@, authority.proves(holder@)),
            final(self)@ == old(self)@.close(
                asset@,
                holder@,
                recipient@,
                authority.proves(holder@),
            ),
    {
        let key = AccountKey { holder: *holder, asset: *asset };
        let account = match self.accounts.get(&key) {
            Some(a) => a,
            None => {
                return Err(CustodyError::NotFound);
            },
        };
        if !authority.authorizes(holder) {
            return Err(CustodyError::Unauthorized);
        }
        if account.balance != 0 {
            return Err(CustodyError::StaleState);
        }
        if account.reserve > 0 {
            let to_key = AccountKey { holder: *recipient, asset: Address::native() };
            if to_key.same(&key) {
                return Err(CustodyError::NotFound);
            }
            let wallet = match self.accounts.get(&to_key) {
                Some(a) => a,
                None => {
                    return Err(CustodyError::NotFound);
                },
            };
            if wallet.balance > u64::MAX - account.reserve {
                return Err(CustodyError::InvalidAmount);
            }
            self.accounts.remove(&key);
            self.accounts.insert(
                to_key,
                Account { balance: wallet.balance + account.reserve, reserve: wallet.reserve },
            );
        } else {
            self.accounts.remove(&key);
        }
        assert(self@.accounts =~= old(self)@.closed(asset@, holder@, recipient@).accounts);
        Ok(())
    }

    /// Issues `amount` of `asset` to `holder`, opening the account without a
    /// reserve if it is not there. This is how balances come to exist; the
    /// managers never call it.
    pub fn fund(&mut self, asset: &Address, holder: &Address, amount: u64) -> (r: Result<
        (),
        CustodyError,
    >)
        requires
            old(self).wf(),
        ensures
            final(self).wf(),
            r == old(self)@.fund_check(asset@, holder@, amount),
            final(self)@ == (if r is Ok {
                old(self)@.funded(asset@, holder@, amount)
            } else {
                old(self)@
            }),
    {
        let key = AccountKey { holder: *holder, asset: *asset };
        match self.accounts.get(&key) {
            Some(a) => {
                if a.balance > u64::MAX - amount {
                    return Err(CustodyError::InvalidAmount);
                }
                self.accounts.insert(key, Account { balance: a.balance + amount, reserve: a.reserve });
            },
            None => {
                self.accounts.insert(key, Account { balance: amount, reserve: 0 });
            },
        }
        assert(self@.accounts =~= old(self)@.funded(asset@, holder@, amount).accounts);
        Ok(())
    }

    /// A copy of the bank, to go back to when an operation fails midway.
    pub fn snapshot(&self) -> (r: Bank)
        requires
            self.wf(),
        ensures
            r.wf(),
            r@ == self@,
    {
        Bank { reserve_min: self.reserve_min, accounts: self.accounts.snapshot() }
    }
}

/// What an accepted transfer does: the sender holds exactly `amount` less,
/// which is strictly less than before, the receiver exactly `amount` more,
/// their sum is what it was, and no other account, no reserve and no
/// existence of an account has changed.
pub proof fn lemma_transfer_moves_amount(
    ledger: Ledger,
    asset: Seq<u8>,
    from: Seq<u8>,
    to: Seq<u8>,
    authorized: bool,
    amount: u64,
)
    requires
        ledger.transfer_check(asset, from, to, authorized, amount) is Ok,
    ensures
        ({
            let after = ledger.transfer(asset, from, to, authorized, amount);
            &&& after.balance(from, asset) == ledger.balance(from, asset) - amount
            &&& after.balance(from, asset) < ledger.balance(from, asset)
            &&& after.balance(to, asset) == ledger.balance(to, asset) + amount
            &&& after.balance(from, asset) + after.balance(to, asset) == ledger.balance(from, asset)
                + ledger.balance(to, asset)
            &&& after.reserve_min == ledger.reserve_min
            &&& after.accounts.dom() == ledger.accounts.dom()
            &&& forall|h: Seq<u8>, a: Seq<u8>|
                (h, a) != (from, asset) && (h, a) != (to, asset) ==> #[trigger] after.accounts[(h, a)]
                    == ledger.accounts[(h, a)]
            &&& forall|h: Seq<u8>, a: Seq<u8>| #[trigger]
                after.reserve(h, a) == ledger.reserve(h, a)
        }),
{
    let after = ledger.transfer(asset, from, to, authorized, amount);
    assert(after.accounts.dom() =~= ledger.accounts.dom());
}

/// An account that is opened and, still empty, closed again with its reserve
/// going back to the payer leaves the ledger as it was.
pub proof fn lemma_open_close_round_trip(
    ledger: Ledger,
    asset: Seq<u8>,
    holder: Seq<u8>,
    payer: Seq<u8>,
    reserve: u64,
)
    requires
        ledger.open_check(asset, holder, payer, true, reserve) is Ok,
    ensures
        ledger.opened(asset, holder, payer, reserve).close_check(asset, holder, payer, true) is Ok,
        ledger.opened(asset, holder, payer, reserve).closed(asset, holder, payer) == ledger,
{
    let open = ledger.opened(asset, holder, payer, reserve);
    assert(open.closed(asset, holder, payer).accounts =~= ledger.accounts);
}

} // verus!
