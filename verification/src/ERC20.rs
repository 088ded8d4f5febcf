//! The token ledger: balances, allowances and the total supply, with the
//! rule that the supply always equals the sum of all balances.

use crate::primitives::{zero_address, Address, U256};
use crate::table::{
    lemma_map_sum_bounds, lemma_map_sum_insert, map_sum, value_or_zero, Key, Table,
};
use crate::utility::{Erc20Error, Event};
use core::marker::PhantomData;
use vstd::prelude::*;

verus! {

/// The fixed description of a token.
pub trait Erc20Params {
    const NAME: &'static str;

    const SYMBOL: &'static str;

    const DECIMALS: u8;
}

/// The numbers that a table of amounts denotes.
pub open spec fn amounts<K>(table: Map<K, U256>) -> Map<K, nat> {
    Map::new(|k: K| table.contains_key(k), |k: K| table[k]@)
}

/// Writing an amount into a table writes its number into what the table
/// denotes.
pub proof fn lemma_amounts_insert<K>(table: Map<K, U256>, key: K, value: U256)
    ensures
        amounts(table.insert(key, value)) == amounts(table).insert(key, value@),
        table.dom().finite() ==> amounts(table).dom().finite(),
{
    assert(amounts(table.insert(key, value)) =~= amounts(table).insert(key, value@));
    assert(amounts(table).dom() =~= table.dom());
}

/// The amount that a table holds for `key`; zero where it holds none.
fn amount_in<K: Key>(table: &Table<K, U256>, key: &K) -> (r: U256)
    requires
        table.wf(),
    ensures
        r@ == value_or_zero(amounts(table@), *key),
{
    match table.get(key) {
        Some(amount) => *amount,
        None => U256::zero(),
    }
}

/// The ledger as a mathematical object.
pub struct LedgerState {
    /// Who may mint.
    pub owner: Address,
    /// What each account holds; an account that is absent holds nothing.
    pub balances: Map<Address, nat>,
    /// What each spender may draw from each owner, keyed by (owner, spender).
    pub allowances: Map<(Address, Address), nat>,
    /// The number of tokens in existence.
    pub total_supply: nat,
    /// The events recorded so far, oldest first.
    pub log: Seq<Event>,
}

impl LedgerState {
    /// The ledger that nobody owns yet and that holds nothing.
    pub open spec fn empty() -> LedgerState {
        LedgerState {
            owner: zero_address(),
            balances: Map::empty(),
            allowances: Map::empty(),
            total_supply: 0,
            log: Seq::empty(),
        }
    }

    /// What `account` holds.
    pub open spec fn balance_of(self, account: Address) -> nat {
        value_or_zero(self.balances, account)
    }

    /// What `spender` may still draw from `owner`.
    pub open spec fn allowance(self, owner: Address, spender: Address) -> nat {
        value_or_zero(self.allowances, (owner, spender))
    }

    /// Conservation: the supply is the sum of all balances.
    pub open spec fn conserved(self) -> bool {
        &&& self.balances.dom().finite()
        &&& self.total_supply == map_sum(self.balances)
    }

    /// The same ledger with one more event in its log.
    pub open spec fn record(self, event: Event) -> LedgerState {
        LedgerState { log: self.log.push(event), ..self }
    }

    /// The same ledger under a new owner.
    pub open spec fn with_owner(self, owner: Address) -> LedgerState {
        LedgerState { owner, ..self }
    }

    /// `Ok` for the owner, `OnlyOwner` for everybody else.
    pub open spec fn only_owner(self, caller: Address) -> Result<(), Erc20Error> {
        if caller != self.owner {
            Err(Erc20Error::OnlyOwner)
        } else {
            Ok(())
        }
    }

    /// Whether a mint by `caller` to `to` is accepted.
    pub open spec fn mint_outcome(self, caller: Address, to: Address) -> Result<(), Erc20Error> {
        if caller != self.owner {
            Err(Erc20Error::OnlyOwner)
        } else if to == zero_address() {
            Err(Erc20Error::AddressZero { zero: to })
        } else {
            Ok(())
        }
    }

    /// The ledger after `value` new tokens were credited to `to`.
    pub open spec fn credit_new(self, to: Address, value: U256) -> LedgerState {
        LedgerState {
            balances: self.balances.insert(to, self.balance_of(to) + value@),
            total_supply: self.total_supply + value@,
            log: self.log.push(Event::Transfer { from: zero_address(), to, value }),
            ..self
        }
    }

    /// The ledger after `caller` asked to mint `value` to `to`.
    pub open spec fn mint(self, caller: Address, to: Address, value: U256) -> LedgerState {
        if self.mint_outcome(caller, to) is Ok {
            self.credit_new(to, value)
        } else {
            self
        }
    }

    /// Whether moving `value` from `from` to `to` on behalf of `caller` is
    /// accepted.
    pub open spec fn move_outcome(self, caller: Address, from: Address, to: Address, value: U256)
        -> Result<(), Erc20Error> {
        if caller == zero_address() {
            Err(Erc20Error::AddressZero { zero: caller })
        } else if to == zero_address() {
            Err(Erc20Error::AddressZero { zero: to })
        } else if self.balance_of(from) < value@ {
            Err(
                Erc20Error::InsufficientBalance {
                    from,
                    have: U256::of(self.balance_of(from)),
                    want: value,
                },
            )
        } else {
            Ok(())
        }
    }

    /// The ledger after `value` left `from` and reached `to`.
    pub open spec fn moved(self, from: Address, to: Address, value: U256) -> LedgerState {
        let debited = self.balances.insert(from, (self.balance_of(from) - value@) as nat);
        LedgerState {
            balances: debited.insert(to, value_or_zero(debited, to) + value@),
            log: self.log.push(Event::Transfer { from, to, value }),
            ..self
        }
    }

    /// The ledger after `caller` asked to move `value` from `from` to `to`.
    pub open spec fn move_tokens(self, caller: Address, from: Address, to: Address, value: U256)
        -> LedgerState {
        if self.move_outcome(caller, from, to, value) is Ok {
            self.moved(from, to, value)
        } else {
            self
        }
    }

    /// Whether a transfer of `value` from `caller` to `to` is accepted, and
    /// with what answer.
    pub open spec fn transfer_outcome(self, caller: Address, to: Address, value: U256) -> Result<
        bool,
        Erc20Error,
    > {
        match self.move_outcome(caller, caller, to, value) {
            Ok(_) => Ok(true),
            Err(e) => Err(e),
        }
    }

    /// The ledger after `caller` asked to transfer `value` to `to`.
    pub open spec fn transfer(self, caller: Address, to: Address, value: U256) -> LedgerState {
        self.move_tokens(caller, caller, to, value)
    }

    /// Whether `caller` may draw `value` from `from` and send it to `to`,
    /// and with what answer.
    pub open spec fn transfer_from_outcome(
        self,
        caller: Address,
        from: Address,
        to: Address,
        value: U256,
    ) -> Result<bool, Erc20Error> {
        if caller == zero_address() {
            Err(Erc20Error::AddressZero { zero: caller })
        } else if to == zero_address() {
            Err(Erc20Error::AddressZero { zero: to })
        } else if self.allowance(from, caller) < value@ {
            Err(
                Erc20Error::InsufficientAllowance {
                    owner: from,
                    spender: caller,
                    have: U256::of(self.allowance(from, caller)),
                    want: value,
                },
            )
        } else {
            match self.move_outcome(caller, from, to, value) {
                Ok(_) => Ok(true),
                Err(e) => Err(e),
            }
        }
    }

    /// The ledger after `caller` asked to draw `value` from `from` and send
    /// it to `to`.
    pub open spec fn transfer_from(self, caller: Address, from: Address, to: Address, value: U256)
        -> LedgerState {
        if self.transfer_from_outcome(caller, from, to, value) is Ok {
            LedgerState {
                allowances: self.allowances.insert(
                    (from, caller),
                    (self.allowance(from, caller) - value@) as nat,
                ),
                ..self
            }.moved(from, to, value)
        } else {
            self
        }
    }

    /// Whether an approval of `spender` is accepted, and with what answer.
    pub open spec fn approve_outcome(self, spender: Address) -> Result<bool, Erc20Error> {
        if spender == zero_address() {
            Err(Erc20Error::AddressZero { zero: spender })
        } else {
            Ok(true)
        }
    }

    /// The ledger after `caller` asked to let `spender` draw up to `value`.
    pub open spec fn approve(self, caller: Address, spender: Address, value: U256) -> LedgerState {
        if self.approve_outcome(spender) is Ok {
            LedgerState {
                allowances: self.allowances.insert((caller, spender), value@),
                log: self.log.push(Event::Approval { owner: caller, spender, value }),
                ..self
            }
        } else {
            self
        }
    }

    /// Whether `caller` may burn `value`.
    pub open spec fn burn_outcome(self, caller: Address, value: U256) -> Result<(), Erc20Error> {
        if self.balance_of(caller) < value@ {
            Err(
                Erc20Error::InsufficientBalance {
                    from: caller,
                    have: U256::of(self.balance_of(caller)),
                    want: value,
                },
            )
        } else {
            Ok(())
        }
    }

    /// The ledger after `caller` asked to burn `value`.
    pub open spec fn burn(self, caller: Address, value: U256) -> LedgerState {
        if self.burn_outcome(caller, value) is Ok {
            LedgerState {
                balances: self.balances.insert(
                    caller,
                    (self.balance_of(caller) - value@) as nat,
                ),
                total_supply: (self.total_supply - value@) as nat,
                log: self.log.push(Event::Transfer { from: caller, to: zero_address(), value }),
                ..self
            }
        } else {
            self
        }
    }

    /// Crediting new tokens keeps the supply equal to the sum of balances.
    pub proof fn lemma_credit_new_conserves(self, to: Address, value: U256)
        requires
            self.conserved(),
        ensures
            self.credit_new(to, value).conserved(),
    {
        lemma_map_sum_insert(self.balances, to, self.balance_of(to) + value@);
    }

    /// Moving tokens between accounts keeps the sum of balances, as long as
    /// the sender holds what is moved.
    pub proof fn lemma_moved_conserves(self, from: Address, to: Address, value: U256)
        requires
            self.conserved(),
            value@ <= self.balance_of(from),
        ensures
            self.moved(from, to, value).conserved(),
            value_or_zero(
                self.balances.insert(from, (self.balance_of(from) - value@) as nat),
                to,
            ) + value@ <= self.total_supply,
    {
        let debited = self.balances.insert(from, (self.balance_of(from) - value@) as nat);
        lemma_map_sum_insert(self.balances, from, (self.balance_of(from) - value@) as nat);
        lemma_map_sum_insert(debited, to, value_or_zero(debited, to) + value@);
        lemma_map_sum_bounds(debited, to);
    }

    /// Burning keeps the supply equal to the sum of balances, as long as the
    /// caller holds what is burnt.
    pub proof fn lemma_burn_conserves(self, caller: Address, value: U256)
        requires
            self.conserved(),
        ensures
            self.burn(caller, value).conserved(),
            self.balance_of(caller) <= self.total_supply,
    {
        lemma_map_sum_insert(self.balances, caller, (self.balance_of(caller) - value@) as nat);
        lemma_map_sum_bounds(self.balances, caller);
    }

    /// Conservation: every operation of the ledger, accepted or rejected,
    /// leaves the supply equal to the sum of all balances.
    pub proof fn law_conservation(
        self,
        caller: Address,
        from: Address,
        to: Address,
        value: U256,
    )
        requires
            self.conserved(),
        ensures
            self.mint(caller, to, value).conserved(),
            self.transfer(caller, to, value).conserved(),
            self.move_tokens(caller, from, to, value).conserved(),
            self.transfer_from(caller, from, to, value).conserved(),
            self.approve(caller, to, value).conserved(),
            self.burn(caller, value).conserved(),
            self.record(Event::Transfer { from, to, value }).conserved(),
            self.with_owner(caller).conserved(),
    {
        self.lemma_credit_new_conserves(to, value);
        if self.move_outcome(caller, caller, to, value) is Ok {
            self.lemma_moved_conserves(caller, to, value);
        }
        if self.move_outcome(caller, from, to, value) is Ok {
            self.lemma_moved_conserves(from, to, value);
        }
        if self.transfer_from_outcome(caller, from, to, value) is Ok {
            let drawn = LedgerState {
                allowances: self.allowances.insert(
                    (from, caller),
                    (self.allowance(from, caller) - value@) as nat,
                ),
                ..self
            };
            drawn.lemma_moved_conserves(from, to, value);
        }
        self.lemma_burn_conserves(caller, value);
    }

    /// No overdraft: a transfer or a burn of more than the account holds is
    /// rejected with `InsufficientBalance`, a draw of more than was allowed
    /// with `InsufficientAllowance`, and the ledger stays as it was: no
    /// balance and no allowance ever goes below zero.
    pub proof fn law_no_overdraft(
        self,
        caller: Address,
        from: Address,
        to: Address,
        value: U256,
    )
        requires
            caller != zero_address(),
            to != zero_address(),
        ensures
            self.balance_of(caller) < value@ ==> {
                &&& self.transfer_outcome(caller, to, value) == Err::<bool, Erc20Error>(
                    Erc20Error::InsufficientBalance {
                        from: caller,
                        have: U256::of(self.balance_of(caller)),
                        want: value,
                    },
                )
                &&& self.transfer(caller, to, value) == self
                &&& self.burn_outcome(caller, value) == Err::<(), Erc20Error>(
                    Erc20Error::InsufficientBalance {
                        from: caller,
                        have: U256::of(self.balance_of(caller)),
                        want: value,
                    },
                )
                &&& self.burn(caller, value) == self
            },
            self.allowance(from, caller) < value@ ==> {
                &&& self.transfer_from_outcome(caller, from, to, value) == Err::<bool, Erc20Error>(
                    Erc20Error::InsufficientAllowance {
                        owner: from,
                        spender: caller,
                        have: U256::of(self.allowance(from, caller)),
                        want: value,
                    },
                )
                &&& self.transfer_from(caller, from, to, value) == self
            },
            self.allowance(from, caller) >= value@ && self.balance_of(from) < value@ ==> {
                &&& self.transfer_from_outcome(caller, from, to, value) == Err::<bool, Erc20Error>(
                    Erc20Error::InsufficientBalance {
                        from,
                        have: U256::of(self.balance_of(from)),
                        want: value,
                    },
                )
                &&& self.transfer_from(caller, from, to, value) == self
            },
            self.transfer_outcome(caller, to, value) is Ok ==> self.transfer(
                caller,
                to,
                value,
            ).balance_of(caller) + value@ == self.balance_of(caller) + (if caller == to {
                value@
            } else {
                0
            }),
            self.burn_outcome(caller, value) is Ok ==> self.burn(caller, value).balance_of(caller)
                + value@ == self.balance_of(caller),
            self.transfer_from_outcome(caller, from, to, value) is Ok ==> self.transfer_from(
                caller,
                from,
                to,
                value,
            ).allowance(from, caller) + value@ == self.allowance(from, caller),
    {
    }

    /// Only the owner mints: from anybody else a mint is rejected with
    /// `OnlyOwner` and changes nothing.
    pub proof fn law_mint_owner_only(self, caller: Address, to: Address, value: U256)
        requires
            caller != self.owner,
        ensures
            self.mint_outcome(caller, to) == Err::<(), Erc20Error>(Erc20Error::OnlyOwner),
            self.mint(caller, to, value) == self,
    {
    }

    /// Approve, then draw: once `holder` has allowed `spender` the amount
    /// `value` and holds that much, `spender` can send exactly `value` from
    /// `holder` to `to`. Afterwards the allowance is used up, `holder` has
    /// `value` less and `to` has `value` more.
    pub proof fn law_approve_then_transfer_from(
        self,
        holder: Address,
        spender: Address,
        to: Address,
        value: U256,
    )
        requires
            spender != zero_address(),
            to != zero_address(),
            value@ <= self.balance_of(holder),
        ensures
            self.approve_outcome(spender) == Ok::<bool, Erc20Error>(true),
            self.approve(holder, spender, value).allowance(holder, spender) == value@,
            self.approve(holder, spender, value).transfer_from_outcome(spender, holder, to, value)
                == Ok::<bool, Erc20Error>(true),
            ({
                let done = self.approve(holder, spender, value).transfer_from(
                    spender,
                    holder,
                    to,
                    value,
                );
                &&& done.allowance(holder, spender) == 0
                &&& holder != to ==> done.balance_of(holder) == self.balance_of(holder) - value@
                &&& holder != to ==> done.balance_of(to) == self.balance_of(to) + value@
                &&& holder == to ==> done.balance_of(holder) == self.balance_of(holder)
                &&& done.total_supply == self.total_supply
            }),
    {
    }
}

/// The token ledger. `T` names the token.
pub struct Erc20<T: Erc20Params> {
    owner: Address,
    balances: Table<Address, U256>,
    allowances: Table<(Address, Address), U256>,
    total_supply: U256,
    log: Vec<Event>,
    phantom: PhantomData<T>,
}

impl<T: Erc20Params> View for Erc20<T> {
    type V = LedgerState;

    closed spec fn view(&self) -> LedgerState {
        LedgerState {
            owner: self.owner,
            balances: amounts(self.balances@),
            allowances: amounts(self.allowances@),
            total_supply: self.total_supply@,
            log: self.log@,
        }
    }
}

impl<T: Erc20Params> Erc20<T> {
    /// The ledger is well formed: its tables are, and the supply equals the
    /// sum of the balances.
    pub closed spec fn wf(&self) -> bool {
        &&& self.balances.wf()
        &&& self.allowances.wf()
        &&& self@.conserved()
    }

    /// Conservation: in every well-formed ledger the total supply is the sum
    /// of all balances, and it fits in 256 bits.
    pub proof fn lemma_conservation(&self)
        requires
            self.wf(),
        ensures
            self@.balances.dom().finite(),
            self@.total_supply == map_sum(self@.balances),
            self@.total_supply < U256::modulus(),
    {
        self.total_supply.lemma_bounded();
    }

    /// A ledger without owner, tokens or events.
    pub fn new() -> (r: Self)
        ensures
            r.wf(),
            r@ == LedgerState::empty(),
    {
        let r = Erc20 {
            owner: Address::zero(),
            balances: Table::new(),
            allowances: Table::new(),
            total_supply: U256::zero(),
            log: Vec::new(),
            phantom: PhantomData,
        };
        proof {
            assert(r@.balances =~= Map::<Address, nat>::empty());
            assert(r@.allowances =~= Map::<(Address, Address), nat>::empty());
            assert(r@.log =~= Seq::<Event>::empty());
        }
        r
    }

    /// The token's name.
    pub fn name() -> (r: String)
        ensures
            r@ == T::NAME@,
    {
        T::NAME.to_owned()
    }

    /// The token's symbol.
    pub fn symbol() -> (r: String)
        ensures
            r@ == T::SYMBOL@,
    {
        T::SYMBOL.to_owned()
    }

    /// The number of decimal places in which amounts are shown.
    pub fn decimals() -> (r: u8)
        ensures
            r == T::DECIMALS,
    {
        T::DECIMALS
    }

    /// The number of tokens in existence.
    pub fn total_supply(&self) -> (r: U256)
        ensures
            r@ == self@.total_supply,
    {
        self.total_supply
    }

    /// What `owner` holds; zero for an account never seen.
    pub fn balance_of(&self, owner: Address) -> (r: U256)
        requires
            self.wf(),
        ensures
            r@ == self@.balance_of(owner),
    {
        amount_in(&self.balances, &owner)
    }

    /// What `spender` may still draw from `owner`; zero where nothing was
    /// approved.
    pub fn allowance(&self, owner: Address, spender: Address) -> (r: U256)
        requires
            self.wf(),
        ensures
            r@ == self@.allowance(owner, spender),
    {
        amount_in(&self.allowances, &(owner, spender))
    }

    /// The events recorded so far, oldest first.
    pub fn events(&self) -> (r: &Vec<Event>)
        ensures
            r@ == self@.log,
    {
        &self.log
    }

    /// Makes `owner` the one who may mint.
    pub fn set_owner(&mut self, owner: Address)
        requires
            old(self).wf(),
        ensures
            final(self).wf(),
            final(self)@ == old(self)@.with_owner(owner),
    {
        self.owner = owner;
    }

    /// Appends `event` to the log.
    pub fn emit(&mut self, event: Event)
        requires
            old(self).wf(),
        ensures
            final(self).wf(),
            final(self)@ == old(self)@.record(event),
    {
        self.log.push(event);
    }

    /// Rejects every caller but the owner.
    pub fn only_owner(&self, caller: Address) -> (r: Result<(), Erc20Error>)
        ensures
            r == self@.only_owner(caller),
    {
        if caller != self.owner {
            return Err(Erc20Error::OnlyOwner);
        }
        Ok(())
    }

    /// Rejects the zero address.
    pub fn address_zero_check(addr: &Address) -> (r: Result<(), Erc20Error>)
        ensures
            r == if *addr == zero_address() {
                Err::<(), Erc20Error>(Erc20Error::AddressZero { zero: *addr })
            } else {
                Ok::<(), Erc20Error>(())
            },
    {
        if addr.is_zero() {
            return Err(Erc20Error::AddressZero { zero: *addr });
        }
        Ok(())
    }

    /// Whether `value` new tokens can be created without the supply leaving
    /// 256 bits.
    pub fn can_mint(&self, value: U256) -> (r: bool)
        ensures
            r == (self@.total_supply + value@ < U256::modulus()),
    {
        self.total_supply.checked_add(value).is_some()
    }

    /// Creates `value` new tokens and credits them to `address`. Only the
    /// owner may do so, and not to the zero address. The supply must stay
    /// within 256 bits.
    pub fn mint(&mut self, caller: Address, address: Address, value: U256) -> (r: Result<
        (),
        Erc20Error,
    >)
        requires
            old(self).wf(),
            old(self)@.mint_outcome(caller, address) is Ok ==> old(self)@.total_supply + value@
                < U256::modulus(),
        ensures
            final(self).wf(),
            r == old(self)@.mint_outcome(caller, address),
            final(self)@ == old(self)@.mint(caller, address, value),
    {
        if let Err(e) = self.only_owner(caller) {
            return Err(e);
        }
        if let Err(e) = Self::address_zero_check(&address) {
            return Err(e);
        }
        let balance = self.balance_of(address);
        proof {
            lemma_map_sum_bounds(self@.balances, address);
            old(self)@.lemma_credit_new_conserves(address, value);
            self.balances.lemma_finite();
        }
        let new_balance = balance.checked_add(value).unwrap();
        let new_supply = self.total_supply.checked_add(value).unwrap();
        proof {
            U256::lemma_view_of(balance@ + value@);
            U256::lemma_view_of(self.total_supply@ + value@);
            lemma_amounts_insert(self.balances@, address, new_balance);
        }
        self.balances.insert(address, new_balance);
        self.total_supply = new_supply;
        self.log.push(Event::Transfer { from: Address::zero(), to: address, value });
        Ok(())
    }

    /// Moves `value` from `from` to `to` on behalf of `caller`. Neither the
    /// caller nor the recipient may be the zero address, and `from` must hold
    /// at least `value`.
    pub fn _transfer(&mut self, caller: Address, from: Address, to: Address, value: U256) -> (r:
        Result<(), Erc20Error>)
        requires
            old(self).wf(),
        ensures
            final(self).wf(),
            r == old(self)@.move_outcome(caller, from, to, value),
            final(self)@ == old(self)@.move_tokens(caller, from, to, value),
    {
        if let Err(e) = Self::address_zero_check(&caller) {
            return Err(e);
        }
        if let Err(e) = Self::address_zero_check(&to) {
            return Err(e);
        }
        let old_sender_balance = self.balance_of(from);
        let new_sender_balance = match old_sender_balance.checked_sub(value) {
            Some(rest) => rest,
            None => {
                proof {
                    old_sender_balance.lemma_of_view();
                }
                return Err(
                    Erc20Error::InsufficientBalance { from, have: old_sender_balance, want: value },
                );
            },
        };
        proof {
            old_sender_balance.lemma_bounded();
            U256::lemma_view_of((old_sender_balance@ - value@) as nat);
            old(self)@.lemma_moved_conserves(from, to, value);
            self.lemma_conservation();
            lemma_amounts_insert(self.balances@, from, new_sender_balance);
        }
        self.balances.insert(from, new_sender_balance);
        let old_to_balance = amount_in(&self.balances, &to);
        let new_to_balance = old_to_balance.checked_add(value).unwrap();
        proof {
            U256::lemma_view_of(old_to_balance@ + value@);
            lemma_amounts_insert(self.balances@, to, new_to_balance);
        }
        self.balances.insert(to, new_to_balance);
        self.log.push(Event::Transfer { from, to, value });
        Ok(())
    }

    /// Sends `value` from the caller's account to `to`.
    pub fn transfer(&mut self, caller: Address, to: Address, value: U256) -> (r: Result<
        bool,
        Erc20Error,
    >)
        requires
            old(self).wf(),
        ensures
            final(self).wf(),
            r == old(self)@.transfer_outcome(caller, to, value),
            final(self)@ == old(self)@.transfer(caller, to, value),
    {
        match self._transfer(caller, caller, to, value) {
            Ok(_) => Ok(true),
            Err(e) => Err(e),
        }
    }

    /// Sends `value` from `from` to `to`, drawing on what `from` has allowed
    /// the caller. The allowance shrinks by `value`.
    pub fn transfer_from(&mut self, caller: Address, from: Address, to: Address, value: U256) -> (r:
        Result<bool, Erc20Error>)
        requires
            old(self).wf(),
        ensures
            final(self).wf(),
            r == old(self)@.transfer_from_outcome(caller, from, to, value),
            final(self)@ == old(self)@.transfer_from(caller, from, to, value),
    {
        if let Err(e) = Self::address_zero_check(&caller) {
            return Err(e);
        }
        if let Err(e) = Self::address_zero_check(&to) {
            return Err(e);
        }
        let old_allowance = self.allowance(from, caller);
        let new_allowance = match old_allowance.checked_sub(value) {
            Some(rest) => rest,
            None => {
                proof {
                    old_allowance.lemma_of_view();
                }
                return Err(
                    Erc20Error::InsufficientAllowance {
                        owner: from,
                        spender: caller,
                        have: old_allowance,
                        want: value,
                    },
                );
            },
        };
        let balance = self.balance_of(from);
        if balance.lt(value) {
            proof {
                balance.lemma_of_view();
            }
            return Err(Erc20Error::InsufficientBalance { from, have: balance, want: value });
        }
        proof {
            old_allowance.lemma_bounded();
            U256::lemma_view_of((old_allowance@ - value@) as nat);
            lemma_amounts_insert(self.allowances@, (from, caller), new_allowance);
        }
        self.allowances.insert((from, caller), new_allowance);
        match self._transfer(caller, from, to, value) {
            Ok(_) => Ok(true),
            Err(e) => Err(e),
        }
    }

    /// Lets `spender` draw up to `value` from the caller's account, in place
    /// of whatever was allowed before.
    pub fn approve(&mut self, caller: Address, spender: Address, value: U256) -> (r: Result<
        bool,
        Erc20Error,
    >)
        requires
            old(self).wf(),
        ensures
            final(self).wf(),
            r == old(self)@.approve_outcome(spender),
            final(self)@ == old(self)@.approve(caller, spender, value),
    {
        if let Err(e) = Self::address_zero_check(&spender) {
            return Err(e);
        }
        proof {
            lemma_amounts_insert(self.allowances@, (caller, spender), value);
        }
        self.allowances.insert((caller, spender), value);
        self.log.push(Event::Approval { owner: caller, spender, value });
        Ok(true)
    }

    /// Destroys `value` of the caller's tokens.
    pub fn burn(&mut self, caller: Address, value: U256) -> (r: Result<(), Erc20Error>)
        requires
            old(self).wf(),
        ensures
            final(self).wf(),
            r == old(self)@.burn_outcome(caller, value),
            final(self)@ == old(self)@.burn(caller, value),
    {
        let old_balance = self.balance_of(caller);
        let new_balance = match old_balance.checked_sub(value) {
            Some(rest) => rest,
            None => {
                proof {
                    old_balance.lemma_of_view();
                }
                return Err(
                    Erc20Error::InsufficientBalance { from: caller, have: old_balance, want: value },
                );
            },
        };
        proof {
            old_balance.lemma_bounded();
            U256::lemma_view_of((old_balance@ - value@) as nat);
            old(self)@.lemma_burn_conserves(caller, value);
            self.total_supply.lemma_bounded();
            U256::lemma_view_of((self.total_supply@ - value@) as nat);
            lemma_amounts_insert(self.balances@, caller, new_balance);
        }
        let new_supply = self.total_supply.checked_sub(value).unwrap();
        self.balances.insert(caller, new_balance);
        self.total_supply = new_supply;
        self.log.push(Event::Transfer { from: caller, to: Address::zero(), value });
        Ok(())
    }
}

} // verus!
