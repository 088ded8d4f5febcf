//! A fungible-token ledger fused with a small game: a player registry, tiered
//! rewards and a property store.
//!
//! Every operation names its caller explicitly and either succeeds, changing
//! the state as its contract says, or is rejected and changes nothing.

pub mod primitives;
pub mod table;
pub mod utility;
pub mod hashing;
#[allow(non_snake_case)]
pub mod ERC20;

use crate::hashing::{prop_id, prop_id_of};
use crate::primitives::{zero_address, Address, Bytes32, U256};
use crate::table::Table;
use crate::utility::{Erc20Error, Event};
use crate::ERC20::{Erc20, Erc20Params, LedgerState};
use vstd::prelude::*;

verus! {

/// The token of the game.
pub struct DegenParams;

impl Erc20Params for DegenParams {
    const NAME: &'static str = "DegenToken";

    const SYMBOL: &'static str = "DGT";

    const DECIMALS: u8 = 18;
}

/// A participant of the game.
#[derive(Debug, PartialEq, Eq)]
pub struct Player {
    /// The address that registered; it never changes.
    pub player_id: Address,
    /// The name the player chose.
    pub player_nick: String,
    /// When the player registered.
    pub register_at: U256,
    /// How often the player has played since registering.
    pub score: u64,
    /// Whether the player is registered (as opposed to suspended).
    pub is_registered: bool,
}

/// An item of the store.
#[derive(Debug, PartialEq, Eq)]
pub struct GameProp {
    /// Who holds the item: the store itself until somebody buys it.
    pub current_owner: Address,
    /// The identifier, derived from the name and the worth.
    pub prop_id: Bytes32,
    /// The item's name.
    pub prop_name: String,
    /// The price.
    pub worth: U256,
}

/// The reward for a score: three tokens per point up to 10 points, five per
/// point up to 50, ten per point above.
pub open spec fn reward_of(score: u64) -> nat {
    if score <= 10 {
        (score * 3) as nat
    } else if score <= 50 {
        (score * 5) as nat
    } else {
        (score * 10) as nat
    }
}

/// Computes the reward for a score.
pub fn reward_for(score: u64) -> (r: U256)
    ensures
        r@ == reward_of(score),
        r == U256::of(reward_of(score)),
{
    let points: u128 = score as u128;
    let amount: u128 = if score <= 10 {
        points * 3
    } else if score <= 50 {
        points * 5
    } else {
        points * 10
    };
    U256::from_u128(amount)
}

/// The game as a mathematical object.
pub struct GameState {
    /// Who administers the game.
    pub owner: Address,
    /// Every address that ever registered, in the order of registration.
    pub all_players: Seq<Address>,
    /// The record of each player.
    pub players: Map<Address, Player>,
    /// The store's catalogue.
    pub game_props: Map<Bytes32, GameProp>,
    /// What each player bought, keyed by (player, item).
    pub player_props: Map<(Address, Bytes32), GameProp>,
    /// The token ledger.
    pub ledger: LedgerState,
}

impl GameState {
    /// A new game administered by `origin`.
    pub open spec fn initial(origin: Address) -> GameState {
        GameState {
            owner: origin,
            all_players: Seq::empty(),
            players: Map::empty(),
            game_props: Map::empty(),
            player_props: Map::empty(),
            ledger: LedgerState::empty().with_owner(origin),
        }
    }

    /// What holds of every state that the operations can reach.
    pub open spec fn inv(self) -> bool {
        &&& self.ledger.conserved()
        &&& self.ledger.owner == self.owner
        &&& forall|a: Address| #[trigger]
            self.players.contains_key(a) ==> a != zero_address() && self.players[a].player_id == a
        &&& forall|i: int|
            0 <= i < self.all_players.len() ==> self.players.contains_key(
                #[trigger] self.all_players[i],
            )
        &&& forall|id: Bytes32| #[trigger]
            self.game_props.contains_key(id) ==> self.game_props[id].prop_id == id
        &&& forall|a: Address, id: Bytes32| #[trigger]
            self.player_props.contains_key((a, id)) ==> self.player_props[(a, id)].prop_id == id
                && self.player_props[(a, id)].current_owner == a
    }

    /// The same game over another ledger.
    pub open spec fn with_ledger(self, ledger: LedgerState) -> GameState {
        GameState { ledger, ..self }
    }

    /// Whether `account` is a player in good standing.
    pub open spec fn is_registered(self, account: Address) -> bool {
        self.players.contains_key(account) && self.players[account].is_registered
    }

    /// The score of `account`; zero for somebody who never registered.
    pub open spec fn score_of(self, account: Address) -> u64 {
        if self.players.contains_key(account) {
            self.players[account].score
        } else {
            0
        }
    }

    /// `Ok` for the owner, `OnlyOwner` for everybody else.
    pub open spec fn only_owner(self, caller: Address) -> Result<(), Erc20Error> {
        if caller != self.owner {
            Err(Erc20Error::OnlyOwner)
        } else {
            Ok(())
        }
    }

    /// `Ok` for a registered player, `NotRegistered` for everybody else.
    pub open spec fn reg_check(self, caller: Address) -> Result<(), Erc20Error> {
        if !self.is_registered(caller) {
            Err(Erc20Error::NotRegistered)
        } else {
            Ok(())
        }
    }

    /// Whether `caller` may register.
    pub open spec fn register_outcome(self, caller: Address) -> Result<(), Erc20Error> {
        if caller == zero_address() {
            Err(Erc20Error::AddressZero { zero: caller })
        } else if self.is_registered(caller) {
            Err(Erc20Error::Registered)
        } else if caller == self.owner {
            Err(Erc20Error::CannotRegister)
        } else {
            Ok(())
        }
    }

    /// The game after `caller` asked to register as `username` at time `now`.
    pub open spec fn register(self, caller: Address, username: String, now: u64) -> GameState {
        if self.register_outcome(caller) is Ok {
            GameState {
                all_players: self.all_players.push(caller),
                players: self.players.insert(
                    caller,
                    Player {
                        player_id: caller,
                        player_nick: username,
                        register_at: U256::of(now as nat),
                        score: 0,
                        is_registered: true,
                    },
                ),
                ledger: self.ledger.record(Event::PlayerRegisters { player: caller, success: true }),
                ..self
            }
        } else {
            self
        }
    }

    /// Whether `caller` may play: whoever has a record may.
    pub open spec fn play_outcome(self, caller: Address) -> Result<(), Erc20Error> {
        if !self.players.contains_key(caller) {
            Err(Erc20Error::NotFound)
        } else {
            Ok(())
        }
    }

    /// The game after `caller` asked to play once.
    pub open spec fn play(self, caller: Address) -> GameState {
        if self.play_outcome(caller) is Ok {
            GameState {
                players: self.players.insert(
                    caller,
                    Player {
                        score: (self.players[caller].score + 1) as u64,
                        ..self.players[caller]
                    },
                ),
                ..self
            }
        } else {
            self
        }
    }

    /// Whether the owner may suspend `account`.
    pub open spec fn suspend_outcome(self, caller: Address, account: Address) -> Result<
        (),
        Erc20Error,
    > {
        if caller != self.owner {
            Err(Erc20Error::OnlyOwner)
        } else if !self.is_registered(account) {
            Err(Erc20Error::NotFound)
        } else {
            Ok(())
        }
    }

    /// Whether the owner may reinstate `account`.
    pub open spec fn reinstate_outcome(self, caller: Address, account: Address) -> Result<
        (),
        Erc20Error,
    > {
        if caller != self.owner {
            Err(Erc20Error::OnlyOwner)
        } else if !self.players.contains_key(account) {
            Err(Erc20Error::NotFound)
        } else if self.players[account].is_registered {
            Err(Erc20Error::NotSuspended)
        } else {
            Ok(())
        }
    }

    /// The same game in which `account` is registered or not, as `flag` says.
    pub open spec fn with_standing(self, account: Address, flag: bool) -> GameState {
        GameState {
            players: self.players.insert(
                account,
                Player { is_registered: flag, ..self.players[account] },
            ),
            ..self
        }
    }

    /// The game after `caller` asked to suspend `account`.
    pub open spec fn suspend(self, caller: Address, account: Address) -> GameState {
        if self.suspend_outcome(caller, account) is Ok {
            self.with_standing(account, false)
        } else {
            self
        }
    }

    /// The game after `caller` asked to reinstate `account`.
    pub open spec fn reinstate(self, caller: Address, account: Address) -> GameState {
        if self.reinstate_outcome(caller, account) is Ok {
            self.with_standing(account, true)
        } else {
            self
        }
    }

    /// Registering keeps the invariant.
    pub proof fn lemma_register_inv(self, caller: Address, username: String, now: u64)
        requires
            self.inv(),
        ensures
            self.register(caller, username, now).inv(),
    {
    }

    /// Playing keeps the invariant.
    pub proof fn lemma_play_inv(self, caller: Address)
        requires
            self.inv(),
        ensures
            self.play(caller).inv(),
    {
    }

    /// Suspending and reinstating keep the invariant.
    pub proof fn lemma_standing_inv(self, caller: Address, account: Address)
        requires
            self.inv(),
        ensures
            self.suspend(caller, account).inv(),
            self.reinstate(caller, account).inv(),
    {
    }

    /// The sum of the rewards due to the first `n` entries of the list of
    /// players.
    pub open spec fn reward_sum(self, n: nat) -> nat
        decreases n,
    {
        if n == 0 {
            0
        } else {
            self.reward_sum((n - 1) as nat) + reward_of(self.score_of(self.all_players[n - 1]))
        }
    }

    /// The ledger after the first `n` entries of the list of players were
    /// paid their rewards, in the order of the list.
    pub open spec fn rewarded(self, n: nat) -> LedgerState
        decreases n,
    {
        if n == 0 {
            self.ledger
        } else {
            let player = self.all_players[n - 1];
            self.rewarded((n - 1) as nat).credit_new(
                player,
                U256::of(reward_of(self.score_of(player))),
            )
        }
    }

    /// Whether `caller` may distribute rewards.
    pub open spec fn distribute_outcome(self, caller: Address) -> Result<(), Erc20Error> {
        if caller != self.owner {
            Err(Erc20Error::OnlyOwner)
        } else if self.all_players.len() == 0 {
            Err(Erc20Error::NoPlayer)
        } else {
            Ok(())
        }
    }

    /// The game after `caller` asked to distribute rewards: every entry of
    /// the list of players is paid, and one event sums the round up.
    pub open spec fn distribute(self, caller: Address) -> GameState {
        if self.distribute_outcome(caller) is Ok {
            let n = self.all_players.len();
            self.with_ledger(
                self.rewarded(n).record(
                    Event::RewardDistributed {
                        total_rewards: U256::of(self.reward_sum(n)),
                        number_of_players: U256::of(n),
                    },
                ),
            )
        } else {
            self
        }
    }

    /// Whether `caller` may send `value` to `recipient`, and with what
    /// answer.
    pub open spec fn p2p_outcome(self, caller: Address, recipient: Address, value: U256) -> Result<
        bool,
        Erc20Error,
    > {
        if caller == zero_address() {
            Err(Erc20Error::AddressZero { zero: caller })
        } else if !self.is_registered(caller) {
            Err(Erc20Error::NotRegistered)
        } else {
            self.ledger.transfer_outcome(caller, recipient, value)
        }
    }

    /// The game after `caller` asked to send `value` to `recipient`.
    pub open spec fn p2p_transfer(self, caller: Address, recipient: Address, value: U256)
        -> GameState {
        if self.p2p_outcome(caller, recipient, value) is Ok {
            self.with_ledger(
                self.ledger.transfer(caller, recipient, value).record(
                    Event::PlayerP2P { sender: caller, recipient, amount: value },
                ),
            )
        } else {
            self
        }
    }

    /// Whether `caller` may burn `value`.
    pub open spec fn burn_outcome(self, caller: Address, value: U256) -> Result<(), Erc20Error> {
        if !self.is_registered(caller) {
            Err(Erc20Error::NotRegistered)
        } else {
            self.ledger.burn_outcome(caller, value)
        }
    }

    /// The game after `caller` asked to burn `value`.
    pub open spec fn burn(self, caller: Address, value: U256) -> GameState {
        if self.burn_outcome(caller, value) is Ok {
            self.with_ledger(self.ledger.burn(caller, value))
        } else {
            self
        }
    }

    /// The game after `caller` asked to file a property called `name`, at
    /// the price `worth`, under the identifier `id`. The store at `store`
    /// holds it until it is sold. Whatever was filed under `id` before is
    /// replaced.
    pub open spec fn put_game_prop(
        self,
        caller: Address,
        store: Address,
        id: Bytes32,
        name: String,
        worth: U256,
    ) -> GameState {
        if self.only_owner(caller) is Ok {
            GameState {
                game_props: self.game_props.insert(
                    id,
                    GameProp { current_owner: store, prop_id: id, prop_name: name, worth },
                ),
                ..self
            }
        } else {
            self
        }
    }

    /// The game after `caller` asked to list a property called `name` at the
    /// price `worth`: it is filed under the identifier that its name and
    /// worth determine, so listing the same pair again replaces the earlier
    /// record.
    pub open spec fn add_game_prop(self, caller: Address, store: Address, name: String, worth: U256)
        -> GameState {
        self.put_game_prop(caller, store, prop_id_of(name@, worth@), name, worth)
    }

    /// Whether `caller` may buy the property `prop_id` from the store at
    /// `store`.
    pub open spec fn buy_outcome(self, caller: Address, store: Address, prop_id: Bytes32) -> Result<
        (),
        Erc20Error,
    > {
        if !self.is_registered(caller) {
            Err(Erc20Error::NotRegistered)
        } else if !self.game_props.contains_key(prop_id)
            || self.game_props[prop_id].current_owner == zero_address() {
            Err(Erc20Error::NotFound)
        } else if self.ledger.balance_of(caller) < self.game_props[prop_id].worth@ {
            Err(Erc20Error::Insufficient)
        } else if self.ledger.transfer_outcome(caller, store, self.game_props[prop_id].worth)
            is Err {
            Err(Erc20Error::TransferFailed)
        } else {
            Ok(())
        }
    }

    /// The game after `caller` asked to buy the property `prop_id`: the
    /// price goes to the store, the property to the caller, and a copy of
    /// its record is filed under what the caller owns.
    pub open spec fn buy(self, caller: Address, store: Address, prop_id: Bytes32) -> GameState {
        if self.buy_outcome(caller, store, prop_id) is Ok {
            let listed = self.game_props[prop_id];
            let bought = GameProp { current_owner: caller, ..listed };
            GameState {
                game_props: self.game_props.insert(prop_id, bought),
                player_props: self.player_props.insert((caller, prop_id), bought),
                ledger: self.ledger.transfer(caller, store, listed.worth).record(
                    Event::PropBought {
                        new_owner: caller,
                        prop_id,
                        prop_name: listed.prop_name,
                    },
                ),
                ..self
            }
        } else {
            self
        }
    }

    /// What paying the first `n` players does to the ledger: the supply
    /// grows by the sum of their rewards and stays the sum of the balances,
    /// and nothing but balances, supply and log changes.
    pub proof fn lemma_rewarded(self, n: nat)
        requires
            self.inv(),
            n <= self.all_players.len(),
        ensures
            self.rewarded(n).conserved(),
            self.rewarded(n).total_supply == self.ledger.total_supply + self.reward_sum(n),
            self.rewarded(n).owner == self.ledger.owner,
            self.rewarded(n).allowances == self.ledger.allowances,
            self.reward_sum(n) <= self.reward_sum(self.all_players.len()),
            self.reward_sum(n) <= n * 0x10_0000_0000_0000_0000,
        decreases self.all_players.len() - n,
    {
        self.lemma_rewarded_prefix(n);
        if n < self.all_players.len() {
            self.lemma_rewarded(n + 1);
        }
    }

    /// The part of [`Self::lemma_rewarded`] that goes by induction from the
    /// front of the list.
    proof fn lemma_rewarded_prefix(self, n: nat)
        requires
            self.inv(),
            n <= self.all_players.len(),
        ensures
            self.rewarded(n).conserved(),
            self.rewarded(n).total_supply == self.ledger.total_supply + self.reward_sum(n),
            self.rewarded(n).owner == self.ledger.owner,
            self.rewarded(n).allowances == self.ledger.allowances,
            self.reward_sum(n) <= n * 0x10_0000_0000_0000_0000,
        decreases n,
    {
        if n > 0 {
            let before = (n - 1) as nat;
            let player = self.all_players[n - 1];
            let reward = reward_of(self.score_of(player));
            self.lemma_rewarded_prefix(before);
            assert(reward < 0x10_0000_0000_0000_0000);
            U256::lemma_view_of(reward);
            self.rewarded(before).lemma_credit_new_conserves(player, U256::of(reward));
        }
    }

    /// Distributing rewards keeps the invariant.
    pub proof fn lemma_distribute_inv(self, caller: Address)
        requires
            self.inv(),
        ensures
            self.distribute(caller).inv(),
    {
        self.lemma_rewarded(self.all_players.len());
    }

    /// Sending and burning tokens keep the invariant.
    pub proof fn lemma_ledger_inv(self, ledger: LedgerState)
        requires
            self.inv(),
            ledger.conserved(),
            ledger.owner == self.ledger.owner,
        ensures
            self.with_ledger(ledger).inv(),
    {
    }

    /// Filing a property keeps the invariant.
    pub proof fn lemma_put_game_prop_inv(
        self,
        caller: Address,
        store: Address,
        id: Bytes32,
        name: String,
        worth: U256,
    )
        requires
            self.inv(),
        ensures
            self.put_game_prop(caller, store, id, name, worth).inv(),
            self.add_game_prop(caller, store, name, worth).inv(),
    {
    }

    /// Buying a property keeps the invariant.
    pub proof fn lemma_buy_inv(self, caller: Address, store: Address, prop_id: Bytes32)
        requires
            self.inv(),
        ensures
            self.buy(caller, store, prop_id).inv(),
    {
        if self.buy_outcome(caller, store, prop_id) is Ok {
            let worth = self.game_props[prop_id].worth;
            self.ledger.lemma_moved_conserves(caller, store, worth);
        }
    }

    /// The part of the first `n` rewards that goes to `account`: its reward
    /// once for every time it occurs among the first `n` entries of the list
    /// of players.
    pub open spec fn reward_share(self, account: Address, n: nat) -> nat
        decreases n,
    {
        if n == 0 {
            0
        } else if self.all_players[n - 1] == account {
            self.reward_share(account, (n - 1) as nat) + reward_of(self.score_of(account))
        } else {
            self.reward_share(account, (n - 1) as nat)
        }
    }

    /// Paying the first `n` players raises each account by its share of the
    /// rewards and by nothing else.
    pub proof fn lemma_reward_share(self, account: Address, n: nat)
        requires
            self.inv(),
            n <= self.all_players.len(),
        ensures
            self.rewarded(n).balance_of(account) == self.ledger.balance_of(account)
                + self.reward_share(account, n),
        decreases n,
    {
        if n > 0 {
            let player = self.all_players[n - 1];
            let reward = reward_of(self.score_of(player));
            self.lemma_reward_share(account, (n - 1) as nat);
            assert(reward < 0x10_0000_0000_0000_0000);
            U256::lemma_view_of(reward);
        }
    }

    /// A round of rewards pays each account its share, raises the supply by
    /// the sum of all rewards, appends to the log one `Transfer` per entry
    /// and one closing event, and leaves players, store and allowances as
    /// they were.
    pub proof fn law_distribution(self, caller: Address, account: Address)
        requires
            self.inv(),
            self.distribute_outcome(caller) is Ok,
        ensures
            ({
                let n = self.all_players.len();
                let after = self.distribute(caller);
                &&& after.ledger.balance_of(account) == self.ledger.balance_of(account)
                    + self.reward_share(account, n)
                &&& after.ledger.total_supply == self.ledger.total_supply + self.reward_sum(n)
                &&& after.ledger.allowances == self.ledger.allowances
                &&& after.ledger.log.len() == self.ledger.log.len() + n + 1
                &&& after.ledger.log.last() == (Event::RewardDistributed {
                    total_rewards: U256::of(self.reward_sum(n)),
                    number_of_players: U256::of(n),
                })
                &&& after.players == self.players
                &&& after.all_players == self.all_players
                &&& after.game_props == self.game_props
                &&& after.player_props == self.player_props
            }),
    {
        let n = self.all_players.len();
        self.lemma_rewarded(n);
        self.lemma_reward_share(account, n);
        self.lemma_rewarded_log(n);
    }

    /// Paying the first `n` players appends `n` events to the log.
    proof fn lemma_rewarded_log(self, n: nat)
        ensures
            self.rewarded(n).log.len() == self.ledger.log.len() + n,
        decreases n,
    {
        if n > 0 {
            self.lemma_rewarded_log((n - 1) as nat);
        }
    }

    /// Nobody registers twice: once an address has registered, a second
    /// registration from it is rejected with `Registered` and changes
    /// nothing; in particular the list of players holds the address once
    /// more than before, not twice.
    pub proof fn law_register_once(
        self,
        caller: Address,
        first_name: String,
        first_time: u64,
        second_name: String,
        second_time: u64,
    )
        requires
            self.register_outcome(caller) is Ok,
        ensures
            ({
                let once = self.register(caller, first_name, first_time);
                &&& once.is_registered(caller)
                &&& once.all_players == self.all_players.push(caller)
                &&& once.register_outcome(caller) == Err::<(), Erc20Error>(Erc20Error::Registered)
                &&& once.register(caller, second_name, second_time) == once
            }),
    {
    }

    /// A registered address cannot register: whatever the state, the attempt
    /// is rejected with `Registered` and changes nothing.
    pub proof fn law_registered_stays(self, caller: Address, name: String, time: u64)
        requires
            self.inv(),
            self.is_registered(caller),
        ensures
            self.register_outcome(caller) == Err::<(), Erc20Error>(Erc20Error::Registered),
            self.register(caller, name, time) == self,
    {
    }

    /// The owner's operations are the owner's alone: minting, distributing
    /// rewards, suspending, reinstating and listing a property are each
    /// rejected with `OnlyOwner` when anybody else asks, and change nothing.
    pub proof fn law_owner_only(
        self,
        caller: Address,
        account: Address,
        store: Address,
        name: String,
        value: U256,
    )
        requires
            self.inv(),
            caller != self.owner,
        ensures
            self.ledger.mint_outcome(caller, account) == Err::<(), Erc20Error>(
                Erc20Error::OnlyOwner,
            ),
            self.with_ledger(self.ledger.mint(caller, account, value)) == self,
            self.distribute_outcome(caller) == Err::<(), Erc20Error>(Erc20Error::OnlyOwner),
            self.distribute(caller) == self,
            self.suspend_outcome(caller, account) == Err::<(), Erc20Error>(Erc20Error::OnlyOwner),
            self.suspend(caller, account) == self,
            self.reinstate_outcome(caller, account) == Err::<(), Erc20Error>(
                Erc20Error::OnlyOwner,
            ),
            self.reinstate(caller, account) == self,
            self.only_owner(caller) == Err::<(), Erc20Error>(Erc20Error::OnlyOwner),
            self.add_game_prop(caller, store, name, value) == self,
    {
    }

    /// Listing, then buying: once the owner has listed a property, a
    /// registered player who holds its price can buy it from a store with a
    /// real address. The buyer then has the price less and the store has it
    /// more, the property belongs to the buyer, and a copy of its record is
    /// filed under what the buyer owns.
    pub proof fn law_purchase(
        self,
        admin: Address,
        store: Address,
        name: String,
        worth: U256,
        buyer: Address,
    )
        requires
            self.inv(),
            admin == self.owner,
            store != zero_address(),
            self.is_registered(buyer),
            worth@ <= self.ledger.balance_of(buyer),
        ensures
            ({
                let id = prop_id_of(name@, worth@);
                let listed = self.add_game_prop(admin, store, name, worth);
                let after = listed.buy(buyer, store, id);
                &&& listed.game_props.contains_key(id)
                &&& listed.game_props[id] == (GameProp {
                    current_owner: store,
                    prop_id: id,
                    prop_name: name,
                    worth,
                })
                &&& listed.buy_outcome(buyer, store, id) == Ok::<(), Erc20Error>(())
                &&& buyer != store ==> after.ledger.balance_of(buyer) == self.ledger.balance_of(
                    buyer,
                ) - worth@
                &&& buyer != store ==> after.ledger.balance_of(store) == self.ledger.balance_of(
                    store,
                ) + worth@
                &&& after.ledger.total_supply == self.ledger.total_supply
                &&& after.game_props[id] == (GameProp {
                    current_owner: buyer,
                    prop_id: id,
                    prop_name: name,
                    worth,
                })
                &&& after.player_props.contains_key((buyer, id))
                &&& after.player_props[(buyer, id)] == after.game_props[id]
                &&& after.ledger.log.last() == (Event::PropBought {
                    new_owner: buyer,
                    prop_id: id,
                    prop_name: name,
                })
            }),
    {
    }

    /// A purchase that is rejected changes nothing, and it is rejected
    /// exactly when the caller is not a registered player, the property is
    /// not listed, the caller holds less than its price, or the store has no
    /// real address.
    pub proof fn law_purchase_rejected(self, caller: Address, store: Address, prop_id: Bytes32)
        requires
            self.inv(),
        ensures
            self.buy_outcome(caller, store, prop_id) is Err ==> self.buy(caller, store, prop_id)
                == self,
            self.buy_outcome(caller, store, prop_id) is Ok <==> {
                &&& self.is_registered(caller)
                &&& self.game_props.contains_key(prop_id)
                &&& self.game_props[prop_id].current_owner != zero_address()
                &&& self.game_props[prop_id].worth@ <= self.ledger.balance_of(caller)
                &&& store != zero_address()
            },
    {
    }

    /// Listing the same name and worth twice gives the same identifier, and
    /// the second listing replaces the record of the first: the catalogue
    /// then holds what it would hold after the second listing alone.
    pub proof fn law_relisting(
        self,
        admin: Address,
        first_store: Address,
        first_name: String,
        second_store: Address,
        second_name: String,
        worth: U256,
    )
        requires
            admin == self.owner,
            first_name@ == second_name@,
        ensures
            ({
                let id = prop_id_of(second_name@, worth@);
                let once = self.add_game_prop(admin, first_store, first_name, worth);
                let twice = once.add_game_prop(admin, second_store, second_name, worth);
                &&& prop_id_of(first_name@, worth@) == id
                &&& twice.game_props.dom() == once.game_props.dom()
                &&& twice.game_props[id] == (GameProp {
                    current_owner: second_store,
                    prop_id: id,
                    prop_name: second_name,
                    worth,
                })
                &&& twice == self.add_game_prop(admin, second_store, second_name, worth)
            }),
    {
        let id = prop_id_of(second_name@, worth@);
        let once = self.add_game_prop(admin, first_store, first_name, worth);
        let twice = once.add_game_prop(admin, second_store, second_name, worth);
        let direct = self.add_game_prop(admin, second_store, second_name, worth);
        assert(twice.game_props =~= direct.game_props);
        assert(twice.game_props.dom() =~= once.game_props.dom());
    }
}

/// The game: its players, its store and its token ledger.
pub struct Degen {
    owner: Address,
    all_players: Vec<Address>,
    players: Table<Address, Player>,
    game_props: Table<Bytes32, GameProp>,
    player_props: Table<(Address, Bytes32), GameProp>,
    erc20: Erc20<DegenParams>,
}

impl View for Degen {
    type V = GameState;

    closed spec fn view(&self) -> GameState {
        GameState {
            owner: self.owner,
            all_players: self.all_players@,
            players: self.players@,
            game_props: self.game_props@,
            player_props: self.player_props@,
            ledger: self.erc20@,
        }
    }
}

impl Degen {
    /// The game is well formed: its tables and its ledger are, and the
    /// invariant of the game holds.
    pub closed spec fn wf(&self) -> bool {
        &&& self.players.wf()
        &&& self.game_props.wf()
        &&& self.player_props.wf()
        &&& self.erc20.wf()
        &&& self@.inv()
    }

    /// Every well-formed game satisfies the invariant, and its ledger's
    /// supply fits in 256 bits.
    pub proof fn lemma_wf_inv(&self)
        requires
            self.wf(),
        ensures
            self@.inv(),
            self@.ledger.total_supply < U256::modulus(),
    {
        self.erc20.lemma_conservation();
    }

    /// Starts a game administered by `origin`, who also becomes the owner of
    /// the ledger.
    pub fn constructor(origin: Address) -> (r: Degen)
        ensures
            r.wf(),
            r@ == GameState::initial(origin),
    {
        let mut erc20 = Erc20::new();
        erc20.set_owner(origin);
        proof {
            erc20.lemma_conservation();
        }
        Degen {
            owner: origin,
            all_players: Vec::new(),
            players: Table::new(),
            game_props: Table::new(),
            player_props: Table::new(),
            erc20,
        }
    }

    /// Rejects the zero address as caller.
    pub fn address_zero_check(&self, caller: Address) -> (r: Result<(), Erc20Error>)
        ensures
            r == if caller == zero_address() {
                Err::<(), Erc20Error>(Erc20Error::AddressZero { zero: caller })
            } else {
                Ok::<(), Erc20Error>(())
            },
    {
        Erc20::<DegenParams>::address_zero_check(&caller)
    }

    /// Rejects every caller who is not a registered player.
    pub fn reg_check(&self, caller: Address) -> (r: Result<(), Erc20Error>)
        requires
            self.wf(),
        ensures
            r == self@.reg_check(caller),
    {
        let registered = match self.players.get(&caller) {
            Some(player) => player.is_registered,
            None => false,
        };
        if !registered {
            return Err(Erc20Error::NotRegistered);
        }
        Ok(())
    }

    /// Rejects every caller but the owner.
    pub fn only_owner(&self, caller: Address) -> (r: Result<(), Erc20Error>)
        ensures
            r == self@.only_owner(caller),
    {
        if caller != self.owner {
            return Err(Erc20Error::OnlyOwner);
        }
        Ok(())
    }

    /// Registers the caller as a player named `username`, with score zero
    /// and `now` as the time of registration. The zero address, a player in
    /// good standing and the owner are rejected, in this order.
    pub fn player_register(&mut self, caller: Address, username: String, now: u64) -> (r: Result<
        (),
        Erc20Error,
    >)
        requires
            old(self).wf(),
        ensures
            final(self).wf(),
            r == old(self)@.register_outcome(caller),
            final(self)@ == old(self)@.register(caller, username, now),
    {
        if let Err(e) = self.address_zero_check(caller) {
            return Err(e);
        }
        if let Ok(_) = self.reg_check(caller) {
            return Err(Erc20Error::Registered);
        }
        if caller == self.owner {
            return Err(Erc20Error::CannotRegister);
        }
        let player = Player {
            player_id: caller,
            player_nick: username,
            register_at: U256::from_u64(now),
            score: 0,
            is_registered: true,
        };
        proof {
            old(self)@.lemma_register_inv(caller, username, now);
        }
        self.players.insert(caller, player);
        self.all_players.push(caller);
        self.erc20.emit(Event::PlayerRegisters { player: caller, success: true });
        Ok(())
    }

    /// Whether the caller can play once more: the score of a caller with a
    /// record must stay within 64 bits.
    pub fn can_play(&self, caller: Address) -> (r: bool)
        requires
            self.wf(),
        ensures
            r == (self@.players.contains_key(caller) ==> self@.players[caller].score < u64::MAX),
    {
        match self.players.get(&caller) {
            Some(player) => player.score < u64::MAX,
            None => true,
        }
    }

    /// Adds one to the caller's score. Whoever has a record may play,
    /// suspended or not; a caller without one is rejected with `NotFound`.
    pub fn play_game(&mut self, caller: Address) -> (r: Result<(), Erc20Error>)
        requires
            old(self).wf(),
            old(self)@.players.contains_key(caller) ==> old(self)@.players[caller].score
                < u64::MAX,
        ensures
            final(self).wf(),
            r == old(self)@.play_outcome(caller),
            final(self)@ == old(self)@.play(caller),
    {
        let updated = match self.players.get(&caller) {
            Some(player) => Player {
                player_id: player.player_id,
                player_nick: player.player_nick.clone(),
                register_at: player.register_at,
                score: player.score + 1,
                is_registered: player.is_registered,
            },
            None => {
                return Err(Erc20Error::NotFound);
            },
        };
        proof {
            old(self)@.lemma_play_inv(caller);
        }
        self.players.insert(caller, updated);
        Ok(())
    }

    /// Suspends the player `address`. Only the owner may do so, and only a
    /// player in good standing can be suspended.
    pub fn suspend_player(&mut self, caller: Address, address: Address) -> (r: Result<
        (),
        Erc20Error,
    >)
        requires
            old(self).wf(),
        ensures
            final(self).wf(),
            r == old(self)@.suspend_outcome(caller, address),
            final(self)@ == old(self)@.suspend(caller, address),
    {
        if let Err(e) = self.only_owner(caller) {
            return Err(e);
        }
        let updated = match self.players.get(&address) {
            Some(player) => {
                if !player.is_registered {
                    return Err(Erc20Error::NotFound);
                }
                Player {
                    player_id: player.player_id,
                    player_nick: player.player_nick.clone(),
                    register_at: player.register_at,
                    score: player.score,
                    is_registered: false,
                }
            },
            None => {
                return Err(Erc20Error::NotFound);
            },
        };
        proof {
            old(self)@.lemma_standing_inv(caller, address);
        }
        self.players.insert(address, updated);
        Ok(())
    }

    /// Reinstates the suspended player `address`. Only the owner may do so.
    pub fn reinstate_player(&mut self, caller: Address, address: Address) -> (r: Result<
        (),
        Erc20Error,
    >)
        requires
            old(self).wf(),
        ensures
            final(self).wf(),
            r == old(self)@.reinstate_outcome(caller, address),
            final(self)@ == old(self)@.reinstate(caller, address),
    {
        if let Err(e) = self.only_owner(caller) {
            return Err(e);
        }
        let updated = match self.players.get(&address) {
            Some(player) => {
                if player.is_registered {
                    return Err(Erc20Error::NotSuspended);
                }
                Player {
                    player_id: player.player_id,
                    player_nick: player.player_nick.clone(),
                    register_at: player.register_at,
                    score: player.score,
                    is_registered: true,
                }
            },
            None => {
                return Err(Erc20Error::NotFound);
            },
        };
        proof {
            old(self)@.lemma_standing_inv(caller, address);
        }
        self.players.insert(address, updated);
        Ok(())
    }

    /// The sum of the rewards due to all entries of the list of players.
    pub fn pending_rewards(&self) -> (r: U256)
        requires
            self.wf(),
        ensures
            r@ == self@.reward_sum(self@.all_players.len()),
    {
        let n = self.all_players.len();
        let mut total = U256::zero();
        let mut i: usize = 0;
        while i < n
            invariant
                self.wf(),
                n == self.all_players@.len(),
                i <= n,
                total@ == self@.reward_sum(i as nat),
            decreases n - i,
        {
            let player = self.all_players[i];
            let score = match self.players.get(&player) {
                Some(record) => record.score,
                None => 0,
            };
            let amount = reward_for(score);
            proof {
                self@.lemma_rewarded((i + 1) as nat);
                U256::lemma_view_of(total@ + amount@);
            }
            total = total.checked_add(amount).unwrap();
            i += 1;
        }
        total
    }

    /// Whether the rewards now due can be paid without the supply leaving
    /// 256 bits.
    pub fn can_distribute(&self) -> (r: bool)
        requires
            self.wf(),
        ensures
            r == (self@.ledger.total_supply + self@.reward_sum(self@.all_players.len())
                < U256::modulus()),
    {
        let pending = self.pending_rewards();
        self.erc20.total_supply().checked_add(pending).is_some()
    }

    /// Pays every entry of the list of players the reward for its score, in
    /// the order of registration, and records one event with the sum and the
    /// number of entries. Only the owner may do so, and not while the list
    /// is empty. The supply must stay within 256 bits.
    pub fn distribute_reward_to_players(&mut self, caller: Address) -> (r: Result<(), Erc20Error>)
        requires
            old(self).wf(),
            old(self)@.distribute_outcome(caller) is Ok ==> old(self)@.ledger.total_supply + old(
                self,
            )@.reward_sum(old(self)@.all_players.len()) < U256::modulus(),
        ensures
            final(self).wf(),
            r == old(self)@.distribute_outcome(caller),
            final(self)@ == old(self)@.distribute(caller),
    {
        if let Err(e) = self.only_owner(caller) {
            return Err(e);
        }
        let num_of_players = self.all_players.len();
        if num_of_players < 1 {
            return Err(Erc20Error::NoPlayer);
        }
        let mut total_rewards = U256::zero();
        let mut i: usize = 0;
        while i < num_of_players
            invariant
                old(self).wf(),
                caller == old(self).owner,
                old(self)@.ledger.total_supply + old(self)@.reward_sum(num_of_players as nat)
                    < U256::modulus(),
                num_of_players == old(self).all_players@.len(),
                i <= num_of_players,
                self.owner == old(self).owner,
                self.all_players == old(self).all_players,
                self.players == old(self).players,
                self.game_props == old(self).game_props,
                self.player_props == old(self).player_props,
                self.erc20.wf(),
                self.erc20@ == old(self)@.rewarded(i as nat),
                total_rewards@ == old(self)@.reward_sum(i as nat),
            decreases num_of_players - i,
        {
            let player = self.all_players[i];
            let score = match self.players.get(&player) {
                Some(record) => record.score,
                None => 0,
            };
            let amount = reward_for(score);
            proof {
                old(self)@.lemma_rewarded(i as nat);
                old(self)@.lemma_rewarded((i + 1) as nat);
                U256::lemma_view_of(total_rewards@ + amount@);
                assert(old(self)@.players.contains_key(player));
            }
            if let Err(e) = self.erc20.mint(caller, player, amount) {
                return Err(e);
            }
            total_rewards = total_rewards.checked_add(amount).unwrap();
            i += 1;
        }
        proof {
            total_rewards.lemma_of_view();
            old(self)@.lemma_distribute_inv(caller);
        }
        self.erc20.emit(
            Event::RewardDistributed {
                total_rewards,
                number_of_players: U256::from_u64(num_of_players as u64),
            },
        );
        Ok(())
    }

    /// Sends `value` of the caller's tokens to `recipient`. The caller must
    /// be a registered player; beyond that the ledger's rules for a transfer
    /// apply.
    pub fn player_p2p_transfer(&mut self, caller: Address, recipient: Address, value: U256) -> (r:
        Result<bool, Erc20Error>)
        requires
            old(self).wf(),
        ensures
            final(self).wf(),
            r == old(self)@.p2p_outcome(caller, recipient, value),
            final(self)@ == old(self)@.p2p_transfer(caller, recipient, value),
    {
        if let Err(e) = self.address_zero_check(caller) {
            return Err(e);
        }
        if let Err(e) = self.reg_check(caller) {
            return Err(e);
        }
        match self.erc20.transfer(caller, recipient, value) {
            Ok(true) => {
                self.erc20.emit(Event::PlayerP2P { sender: caller, recipient, amount: value });
                proof {
                    self.erc20.lemma_conservation();
                    old(self)@.lemma_ledger_inv(self.erc20@);
                }
                Ok(true)
            },
            Ok(false) => Err(Erc20Error::TransferFailed),
            Err(e) => Err(e),
        }
    }

    /// What the caller holds.
    pub fn player_check_balance(&self, caller: Address) -> (r: U256)
        requires
            self.wf(),
        ensures
            r@ == self@.ledger.balance_of(caller),
    {
        self.erc20.balance_of(caller)
    }

    /// Destroys `value` of the caller's tokens. The caller must be a
    /// registered player who holds at least `value`.
    pub fn player_burn_token(&mut self, caller: Address, value: U256) -> (r: Result<
        (),
        Erc20Error,
    >)
        requires
            old(self).wf(),
        ensures
            final(self).wf(),
            r == old(self)@.burn_outcome(caller, value),
            final(self)@ == old(self)@.burn(caller, value),
    {
        if let Err(e) = self.reg_check(caller) {
            return Err(e);
        }
        let r = self.erc20.burn(caller, value);
        proof {
            self.erc20.lemma_conservation();
            old(self)@.lemma_ledger_inv(self.erc20@);
        }
        r
    }

    /// Files a property called `name`, at the price `value`, under the
    /// identifier `id`, in place of whatever was filed under it. Until
    /// somebody buys it, it belongs to the store, whose address is `store`.
    /// Only the owner may do so.
    pub fn put_game_prop(
        &mut self,
        caller: Address,
        store: Address,
        id: Bytes32,
        name: String,
        value: U256,
    ) -> (r: Result<(), Erc20Error>)
        requires
            old(self).wf(),
        ensures
            final(self).wf(),
            r == old(self)@.only_owner(caller),
            final(self)@ == old(self)@.put_game_prop(caller, store, id, name, value),
    {
        if let Err(e) = self.only_owner(caller) {
            return Err(e);
        }
        proof {
            old(self)@.lemma_put_game_prop_inv(caller, store, id, name, value);
        }
        self.game_props.insert(
            id,
            GameProp { current_owner: store, prop_id: id, prop_name: name, worth: value },
        );
        Ok(())
    }

    /// Lists a property called `name` at the price `value`, under the
    /// identifier that the name and the price determine. Until somebody buys
    /// it, it belongs to the store, whose address is `store`. Only the owner
    /// may list.
    pub fn add_game_prop(&mut self, caller: Address, store: Address, name: String, value: U256)
        -> (r: Result<(), Erc20Error>)
        requires
            old(self).wf(),
        ensures
            final(self).wf(),
            r == old(self)@.only_owner(caller),
            final(self)@ == old(self)@.add_game_prop(caller, store, name, value),
    {
        let id = prop_id(&name, value);
        self.put_game_prop(caller, store, id, name, value)
    }

    /// Buys the property `prop_id` for the caller, who must be a registered
    /// player and hold its price. The price goes to the store at `store`.
    pub fn player_buys_from_game_store(&mut self, caller: Address, store: Address, prop_id: Bytes32)
        -> (r: Result<(), Erc20Error>)
        requires
            old(self).wf(),
        ensures
            final(self).wf(),
            r == old(self)@.buy_outcome(caller, store, prop_id),
            final(self)@ == old(self)@.buy(caller, store, prop_id),
    {
        if let Err(e) = self.reg_check(caller) {
            return Err(e);
        }
        let (worth, name, unowned) = match self.game_props.get(&prop_id) {
            Some(listed) => (
                listed.worth,
                listed.prop_name.clone(),
                listed.current_owner.is_zero(),
            ),
            None => {
                return Err(Erc20Error::NotFound);
            },
        };
        if unowned {
            return Err(Erc20Error::NotFound);
        }
        if self.erc20.balance_of(caller).lt(worth) {
            return Err(Erc20Error::Insufficient);
        }
        match self.erc20.transfer(caller, store, worth) {
            Ok(true) => {
                proof {
                    old(self)@.lemma_buy_inv(caller, store, prop_id);
                }
                self.game_props.insert(
                    prop_id,
                    GameProp { current_owner: caller, prop_id, prop_name: name.clone(), worth },
                );
                self.player_props.insert(
                    (caller, prop_id),
                    GameProp { current_owner: caller, prop_id, prop_name: name.clone(), worth },
                );
                self.erc20.emit(
                    Event::PropBought { new_owner: caller, prop_id, prop_name: name },
                );
                Ok(())
            },
            _ => Err(Erc20Error::TransferFailed),
        }
    }

    /// Creates `value` new tokens for `address`, as the ledger's `mint`
    /// does.
    pub fn mint(&mut self, caller: Address, address: Address, value: U256) -> (r: Result<
        (),
        Erc20Error,
    >)
        requires
            old(self).wf(),
            old(self)@.ledger.mint_outcome(caller, address) is Ok ==> old(self)@.ledger.total_supply
                + value@ < U256::modulus(),
        ensures
            final(self).wf(),
            r == old(self)@.ledger.mint_outcome(caller, address),
            final(self)@ == old(self)@.with_ledger(old(self)@.ledger.mint(caller, address, value)),
    {
        let r = self.erc20.mint(caller, address, value);
        proof {
            self.erc20.lemma_conservation();
            old(self)@.lemma_ledger_inv(self.erc20@);
        }
        r
    }

    /// Lets `spender` draw up to `value` from the caller's account, as the
    /// ledger's `approve` does.
    pub fn approve(&mut self, caller: Address, spender: Address, value: U256) -> (r: Result<
        bool,
        Erc20Error,
    >)
        requires
            old(self).wf(),
        ensures
            final(self).wf(),
            r == old(self)@.ledger.approve_outcome(spender),
            final(self)@ == old(self)@.with_ledger(old(self)@.ledger.approve(caller, spender, value)),
    {
        let r = self.erc20.approve(caller, spender, value);
        proof {
            self.erc20.lemma_conservation();
            old(self)@.lemma_ledger_inv(self.erc20@);
        }
        r
    }

    /// Sends `value` from `from` to `to` on the caller's allowance, as the
    /// ledger's `transfer_from` does.
    pub fn transfer_from(&mut self, caller: Address, from: Address, to: Address, value: U256) -> (r:
        Result<bool, Erc20Error>)
        requires
            old(self).wf(),
        ensures
            final(self).wf(),
            r == old(self)@.ledger.transfer_from_outcome(caller, from, to, value),
            final(self)@ == old(self)@.with_ledger(
                old(self)@.ledger.transfer_from(caller, from, to, value),
            ),
    {
        let r = self.erc20.transfer_from(caller, from, to, value);
        proof {
            self.erc20.lemma_conservation();
            old(self)@.lemma_ledger_inv(self.erc20@);
        }
        r
    }

    /// The token ledger, for reading.
    pub fn ledger(&self) -> (r: &Erc20<DegenParams>)
        requires
            self.wf(),
        ensures
            r.wf(),
            r@ == self@.ledger,
    {
        &self.erc20
    }

    /// Who administers the game.
    pub fn owner(&self) -> (r: Address)
        ensures
            r == self@.owner,
    {
        self.owner
    }

    /// Every address that ever registered, in the order of registration.
    pub fn all_players(&self) -> (r: &Vec<Address>)
        ensures
            r@ == self@.all_players,
    {
        &self.all_players
    }

    /// The record of the player `address`, if there is one.
    pub fn player(&self, address: Address) -> (r: Option<&Player>)
        requires
            self.wf(),
        ensures
            match r {
                Some(record) => self@.players.contains_key(address) && *record
                    == self@.players[address],
                None => !self@.players.contains_key(address),
            },
    {
        self.players.get(&address)
    }

    /// The record of the property `prop_id`, if it is listed.
    pub fn game_prop(&self, prop_id: Bytes32) -> (r: Option<&GameProp>)
        requires
            self.wf(),
        ensures
            match r {
                Some(record) => self@.game_props.contains_key(prop_id) && *record
                    == self@.game_props[prop_id],
                None => !self@.game_props.contains_key(prop_id),
            },
    {
        self.game_props.get(&prop_id)
    }

    /// The copy of the property `prop_id` filed under what `player` bought,
    /// if there is one.
    pub fn player_prop(&self, player: Address, prop_id: Bytes32) -> (r: Option<&GameProp>)
        requires
            self.wf(),
        ensures
            match r {
                Some(record) => self@.player_props.contains_key((player, prop_id)) && *record
                    == self@.player_props[(player, prop_id)],
                None => !self@.player_props.contains_key((player, prop_id)),
            },
    {
        self.player_props.get(&(player, prop_id))
    }
}

} // verus!
