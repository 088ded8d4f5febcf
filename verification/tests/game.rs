use degen::hashing::prop_id;
use degen::primitives::{Address, Bytes32, U256};
use degen::utility::{Erc20Error, Event};
use degen::{Degen, GameProp, Player};

fn who(tag: u8) -> Address {
    Address::new([tag; 20])
}

fn tokens(value: u64) -> U256 {
    U256::from_u64(value)
}

const ADMIN: u8 = 1;
const STORE: u8 = 200;

fn new_game() -> Degen {
    Degen::constructor(who(ADMIN))
}

fn game_with_player(player: Address, plays: u64) -> Degen {
    let mut game = new_game();
    game.player_register(player, String::from("dean"), 1_700_000_000).unwrap();
    for _ in 0..plays {
        game.play_game(player).unwrap();
    }
    game
}

#[test]
fn constructor_sets_both_owners() {
    let game = new_game();
    assert_eq!(game.owner(), who(ADMIN));
    assert_eq!(game.only_owner(who(ADMIN)), Ok(()));
    assert_eq!(game.ledger().only_owner(who(ADMIN)), Ok(()));
    assert_eq!(game.ledger().only_owner(who(2)), Err(Erc20Error::OnlyOwner));
    assert!(game.all_players().is_empty());
    assert_eq!(game.ledger().total_supply(), tokens(0));
    assert!(game.ledger().events().is_empty());
}

#[test]
fn register_creates_the_record() {
    let alice = who(2);
    let mut game = new_game();
    assert_eq!(game.player_register(alice, String::from("alice"), 1234), Ok(()));
    assert_eq!(
        game.player(alice),
        Some(&Player {
            player_id: alice,
            player_nick: String::from("alice"),
            register_at: tokens(1234),
            score: 0,
            is_registered: true,
        })
    );
    assert_eq!(game.all_players(), &vec![alice]);
    assert_eq!(
        game.ledger().events(),
        &vec![Event::PlayerRegisters { player: alice, success: true }]
    );
    assert_eq!(game.reg_check(alice), Ok(()));
    assert_eq!(game.reg_check(who(3)), Err(Erc20Error::NotRegistered));
}

#[test]
fn register_twice_is_rejected() {
    let alice = who(2);
    let mut game = new_game();
    game.player_register(alice, String::from("alice"), 1).unwrap();
    game.play_game(alice).unwrap();
    assert_eq!(
        game.player_register(alice, String::from("other"), 2),
        Err(Erc20Error::Registered)
    );
    assert_eq!(game.all_players().len(), 1);
    let record = game.player(alice).unwrap();
    assert_eq!(record.player_nick, "alice");
    assert_eq!(record.score, 1);
    assert_eq!(record.register_at, tokens(1));
    assert_eq!(game.ledger().events().len(), 1);
}

#[test]
fn register_rejects_zero_address_and_owner() {
    let mut game = new_game();
    assert_eq!(
        game.player_register(Address::zero(), String::from("nobody"), 1),
        Err(Erc20Error::AddressZero { zero: Address::zero() })
    );
    assert_eq!(
        game.player_register(who(ADMIN), String::from("admin"), 1),
        Err(Erc20Error::CannotRegister)
    );
    assert!(game.all_players().is_empty());
    assert_eq!(game.player(who(ADMIN)), None);
    assert_eq!(
        game.address_zero_check(Address::zero()),
        Err(Erc20Error::AddressZero { zero: Address::zero() })
    );
    assert_eq!(game.address_zero_check(who(ADMIN)), Ok(()));
}

#[test]
fn play_adds_one_to_the_score() {
    let alice = who(2);
    let mut game = game_with_player(alice, 0);
    assert!(game.can_play(alice));
    assert_eq!(game.play_game(alice), Ok(()));
    assert_eq!(game.play_game(alice), Ok(()));
    assert_eq!(game.player(alice).unwrap().score, 2);
    assert_eq!(game.player(alice).unwrap().player_nick, "dean");
    assert_eq!(game.ledger().events().len(), 1);
}

#[test]
fn play_without_a_record_is_rejected() {
    let mut game = new_game();
    assert!(game.can_play(who(5)));
    assert_eq!(game.play_game(who(5)), Err(Erc20Error::NotFound));
    assert_eq!(game.player(who(5)), None);
}

#[test]
fn suspended_player_still_scores() {
    let alice = who(2);
    let mut game = game_with_player(alice, 1);
    game.suspend_player(who(ADMIN), alice).unwrap();
    assert_eq!(game.play_game(alice), Ok(()));
    assert_eq!(game.player(alice).unwrap().score, 2);
    assert!(!game.player(alice).unwrap().is_registered);
}

#[test]
fn suspend_and_reinstate() {
    let alice = who(2);
    let admin = who(ADMIN);
    let mut game = game_with_player(alice, 3);
    assert_eq!(game.reinstate_player(admin, alice), Err(Erc20Error::NotSuspended));
    assert_eq!(game.suspend_player(admin, alice), Ok(()));
    assert_eq!(game.reg_check(alice), Err(Erc20Error::NotRegistered));
    assert_eq!(game.player(alice).unwrap().score, 3);
    assert_eq!(game.suspend_player(admin, alice), Err(Erc20Error::NotFound));
    assert_eq!(game.reinstate_player(admin, alice), Ok(()));
    assert_eq!(game.reg_check(alice), Ok(()));
    assert_eq!(game.player(alice).unwrap().score, 3);
    assert_eq!(game.all_players().len(), 1);
}

#[test]
fn suspend_and_reinstate_of_unknown_address() {
    let admin = who(ADMIN);
    let mut game = new_game();
    assert_eq!(game.suspend_player(admin, who(7)), Err(Erc20Error::NotFound));
    assert_eq!(game.reinstate_player(admin, who(7)), Err(Erc20Error::NotFound));
    assert_eq!(game.player(who(7)), None);
}

#[test]
fn suspended_player_may_register_anew() {
    let alice = who(2);
    let admin = who(ADMIN);
    let mut game = game_with_player(alice, 4);
    game.suspend_player(admin, alice).unwrap();
    assert_eq!(game.player_register(alice, String::from("again"), 99), Ok(()));
    let record = game.player(alice).unwrap();
    assert_eq!(record.score, 0);
    assert_eq!(record.player_nick, "again");
    assert!(record.is_registered);
    assert_eq!(game.all_players(), &vec![alice, alice]);
}

#[test]
fn rewards_follow_the_score_tiers() {
    let admin = who(ADMIN);
    let low = who(2);
    let middle = who(3);
    let high = who(4);
    let mut game = new_game();
    for (player, plays) in [(low, 5), (middle, 30), (high, 60)] {
        game.player_register(player, String::from("p"), 1).unwrap();
        for _ in 0..plays {
            game.play_game(player).unwrap();
        }
    }
    assert_eq!(game.pending_rewards(), tokens(765));
    assert!(game.can_distribute());
    assert_eq!(game.distribute_reward_to_players(admin), Ok(()));
    assert_eq!(game.player_check_balance(low), tokens(15));
    assert_eq!(game.player_check_balance(middle), tokens(150));
    assert_eq!(game.player_check_balance(high), tokens(600));
    assert_eq!(game.ledger().total_supply(), tokens(765));
    let events = game.ledger().events();
    assert_eq!(events.len(), 7);
    assert_eq!(events[3], Event::Transfer { from: Address::zero(), to: low, value: tokens(15) });
    assert_eq!(events[4], Event::Transfer { from: Address::zero(), to: middle, value: tokens(150) });
    assert_eq!(events[5], Event::Transfer { from: Address::zero(), to: high, value: tokens(600) });
    assert_eq!(
        events[6],
        Event::RewardDistributed { total_rewards: tokens(765), number_of_players: tokens(3) }
    );
    assert_eq!(game.player(high).unwrap().score, 60);
}

#[test]
fn rewards_at_the_tier_boundaries() {
    let admin = who(ADMIN);
    let mut game = new_game();
    let cases = [(who(2), 10u64, 30u64), (who(3), 11, 55), (who(4), 50, 250), (who(5), 51, 510), (who(6), 0, 0)];
    for (player, plays, _) in cases {
        game.player_register(player, String::from("p"), 1).unwrap();
        for _ in 0..plays {
            game.play_game(player).unwrap();
        }
    }
    game.distribute_reward_to_players(admin).unwrap();
    for (player, _, reward) in cases {
        assert_eq!(game.player_check_balance(player), tokens(reward));
    }
    game.distribute_reward_to_players(admin).unwrap();
    for (player, _, reward) in cases {
        assert_eq!(game.player_check_balance(player), tokens(2 * reward));
    }
    assert_eq!(game.ledger().total_supply(), tokens(2 * 845));
}

#[test]
fn rewards_need_players() {
    let mut game = new_game();
    assert_eq!(game.distribute_reward_to_players(who(ADMIN)), Err(Erc20Error::NoPlayer));
    assert_eq!(game.pending_rewards(), tokens(0));
    assert!(game.ledger().events().is_empty());
    assert_eq!(game.ledger().total_supply(), tokens(0));
}

#[test]
fn rewards_reach_suspended_players_too() {
    let alice = who(2);
    let mut game = game_with_player(alice, 2);
    game.suspend_player(who(ADMIN), alice).unwrap();
    game.distribute_reward_to_players(who(ADMIN)).unwrap();
    assert_eq!(game.player_check_balance(alice), tokens(6));
}

#[test]
fn owner_operations_reject_everybody_else() {
    let alice = who(2);
    let bob = who(3);
    let mut game = game_with_player(alice, 7);
    game.player_register(bob, String::from("bob"), 2).unwrap();
    game.suspend_player(who(ADMIN), bob).unwrap();
    let events_before = game.ledger().events().len();

    assert_eq!(game.mint(alice, alice, tokens(5)), Err(Erc20Error::OnlyOwner));
    assert_eq!(game.distribute_reward_to_players(alice), Err(Erc20Error::OnlyOwner));
    assert_eq!(game.suspend_player(alice, alice), Err(Erc20Error::OnlyOwner));
    assert_eq!(game.reinstate_player(alice, bob), Err(Erc20Error::OnlyOwner));
    assert_eq!(
        game.add_game_prop(alice, who(STORE), String::from("sword"), tokens(50)),
        Err(Erc20Error::OnlyOwner)
    );
    assert_eq!(
        game.put_game_prop(alice, who(STORE), Bytes32::new([9; 32]), String::from("x"), tokens(1)),
        Err(Erc20Error::OnlyOwner)
    );
    assert_eq!(game.only_owner(alice), Err(Erc20Error::OnlyOwner));

    assert_eq!(game.ledger().total_supply(), tokens(0));
    assert_eq!(game.player_check_balance(alice), tokens(0));
    assert_eq!(game.ledger().events().len(), events_before);
    assert!(game.player(alice).unwrap().is_registered);
    assert!(!game.player(bob).unwrap().is_registered);
    assert_eq!(game.game_prop(prop_id(&String::from("sword"), tokens(50))), None);
    assert_eq!(game.game_prop(Bytes32::new([9; 32])), None);
}

#[test]
fn player_to_player_transfer() {
    let admin = who(ADMIN);
    let alice = who(2);
    let bob = who(3);
    let mut game = game_with_player(alice, 0);
    game.mint(admin, alice, tokens(90)).unwrap();
    assert_eq!(game.player_p2p_transfer(alice, bob, tokens(40)), Ok(true));
    assert_eq!(game.player_check_balance(alice), tokens(50));
    assert_eq!(game.player_check_balance(bob), tokens(40));
    let events = game.ledger().events();
    assert_eq!(events[2], Event::Transfer { from: alice, to: bob, value: tokens(40) });
    assert_eq!(events[3], Event::PlayerP2P { sender: alice, recipient: bob, amount: tokens(40) });
    assert_eq!(events.len(), 4);
}

#[test]
fn player_to_player_transfer_rejections() {
    let admin = who(ADMIN);
    let alice = who(2);
    let bob = who(3);
    let zero = Address::zero();
    let mut game = game_with_player(alice, 0);
    game.mint(admin, alice, tokens(90)).unwrap();
    game.mint(admin, bob, tokens(10)).unwrap();
    assert_eq!(game.player_p2p_transfer(zero, bob, tokens(1)), Err(Erc20Error::AddressZero { zero }));
    assert_eq!(game.player_p2p_transfer(bob, alice, tokens(1)), Err(Erc20Error::NotRegistered));
    assert_eq!(game.player_p2p_transfer(alice, zero, tokens(1)), Err(Erc20Error::AddressZero { zero }));
    assert_eq!(
        game.player_p2p_transfer(alice, bob, tokens(91)),
        Err(Erc20Error::InsufficientBalance { from: alice, have: tokens(90), want: tokens(91) })
    );
    assert_eq!(game.player_check_balance(alice), tokens(90));
    assert_eq!(game.player_check_balance(bob), tokens(10));
    assert_eq!(game.ledger().events().len(), 3);
}

#[test]
fn players_burn_their_tokens() {
    let admin = who(ADMIN);
    let alice = who(2);
    let bob = who(3);
    let mut game = game_with_player(alice, 0);
    game.mint(admin, alice, tokens(90)).unwrap();
    game.mint(admin, bob, tokens(10)).unwrap();
    assert_eq!(game.player_burn_token(bob, tokens(1)), Err(Erc20Error::NotRegistered));
    assert_eq!(
        game.player_burn_token(alice, tokens(91)),
        Err(Erc20Error::InsufficientBalance { from: alice, have: tokens(90), want: tokens(91) })
    );
    assert_eq!(game.ledger().total_supply(), tokens(100));
    assert_eq!(game.player_burn_token(alice, tokens(30)), Ok(()));
    assert_eq!(game.player_check_balance(alice), tokens(60));
    assert_eq!(game.ledger().total_supply(), tokens(70));
}

#[test]
fn listing_and_buying_a_prop() {
    let admin = who(ADMIN);
    let store = who(STORE);
    let buyer = who(2);
    let mut game = game_with_player(buyer, 0);
    game.mint(admin, buyer, tokens(80)).unwrap();
    assert_eq!(game.add_game_prop(admin, store, String::from("sword"), tokens(50)), Ok(()));
    let id = prop_id(&String::from("sword"), tokens(50));
    assert_eq!(
        game.game_prop(id),
        Some(&GameProp {
            current_owner: store,
            prop_id: id,
            prop_name: String::from("sword"),
            worth: tokens(50),
        })
    );
    assert_eq!(game.player_prop(buyer, id), None);

    assert_eq!(game.player_buys_from_game_store(buyer, store, id), Ok(()));
    assert_eq!(game.player_check_balance(buyer), tokens(30));
    assert_eq!(game.player_check_balance(store), tokens(50));
    let bought = GameProp {
        current_owner: buyer,
        prop_id: id,
        prop_name: String::from("sword"),
        worth: tokens(50),
    };
    assert_eq!(game.game_prop(id), Some(&bought));
    assert_eq!(game.player_prop(buyer, id), Some(&bought));
    let events = game.ledger().events();
    assert_eq!(events[2], Event::Transfer { from: buyer, to: store, value: tokens(50) });
    assert_eq!(
        events[3],
        Event::PropBought { new_owner: buyer, prop_id: id, prop_name: String::from("sword") }
    );
    assert_eq!(game.ledger().total_supply(), tokens(80));
}

#[test]
fn second_buyer_pays_the_store_again() {
    let admin = who(ADMIN);
    let store = who(STORE);
    let first = who(2);
    let second = who(3);
    let mut game = game_with_player(first, 0);
    game.player_register(second, String::from("second"), 5).unwrap();
    game.mint(admin, first, tokens(50)).unwrap();
    game.add_game_prop(admin, store, String::from("sword"), tokens(50)).unwrap();
    let id = prop_id(&String::from("sword"), tokens(50));
    game.player_buys_from_game_store(first, store, id).unwrap();

    assert_eq!(game.player_buys_from_game_store(second, store, id), Err(Erc20Error::Insufficient));
    assert_eq!(game.game_prop(id).unwrap().current_owner, first);

    game.mint(admin, second, tokens(70)).unwrap();
    assert_eq!(game.player_buys_from_game_store(second, store, id), Ok(()));
    assert_eq!(game.game_prop(id).unwrap().current_owner, second);
    assert_eq!(game.player_prop(second, id).unwrap().current_owner, second);
    assert_eq!(game.player_prop(first, id).unwrap().current_owner, first);
    assert_eq!(game.player_check_balance(second), tokens(20));
    assert_eq!(game.player_check_balance(first), tokens(0));
    assert_eq!(game.player_check_balance(store), tokens(100));
}

#[test]
fn buying_rejections() {
    let admin = who(ADMIN);
    let store = who(STORE);
    let buyer = who(2);
    let stranger = who(3);
    let zero = Address::zero();
    let mut game = game_with_player(buyer, 0);
    game.mint(admin, buyer, tokens(49)).unwrap();
    game.mint(admin, stranger, tokens(500)).unwrap();
    game.add_game_prop(admin, store, String::from("sword"), tokens(50)).unwrap();
    game.add_game_prop(admin, zero, String::from("ghost"), tokens(1)).unwrap();
    let sword = prop_id(&String::from("sword"), tokens(50));
    let ghost = prop_id(&String::from("ghost"), tokens(1));
    let unknown = prop_id(&String::from("sword"), tokens(49));

    assert_eq!(
        game.player_buys_from_game_store(stranger, store, sword),
        Err(Erc20Error::NotRegistered)
    );
    assert_eq!(game.player_buys_from_game_store(buyer, store, unknown), Err(Erc20Error::NotFound));
    assert_eq!(game.player_buys_from_game_store(buyer, store, ghost), Err(Erc20Error::NotFound));
    assert_eq!(game.player_buys_from_game_store(buyer, store, sword), Err(Erc20Error::Insufficient));
    game.mint(admin, buyer, tokens(1)).unwrap();
    assert_eq!(
        game.player_buys_from_game_store(buyer, zero, sword),
        Err(Erc20Error::TransferFailed)
    );

    assert_eq!(game.player_check_balance(buyer), tokens(50));
    assert_eq!(game.game_prop(sword).unwrap().current_owner, store);
    assert_eq!(game.player_prop(buyer, sword), None);
    assert_eq!(game.ledger().events().len(), 4);
}

#[test]
fn relisting_overwrites_the_record() {
    let admin = who(ADMIN);
    let buyer = who(2);
    let mut game = game_with_player(buyer, 0);
    game.mint(admin, buyer, tokens(50)).unwrap();
    game.add_game_prop(admin, who(STORE), String::from("sword"), tokens(50)).unwrap();
    let id = prop_id(&String::from("sword"), tokens(50));
    game.player_buys_from_game_store(buyer, who(STORE), id).unwrap();
    assert_eq!(game.game_prop(id).unwrap().current_owner, buyer);

    game.add_game_prop(admin, who(201), String::from("sword"), tokens(50)).unwrap();
    assert_eq!(
        game.game_prop(id),
        Some(&GameProp {
            current_owner: who(201),
            prop_id: id,
            prop_name: String::from("sword"),
            worth: tokens(50),
        })
    );
    assert_eq!(game.player_prop(buyer, id).unwrap().current_owner, buyer);
}

#[test]
fn put_game_prop_files_under_the_given_id() {
    let admin = who(ADMIN);
    let id = Bytes32::new([7; 32]);
    let mut game = new_game();
    assert_eq!(game.put_game_prop(admin, who(STORE), id, String::from("bow"), tokens(3)), Ok(()));
    assert_eq!(
        game.game_prop(id),
        Some(&GameProp {
            current_owner: who(STORE),
            prop_id: id,
            prop_name: String::from("bow"),
            worth: tokens(3),
        })
    );
}

#[test]
fn ledger_operations_through_the_game() {
    let admin = who(ADMIN);
    let holder = who(2);
    let spender = who(3);
    let mut game = new_game();
    assert!(game.ledger().can_mint(tokens(100)));
    assert_eq!(game.mint(admin, holder, tokens(100)), Ok(()));
    assert_eq!(game.approve(holder, spender, tokens(100)), Ok(true));
    assert_eq!(game.ledger().allowance(holder, spender), tokens(100));
    assert_eq!(game.transfer_from(spender, holder, spender, tokens(100)), Ok(true));
    assert_eq!(game.ledger().balance_of(holder), tokens(0));
    assert_eq!(game.ledger().balance_of(spender), tokens(100));
    assert_eq!(game.ledger().allowance(holder, spender), tokens(0));
    assert_eq!(
        game.transfer_from(spender, holder, spender, tokens(1)),
        Err(Erc20Error::InsufficientAllowance {
            owner: holder,
            spender,
            have: tokens(0),
            want: tokens(1),
        })
    );
}
