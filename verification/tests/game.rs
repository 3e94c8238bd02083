use shellshock::game::{
    claim_reward, create_game, initialize_round, join_game, reload, shoot, use_item, ClaimReward,
    Clock, CreateGame, Game, GameEvent, GamePhase, InitializeRound, JoinGame, PlayerAction,
    Pubkey, ShellshockError, Vault,
};
use shellshock::chamber::load_chamber;

fn key(n: u64) -> Pubkey {
    Pubkey { w0: n, w1: 0, w2: 0, w3: 0 }
}

fn blank_game() -> Game {
    Game {
        player_1: Pubkey::default(),
        player_2: Pubkey::default(),
        bet_lamports: 0,
        phase: GamePhase::WaitingForPlayer,
        turn: 0,
        player_1_health: 0,
        player_2_health: 0,
        chamber_position: 0,
        chamber_flags: 0,
        bullets_loaded: 0,
        actions_this_round: 0,
        round: 0,
        winner: None,
        bump: 0,
    }
}

const P1: u64 = 11;
const P2: u64 = 22;
const GAME: u64 = 100;
const VAULT: u64 = 200;

fn created(bet: u64) -> Game {
    let mut ctx = CreateGame {
        game: blank_game(),
        game_key: key(GAME),
        vault: Vault { bump: 0 },
        vault_key: key(VAULT),
        player_1: key(P1),
        game_bump: 254,
        vault_bump: 253,
    };
    create_game(&mut ctx, bet).expect("create");
    ctx.game
}

fn joined(bet: u64) -> Game {
    let mut ctx = JoinGame { game: created(bet), game_key: key(GAME), vault_key: key(VAULT), player_2: key(P2) };
    join_game(&mut ctx).expect("join");
    ctx.game
}

fn started(seed: u64, clock: Clock) -> Game {
    let mut ctx = InitializeRound { game: joined(1_000), game_key: key(GAME) };
    initialize_round(&mut ctx, seed, clock).expect("round");
    ctx.game
}

fn act(game: Game, player: u64) -> PlayerAction {
    PlayerAction { game, game_key: key(GAME), player: key(player) }
}

#[test]
fn create_game_opens_waiting_game_and_stakes_bet() {
    let mut ctx = CreateGame {
        game: blank_game(),
        game_key: key(GAME),
        vault: Vault { bump: 0 },
        vault_key: key(VAULT),
        player_1: key(P1),
        game_bump: 254,
        vault_bump: 253,
    };
    let (transfer, event) = create_game(&mut ctx, 5_000).expect("create");
    assert_eq!(ctx.game.player_1, key(P1));
    assert_eq!(ctx.game.player_2, Pubkey::default());
    assert_eq!(ctx.game.phase, GamePhase::WaitingForPlayer);
    assert_eq!(ctx.game.player_1_health, 100);
    assert_eq!(ctx.game.player_2_health, 100);
    assert_eq!(ctx.game.round, 0);
    assert_eq!(ctx.game.bump, 254);
    assert_eq!(ctx.vault.bump, 253);
    assert_eq!(ctx.game.winner, None);
    assert_eq!(transfer.from, key(P1));
    assert_eq!(transfer.to, key(VAULT));
    assert_eq!(transfer.amount, 5_000);
    assert_eq!(event.game, key(GAME));
    assert_eq!(event.bet_lamports, 5_000);
}

#[test]
fn create_game_refuses_zero_bet() {
    let mut ctx = CreateGame {
        game: blank_game(),
        game_key: key(GAME),
        vault: Vault { bump: 0 },
        vault_key: key(VAULT),
        player_1: key(P1),
        game_bump: 1,
        vault_bump: 2,
    };
    assert_eq!(create_game(&mut ctx, 0).unwrap_err(), ShellshockError::InvalidBet);
    assert_eq!(ctx.game.phase, GamePhase::WaitingForPlayer);
    assert_eq!(ctx.game.player_1, Pubkey::default());
}

#[test]
fn join_game_seats_second_player() {
    let mut ctx = JoinGame { game: created(7), game_key: key(GAME), vault_key: key(VAULT), player_2: key(P2) };
    let (transfer, event) = join_game(&mut ctx).expect("join");
    assert_eq!(ctx.game.player_2, key(P2));
    assert_eq!(ctx.game.phase, GamePhase::WaitingForVrf);
    assert_eq!(transfer.from, key(P2));
    assert_eq!(transfer.to, key(VAULT));
    assert_eq!(transfer.amount, 7);
    assert_eq!(event.player_2, key(P2));
}

#[test]
fn join_game_errors() {
    let mut own = JoinGame { game: created(7), game_key: key(GAME), vault_key: key(VAULT), player_2: key(P1) };
    assert_eq!(join_game(&mut own).unwrap_err(), ShellshockError::CannotPlayWithSelf);

    let mut again = JoinGame { game: joined(7), game_key: key(GAME), vault_key: key(VAULT), player_2: key(33) };
    assert_eq!(join_game(&mut again).unwrap_err(), ShellshockError::InvalidPhase);

    let mut full_game = created(7);
    full_game.player_2 = key(44);
    let mut full = JoinGame { game: full_game, game_key: key(GAME), vault_key: key(VAULT), player_2: key(33) };
    assert_eq!(join_game(&mut full).unwrap_err(), ShellshockError::GameFull);
    assert_eq!(full.game.player_2, key(44));
}

#[test]
fn initialize_round_loads_three_rounds() {
    let game = started(0, Clock { slot: 5, unix_timestamp: 0 });
    assert_eq!(game.phase, GamePhase::Playing);
    assert_eq!(game.chamber_flags, 0b101001);
    assert_eq!(game.bullets_loaded, 3);
    assert_eq!(game.chamber_position, 0);
    assert_eq!(game.turn, 0);
    assert_eq!(game.round, 1);
}

#[test]
fn initialize_round_reports_cylinder() {
    let mut ctx = InitializeRound { game: joined(1), game_key: key(GAME) };
    let event = initialize_round(&mut ctx, 7, Clock { slot: 100, unix_timestamp: 1_700_000_000 }).expect("round");
    assert_eq!(event.chamber_flags, 0b1101);
    assert_eq!(event.round, 1);
    assert_eq!(event.game, key(GAME));
    assert_eq!(ctx.game.chamber_flags, 0b1101);
}

#[test]
fn initialize_round_errors() {
    let mut waiting = InitializeRound { game: created(1), game_key: key(GAME) };
    assert_eq!(initialize_round(&mut waiting, 1, Clock { slot: 1, unix_timestamp: 1 }).unwrap_err(), ShellshockError::InvalidPhase);
    let mut empty = created(1);
    empty.phase = GamePhase::WaitingForVrf;
    let mut not_full = InitializeRound { game: empty, game_key: key(GAME) };
    assert_eq!(initialize_round(&mut not_full, 1, Clock { slot: 1, unix_timestamp: 1 }).unwrap_err(), ShellshockError::GameNotFull);
}

#[test]
fn load_chamber_values() {
    assert_eq!(load_chamber(0), 0b101001);
    assert_eq!(load_chamber(1), 0b1011);
    assert_eq!(load_chamber(42), 0b11001);
    assert_eq!(load_chamber(7400404297239673598), 0b1110);
    for e in [3u64, 99, u64::MAX, 123456789] {
        assert_eq!(load_chamber(e).count_ones(), 3);
        assert!(load_chamber(e) < 64);
    }
}

#[test]
fn a_full_round_of_moves() {
    let game = started(0, Clock { slot: 5, unix_timestamp: 0 });
    // Player one fires chamber 0, which is live.
    let mut ctx = act(game, P1);
    let events = shoot(&mut ctx).expect("shot");
    assert_eq!(ctx.game.player_2_health, 70);
    assert_eq!(ctx.game.bullets_loaded, 2);
    assert_eq!(ctx.game.chamber_flags, 0b101000);
    assert_eq!(ctx.game.chamber_position, 1);
    assert_eq!(ctx.game.turn, 1);
    assert_eq!(events.len(), 1);
    match &events[0] {
        GameEvent::ShotFired(e) => {
            assert!(e.bullet);
            assert_eq!(e.chamber, 1);
            assert_eq!(e.shooter, key(P1));
        },
        _ => panic!("expected a shot"),
    }
    // Player two fires chamber 1, which is empty.
    let mut ctx = act(ctx.game, P2);
    let events = shoot(&mut ctx).expect("shot");
    assert_eq!(ctx.game.player_1_health, 100);
    assert_eq!(ctx.game.turn, 0);
    match &events[0] {
        GameEvent::ShotFired(e) => assert!(!e.bullet),
        _ => panic!("expected a shot"),
    }
    // Player one loads chamber 2.
    let mut ctx = act(ctx.game, P1);
    let events = reload(&mut ctx).expect("reload");
    assert_eq!(ctx.game.chamber_flags, 0b101100);
    assert_eq!(ctx.game.bullets_loaded, 3);
    assert_eq!(ctx.game.chamber_position, 3);
    match &events[0] {
        GameEvent::GunReloaded(e) => assert_eq!(e.chamber, 3),
        _ => panic!("expected a reload"),
    }
    // Player two heals.
    let mut ctx = act(ctx.game, P2);
    let events = use_item(&mut ctx, 1).expect("item");
    assert_eq!(ctx.game.player_2_health, 90);
    assert_eq!(ctx.game.turn, 0);
    match &events[0] {
        GameEvent::ItemUsed(e) => assert_eq!(e.item_type, 1),
        _ => panic!("expected an item"),
    }
    // Player one fires chamber 4, which is empty.
    let mut ctx = act(ctx.game, P1);
    shoot(&mut ctx).expect("shot");
    assert_eq!(ctx.game.actions_this_round, 5);
    // Player two fires chamber 5, which is live: the sixth action ends the round.
    let mut ctx = act(ctx.game, P2);
    let events = shoot(&mut ctx).expect("shot");
    assert_eq!(ctx.game.player_1_health, 70);
    assert_eq!(ctx.game.phase, GamePhase::WaitingForVrf);
    assert_eq!(ctx.game.chamber_position, 0);
    assert_eq!(events.len(), 2);
    match &events[0] {
        GameEvent::RoundEnded(e) => assert_eq!(e.round, 1),
        _ => panic!("expected the round to end"),
    }
    match &events[1] {
        GameEvent::ShotFired(e) => {
            assert!(e.bullet);
            assert_eq!(e.chamber, 0);
        },
        _ => panic!("expected a shot"),
    }
}

#[test]
fn round_ends_when_cylinder_is_empty() {
    let mut game = started(0, Clock { slot: 5, unix_timestamp: 0 });
    game.chamber_flags = 0b1;
    game.bullets_loaded = 1;
    let mut ctx = act(game, P1);
    let events = shoot(&mut ctx).expect("shot");
    assert_eq!(ctx.game.bullets_loaded, 0);
    assert_eq!(ctx.game.phase, GamePhase::WaitingForVrf);
    assert!(matches!(events[0], GameEvent::RoundEnded(_)));
}

#[test]
fn last_hit_wins_and_winner_claims() {
    let mut game = started(0, Clock { slot: 5, unix_timestamp: 0 });
    game.player_2_health = 10;
    let mut ctx = act(game, P1);
    let events = shoot(&mut ctx).expect("shot");
    assert_eq!(ctx.game.player_2_health, 0);
    assert_eq!(ctx.game.phase, GamePhase::Finished);
    assert_eq!(ctx.game.winner, Some(key(P1)));
    match &events[0] {
        GameEvent::GameFinished(e) => assert_eq!(e.winner, key(P1)),
        _ => panic!("expected the game to finish"),
    }
    let finished = ctx.game;
    let mut late = act(finished, P2);
    assert_eq!(shoot(&mut late).unwrap_err(), ShellshockError::InvalidPhase);
    let claim = ClaimReward { game: finished, game_key: key(GAME), vault_lamports: 2_000, winner: key(P1) };
    let reward = claim_reward(&claim).expect("claim");
    assert_eq!(reward.amount, 2_000);
    assert_eq!(reward.winner, key(P1));
    let wrong = ClaimReward { game: finished, game_key: key(GAME), vault_lamports: 2_000, winner: key(P2) };
    assert_eq!(claim_reward(&wrong).unwrap_err(), ShellshockError::NotWinner);
    let early = ClaimReward { game: joined(1), game_key: key(GAME), vault_lamports: 2, winner: key(P1) };
    assert_eq!(claim_reward(&early).unwrap_err(), ShellshockError::InvalidPhase);
}

#[test]
fn move_errors() {
    let game = started(0, Clock { slot: 5, unix_timestamp: 0 });
    let mut wrong_turn = act(game, P2);
    assert_eq!(shoot(&mut wrong_turn).unwrap_err(), ShellshockError::NotYourTurn);
    assert_eq!(wrong_turn.game.chamber_position, 0);
    let mut bad_item = act(game, P1);
    assert_eq!(use_item(&mut bad_item, 2).unwrap_err(), ShellshockError::InvalidItem);
    let mut full = game;
    full.chamber_flags = 0b111111;
    full.bullets_loaded = 6;
    let mut full_ctx = act(full, P1);
    assert_eq!(reload(&mut full_ctx).unwrap_err(), ShellshockError::ChamberFull);
    let mut idle = act(joined(1), P1);
    assert_eq!(reload(&mut idle).unwrap_err(), ShellshockError::InvalidPhase);
    assert_eq!(use_item(&mut idle, 1).unwrap_err(), ShellshockError::InvalidPhase);
}

#[test]
fn heal_is_capped_at_full_health() {
    let mut game = started(0, Clock { slot: 5, unix_timestamp: 0 });
    game.player_1_health = 95;
    let mut ctx = act(game, P1);
    use_item(&mut ctx, 1).expect("item");
    assert_eq!(ctx.game.player_1_health, 100);
}

#[test]
fn reload_of_loaded_chamber_only_turns_cylinder() {
    let game = started(0, Clock { slot: 5, unix_timestamp: 0 });
    let mut ctx = act(game, P1);
    reload(&mut ctx).expect("reload");
    assert_eq!(ctx.game.chamber_flags, 0b101001);
    assert_eq!(ctx.game.bullets_loaded, 3);
    assert_eq!(ctx.game.chamber_position, 1);
}

#[test]
fn is_player_turn_follows_turn() {
    let mut game = joined(1);
    assert!(game.is_player_turn(&key(P1)));
    assert!(!game.is_player_turn(&key(P2)));
    game.turn = 1;
    assert!(game.is_player_turn(&key(P2)));
}

#[test]
fn error_messages() {
    assert_eq!(ShellshockError::InvalidBet.message(), "Bet amount must be greater than 0");
    assert_eq!(ShellshockError::NotWinner.message(), "Only the winner can claim the reward");
}
