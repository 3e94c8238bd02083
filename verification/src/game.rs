//! The on-chain Shell Shock game: a two-player revolver duel whose state
//! lives in one `Game` account. Every instruction either fails with a
//! `ShellshockError` and leaves the accounts untouched, or moves the game to
//! its next state and reports the events (and lamport transfer) it produces.
use vstd::prelude::*;

use crate::chamber::{
    bullet_count, chamber_bit, lemma_bullet_count_bounds, lemma_chamber_test, lemma_fire_chamber,
    lemma_load_chamber, lemma_loaded_chamber, load_chamber, loaded_chamber,
};

verus! {

/// Health every player starts with, and the most a heal can restore to.
pub const MAX_HEALTH: u8 = 100;

/// Health a live round removes from the opponent.
pub const SHOT_DAMAGE: u8 = 30;

/// Health the healing item restores.
pub const HEAL_AMOUNT: u8 = 20;

/// Number of chambers in the cylinder.
pub const CHAMBER_SIZE: u8 = 6;

/// Number of live rounds loaded at the start of every round.
pub const ROUND_BULLETS: u8 = 3;

/// Item code of the healing item, the only item the game knows.
pub const HEAL_ITEM: u8 = 1;

/// Actions after which a round ends even with live rounds left.
pub const ACTIONS_PER_ROUND: u8 = 6;

/// A 32-byte account address, held as four little-endian 64-bit words.
#[derive(Clone, Copy, Debug, PartialEq, Eq, Structural)]
pub struct Pubkey {
    pub w0: u64,
    pub w1: u64,
    pub w2: u64,
    pub w3: u64,
}

impl Pubkey {
    /// The all-zero address, which marks an empty player slot.
    pub open spec fn zero() -> Pubkey {
        Pubkey { w0: 0, w1: 0, w2: 0, w3: 0 }
    }
}

impl Default for Pubkey {
    fn default() -> (k: Self)
        ensures
            k == Pubkey::zero(),
    {
        Pubkey { w0: 0, w1: 0, w2: 0, w3: 0 }
    }
}

#[derive(Clone, Copy, Debug, PartialEq, Eq, Structural)]
pub enum GamePhase {
    WaitingForPlayer,
    WaitingForVrf,
    Playing,
    Finished,
}

/// The state of one duel.
#[derive(Clone, Copy, Debug)]
pub struct Game {
    pub player_1: Pubkey,
    pub player_2: Pubkey,
    pub bet_lamports: u64,
    pub phase: GamePhase,
    pub turn: u8,
    pub player_1_health: u8,
    pub player_2_health: u8,
    pub chamber_position: u8,
    pub chamber_flags: u8,
    pub bullets_loaded: u8,
    pub actions_this_round: u8,
    pub round: u8,
    pub winner: Option<Pubkey>,
    pub bump: u8,
}

/// The escrow account that holds both bets.
#[derive(Clone, Copy, Debug)]
pub struct Vault {
    pub bump: u8,
}

#[derive(Clone, Copy, Debug, PartialEq, Eq, Structural)]
pub enum ShellshockError {
    InvalidBet,
    InvalidPhase,
    GameFull,
    CannotPlayWithSelf,
    GameNotFull,
    NotYourTurn,
    ChamberFull,
    NotWinner,
    InvalidItem,
}

impl ShellshockError {
    /// The text of the message that goes with each error.
    pub open spec fn message_text(self) -> Seq<char> {
        match self {
            ShellshockError::InvalidBet => "Bet amount must be greater than 0"@,
            ShellshockError::InvalidPhase => "Invalid game phase for this action"@,
            ShellshockError::GameFull => "Game is already full"@,
            ShellshockError::CannotPlayWithSelf => "Cannot play against yourself"@,
            ShellshockError::GameNotFull => "Game is not full yet"@,
            ShellshockError::NotYourTurn => "Not your turn"@,
            ShellshockError::ChamberFull => "Chamber is at maximum capacity"@,
            ShellshockError::NotWinner => "Only the winner can claim the reward"@,
            ShellshockError::InvalidItem => "Invalid item type"@,
        }
    }

    /// The message a client is shown for this error.
    pub fn message(&self) -> (m: &'static str)
        ensures
            m@ == self.message_text(),
    {
        match self {
            ShellshockError::InvalidBet => "Bet amount must be greater than 0",
            ShellshockError::InvalidPhase => "Invalid game phase for this action",
            ShellshockError::GameFull => "Game is already full",
            ShellshockError::CannotPlayWithSelf => "Cannot play against yourself",
            ShellshockError::GameNotFull => "Game is not full yet",
            ShellshockError::NotYourTurn => "Not your turn",
            ShellshockError::ChamberFull => "Chamber is at maximum capacity",
            ShellshockError::NotWinner => "Only the winner can claim the reward",
            ShellshockError::InvalidItem => "Invalid item type",
        }
    }
}


/// The accounts of `create_game`: the fresh game and vault, their addresses,
/// the creating player (the signer) and the bumps of the two derived addresses.
#[derive(Clone, Copy, Debug)]
pub struct CreateGame {
    pub game: Game,
    pub game_key: Pubkey,
    pub vault: Vault,
    pub vault_key: Pubkey,
    pub player_1: Pubkey,
    pub game_bump: u8,
    pub vault_bump: u8,
}

/// The accounts of `join_game`: the game, its address, the vault's address and the joining signer.
#[derive(Clone, Copy, Debug)]
pub struct JoinGame {
    pub game: Game,
    pub game_key: Pubkey,
    pub vault_key: Pubkey,
    pub player_2: Pubkey,
}

/// The accounts of `initialize_round`.
#[derive(Clone, Copy, Debug)]
pub struct InitializeRound {
    pub game: Game,
    pub game_key: Pubkey,
}

/// The accounts of a player's move: the game, its address and the acting signer.
#[derive(Clone, Copy, Debug)]
pub struct PlayerAction {
    pub game: Game,
    pub game_key: Pubkey,
    pub player: Pubkey,
}

/// The accounts of `claim_reward`: the game, its address, the lamports in the vault and the signer.
#[derive(Clone, Copy, Debug)]
pub struct ClaimReward {
    pub game: Game,
    pub game_key: Pubkey,
    pub vault_lamports: u64,
    pub winner: Pubkey,
}

/// The cluster clock an instruction reads.
#[derive(Clone, Copy, Debug)]
pub struct Clock {
    pub slot: u64,
    pub unix_timestamp: i64,
}

/// A lamport transfer the instruction asks the system program to make.
#[derive(Clone, Copy, Debug, PartialEq, Eq, Structural)]
pub struct Transfer {
    pub from: Pubkey,
    pub to: Pubkey,
    pub amount: u64,
}

#[derive(Clone, Copy, Debug, PartialEq, Eq, Structural)]
pub struct GameCreated {
    pub game: Pubkey,
    pub player_1: Pubkey,
    pub bet_lamports: u64,
}

#[derive(Clone, Copy, Debug, PartialEq, Eq, Structural)]
pub struct PlayerJoined {
    pub game: Pubkey,
    pub player_2: Pubkey,
}

#[derive(Clone, Copy, Debug, PartialEq, Eq, Structural)]
pub struct RoundStarted {
    pub game: Pubkey,
    pub round: u8,
    pub chamber_flags: u8,
}

#[derive(Clone, Copy, Debug, PartialEq, Eq, Structural)]
pub struct ShotFired {
    pub game: Pubkey,
    pub shooter: Pubkey,
    pub bullet: bool,
    pub chamber: u8,
}

#[derive(Clone, Copy, Debug, PartialEq, Eq, Structural)]
pub struct GunReloaded {
    pub game: Pubkey,
    pub player: Pubkey,
    pub chamber: u8,
}

#[derive(Clone, Copy, Debug, PartialEq, Eq, Structural)]
pub struct ItemUsed {
    pub game: Pubkey,
    pub player: Pubkey,
    pub item_type: u8,
}

#[derive(Clone, Copy, Debug, PartialEq, Eq, Structural)]
pub struct RoundEnded {
    pub game: Pubkey,
    pub round: u8,
}

#[derive(Clone, Copy, Debug, PartialEq, Eq, Structural)]
pub struct GameFinished {
    pub game: Pubkey,
    pub winner: Pubkey,
}

#[derive(Clone, Copy, Debug, PartialEq, Eq, Structural)]
pub struct RewardClaimed {
    pub game: Pubkey,
    pub winner: Pubkey,
    pub amount: u64,
}

/// An event a player's move emits, in emission order.
#[derive(Clone, Copy, Debug, PartialEq, Eq, Structural)]
pub enum GameEvent {
    ShotFired(ShotFired),
    GunReloaded(GunReloaded),
    ItemUsed(ItemUsed),
    RoundEnded(RoundEnded),
    GameFinished(GameFinished),
}

impl Game {
    /// The game `create_game` opens.
    pub open spec fn opened(player_1: Pubkey, bet_lamports: u64, bump: u8) -> Game {
        Game {
            player_1,
            player_2: Pubkey::zero(),
            bet_lamports,
            phase: GamePhase::WaitingForPlayer,
            turn: 0,
            player_1_health: MAX_HEALTH,
            player_2_health: MAX_HEALTH,
            chamber_position: 0,
            chamber_flags: 0,
            bullets_loaded: 0,
            actions_this_round: 0,
            round: 0,
            winner: None,
            bump,
        }
    }

    /// The player whose turn it is.
    pub open spec fn current_player(self) -> Pubkey {
        if self.turn == 0 {
            self.player_1
        } else {
            self.player_2
        }
    }

    /// The states a game reaches through its instructions.
    pub open spec fn wf(self) -> bool {
        &&& self.turn <= 1
        &&& self.chamber_position < CHAMBER_SIZE
        &&& self.chamber_flags < 64
        &&& self.bullets_loaded == bullet_count(self.chamber_flags)
        &&& self.player_1_health <= MAX_HEALTH
        &&& self.player_2_health <= MAX_HEALTH
        &&& (self.phase == GamePhase::Finished) == (self.winner is Some)
        &&& self.phase != GamePhase::Finished ==> self.player_1_health > 0
            && self.player_2_health > 0
        &&& self.winner matches Some(w) ==> ((w == self.player_1 && self.player_1_health > 0
            && self.player_2_health == 0) || (w == self.player_2 && self.player_2_health > 0
            && self.player_1_health == 0))
        &&& self.phase == GamePhase::Playing ==> self.actions_this_round < ACTIONS_PER_ROUND
            && self.bullets_loaded > 0 && self.round >= 1
        &&& self.phase == GamePhase::WaitingForPlayer ==> self.player_2 == Pubkey::zero()
        &&& self.phase != GamePhase::WaitingForPlayer ==> self.player_2 != self.player_1
    }

    pub fn is_player_turn(&self, player: &Pubkey) -> (r: bool)
        ensures
            r == (*player == self.current_player()),
    {
        let expected = if self.turn == 0 {
            &self.player_1
        } else {
            &self.player_2
        };
        *player == *expected
    }
}

/// What ends a move: one more action, the cylinder turns, and then the game
/// is won (a player is out of health), the round ends (no rounds left or six
/// actions taken), or the turn passes to the other player.
pub open spec fn resolve_round(g: Game, game_key: Pubkey) -> (Game, Option<GameEvent>) {
    let g1 = Game {
        actions_this_round: (g.actions_this_round + 1) as u8,
        chamber_position: ((g.chamber_position + 1) % CHAMBER_SIZE as int) as u8,
        ..g
    };
    if g1.player_1_health == 0 || g1.player_2_health == 0 {
        let w = if g1.player_1_health > 0 {
            g1.player_1
        } else {
            g1.player_2
        };
        (
            Game { phase: GamePhase::Finished, winner: Some(w), ..g1 },
            Some(GameEvent::GameFinished(GameFinished { game: game_key, winner: w })),
        )
    } else if g1.bullets_loaded == 0 || g1.actions_this_round >= ACTIONS_PER_ROUND {
        (
            Game { phase: GamePhase::WaitingForVrf, ..g1 },
            Some(GameEvent::RoundEnded(RoundEnded { game: game_key, round: g1.round })),
        )
    } else {
        (Game { turn: if g1.turn == 0 { 1 } else { 0 }, ..g1 }, None)
    }
}

/// The events of a move: what resolving the round emitted, then the move's own event.
pub open spec fn move_events(resolved: Option<GameEvent>, own: GameEvent) -> Seq<GameEvent> {
    match resolved {
        Some(e) => seq![e, own],
        None => seq![own],
    }
}

/// Why `join_game` refuses `signer`, if it does.
pub open spec fn join_error(g: Game, signer: Pubkey) -> Option<ShellshockError> {
    if g.phase != GamePhase::WaitingForPlayer {
        Some(ShellshockError::InvalidPhase)
    } else if g.player_2 != Pubkey::zero() {
        Some(ShellshockError::GameFull)
    } else if signer == g.player_1 {
        Some(ShellshockError::CannotPlayWithSelf)
    } else {
        None
    }
}

/// Why `initialize_round` refuses, if it does.
pub open spec fn round_error(g: Game) -> Option<ShellshockError> {
    if g.phase != GamePhase::WaitingForVrf {
        Some(ShellshockError::InvalidPhase)
    } else if g.player_2 == Pubkey::zero() {
        Some(ShellshockError::GameNotFull)
    } else {
        None
    }
}

/// The seed of a round's cylinder: slot times the caller's seed plus the clock's time.
pub open spec fn round_entropy(seed: u64, clock: Clock) -> u64 {
    clock.slot.wrapping_mul(seed).wrapping_add(clock.unix_timestamp as u64)
}

/// The game as a new round starts with cylinder `flags`.
pub open spec fn started_round(g: Game, flags: u8) -> Game {
    Game {
        chamber_flags: flags,
        bullets_loaded: ROUND_BULLETS,
        chamber_position: 0,
        actions_this_round: 0,
        turn: 0,
        phase: GamePhase::Playing,
        round: (g.round + 1) as u8,
        ..g
    }
}

/// Why a move by `player` is refused before its own checks, if it is.
pub open spec fn action_error(g: Game, player: Pubkey) -> Option<ShellshockError> {
    if g.phase != GamePhase::Playing {
        Some(ShellshockError::InvalidPhase)
    } else if player != g.current_player() {
        Some(ShellshockError::NotYourTurn)
    } else {
        None
    }
}

/// Why `reload` is refused, if it is.
pub open spec fn reload_error(g: Game, player: Pubkey) -> Option<ShellshockError> {
    if action_error(g, player) is Some {
        action_error(g, player)
    } else if g.bullets_loaded >= CHAMBER_SIZE {
        Some(ShellshockError::ChamberFull)
    } else {
        None
    }
}

/// Why `use_item` is refused, if it is.
pub open spec fn item_error(g: Game, player: Pubkey, item_type: u8) -> Option<ShellshockError> {
    if action_error(g, player) is Some {
        action_error(g, player)
    } else if item_type != HEAL_ITEM {
        Some(ShellshockError::InvalidItem)
    } else {
        None
    }
}

/// The game after the current chamber is fired, before the round is resolved:
/// a live round is spent and hits the opponent of the player whose turn it is.
pub open spec fn fired(g: Game) -> Game {
    if chamber_bit(g.chamber_flags, g.chamber_position) {
        let g1 = Game {
            chamber_flags: g.chamber_flags & !(1u8 << g.chamber_position),
            bullets_loaded: g.bullets_loaded.saturating_sub(1),
            ..g
        };
        if g.turn == 0 {
            Game { player_2_health: g.player_2_health.saturating_sub(SHOT_DAMAGE), ..g1 }
        } else {
            Game { player_1_health: g.player_1_health.saturating_sub(SHOT_DAMAGE), ..g1 }
        }
    } else {
        g
    }
}

/// The game after the current chamber is reloaded, before the round is resolved.
pub open spec fn reloaded(g: Game) -> Game {
    if !chamber_bit(g.chamber_flags, g.chamber_position) {
        Game {
            chamber_flags: g.chamber_flags | (1u8 << g.chamber_position),
            bullets_loaded: (g.bullets_loaded + 1) as u8,
            ..g
        }
    } else {
        g
    }
}

/// Health after a heal: twenty more, capped at the maximum.
pub open spec fn healed(health: u8) -> u8 {
    if health.saturating_add(HEAL_AMOUNT) <= MAX_HEALTH {
        health.saturating_add(HEAL_AMOUNT)
    } else {
        MAX_HEALTH
    }
}

/// The game after the player whose turn it is heals, before the round is resolved.
pub open spec fn healed_game(g: Game) -> Game {
    if g.turn == 0 {
        Game { player_1_health: healed(g.player_1_health), ..g }
    } else {
        Game { player_2_health: healed(g.player_2_health), ..g }
    }
}

/// Why `claim_reward` refuses `signer`, if it does.
pub open spec fn claim_error(g: Game, signer: Pubkey) -> Option<ShellshockError> {
    if g.phase != GamePhase::Finished {
        Some(ShellshockError::InvalidPhase)
    } else if Some(signer) != g.winner {
        Some(ShellshockError::NotWinner)
    } else {
        None
    }
}

/// Opens a game: player one stakes `bet_lamports` into the vault.
pub fn create_game(ctx: &mut CreateGame, bet_lamports: u64) -> (r: Result<(Transfer, GameCreated), ShellshockError>)
    ensures
        match r {
            Err(e) => bet_lamports == 0 && e == ShellshockError::InvalidBet && *final(ctx) == *old(ctx),
            Ok((t, ev)) => {
                &&& bet_lamports > 0
                &&& *final(ctx) == (CreateGame {
                    game: Game::opened(old(ctx).player_1, bet_lamports, old(ctx).game_bump),
                    vault: Vault { bump: old(ctx).vault_bump },
                    ..*old(ctx)
                })
                &&& t == (Transfer { from: old(ctx).player_1, to: old(ctx).vault_key, amount: bet_lamports })
                &&& ev == (GameCreated { game: old(ctx).game_key, player_1: old(ctx).player_1, bet_lamports })
            },
        },
        r is Ok ==> final(ctx).game.wf(),
{
    if bet_lamports == 0 {
        return Err(ShellshockError::InvalidBet);
    }
    ctx.game = Game {
        player_1: ctx.player_1,
        player_2: Pubkey::default(),
        bet_lamports,
        phase: GamePhase::WaitingForPlayer,
        turn: 0,
        player_1_health: MAX_HEALTH,
        player_2_health: MAX_HEALTH,
        chamber_position: 0,
        chamber_flags: 0,
        bullets_loaded: 0,
        actions_this_round: 0,
        round: 0,
        winner: None,
        bump: ctx.game_bump,
    };
    ctx.vault = Vault { bump: ctx.vault_bump };
    proof {
        assert(bullet_count(0u8) == 0) by (bit_vector);
    }
    let transfer = Transfer { from: ctx.player_1, to: ctx.vault_key, amount: bet_lamports };
    let event = GameCreated { game: ctx.game_key, player_1: ctx.player_1, bet_lamports };
    Ok((transfer, event))
}

/// Seats the signer as player two, who stakes the same bet into the vault.
pub fn join_game(ctx: &mut JoinGame) -> (r: Result<(Transfer, PlayerJoined), ShellshockError>)
    ensures
        match r {
            Err(e) => join_error(old(ctx).game, old(ctx).player_2) == Some(e) && *final(ctx) == *old(ctx),
            Ok((t, ev)) => {
                &&& join_error(old(ctx).game, old(ctx).player_2) is None
                &&& *final(ctx) == (JoinGame {
                    game: Game {
                        player_2: old(ctx).player_2,
                        phase: GamePhase::WaitingForVrf,
                        ..old(ctx).game
                    },
                    ..*old(ctx)
                })
                &&& t == (Transfer {
                    from: old(ctx).player_2,
                    to: old(ctx).vault_key,
                    amount: old(ctx).game.bet_lamports,
                })
                &&& ev == (PlayerJoined { game: old(ctx).game_key, player_2: old(ctx).player_2 })
            },
        },
        old(ctx).game.wf() ==> final(ctx).game.wf(),
{
    if ctx.game.phase != GamePhase::WaitingForPlayer {
        return Err(ShellshockError::InvalidPhase);
    }
    if ctx.game.player_2 != Pubkey::default() {
        return Err(ShellshockError::GameFull);
    }
    if ctx.player_2 == ctx.game.player_1 {
        return Err(ShellshockError::CannotPlayWithSelf);
    }
    ctx.game.player_2 = ctx.player_2;
    ctx.game.phase = GamePhase::WaitingForVrf;
    let transfer = Transfer {
        from: ctx.player_2,
        to: ctx.vault_key,
        amount: ctx.game.bet_lamports,
    };
    Ok((transfer, PlayerJoined { game: ctx.game_key, player_2: ctx.player_2 }))
}

/// Starts a round: loads three rounds into a cylinder seeded from the clock
/// and `seed`, and hands the first move to player one.
pub fn initialize_round(ctx: &mut InitializeRound, seed: u64, clock: Clock) -> (r: Result<RoundStarted, ShellshockError>)
    requires
        round_error(old(ctx).game) is None ==> old(ctx).game.round < u8::MAX,
    ensures
        match r {
            Err(e) => round_error(old(ctx).game) == Some(e) && *final(ctx) == *old(ctx),
            Ok(ev) => {
                let flags = loaded_chamber(round_entropy(seed, clock)).0;
                &&& round_error(old(ctx).game) is None
                &&& *final(ctx) == (InitializeRound {
                    game: started_round(old(ctx).game, flags),
                    ..*old(ctx)
                })
                &&& ev == (RoundStarted {
                    game: old(ctx).game_key,
                    round: final(ctx).game.round,
                    chamber_flags: flags,
                })
            },
        },
        old(ctx).game.wf() ==> final(ctx).game.wf(),
{
    if ctx.game.phase != GamePhase::WaitingForVrf {
        return Err(ShellshockError::InvalidPhase);
    }
    if ctx.game.player_2 == Pubkey::default() {
        return Err(ShellshockError::GameNotFull);
    }
    let entropy = clock.slot.wrapping_mul(seed).wrapping_add(clock.unix_timestamp as u64);
    let flags = load_chamber(entropy);
    ctx.game.chamber_flags = flags;
    ctx.game.bullets_loaded = ROUND_BULLETS;
    ctx.game.chamber_position = 0;
    ctx.game.actions_this_round = 0;
    ctx.game.turn = 0;
    ctx.game.phase = GamePhase::Playing;
    ctx.game.round = ctx.game.round + 1;
    proof {
        lemma_loaded_chamber(entropy);
    }
    Ok(RoundStarted { game: ctx.game_key, round: ctx.game.round, chamber_flags: flags })
}

/// Ends a move; see `resolve_round`.
fn advance_and_resolve_round(game: &mut Game, game_key: Pubkey) -> (ev: Option<GameEvent>)
    requires
        old(game).actions_this_round < u8::MAX,
        old(game).chamber_position < u8::MAX,
    ensures
        (*final(game), ev) == resolve_round(*old(game), game_key),
{
    game.actions_this_round = game.actions_this_round + 1;
    game.chamber_position = (game.chamber_position + 1) % CHAMBER_SIZE;
    if game.player_1_health == 0 || game.player_2_health == 0 {
        game.phase = GamePhase::Finished;
        let winner = if game.player_1_health > 0 {
            game.player_1
        } else {
            game.player_2
        };
        game.winner = Some(winner);
        Some(GameEvent::GameFinished(GameFinished { game: game_key, winner }))
    } else if game.bullets_loaded == 0 || game.actions_this_round >= ACTIONS_PER_ROUND {
        game.phase = GamePhase::WaitingForVrf;
        Some(GameEvent::RoundEnded(RoundEnded { game: game_key, round: game.round }))
    } else {
        game.turn = if game.turn == 0 {
            1
        } else {
            0
        };
        None
    }
}

/// Appends a move's own event to what resolving the round emitted.
fn push_move_events(resolved: Option<GameEvent>, own: GameEvent) -> (events: Vec<GameEvent>)
    ensures
        events@ == move_events(resolved, own),
{
    let mut events: Vec<GameEvent> = Vec::new();
    match resolved {
        Some(e) => events.push(e),
        None => {},
    }
    events.push(own);
    events
}

/// Resolving a move keeps a game in its reachable states when the move
/// kept the cylinder, health and phase facts that hold while playing.
proof fn lemma_resolve_keeps_wf(before: Game, g: Game, game_key: Pubkey)
    requires
        before.wf(),
        before.phase == GamePhase::Playing,
        g.phase == GamePhase::Playing,
        g.turn == before.turn,
        g.chamber_position == before.chamber_position,
        g.actions_this_round == before.actions_this_round,
        g.round == before.round,
        g.player_1 == before.player_1,
        g.player_2 == before.player_2,
        g.winner == before.winner,
        g.chamber_flags < 64,
        g.bullets_loaded == bullet_count(g.chamber_flags),
        g.player_1_health <= MAX_HEALTH,
        g.player_2_health <= MAX_HEALTH,
        g.player_1_health > 0 || g.player_2_health > 0,
    ensures
        resolve_round(g, game_key).0.wf(),
{
    lemma_bullet_count_bounds(g.chamber_flags, 0);
}

/// Fires the current chamber at the opponent.
pub fn shoot(ctx: &mut PlayerAction) -> (r: Result<Vec<GameEvent>, ShellshockError>)
    requires
        action_error(old(ctx).game, old(ctx).player) is None ==> old(ctx).game.chamber_position < 8
            && old(ctx).game.actions_this_round < u8::MAX,
    ensures
        match r {
            Err(e) => action_error(old(ctx).game, old(ctx).player) == Some(e) && *final(ctx) == *old(ctx),
            Ok(events) => {
                let (g, resolved) = resolve_round(fired(old(ctx).game), old(ctx).game_key);
                &&& action_error(old(ctx).game, old(ctx).player) is None
                &&& *final(ctx) == (PlayerAction { game: g, ..*old(ctx) })
                &&& events@ == move_events(resolved, GameEvent::ShotFired(ShotFired {
                    game: old(ctx).game_key,
                    shooter: old(ctx).player,
                    bullet: chamber_bit(old(ctx).game.chamber_flags, old(ctx).game.chamber_position),
                    chamber: g.chamber_position,
                }))
            },
        },
        old(ctx).game.wf() ==> final(ctx).game.wf(),
{
    if ctx.game.phase != GamePhase::Playing {
        return Err(ShellshockError::InvalidPhase);
    }
    if !ctx.game.is_player_turn(&ctx.player) {
        return Err(ShellshockError::NotYourTurn);
    }
    let ghost before = ctx.game;
    let pos = ctx.game.chamber_position;
    let bullet_present = (ctx.game.chamber_flags >> pos) & 1 == 1;
    if bullet_present {
        proof {
            if before.wf() {
                lemma_fire_chamber(before.chamber_flags, pos);
                lemma_bullet_count_bounds(before.chamber_flags, pos);
            }
        }
        ctx.game.chamber_flags = ctx.game.chamber_flags & !(1u8 << pos);
        ctx.game.bullets_loaded = ctx.game.bullets_loaded.saturating_sub(1);
        if ctx.game.turn == 0 {
            ctx.game.player_2_health = ctx.game.player_2_health.saturating_sub(SHOT_DAMAGE);
        } else {
            ctx.game.player_1_health = ctx.game.player_1_health.saturating_sub(SHOT_DAMAGE);
        }
    }
    assert(ctx.game == fired(before));
    proof {
        if before.wf() {
            lemma_resolve_keeps_wf(before, ctx.game, ctx.game_key);
        }
    }
    let resolved = advance_and_resolve_round(&mut ctx.game, ctx.game_key);
    let own = GameEvent::ShotFired(
        ShotFired {
            game: ctx.game_key,
            shooter: ctx.player,
            bullet: bullet_present,
            chamber: ctx.game.chamber_position,
        },
    );
    Ok(push_move_events(resolved, own))
}

/// Loads a round into the current chamber if it is empty.
pub fn reload(ctx: &mut PlayerAction) -> (r: Result<Vec<GameEvent>, ShellshockError>)
    requires
        reload_error(old(ctx).game, old(ctx).player) is None ==> old(ctx).game.chamber_position < 8
            && old(ctx).game.actions_this_round < u8::MAX,
    ensures
        match r {
            Err(e) => reload_error(old(ctx).game, old(ctx).player) == Some(e) && *final(ctx) == *old(ctx),
            Ok(events) => {
                let (g, resolved) = resolve_round(reloaded(old(ctx).game), old(ctx).game_key);
                &&& reload_error(old(ctx).game, old(ctx).player) is None
                &&& *final(ctx) == (PlayerAction { game: g, ..*old(ctx) })
                &&& events@ == move_events(resolved, GameEvent::GunReloaded(GunReloaded {
                    game: old(ctx).game_key,
                    player: old(ctx).player,
                    chamber: g.chamber_position,
                }))
            },
        },
        old(ctx).game.wf() ==> final(ctx).game.wf(),
{
    if ctx.game.phase != GamePhase::Playing {
        return Err(ShellshockError::InvalidPhase);
    }
    if !ctx.game.is_player_turn(&ctx.player) {
        return Err(ShellshockError::NotYourTurn);
    }
    if ctx.game.bullets_loaded >= CHAMBER_SIZE {
        return Err(ShellshockError::ChamberFull);
    }
    let ghost before = ctx.game;
    let pos = ctx.game.chamber_position;
    proof {
        lemma_chamber_test(before.chamber_flags, pos);
    }
    if (ctx.game.chamber_flags >> pos) & 1 == 0 {
        proof {
            if before.wf() {
                lemma_load_chamber(before.chamber_flags, pos);
            }
        }
        ctx.game.chamber_flags = ctx.game.chamber_flags | (1u8 << pos);
        ctx.game.bullets_loaded = ctx.game.bullets_loaded + 1;
    }
    assert(ctx.game == reloaded(before));
    proof {
        if before.wf() {
            lemma_resolve_keeps_wf(before, ctx.game, ctx.game_key);
        }
    }
    let resolved = advance_and_resolve_round(&mut ctx.game, ctx.game_key);
    let own = GameEvent::GunReloaded(
        GunReloaded { game: ctx.game_key, player: ctx.player, chamber: ctx.game.chamber_position },
    );
    Ok(push_move_events(resolved, own))
}

/// Uses an item; the healing item restores health to the player whose turn it is.
pub fn use_item(ctx: &mut PlayerAction, item_type: u8) -> (r: Result<Vec<GameEvent>, ShellshockError>)
    requires
        item_error(old(ctx).game, old(ctx).player, item_type) is None
            ==> old(ctx).game.chamber_position < u8::MAX && old(ctx).game.actions_this_round
            < u8::MAX,
    ensures
        match r {
            Err(e) => item_error(old(ctx).game, old(ctx).player, item_type) == Some(e) && *final(ctx)
                == *old(ctx),
            Ok(events) => {
                let (g, resolved) = resolve_round(healed_game(old(ctx).game), old(ctx).game_key);
                &&& item_error(old(ctx).game, old(ctx).player, item_type) is None
                &&& *final(ctx) == (PlayerAction { game: g, ..*old(ctx) })
                &&& events@ == move_events(resolved, GameEvent::ItemUsed(ItemUsed {
                    game: old(ctx).game_key,
                    player: old(ctx).player,
                    item_type,
                }))
            },
        },
        old(ctx).game.wf() ==> final(ctx).game.wf(),
{
    if ctx.game.phase != GamePhase::Playing {
        return Err(ShellshockError::InvalidPhase);
    }
    if !ctx.game.is_player_turn(&ctx.player) {
        return Err(ShellshockError::NotYourTurn);
    }
    if item_type != HEAL_ITEM {
        return Err(ShellshockError::InvalidItem);
    }
    let ghost before = ctx.game;
    if ctx.game.turn == 0 {
        let raised = ctx.game.player_1_health.saturating_add(HEAL_AMOUNT);
        ctx.game.player_1_health = if raised <= MAX_HEALTH {
            raised
        } else {
            MAX_HEALTH
        };
    } else {
        let raised = ctx.game.player_2_health.saturating_add(HEAL_AMOUNT);
        ctx.game.player_2_health = if raised <= MAX_HEALTH {
            raised
        } else {
            MAX_HEALTH
        };
    }
    assert(ctx.game == healed_game(before));
    proof {
        if before.wf() {
            lemma_resolve_keeps_wf(before, ctx.game, ctx.game_key);
        }
    }
    let resolved = advance_and_resolve_round(&mut ctx.game, ctx.game_key);
    let own = GameEvent::ItemUsed(ItemUsed { game: ctx.game_key, player: ctx.player, item_type });
    Ok(push_move_events(resolved, own))
}

/// Lets the winner of a finished game claim the vault.
pub fn claim_reward(ctx: &ClaimReward) -> (r: Result<RewardClaimed, ShellshockError>)
    ensures
        match r {
            Err(e) => claim_error(ctx.game, ctx.winner) == Some(e),
            Ok(ev) => claim_error(ctx.game, ctx.winner) is None && ev == (RewardClaimed {
                game: ctx.game_key,
                winner: ctx.winner,
                amount: ctx.vault_lamports,
            }),
        },
{
    if ctx.game.phase != GamePhase::Finished {
        return Err(ShellshockError::InvalidPhase);
    }
    let is_winner = match ctx.game.winner {
        Some(w) => w == ctx.winner,
        None => false,
    };
    if !is_winner {
        return Err(ShellshockError::NotWinner);
    }
    Ok(RewardClaimed { game: ctx.game_key, winner: ctx.winner, amount: ctx.vault_lamports })
}

/// A finished game is over: no instruction but `claim_reward` is accepted,
/// and each refuses with `InvalidPhase`.
pub proof fn lemma_finished_game_is_final(g: Game, signer: Pubkey, item_type: u8)
    requires
        g.phase == GamePhase::Finished,
    ensures
        join_error(g, signer) == Some(ShellshockError::InvalidPhase),
        round_error(g) == Some(ShellshockError::InvalidPhase),
        action_error(g, signer) == Some(ShellshockError::InvalidPhase),
        reload_error(g, signer) == Some(ShellshockError::InvalidPhase),
        item_error(g, signer, item_type) == Some(ShellshockError::InvalidPhase),
{
}

/// Only the player whose turn it is may move, and only while the game is being played.
pub proof fn lemma_only_current_player_moves(g: Game, player: Pubkey, item_type: u8)
    ensures
        action_error(g, player) is None <==> (g.phase == GamePhase::Playing && player
            == g.current_player()),
        reload_error(g, player) is None ==> action_error(g, player) is None,
        item_error(g, player, item_type) is None ==> action_error(g, player) is None,
{
}

/// Every move turns the cylinder by one chamber and counts one action; a move
/// after which the game is still being played hands the turn to the other player.
pub proof fn lemma_move_passes_turn(g: Game, game_key: Pubkey)
    requires
        g.wf(),
        g.phase == GamePhase::Playing,
    ensures
        resolve_round(g, game_key).0.chamber_position == (g.chamber_position + 1) % 6,
        resolve_round(g, game_key).0.actions_this_round == g.actions_this_round + 1,
        resolve_round(g, game_key).0.phase == GamePhase::Playing ==> resolve_round(
            g,
            game_key,
        ).0.turn == 1 - g.turn && resolve_round(g, game_key).1 is None,
        resolve_round(g, game_key).0.phase != GamePhase::Playing ==> resolve_round(
            g,
            game_key,
        ).1 is Some && resolve_round(g, game_key).0.turn == g.turn,
{
}

/// A live round spends one bullet and takes thirty health (down to zero) from
/// the opponent of the shooter; an empty chamber changes nothing.
pub proof fn lemma_shot_damage(g: Game)
    requires
        g.wf(),
    ensures
        chamber_bit(g.chamber_flags, g.chamber_position) ==> {
            &&& fired(g).bullets_loaded == g.bullets_loaded - 1
            &&& !chamber_bit(fired(g).chamber_flags, g.chamber_position)
            &&& g.turn == 0 ==> fired(g).player_2_health == (if g.player_2_health >= SHOT_DAMAGE {
                g.player_2_health - SHOT_DAMAGE
            } else {
                0
            }) && fired(g).player_1_health == g.player_1_health
            &&& g.turn == 1 ==> fired(g).player_1_health == (if g.player_1_health >= SHOT_DAMAGE {
                g.player_1_health - SHOT_DAMAGE
            } else {
                0
            }) && fired(g).player_2_health == g.player_2_health
        },
        !chamber_bit(g.chamber_flags, g.chamber_position) ==> fired(g) == g,
{
    if chamber_bit(g.chamber_flags, g.chamber_position) {
        lemma_fire_chamber(g.chamber_flags, g.chamber_position);
        lemma_bullet_count_bounds(g.chamber_flags, g.chamber_position);
    }
}

/// A heal never takes a player above full health nor lowers it.
pub proof fn lemma_heal_bounds(health: u8)
    requires
        health <= MAX_HEALTH,
    ensures
        health <= healed(health) <= MAX_HEALTH,
        healed(health) == (if health + HEAL_AMOUNT <= MAX_HEALTH {
            health + HEAL_AMOUNT
        } else {
            MAX_HEALTH as int
        }),
{
}

/// A game is won by the player left standing: when a move takes a player's
/// health to zero the game finishes with the other player as winner.
pub proof fn lemma_winner_is_left_standing(g: Game, game_key: Pubkey)
    requires
        g.player_1_health == 0 || g.player_2_health == 0,
        g.player_1_health > 0 || g.player_2_health > 0,
    ensures
        resolve_round(g, game_key).0.phase == GamePhase::Finished,
        resolve_round(g, game_key).0.winner == Some(
            if g.player_1_health > 0 {
                g.player_1
            } else {
                g.player_2
            },
        ),
        claim_error(
            resolve_round(g, game_key).0,
            if g.player_1_health > 0 {
                g.player_1
            } else {
                g.player_2
            },
        ) is None,
{
}

/// One instruction of the program that succeeds and takes the game from
/// `before` to `after`: a second player joins, a round starts with the
/// cylinder loaded from some seed and clock, or the player whose turn it is shoots,
/// reloads or heals. `claim_reward` leaves the game as it is.
pub open spec fn game_step(before: Game, after: Game, game_key: Pubkey) -> bool {
    ||| exists|player_2: Pubkey|
        join_error(before, player_2) is None && after == (Game {
            player_2,
            phase: GamePhase::WaitingForVrf,
            ..before
        })
    ||| exists|seed: u64, clock: Clock|
        round_error(before) is None && before.round < u8::MAX && after == started_round(
            before,
            loaded_chamber(#[trigger] round_entropy(seed, clock)).0,
        )
    ||| action_error(before, before.current_player()) is None && after == resolve_round(
        fired(before),
        game_key,
    ).0
    ||| reload_error(before, before.current_player()) is None && after == resolve_round(
        reloaded(before),
        game_key,
    ).0
    ||| action_error(before, before.current_player()) is None && after == resolve_round(
        healed_game(before),
        game_key,
    ).0
}

/// The games reachable in `n` steps from a game that `create_game` opened.
pub open spec fn reachable_in(g: Game, game_key: Pubkey, n: nat) -> bool
    decreases n,
{
    if n == 0 {
        exists|player_1: Pubkey, bet_lamports: u64, bump: u8|
            bet_lamports > 0 && g == #[trigger] Game::opened(player_1, bet_lamports, bump)
    } else {
        exists|prev: Game| reachable_in(prev, game_key, (n - 1) as nat) && #[trigger] game_step(prev, g, game_key)
    }
}

/// The phases a step may move a game between.
pub open spec fn allowed_phase_move(from: GamePhase, to: GamePhase) -> bool {
    ||| from == GamePhase::WaitingForPlayer && to == GamePhase::WaitingForVrf
    ||| from == GamePhase::WaitingForVrf && to == GamePhase::Playing
    ||| from == GamePhase::Playing && (to == GamePhase::Playing || to == GamePhase::WaitingForVrf || to
        == GamePhase::Finished)
}

/// Every step keeps a game in its reachable states; no step leaves a finished
/// game; a step moves the phase only along the allowed moves, and a game
/// gets a winner exactly when it finishes, the player left standing.
pub proof fn lemma_game_step_keeps_wf(before: Game, after: Game, game_key: Pubkey)
    requires
        before.wf(),
        game_step(before, after, game_key),
    ensures
        after.wf(),
        before.phase != GamePhase::Finished,
        allowed_phase_move(before.phase, after.phase),
        after.winner is Some <==> after.phase == GamePhase::Finished,
        after.winner matches Some(w) ==> (w == after.player_1 && after.player_1_health > 0
            && after.player_2_health == 0) || (w == after.player_2 && after.player_2_health > 0
            && after.player_1_health == 0),
{
    if exists|player_2: Pubkey|
        join_error(before, player_2) is None && after == (Game {
            player_2,
            phase: GamePhase::WaitingForVrf,
            ..before
        }) {
    } else if exists|seed: u64, clock: Clock|
        round_error(before) is None && before.round < u8::MAX && after == started_round(
            before,
            loaded_chamber(#[trigger] round_entropy(seed, clock)).0,
        ) {
        let (seed, clock) = choose|seed: u64, clock: Clock|
            round_error(before) is None && before.round < u8::MAX && after == started_round(
                before,
                loaded_chamber(#[trigger] round_entropy(seed, clock)).0,
            );
        lemma_loaded_chamber(round_entropy(seed, clock));
        lemma_bullet_count_bounds(loaded_chamber(round_entropy(seed, clock)).0, 0);
    } else if action_error(before, before.current_player()) is None && after == resolve_round(
        fired(before),
        game_key,
    ).0 {
        lemma_shot_damage(before);
        if chamber_bit(before.chamber_flags, before.chamber_position) {
            lemma_fire_chamber(before.chamber_flags, before.chamber_position);
        }
        lemma_resolve_keeps_wf(before, fired(before), game_key);
    } else if reload_error(before, before.current_player()) is None && after == resolve_round(
        reloaded(before),
        game_key,
    ).0 {
        if !chamber_bit(before.chamber_flags, before.chamber_position) {
            lemma_load_chamber(before.chamber_flags, before.chamber_position);
        }
        lemma_resolve_keeps_wf(before, reloaded(before), game_key);
    } else {
        lemma_heal_bounds(before.player_1_health);
        lemma_heal_bounds(before.player_2_health);
        lemma_resolve_keeps_wf(before, healed_game(before), game_key);
    }
}

/// Every game reachable from one that `create_game` opened is well formed:
/// its cylinder and round count agree, its health stays within bounds, and it
/// has a winner, the player left standing, exactly when it is finished.
pub proof fn lemma_reachable_games_are_wf(g: Game, game_key: Pubkey, n: nat)
    requires
        reachable_in(g, game_key, n),
    ensures
        g.wf(),
    decreases n,
{
    if n == 0 {
        let (player_1, bet_lamports, bump) = choose|player_1: Pubkey, bet_lamports: u64, bump: u8|
            bet_lamports > 0 && g == #[trigger] Game::opened(player_1, bet_lamports, bump);
        assert(bullet_count(0u8) == 0) by (bit_vector);
    } else {
        let prev = choose|prev: Game|
            reachable_in(prev, game_key, (n - 1) as nat) && #[trigger] game_step(prev, g, game_key);
        lemma_reachable_games_are_wf(prev, game_key, (n - 1) as nat);
        lemma_game_step_keeps_wf(prev, g, game_key);
    }
}

/// Starting a round touches only the cylinder and the round's counters: both
/// players, their health, the bet, the winner and the bump carry over; the
/// round count goes up by one; the game is being played, player one to move
/// from chamber zero with no action taken; and the cylinder holds exactly
/// three rounds in six chambers.
pub proof fn lemma_round_start_keeps_players(g: Game, seed: u64, clock: Clock)
    requires
        g.round < u8::MAX,
    ensures
        ({
            let after = started_round(g, loaded_chamber(round_entropy(seed, clock)).0);
            &&& after.player_1 == g.player_1
            &&& after.player_2 == g.player_2
            &&& after.player_1_health == g.player_1_health
            &&& after.player_2_health == g.player_2_health
            &&& after.bet_lamports == g.bet_lamports
            &&& after.winner == g.winner
            &&& after.bump == g.bump
            &&& after.round == g.round + 1
            &&& after.phase == GamePhase::Playing
            &&& after.turn == 0
            &&& after.chamber_position == 0
            &&& after.actions_this_round == 0
            &&& after.chamber_flags < 64
            &&& after.bullets_loaded == 3
            &&& bullet_count(after.chamber_flags) == 3
        }),
{
    lemma_loaded_chamber(round_entropy(seed, clock));
}

/// How a move ends: the cylinder turns one chamber and one more action is
/// counted; a player at zero health ends the game with the other as winner;
/// otherwise an empty cylinder or a sixth action ends the round; and a move
/// that leaves both players alive, a round in the cylinder and fewer than six
/// actions keeps the game in its phase and passes the turn. Health, cylinder
/// and players are left as they were.
pub proof fn lemma_resolve_round_outcome(g: Game, game_key: Pubkey)
    requires
        g.actions_this_round < u8::MAX,
        g.turn <= 1,
    ensures
        ({
            let (r, ev) = resolve_round(g, game_key);
            &&& r.chamber_position == (g.chamber_position + 1) % 6
            &&& r.actions_this_round == g.actions_this_round + 1
            &&& r.player_1_health == g.player_1_health
            &&& r.player_2_health == g.player_2_health
            &&& r.chamber_flags == g.chamber_flags
            &&& r.bullets_loaded == g.bullets_loaded
            &&& r.player_1 == g.player_1
            &&& r.player_2 == g.player_2
            &&& (g.player_1_health == 0 || g.player_2_health == 0) ==> r.phase == GamePhase::Finished
                && r.winner == Some(if g.player_1_health > 0 { g.player_1 } else { g.player_2 })
                && ev == Some(GameEvent::GameFinished(GameFinished { game: game_key, winner: r.winner->0 }))
            &&& (g.player_1_health > 0 && g.player_2_health > 0 && (g.bullets_loaded == 0
                || g.actions_this_round + 1 >= 6)) ==> r.phase == GamePhase::WaitingForVrf && r.turn
                == g.turn && r.winner == g.winner && ev == Some(
                GameEvent::RoundEnded(RoundEnded { game: game_key, round: g.round }),
            )
            &&& (g.player_1_health > 0 && g.player_2_health > 0 && g.bullets_loaded > 0
                && g.actions_this_round + 1 < 6) ==> r.phase == g.phase && r.turn == 1 - g.turn
                && r.winner == g.winner && ev is None
            &&& r.phase != g.phase ==> (g.player_1_health == 0 || g.player_2_health == 0
                || g.bullets_loaded == 0 || g.actions_this_round + 1 >= 6)
        }),
{
}

/// `reload` is accepted exactly on a game being played, from the player whose
/// turn it is, with fewer than six rounds loaded; it refuses with
/// `ChamberFull` exactly when all six chambers are counted loaded. An empty
/// current chamber gets a round and the count goes up by one; a loaded one is
/// left as it is.
pub proof fn lemma_reload_accepts_below_six(g: Game, player: Pubkey)
    requires
        g.wf(),
    ensures
        reload_error(g, player) is None <==> (g.phase == GamePhase::Playing && player
            == g.current_player() && g.bullets_loaded < 6),
        reload_error(g, player) == Some(ShellshockError::ChamberFull) <==> (g.phase
            == GamePhase::Playing && player == g.current_player() && g.bullets_loaded >= 6),
        !chamber_bit(g.chamber_flags, g.chamber_position) ==> reloaded(g).bullets_loaded
            == g.bullets_loaded + 1 && chamber_bit(reloaded(g).chamber_flags, g.chamber_position)
            && reloaded(g).chamber_flags == g.chamber_flags | (1u8 << g.chamber_position),
        chamber_bit(g.chamber_flags, g.chamber_position) ==> reloaded(g) == g,
        reloaded(g).player_1_health == g.player_1_health,
        reloaded(g).player_2_health == g.player_2_health,
        reloaded(g).turn == g.turn,
{
    lemma_bullet_count_bounds(g.chamber_flags, g.chamber_position);
    if !chamber_bit(g.chamber_flags, g.chamber_position) {
        lemma_load_chamber(g.chamber_flags, g.chamber_position);
    }
}

} // verus!
