//! The protocol a player goes through, as a state machine: which event each
//! state accepts, what has to be sent to or received from the player then,
//! and which state follows.
//!
//! The grid, game, turn, direction and cause-of-death types are parameters:
//! the machine only carries them along.

use vstd::prelude::*;

verus! {

/// A player's name.
pub type PlayerName = String;

/// A player, and why it died if it did.
#[derive(Clone, Debug)]
pub struct Player<C> {
    pub name: PlayerName,
    pub cause_of_death: Option<C>,
}

impl<C> Player<C> {
    /// A living player of the given name.
    pub fn new(name: PlayerName) -> (p: Player<C>)
        ensures
            p.name == name,
            p.cause_of_death is None,
    {
        Player { name: name, cause_of_death: None }
    }
}

/// Where a player is in the protocol. `D` is the type of a move's direction.
#[derive(Clone, Debug)]
pub enum PlayerState<D> {
    New,
    Version,
    Identify { desired_player_name: PlayerName },
    Ready,
    Playing,
    Turning,
    Moving { direction: D },
    Dead,
    Won,
}

/// What happens to a player. `G`, `GS`, `TS` and `C` are the types of the
/// grid, the game state, the turn state and the cause of death.
#[derive(Clone, Debug)]
pub enum PlayerEvent<G, GS, TS, C> {
    Versioning,
    Identifying,
    Welcoming { player_name: PlayerName, grid: G },
    NewGame { game: GS },
    NewTurn { turn: TS },
    Move,
    Death { cause_of_death: C },
    Victory,
    GameEnds,
}

/// What has to be done on the player's connection for a transition.
#[derive(Clone, Debug)]
pub enum PlayerAction<G, GS, TS, C> {
    /// Send the protocol version.
    SendVersion,
    /// Receive the player's desired name.
    ReceiveIdentify,
    /// Send the welcome: the player's name and the grid.
    SendWelcome { player_name: PlayerName, grid: G },
    /// Send the new game.
    SendNewGame { game: GS },
    /// Send the new turn.
    SendNewTurn { turn: TS },
    /// Receive the player's next move.
    ReceiveMove,
    /// Send the cause of death.
    SendDeath { cause_of_death: C },
    /// Send the victory.
    SendWon,
    /// Nothing to send or receive.
    Nothing,
}

/// How the state continues once the action has been carried out.
#[derive(Clone, Debug)]
pub enum Continuation<D> {
    /// The next state.
    Become(PlayerState<D>),
    /// The next state is `Identify` with the name received.
    AwaitIdentity,
    /// The next state is `Moving` with the direction received.
    AwaitMove,
}

/// What carrying out an action gave.
#[derive(Clone, Debug)]
pub enum PlayerReply<D> {
    /// The action was a send, or nothing.
    Done,
    /// The desired name that the player sent.
    Identity(PlayerName),
    /// The direction that the player sent.
    Direction(D),
}

/// The event that a state does not accept, with that state.
#[derive(Clone, Debug)]
pub struct InvalidStateTransition<D, G, GS, TS, C> {
    pub from_state: Box<PlayerState<D>>,
    pub event: PlayerEvent<G, GS, TS, C>,
}

impl<D> PlayerState<D> {
    /// The transition for `event`: the action to carry out and how the state
    /// continues, or the refusal when this state does not accept `event`.
    ///
    /// New players are versioned; versioned players identify themselves;
    /// identified players are welcomed; ready players begin a game; playing
    /// and dead players are sent turns (dead players stay dead); turning
    /// players move; playing players die or win; won and dead players are
    /// ready again when the game ends.
    pub fn next<G, GS, TS, C>(self, event: PlayerEvent<G, GS, TS, C>) -> (r: Result<
        (PlayerAction<G, GS, TS, C>, Continuation<D>),
        InvalidStateTransition<D, G, GS, TS, C>,
    >)
        ensures
            match (self, event) {
                (PlayerState::New, PlayerEvent::Versioning) => r matches Ok((a, k))
                    && a is SendVersion && k matches Continuation::Become(PlayerState::Version),
                (PlayerState::Version, PlayerEvent::Identifying) => r matches Ok((a, k))
                    && a is ReceiveIdentify && k is AwaitIdentity,
                (PlayerState::Identify { .. }, PlayerEvent::Welcoming { player_name, grid }) => r matches Ok((a, k))
                    && a == (PlayerAction::<G, GS, TS, C>::SendWelcome { player_name, grid })
                    && k matches Continuation::Become(PlayerState::Ready),
                (PlayerState::Ready, PlayerEvent::NewGame { game }) => r matches Ok((a, k))
                    && a == (PlayerAction::<G, GS, TS, C>::SendNewGame { game })
                    && k matches Continuation::Become(PlayerState::Playing),
                (PlayerState::Playing, PlayerEvent::NewTurn { turn }) => r matches Ok((a, k))
                    && a == (PlayerAction::<G, GS, TS, C>::SendNewTurn { turn })
                    && k matches Continuation::Become(PlayerState::Turning),
                (PlayerState::Dead, PlayerEvent::NewTurn { turn }) => r matches Ok((a, k))
                    && a == (PlayerAction::<G, GS, TS, C>::SendNewTurn { turn })
                    && k matches Continuation::Become(PlayerState::Dead),
                (PlayerState::Turning, PlayerEvent::Move) => r matches Ok((a, k))
                    && a is ReceiveMove && k is AwaitMove,
                (PlayerState::Playing, PlayerEvent::Death { cause_of_death }) => r matches Ok((a, k))
                    && a == (PlayerAction::<G, GS, TS, C>::SendDeath { cause_of_death })
                    && k matches Continuation::Become(PlayerState::Dead),
                (PlayerState::Playing, PlayerEvent::Victory) => r matches Ok((a, k))
                    && a is SendWon && k matches Continuation::Become(PlayerState::Won),
                (PlayerState::Won, PlayerEvent::GameEnds) => r matches Ok((a, k))
                    && a is Nothing && k matches Continuation::Become(PlayerState::Ready),
                (PlayerState::Dead, PlayerEvent::GameEnds) => r matches Ok((a, k))
                    && a is Nothing && k matches Continuation::Become(PlayerState::Ready),
                (s, e) => r matches Err(err) && *err.from_state == s && err.event == e,
            },
    {
        match (self, event) {
            (PlayerState::New, PlayerEvent::Versioning) => Ok(
                (PlayerAction::SendVersion, Continuation::Become(PlayerState::Version)),
            ),
            (PlayerState::Version, PlayerEvent::Identifying) => Ok(
                (PlayerAction::ReceiveIdentify, Continuation::AwaitIdentity),
            ),
            (PlayerState::Identify { .. }, PlayerEvent::Welcoming { player_name, grid }) => Ok(
                (
                    PlayerAction::SendWelcome { player_name: player_name, grid: grid },
                    Continuation::Become(PlayerState::Ready),
                ),
            ),
            (PlayerState::Ready, PlayerEvent::NewGame { game }) => Ok(
                (PlayerAction::SendNewGame { game: game }, Continuation::Become(PlayerState::Playing)),
            ),
            (PlayerState::Playing, PlayerEvent::NewTurn { turn }) => Ok(
                (PlayerAction::SendNewTurn { turn: turn }, Continuation::Become(PlayerState::Turning)),
            ),
            (PlayerState::Dead, PlayerEvent::NewTurn { turn }) => Ok(
                (PlayerAction::SendNewTurn { turn: turn }, Continuation::Become(PlayerState::Dead)),
            ),
            (PlayerState::Turning, PlayerEvent::Move) => Ok(
                (PlayerAction::ReceiveMove, Continuation::AwaitMove),
            ),
            (PlayerState::Playing, PlayerEvent::Death { cause_of_death }) => Ok(
                (
                    PlayerAction::SendDeath { cause_of_death: cause_of_death },
                    Continuation::Become(PlayerState::Dead),
                ),
            ),
            (PlayerState::Playing, PlayerEvent::Victory) => Ok(
                (PlayerAction::SendWon, Continuation::Become(PlayerState::Won)),
            ),
            (PlayerState::Won, PlayerEvent::GameEnds) => Ok(
                (PlayerAction::Nothing, Continuation::Become(PlayerState::Ready)),
            ),
            (PlayerState::Dead, PlayerEvent::GameEnds) => Ok(
                (PlayerAction::Nothing, Continuation::Become(PlayerState::Ready)),
            ),
            (current_state, invalid_event) => Err(
                InvalidStateTransition { from_state: Box::new(current_state), event: invalid_event },
            ),
        }
    }
}

/// `reply` is what carrying out the action of a transition that continues
/// with `k` gives.
pub open spec fn reply_fits<D>(k: Continuation<D>, reply: PlayerReply<D>) -> bool {
    match k {
        Continuation::Become(_) => reply is Done,
        Continuation::AwaitIdentity => reply is Identity,
        Continuation::AwaitMove => reply is Direction,
    }
}

impl<D> Continuation<D> {
    /// The state once the action has been carried out and gave `reply`.
    pub fn resume(self, reply: PlayerReply<D>) -> (s: PlayerState<D>)
        requires
            reply_fits(self, reply),
        ensures
            match (self, reply) {
                (Continuation::Become(t), _) => s == t,
                (Continuation::AwaitIdentity, PlayerReply::Identity(n)) => s == (PlayerState::<D>::Identify {
                    desired_player_name: n,
                }),
                (Continuation::AwaitMove, PlayerReply::Direction(d)) => s == (PlayerState::<D>::Moving { direction: d }),
                _ => false,
            },
    {
        match (self, reply) {
            (Continuation::Become(t), _) => t,
            (Continuation::AwaitIdentity, PlayerReply::Identity(n)) => PlayerState::Identify { desired_player_name: n },
            (Continuation::AwaitMove, PlayerReply::Direction(d)) => PlayerState::Moving { direction: d },
            (Continuation::AwaitIdentity, _) => PlayerState::New,
            (Continuation::AwaitMove, _) => PlayerState::New,
        }
    }
}

} // verus!
