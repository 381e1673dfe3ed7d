use sirpent::player::{Continuation, Player, PlayerAction, PlayerEvent, PlayerReply, PlayerState};

type Event = PlayerEvent<&'static str, u32, u32, String>;
type Action = PlayerAction<&'static str, u32, u32, String>;

fn step(state: PlayerState<char>, event: Event, reply: PlayerReply<char>) -> (Action, PlayerState<char>) {
    match state.next(event) {
        Ok((action, k)) => (action, k.resume(reply)),
        Err(e) => panic!("refused: {:?} {:?}", e.from_state, e.event),
    }
}

#[test]
fn player_new_is_alive() {
    let p: Player<String> = Player::new("ann".to_string());
    assert_eq!(p.name, "ann");
    assert!(p.cause_of_death.is_none());
}

#[test]
fn a_whole_game_for_a_player() {
    let (a, s) = step(PlayerState::New, PlayerEvent::Versioning, PlayerReply::Done);
    assert!(matches!(a, PlayerAction::SendVersion));
    assert!(matches!(s, PlayerState::Version));
    let (a, s) = step(s, PlayerEvent::Identifying, PlayerReply::Identity("ann".to_string()));
    assert!(matches!(a, PlayerAction::ReceiveIdentify));
    assert!(matches!(s, PlayerState::Identify { ref desired_player_name } if desired_player_name == "ann"));
    let (a, s) = step(
        s,
        PlayerEvent::Welcoming { player_name: "ann".to_string(), grid: "hex" },
        PlayerReply::Done,
    );
    assert!(matches!(a, PlayerAction::SendWelcome { ref player_name, grid: "hex" } if player_name == "ann"));
    assert!(matches!(s, PlayerState::Ready));
    let (a, s) = step(s, PlayerEvent::NewGame { game: 7 }, PlayerReply::Done);
    assert!(matches!(a, PlayerAction::SendNewGame { game: 7 }));
    assert!(matches!(s, PlayerState::Playing));
    let (a, s) = step(s, PlayerEvent::Death { cause_of_death: "wall".to_string() }, PlayerReply::Done);
    assert!(matches!(a, PlayerAction::SendDeath { ref cause_of_death } if cause_of_death == "wall"));
    assert!(matches!(s, PlayerState::Dead));
    let (a, s) = step(s, PlayerEvent::NewTurn { turn: 3 }, PlayerReply::Done);
    assert!(matches!(a, PlayerAction::SendNewTurn { turn: 3 }));
    assert!(matches!(s, PlayerState::Dead));
    let (a, s) = step(s, PlayerEvent::GameEnds, PlayerReply::Done);
    assert!(matches!(a, PlayerAction::Nothing));
    assert!(matches!(s, PlayerState::Ready));
}

#[test]
fn turning_players_move_and_winners_return() {
    let (_, s) = step(PlayerState::Playing, PlayerEvent::NewTurn { turn: 1 }, PlayerReply::Done);
    assert!(matches!(s, PlayerState::Turning));
    let (a, s) = step(s, PlayerEvent::Move, PlayerReply::Direction('n'));
    assert!(matches!(a, PlayerAction::ReceiveMove));
    assert!(matches!(s, PlayerState::Moving { direction: 'n' }));
    let (a, s) = step(PlayerState::Playing, PlayerEvent::Victory, PlayerReply::Done);
    assert!(matches!(a, PlayerAction::SendWon));
    assert!(matches!(s, PlayerState::Won));
    let (_, s) = step(s, PlayerEvent::GameEnds, PlayerReply::Done);
    assert!(matches!(s, PlayerState::Ready));
}

#[test]
fn invalid_events_are_refused_with_the_state() {
    let r = PlayerState::<char>::New.next::<&str, u32, u32, String>(PlayerEvent::Move);
    match r {
        Err(e) => {
            assert!(matches!(*e.from_state, PlayerState::New));
            assert!(matches!(e.event, PlayerEvent::Move));
        }
        Ok(_) => panic!("a new player cannot move"),
    }
    let r = PlayerState::Moving { direction: 'n' }.next::<&str, u32, u32, String>(PlayerEvent::NewTurn { turn: 2 });
    assert!(r.is_err());
    let r = PlayerState::<char>::Dead.next::<&str, u32, u32, String>(PlayerEvent::Victory);
    assert!(r.is_err());
    let k: Continuation<char> = Continuation::Become(PlayerState::Ready);
    assert!(matches!(k.resume(PlayerReply::Done), PlayerState::Ready));
}
