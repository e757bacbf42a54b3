use dilemma::game::{
    action_for, handshake, new_player_id, party_outcome, Action, Game, Outgoing, Party,
    PartyRound, Slot,
};
use dilemma::protocol::{GameError, PlayStatus, Player, Protocol, Status};

fn req(id: u32, status: Status, total: u32, round: u32, bet: u32, party: u32, play: PlayStatus) -> Protocol {
    Protocol {
        player: Player { id, money: 100 },
        party_status: status,
        total_round: total,
        round,
        bet,
        party_id: party,
        play,
    }
}

fn create(id: u32, bet: u32, total: u32) -> Protocol {
    req(id, Status::Created, total, 0, bet, 0, PlayStatus::Stanby)
}

fn join(id: u32) -> Protocol {
    req(id, Status::JoinParty, 0, 0, 0, 0, PlayStatus::Stanby)
}

fn play(id: u32, party: u32, round: u32, bet: u32, total: u32, p: PlayStatus) -> Protocol {
    req(id, Status::Started, total, round, bet, party, p)
}

/// A started party between creator 1 and joiner 2, with the given stake and rounds.
fn started(bet: u32, total: u32) -> (Game, u32) {
    let mut g = Game::new();
    g.create_party(&create(1, bet, total), 77);
    g.join_party(&join(2)).unwrap();
    (g, 77)
}

fn balances(g: &Game) -> (i64, i64) {
    (g.parties[0].player1.money, g.parties[0].player2.money)
}

#[test]
fn create_party_stores_a_waiting_party_and_acknowledges() {
    let mut g = Game::new();
    let out = g.create_party(&create(5, 10, 3), 42);
    assert_eq!(g.parties.len(), 1);
    let p = &g.parties[0];
    assert_eq!(p.id, 42);
    assert_eq!(p.status, Status::WaitingPlayer);
    assert_eq!(p.bet, 10);
    assert_eq!(p.total_round, 3);
    assert_eq!(p.round, 1);
    assert_eq!(p.player1, Player { id: 0, money: 100 });
    assert_eq!(p.player2, Player { id: 5, money: 100 });
    assert_eq!(p.party_round.round_played.len(), 3);
    for (a, b) in p.party_round.round_played.iter() {
        assert_eq!(a.play, PlayStatus::Stanby);
        assert_eq!(b.play, PlayStatus::Stanby);
    }
    assert_eq!(out.to, 5);
    assert_eq!(out.message.party_status, Status::Created);
    assert_eq!(out.message.party_id, 42);
    assert_eq!(out.message.bet, 10);
    assert_eq!(out.message.total_round, 3);
}

#[test]
fn create_game_draws_a_fresh_non_zero_id() {
    let mut g = Game::new();
    let mut ids = Vec::new();
    for k in 0..20 {
        let out = g.create_game(&create(k + 1, 10, 2)).unwrap();
        assert_ne!(out.message.party_id, 0);
        assert_eq!(out.message.party_status, Status::Created);
        assert!(!ids.contains(&out.message.party_id));
        ids.push(out.message.party_id);
    }
    assert_eq!(g.parties.len(), 20);
}

#[test]
fn new_player_ids_are_not_zero() {
    for _ in 0..100 {
        assert_ne!(new_player_id(), 0);
    }
}

#[test]
fn join_takes_the_first_waiting_party_and_starts_it() {
    let mut g = Game::new();
    g.create_party(&create(1, 10, 3), 100);
    g.create_party(&create(3, 20, 4), 200);
    let out = g.join_party(&join(2)).unwrap();
    assert_eq!(g.parties[0].status, Status::Started);
    assert_eq!(g.parties[0].player1.id, 2);
    assert_eq!(g.parties[1].status, Status::WaitingPlayer);
    assert_eq!(out.len(), 2);
    assert_eq!(out[0].to, 2);
    assert_eq!(out[1].to, 1);
    for o in out.iter() {
        assert_eq!(o.message.party_status, Status::Started);
        assert_eq!(o.message.round, 1);
        assert_eq!(o.message.total_round, 3);
        assert_eq!(o.message.bet, 10);
        assert_eq!(o.message.party_id, 100);
    }
    // the started party is passed over by the next scan
    let out = g.join_party(&join(4)).unwrap();
    assert_eq!(out[0].message.party_id, 200);
    assert_eq!(g.parties[1].status, Status::Started);
    assert_eq!(g.parties[0].player1.id, 2);
    // nothing left to join
    assert_eq!(g.join_party(&join(5)), Err(GameError::NoWaitingParty));
}

#[test]
fn join_with_no_party_is_refused() {
    let mut g = Game::new();
    assert_eq!(g.join_party(&join(2)), Err(GameError::NoWaitingParty));
    assert_eq!(g.parties.len(), 0);
}

#[test]
fn both_betray_each_loses_the_stake() {
    let (mut g, id) = started(10, 3);
    assert_eq!(g.submit_move(&play(1, id, 1, 10, 3, PlayStatus::Betrail)), Ok(vec![]));
    let out = g.submit_move(&play(2, id, 1, 10, 3, PlayStatus::Betrail)).unwrap();
    assert_eq!(balances(&g), (90, 90));
    assert_eq!(out[0].message.player.money, 90);
    assert_eq!(out[1].message.player.money, 90);
}

#[test]
fn both_cooperate_each_gains_half_the_stake() {
    let (mut g, id) = started(10, 3);
    g.submit_move(&play(2, id, 1, 10, 3, PlayStatus::Cooperate)).unwrap();
    g.submit_move(&play(1, id, 1, 10, 3, PlayStatus::Cooperate)).unwrap();
    assert_eq!(balances(&g), (105, 105));
}

#[test]
fn betrayer_takes_twice_the_stake_from_the_cooperator() {
    let (mut g, id) = started(10, 3);
    g.submit_move(&play(1, id, 1, 10, 3, PlayStatus::Betrail)).unwrap();
    g.submit_move(&play(2, id, 1, 10, 3, PlayStatus::Cooperate)).unwrap();
    // player1 is the joiner (2), player2 the creator (1)
    assert_eq!(balances(&g), (80, 120));
    let (a, b) = g.parties[0].party_round.round_played[0];
    assert_eq!((a.player.id, a.play, a.balance), (1, PlayStatus::Betrail, 120));
    assert_eq!((b.player.id, b.play, b.balance), (2, PlayStatus::Cooperate, 80));
}

#[test]
fn odd_stake_halves_round_down() {
    let (mut g, id) = started(7, 2);
    g.submit_move(&play(1, id, 1, 7, 2, PlayStatus::Cooperate)).unwrap();
    g.submit_move(&play(2, id, 1, 7, 2, PlayStatus::Cooperate)).unwrap();
    assert_eq!(balances(&g), (103, 103));
}

#[test]
fn replaying_the_settling_move_does_not_pay_again() {
    let (mut g, id) = started(10, 3);
    g.submit_move(&play(1, id, 1, 10, 3, PlayStatus::Cooperate)).unwrap();
    let second = play(2, id, 1, 10, 3, PlayStatus::Betrail);
    g.submit_move(&second).unwrap();
    assert_eq!(balances(&g), (120, 80));
    assert_eq!(g.submit_move(&second), Err(GameError::InvalidMove));
    assert_eq!(balances(&g), (120, 80));
    assert_eq!(g.parties[0].round, 2);
    assert_eq!(g.parties[0].party_round.round_played[1].0.play, PlayStatus::Stanby);
}

#[test]
fn a_player_moves_once_per_round() {
    let (mut g, id) = started(10, 3);
    g.submit_move(&play(1, id, 1, 10, 3, PlayStatus::Cooperate)).unwrap();
    assert_eq!(g.submit_move(&play(1, id, 1, 10, 3, PlayStatus::Betrail)), Err(GameError::InvalidMove));
    assert_eq!(g.parties[0].party_round.round_played[0].0.play, PlayStatus::Cooperate);
}

#[test]
fn moves_that_the_party_does_not_take() {
    let (mut g, id) = started(10, 3);
    // not a player of the party
    assert_eq!(g.submit_move(&play(9, id, 1, 10, 3, PlayStatus::Betrail)), Err(GameError::InvalidMove));
    // wrong round
    assert_eq!(g.submit_move(&play(1, id, 2, 10, 3, PlayStatus::Betrail)), Err(GameError::InvalidMove));
    // no real move
    assert_eq!(g.submit_move(&play(1, id, 1, 10, 3, PlayStatus::Stanby)), Err(GameError::InvalidMove));
    // unknown party
    assert_eq!(g.submit_move(&play(1, id + 1, 1, 10, 3, PlayStatus::Betrail)), Err(GameError::UnknownParty));
    assert_eq!(g.parties[0].party_round.round_played[0].0.play, PlayStatus::Stanby);
}

#[test]
fn a_waiting_party_takes_no_move() {
    let mut g = Game::new();
    g.create_party(&create(1, 10, 3), 5);
    assert_eq!(g.submit_move(&play(1, 5, 1, 10, 3, PlayStatus::Betrail)), Err(GameError::InvalidMove));
}

#[test]
fn outcome_compares_balances() {
    assert_eq!(party_outcome(120, 80), Status::Win);
    assert_eq!(party_outcome(80, 120), Status::Lose);
    assert_eq!(party_outcome(100, 100), Status::Equal);
}

#[test]
fn dispatch_table() {
    assert_eq!(action_for(Status::Init), Ok(Action::Handshake));
    assert_eq!(action_for(Status::Created), Ok(Action::Create));
    assert_eq!(action_for(Status::JoinParty), Ok(Action::Join));
    assert_eq!(action_for(Status::Started), Ok(Action::Play));
    for s in [Status::WaitingPlayer, Status::Finished, Status::Win, Status::Lose, Status::Equal] {
        assert_eq!(action_for(s), Err(GameError::MalformedMessage));
    }
}

#[test]
fn handle_party_dispatches_by_status() {
    let mut g = Game::new();
    assert_eq!(g.handle_party(&req(1, Status::Init, 0, 0, 0, 0, PlayStatus::Stanby)), Ok(vec![]));
    assert_eq!(
        g.handle_party(&req(1, Status::Finished, 0, 0, 0, 0, PlayStatus::Stanby)),
        Err(GameError::MalformedMessage)
    );
    assert_eq!(g.parties.len(), 0);
    let out = g.handle_party(&create(1, 10, 1)).unwrap();
    assert_eq!(out.len(), 1);
    let id = out[0].message.party_id;
    let out = g.handle_party(&join(2)).unwrap();
    assert_eq!(out.len(), 2);
    assert_eq!(g.handle_party(&play(1, id, 1, 10, 1, PlayStatus::Betrail)), Ok(vec![]));
    let out = g.handle_party(&play(2, id, 1, 10, 1, PlayStatus::Betrail)).unwrap();
    assert_eq!(out[0].message.party_status, Status::Equal);
    assert_eq!(out[1].message.party_status, Status::Equal);
    assert_eq!(g.parties[0].status, Status::Finished);
}

#[test]
fn handshake_carries_the_new_id() {
    let h = handshake(31);
    assert_eq!(h.player, Player { id: 31, money: 100 });
    assert_eq!(h.party_status, Status::Init);
    assert_eq!(h.play, PlayStatus::Stanby);
}

#[test]
fn add_party_appends() {
    let mut g = Game::new();
    let empty = Slot { player: Player::default(), play: PlayStatus::Stanby, balance: 0 };
    g.add_party(Party {
        id: 3,
        total_round: 1,
        round: 1,
        status: Status::WaitingPlayer,
        bet: 4,
        player1: Player::default(),
        player2: Player { id: 8, money: 100 },
        party_round: PartyRound { round_played: vec![(empty, empty)] },
    });
    assert_eq!(g.parties.len(), 1);
    assert!(g.id_in_use(3));
    assert!(!g.id_in_use(4));
    let out = g.join_party(&join(9)).unwrap();
    assert_eq!(out[1].to, 8);
}

#[test]
fn end_to_end_party_of_three_rounds() {
    let mut g = Game::new();
    let a = new_player_id();
    let b = loop {
        let b = new_player_id();
        if b != a {
            break b;
        }
    };
    assert_eq!(handshake(a).player.id, a);

    // A creates
    let out = g.handle_party(&create(a, 10, 3)).unwrap();
    assert_eq!(out.len(), 1);
    assert_eq!(out[0].to, a);
    assert_eq!(out[0].message.party_status, Status::Created);
    let id = out[0].message.party_id;
    assert_ne!(id, 0);

    // B joins
    let out = g.handle_party(&join(b)).unwrap();
    let to: Vec<u32> = out.iter().map(|o: &Outgoing| o.to).collect();
    assert_eq!(to, vec![b, a]);
    for o in out.iter() {
        assert_eq!(o.message.party_status, Status::Started);
        assert_eq!((o.message.round, o.message.total_round, o.message.bet), (1, 3, 10));
        assert_eq!(o.message.party_id, id);
    }

    // round 1: A cooperates, B betrays
    assert_eq!(g.handle_party(&play(a, id, 1, 10, 3, PlayStatus::Cooperate)), Ok(vec![]));
    let out = g.handle_party(&play(b, id, 1, 10, 3, PlayStatus::Betrail)).unwrap();
    assert_eq!(out.len(), 2);
    assert_eq!((out[0].to, out[0].message.player.money), (a, 80));
    assert_eq!((out[1].to, out[1].message.player.money), (b, 120));
    for o in out.iter() {
        assert_eq!(o.message.party_status, Status::Started);
        assert_eq!(o.message.round, 2);
        assert_eq!(o.message.play, PlayStatus::Stanby);
    }

    // round 2: both cooperate
    g.handle_party(&play(b, id, 2, 10, 3, PlayStatus::Cooperate)).unwrap();
    let out = g.handle_party(&play(a, id, 2, 10, 3, PlayStatus::Cooperate)).unwrap();
    assert_eq!((out[0].to, out[0].message.player.money), (b, 125));
    assert_eq!((out[1].to, out[1].message.player.money), (a, 85));
    assert_eq!(out[0].message.round, 3);

    // round 3: both betray
    g.handle_party(&play(a, id, 3, 10, 3, PlayStatus::Betrail)).unwrap();
    let out = g.handle_party(&play(b, id, 3, 10, 3, PlayStatus::Betrail)).unwrap();
    assert_eq!(out.len(), 2);
    assert_eq!(out[0].to, a);
    assert_eq!(out[0].message.party_status, Status::Lose);
    assert_eq!(out[0].message.player, Player { id: a, money: 75 });
    assert_eq!(out[1].to, b);
    assert_eq!(out[1].message.party_status, Status::Win);
    assert_eq!(out[1].message.player, Player { id: b, money: 115 });

    let party = &g.parties[0];
    assert_eq!(party.status, Status::Finished);
    assert_eq!(party.round, 3);

    // the record has one row per round for this party
    let rows = party.result_rows();
    assert_eq!(rows.len(), 3);
    for r in rows.iter() {
        assert_eq!(r.party_id, id);
    }
    assert_eq!((rows[0].player1_id, rows[0].player1_play, rows[0].player1_money), (a, PlayStatus::Cooperate, 80));
    assert_eq!((rows[0].player2_id, rows[0].player2_play, rows[0].player2_money), (b, PlayStatus::Betrail, 120));
    assert_eq!((rows[1].player1_id, rows[1].player1_money), (b, 125));
    assert_eq!((rows[2].player2_id, rows[2].player2_money), (b, 115));

    // a finished party takes no more moves
    assert_eq!(g.handle_party(&play(a, id, 3, 10, 3, PlayStatus::Betrail)), Err(GameError::InvalidMove));
}

#[test]
fn balances_stay_within_the_money_limit() {
    let mut g = Game::new();
    let mut c = create(1, u32::MAX, 1);
    c.player.money = i64::MAX;
    g.create_party(&c, 1);
    assert_eq!(g.parties[0].player2.money, dilemma::money::MONEY_LIMIT);
    g.join_party(&join(2)).unwrap();
    g.submit_move(&play(1, 1, 1, u32::MAX, 1, PlayStatus::Betrail)).unwrap();
    let out = g.submit_move(&play(2, 1, 1, u32::MAX, 1, PlayStatus::Cooperate)).unwrap();
    assert_eq!(out[0].message.player.money, dilemma::money::MONEY_LIMIT);
    assert_eq!(out[0].message.party_status, Status::Win);
    assert_eq!(out[1].message.player.money, 100 - 2 * (u32::MAX as i64));
}

#[test]
fn party_with_no_rounds_takes_no_move() {
    let mut g = Game::new();
    g.create_party(&create(1, 10, 0), 6);
    g.join_party(&join(2)).unwrap();
    assert_eq!(g.submit_move(&play(1, 6, 1, 10, 0, PlayStatus::Betrail)), Err(GameError::InvalidMove));
}

#[test]
fn blank_values() {
    let p = Party::default();
    assert_eq!((p.id, p.total_round, p.round, p.bet), (0, 0, 1, 0));
    assert_eq!(p.status, Status::Init);
    assert_eq!(p.player1, Player::default());
    assert!(p.party_round.round_played.is_empty());
    assert!(PartyRound::default().round_played.is_empty());
    assert!(Game::default().parties.is_empty());
}

#[test]
fn only_final_messages_end_a_party() {
    let (mut g, id) = started(10, 1);
    let first = g.submit_move(&play(1, id, 1, 10, 1, PlayStatus::Cooperate)).unwrap();
    assert!(!dilemma::game::ends_party(&first));
    let last = g.submit_move(&play(2, id, 1, 10, 1, PlayStatus::Cooperate)).unwrap();
    assert!(dilemma::game::ends_party(&last));
    let (mut g, id) = started(10, 2);
    g.submit_move(&play(1, id, 1, 10, 2, PlayStatus::Cooperate)).unwrap();
    let next = g.submit_move(&play(2, id, 1, 10, 2, PlayStatus::Cooperate)).unwrap();
    assert!(!dilemma::game::ends_party(&next));
}

#[test]
fn create_game_finds_an_id_on_a_full_prefix() {
    // ids 1..=40 taken: the drawn or searched id is any other non-zero one
    let mut g = Game::new();
    for k in 1..=40u32 {
        g.create_party(&create(k, 1, 1), k);
    }
    let out = g.create_game(&create(99, 10, 2)).unwrap();
    assert!(out.message.party_id > 40);
    assert_eq!(g.parties.len(), 41);
}
