//! The party store and the round state machine: creating a party, joining
//! the first party that waits for an opponent, and recording moves until the
//! last round is settled.
//!
//! Every operation returns the messages it wants sent, each with the id of
//! the player it is for; sending them is left to the caller, after any lock
//! on the store has been released.
use crate::money::{clamp_money, money_in_range, MONEY_LIMIT};
use crate::protocol::{GameError, PlayStatus, Player, Protocol, Status, DEFAULT_MONEY};
use rand::Rng;
use vstd::prelude::*;
use vstd::seq_lib::seq_to_set_is_finite;
use vstd::set_lib::{lemma_int_range, lemma_len_subset, set_int_range};

verus! {

/// How many random ids `create_game` draws before it searches for an unused one.
pub const PARTY_ID_DRAWS: u32 = 16;

/// One side of a round: who moved, the move, and the balance after the round
/// was settled (0 until then).
#[derive(Clone, Copy, Debug, PartialEq, Eq, Structural)]
pub struct Slot {
    pub player: Player,
    pub play: PlayStatus,
    pub balance: i64,
}

/// The history of a party: one pair of slots per round, in the order in
/// which the two moves of that round came in.
#[derive(Clone, Debug)]
pub struct PartyRound {
    pub round_played: Vec<(Slot, Slot)>,
}

/// One game between two players. `player2` is the player who created it,
/// `player1` the one who joined (the default player until then).
#[derive(Clone, Debug)]
pub struct Party {
    pub id: u32,
    pub total_round: u32,
    pub round: u32,
    pub status: Status,
    pub bet: u32,
    pub player1: Player,
    pub player2: Player,
    pub party_round: PartyRound,
}

/// All parties, in the order in which they were created.
#[derive(Debug)]
pub struct Game {
    pub parties: Vec<Party>,
}

/// A message to be sent to the player with id `to`.
#[derive(Clone, Copy, Debug, PartialEq, Eq, Structural)]
pub struct Outgoing {
    pub to: u32,
    pub message: Protocol,
}

pub open spec fn empty_slot() -> Slot {
    Slot { player: Player { id: 0, money: DEFAULT_MONEY }, play: PlayStatus::Stanby, balance: 0 }
}

pub open spec fn filled(s: Slot) -> bool {
    s.play != PlayStatus::Stanby
}

/// What a round does to the balance of a player who played `mine` against
/// `theirs`: both betray, each loses the stake; both cooperate, each gains
/// half of it (rounded down); a betrayer gains twice the stake from a
/// cooperator, who loses as much.
pub open spec fn payoff(mine: PlayStatus, theirs: PlayStatus, stake: u32) -> int {
    if mine == PlayStatus::Betrail && theirs == PlayStatus::Betrail {
        -stake
    } else if mine == PlayStatus::Cooperate && theirs == PlayStatus::Cooperate {
        stake as int / 2
    } else if mine == PlayStatus::Betrail && theirs == PlayStatus::Cooperate {
        2 * stake
    } else if mine == PlayStatus::Cooperate && theirs == PlayStatus::Betrail {
        -2 * stake
    } else {
        0
    }
}

/// A balance after a round, kept within the money limit.
pub open spec fn settled(money: i64, mine: PlayStatus, theirs: PlayStatus, stake: u32) -> i64 {
    clamp_money(money + payoff(mine, theirs, stake)) as i64
}

/// The end of a party as seen by a player with final balance `mine` against
/// an opponent with `theirs`.
pub open spec fn outcome(mine: i64, theirs: i64) -> Status {
    if mine > theirs {
        Status::Win
    } else if mine < theirs {
        Status::Lose
    } else {
        Status::Equal
    }
}

/// A player whose balance is brought within the money limit.
pub open spec fn capped(pl: Player) -> Player {
    Player { id: pl.id, money: clamp_money(pl.money as int) as i64 }
}

/// The message that tells `who` where party `p` stands.
pub open spec fn notice(p: Party, who: Player, status: Status) -> Protocol {
    Protocol {
        player: who,
        party_status: status,
        total_round: p.total_round,
        round: p.round,
        bet: p.bet,
        party_id: p.id,
        play: PlayStatus::Stanby,
    }
}

/// The record that party `p` holds of the player with id `id`.
pub open spec fn member(p: Party, id: u32) -> Player {
    if id == p.player1.id {
        p.player1
    } else {
        p.player2
    }
}

impl Party {
    pub open spec fn rounds(&self) -> Seq<(Slot, Slot)> {
        self.party_round.round_played@
    }

    /// Both moves of round entry `i` are in.
    pub open spec fn settled_at(&self, i: int) -> bool {
        filled(self.rounds()[i].0) && filled(self.rounds()[i].1)
    }

    /// No move of round entry `i` is in.
    pub open spec fn open_at(&self, i: int) -> bool {
        !filled(self.rounds()[i].0) && !filled(self.rounds()[i].1)
    }

    /// The rounds are played in order: before the party starts no move is
    /// in; while it is played every earlier round is settled, every later
    /// one untouched, and the current one has at most its first move; once
    /// it is finished every round is settled.
    pub open spec fn rounds_in_order(&self) -> bool {
        &&& self.status == Status::WaitingPlayer ==> forall|i: int|
            #![trigger self.rounds()[i]]
            0 <= i < self.rounds().len() ==> self.open_at(i)
        &&& self.status == Status::Started ==> forall|i: int|
            #![trigger self.rounds()[i]]
            0 <= i < self.rounds().len() ==> (i < self.round - 1 ==> self.settled_at(i)) && (i
                > self.round - 1 ==> self.open_at(i)) && (i == self.round - 1 ==> !filled(
                self.rounds()[i].1,
            ))
        &&& self.status == Status::Finished ==> forall|i: int|
            #![trigger self.rounds()[i]]
            0 <= i < self.rounds().len() ==> self.settled_at(i)
    }

    /// One entry per round, balances within the money limit, a round
    /// number that is that of a round of the party once it has started, and
    /// rounds played in order.
    pub open spec fn wf(&self) -> bool {
        &&& self.rounds().len() == self.total_round
        &&& money_in_range(self.player1.money as int)
        &&& money_in_range(self.player2.money as int)
        &&& self.status == Status::WaitingPlayer || self.status == Status::Started
            || self.status == Status::Finished
        &&& self.status == Status::Started ==> 1 <= self.round && (self.round
            <= self.total_round || self.total_round == 0)
        &&& self.status == Status::Finished ==> self.round == self.total_round
        &&& forall|i: int|
            #![trigger self.rounds()[i]]
            0 <= i < self.rounds().len() ==> money_in_range(self.rounds()[i].0.player.money as int)
                && money_in_range(self.rounds()[i].1.player.money as int)
        &&& self.rounds_in_order()
    }

    /// A move that the party takes: it is playing the round the message
    /// names, the move is a real one, the sender is one of its two players,
    /// and the round still has a slot that the sender may fill.
    pub open spec fn accepts(&self, req: Protocol) -> bool {
        &&& self.status == Status::Started
        &&& req.round == self.round
        &&& 1 <= self.round <= self.rounds().len()
        &&& req.play != PlayStatus::Stanby
        &&& (req.player.id == self.player1.id || req.player.id == self.player2.id)
        &&& !filled(self.rounds()[self.round - 1].1)
        &&& !(filled(self.rounds()[self.round - 1].0) && self.rounds()[self.round - 1].0.player.id
            == req.player.id)
    }

    /// `self` is the party just made by `create_party(req, id)`.
    pub open spec fn is_created(&self, req: Protocol, id: u32) -> bool {
        &&& self.id == id
        &&& self.total_round == req.total_round
        &&& self.round == 1
        &&& self.status == Status::WaitingPlayer
        &&& self.bet == req.bet
        &&& self.player1 == (Player { id: 0, money: DEFAULT_MONEY })
        &&& self.player2 == capped(req.player)
        &&& self.rounds() == Seq::new(req.total_round as nat, |i: int| (empty_slot(), empty_slot()))
    }

    /// `new` is `old` once the player of `req` has joined it.
    pub open spec fn joined(old: Party, new: Party, req: Protocol) -> bool {
        &&& new.id == old.id
        &&& new.total_round == old.total_round
        &&& new.bet == old.bet
        &&& new.rounds() == old.rounds()
        &&& new.player2 == old.player2
        &&& new.player1 == capped(req.player)
        &&& new.status == Status::Started
        &&& new.round == 1
    }

    /// `new` is `old` once it has taken the move of `req`, and `out` is what
    /// that move makes it send. The first move of a round is recorded and
    /// sends nothing. The second settles the round: both balances change by
    /// `payoff`, both players learn the next round number, or, after the
    /// last round, each learns whether they won, lost or drew.
    pub open spec fn moved(old: Party, new: Party, req: Protocol, out: Seq<Outgoing>) -> bool {
        let k = old.round - 1;
        let first = old.rounds()[k].0;
        let second = old.rounds()[k].1;
        let who = member(old, req.player.id);
        &&& new.id == old.id
        &&& new.total_round == old.total_round
        &&& new.bet == old.bet
        &&& if !filled(first) {
            &&& new.rounds() == old.rounds().update(
                k,
                (Slot { player: who, play: req.play, balance: 0 }, second),
            )
            &&& new.player1 == old.player1
            &&& new.player2 == old.player2
            &&& new.status == old.status
            &&& new.round == old.round
            &&& out.len() == 0
        } else {
            let a = Player {
                id: first.player.id,
                money: settled(first.player.money, first.play, req.play, old.bet),
            };
            let b = Player { id: who.id, money: settled(who.money, req.play, first.play, old.bet) };
            &&& new.rounds() == old.rounds().update(
                k,
                (
                    Slot { player: a, play: first.play, balance: a.money },
                    Slot { player: b, play: req.play, balance: b.money },
                ),
            )
            &&& new.player1 == (if old.player1.id == a.id {
                a
            } else if old.player1.id == b.id {
                b
            } else {
                old.player1
            })
            &&& new.player2 == (if old.player2.id == a.id {
                a
            } else if old.player2.id == b.id {
                b
            } else {
                old.player2
            })
            &&& if old.round == old.total_round {
                &&& new.status == Status::Finished
                &&& new.round == old.round
                &&& out == seq![
                    Outgoing { to: a.id, message: notice(new, a, outcome(a.money, b.money)) },
                    Outgoing { to: b.id, message: notice(new, b, outcome(b.money, a.money)) },
                ]
            } else {
                &&& new.status == Status::Started
                &&& new.round == old.round + 1
                &&& out == seq![
                    Outgoing { to: a.id, message: notice(new, a, Status::Started) },
                    Outgoing { to: b.id, message: notice(new, b, Status::Started) },
                ]
            }
        }
    }
}

/// Replacing the entry of one round by slots whose players' balances are
/// within the money limit keeps every balance of the history within it.
proof fn lemma_update_keeps_money(pre: Party, post: Party, k: int, e: (Slot, Slot))
    requires
        pre.wf(),
        0 <= k < pre.rounds().len(),
        post.rounds() == pre.rounds().update(k, e),
        money_in_range(e.0.player.money as int),
        money_in_range(e.1.player.money as int),
    ensures
        forall|i: int|
            #![trigger post.rounds()[i]]
            0 <= i < post.rounds().len() ==> money_in_range(post.rounds()[i].0.player.money as int)
                && money_in_range(post.rounds()[i].1.player.money as int),
{
    assert forall|i: int| #![trigger post.rounds()[i]]
        0 <= i < post.rounds().len() implies money_in_range(post.rounds()[i].0.player.money as int)
        && money_in_range(post.rounds()[i].1.player.money as int) by {
        if i != k {
            assert(post.rounds()[i] == pre.rounds()[i]);
            assert(money_in_range(pre.rounds()[i].0.player.money as int));
        }
    }
}

impl Default for PartyRound {
    fn default() -> (r: PartyRound)
        ensures
            r.round_played@.len() == 0,
    {
        PartyRound { round_played: Vec::new() }
    }
}

impl Default for Party {
    /// A blank party: id 0, no rounds, round 1, status `Init`, no stake, and
    /// the default player on both sides.
    fn default() -> (r: Party)
        ensures
            r.id == 0,
            r.total_round == 0,
            r.round == 1,
            r.status == Status::Init,
            r.bet == 0,
            r.player1 == (Player { id: 0, money: DEFAULT_MONEY }),
            r.player2 == (Player { id: 0, money: DEFAULT_MONEY }),
            r.rounds().len() == 0,
    {
        Party {
            id: 0,
            total_round: 0,
            round: 1,
            status: Status::Init,
            bet: 0,
            player1: Player { id: 0, money: DEFAULT_MONEY },
            player2: Player { id: 0, money: DEFAULT_MONEY },
            party_round: PartyRound::default(),
        }
    }
}

/// A balance after a round, kept within the money limit.
fn settle(money: i64, mine: PlayStatus, theirs: PlayStatus, stake: u32) -> (r: i64)
    requires
        money_in_range(money as int),
    ensures
        r == settled(money, mine, theirs, stake),
        money_in_range(r as int),
{
    let s: i64 = stake as i64;
    let v: i64 = match (mine, theirs) {
        (PlayStatus::Betrail, PlayStatus::Betrail) => money - s,
        (PlayStatus::Cooperate, PlayStatus::Cooperate) => money + s / 2,
        (PlayStatus::Betrail, PlayStatus::Cooperate) => money + 2 * s,
        (PlayStatus::Cooperate, PlayStatus::Betrail) => money - 2 * s,
        _ => money,
    };
    if v > MONEY_LIMIT {
        MONEY_LIMIT
    } else if v < -MONEY_LIMIT {
        -MONEY_LIMIT
    } else {
        v
    }
}

/// The end of a party as seen by the holder of `mine` (see `outcome`).
pub fn party_outcome(mine: i64, theirs: i64) -> (r: Status)
    ensures
        r == outcome(mine, theirs),
{
    if mine > theirs {
        Status::Win
    } else if mine < theirs {
        Status::Lose
    } else {
        Status::Equal
    }
}

fn cap(pl: Player) -> (r: Player)
    ensures
        r == capped(pl),
{
    let money: i64 = if pl.money > MONEY_LIMIT {
        MONEY_LIMIT
    } else if pl.money < -MONEY_LIMIT {
        -MONEY_LIMIT
    } else {
        pl.money
    };
    Player { id: pl.id, money }
}

fn empty() -> (r: Slot)
    ensures
        r == empty_slot(),
{
    Slot { player: Player { id: 0, money: DEFAULT_MONEY }, play: PlayStatus::Stanby, balance: 0 }
}

impl Party {
    /// The message that tells `who` where this party stands.
    pub fn notice(&self, who: Player, status: Status) -> (r: Protocol)
        ensures
            r == notice(*self, who, status),
    {
        Protocol {
            player: who,
            party_status: status,
            total_round: self.total_round,
            round: self.round,
            bet: self.bet,
            party_id: self.id,
            play: PlayStatus::Stanby,
        }
    }

    /// Seats the player of `req` as the opponent and starts round 1. Returns
    /// the two `Started` messages, first for the joiner, then for the creator.
    pub fn join(&mut self, req: &Protocol) -> (out: Vec<Outgoing>)
        requires
            old(self).wf(),
            old(self).status == Status::WaitingPlayer,
        ensures
            final(self).wf(),
            Party::joined(*old(self), *final(self), *req),
            out@ == seq![
                Outgoing {
                    to: req.player.id,
                    message: notice(*final(self), capped(req.player), Status::Started),
                },
                Outgoing {
                    to: old(self).player2.id,
                    message: notice(*final(self), old(self).player2, Status::Started),
                },
            ],
    {
        self.player1 = cap(req.player);
        self.status = Status::Started;
        self.round = 1;
        let mut out: Vec<Outgoing> = Vec::new();
        out.push(Outgoing { to: req.player.id, message: self.notice(self.player1, Status::Started) });
        out.push(Outgoing { to: self.player2.id, message: self.notice(self.player2, Status::Started) });
        assert(out@ =~= seq![
            Outgoing {
                to: req.player.id,
                message: notice(*self, capped(req.player), Status::Started),
            },
            Outgoing { to: self.player2.id, message: notice(*self, self.player2, Status::Started) },
        ]);
        out
    }

    /// Takes the move of `req`, if the party accepts it (see `accepts` and
    /// `moved`); otherwise leaves the party as it is and says `InvalidMove`.
    pub fn submit(&mut self, req: &Protocol) -> (r: Result<Vec<Outgoing>, GameError>)
        requires
            old(self).wf(),
        ensures
            final(self).wf(),
            old(self).accepts(*req) ==> r is Ok && Party::moved(
                *old(self),
                *final(self),
                *req,
                r.unwrap()@,
            ),
            !old(self).accepts(*req) ==> r == Err::<Vec<Outgoing>, GameError>(
                GameError::InvalidMove,
            ) && *final(self) == *old(self),
    {
        if self.status != Status::Started || req.round != self.round || self.round < 1
            || self.round as usize > self.party_round.round_played.len() || req.play
            == PlayStatus::Stanby || (req.player.id != self.player1.id && req.player.id
            != self.player2.id) {
            return Err(GameError::InvalidMove);
        }
        let k: usize = (self.round - 1) as usize;
        let (first, second) = self.party_round.round_played[k];
        if second.play != PlayStatus::Stanby || (first.play != PlayStatus::Stanby
            && first.player.id == req.player.id) {
            return Err(GameError::InvalidMove);
        }
        let who = if req.player.id == self.player1.id {
            self.player1
        } else {
            self.player2
        };
        let ghost pre = *self;
        let mut out: Vec<Outgoing> = Vec::new();
        if first.play == PlayStatus::Stanby {
            self.party_round.round_played.set(
                k,
                (Slot { player: who, play: req.play, balance: 0 }, second),
            );
            proof {
                lemma_update_keeps_money(
                    pre,
                    *self,
                    k as int,
                    (Slot { player: who, play: req.play, balance: 0 }, second),
                );
            }
            return Ok(out);
        }
        let a = Player {
            id: first.player.id,
            money: settle(first.player.money, first.play, req.play, self.bet),
        };
        let b = Player { id: who.id, money: settle(who.money, req.play, first.play, self.bet) };
        self.party_round.round_played.set(
            k,
            (
                Slot { player: a, play: first.play, balance: a.money },
                Slot { player: b, play: req.play, balance: b.money },
            ),
        );
        if self.player1.id == a.id {
            self.player1 = a;
        } else if self.player1.id == b.id {
            self.player1 = b;
        }
        if self.player2.id == a.id {
            self.player2 = a;
        } else if self.player2.id == b.id {
            self.player2 = b;
        }
        proof {
            lemma_update_keeps_money(
                pre,
                *self,
                k as int,
                (
                    Slot { player: a, play: first.play, balance: a.money },
                    Slot { player: b, play: req.play, balance: b.money },
                ),
            );
        }
        if self.round == self.total_round {
            self.status = Status::Finished;
            out.push(
                Outgoing {
                    to: a.id,
                    message: self.notice(a, party_outcome(a.money, b.money)),
                },
            );
            out.push(
                Outgoing {
                    to: b.id,
                    message: self.notice(b, party_outcome(b.money, a.money)),
                },
            );
            assert(out@ =~= seq![
                Outgoing { to: a.id, message: notice(*self, a, outcome(a.money, b.money)) },
                Outgoing { to: b.id, message: notice(*self, b, outcome(b.money, a.money)) },
            ]);
        } else {
            self.round = self.round + 1;
            out.push(Outgoing { to: a.id, message: self.notice(a, Status::Started) });
            out.push(Outgoing { to: b.id, message: self.notice(b, Status::Started) });
            assert(out@ =~= seq![
                Outgoing { to: a.id, message: notice(*self, a, Status::Started) },
                Outgoing { to: b.id, message: notice(*self, b, Status::Started) },
            ]);
        }
        Ok(out)
    }
}

/// A row of the record of a party, one per round.
#[derive(Clone, Copy, Debug, PartialEq, Eq, Structural)]
pub struct ResultRow {
    pub party_id: u32,
    pub player1_id: u32,
    pub player1_play: PlayStatus,
    pub player1_money: i64,
    pub player2_id: u32,
    pub player2_play: PlayStatus,
    pub player2_money: i64,
}

pub open spec fn row_of(id: u32, e: (Slot, Slot)) -> ResultRow {
    ResultRow {
        party_id: id,
        player1_id: e.0.player.id,
        player1_play: e.0.play,
        player1_money: e.0.player.money,
        player2_id: e.1.player.id,
        player2_play: e.1.play,
        player2_money: e.1.player.money,
    }
}

impl Party {
    /// The record of the party: one row per round, with the two players of
    /// the round in the order in which they moved.
    pub fn result_rows(&self) -> (r: Vec<ResultRow>)
        ensures
            r@ == self.rounds().map_values(|e: (Slot, Slot)| row_of(self.id, e)),
    {
        let mut rows: Vec<ResultRow> = Vec::new();
        let n: usize = self.party_round.round_played.len();
        let mut i: usize = 0;
        while i < n
            invariant
                i <= n == self.rounds().len(),
                rows@ == self.rounds().subrange(0, i as int).map_values(
                    |e: (Slot, Slot)| row_of(self.id, e),
                ),
            decreases n - i,
        {
            let e = self.party_round.round_played[i];
            rows.push(
                ResultRow {
                    party_id: self.id,
                    player1_id: e.0.player.id,
                    player1_play: e.0.play,
                    player1_money: e.0.player.money,
                    player2_id: e.1.player.id,
                    player2_play: e.1.play,
                    player2_money: e.1.player.money,
                },
            );
            i = i + 1;
            assert(self.rounds().subrange(0, i as int) =~= self.rounds().subrange(
                0,
                i - 1,
            ).push(e));
            assert(rows@ =~= self.rounds().subrange(0, i as int).map_values(
                |e: (Slot, Slot)| row_of(self.id, e),
            ));
        }
        assert(self.rounds().subrange(0, n as int) =~= self.rounds());
        rows
    }
}

/// Relies on rand's `Rng::gen_range` on the thread-local generator
/// (`thread_rng`): a value drawn from `low..=high`. `gen_range` panics only
/// on an empty range, which `requires` rules out; `thread_rng` panics if the
/// operating system cannot seed it, which no argument can rule out.
#[verifier::external_body]
fn random_in(low: u32, high: u32) -> (r: u32)
    requires
        low <= high,
    ensures
        low <= r <= high,
{
    rand::thread_rng().gen_range(low..=high)
}

/// A fresh player id, drawn at random; never 0, the id of the placeholder
/// player.
pub fn new_player_id() -> (r: u32)
    ensures
        r != 0,
{
    random_in(1, u32::MAX)
}

/// The first message to a new connection: the default message, carrying
/// the id handed out to the player.
pub fn handshake(id: u32) -> (r: Protocol)
    ensures
        r == (Protocol {
            player: Player { id, money: DEFAULT_MONEY },
            party_status: Status::Init,
            total_round: 0,
            round: 0,
            bet: 0,
            party_id: 0,
            play: PlayStatus::Stanby,
        }),
{
    let mut p = Protocol::default();
    p.player.id = id;
    p
}

/// Some party of `s` has the id `id`.
pub open spec fn id_used(s: Seq<Party>, id: u32) -> bool {
    exists|i: int| 0 <= i < s.len() && (#[trigger] s[i]).id == id
}

/// Fewer parties than there are non-zero ids leave some non-zero id unused.
pub proof fn lemma_free_id_exists(s: Seq<Party>)
    requires
        s.len() < u32::MAX,
    ensures
        exists|id: u32| id != 0 && !(#[trigger] id_used(s, id)),
{
    if forall|id: u32| id != 0 ==> #[trigger] id_used(s, id) {
        let ids = s.map_values(|p: Party| p.id as int);
        let range = set_int_range(1, u32::MAX + 1);
        assert forall|x: int| range.contains(x) implies #[trigger] ids.to_set().contains(x) by {
            assert(id_used(s, x as u32));
            let j = choose|j: int| 0 <= j < s.len() && (#[trigger] s[j]).id == x as u32;
            assert(ids[j] == x);
            assert(ids.contains(x));
        }
        lemma_int_range(1, u32::MAX + 1);
        seq_to_set_is_finite(ids);
        lemma_len_subset(range, ids.to_set());
        ids.lemma_cardinality_of_set();
    }
}

/// The first party of `s` that waits for an opponent is at `i`.
pub open spec fn first_waiting(s: Seq<Party>, i: int) -> bool {
    &&& 0 <= i < s.len()
    &&& s[i].status == Status::WaitingPlayer
    &&& forall|j: int| 0 <= j < i ==> (#[trigger] s[j]).status != Status::WaitingPlayer
}

pub open spec fn none_waiting(s: Seq<Party>) -> bool {
    forall|j: int| 0 <= j < s.len() ==> (#[trigger] s[j]).status != Status::WaitingPlayer
}

/// `new` is `old` with party `i` replaced, and nothing else.
pub open spec fn only_changed(old: Seq<Party>, new: Seq<Party>, i: int) -> bool {
    &&& new.len() == old.len()
    &&& forall|j: int| 0 <= j < old.len() && j != i ==> new[j] == old[j]
}

pub open spec fn seq_result(r: Result<Vec<Outgoing>, GameError>) -> Result<
    Seq<Outgoing>,
    GameError,
> {
    match r {
        Ok(v) => Ok(v@),
        Err(e) => Err(e),
    }
}

/// What `join_party(req)` does to a store `old`: the first party waiting for
/// an opponent is joined by the sender, and both of its players are sent
/// `Started`; with no party waiting, nothing changes.
pub open spec fn join_step(
    old: Seq<Party>,
    new: Seq<Party>,
    req: Protocol,
    r: Result<Seq<Outgoing>, GameError>,
) -> bool {
    &&& none_waiting(old) ==> r == Err::<Seq<Outgoing>, GameError>(GameError::NoWaitingParty)
        && new == old
    &&& forall|i: int|
        first_waiting(old, i) ==> {
            &&& r is Ok
            &&& only_changed(old, new, i)
            &&& Party::joined(old[i], new[i], req)
            &&& r.unwrap() == seq![
                Outgoing {
                    to: req.player.id,
                    message: notice(new[i], capped(req.player), Status::Started),
                },
                Outgoing { to: old[i].player2.id, message: notice(new[i], old[i].player2, Status::Started) },
            ]
        }
}

/// What `submit_move(req)` does to a store `old`: the party that `req` names
/// takes the move if it accepts it (see `Party::moved`); otherwise nothing
/// changes, and the answer says why.
pub open spec fn submit_step(
    old: Seq<Party>,
    new: Seq<Party>,
    req: Protocol,
    r: Result<Seq<Outgoing>, GameError>,
) -> bool {
    &&& (forall|j: int| 0 <= j < old.len() ==> (#[trigger] old[j]).id != req.party_id) ==> r
        == Err::<Seq<Outgoing>, GameError>(GameError::UnknownParty) && new == old
    &&& forall|i: int|
        0 <= i < old.len() && (#[trigger] old[i]).id == req.party_id ==> {
            &&& old[i].accepts(req) ==> r is Ok && only_changed(old, new, i) && Party::moved(
                old[i],
                new[i],
                req,
                r.unwrap(),
            )
            &&& !old[i].accepts(req) ==> r == Err::<Seq<Outgoing>, GameError>(
                GameError::InvalidMove,
            ) && new == old
        }
}

impl Game {
    /// Every party well formed, and no two with the same id.
    pub open spec fn wf(&self) -> bool {
        &&& forall|i: int| 0 <= i < self.parties@.len() ==> (#[trigger] self.parties@[i]).wf()
        &&& forall|i: int, j: int|
            0 <= i < j < self.parties@.len() ==> (#[trigger] self.parties@[i]).id
                != (#[trigger] self.parties@[j]).id
    }

    pub open spec fn has_id(&self, id: u32) -> bool {
        id_used(self.parties@, id)
    }

    /// The smallest non-zero id that no party uses, if any is left.
    fn free_id(&self) -> (r: Option<u32>)
        ensures
            match r {
                Some(id) => id != 0 && !self.has_id(id),
                None => forall|id: u32| id != 0 ==> #[trigger] id_used(self.parties@, id),
            },
    {
        let mut c: u32 = 1;
        loop
            invariant
                1 <= c,
                forall|d: u32| 1 <= d < c ==> #[trigger] id_used(self.parties@, d),
            decreases u32::MAX - c,
        {
            if !self.id_in_use(c) {
                return Some(c);
            }
            if c == u32::MAX {
                return None;
            }
            c = c + 1;
        }
    }

    pub fn new() -> (r: Game)
        ensures
            r.wf(),
            r.parties@.len() == 0,
    {
        Game { parties: Vec::new() }
    }

    /// Whether some party has the id `id`.
    pub fn id_in_use(&self, id: u32) -> (r: bool)
        ensures
            r == self.has_id(id),
    {
        let mut i: usize = 0;
        while i < self.parties.len()
            invariant
                i <= self.parties@.len(),
                forall|j: int| 0 <= j < i ==> (#[trigger] self.parties@[j]).id != id,
            decreases self.parties@.len() - i,
        {
            if self.parties[i].id == id {
                return true;
            }
            i = i + 1;
        }
        false
    }

    /// Stores a party.
    pub fn add_party(&mut self, party: Party)
        requires
            old(self).wf(),
            party.wf(),
            !old(self).has_id(party.id),
        ensures
            final(self).wf(),
            final(self).parties@ == old(self).parties@.push(party),
    {
        self.parties.push(party);
        assert forall|i: int, j: int|
            0 <= i < j < self.parties@.len() implies (#[trigger] self.parties@[i]).id
            != (#[trigger] self.parties@[j]).id by {
            if j == self.parties@.len() - 1 {
                assert(old(self).parties@[i] == self.parties@[i]);
            }
        }
    }

    /// Creates a party with id `id` for the sender of `req`, with the stake
    /// and round count that `req` asks for, and every round still to play.
    /// Returns the acknowledgement for the sender: `Created`, with the id.
    pub fn create_party(&mut self, req: &Protocol, id: u32) -> (r: Outgoing)
        requires
            old(self).wf(),
            !old(self).has_id(id),
        ensures
            final(self).wf(),
            final(self).parties@.len() == old(self).parties@.len() + 1,
            final(self).parties@.drop_last() == old(self).parties@,
            final(self).parties@.last().is_created(*req, id),
            r == (Outgoing {
                to: req.player.id,
                message: notice(final(self).parties@.last(), capped(req.player), Status::Created),
            }),
    {
        let mut rounds: Vec<(Slot, Slot)> = Vec::new();
        let mut i: u32 = 0;
        while i < req.total_round
            invariant
                i <= req.total_round,
                rounds@ == Seq::new(i as nat, |k: int| (empty_slot(), empty_slot())),
            decreases req.total_round - i,
        {
            rounds.push((empty(), empty()));
            i = i + 1;
            assert(rounds@ =~= Seq::new(i as nat, |k: int| (empty_slot(), empty_slot())));
        }
        let party = Party {
            id,
            total_round: req.total_round,
            round: 1,
            status: Status::WaitingPlayer,
            bet: req.bet,
            player1: Player { id: 0, money: DEFAULT_MONEY },
            player2: cap(req.player),
            party_round: PartyRound { round_played: rounds },
        };
        let message = party.notice(party.player2, Status::Created);
        self.add_party(party);
        assert(self.parties@.drop_last() =~= old(self).parties@);
        Outgoing { to: req.player.id, message }
    }

    /// Creates a party for the sender of `req` (see `create_party`) under a
    /// non-zero id that no other party uses: drawn at random, or, when
    /// `PARTY_ID_DRAWS` draws all hit ids in use, the smallest unused one.
    /// Fails with `NoFreePartyId`, changing nothing, only when every non-zero
    /// id is in use, which takes at least `u32::MAX` parties.
    pub fn create_game(&mut self, req: &Protocol) -> (r: Result<Outgoing, GameError>)
        requires
            old(self).wf(),
        ensures
            final(self).wf(),
            match r {
                Ok(o) => {
                    let p = final(self).parties@.last();
                    &&& final(self).parties@.len() == old(self).parties@.len() + 1
                    &&& final(self).parties@.drop_last() == old(self).parties@
                    &&& p.id != 0
                    &&& !old(self).has_id(p.id)
                    &&& p.is_created(*req, p.id)
                    &&& o == (Outgoing {
                        to: req.player.id,
                        message: notice(p, capped(req.player), Status::Created),
                    })
                },
                Err(e) => {
                    &&& e == GameError::NoFreePartyId
                    &&& final(self).parties@ == old(self).parties@
                    &&& forall|id: u32| id != 0 ==> #[trigger] id_used(old(self).parties@, id)
                    &&& old(self).parties@.len() >= u32::MAX
                },
            },
            old(self).parties@.len() < u32::MAX ==> r is Ok,
    {
        let mut draws: u32 = 0;
        while draws < PARTY_ID_DRAWS
            invariant
                self.wf(),
                self.parties@ == old(self).parties@,
            decreases PARTY_ID_DRAWS - draws,
        {
            let id: u32 = random_in(1, u32::MAX);
            if !self.id_in_use(id) {
                return Ok(self.create_party(req, id));
            }
            draws = draws + 1;
        }
        match self.free_id() {
            Some(id) => Ok(self.create_party(req, id)),
            None => {
                proof {
                    if self.parties@.len() < u32::MAX {
                        lemma_free_id_exists(self.parties@);
                    }
                }
                Err(GameError::NoFreePartyId)
            },
        }
    }

    /// Seats the sender of `req` in the first party that waits for an
    /// opponent and starts it (see `join_step`). With no party waiting the
    /// answer is `NoWaitingParty` and nothing changes.
    pub fn join_party(&mut self, req: &Protocol) -> (r: Result<Vec<Outgoing>, GameError>)
        requires
            old(self).wf(),
        ensures
            final(self).wf(),
            join_step(old(self).parties@, final(self).parties@, *req, seq_result(r)),
    {
        let mut i: usize = 0;
        while i < self.parties.len()
            invariant
                i <= self.parties@.len(),
                self.wf(),
                self.parties@ == old(self).parties@,
                forall|j: int| 0 <= j < i ==> (#[trigger] self.parties@[j]).status
                    != Status::WaitingPlayer,
            decreases self.parties@.len() - i,
        {
            if self.parties[i].status == Status::WaitingPlayer {
                let ghost pre = self.parties@;
                assert(self.parties@[i as int].wf());
                let out = self.parties[i].join(req);
                proof {
                    assert forall|a: int, b: int|
                        0 <= a < b < self.parties@.len() implies (#[trigger] self.parties@[a]).id
                        != (#[trigger] self.parties@[b]).id by {
                        assert(pre[a].id == self.parties@[a].id);
                        assert(pre[b].id == self.parties@[b].id);
                    }
                    assert forall|j: int| 0 <= j < self.parties@.len() implies (
                    #[trigger] self.parties@[j]).wf() by {
                        if j != i {
                            assert(pre[j] == self.parties@[j]);
                        }
                    }
                    assert forall|k: int| first_waiting(pre, k) implies k == i by {
                        if k < i {
                            assert(pre[k].status != Status::WaitingPlayer);
                        } else if k > i {
                            assert(pre[i as int].status != Status::WaitingPlayer);
                        }
                    }
                }
                return Ok(out);
            }
            i = i + 1;
        }
        Err(GameError::NoWaitingParty)
    }

    /// Hands the move of `req` to the party that it names (see
    /// `submit_step`). With no such party the answer is `UnknownParty`; a
    /// move that the party does not take is `InvalidMove`; either way
    /// nothing changes.
    pub fn submit_move(&mut self, req: &Protocol) -> (r: Result<Vec<Outgoing>, GameError>)
        requires
            old(self).wf(),
        ensures
            final(self).wf(),
            submit_step(old(self).parties@, final(self).parties@, *req, seq_result(r)),
    {
        let mut i: usize = 0;
        while i < self.parties.len()
            invariant
                i <= self.parties@.len(),
                self.wf(),
                self.parties@ == old(self).parties@,
                forall|j: int| 0 <= j < i ==> (#[trigger] self.parties@[j]).id != req.party_id,
            decreases self.parties@.len() - i,
        {
            if self.parties[i].id == req.party_id {
                let ghost pre = self.parties@;
                assert(self.parties@[i as int].wf());
                let r = self.parties[i].submit(req);
                proof {
                    assert forall|a: int, b: int|
                        0 <= a < b < self.parties@.len() implies (#[trigger] self.parties@[a]).id
                        != (#[trigger] self.parties@[b]).id by {
                        assert(pre[a].id == self.parties@[a].id);
                        assert(pre[b].id == self.parties@[b].id);
                    }
                    assert forall|j: int| 0 <= j < self.parties@.len() implies (
                    #[trigger] self.parties@[j]).wf() by {
                        if j != i {
                            assert(pre[j] == self.parties@[j]);
                        }
                    }
                    if !pre[i as int].accepts(*req) {
                        assert(self.parties@ =~= pre);
                    }
                    assert forall|k: int|
                        0 <= k < pre.len() && (#[trigger] pre[k]).id == req.party_id implies k
                        == i by {
                        if k < i {
                            assert(pre[k].id != req.party_id);
                        } else if k > i {
                            assert(pre[i as int].id != pre[k].id);
                        }
                    }
                }
                return r;
            }
            i = i + 1;
        }
        Err(GameError::UnknownParty)
    }
}

/// A join takes the first party that waits for an opponent and no other:
/// every party that is not waiting is left as it is, the joined party is
/// `Started` afterwards, and the next join scan passes over it.
pub proof fn lemma_join_leaves_scan(
    old: Seq<Party>,
    new: Seq<Party>,
    req: Protocol,
    r: Result<Seq<Outgoing>, GameError>,
    i: int,
)
    requires
        join_step(old, new, req, r),
        first_waiting(old, i),
    ensures
        r is Ok,
        new[i].status == Status::Started,
        money_in_range(req.player.money as int) ==> new[i].player1 == req.player,
        forall|j: int|
            0 <= j < old.len() && (#[trigger] old[j]).status != Status::WaitingPlayer ==> new[j]
                == old[j],
        forall|k: int| first_waiting(new, k) ==> k > i,
{
    assert forall|k: int| first_waiting(new, k) implies k > i by {
        if k < i {
            assert(new[k] == old[k]);
            assert(old[k].status != Status::WaitingPlayer);
        }
    }
}

/// Settlement happens once per round: when a move has settled a round
/// (the store answered with the two messages of a settlement), sending the
/// same move again is refused as `InvalidMove` and changes nothing.
pub proof fn lemma_settlement_not_replayed(
    g0: Seq<Party>,
    g1: Seq<Party>,
    g2: Seq<Party>,
    req: Protocol,
    r1: Result<Seq<Outgoing>, GameError>,
    r2: Result<Seq<Outgoing>, GameError>,
)
    requires
        submit_step(g0, g1, req, r1),
        r1 is Ok,
        r1.unwrap().len() == 2,
        submit_step(g1, g2, req, r2),
    ensures
        r2 == Err::<Seq<Outgoing>, GameError>(GameError::InvalidMove),
        g2 == g1,
{
    assert(exists|i: int| 0 <= i < g0.len() && (#[trigger] g0[i]).id == req.party_id);
    let i = choose|i: int| 0 <= i < g0.len() && (#[trigger] g0[i]).id == req.party_id;
    assert(g0[i].accepts(req));
    assert(g1[i].id == req.party_id);
    assert(!g1[i].accepts(req));
}

/// What a message from a client asks for, by its status.
#[derive(Clone, Copy, Debug, PartialEq, Eq, Structural)]
pub enum Action {
    /// `Init`: hand out a player id.
    Handshake,
    /// `Created`: create a party.
    Create,
    /// `JoinParty`: join the first party waiting for an opponent.
    Join,
    /// `Started`: make a move.
    Play,
}

pub open spec fn action_of(s: Status) -> Option<Action> {
    match s {
        Status::Init => Some(Action::Handshake),
        Status::Created => Some(Action::Create),
        Status::JoinParty => Some(Action::Join),
        Status::Started => Some(Action::Play),
        _ => None,
    }
}

/// The action a client message asks for; a status that asks for none is
/// `MalformedMessage`.
pub fn action_for(status: Status) -> (r: Result<Action, GameError>)
    ensures
        match action_of(status) {
            Some(a) => r == Ok::<Action, GameError>(a),
            None => r == Err::<Action, GameError>(GameError::MalformedMessage),
        },
{
    match status {
        Status::Init => Ok(Action::Handshake),
        Status::Created => Ok(Action::Create),
        Status::JoinParty => Ok(Action::Join),
        Status::Started => Ok(Action::Play),
        _ => Err(GameError::MalformedMessage),
    }
}

/// What `create_game(req)` does to a store `old`: on success one party is
/// added, under an id that is non-zero and new, and its creator is sent
/// `Created`; otherwise nothing changes.
pub open spec fn create_step(
    old: Seq<Party>,
    new: Seq<Party>,
    req: Protocol,
    r: Result<Seq<Outgoing>, GameError>,
) -> bool {
    match r {
        Ok(out) => {
            let p = new.last();
            &&& new.len() == old.len() + 1
            &&& new.drop_last() == old
            &&& p.id != 0
            &&& forall|j: int| 0 <= j < old.len() ==> (#[trigger] old[j]).id != p.id
            &&& p.is_created(req, p.id)
            &&& out == seq![
                Outgoing { to: req.player.id, message: notice(p, capped(req.player), Status::Created) },
            ]
        },
        Err(e) => {
            &&& e == GameError::NoFreePartyId
            &&& new == old
            &&& forall|id: u32| id != 0 ==> #[trigger] id_used(old, id)
            &&& old.len() >= u32::MAX
        },
    }
}

impl Game {
    /// Carries out what a client message asks of the store: `Created`,
    /// `JoinParty` and `Started` go to `create_game`, `join_party` and
    /// `submit_move`. `Init` leaves the store alone and sends nothing (the
    /// handshake belongs to the connection); any other status is
    /// `MalformedMessage`.
    pub fn handle_party(&mut self, req: &Protocol) -> (r: Result<Vec<Outgoing>, GameError>)
        requires
            old(self).wf(),
        ensures
            final(self).wf(),
            match action_of(req.party_status) {
                Some(Action::Create) => create_step(
                    old(self).parties@,
                    final(self).parties@,
                    *req,
                    seq_result(r),
                ),
                Some(Action::Join) => join_step(
                    old(self).parties@,
                    final(self).parties@,
                    *req,
                    seq_result(r),
                ),
                Some(Action::Play) => submit_step(
                    old(self).parties@,
                    final(self).parties@,
                    *req,
                    seq_result(r),
                ),
                Some(Action::Handshake) => r is Ok && r.unwrap()@.len() == 0
                    && final(self).parties@ == old(self).parties@,
                None => r == Err::<Vec<Outgoing>, GameError>(GameError::MalformedMessage)
                    && final(self).parties@ == old(self).parties@,
            },
    {
        match action_for(req.party_status) {
            Ok(Action::Handshake) => Ok(Vec::new()),
            Ok(Action::Create) => match self.create_game(req) {
                Ok(o) => {
                    let mut out: Vec<Outgoing> = Vec::new();
                    out.push(o);
                    assert(out@ =~= seq![o]);
                    Ok(out)
                },
                Err(e) => Err(e),
            },
            Ok(Action::Join) => self.join_party(req),
            Ok(Action::Play) => self.submit_move(req),
            Err(e) => Err(e),
        }
    }
}

impl Default for Game {
    fn default() -> (r: Game)
        ensures
            r.wf(),
            r.parties@.len() == 0,
    {
        Game::new()
    }
}

/// The payoff rule, wherever the balances stay within the money limit:
/// both betray, each loses the stake; both cooperate, each gains half the
/// stake (rounded down); one betrays and the other cooperates, the betrayer
/// gains twice the stake and the cooperator loses twice the stake.
pub proof fn lemma_payoff_matrix(m1: i64, m2: i64, stake: u32)
    requires
        money_in_range(m1 - 2 * stake),
        money_in_range(m1 + 2 * stake),
        money_in_range(m2 - 2 * stake),
        money_in_range(m2 + 2 * stake),
    ensures
        settled(m1, PlayStatus::Betrail, PlayStatus::Betrail, stake) == m1 - stake,
        settled(m2, PlayStatus::Betrail, PlayStatus::Betrail, stake) == m2 - stake,
        settled(m1, PlayStatus::Cooperate, PlayStatus::Cooperate, stake) == m1 + stake / 2,
        settled(m2, PlayStatus::Cooperate, PlayStatus::Cooperate, stake) == m2 + stake / 2,
        settled(m1, PlayStatus::Betrail, PlayStatus::Cooperate, stake) == m1 + 2 * stake,
        settled(m2, PlayStatus::Cooperate, PlayStatus::Betrail, stake) == m2 - 2 * stake,
        settled(m1, PlayStatus::Cooperate, PlayStatus::Betrail, stake) == m1 - 2 * stake,
        settled(m2, PlayStatus::Betrail, PlayStatus::Cooperate, stake) == m2 + 2 * stake,
{
}

pub open spec fn is_final(s: Status) -> bool {
    s == Status::Win || s == Status::Lose || s == Status::Equal
}

/// Whether some message of `out` tells a player how the party ended, that
/// is, whether the operation that produced `out` finished its party.
pub fn ends_party(out: &Vec<Outgoing>) -> (r: bool)
    ensures
        r == exists|i: int| 0 <= i < out@.len() && is_final(#[trigger] out@[i].message.party_status),
{
    let mut i: usize = 0;
    while i < out.len()
        invariant
            i <= out@.len(),
            forall|j: int| 0 <= j < i ==> !is_final(#[trigger] out@[j].message.party_status),
        decreases out@.len() - i,
    {
        match out[i].message.party_status {
            Status::Win | Status::Lose | Status::Equal => {
                return true;
            },
            _ => {},
        }
        i = i + 1;
    }
    false
}

} // verus!
