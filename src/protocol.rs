//! The message exchanged between server and client, and its fixed 30-byte
//! wire layout (all integers big-endian):
//!
//! | offset | size | field                              |
//! |--------|------|------------------------------------|
//! | 0      | 4    | player id                          |
//! | 4      | 8    | player money, as a binary64 value  |
//! | 12     | 1    | party status tag, 0 to 8           |
//! | 13     | 4    | total rounds                       |
//! | 17     | 4    | current round                      |
//! | 21     | 4    | stake                              |
//! | 25     | 4    | party id                           |
//! | 29     | 1    | move tag, 0 to 2                   |
use crate::bytes::{be_of, be_value, lemma_be_round_trip, push_u32_be, push_u64_be, read_be};
use crate::money::{
    clamp_money, is_double_of, lemma_money_round_trip, money_from_bits, money_in_range,
    money_of_bits, money_to_bits,
};
use vstd::arithmetic::power::pow;
use vstd::prelude::*;

verus! {

/// Length in bytes of one message on the wire.
pub const MESSAGE_LEN: usize = 30;

/// Balance a player starts with.
pub const DEFAULT_MONEY: i64 = 100;

/// Where a party stands, as the server stores it and as each message
/// announces it. `Win`, `Lose` and `Equal` are only ever sent, one to each
/// player of a finished party.
#[derive(Clone, Copy, Debug, PartialEq, Eq, Structural)]
pub enum Status {
    Init,
    Created,
    WaitingPlayer,
    JoinParty,
    Started,
    Finished,
    Win,
    Lose,
    Equal,
}

/// A move in a round. `Stanby` means that no move has been made yet.
#[derive(Clone, Copy, Debug, PartialEq, Eq, Structural)]
pub enum PlayStatus {
    Betrail,
    Cooperate,
    Stanby,
}

/// A player: the id that the server handed out, and a balance in whole units.
#[derive(Clone, Copy, Debug, PartialEq, Eq, Structural)]
pub struct Player {
    pub id: u32,
    pub money: i64,
}

/// One message, in either direction.
#[derive(Clone, Copy, Debug, PartialEq, Eq, Structural)]
pub struct Protocol {
    pub player: Player,
    pub party_status: Status,
    pub total_round: u32,
    pub round: u32,
    pub bet: u32,
    pub party_id: u32,
    pub play: PlayStatus,
}

/// Why a message was not acted on.
#[derive(Clone, Copy, Debug, PartialEq, Eq, Structural)]
pub enum GameError {
    /// Too short, an enum tag out of range, or a status that asks for nothing.
    MalformedMessage,
    /// No live connection is known for the player.
    UnknownPlayer,
    /// No stored party has the id that the message names.
    UnknownParty,
    /// No party is waiting for an opponent.
    NoWaitingParty,
    /// The party is not playing that round, the sender is not one of its
    /// players or has already moved, or the move is `Stanby`.
    InvalidMove,
    /// No unused party id could be drawn.
    NoFreePartyId,
}

pub open spec fn status_tag(s: Status) -> u8 {
    match s {
        Status::Init => 0,
        Status::Created => 1,
        Status::WaitingPlayer => 2,
        Status::Started => 3,
        Status::Finished => 4,
        Status::JoinParty => 5,
        Status::Win => 6,
        Status::Lose => 7,
        Status::Equal => 8,
    }
}

/// The status with tag `t`, for `t <= 8`.
pub open spec fn status_of_tag(t: u8) -> Status {
    if t == 0 {
        Status::Init
    } else if t == 1 {
        Status::Created
    } else if t == 2 {
        Status::WaitingPlayer
    } else if t == 3 {
        Status::Started
    } else if t == 4 {
        Status::Finished
    } else if t == 5 {
        Status::JoinParty
    } else if t == 6 {
        Status::Win
    } else if t == 7 {
        Status::Lose
    } else {
        Status::Equal
    }
}

pub open spec fn play_tag(p: PlayStatus) -> u8 {
    match p {
        PlayStatus::Betrail => 0,
        PlayStatus::Cooperate => 1,
        PlayStatus::Stanby => 2,
    }
}

/// The move with tag `t`, for `t <= 2`.
pub open spec fn play_of_tag(t: u8) -> PlayStatus {
    if t == 0 {
        PlayStatus::Betrail
    } else if t == 1 {
        PlayStatus::Cooperate
    } else {
        PlayStatus::Stanby
    }
}

/// `b` is the 12-byte form of a player: the id, then the balance (capped at
/// the money limit) as a binary64 value.
pub open spec fn player_encodes(pl: Player, b: Seq<u8>) -> bool {
    &&& b.len() == 12
    &&& b.subrange(0, 4) == be_of(pl.id as nat, 4)
    &&& is_double_of(be_value(b.subrange(4, 12)) as int, clamp_money(pl.money as int))
}

/// `b` is the wire form of `p`.
pub open spec fn encodes(p: Protocol, b: Seq<u8>) -> bool {
    &&& b.len() == MESSAGE_LEN
    &&& player_encodes(p.player, b.subrange(0, 12))
    &&& b[12] == status_tag(p.party_status)
    &&& b.subrange(13, 17) == be_of(p.total_round as nat, 4)
    &&& b.subrange(17, 21) == be_of(p.round as nat, 4)
    &&& b.subrange(21, 25) == be_of(p.bet as nat, 4)
    &&& b.subrange(25, 29) == be_of(p.party_id as nat, 4)
    &&& b[29] == play_tag(p.play)
}

/// The message that a buffer holds, if any: a buffer shorter than a message,
/// or with a status tag above 8 or a move tag above 2, holds none. Bytes
/// after the first 30 are not read.
pub open spec fn decoded(b: Seq<u8>) -> Option<Protocol> {
    if b.len() < MESSAGE_LEN || b[12] > 8 || b[29] > 2 {
        None
    } else {
        Some(
            Protocol {
                player: Player {
                    id: be_value(b.subrange(0, 4)) as u32,
                    money: money_of_bits(be_value(b.subrange(4, 12)) as int) as i64,
                },
                party_status: status_of_tag(b[12]),
                total_round: be_value(b.subrange(13, 17)) as u32,
                round: be_value(b.subrange(17, 21)) as u32,
                bet: be_value(b.subrange(21, 25)) as u32,
                party_id: be_value(b.subrange(25, 29)) as u32,
                play: play_of_tag(b[29]),
            },
        )
    }
}

impl Status {
    pub fn tag(&self) -> (r: u8)
        ensures
            r == status_tag(*self),
    {
        match self {
            Status::Init => 0,
            Status::Created => 1,
            Status::WaitingPlayer => 2,
            Status::Started => 3,
            Status::Finished => 4,
            Status::JoinParty => 5,
            Status::Win => 6,
            Status::Lose => 7,
            Status::Equal => 8,
        }
    }

    pub fn from_tag(t: u8) -> (r: Option<Status>)
        ensures
            t <= 8 ==> r == Some(status_of_tag(t)),
            t > 8 ==> r is None,
    {
        match t {
            0 => Some(Status::Init),
            1 => Some(Status::Created),
            2 => Some(Status::WaitingPlayer),
            3 => Some(Status::Started),
            4 => Some(Status::Finished),
            5 => Some(Status::JoinParty),
            6 => Some(Status::Win),
            7 => Some(Status::Lose),
            8 => Some(Status::Equal),
            _ => None,
        }
    }
}

impl PlayStatus {
    /// The name of the move as the result record writes it.
    pub fn label(&self) -> (r: &'static str)
        ensures
            *self == PlayStatus::Betrail ==> r@ == "Betray"@,
            *self == PlayStatus::Cooperate ==> r@ == "Cooperate"@,
            *self == PlayStatus::Stanby ==> r@ == "Standby"@,
    {
        match self {
            PlayStatus::Betrail => "Betray",
            PlayStatus::Cooperate => "Cooperate",
            PlayStatus::Stanby => "Standby",
        }
    }

    pub fn tag(&self) -> (r: u8)
        ensures
            r == play_tag(*self),
    {
        match self {
            PlayStatus::Betrail => 0,
            PlayStatus::Cooperate => 1,
            PlayStatus::Stanby => 2,
        }
    }

    pub fn from_tag(t: u8) -> (r: Option<PlayStatus>)
        ensures
            t <= 2 ==> r == Some(play_of_tag(t)),
            t > 2 ==> r is None,
    {
        match t {
            0 => Some(PlayStatus::Betrail),
            1 => Some(PlayStatus::Cooperate),
            2 => Some(PlayStatus::Stanby),
            _ => None,
        }
    }
}

impl Default for Status {
    fn default() -> (r: Status)
        ensures
            r == Status::Init,
    {
        Status::Init
    }
}

impl Default for PlayStatus {
    fn default() -> (r: PlayStatus)
        ensures
            r == PlayStatus::Stanby,
    {
        PlayStatus::Stanby
    }
}

impl Default for Player {
    fn default() -> (r: Player)
        ensures
            r == (Player { id: 0, money: DEFAULT_MONEY }),
    {
        Player { id: 0, money: DEFAULT_MONEY }
    }
}

impl Default for Protocol {
    fn default() -> (r: Protocol)
        ensures
            r == (Protocol {
                player: Player { id: 0, money: DEFAULT_MONEY },
                party_status: Status::Init,
                total_round: 0,
                round: 0,
                bet: 0,
                party_id: 0,
                play: PlayStatus::Stanby,
            }),
    {
        Protocol {
            player: Player { id: 0, money: DEFAULT_MONEY },
            party_status: Status::Init,
            total_round: 0,
            round: 0,
            bet: 0,
            party_id: 0,
            play: PlayStatus::Stanby,
        }
    }
}

proof fn lemma_pow256()
    ensures
        pow(256, 4) == 0x1_0000_0000,
        pow(256, 8) == 0x1_0000_0000_0000_0000,
{
    reveal_with_fuel(pow, 9);
}

impl Player {
    /// The 12-byte wire form of the player.
    pub fn to_bytes(&self) -> (r: Vec<u8>)
        ensures
            player_encodes(*self, r@),
    {
        let mut bytes: Vec<u8> = Vec::new();
        push_u32_be(&mut bytes, self.id);
        let bits: u64 = money_to_bits(self.money);
        push_u64_be(&mut bytes, bits);
        proof {
            lemma_pow256();
            lemma_be_round_trip(self.id as nat, 4);
            lemma_be_round_trip(bits as nat, 8);
            assert(bytes@.subrange(0, 4) =~= be_of(self.id as nat, 4));
            assert(bytes@.subrange(4, 12) =~= be_of(bits as nat, 8));
        }
        bytes
    }
}

impl Protocol {
    /// The 30-byte wire form of the message. Encoding always succeeds; a
    /// balance beyond the money limit is sent as the limit.
    pub fn to_bytes(&self) -> (r: Vec<u8>)
        ensures
            encodes(*self, r@),
    {
        let mut bytes = self.player.to_bytes();
        let ghost head = bytes@;
        bytes.push(self.party_status.tag());
        push_u32_be(&mut bytes, self.total_round);
        push_u32_be(&mut bytes, self.round);
        push_u32_be(&mut bytes, self.bet);
        push_u32_be(&mut bytes, self.party_id);
        bytes.push(self.play.tag());
        proof {
            lemma_pow256();
            lemma_be_round_trip(self.total_round as nat, 4);
            lemma_be_round_trip(self.round as nat, 4);
            lemma_be_round_trip(self.bet as nat, 4);
            lemma_be_round_trip(self.party_id as nat, 4);
            assert(bytes@.subrange(0, 12) =~= head);
            assert(bytes@.subrange(13, 17) =~= be_of(self.total_round as nat, 4));
            assert(bytes@.subrange(17, 21) =~= be_of(self.round as nat, 4));
            assert(bytes@.subrange(21, 25) =~= be_of(self.bet as nat, 4));
            assert(bytes@.subrange(25, 29) =~= be_of(self.party_id as nat, 4));
        }
        bytes
    }

    /// Reads a message from the start of `bytes`. A buffer shorter than a
    /// message, or with an enum tag out of range, is `MalformedMessage`.
    pub fn from_bytes(bytes: &[u8]) -> (r: Result<Protocol, GameError>)
        ensures
            match decoded(bytes@) {
                Some(p) => r == Ok::<Protocol, GameError>(p),
                None => r == Err::<Protocol, GameError>(GameError::MalformedMessage),
            },
    {
        if bytes.len() < MESSAGE_LEN {
            return Err(GameError::MalformedMessage);
        }
        let party_status = match Status::from_tag(bytes[12]) {
            Some(s) => s,
            None => {
                return Err(GameError::MalformedMessage);
            },
        };
        let play = match PlayStatus::from_tag(bytes[29]) {
            Some(p) => p,
            None => {
                return Err(GameError::MalformedMessage);
            },
        };
        proof {
            lemma_pow256();
            lemma_be_len_bound(bytes@.subrange(0, 4));
            lemma_be_len_bound(bytes@.subrange(13, 17));
            lemma_be_len_bound(bytes@.subrange(17, 21));
            lemma_be_len_bound(bytes@.subrange(21, 25));
            lemma_be_len_bound(bytes@.subrange(25, 29));
        }
        let id: u32 = read_be(bytes, 0, 4) as u32;
        let money: i64 = money_from_bits(read_be(bytes, 4, 8));
        Ok(
            Protocol {
                player: Player { id, money },
                party_status,
                total_round: read_be(bytes, 13, 4) as u32,
                round: read_be(bytes, 17, 4) as u32,
                bet: read_be(bytes, 21, 4) as u32,
                party_id: read_be(bytes, 25, 4) as u32,
                play,
            },
        )
    }
}

/// Four bytes spell a number below 2^32.
proof fn lemma_be_len_bound(b: Seq<u8>)
    requires
        b.len() == 4,
    ensures
        be_value(b) < 0x1_0000_0000,
{
    reveal_with_fuel(be_value, 5);
    assert(b.drop_last().drop_last().drop_last().drop_last().len() == 0);
}

/// Decoding the wire form of a message gives the message back, for every
/// status, every move, every value of the integer fields, and every balance
/// within the money limit.
pub proof fn lemma_decode_encode(p: Protocol, b: Seq<u8>)
    requires
        money_in_range(p.player.money as int),
        encodes(p, b),
    ensures
        decoded(b) == Some(p),
{
    lemma_pow256();
    lemma_be_round_trip(p.player.id as nat, 4);
    lemma_be_round_trip(p.total_round as nat, 4);
    lemma_be_round_trip(p.round as nat, 4);
    lemma_be_round_trip(p.bet as nat, 4);
    lemma_be_round_trip(p.party_id as nat, 4);
    let head = b.subrange(0, 12);
    assert(head.subrange(0, 4) =~= b.subrange(0, 4));
    assert(head.subrange(4, 12) =~= b.subrange(4, 12));
    lemma_money_round_trip(be_value(b.subrange(4, 12)) as int, p.player.money as int);
    let q = decoded(b).unwrap();
    assert(q.player == p.player);
    assert(q.party_status == p.party_status);
    assert(q.play == p.play);
}

} // verus!
