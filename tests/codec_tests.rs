use dilemma::game::handshake;
use dilemma::money::{money_from_bits, money_to_bits, MONEY_LIMIT};
use dilemma::protocol::{GameError, PlayStatus, Player, Protocol, Status, MESSAGE_LEN};

const STATUSES: [Status; 9] = [
    Status::Init,
    Status::Created,
    Status::WaitingPlayer,
    Status::JoinParty,
    Status::Started,
    Status::Finished,
    Status::Win,
    Status::Lose,
    Status::Equal,
];

const PLAYS: [PlayStatus; 3] = [PlayStatus::Betrail, PlayStatus::Cooperate, PlayStatus::Stanby];

fn message(id: u32, money: i64, status: Status, n: u32, play: PlayStatus) -> Protocol {
    Protocol {
        player: Player { id, money },
        party_status: status,
        total_round: n,
        round: n,
        bet: n,
        party_id: n,
        play,
    }
}

#[test]
fn decode_of_encode_gives_the_message_back() {
    let moneys = [0i64, 1, -1, 100, 80, -20, 12345678901, MONEY_LIMIT, -MONEY_LIMIT];
    for &status in STATUSES.iter() {
        for &play in PLAYS.iter() {
            for &n in [0u32, 1, u32::MAX].iter() {
                for &money in moneys.iter() {
                    let m = message(n, money, status, n, play);
                    let bytes = m.to_bytes();
                    assert_eq!(bytes.len(), MESSAGE_LEN);
                    assert_eq!(Protocol::from_bytes(&bytes), Ok(m));
                }
            }
        }
    }
}

#[test]
fn fields_sit_at_their_offsets_big_endian() {
    let m = Protocol {
        player: Player { id: 0x01020304, money: 100 },
        party_status: Status::JoinParty,
        total_round: 3,
        round: 0x0A0B0C0D,
        bet: 10,
        party_id: 0xDEADBEEF,
        play: PlayStatus::Cooperate,
    };
    let bytes = m.to_bytes();
    let expected: Vec<u8> = vec![
        1, 2, 3, 4, // id
        0x40, 0x59, 0, 0, 0, 0, 0, 0, // 100.0
        5, // JoinParty
        0, 0, 0, 3, // total rounds
        0x0A, 0x0B, 0x0C, 0x0D, // round
        0, 0, 0, 10, // stake
        0xDE, 0xAD, 0xBE, 0xEF, // party id
        1, // Cooperate
    ];
    assert_eq!(bytes, expected);
}

#[test]
fn handshake_message_bytes() {
    let bytes = handshake(7).to_bytes();
    assert_eq!(&bytes[0..4], &[0, 0, 0, 7]);
    assert_eq!(&bytes[4..12], &100.0f64.to_be_bytes());
    assert_eq!(bytes[12], 0);
    assert_eq!(&bytes[13..29], &[0u8; 16]);
    assert_eq!(bytes[29], 2);
}

#[test]
fn player_bytes_are_id_then_double() {
    let p = Player { id: 9, money: -20 };
    let bytes = p.to_bytes();
    assert_eq!(bytes.len(), 12);
    assert_eq!(&bytes[0..4], &[0, 0, 0, 9]);
    assert_eq!(&bytes[4..12], &(-20.0f64).to_be_bytes());
}

#[test]
fn whole_numbers_are_encoded_as_the_same_double() {
    let values = [
        0i64,
        1,
        -1,
        2,
        3,
        5,
        100,
        -100,
        120,
        80,
        1 << 20,
        (1 << 52) + 1,
        (1i64 << 53) - 1,
        MONEY_LIMIT,
        -MONEY_LIMIT,
        987654321987,
    ];
    for &v in values.iter() {
        assert_eq!(money_to_bits(v), (v as f64).to_bits(), "value {}", v);
        assert_eq!(money_from_bits((v as f64).to_bits()), v);
    }
}

#[test]
fn balances_beyond_the_limit_are_sent_as_the_limit() {
    assert_eq!(money_to_bits(i64::MAX), (MONEY_LIMIT as f64).to_bits());
    assert_eq!(money_to_bits(i64::MIN), (-(MONEY_LIMIT as f64)).to_bits());
}

#[test]
fn doubles_are_read_truncated_toward_zero() {
    assert_eq!(money_from_bits(80.7f64.to_bits()), 80);
    assert_eq!(money_from_bits((-2.5f64).to_bits()), -2);
    assert_eq!(money_from_bits(0.25f64.to_bits()), 0);
    assert_eq!(money_from_bits((-0.0f64).to_bits()), 0);
    assert_eq!(money_from_bits(f64::NAN.to_bits()), 0);
    assert_eq!(money_from_bits(f64::INFINITY.to_bits()), MONEY_LIMIT);
    assert_eq!(money_from_bits(f64::NEG_INFINITY.to_bits()), -MONEY_LIMIT);
    assert_eq!(money_from_bits(1e300f64.to_bits()), MONEY_LIMIT);
    assert_eq!(money_from_bits(f64::MIN_POSITIVE.to_bits()), 0);
}

#[test]
fn short_buffers_are_malformed() {
    let bytes = Protocol::default().to_bytes();
    for len in 0..MESSAGE_LEN {
        assert_eq!(Protocol::from_bytes(&bytes[..len]), Err(GameError::MalformedMessage));
    }
}

#[test]
fn out_of_range_tags_are_malformed() {
    let good = Protocol::default().to_bytes();
    for tag in 9u8..=255 {
        let mut bytes = good.clone();
        bytes[12] = tag;
        assert_eq!(Protocol::from_bytes(&bytes), Err(GameError::MalformedMessage));
    }
    for tag in 3u8..=255 {
        let mut bytes = good.clone();
        bytes[29] = tag;
        assert_eq!(Protocol::from_bytes(&bytes), Err(GameError::MalformedMessage));
    }
}

#[test]
fn bytes_after_the_message_are_not_read() {
    let m = message(4, 100, Status::Started, 2, PlayStatus::Betrail);
    let mut bytes = m.to_bytes();
    bytes.extend_from_slice(&[0xFF; 994]);
    assert_eq!(Protocol::from_bytes(&bytes), Ok(m));
}

#[test]
fn fractional_money_on_the_wire_is_truncated() {
    let mut bytes = Protocol::default().to_bytes();
    bytes[4..12].copy_from_slice(&99.9f64.to_be_bytes());
    let m = Protocol::from_bytes(&bytes).unwrap();
    assert_eq!(m.player.money, 99);
}

#[test]
fn tags_match_the_wire_table() {
    let expected = [0u8, 1, 2, 5, 3, 4, 6, 7, 8];
    for (s, t) in STATUSES.iter().zip(expected.iter()) {
        assert_eq!(s.tag(), *t);
        assert_eq!(Status::from_tag(*t), Some(*s));
    }
    assert_eq!(PlayStatus::Betrail.tag(), 0);
    assert_eq!(PlayStatus::Cooperate.tag(), 1);
    assert_eq!(PlayStatus::Stanby.tag(), 2);
    assert_eq!(Status::from_tag(9), None);
    assert_eq!(PlayStatus::from_tag(3), None);
}

#[test]
fn defaults() {
    let p = Protocol::default();
    assert_eq!(p.player, Player { id: 0, money: 100 });
    assert_eq!(p.party_status, Status::Init);
    assert_eq!(p.play, PlayStatus::Stanby);
    assert_eq!(Player::default().money, 100);
    assert_eq!(Status::default(), Status::Init);
    assert_eq!(PlayStatus::default(), PlayStatus::Stanby);
}

#[test]
fn move_labels() {
    assert_eq!(PlayStatus::Betrail.label(), "Betray");
    assert_eq!(PlayStatus::Cooperate.label(), "Cooperate");
    assert_eq!(PlayStatus::Stanby.label(), "Standby");
}
