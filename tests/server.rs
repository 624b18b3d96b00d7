use vsq::error::QueryError;
use vsq::packet::{PacketType, ResPacket};
use vsq::server::{A2sStep, ChallengeExchange, CHALLENGE_COUNTER_MAX};

fn challenge(b: [u8; 4]) -> ResPacket {
    ResPacket { header: 0x41, payload: b.to_vec() }
}

#[test]
fn challenge_rounds_are_bounded() {
    let mut x = ChallengeExchange::new(PacketType::Info);
    let mut resends = 0;
    loop {
        match x.on_response(challenge([0, 0, 0, 7])).unwrap() {
            A2sStep::Resend(_) => resends += 1,
            A2sStep::Done(res) => {
                assert_eq!(res, challenge([0, 0, 0, 7]));
                break;
            }
        }
        assert!(resends <= CHALLENGE_COUNTER_MAX);
    }
    assert_eq!(resends, 10);
}

#[test]
fn rules_resend_has_no_payload() {
    let mut x = ChallengeExchange::new(PacketType::Rules);
    assert_eq!(x.packet(), vec![0xFF, 0xFF, 0xFF, 0xFF, 0x56]);
    match x.on_response(challenge([0x11, 0x22, 0x33, 0x44])).unwrap() {
        A2sStep::Resend(bytes) => {
            assert_eq!(bytes, vec![0xFF, 0xFF, 0xFF, 0xFF, 0x56, 0x11, 0x22, 0x33, 0x44])
        }
        A2sStep::Done(_) => panic!("expected a resend"),
    }
    assert!(x.request.payload.is_none());
    assert_eq!(x.request.challenge, Some(0x11223344));
}

#[test]
fn info_resend_keeps_literal() {
    let mut x = ChallengeExchange::new(PacketType::Info);
    let mut expected = vec![0xFF, 0xFF, 0xFF, 0xFF, 0x54];
    expected.extend_from_slice(b"Source Engine Query\0");
    assert_eq!(x.packet(), expected);
    match x.on_response(challenge([0xFF, 0xFF, 0xFF, 0xFF])).unwrap() {
        A2sStep::Resend(bytes) => {
            expected.extend_from_slice(&[0xFF, 0xFF, 0xFF, 0xFF]);
            assert_eq!(bytes, expected);
        }
        A2sStep::Done(_) => panic!("expected a resend"),
    }
    assert_eq!(x.request.challenge, Some(-1));
}

#[test]
fn non_challenge_response_is_returned() {
    let mut x = ChallengeExchange::new(PacketType::Rules);
    let res = ResPacket { header: 0x45, payload: vec![1, 0, 65, 0, 66, 0] };
    match x.on_response(res.clone()).unwrap() {
        A2sStep::Done(r) => assert_eq!(r, res),
        A2sStep::Resend(_) => panic!("expected the final response"),
    }
    assert_eq!(x.rounds, 0);
}

#[test]
fn challenge_with_bad_length_is_malformed() {
    let mut x = ChallengeExchange::new(PacketType::Info);
    let res = ResPacket { header: 0x41, payload: vec![1, 2, 3] };
    assert!(matches!(x.on_response(res), Err(QueryError::MalformedPacket)));
    assert_eq!(x.rounds, 0);
    assert!(x.request.challenge.is_none());
}

fn framed(d: &[u8]) -> ResPacket {
    ResPacket::from_datagram(d).unwrap()
}

#[test]
fn info_answered_directly_through_framing() {
    let mut x = ChallengeExchange::new(PacketType::Info);
    match x.on_response(framed(&[0xFF, 0xFF, 0xFF, 0xFF, 0x49, 0x11])).unwrap() {
        A2sStep::Done(r) => assert_eq!(r, ResPacket { header: 0x49, payload: vec![0x11] }),
        A2sStep::Resend(_) => panic!("expected the final response"),
    }
}

#[test]
fn info_after_one_challenge_through_framing() {
    let mut x = ChallengeExchange::new(PacketType::Info);
    let mut first = vec![0xFF, 0xFF, 0xFF, 0xFF, 0x54];
    first.extend_from_slice(b"Source Engine Query\0");
    assert_eq!(x.packet(), first);
    match x.on_response(framed(&[0xFF, 0xFF, 0xFF, 0xFF, 0x41, 1, 2, 3, 4])).unwrap() {
        A2sStep::Resend(bytes) => {
            let mut second = first.clone();
            second.extend_from_slice(&[1, 2, 3, 4]);
            assert_eq!(bytes, second);
        }
        A2sStep::Done(_) => panic!("expected a resend"),
    }
    match x.on_response(framed(&[0xFF, 0xFF, 0xFF, 0xFF, 0x49, 0x11])).unwrap() {
        A2sStep::Done(r) => assert_eq!(r, ResPacket { header: 0x49, payload: vec![0x11] }),
        A2sStep::Resend(_) => panic!("expected the final response"),
    }
}

#[test]
fn rules_after_one_challenge_through_framing() {
    let mut x = ChallengeExchange::new(PacketType::Rules);
    assert_eq!(x.packet(), vec![0xFF, 0xFF, 0xFF, 0xFF, 0x56]);
    match x.on_response(framed(&[0xFF, 0xFF, 0xFF, 0xFF, 0x41, 1, 2, 3, 4])).unwrap() {
        A2sStep::Resend(bytes) => assert_eq!(bytes, vec![0xFF, 0xFF, 0xFF, 0xFF, 0x56, 1, 2, 3, 4]),
        A2sStep::Done(_) => panic!("expected a resend"),
    }
    match x.on_response(framed(&[0xFF, 0xFF, 0xFF, 0xFF, 0x45, 0, 0])).unwrap() {
        A2sStep::Done(r) => assert_eq!(r, ResPacket { header: 0x45, payload: vec![0, 0] }),
        A2sStep::Resend(_) => panic!("expected the final response"),
    }
}

#[test]
fn rules_short_challenge_through_framing_is_malformed() {
    let mut x = ChallengeExchange::new(PacketType::Rules);
    let res = framed(&[0xFF, 0xFF, 0xFF, 0xFF, 0x41, 1, 2, 3]);
    assert!(matches!(x.on_response(res), Err(QueryError::MalformedPacket)));
}
