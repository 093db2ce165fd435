use name_game::game::{Epoch, NameId};
use name_game::messages::{DecodeError, NGMessage};

fn round_trip(m: NGMessage) {
    let bytes = m.encode();
    assert_eq!(NGMessage::parse(&bytes), Ok(m));
}

#[test]
fn round_trip_state_submitting() {
    round_trip(NGMessage::StateSubmitting(Epoch(0)));
    round_trip(NGMessage::StateSubmitting(Epoch(u32::MAX)));
}

#[test]
fn round_trip_submit_name() {
    round_trip(NGMessage::SubmitName("Alice".to_string()));
    round_trip(NGMessage::SubmitName(String::new()));
    round_trip(NGMessage::SubmitName("é€😀".repeat(40)));
}

#[test]
fn round_trip_name_submitted() {
    round_trip(NGMessage::NameSubmitted("Bob".to_string(), NameId(0x0123_4567_89ab_cdef_0011_2233_4455_6677)));
}

#[test]
fn round_trip_unsubmit_and_unsubmitted() {
    round_trip(NGMessage::UnsubmitName(NameId(7)));
    round_trip(NGMessage::NameUnsubmitted(NameId(u128::MAX)));
}

#[test]
fn round_trip_counts_and_indices() {
    for n in [0usize, 1, 127, 128, 255, 256, 65535, 65536, 4294967295, 4294967296] {
        round_trip(NGMessage::NumNames(n));
        round_trip(NGMessage::GuessName(n));
        round_trip(NGMessage::NameGuessed(n));
        round_trip(NGMessage::UnguessName(n));
        round_trip(NGMessage::NameUnguessed(n));
    }
}

#[test]
fn round_trip_unit_variants() {
    round_trip(NGMessage::RequestPlayingState);
    round_trip(NGMessage::RequestSubmittingState);
}

#[test]
fn round_trip_names() {
    round_trip(NGMessage::Names(vec![], vec![]));
    round_trip(NGMessage::Names(
        vec!["Alice".to_string(), "Bob".to_string(), "Carol".to_string()],
        vec![0b1010_0000],
    ));
    let many: Vec<String> = (0..20).map(|i| format!("name {i}")).collect();
    round_trip(NGMessage::Names(many, vec![0xff; 300]));
}

#[test]
fn encode_exact_bytes() {
    assert_eq!(NGMessage::StateSubmitting(Epoch(5)).encode(), vec![0, 0, 0, 0, 5]);
    assert_eq!(NGMessage::StateSubmitting(Epoch(200)).encode(), vec![0, 0, 0, 0, 0xcc, 200]);
    assert_eq!(NGMessage::NumNames(300).encode(), vec![0, 0, 0, 5, 0xcd, 0x01, 0x2c]);
    assert_eq!(
        NGMessage::GuessName(70000).encode(),
        vec![0, 0, 0, 8, 0xce, 0x00, 0x01, 0x11, 0x70]
    );
    assert_eq!(NGMessage::SubmitName("Al".to_string()).encode(), vec![0, 0, 0, 1, 0xa2, b'A', b'l']);
    assert_eq!(NGMessage::RequestPlayingState.encode(), vec![0, 0, 0, 6]);
    assert_eq!(NGMessage::RequestSubmittingState.encode(), vec![0, 0, 0, 12]);
    let mut id_frame = vec![0, 0, 0, 3, 0xc4, 16];
    id_frame.extend((1u8..=16).collect::<Vec<u8>>());
    assert_eq!(
        NGMessage::UnsubmitName(NameId(0x0102_0304_0506_0708_090a_0b0c_0d0e_0f10)).encode(),
        id_frame
    );
    assert_eq!(
        NGMessage::Names(vec!["a".to_string()], vec![0x80]).encode(),
        vec![0, 0, 0, 7, 0x92, 0x91, 0xa1, b'a', 0xc4, 1, 0x80]
    );
    let mut pair = vec![0, 0, 0, 2, 0x92, 0xa1, b'x', 0xc4, 16];
    pair.extend([0u8; 15]);
    pair.push(9);
    assert_eq!(NGMessage::NameSubmitted("x".to_string(), NameId(9)).encode(), pair);
}

#[test]
fn parse_rejects_unknown_tag() {
    assert_eq!(NGMessage::parse(&[0, 0, 0, 255]), Err(DecodeError::UnknownTag(255)));
    assert_eq!(NGMessage::parse(&[0, 0, 0, 13, 1]), Err(DecodeError::UnknownTag(13)));
    assert_eq!(NGMessage::parse(&[1, 0, 0, 0]), Err(DecodeError::UnknownTag(0x0100_0000)));
}

#[test]
fn parse_unit_variants_need_empty_payload() {
    assert_eq!(NGMessage::parse(&[0, 0, 0, 6]), Ok(NGMessage::RequestPlayingState));
    assert_eq!(NGMessage::parse(&[0, 0, 0, 6, 0]), Err(DecodeError::UnexpectedPayload(6)));
    assert_eq!(NGMessage::parse(&[0, 0, 0, 12]), Ok(NGMessage::RequestSubmittingState));
    assert_eq!(NGMessage::parse(&[0, 0, 0, 12, 1, 2]), Err(DecodeError::UnexpectedPayload(12)));
}

#[test]
fn parse_rejects_short_and_malformed_frames() {
    assert_eq!(NGMessage::parse(&[]), Err(DecodeError::Truncated));
    assert_eq!(NGMessage::parse(&[0, 0, 0]), Err(DecodeError::Truncated));
    assert_eq!(NGMessage::parse(&[0, 0, 0, 1]), Err(DecodeError::MalformedPayload(1)));
    assert_eq!(NGMessage::parse(&[0, 0, 0, 1, 0xc1]), Err(DecodeError::MalformedPayload(1)));
    assert_eq!(NGMessage::parse(&[0, 0, 0, 3, 0xc4, 2, 1, 2]), Err(DecodeError::MalformedPayload(3)));
    assert_eq!(NGMessage::parse(&[0, 0, 0, 7, 0x90]), Err(DecodeError::MalformedPayload(7)));
    // an epoch past 32 bits
    assert_eq!(
        NGMessage::parse(&[0, 0, 0, 0, 0xcf, 0, 0, 0, 1, 0, 0, 0, 0]),
        Err(DecodeError::MalformedPayload(0))
    );
}

#[test]
fn tags_and_sizes() {
    assert_eq!(NGMessage::StateSubmitting(Epoch(1)).tag(), 0);
    assert_eq!(NGMessage::Names(vec![], vec![]).tag(), 7);
    assert_eq!(NGMessage::RequestSubmittingState.tag(), 12);
    assert!(NGMessage::SubmitName("x".repeat(1000)).fits_wire());
    assert!(NGMessage::Names(vec!["a".to_string(); 70000], vec![0; 70000]).fits_wire());
    assert!(NGMessage::GuessName(usize::MAX).fits_wire());
}

#[test]
fn encode_large_integers() {
    if usize::MAX as u128 > u32::MAX as u128 {
        assert_eq!(
            NGMessage::NumNames(0x1_0000_0000).encode(),
            vec![0, 0, 0, 5, 0xcf, 0, 0, 0, 1, 0, 0, 0, 0]
        );
    }
    let mut long = vec![0, 0, 0, 1, 0xd9, 40];
    long.extend(vec![b'z'; 40]);
    assert_eq!(NGMessage::SubmitName("z".repeat(40)).encode(), long);
}

#[test]
fn parse_rejects_integer_where_text_is_due() {
    assert_eq!(NGMessage::parse(&[0, 0, 0, 1, 0x05]), Err(DecodeError::MalformedPayload(1)));
    assert_eq!(NGMessage::parse(&[0, 0, 0, 3, 0x05]), Err(DecodeError::MalformedPayload(3)));
    assert_eq!(NGMessage::parse(&[0, 0, 0, 5]), Err(DecodeError::MalformedPayload(5)));
}
