use borsh::BorshDeserialize;
use callback_events::dispatch::{decode, dispatch_with};
use callback_events::event::{DispatchError, Event, UnknownEvent};
use callback_events::model::EventKind;
use callback_events::records::{
    Address, CallbackUpdated, CalledBack, Fulfilled, Registered, Requested, RequestedAlt,
    Responded, Transferred, Withdrawn,
};
use callback_events::registry::{discriminator_of, registry, RegistryEntry};

const ALL_KINDS: [EventKind; 9] = [
    EventKind::CallbackUpdated,
    EventKind::CalledBack,
    EventKind::Fulfilled,
    EventKind::Registered,
    EventKind::Requested,
    EventKind::RequestedAlt,
    EventKind::Responded,
    EventKind::Transferred,
    EventKind::Withdrawn,
];

fn address(fill: u8) -> Address {
    Address { bytes: [fill; 32] }
}

fn framed(kind: EventKind, payload: &[u8]) -> Vec<u8> {
    let mut bytes = discriminator_of(kind).to_vec();
    bytes.extend_from_slice(payload);
    bytes
}

fn unknown() -> DispatchError {
    DispatchError::UnknownEventKind(UnknownEvent)
}

#[test]
fn callback_updated_is_read_back() {
    let payload = borsh::to_vec(&([1u8; 32], [2u8; 32], true)).unwrap();
    assert_eq!(payload.len(), 65);
    let event = Event::try_from_bytes(&framed(EventKind::CallbackUpdated, &payload));
    assert_eq!(
        event,
        Ok(Event::CallbackUpdated(CallbackUpdated {
            client: address(1),
            owner: address(2),
            defined: true,
        }))
    );
}

#[test]
fn callback_updated_unset_is_read_back() {
    let payload = borsh::to_vec(&([1u8; 32], [2u8; 32], false)).unwrap();
    let event = Event::try_from_bytes(&framed(EventKind::CallbackUpdated, &payload));
    assert_eq!(
        event,
        Ok(Event::CallbackUpdated(CallbackUpdated {
            client: address(1),
            owner: address(2),
            defined: false,
        }))
    );
}

#[test]
fn called_back_is_read_back() {
    let payload = borsh::to_vec(&[7u8; 32]).unwrap();
    let event = Event::try_from_bytes(&framed(EventKind::CalledBack, &payload));
    assert_eq!(event, Ok(Event::CalledBack(CalledBack { program: address(7) })));
}

#[test]
fn fulfilled_is_read_back() {
    let payload = borsh::to_vec(&([5u8; 32], [6u8; 32], [9u8; 64])).unwrap();
    assert_eq!(payload.len(), 128);
    let event = Event::try_from_bytes(&framed(EventKind::Fulfilled, &payload));
    assert_eq!(
        event,
        Ok(Event::Fulfilled(Fulfilled {
            seed: [5; 32],
            client: address(6),
            randomness: [9; 64],
        }))
    );
}

#[test]
fn registered_is_read_back() {
    let payload = borsh::to_vec(&([1u8; 32], [2u8; 32], [3u8; 32], [4u8; 32])).unwrap();
    let event = Event::try_from_bytes(&framed(EventKind::Registered, &payload));
    assert_eq!(
        event,
        Ok(Event::Registered(Registered {
            client: address(1),
            program: address(2),
            state: address(3),
            owner: address(4),
        }))
    );
}

#[test]
fn requested_with_callback_is_read_back() {
    let callback: Option<Vec<u8>> = Some(vec![10, 20, 30]);
    let payload = borsh::to_vec(&([8u8; 32], [1u8; 32], callback.clone(), true)).unwrap();
    assert_eq!(payload.len(), 64 + 1 + 4 + 3 + 1);
    let event = Event::try_from_bytes(&framed(EventKind::Requested, &payload));
    assert_eq!(
        event,
        Ok(Event::Requested(Requested {
            seed: [8; 32],
            client: address(1),
            callback,
            callback_override: true,
        }))
    );
}

#[test]
fn requested_without_callback_is_read_back() {
    let callback: Option<Vec<u8>> = None;
    let payload = borsh::to_vec(&([8u8; 32], [1u8; 32], callback, false)).unwrap();
    assert_eq!(payload.len(), 66);
    let event = Event::try_from_bytes(&framed(EventKind::Requested, &payload));
    assert_eq!(
        event,
        Ok(Event::Requested(Requested {
            seed: [8; 32],
            client: address(1),
            callback: None,
            callback_override: false,
        }))
    );
}

#[test]
fn requested_with_empty_callback_is_read_back() {
    let callback: Option<Vec<u8>> = Some(Vec::new());
    let payload = borsh::to_vec(&([8u8; 32], [1u8; 32], callback.clone(), false)).unwrap();
    let event = Event::try_from_bytes(&framed(EventKind::Requested, &payload));
    assert_eq!(
        event,
        Ok(Event::Requested(Requested {
            seed: [8; 32],
            client: address(1),
            callback,
            callback_override: false,
        }))
    );
}

#[test]
fn requested_with_long_callback_is_read_back() {
    let data: Vec<u8> = (0..300u32).map(|i| (i % 251) as u8).collect();
    let callback: Option<Vec<u8>> = Some(data);
    let payload = borsh::to_vec(&([8u8; 32], [1u8; 32], callback.clone(), true)).unwrap();
    // 300 is 44 + 256: the length takes two of its four bytes.
    assert_eq!(&payload[65..69], &[44, 1, 0, 0]);
    let event = Event::try_from_bytes(&framed(EventKind::Requested, &payload));
    assert_eq!(
        event,
        Ok(Event::Requested(Requested {
            seed: [8; 32],
            client: address(1),
            callback,
            callback_override: true,
        }))
    );
}

#[test]
fn requested_alt_is_read_back() {
    let callback: Option<Vec<u8>> = Some(vec![0xAA; 5]);
    let payload = borsh::to_vec(&([3u8; 32], [4u8; 32], callback.clone())).unwrap();
    let event = Event::try_from_bytes(&framed(EventKind::RequestedAlt, &payload));
    assert_eq!(
        event,
        Ok(Event::RequestedAlt(RequestedAlt { seed: [3; 32], client: address(4), callback }))
    );
    let none: Option<Vec<u8>> = None;
    let payload = borsh::to_vec(&([3u8; 32], [4u8; 32], none)).unwrap();
    let event = Event::try_from_bytes(&framed(EventKind::RequestedAlt, &payload));
    assert_eq!(
        event,
        Ok(Event::RequestedAlt(RequestedAlt {
            seed: [3; 32],
            client: address(4),
            callback: None,
        }))
    );
}

#[test]
fn responded_is_read_back() {
    let payload = borsh::to_vec(&([6u8; 32], [5u8; 32], [9u8; 64])).unwrap();
    let event = Event::try_from_bytes(&framed(EventKind::Responded, &payload));
    assert_eq!(
        event,
        Ok(Event::Responded(Responded {
            client: address(6),
            seed: [5; 32],
            randomness: [9; 64],
        }))
    );
}

#[test]
fn transferred_is_read_back() {
    let payload = borsh::to_vec(&([1u8; 32], [2u8; 32], [3u8; 32])).unwrap();
    let event = Event::try_from_bytes(&framed(EventKind::Transferred, &payload));
    assert_eq!(
        event,
        Ok(Event::Transferred(Transferred {
            client: address(1),
            owner: address(2),
            new_owner: address(3),
        }))
    );
}

#[test]
fn withdrawn_is_read_back() {
    let payload = borsh::to_vec(&([1u8; 32], [2u8; 32], 1_500_000_000u64)).unwrap();
    assert_eq!(payload.len(), 72);
    let event = Event::try_from_bytes(&framed(EventKind::Withdrawn, &payload));
    assert_eq!(
        event,
        Ok(Event::Withdrawn(Withdrawn {
            client: address(1),
            owner: address(2),
            amount: 1_500_000_000,
        }))
    );
}

#[test]
fn withdrawn_amount_is_little_endian() {
    let mut payload = vec![0u8; 64];
    payload.extend_from_slice(&[0x08, 0x07, 0x06, 0x05, 0x04, 0x03, 0x02, 0x01]);
    match Event::try_from_bytes(&framed(EventKind::Withdrawn, &payload)) {
        Ok(Event::Withdrawn(record)) => assert_eq!(record.amount, 0x0102_0304_0506_0708),
        other => panic!("unexpected outcome: {:?}", other),
    }
    let mut payload = vec![0u8; 64];
    payload.extend_from_slice(&[0xFF; 8]);
    match Event::try_from_bytes(&framed(EventKind::Withdrawn, &payload)) {
        Ok(Event::Withdrawn(record)) => assert_eq!(record.amount, u64::MAX),
        other => panic!("unexpected outcome: {:?}", other),
    }
}

#[test]
fn fields_keep_their_places() {
    let payload: Vec<u8> = (0..128u32).map(|i| i as u8).collect();
    match Event::try_from_bytes(&framed(EventKind::Registered, &payload)) {
        Ok(Event::Registered(record)) => {
            assert_eq!(&record.client.bytes[..], &payload[0..32]);
            assert_eq!(&record.program.bytes[..], &payload[32..64]);
            assert_eq!(&record.state.bytes[..], &payload[64..96]);
            assert_eq!(&record.owner.bytes[..], &payload[96..128]);
        }
        other => panic!("unexpected outcome: {:?}", other),
    }
    match Event::try_from_bytes(&framed(EventKind::Responded, &payload)) {
        Ok(Event::Responded(record)) => {
            assert_eq!(&record.client.bytes[..], &payload[0..32]);
            assert_eq!(&record.seed[..], &payload[32..64]);
            assert_eq!(&record.randomness[..], &payload[64..128]);
        }
        other => panic!("unexpected outcome: {:?}", other),
    }
    match Event::try_from_bytes(&framed(EventKind::Fulfilled, &payload)) {
        Ok(Event::Fulfilled(record)) => {
            assert_eq!(&record.seed[..], &payload[0..32]);
            assert_eq!(&record.client.bytes[..], &payload[32..64]);
            assert_eq!(&record.randomness[..], &payload[64..128]);
        }
        other => panic!("unexpected outcome: {:?}", other),
    }
}

#[test]
fn bytes_after_the_record_are_ignored() {
    let mut payload = borsh::to_vec(&([1u8; 32], [2u8; 32], 7u64)).unwrap();
    payload.extend_from_slice(&[0xEE; 13]);
    let event = Event::try_from_bytes(&framed(EventKind::Withdrawn, &payload));
    assert_eq!(
        event,
        Ok(Event::Withdrawn(Withdrawn { client: address(1), owner: address(2), amount: 7 }))
    );
}

#[test]
fn zero_bytes_are_of_no_known_kind() {
    for len in [8usize, 9, 64, 200] {
        assert_eq!(Event::try_from_bytes(&vec![0u8; len]), Err(unknown()));
    }
}

#[test]
fn short_input_is_of_no_known_kind() {
    assert_eq!(Event::try_from_bytes(&[]), Err(unknown()));
    for kind in ALL_KINDS {
        let tag = discriminator_of(kind);
        for len in 0..8 {
            assert_eq!(Event::try_from_bytes(&tag[..len]), Err(unknown()));
        }
    }
}

#[test]
fn one_changed_byte_makes_the_kind_unknown() {
    let payload = vec![0u8; 200];
    for kind in ALL_KINDS {
        for place in 0..8 {
            let mut bytes = framed(kind, &payload);
            bytes[place] ^= 0x01;
            assert_eq!(Event::try_from_bytes(&bytes), Err(unknown()));
        }
    }
}

#[test]
fn every_kind_is_found_by_its_discriminator() {
    let payload = vec![0u8; 200];
    for kind in ALL_KINDS {
        match Event::try_from_bytes(&framed(kind, &payload)) {
            Ok(event) => assert_eq!(event.kind(), kind),
            other => panic!("unexpected outcome: {:?}", other),
        }
    }
}

#[test]
fn a_bare_discriminator_is_malformed() {
    for kind in ALL_KINDS {
        let bytes = framed(kind, &[]);
        assert_eq!(Event::try_from_bytes(&bytes), Err(DispatchError::MalformedPayload(kind)));
    }
}

#[test]
fn a_payload_one_byte_short_is_malformed() {
    let sizes = [
        (EventKind::CallbackUpdated, 65usize),
        (EventKind::CalledBack, 32),
        (EventKind::Fulfilled, 128),
        (EventKind::Registered, 128),
        (EventKind::Requested, 66),
        (EventKind::RequestedAlt, 65),
        (EventKind::Responded, 128),
        (EventKind::Transferred, 96),
        (EventKind::Withdrawn, 72),
    ];
    for (kind, size) in sizes {
        let whole = framed(kind, &vec![0u8; size]);
        assert!(Event::try_from_bytes(&whole).is_ok());
        let short = framed(kind, &vec![0u8; size - 1]);
        assert_eq!(Event::try_from_bytes(&short), Err(DispatchError::MalformedPayload(kind)));
    }
}

#[test]
fn a_boolean_must_be_zero_or_one() {
    let mut payload = vec![0u8; 65];
    for flag in 2..=255u8 {
        payload[64] = flag;
        assert_eq!(
            Event::try_from_bytes(&framed(EventKind::CallbackUpdated, &payload)),
            Err(DispatchError::MalformedPayload(EventKind::CallbackUpdated))
        );
    }
    let mut payload = vec![0u8; 66];
    payload[65] = 2;
    assert_eq!(
        Event::try_from_bytes(&framed(EventKind::Requested, &payload)),
        Err(DispatchError::MalformedPayload(EventKind::Requested))
    );
}

#[test]
fn a_callback_mark_must_be_zero_or_one() {
    let mut payload = vec![0u8; 80];
    payload[64] = 2;
    assert_eq!(
        Event::try_from_bytes(&framed(EventKind::Requested, &payload)),
        Err(DispatchError::MalformedPayload(EventKind::Requested))
    );
    assert_eq!(
        Event::try_from_bytes(&framed(EventKind::RequestedAlt, &payload)),
        Err(DispatchError::MalformedPayload(EventKind::RequestedAlt))
    );
}

#[test]
fn a_callback_longer_than_the_payload_is_malformed() {
    // 64 bytes of seed and client, the mark, a length of 4, and 3 bytes.
    let mut payload = vec![0u8; 64];
    payload.extend_from_slice(&[1, 4, 0, 0, 0, 9, 9, 9]);
    assert_eq!(
        Event::try_from_bytes(&framed(EventKind::RequestedAlt, &payload)),
        Err(DispatchError::MalformedPayload(EventKind::RequestedAlt))
    );
    payload.push(9);
    assert_eq!(
        Event::try_from_bytes(&framed(EventKind::RequestedAlt, &payload)),
        Ok(Event::RequestedAlt(RequestedAlt {
            seed: [0; 32],
            client: address(0),
            callback: Some(vec![9, 9, 9, 9]),
        }))
    );
    // For a request the byte that says whether the callback overrides is still owed.
    assert_eq!(
        Event::try_from_bytes(&framed(EventKind::Requested, &payload)),
        Err(DispatchError::MalformedPayload(EventKind::Requested))
    );
    // A length that no input could hold.
    let mut payload = vec![0u8; 64];
    payload.extend_from_slice(&[1, 0xFF, 0xFF, 0xFF, 0xFF, 1, 2, 3]);
    assert_eq!(
        Event::try_from_bytes(&framed(EventKind::RequestedAlt, &payload)),
        Err(DispatchError::MalformedPayload(EventKind::RequestedAlt))
    );
    // A length cut off before its fourth byte.
    let mut payload = vec![0u8; 64];
    payload.extend_from_slice(&[1, 0, 0, 0]);
    assert_eq!(
        Event::try_from_bytes(&framed(EventKind::RequestedAlt, &payload)),
        Err(DispatchError::MalformedPayload(EventKind::RequestedAlt))
    );
}

/// A payload of a length between `least` and `least + 11` whose bytes are mostly small, so
/// that the bytes that stand for booleans, marks and lengths are often, but not always, valid.
fn sample_payload(state: &mut u32, least: usize) -> Vec<u8> {
    let mut next = || {
        *state = state.wrapping_mul(1_664_525).wrapping_add(1_013_904_223);
        *state >> 16
    };
    let len = least + next() as usize % 12;
    (0..len).map(|_| if next() % 8 == 0 { next() as u8 } else { (next() % 3) as u8 }).collect()
}

#[test]
fn the_decoder_agrees_with_borsh_on_callback_updated() {
    type Layout = ([u8; 32], [u8; 32], bool);
    let mut state: u32 = 1;
    for _ in 0..2000 {
        let payload = sample_payload(&mut state, 60);
        match (decode(EventKind::CallbackUpdated, &payload), Layout::deserialize(&mut &payload[..])) {
            (Some(Event::CallbackUpdated(record)), Ok((client, owner, defined))) => {
                assert_eq!((record.client.bytes, record.owner.bytes), (client, owner));
                assert_eq!(record.defined, defined);
            }
            (None, Err(_)) => {}
            (ours, theirs) => panic!("{:?} against {:?} on {:?}", ours, theirs, payload),
        }
    }
}

#[test]
fn the_decoder_agrees_with_borsh_on_called_back() {
    type Layout = [u8; 32];
    let mut state: u32 = 2;
    for _ in 0..2000 {
        let payload = sample_payload(&mut state, 26);
        match (decode(EventKind::CalledBack, &payload), Layout::deserialize(&mut &payload[..])) {
            (Some(Event::CalledBack(record)), Ok(program)) => {
                assert_eq!(record.program.bytes, program);
            }
            (None, Err(_)) => {}
            (ours, theirs) => panic!("{:?} against {:?} on {:?}", ours, theirs, payload),
        }
    }
}

#[test]
fn the_decoder_agrees_with_borsh_on_fulfilled() {
    type Layout = ([u8; 32], [u8; 32], [u8; 64]);
    let mut state: u32 = 3;
    for _ in 0..2000 {
        let payload = sample_payload(&mut state, 122);
        match (decode(EventKind::Fulfilled, &payload), Layout::deserialize(&mut &payload[..])) {
            (Some(Event::Fulfilled(record)), Ok((seed, client, randomness))) => {
                assert_eq!((record.seed, record.client.bytes), (seed, client));
                assert_eq!(record.randomness, randomness);
            }
            (None, Err(_)) => {}
            (ours, theirs) => panic!("{:?} against {:?} on {:?}", ours, theirs, payload),
        }
    }
}

#[test]
fn the_decoder_agrees_with_borsh_on_registered() {
    type Layout = ([u8; 32], [u8; 32], [u8; 32], [u8; 32]);
    let mut state: u32 = 4;
    for _ in 0..2000 {
        let payload = sample_payload(&mut state, 122);
        match (decode(EventKind::Registered, &payload), Layout::deserialize(&mut &payload[..])) {
            (Some(Event::Registered(record)), Ok((client, program, state, owner))) => {
                assert_eq!((record.client.bytes, record.program.bytes), (client, program));
                assert_eq!((record.state.bytes, record.owner.bytes), (state, owner));
            }
            (None, Err(_)) => {}
            (ours, theirs) => panic!("{:?} against {:?} on {:?}", ours, theirs, payload),
        }
    }
}

#[test]
fn the_decoder_agrees_with_borsh_on_requested() {
    type Layout = ([u8; 32], [u8; 32], Option<Vec<u8>>, bool);
    let mut state: u32 = 5;
    for _ in 0..4000 {
        let payload = sample_payload(&mut state, 64);
        match (decode(EventKind::Requested, &payload), Layout::deserialize(&mut &payload[..])) {
            (Some(Event::Requested(record)), Ok((seed, client, callback, overriding))) => {
                assert_eq!((record.seed, record.client.bytes), (seed, client));
                assert_eq!(record.callback, callback);
                assert_eq!(record.callback_override, overriding);
            }
            (None, Err(_)) => {}
            (ours, theirs) => panic!("{:?} against {:?} on {:?}", ours, theirs, payload),
        }
    }
}

#[test]
fn the_decoder_agrees_with_borsh_on_requested_alt() {
    type Layout = ([u8; 32], [u8; 32], Option<Vec<u8>>);
    let mut state: u32 = 6;
    for _ in 0..4000 {
        let payload = sample_payload(&mut state, 64);
        match (decode(EventKind::RequestedAlt, &payload), Layout::deserialize(&mut &payload[..])) {
            (Some(Event::RequestedAlt(record)), Ok((seed, client, callback))) => {
                assert_eq!((record.seed, record.client.bytes), (seed, client));
                assert_eq!(record.callback, callback);
            }
            (None, Err(_)) => {}
            (ours, theirs) => panic!("{:?} against {:?} on {:?}", ours, theirs, payload),
        }
    }
}

#[test]
fn the_decoder_agrees_with_borsh_on_responded() {
    type Layout = ([u8; 32], [u8; 32], [u8; 64]);
    let mut state: u32 = 7;
    for _ in 0..2000 {
        let payload = sample_payload(&mut state, 122);
        match (decode(EventKind::Responded, &payload), Layout::deserialize(&mut &payload[..])) {
            (Some(Event::Responded(record)), Ok((client, seed, randomness))) => {
                assert_eq!((record.client.bytes, record.seed), (client, seed));
                assert_eq!(record.randomness, randomness);
            }
            (None, Err(_)) => {}
            (ours, theirs) => panic!("{:?} against {:?} on {:?}", ours, theirs, payload),
        }
    }
}

#[test]
fn the_decoder_agrees_with_borsh_on_transferred() {
    type Layout = ([u8; 32], [u8; 32], [u8; 32]);
    let mut state: u32 = 8;
    for _ in 0..2000 {
        let payload = sample_payload(&mut state, 90);
        match (decode(EventKind::Transferred, &payload), Layout::deserialize(&mut &payload[..])) {
            (Some(Event::Transferred(record)), Ok((client, owner, new_owner))) => {
                assert_eq!((record.client.bytes, record.owner.bytes), (client, owner));
                assert_eq!(record.new_owner.bytes, new_owner);
            }
            (None, Err(_)) => {}
            (ours, theirs) => panic!("{:?} against {:?} on {:?}", ours, theirs, payload),
        }
    }
}

#[test]
fn the_decoder_agrees_with_borsh_on_withdrawn() {
    type Layout = ([u8; 32], [u8; 32], u64);
    let mut state: u32 = 9;
    for _ in 0..2000 {
        let payload = sample_payload(&mut state, 66);
        match (decode(EventKind::Withdrawn, &payload), Layout::deserialize(&mut &payload[..])) {
            (Some(Event::Withdrawn(record)), Ok((client, owner, amount))) => {
                assert_eq!((record.client.bytes, record.owner.bytes), (client, owner));
                assert_eq!(record.amount, amount);
            }
            (None, Err(_)) => {}
            (ours, theirs) => panic!("{:?} against {:?} on {:?}", ours, theirs, payload),
        }
    }
}

#[test]
fn decode_reads_the_kind_it_is_asked_for() {
    let payload = vec![0u8; 128];
    for kind in ALL_KINDS {
        match decode(kind, &payload) {
            Some(event) => assert_eq!(event.kind(), kind),
            None => panic!("no record of kind {:?}", kind),
        }
        assert_eq!(decode(kind, &[]), None);
    }
}

#[test]
fn the_first_of_two_colliding_lines_wins() {
    let tag = [1u8, 2, 3, 4, 5, 6, 7, 8];
    let mut bytes = tag.to_vec();
    bytes.extend_from_slice(&[0u8; 128]);
    let table = [
        RegistryEntry { kind: EventKind::Withdrawn, discriminator: [9; 8] },
        RegistryEntry { kind: EventKind::Registered, discriminator: tag },
        RegistryEntry { kind: EventKind::Responded, discriminator: tag },
    ];
    match dispatch_with(&table, &bytes) {
        Ok(event) => assert_eq!(event.kind(), EventKind::Registered),
        other => panic!("unexpected outcome: {:?}", other),
    }
    let table = [
        RegistryEntry { kind: EventKind::Responded, discriminator: tag },
        RegistryEntry { kind: EventKind::Registered, discriminator: tag },
    ];
    match dispatch_with(&table, &bytes) {
        Ok(event) => assert_eq!(event.kind(), EventKind::Responded),
        other => panic!("unexpected outcome: {:?}", other),
    }
}

#[test]
fn the_first_of_two_colliding_lines_wins_even_where_it_fails() {
    let tag = [1u8, 2, 3, 4, 5, 6, 7, 8];
    let mut bytes = tag.to_vec();
    bytes.extend_from_slice(&[0u8; 40]);
    // 40 bytes hold a `CalledBack` but no `Registered`: the first line decides all the same.
    let table = [
        RegistryEntry { kind: EventKind::Registered, discriminator: tag },
        RegistryEntry { kind: EventKind::CalledBack, discriminator: tag },
    ];
    assert_eq!(
        dispatch_with(&table, &bytes),
        Err(DispatchError::MalformedPayload(EventKind::Registered))
    );
    let table = [
        RegistryEntry { kind: EventKind::CalledBack, discriminator: tag },
        RegistryEntry { kind: EventKind::Registered, discriminator: tag },
    ];
    assert_eq!(
        dispatch_with(&table, &bytes),
        Ok(Event::CalledBack(CalledBack { program: address(0) }))
    );
}

#[test]
fn an_empty_registry_knows_no_kind() {
    let bytes = framed(EventKind::CalledBack, &[0u8; 32]);
    assert_eq!(dispatch_with(&[], &bytes), Err(unknown()));
}

#[test]
fn the_standard_registry_gives_what_try_from_bytes_gives() {
    let table = registry();
    for kind in ALL_KINDS {
        for size in [0usize, 31, 32, 64, 65, 66, 72, 96, 128] {
            let bytes = framed(kind, &vec![0u8; size]);
            assert_eq!(dispatch_with(&table, &bytes), Event::try_from_bytes(&bytes));
        }
    }
}

#[test]
fn dispatching_twice_gives_one_outcome() {
    let payload = borsh::to_vec(&([1u8; 32], [2u8; 32], 42u64)).unwrap();
    let bytes = framed(EventKind::Withdrawn, &payload);
    assert_eq!(Event::try_from_bytes(&bytes), Event::try_from_bytes(&bytes));
    assert_eq!(Event::try_from_bytes(&[1, 2, 3]), Event::try_from_bytes(&[1, 2, 3]));
}

#[test]
fn errors_say_what_went_wrong() {
    assert_eq!(UnknownEvent.message(), "unknown event");
    assert_eq!(unknown().message(), "unknown discriminator for an event");
    assert_eq!(
        DispatchError::MalformedPayload(EventKind::Withdrawn).message(),
        "malformed payload for an event"
    );
}
