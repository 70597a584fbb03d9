use topic_registry::codec::{
    decode_state, decode_topic, encode_state, encode_topic, StateAccount, TopicAccount,
    STATE_CAPACITY, TOPIC_CAPACITY,
};
use topic_registry::errors::RegistryError;
use topic_registry::registry::{state_tag, topic_tag, Registry};

fn pid() -> Vec<u8> {
    vec![7u8; 32]
}

fn fresh_registry() -> Registry {
    Registry::new(pid()).expect("a 32-byte program id is accepted")
}

fn initialized_registry() -> Registry {
    let mut reg = fresh_registry();
    reg.create_state().expect("first initialization succeeds");
    reg
}

#[test]
fn new_rejects_wrong_identity_width() {
    assert!(Registry::new(vec![7u8; 31]).is_none());
    assert!(Registry::new(vec![7u8; 33]).is_none());
    assert!(Registry::new(vec![7u8; 32]).is_some());
}

#[test]
fn initialize_sets_counter_to_zero() {
    let mut reg = fresh_registry();
    assert!(!reg.initialized());
    assert_eq!(reg.topic_count(), None);
    reg.create_state().expect("first initialization succeeds");
    assert!(reg.initialized());
    assert_eq!(reg.topic_count(), Some(0));
}

#[test]
fn reinitialization_is_rejected_and_changes_nothing() {
    let mut reg = initialized_registry();
    let owner = vec![0xAAu8; 32];
    reg.create_topic(&owner, b"alpha".to_vec(), b"first".to_vec())
        .expect("creation succeeds");
    let second = reg.create_state();
    assert_eq!(second, Err(RegistryError::AlreadyExists));
    assert_eq!(reg.topic_count(), Some(1));
    let rec = reg.get_topic(0).expect("record 0 still there");
    assert_eq!(rec.name, b"alpha".to_vec());
}

#[test]
fn concrete_two_caller_scenario() {
    let mut reg = initialized_registry();
    assert_eq!(reg.topic_count(), Some(0));

    let caller_a = vec![0xAAu8; 32];
    let caller_b = vec![0xBBu8; 32];

    reg.create_topic(&caller_a, b"alpha".to_vec(), b"first".to_vec())
        .expect("first creation succeeds");
    assert_eq!(reg.topic_count(), Some(1));

    reg.create_topic(&caller_b, b"beta".to_vec(), b"second".to_vec())
        .expect("second creation succeeds");
    assert_eq!(reg.topic_count(), Some(2));

    let rec0 = reg.get_topic(0).expect("index 0 is retrievable");
    assert_eq!(rec0.owner, caller_a);
    assert_eq!(rec0.name, b"alpha".to_vec());
    assert_eq!(rec0.description, b"first".to_vec());
    assert_eq!(rec0.index, 0);

    let rec1 = reg.get_topic(1).expect("index 1 is retrievable");
    assert_eq!(rec1.owner, caller_b);
    assert_eq!(rec1.name, b"beta".to_vec());
    assert_eq!(rec1.description, b"second".to_vec());
    assert_eq!(rec1.index, 1);
}

#[test]
fn distinct_indices_get_distinct_addresses() {
    let reg = initialized_registry();
    let a0 = reg.topic_address(0).expect("derivation succeeds");
    let a1 = reg.topic_address(1).expect("derivation succeeds");
    assert_ne!(a0.0, a1.0);
    let st = reg.state_address().expect("derivation succeeds");
    assert_ne!(st.0, a0.0);
    assert_ne!(st.0, a1.0);
}

#[test]
fn derivation_is_reproducible() {
    let reg = initialized_registry();
    assert_eq!(reg.topic_address(5), reg.topic_address(5));
    assert_eq!(reg.state_address(), reg.state_address());
}

#[test]
fn derivation_matches_the_host_primitive() {
    let reg = fresh_registry();
    let program_id = solana_pubkey::Pubkey::new_from_array([7u8; 32]);

    let (want_state, want_state_bump) =
        solana_pubkey::Pubkey::try_find_program_address(&[b"state"], &program_id)
            .expect("the host finds a state address");
    let got_state = reg.state_address().expect("the library finds a state address");
    assert_eq!(got_state.0, want_state.to_bytes().to_vec());
    assert_eq!(got_state.1, want_state_bump);

    let index: u64 = 3;
    let (want_topic, want_topic_bump) = solana_pubkey::Pubkey::try_find_program_address(
        &[b"topic", &index.to_be_bytes()],
        &program_id,
    )
    .expect("the host finds a topic address");
    let got_topic = reg.topic_address(index).expect("the library finds a topic address");
    assert_eq!(got_topic.0, want_topic.to_bytes().to_vec());
    assert_eq!(got_topic.1, want_topic_bump);
}

#[test]
fn capacity_boundary_exact_fit_succeeds_one_more_fails() {
    // tag 8 + owner 32 + 4 + name + 4 + description + index 8 == 256
    // exactly when name + description == 200 bytes.
    let mut reg = initialized_registry();
    let owner = vec![0xCCu8; 32];
    let name = vec![b'n'; 100];
    let description = vec![b'd'; 100];
    reg.create_topic(&owner, name, description)
        .expect("an exactly full record succeeds");
    assert_eq!(reg.topic_count(), Some(1));

    let long_description = vec![b'd'; 101];
    let outcome = reg.create_topic(&owner, vec![b'n'; 100], long_description);
    assert_eq!(outcome, Err(RegistryError::CapacityExceeded));
    assert_eq!(reg.topic_count(), Some(1));
}

#[test]
fn malformed_owner_identity_is_rejected_before_any_change() {
    let mut reg = initialized_registry();
    let short_owner = vec![0xAAu8; 31];
    let outcome = reg.create_topic(&short_owner, b"alpha".to_vec(), b"first".to_vec());
    assert_eq!(outcome, Err(RegistryError::Unauthenticated));
    assert_eq!(reg.topic_count(), Some(0));
    assert!(reg.get_topic(0).is_none());
}

#[test]
fn get_topic_beyond_counter_is_empty() {
    let reg = initialized_registry();
    assert!(reg.get_topic(0).is_none());
    assert!(reg.get_topic(17).is_none());
}

#[test]
fn state_round_trip_concrete() {
    let state = StateAccount { topic_count: 41 };
    let buf = encode_state(&state_tag(), &state);
    assert_eq!(buf.len(), STATE_CAPACITY);
    assert_eq!(decode_state(&buf), Some(state));
}

#[test]
fn topic_round_trip_concrete() {
    let rec = TopicAccount {
        owner: vec![9u8; 32],
        name: b"alpha".to_vec(),
        description: b"first".to_vec(),
        index: 12,
    };
    let buf = encode_topic(&topic_tag(), &rec).expect("a small record fits");
    assert_eq!(buf.len(), TOPIC_CAPACITY);
    assert_eq!(decode_topic(&buf), Some(rec));
}

#[test]
fn topic_round_trip_empty_fields() {
    let rec = TopicAccount {
        owner: vec![0u8; 32],
        name: Vec::new(),
        description: Vec::new(),
        index: 0,
    };
    let buf = encode_topic(&topic_tag(), &rec).expect("an empty record fits");
    assert_eq!(decode_topic(&buf), Some(rec));
}

#[test]
fn topic_encoding_layout_is_exact() {
    let rec = TopicAccount {
        owner: vec![5u8; 32],
        name: b"ab".to_vec(),
        description: b"xyz".to_vec(),
        index: 258,
    };
    let buf = encode_topic(&topic_tag(), &rec).expect("a small record fits");

    let mut want: Vec<u8> = Vec::new();
    want.extend_from_slice(b"topicrec");
    want.extend_from_slice(&[5u8; 32]);
    want.extend_from_slice(&2u32.to_le_bytes());
    want.extend_from_slice(b"ab");
    want.extend_from_slice(&3u32.to_le_bytes());
    want.extend_from_slice(b"xyz");
    want.extend_from_slice(&258u64.to_le_bytes());
    want.resize(256, 0u8);
    assert_eq!(buf, want);
}

#[test]
fn state_encoding_layout_is_exact() {
    let buf = encode_state(&state_tag(), &StateAccount { topic_count: 513 });
    let mut want: Vec<u8> = Vec::new();
    want.extend_from_slice(b"regstate");
    want.extend_from_slice(&513u64.to_le_bytes());
    assert_eq!(buf, want);
}

#[test]
fn encode_topic_rejects_oversized_records() {
    let rec = TopicAccount {
        owner: vec![1u8; 32],
        name: vec![b'n'; 150],
        description: vec![b'd'; 51],
        index: 0,
    };
    assert_eq!(
        encode_topic(&topic_tag(), &rec),
        Err(RegistryError::CapacityExceeded)
    );
}

#[test]
fn decode_rejects_wrong_buffer_sizes() {
    assert_eq!(decode_state(&vec![0u8; 10]), None);
    assert_eq!(decode_state(&vec![0u8; 17]), None);
    assert!(decode_topic(&vec![0u8; 10]).is_none());
    assert!(decode_topic(&vec![0u8; 255]).is_none());
}

#[test]
fn decode_rejects_corrupt_length_prefixes() {
    let rec = TopicAccount {
        owner: vec![1u8; 32],
        name: b"alpha".to_vec(),
        description: b"first".to_vec(),
        index: 4,
    };
    let mut buf = encode_topic(&topic_tag(), &rec).expect("a small record fits");
    // A name length prefix that points past the fixed capacity.
    buf[40] = 0xFF;
    buf[41] = 0xFF;
    buf[42] = 0xFF;
    buf[43] = 0xFF;
    assert!(decode_topic(&buf).is_none());
}
