use voting_system::dispatch::create_poll;
use voting_system::guard::VoteAccount;
use voting_system::identity::Identity;
use voting_system::layout::{
    decode_poll, decode_vote_account, encode_poll, encode_vote_account,
};
use voting_system::poll::Poll;

fn id(b: u8) -> Identity {
    Identity::new([b; 32])
}

fn sample_poll() -> Poll {
    create_poll(
        &id(2),
        b"Color?".to_vec(),
        vec![b"Red".to_vec(), b"Blue".to_vec()],
    )
    .unwrap()
}

#[test]
fn poll_records_encode_to_the_declared_size() {
    let bytes = encode_poll(&sample_poll());
    assert_eq!(bytes.len(), Poll::MAX_SIZE);
    assert_eq!(bytes.len(), 508);
}

#[test]
fn poll_records_round_trip_through_their_persisted_form() {
    let mut poll = sample_poll();
    poll.votes = vec![3, 7];
    let decoded = decode_poll(&encode_poll(&poll)).unwrap();
    assert_eq!(decoded.authority.bytes, poll.authority.bytes);
    assert_eq!(decoded.title, poll.title);
    assert_eq!(decoded.options, poll.options);
    assert_eq!(decoded.votes, poll.votes);
}

#[test]
fn a_full_poll_record_round_trips() {
    let labels: Vec<Vec<u8>> = (0..10).map(|i| vec![b'a' + i; 32]).collect();
    let mut poll = create_poll(&id(3), vec![b't'; 64], labels).unwrap();
    poll.votes = (0..10).collect();
    let decoded = decode_poll(&encode_poll(&poll)).unwrap();
    assert_eq!(decoded.options, poll.options);
    assert_eq!(decoded.votes, poll.votes);
}

#[test]
fn a_record_of_the_wrong_size_is_rejected() {
    assert!(decode_poll(&vec![0u8; 507]).is_none());
    assert!(decode_poll(&vec![0u8; 509]).is_none());
    assert!(decode_poll(&Vec::new()).is_none());
}

#[test]
fn a_tampered_padding_byte_is_rejected() {
    let mut bytes = encode_poll(&sample_poll());
    // One byte past the title's content, inside its zero padding.
    bytes[36 + 6] = 1;
    assert!(decode_poll(&bytes).is_none());
}

#[test]
fn an_oversized_stored_title_length_is_rejected() {
    let mut bytes = encode_poll(&sample_poll());
    bytes[32] = 65;
    assert!(decode_poll(&bytes).is_none());
}

#[test]
fn a_zero_option_count_is_rejected() {
    let mut bytes = encode_poll(&sample_poll());
    bytes[100] = 0;
    assert!(decode_poll(&bytes).is_none());
}

#[test]
fn a_counter_count_that_disagrees_with_the_option_count_is_rejected() {
    let mut bytes = encode_poll(&sample_poll());
    bytes[464] = 3;
    assert!(decode_poll(&bytes).is_none());
}

#[test]
fn vote_records_round_trip_through_their_persisted_form() {
    let record = VoteAccount { voter: id(5), voted: true };
    let bytes = encode_vote_account(&record);
    assert_eq!(bytes.len(), VoteAccount::SIZE);
    assert_eq!(bytes[32], 1);
    let decoded = decode_vote_account(&bytes).unwrap();
    assert_eq!(decoded.voter.bytes, [5; 32]);
    assert!(decoded.voted);
}

#[test]
fn an_unset_vote_flag_round_trips_too() {
    let record = VoteAccount { voter: id(6), voted: false };
    let bytes = encode_vote_account(&record);
    assert_eq!(bytes[32], 0);
    let decoded = decode_vote_account(&bytes).unwrap();
    assert!(!decoded.voted);
}

#[test]
fn a_vote_record_with_a_bad_flag_or_size_is_rejected() {
    let mut bytes = encode_vote_account(&VoteAccount { voter: id(6), voted: true });
    bytes[32] = 2;
    assert!(decode_vote_account(&bytes).is_none());
    assert!(decode_vote_account(&vec![0u8; 32]).is_none());
    assert!(decode_vote_account(&vec![0u8; 34]).is_none());
}
