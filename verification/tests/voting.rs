use voting_system::dispatch::{create_poll, vote};
use voting_system::error::ErrorCode;
use voting_system::guard::{derive_address, VoteAccount, VoteGuard};
use voting_system::identity::Identity;
use voting_system::poll::Poll;

fn id(b: u8) -> Identity {
    Identity::new([b; 32])
}

fn color_poll() -> Poll {
    create_poll(
        &id(1),
        b"Color?".to_vec(),
        vec![b"Red".to_vec(), b"Blue".to_vec()],
    )
    .unwrap()
}

#[test]
fn create_poll_starts_all_counters_at_zero() {
    let poll = color_poll();
    assert_eq!(poll.votes, vec![0, 0]);
    assert_eq!(poll.votes.len(), poll.options.len());
    assert_eq!(poll.title, b"Color?".to_vec());
    assert_eq!(poll.options, vec![b"Red".to_vec(), b"Blue".to_vec()]);
    assert_eq!(poll.authority.bytes, [1; 32]);
}

#[test]
fn first_vote_counts_and_creates_a_record() {
    let poll_id = id(9);
    let voter_a = id(5);
    let mut poll = color_poll();
    let mut guard = VoteGuard::new();
    assert_eq!(vote(&poll_id, &mut poll, &mut guard, &voter_a, 1), Ok(()));
    assert_eq!(poll.votes, vec![0, 1]);
    let record = guard.record_for(&poll_id, &voter_a).unwrap();
    assert!(record.voted);
    assert_eq!(record.voter.bytes, [5; 32]);
}

#[test]
fn second_vote_by_same_voter_is_rejected() {
    let poll_id = id(9);
    let voter_a = id(5);
    let mut poll = color_poll();
    let mut guard = VoteGuard::new();
    assert_eq!(vote(&poll_id, &mut poll, &mut guard, &voter_a, 1), Ok(()));
    assert_eq!(
        vote(&poll_id, &mut poll, &mut guard, &voter_a, 1),
        Err(ErrorCode::AlreadyVoted)
    );
    assert_eq!(poll.votes, vec![0, 1]);
}

#[test]
fn out_of_range_option_is_rejected_without_any_change() {
    let poll_id = id(9);
    let voter_a = id(5);
    let voter_b = id(6);
    let mut poll = color_poll();
    let mut guard = VoteGuard::new();
    assert_eq!(vote(&poll_id, &mut poll, &mut guard, &voter_a, 1), Ok(()));
    assert_eq!(
        vote(&poll_id, &mut poll, &mut guard, &voter_b, 5),
        Err(ErrorCode::InvalidOption)
    );
    assert_eq!(poll.votes, vec![0, 1]);
    assert!(guard.record_for(&poll_id, &voter_b).is_none());
}

#[test]
fn each_voter_counts_once_and_the_tally_adds_up() {
    let poll_id = id(9);
    let voter_a = id(5);
    let voter_b = id(6);
    let mut poll = color_poll();
    let mut guard = VoteGuard::new();
    assert_eq!(vote(&poll_id, &mut poll, &mut guard, &voter_a, 1), Ok(()));
    assert_eq!(vote(&poll_id, &mut poll, &mut guard, &voter_b, 0), Ok(()));
    assert_eq!(poll.votes, vec![1, 1]);
    let total: u64 = poll.votes.iter().map(|v| *v as u64).sum();
    assert_eq!(total, 2);
}

#[test]
fn votes_on_one_poll_do_not_block_the_same_voter_elsewhere() {
    let first_poll = id(9);
    let second_poll = id(10);
    let voter = id(5);
    let mut poll_a = color_poll();
    let mut poll_b = color_poll();
    let mut guard = VoteGuard::new();
    assert_eq!(vote(&first_poll, &mut poll_a, &mut guard, &voter, 0), Ok(()));
    assert_eq!(vote(&second_poll, &mut poll_b, &mut guard, &voter, 1), Ok(()));
    assert_eq!(poll_a.votes, vec![1, 0]);
    assert_eq!(poll_b.votes, vec![0, 1]);
}

#[test]
fn empty_option_list_is_rejected() {
    assert_eq!(
        create_poll(&id(1), b"Anything?".to_vec(), vec![]).unwrap_err(),
        ErrorCode::EmptyOptions
    );
}

#[test]
fn title_is_accepted_at_the_maximum_and_rejected_one_past_it() {
    let options = vec![b"Yes".to_vec(), b"No".to_vec()];
    assert!(create_poll(&id(1), vec![b'x'; 64], options.clone()).is_ok());
    assert_eq!(
        create_poll(&id(1), vec![b'x'; 65], options).unwrap_err(),
        ErrorCode::TitleTooLong
    );
}

#[test]
fn option_count_is_accepted_at_the_maximum_and_rejected_one_past_it() {
    let ten: Vec<Vec<u8>> = (0..10).map(|i| vec![b'a' + i]).collect();
    let eleven: Vec<Vec<u8>> = (0..11).map(|i| vec![b'a' + i]).collect();
    let poll = create_poll(&id(1), b"Pick".to_vec(), ten).unwrap();
    assert_eq!(poll.votes, vec![0; 10]);
    assert_eq!(
        create_poll(&id(1), b"Pick".to_vec(), eleven).unwrap_err(),
        ErrorCode::TooManyOptions
    );
}

#[test]
fn option_label_is_accepted_at_the_maximum_and_rejected_one_past_it() {
    assert!(create_poll(&id(1), b"Pick".to_vec(), vec![vec![b'y'; 32]]).is_ok());
    assert_eq!(
        create_poll(&id(1), b"Pick".to_vec(), vec![vec![b'y'; 33]]).unwrap_err(),
        ErrorCode::OptionTooLong
    );
}

#[test]
fn a_counter_at_its_maximum_reports_overflow_and_nothing_changes() {
    let poll_id = id(9);
    let voter = id(5);
    let mut poll = Poll {
        authority: id(1),
        title: b"Full".to_vec(),
        options: vec![b"Only".to_vec()],
        votes: vec![u32::MAX],
    };
    let mut guard = VoteGuard::new();
    assert_eq!(
        vote(&poll_id, &mut poll, &mut guard, &voter, 0),
        Err(ErrorCode::CounterOverflow)
    );
    assert_eq!(poll.votes, vec![u32::MAX]);
    assert!(guard.record_for(&poll_id, &voter).is_none());
}

#[test]
fn validate_option_checks_the_index_against_the_option_list() {
    let poll = color_poll();
    assert_eq!(poll.validate_option(0), Ok(()));
    assert_eq!(poll.validate_option(1), Ok(()));
    assert_eq!(poll.validate_option(2), Err(ErrorCode::InvalidOption));
}

#[test]
fn increment_advances_exactly_one_counter() {
    let mut poll = color_poll();
    assert_eq!(poll.increment(0), Ok(()));
    assert_eq!(poll.increment(0), Ok(()));
    assert_eq!(poll.increment(1), Ok(()));
    assert_eq!(poll.votes, vec![2, 1]);
}

#[test]
fn claim_takes_an_address_once_and_only_once() {
    let poll_id = id(9);
    let voter = id(5);
    let mut guard = VoteGuard::new();
    assert!(!guard.has_record(&poll_id, &voter));
    let record = guard.claim(&poll_id, &voter).unwrap();
    assert!(record.voted);
    assert_eq!(record.voter.bytes, [5; 32]);
    assert!(guard.has_record(&poll_id, &voter));
    assert_eq!(
        guard.claim(&poll_id, &voter).unwrap_err(),
        ErrorCode::AlreadyVoted
    );
}

#[test]
fn the_derived_address_is_a_pure_function_of_the_pair() {
    let first = derive_address(&id(9), &id(5));
    let second = derive_address(&id(9), &id(5));
    assert_eq!(first.poll.bytes, second.poll.bytes);
    assert_eq!(first.voter.bytes, second.voter.bytes);
}

#[test]
fn identities_compare_by_their_bytes() {
    assert!(id(5).same(&id(5)));
    assert!(!id(5).same(&id(6)));
    let mut almost = [7u8; 32];
    almost[31] = 8;
    assert!(!Identity::new(almost).same(&id(7)));
}

#[test]
fn vote_account_size_matches_its_layout() {
    assert_eq!(VoteAccount::SIZE, 33);
    assert_eq!(Poll::MAX_SIZE, 508);
    assert_eq!(Poll::MAX_OPTIONS, 10);
    assert_eq!(Poll::MAX_TITLE_LEN, 64);
    assert_eq!(Poll::MAX_OPTION_LEN, 32);
}
