use vstd::prelude::*;

use crate::error::ErrorCode;
use crate::guard::{contains_pair, count_for, lemma_count_push};
use crate::guard::{GuardEntryView, GuardKeyView, VoteAccountView, VoteGuard};
use crate::identity::Identity;
use crate::poll::{labels_view, lemma_sum_update, lemma_sum_zeros, sum_votes};
use crate::poll::{Poll, PollView};

verus! {

/// Whether the caller-supplied title and options of a poll pass every bound
/// the dispatcher checks before a poll is created.
pub open spec fn create_accepted(title: Seq<u8>, options: Seq<Seq<u8>>) -> bool {
    &&& 1 <= options.len()
    &&& options.len() <= Poll::MAX_OPTIONS
    &&& title.len() <= Poll::MAX_TITLE_LEN
    &&& forall|i: int|
        0 <= i < options.len() ==> (#[trigger] options[i]).len() <= Poll::MAX_OPTION_LEN
}

/// The error a rejected creation reports, in the order the checks run:
/// an empty option list, then the title bound, then the option count,
/// then the label bounds.
pub open spec fn create_error(title: Seq<u8>, options: Seq<Seq<u8>>) -> ErrorCode {
    if options.len() == 0 {
        ErrorCode::EmptyOptions
    } else if title.len() > Poll::MAX_TITLE_LEN {
        ErrorCode::TitleTooLong
    } else if options.len() > Poll::MAX_OPTIONS {
        ErrorCode::TooManyOptions
    } else {
        ErrorCode::OptionTooLong
    }
}

/// Creates a poll for `authority`: rejects inputs that break a declared
/// bound, and otherwise hands back a fresh poll whose counters all start at
/// zero, one per option.
pub fn create_poll(authority: &Identity, title: Vec<u8>, options: Vec<Vec<u8>>) -> (r: Result<
    Poll,
    ErrorCode,
>)
    ensures
        r is Ok <==> create_accepted(title@, labels_view(options@)),
        r matches Ok(p) ==> p@.wf() && p@ == (PollView {
            authority: authority@,
            title: title@,
            options: labels_view(options@),
            votes: Seq::new(options@.len(), |i: int| 0u32),
        }),
        r matches Err(e) ==> e == create_error(title@, labels_view(options@)),
{
    if options.len() == 0 {
        return Err(ErrorCode::EmptyOptions);
    }
    if title.len() > Poll::MAX_TITLE_LEN {
        return Err(ErrorCode::TitleTooLong);
    }
    if options.len() > Poll::MAX_OPTIONS {
        return Err(ErrorCode::TooManyOptions);
    }
    let mut i: usize = 0;
    while i < options.len()
        invariant
            i <= options@.len(),
            1 <= options@.len() <= Poll::MAX_OPTIONS,
            title@.len() <= Poll::MAX_TITLE_LEN,
            forall|j: int|
                0 <= j < i ==> (#[trigger] labels_view(options@)[j]).len() <= Poll::MAX_OPTION_LEN,
        decreases options@.len() - i,
    {
        if options[i].len() > Poll::MAX_OPTION_LEN {
            proof {
                assert(labels_view(options@)[i as int].len() > Poll::MAX_OPTION_LEN);
            }
            return Err(ErrorCode::OptionTooLong);
        }
        proof {
            assert(labels_view(options@)[i as int].len() <= Poll::MAX_OPTION_LEN);
        }
        i += 1;
    }
    proof {
        assert forall|j: int| 0 <= j < options@.len() implies (#[trigger] options@[j])@.len()
            <= Poll::MAX_OPTION_LEN by {
            assert(labels_view(options@)[j].len() <= Poll::MAX_OPTION_LEN);
        }
    }
    Ok(Poll::initialize(authority, title, options))
}

/// A poll's tally is consistent with the guard store when the total of its
/// counters equals the number of vote records held for it.
pub open spec fn tally_consistent(
    poll_id: Seq<u8>,
    p: PollView,
    entries: Seq<GuardEntryView>,
) -> bool {
    sum_votes(p.votes) == count_for(entries, poll_id)
}

/// Exactly what one `vote` call does, as a relation between the state
/// before, the state after, and the result: an out-of-bounds option is
/// rejected first, then an occupied guard address, then a counter at its
/// maximum; only when all three pass does the chosen counter grow by one
/// and a record for the pair appear — and then nothing else changes.
pub open spec fn vote_post(
    poll_id: Seq<u8>,
    p0: PollView,
    g0: Seq<GuardEntryView>,
    voter: Seq<u8>,
    selected_option: u8,
    p1: PollView,
    g1: Seq<GuardEntryView>,
    r: Result<(), ErrorCode>,
) -> bool {
    if p0.options.len() <= selected_option as int {
        r == Err::<(), ErrorCode>(ErrorCode::InvalidOption) && p1 == p0 && g1 == g0
    } else if contains_pair(g0, poll_id, voter) {
        r == Err::<(), ErrorCode>(ErrorCode::AlreadyVoted) && p1 == p0 && g1 == g0
    } else if p0.votes[selected_option as int] == u32::MAX {
        r == Err::<(), ErrorCode>(ErrorCode::CounterOverflow) && p1 == p0 && g1 == g0
    } else {
        &&& r == Ok::<(), ErrorCode>(())
        &&& p1 == (PollView {
            votes: p0.votes.update(
                selected_option as int,
                (p0.votes[selected_option as int] + 1) as u32,
            ),
            ..p0
        })
        &&& g1 == g0.push(
            (GuardEntryView {
                key: GuardKeyView { poll: poll_id, voter: voter },
                record: VoteAccountView { voter: voter, voted: true },
            }),
        )
    }
}

/// Casts `voter`'s vote for `selected_option` on the poll stored under
/// `poll_id`: validates the option, claims the guard address, and
/// increments the chosen counter — or fails with the first violated rule
/// and changes nothing.
pub fn vote(
    poll_id: &Identity,
    poll: &mut Poll,
    guard: &mut VoteGuard,
    voter: &Identity,
    selected_option: u8,
) -> (r: Result<(), ErrorCode>)
    requires
        old(poll)@.wf(),
        old(guard).wf(),
    ensures
        final(poll)@.wf(),
        final(guard).wf(),
        vote_post(
            poll_id@,
            old(poll)@,
            old(guard)@,
            voter@,
            selected_option,
            final(poll)@,
            final(guard)@,
            r,
        ),
        tally_consistent(poll_id@, old(poll)@, old(guard)@) ==> tally_consistent(
            poll_id@,
            final(poll)@,
            final(guard)@,
        ),
        forall|other: Seq<u8>|
            other != poll_id@ ==> count_for(final(guard)@, other) == count_for(
                old(guard)@,
                other,
            ),
{
    if let Err(e) = poll.validate_option(selected_option) {
        return Err(e);
    }
    if guard.has_record(poll_id, voter) {
        return Err(ErrorCode::AlreadyVoted);
    }
    let index = selected_option as usize;
    if poll.votes[index] == u32::MAX {
        return Err(ErrorCode::CounterOverflow);
    }
    let claimed = guard.claim(poll_id, voter);
    proof {
        assert(claimed is Ok);
        lemma_count_push(
            old(guard)@,
            poll_id@,
            GuardEntryView {
                key: GuardKeyView { poll: poll_id@, voter: voter@ },
                record: VoteAccountView { voter: voter@, voted: true },
            },
        );
        assert forall|other: Seq<u8>| other != poll_id@ implies count_for(guard@, other)
            == count_for(old(guard)@, other) by {
            lemma_count_push(
                old(guard)@,
                other,
                GuardEntryView {
                    key: GuardKeyView { poll: poll_id@, voter: voter@ },
                    record: VoteAccountView { voter: voter@, voted: true },
                },
            );
        }
    }
    let incremented = poll.increment(index);
    proof {
        assert(incremented is Ok);
        lemma_sum_update(
            old(poll)@.votes,
            index as int,
            (old(poll)@.votes[index as int] + 1) as u32,
        );
    }
    Ok(())
}

/// A freshly created poll is tally-consistent with any guard store that
/// holds no record for it: all its counters are zero, so their total is
/// zero too.
pub proof fn lemma_fresh_poll_consistent(
    poll_id: Seq<u8>,
    p: PollView,
    entries: Seq<GuardEntryView>,
)
    requires
        forall|i: int| 0 <= i < p.votes.len() ==> p.votes[i] == 0,
        count_for(entries, poll_id) == 0,
    ensures
        tally_consistent(poll_id, p, entries),
{
    lemma_sum_zeros(p.votes);
}

/// An empty guard store counts no record for any poll and holds none for
/// any (poll, voter) pair.
pub proof fn lemma_empty_guard_counts_nothing(poll_id: Seq<u8>, voter: Seq<u8>)
    ensures
        count_for(Seq::<GuardEntryView>::empty(), poll_id) == 0,
        !contains_pair(Seq::<GuardEntryView>::empty(), poll_id, voter),
{
}

/// Two different records of one poll always name two different voters, so
/// a poll's record count is a count of distinct voters: the guard store
/// holds at most one record per derived (poll, voter) address, and each
/// record names the voter of its own address.
pub proof fn lemma_records_have_distinct_voters(g: VoteGuard, poll_id: Seq<u8>, i: int, j: int)
    requires
        g.wf(),
        0 <= i < j < g@.len(),
        g@[i].key.poll == poll_id,
        g@[j].key.poll == poll_id,
    ensures
        g@[i].record.voter != g@[j].record.voter,
{
}

/// A successful vote leaves the (poll, voter) pair recorded in the guard
/// store.
pub proof fn lemma_success_is_recorded(
    poll_id: Seq<u8>,
    p0: PollView,
    g0: Seq<GuardEntryView>,
    voter: Seq<u8>,
    selected_option: u8,
    p1: PollView,
    g1: Seq<GuardEntryView>,
    r: Result<(), ErrorCode>,
)
    requires
        vote_post(poll_id, p0, g0, voter, selected_option, p1, g1, r),
        r is Ok,
    ensures
        contains_pair(g1, poll_id, voter),
{
    assert(g1[g1.len() - 1].key.poll == poll_id && g1[g1.len() - 1].key.voter == voter);
}

/// No vote call ever removes a recorded pair: whatever pair the guard store
/// held before a call, it still holds after it.
pub proof fn lemma_records_are_kept(
    poll_id: Seq<u8>,
    p0: PollView,
    g0: Seq<GuardEntryView>,
    voter: Seq<u8>,
    selected_option: u8,
    p1: PollView,
    g1: Seq<GuardEntryView>,
    r: Result<(), ErrorCode>,
    poll_kept: Seq<u8>,
    voter_kept: Seq<u8>,
)
    requires
        vote_post(poll_id, p0, g0, voter, selected_option, p1, g1, r),
        contains_pair(g0, poll_kept, voter_kept),
    ensures
        contains_pair(g1, poll_kept, voter_kept),
{
    let i = choose|i: int|
        0 <= i < g0.len() && (#[trigger] g0[i]).key.poll == poll_kept && g0[i].key.voter
            == voter_kept;
    assert(g1[i] == g0[i]);
}

/// One step of a trace preserves tally consistency: a successful vote adds
/// one to both the counter total and the record count, and a failed one
/// changes neither.
pub proof fn lemma_step_keeps_tally(
    poll_id: Seq<u8>,
    p0: PollView,
    g0: Seq<GuardEntryView>,
    voter: Seq<u8>,
    selected_option: u8,
    p1: PollView,
    g1: Seq<GuardEntryView>,
    r: Result<(), ErrorCode>,
)
    requires
        vote_post(poll_id, p0, g0, voter, selected_option, p1, g1, r),
        p0.wf(),
        tally_consistent(poll_id, p0, g0),
    ensures
        tally_consistent(poll_id, p1, g1),
{
    if (selected_option as int) < p0.options.len() && !contains_pair(g0, poll_id, voter)
        && p0.votes[selected_option as int] < u32::MAX {
        lemma_sum_update(
            p0.votes,
            selected_option as int,
            (p0.votes[selected_option as int] + 1) as u32,
        );
        lemma_count_push(
            g0,
            poll_id,
            GuardEntryView {
                key: GuardKeyView { poll: poll_id, voter: voter },
                record: VoteAccountView { voter: voter, voted: true },
            },
        );
    }
}

/// One recorded call of `vote`: who voted, what they selected, and what
/// came back.
pub struct VoteCall {
    pub voter: Seq<u8>,
    pub selected_option: u8,
    pub result: Result<(), ErrorCode>,
}

/// A history of vote calls against one poll: `polls[k]` and `guards[k]`
/// are the states before call `k`, every state is well formed, and each
/// pair of consecutive states is related by exactly what `vote` does.
pub open spec fn vote_trace(
    poll_id: Seq<u8>,
    polls: Seq<PollView>,
    guards: Seq<Seq<GuardEntryView>>,
    calls: Seq<VoteCall>,
) -> bool {
    &&& polls.len() == calls.len() + 1
    &&& guards.len() == calls.len() + 1
    &&& forall|k: int| 0 <= k < polls.len() ==> (#[trigger] polls[k]).wf()
    &&& forall|k: int|
        0 <= k < calls.len() ==> vote_post(
            poll_id,
            polls[k],
            guards[k],
            (#[trigger] calls[k]).voter,
            calls[k].selected_option,
            polls[k + 1],
            guards[k + 1],
            calls[k].result,
        )
}

/// Once recorded, a (poll, voter) pair stays recorded through every later
/// state of a trace.
pub proof fn lemma_trace_keeps_records(
    poll_id: Seq<u8>,
    polls: Seq<PollView>,
    guards: Seq<Seq<GuardEntryView>>,
    calls: Seq<VoteCall>,
    i: int,
    j: int,
    poll_kept: Seq<u8>,
    voter_kept: Seq<u8>,
)
    requires
        vote_trace(poll_id, polls, guards, calls),
        0 <= i <= j < guards.len(),
        contains_pair(guards[i], poll_kept, voter_kept),
    ensures
        contains_pair(guards[j], poll_kept, voter_kept),
    decreases j - i,
{
    if i < j {
        lemma_records_are_kept(
            poll_id,
            polls[i],
            guards[i],
            calls[i].voter,
            calls[i].selected_option,
            polls[i + 1],
            guards[i + 1],
            calls[i].result,
            poll_kept,
            voter_kept,
        );
        lemma_trace_keeps_records(poll_id, polls, guards, calls, i + 1, j, poll_kept, voter_kept);
    }
}

/// At most one vote per (poll, voter) pair ever succeeds: in any trace of
/// vote calls on a poll, once the call at position `i` by some voter has
/// succeeded, every later call by the same voter that names an option in
/// bounds fails with `AlreadyVoted` and leaves the poll and the guard
/// store unchanged.
pub proof fn lemma_at_most_one_success(
    poll_id: Seq<u8>,
    polls: Seq<PollView>,
    guards: Seq<Seq<GuardEntryView>>,
    calls: Seq<VoteCall>,
    i: int,
    j: int,
)
    requires
        vote_trace(poll_id, polls, guards, calls),
        0 <= i < j < calls.len(),
        calls[i].result is Ok,
        calls[j].voter == calls[i].voter,
        (calls[j].selected_option as int) < polls[j].options.len(),
    ensures
        calls[j].result == Err::<(), ErrorCode>(ErrorCode::AlreadyVoted),
        polls[j + 1] == polls[j],
        guards[j + 1] == guards[j],
{
    lemma_success_is_recorded(
        poll_id,
        polls[i],
        guards[i],
        calls[i].voter,
        calls[i].selected_option,
        polls[i + 1],
        guards[i + 1],
        calls[i].result,
    );
    lemma_trace_keeps_records(
        poll_id,
        polls,
        guards,
        calls,
        i + 1,
        j,
        poll_id,
        calls[i].voter,
    );
    lemma_repeat_vote_fails(
        poll_id,
        polls[j],
        guards[j],
        calls[j].voter,
        calls[j].selected_option,
        polls[j + 1],
        guards[j + 1],
        calls[j].result,
    );
}

/// The counter total of a poll equals the number of its vote records in
/// every state of a trace that starts consistent — in particular in every
/// trace that starts from a freshly created poll and a guard store with no
/// records for it.
pub proof fn lemma_trace_keeps_tally(
    poll_id: Seq<u8>,
    polls: Seq<PollView>,
    guards: Seq<Seq<GuardEntryView>>,
    calls: Seq<VoteCall>,
    j: int,
)
    requires
        vote_trace(poll_id, polls, guards, calls),
        tally_consistent(poll_id, polls[0], guards[0]),
        0 <= j < polls.len(),
    ensures
        tally_consistent(poll_id, polls[j], guards[j]),
    decreases j,
{
    if j > 0 {
        lemma_trace_keeps_tally(poll_id, polls, guards, calls, j - 1);
        lemma_step_keeps_tally(
            poll_id,
            polls[j - 1],
            guards[j - 1],
            calls[j - 1].voter,
            calls[j - 1].selected_option,
            polls[j],
            guards[j],
            calls[j - 1].result,
        );
    }
}

/// A vote by a voter whose pair is already recorded fails with
/// `AlreadyVoted` and leaves both the poll and the guard store unchanged.
pub proof fn lemma_repeat_vote_fails(
    poll_id: Seq<u8>,
    p0: PollView,
    g0: Seq<GuardEntryView>,
    voter: Seq<u8>,
    selected_option: u8,
    p1: PollView,
    g1: Seq<GuardEntryView>,
    r: Result<(), ErrorCode>,
)
    requires
        vote_post(poll_id, p0, g0, voter, selected_option, p1, g1, r),
        contains_pair(g0, poll_id, voter),
        (selected_option as int) < p0.options.len(),
    ensures
        r == Err::<(), ErrorCode>(ErrorCode::AlreadyVoted),
        p1 == p0,
        g1 == g0,
{
}

} // verus!
