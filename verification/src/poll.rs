use vstd::pervasive::VecAdditionalExecFns;
use vstd::prelude::*;

use crate::error::ErrorCode;
use crate::identity::Identity;

verus! {

/// Mathematical model of a poll: plain sequences in place of the vectors.
pub struct PollView {
    pub authority: Seq<u8>,
    pub title: Seq<u8>,
    pub options: Seq<Seq<u8>>,
    pub votes: Seq<u32>,
}

/// The labels of an option list, as a sequence of byte sequences.
pub open spec fn labels_view(options: Seq<Vec<u8>>) -> Seq<Seq<u8>> {
    options.map_values(|o: Vec<u8>| o@)
}

/// Total of all counters of a poll.
pub open spec fn sum_votes(s: Seq<u32>) -> int
    decreases s.len(),
{
    if s.len() == 0 {
        0
    } else {
        sum_votes(s.drop_last()) + s.last()
    }
}

pub proof fn lemma_sum_zeros(s: Seq<u32>)
    requires
        forall|i: int| 0 <= i < s.len() ==> s[i] == 0,
    ensures
        sum_votes(s) == 0,
    decreases s.len(),
{
    if s.len() > 0 {
        assert forall|i: int| 0 <= i < s.drop_last().len() implies s.drop_last()[i] == 0 by {
            assert(s[i] == 0);
        }
        lemma_sum_zeros(s.drop_last());
    }
}

pub proof fn lemma_sum_update(s: Seq<u32>, i: int, v: u32)
    requires
        0 <= i < s.len(),
    ensures
        sum_votes(s.update(i, v)) == sum_votes(s) - s[i] + v,
    decreases s.len(),
{
    let t = s.update(i, v);
    if i == s.len() - 1 {
        assert(t.drop_last() =~= s.drop_last());
    } else {
        lemma_sum_update(s.drop_last(), i, v);
        assert(t.drop_last() =~= s.drop_last().update(i, v));
        assert(t.last() == s.last());
    }
}

impl PollView {
    /// Well-formedness: counters and options line up index for index, the
    /// option list is non-empty, and every text respects its declared
    /// maximum, so the record fits its fixed-capacity storage region.
    pub open spec fn wf(self) -> bool {
        &&& self.authority.len() == 32
        &&& self.title.len() <= Poll::MAX_TITLE_LEN
        &&& 1 <= self.options.len()
        &&& self.options.len() <= Poll::MAX_OPTIONS
        &&& self.votes.len() == self.options.len()
        &&& forall|i: int|
            0 <= i < self.options.len() ==> (#[trigger] self.options[i]).len()
                <= Poll::MAX_OPTION_LEN
    }
}

/// The poll record held in the shared store: creator, title, option labels,
/// and one counter per option.
#[derive(Debug)]
pub struct Poll {
    pub authority: Identity,
    pub title: Vec<u8>,
    pub options: Vec<Vec<u8>>,
    pub votes: Vec<u32>,
}

impl View for Poll {
    type V = PollView;

    open spec fn view(&self) -> PollView {
        PollView {
            authority: self.authority@,
            title: self.title@,
            options: labels_view(self.options@),
            votes: self.votes@,
        }
    }
}

impl Poll {
    /// Declared capacity bounds of the fixed-size poll record.
    pub const MAX_OPTIONS: usize = 10;

    pub const MAX_TITLE_LEN: usize = 64;

    pub const MAX_OPTION_LEN: usize = 32;

    /// Size in bytes of the persisted poll record: authority, then a
    /// length-prefixed title area, a length-prefixed option area, and a
    /// length-prefixed counter area, each reserved at its maximum.
    pub const MAX_SIZE: usize = 32 + 4 + Self::MAX_TITLE_LEN + 4 + (Self::MAX_OPTIONS * (4
        + Self::MAX_OPTION_LEN)) + 4 + (Self::MAX_OPTIONS * 4);

    /// Writes a fresh poll record: the given fields, and one zero counter
    /// per option. Validation of the bounds is the dispatcher's job; this
    /// operation demands them already checked.
    pub fn initialize(authority: &Identity, title: Vec<u8>, options: Vec<Vec<u8>>) -> (p: Poll)
        requires
            1 <= options@.len() <= Poll::MAX_OPTIONS,
            title@.len() <= Poll::MAX_TITLE_LEN,
            forall|i: int|
                0 <= i < options@.len() ==> (#[trigger] options@[i])@.len()
                    <= Poll::MAX_OPTION_LEN,
        ensures
            p@.wf(),
            p@ == (PollView {
                authority: authority@,
                title: title@,
                options: labels_view(options@),
                votes: Seq::new(options@.len(), |i: int| 0u32),
            }),
    {
        let n = options.len();
        let mut votes: Vec<u32> = Vec::new();
        while votes.len() < n
            invariant
                votes@.len() <= n,
                forall|i: int| 0 <= i < votes@.len() ==> votes@[i] == 0,
            decreases n - votes.len(),
        {
            votes.push(0);
        }
        proof {
            assert(votes@ =~= Seq::new(options@.len(), |i: int| 0u32));
        }
        Poll { authority: *authority, title, options, votes }
    }

    /// Checks a selected option index against the option list.
    pub fn validate_option(&self, selected_option: u8) -> (r: Result<(), ErrorCode>)
        ensures
            r == (if (selected_option as int) < self@.options.len() {
                Ok::<(), ErrorCode>(())
            } else {
                Err::<(), ErrorCode>(ErrorCode::InvalidOption)
            }),
    {
        if (selected_option as usize) < self.options.len() {
            Ok(())
        } else {
            Err(ErrorCode::InvalidOption)
        }
    }

    /// Adds one to the counter at `index`, or reports `CounterOverflow` and
    /// changes nothing when the counter is already at its maximum.
    pub fn increment(&mut self, index: usize) -> (r: Result<(), ErrorCode>)
        requires
            index < old(self)@.votes.len(),
        ensures
            final(self)@.authority == old(self)@.authority,
            final(self)@.title == old(self)@.title,
            final(self)@.options == old(self)@.options,
            old(self)@.votes[index as int] < u32::MAX ==> r == Ok::<(), ErrorCode>(())
                && final(self)@.votes == old(self)@.votes.update(
                index as int,
                (old(self)@.votes[index as int] + 1) as u32,
            ),
            old(self)@.votes[index as int] == u32::MAX ==> r == Err::<(), ErrorCode>(
                ErrorCode::CounterOverflow,
            ) && final(self)@ == old(self)@,
    {
        let current = self.votes[index];
        if current == u32::MAX {
            Err(ErrorCode::CounterOverflow)
        } else {
            self.votes.set(index, current + 1);
            Ok(())
        }
    }
}

} // verus!
