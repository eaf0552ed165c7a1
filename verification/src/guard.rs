use vstd::prelude::*;

use crate::error::ErrorCode;
use crate::identity::Identity;

verus! {

/// The storage address of a vote record, derived purely from the
/// (poll, voter) pair: the same pair always maps to the same address, so
/// "has this voter already voted here" is one lookup.
#[derive(Clone, Copy, Debug)]
pub struct GuardKey {
    pub poll: Identity,
    pub voter: Identity,
}

/// Model of a guard address.
pub struct GuardKeyView {
    pub poll: Seq<u8>,
    pub voter: Seq<u8>,
}

impl View for GuardKey {
    type V = GuardKeyView;

    open spec fn view(&self) -> GuardKeyView {
        GuardKeyView { poll: self.poll@, voter: self.voter@ }
    }
}

/// Deterministic address derivation: a pure function of the pair,
/// never of time, chance or anything else.
pub fn derive_address(poll_id: &Identity, voter: &Identity) -> (k: GuardKey)
    ensures
        k@.poll == poll_id@,
        k@.voter == voter@,
{
    GuardKey { poll: *poll_id, voter: *voter }
}

/// The record created when a vote is accepted: who voted, and the flag,
/// always set, that the vote stands. Immutable once created.
#[derive(Clone, Copy, Debug)]
pub struct VoteAccount {
    pub voter: Identity,
    pub voted: bool,
}

/// Model of a vote record.
pub struct VoteAccountView {
    pub voter: Seq<u8>,
    pub voted: bool,
}

impl VoteAccount {
    /// Size in bytes of the persisted vote record: the voter, then the flag.
    pub const SIZE: usize = 32 + 1;
}

impl View for VoteAccount {
    type V = VoteAccountView;

    open spec fn view(&self) -> VoteAccountView {
        VoteAccountView { voter: self.voter@, voted: self.voted }
    }
}

/// One occupied address of the guard store.
pub struct GuardEntry {
    pub key: GuardKey,
    pub record: VoteAccount,
}

/// Model of an occupied address.
pub struct GuardEntryView {
    pub key: GuardKeyView,
    pub record: VoteAccountView,
}

impl View for GuardEntry {
    type V = GuardEntryView;

    open spec fn view(&self) -> GuardEntryView {
        GuardEntryView { key: self.key@, record: self.record@ }
    }
}

/// Whether some entry occupies the address derived from (poll, voter).
pub open spec fn contains_pair(entries: Seq<GuardEntryView>, poll: Seq<u8>, voter: Seq<u8>) -> bool {
    exists|i: int|
        0 <= i < entries.len() && (#[trigger] entries[i]).key.poll == poll && entries[i].key.voter
            == voter
}

/// How many vote records a poll has.
pub open spec fn count_for(entries: Seq<GuardEntryView>, poll: Seq<u8>) -> int
    decreases entries.len(),
{
    if entries.len() == 0 {
        0
    } else {
        count_for(entries.drop_last(), poll) + if entries.last().key.poll == poll {
            1int
        } else {
            0int
        }
    }
}

pub proof fn lemma_count_push(entries: Seq<GuardEntryView>, poll: Seq<u8>, e: GuardEntryView)
    ensures
        count_for(entries.push(e), poll) == count_for(entries, poll) + if e.key.poll == poll {
            1int
        } else {
            0int
        },
{
    assert(entries.push(e).drop_last() =~= entries);
}

/// The guard store: the set of occupied addresses, each holding the record
/// created with it. Models the shared store's allocate-if-absent primitive,
/// restricted to vote records.
pub struct VoteGuard {
    entries: Vec<GuardEntry>,
}

impl View for VoteGuard {
    type V = Seq<GuardEntryView>;

    closed spec fn view(&self) -> Seq<GuardEntryView> {
        self.entries@.map_values(|e: GuardEntry| e@)
    }
}

impl VoteGuard {
    /// Well-formedness: no address is occupied twice, and each record names
    /// the voter of its own address, with its flag set.
    pub open spec fn wf(self) -> bool {
        &&& forall|i: int, j: int|
            0 <= i < j < self@.len() ==> !((#[trigger] self@[i]).key.poll == (
            #[trigger] self@[j]).key.poll && self@[i].key.voter == self@[j].key.voter)
        &&& forall|i: int|
            0 <= i < self@.len() ==> (#[trigger] self@[i]).record.voter == self@[i].key.voter
                && self@[i].record.voted
    }

    /// An empty guard store: no voter has voted anywhere.
    pub fn new() -> (g: VoteGuard)
        ensures
            g@ =~= Seq::<GuardEntryView>::empty(),
            g.wf(),
    {
        VoteGuard { entries: Vec::new() }
    }

    /// Whether the address derived from (poll, voter) is occupied.
    pub fn has_record(&self, poll_id: &Identity, voter: &Identity) -> (r: bool)
        ensures
            r == contains_pair(self@, poll_id@, voter@),
    {
        let mut i: usize = 0;
        while i < self.entries.len()
            invariant
                i <= self.entries.len(),
                forall|j: int|
                    0 <= j < i ==> !((#[trigger] self@[j]).key.poll == poll_id@ && self@[j].key.voter
                        == voter@),
            decreases self.entries.len() - i,
        {
            let entry = &self.entries[i];
            if entry.key.poll.same(poll_id) && entry.key.voter.same(voter) {
                proof {
                    assert(self@[i as int] == self.entries@[i as int]@);
                    assert(self@[i as int].key.poll == poll_id@ && self@[i as int].key.voter
                        == voter@);
                }
                return true;
            }
            proof {
                assert(self@[i as int] == self.entries@[i as int]@);
            }
            i += 1;
        }
        false
    }

    /// The record at the address derived from (poll, voter), if the address
    /// is occupied.
    pub fn record_for(&self, poll_id: &Identity, voter: &Identity) -> (r: Option<VoteAccount>)
        requires
            self.wf(),
        ensures
            r is Some <==> contains_pair(self@, poll_id@, voter@),
            r matches Some(rec) ==> rec@.voter == voter@ && rec@.voted,
    {
        let mut i: usize = 0;
        while i < self.entries.len()
            invariant
                self.wf(),
                i <= self.entries.len(),
                forall|j: int|
                    0 <= j < i ==> !((#[trigger] self@[j]).key.poll == poll_id@ && self@[j].key.voter
                        == voter@),
            decreases self.entries.len() - i,
        {
            let entry = &self.entries[i];
            if entry.key.poll.same(poll_id) && entry.key.voter.same(voter) {
                proof {
                    assert(self@[i as int] == self.entries@[i as int]@);
                    assert(self@[i as int].key.poll == poll_id@ && self@[i as int].key.voter
                        == voter@);
                }
                return Some(entry.record);
            }
            proof {
                assert(self@[i as int] == self.entries@[i as int]@);
            }
            i += 1;
        }
        None
    }

    /// Attempts to create a record at the address derived from
    /// (poll, voter): the allocate-if-absent step. It succeeds exactly when
    /// the address is free; an occupied address means the voter has already
    /// voted, and nothing changes.
    pub fn claim(&mut self, poll_id: &Identity, voter: &Identity) -> (r: Result<
        VoteAccount,
        ErrorCode,
    >)
        requires
            old(self).wf(),
        ensures
            final(self).wf(),
            contains_pair(old(self)@, poll_id@, voter@) ==> r == Err::<VoteAccount, ErrorCode>(
                ErrorCode::AlreadyVoted,
            ) && final(self)@ == old(self)@,
            !contains_pair(old(self)@, poll_id@, voter@) ==> (r matches Ok(rec) && rec@.voter
                == voter@ && rec@.voted && final(self)@ == old(self)@.push(
                (GuardEntryView {
                    key: GuardKeyView { poll: poll_id@, voter: voter@ },
                    record: VoteAccountView { voter: voter@, voted: true },
                }),
            )),
    {
        if self.has_record(poll_id, voter) {
            return Err(ErrorCode::AlreadyVoted);
        }
        let key = derive_address(poll_id, voter);
        let record = VoteAccount { voter: *voter, voted: true };
        self.entries.push(GuardEntry { key, record });
        proof {
            assert(self@ =~= old(self)@.push(
                GuardEntryView {
                    key: GuardKeyView { poll: poll_id@, voter: voter@ },
                    record: VoteAccountView { voter: voter@, voted: true },
                },
            ));
        }
        Ok(record)
    }
}

} // verus!
