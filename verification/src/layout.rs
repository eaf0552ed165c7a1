use vstd::bytes::{
    lemma_auto_spec_u32_to_from_le_bytes, spec_u32_from_le_bytes, spec_u32_to_le_bytes,
    u32_from_le_bytes, u32_to_le_bytes,
};
use vstd::prelude::*;
use vstd::slice::slice_subrange;

use crate::guard::{VoteAccount, VoteAccountView};
use crate::identity::Identity;
use crate::poll::{labels_view, Poll, PollView};

verus! {

// The persisted poll record, laid out so storage can be pre-allocated at
// the declared maxima: the creator's identity, then a length-prefixed
// title area, a length-prefixed option area of fixed-width slots, and a
// length-prefixed counter area. Every unused byte is zero, so each
// well-formed record has exactly one persisted form.
/// Offset of the title's length prefix.
pub const TITLE_LEN_OFFSET: usize = 32;

/// Offset of the title area.
pub const TITLE_OFFSET: usize = 36;

/// Offset of the option count.
pub const OPTION_COUNT_OFFSET: usize = 100;

/// Offset of the first option slot.
pub const OPTIONS_OFFSET: usize = 104;

/// Width of one option slot: a length prefix and a label area.
pub const OPTION_SLOT_SIZE: usize = 36;

/// Offset of the counter count.
pub const VOTE_COUNT_OFFSET: usize = 464;

/// Offset of the first counter slot.
pub const VOTES_OFFSET: usize = 468;

/// A run of zero bytes.
pub open spec fn zero_bytes(n: nat) -> Seq<u8> {
    Seq::new(n, |i: int| 0u8)
}

/// A byte string padded with zeros to its area's capacity.
pub open spec fn padded(s: Seq<u8>, cap: nat) -> Seq<u8>
    recommends
        s.len() <= cap,
{
    s + zero_bytes((cap - s.len()) as nat)
}

/// The bytes of option slot `k`: its label, length-prefixed and padded, or
/// all zeros past the option count.
pub open spec fn option_slot(options: Seq<Seq<u8>>, k: int) -> Seq<u8> {
    if 0 <= k < options.len() {
        spec_u32_to_le_bytes(options[k].len() as u32) + padded(
            options[k],
            Poll::MAX_OPTION_LEN as nat,
        )
    } else {
        zero_bytes(OPTION_SLOT_SIZE as nat)
    }
}

/// The first `k` option slots, concatenated.
pub open spec fn option_slots(options: Seq<Seq<u8>>, k: int) -> Seq<u8>
    decreases k,
{
    if k <= 0 {
        Seq::empty()
    } else {
        option_slots(options, k - 1) + option_slot(options, k - 1)
    }
}

/// The bytes of counter slot `k`: the counter, little endian, or all zeros
/// past the counter count.
pub open spec fn vote_slot(votes: Seq<u32>, k: int) -> Seq<u8> {
    if 0 <= k < votes.len() {
        spec_u32_to_le_bytes(votes[k])
    } else {
        zero_bytes(4)
    }
}

/// The first `k` counter slots, concatenated.
pub open spec fn vote_slots(votes: Seq<u32>, k: int) -> Seq<u8>
    decreases k,
{
    if k <= 0 {
        Seq::empty()
    } else {
        vote_slots(votes, k - 1) + vote_slot(votes, k - 1)
    }
}

/// The persisted form of a poll record.
pub open spec fn spec_encode_poll(p: PollView) -> Seq<u8> {
    p.authority + spec_u32_to_le_bytes(p.title.len() as u32) + padded(
        p.title,
        Poll::MAX_TITLE_LEN as nat,
    ) + spec_u32_to_le_bytes(p.options.len() as u32) + option_slots(
        p.options,
        Poll::MAX_OPTIONS as int,
    ) + spec_u32_to_le_bytes(p.votes.len() as u32) + vote_slots(p.votes, Poll::MAX_OPTIONS as int)
}

/// The persisted form of a vote record: the voter, then the flag byte.
pub open spec fn spec_encode_vote_account(v: VoteAccountView) -> Seq<u8> {
    v.voter + seq![if v.voted { 1u8 } else { 0u8 }]
}

pub proof fn lemma_option_slots_len(options: Seq<Seq<u8>>, k: int)
    requires
        0 <= k,
        forall|i: int|
            0 <= i < options.len() ==> (#[trigger] options[i]).len() <= Poll::MAX_OPTION_LEN,
    ensures
        option_slots(options, k).len() == OPTION_SLOT_SIZE * k,
    decreases k,
{
    lemma_auto_spec_u32_to_from_le_bytes();
    if k > 0 {
        lemma_option_slots_len(options, k - 1);
    }
}

pub proof fn lemma_vote_slots_len(votes: Seq<u32>, k: int)
    requires
        0 <= k,
    ensures
        vote_slots(votes, k).len() == 4 * k,
    decreases k,
{
    lemma_auto_spec_u32_to_from_le_bytes();
    if k > 0 {
        lemma_vote_slots_len(votes, k - 1);
    }
}

/// Where each field of a well-formed record stands in its persisted form.
pub proof fn lemma_encode_fields(p: PollView)
    requires
        p.wf(),
    ensures
        spec_encode_poll(p).len() == Poll::MAX_SIZE,
        spec_encode_poll(p).subrange(0, TITLE_LEN_OFFSET as int) == p.authority,
        spec_encode_poll(p).subrange(TITLE_LEN_OFFSET as int, TITLE_OFFSET as int)
            == spec_u32_to_le_bytes(p.title.len() as u32),
        spec_encode_poll(p).subrange(TITLE_OFFSET as int, OPTION_COUNT_OFFSET as int) == padded(
            p.title,
            Poll::MAX_TITLE_LEN as nat,
        ),
        spec_encode_poll(p).subrange(OPTION_COUNT_OFFSET as int, OPTIONS_OFFSET as int)
            == spec_u32_to_le_bytes(p.options.len() as u32),
        spec_encode_poll(p).subrange(OPTIONS_OFFSET as int, VOTE_COUNT_OFFSET as int)
            == option_slots(p.options, Poll::MAX_OPTIONS as int),
        spec_encode_poll(p).subrange(VOTE_COUNT_OFFSET as int, VOTES_OFFSET as int)
            == spec_u32_to_le_bytes(p.votes.len() as u32),
        spec_encode_poll(p).subrange(VOTES_OFFSET as int, Poll::MAX_SIZE as int) == vote_slots(
            p.votes,
            Poll::MAX_OPTIONS as int,
        ),
{
    lemma_auto_spec_u32_to_from_le_bytes();
    lemma_option_slots_len(p.options, Poll::MAX_OPTIONS as int);
    lemma_vote_slots_len(p.votes, Poll::MAX_OPTIONS as int);
    let e = spec_encode_poll(p);
    assert(e.subrange(0, TITLE_LEN_OFFSET as int) =~= p.authority);
    assert(e.subrange(TITLE_LEN_OFFSET as int, TITLE_OFFSET as int) =~= spec_u32_to_le_bytes(
        p.title.len() as u32,
    ));
    assert(e.subrange(TITLE_OFFSET as int, OPTION_COUNT_OFFSET as int) =~= padded(
        p.title,
        Poll::MAX_TITLE_LEN as nat,
    ));
    assert(e.subrange(OPTION_COUNT_OFFSET as int, OPTIONS_OFFSET as int) =~= spec_u32_to_le_bytes(
        p.options.len() as u32,
    ));
    assert(e.subrange(OPTIONS_OFFSET as int, VOTE_COUNT_OFFSET as int) =~= option_slots(
        p.options,
        Poll::MAX_OPTIONS as int,
    ));
    assert(e.subrange(VOTE_COUNT_OFFSET as int, VOTES_OFFSET as int) =~= spec_u32_to_le_bytes(
        p.votes.len() as u32,
    ));
    assert(e.subrange(VOTES_OFFSET as int, Poll::MAX_SIZE as int) =~= vote_slots(
        p.votes,
        Poll::MAX_OPTIONS as int,
    ));
}

/// Offset of option slot `k`.
pub open spec fn option_slot_offset(k: int) -> int {
    OPTIONS_OFFSET as int + OPTION_SLOT_SIZE as int * k
}

/// Offset of counter slot `k`.
pub open spec fn vote_slot_offset(k: int) -> int {
    VOTES_OFFSET as int + 4 * k
}

pub proof fn lemma_option_slots_extract(options: Seq<Seq<u8>>, m: int, k: int)
    requires
        0 <= k < m,
        forall|i: int|
            0 <= i < options.len() ==> (#[trigger] options[i]).len() <= Poll::MAX_OPTION_LEN,
    ensures
        option_slots(options, m).subrange(
            OPTION_SLOT_SIZE as int * k,
            OPTION_SLOT_SIZE as int * (k + 1),
        ) == option_slot(options, k),
    decreases m,
{
    lemma_auto_spec_u32_to_from_le_bytes();
    lemma_option_slots_len(options, m - 1);
    if k == m - 1 {
        assert(option_slots(options, m).subrange(
            OPTION_SLOT_SIZE as int * k,
            OPTION_SLOT_SIZE as int * (k + 1),
        ) =~= option_slot(options, k));
    } else {
        lemma_option_slots_extract(options, m - 1, k);
        assert(option_slots(options, m).subrange(
            OPTION_SLOT_SIZE as int * k,
            OPTION_SLOT_SIZE as int * (k + 1),
        ) =~= option_slots(options, m - 1).subrange(
            OPTION_SLOT_SIZE as int * k,
            OPTION_SLOT_SIZE as int * (k + 1),
        ));
    }
}

pub proof fn lemma_vote_slots_extract(votes: Seq<u32>, m: int, k: int)
    requires
        0 <= k < m,
    ensures
        vote_slots(votes, m).subrange(4 * k, 4 * (k + 1)) == vote_slot(votes, k),
    decreases m,
{
    lemma_auto_spec_u32_to_from_le_bytes();
    lemma_vote_slots_len(votes, m - 1);
    if k == m - 1 {
        assert(vote_slots(votes, m).subrange(4 * k, 4 * (k + 1)) =~= vote_slot(votes, k));
    } else {
        lemma_vote_slots_extract(votes, m - 1, k);
        assert(vote_slots(votes, m).subrange(4 * k, 4 * (k + 1)) =~= vote_slots(
            votes,
            m - 1,
        ).subrange(4 * k, 4 * (k + 1)));
    }
}

/// Where option slot `k` of a well-formed record stands in its persisted
/// form, split into its length prefix and its label area.
pub proof fn lemma_encoded_option_slot(p: PollView, k: int)
    requires
        p.wf(),
        0 <= k < Poll::MAX_OPTIONS,
    ensures
        k < p.options.len() ==> spec_encode_poll(p).subrange(
            option_slot_offset(k),
            option_slot_offset(k) + 4,
        ) == spec_u32_to_le_bytes(p.options[k].len() as u32) && spec_encode_poll(p).subrange(
            option_slot_offset(k) + 4,
            option_slot_offset(k + 1),
        ) == padded(p.options[k], Poll::MAX_OPTION_LEN as nat),
        k >= p.options.len() ==> spec_encode_poll(p).subrange(
            option_slot_offset(k),
            option_slot_offset(k + 1),
        ) == zero_bytes(OPTION_SLOT_SIZE as nat),
{
    lemma_auto_spec_u32_to_from_le_bytes();
    lemma_encode_fields(p);
    lemma_option_slots_extract(p.options, Poll::MAX_OPTIONS as int, k);
    let e = spec_encode_poll(p);
    let slots = option_slots(p.options, Poll::MAX_OPTIONS as int);
    lemma_option_slots_len(p.options, Poll::MAX_OPTIONS as int);
    assert(e.subrange(option_slot_offset(k), option_slot_offset(k + 1)) =~= slots.subrange(
        OPTION_SLOT_SIZE as int * k,
        OPTION_SLOT_SIZE as int * (k + 1),
    ));
    if k < p.options.len() {
        assert(e.subrange(option_slot_offset(k), option_slot_offset(k) + 4) =~= option_slot(
            p.options,
            k,
        ).subrange(0, 4));
        assert(option_slot(p.options, k).subrange(0, 4) =~= spec_u32_to_le_bytes(
            p.options[k].len() as u32,
        ));
        assert(e.subrange(option_slot_offset(k) + 4, option_slot_offset(k + 1)) =~= option_slot(
            p.options,
            k,
        ).subrange(4, OPTION_SLOT_SIZE as int));
        assert(option_slot(p.options, k).subrange(4, OPTION_SLOT_SIZE as int) =~= padded(
            p.options[k],
            Poll::MAX_OPTION_LEN as nat,
        ));
    }
}

/// Where counter slot `k` of a well-formed record stands in its persisted
/// form.
pub proof fn lemma_encoded_vote_slot(p: PollView, k: int)
    requires
        p.wf(),
        0 <= k < Poll::MAX_OPTIONS,
    ensures
        k < p.votes.len() ==> spec_encode_poll(p).subrange(
            vote_slot_offset(k),
            vote_slot_offset(k) + 4,
        ) == spec_u32_to_le_bytes(p.votes[k]),
        k >= p.votes.len() ==> spec_encode_poll(p).subrange(
            vote_slot_offset(k),
            vote_slot_offset(k) + 4,
        ) == zero_bytes(4),
{
    lemma_auto_spec_u32_to_from_le_bytes();
    lemma_encode_fields(p);
    lemma_vote_slots_extract(p.votes, Poll::MAX_OPTIONS as int, k);
    lemma_vote_slots_len(p.votes, Poll::MAX_OPTIONS as int);
    assert(spec_encode_poll(p).subrange(vote_slot_offset(k), vote_slot_offset(k) + 4) =~= vote_slots(
        p.votes,
        Poll::MAX_OPTIONS as int,
    ).subrange(4 * k, 4 * (k + 1)));
}

/// Two different well-formed poll records never share a persisted form:
/// every field of a record can be read back from its bytes alone.
pub proof fn lemma_encode_poll_injective(a: PollView, b: PollView)
    requires
        a.wf(),
        b.wf(),
        spec_encode_poll(a) == spec_encode_poll(b),
    ensures
        a == b,
{
    lemma_auto_spec_u32_to_from_le_bytes();
    lemma_encode_fields(a);
    lemma_encode_fields(b);
    assert(a.authority == b.authority);
    assert(a.title.len() as u32 == b.title.len() as u32);
    assert(a.title.len() == b.title.len());
    assert forall|j: int| 0 <= j < a.title.len() implies a.title[j] == b.title[j] by {
        assert(padded(a.title, Poll::MAX_TITLE_LEN as nat)[j] == a.title[j]);
        assert(padded(b.title, Poll::MAX_TITLE_LEN as nat)[j] == b.title[j]);
    }
    assert(a.title =~= b.title);
    assert(a.options.len() as u32 == b.options.len() as u32);
    assert(a.options.len() == b.options.len());
    assert forall|k: int| 0 <= k < a.options.len() implies a.options[k] == b.options[k] by {
        lemma_auto_spec_u32_to_from_le_bytes();
        lemma_encoded_option_slot(a, k);
        lemma_encoded_option_slot(b, k);
        assert(spec_u32_to_le_bytes(a.options[k].len() as u32).len() == 4);
        assert(spec_u32_to_le_bytes(b.options[k].len() as u32).len() == 4);
        assert(a.options[k].len() as u32 == b.options[k].len() as u32);
        assert(a.options[k].len() == b.options[k].len());
        assert forall|j: int| 0 <= j < a.options[k].len() implies a.options[k][j]
            == b.options[k][j] by {
            assert(padded(a.options[k], Poll::MAX_OPTION_LEN as nat)[j] == a.options[k][j]);
            assert(padded(b.options[k], Poll::MAX_OPTION_LEN as nat)[j] == b.options[k][j]);
        }
        assert(a.options[k] =~= b.options[k]);
    }
    assert(a.options =~= b.options);
    assert(a.votes.len() as u32 == b.votes.len() as u32);
    assert(a.votes.len() == b.votes.len());
    assert forall|k: int| 0 <= k < a.votes.len() implies a.votes[k] == b.votes[k] by {
        lemma_auto_spec_u32_to_from_le_bytes();
        lemma_encoded_vote_slot(a, k);
        lemma_encoded_vote_slot(b, k);
        assert(spec_u32_to_le_bytes(a.votes[k]).len() == 4);
        assert(spec_u32_to_le_bytes(b.votes[k]).len() == 4);
        assert(a.votes[k] == spec_u32_from_le_bytes(spec_u32_to_le_bytes(a.votes[k])));
        assert(b.votes[k] == spec_u32_from_le_bytes(spec_u32_to_le_bytes(b.votes[k])));
    }
    assert(a.votes =~= b.votes);
}

/// Reads the u32 stored little endian at `off`.
fn read_u32(bytes: &Vec<u8>, off: usize) -> (x: u32)
    requires
        off + 4 <= bytes@.len(),
    ensures
        x == spec_u32_from_le_bytes(bytes@.subrange(off as int, off as int + 4)),
{
    // Learning the vector's length bounds `off + 4` below usize::MAX.
    let n = bytes.len();
    let s = slice_subrange(bytes.as_slice(), off, off + 4);
    u32_from_le_bytes(s)
}

/// Byte-for-byte equality of two byte strings.
fn bytes_equal(a: &Vec<u8>, b: &Vec<u8>) -> (r: bool)
    ensures
        r == (a@ == b@),
{
    if a.len() != b.len() {
        return false;
    }
    let mut i: usize = 0;
    while i < a.len()
        invariant
            a@.len() == b@.len(),
            i <= a@.len(),
            forall|j: int| 0 <= j < i ==> a@[j] == b@[j],
        decreases a@.len() - i,
    {
        if a[i] != b[i] {
            return false;
        }
        i += 1;
    }
    proof {
        assert(a@ =~= b@);
    }
    true
}

/// Appends a byte string.
fn push_bytes(out: &mut Vec<u8>, src: &Vec<u8>)
    ensures
        final(out)@ == old(out)@ + src@,
{
    let mut i: usize = 0;
    while i < src.len()
        invariant
            i <= src@.len(),
            out@ == old(out)@ + src@.subrange(0, i as int),
        decreases src@.len() - i,
    {
        out.push(src[i]);
        proof {
            assert(out@ =~= old(out)@ + src@.subrange(0, i + 1));
        }
        i += 1;
    }
    proof {
        assert(src@.subrange(0, src@.len() as int) =~= src@);
    }
}

/// Appends a run of zero bytes.
fn push_zeros(out: &mut Vec<u8>, n: usize)
    ensures
        final(out)@ == old(out)@ + zero_bytes(n as nat),
{
    let mut i: usize = 0;
    while i < n
        invariant
            i <= n,
            out@ == old(out)@ + zero_bytes(i as nat),
        decreases n - i,
    {
        out.push(0);
        proof {
            assert(out@ =~= old(out)@ + zero_bytes((i + 1) as nat));
        }
        i += 1;
    }
}

/// Appends a byte string padded with zeros to `cap`.
fn push_padded(out: &mut Vec<u8>, src: &Vec<u8>, cap: usize)
    requires
        src@.len() <= cap,
    ensures
        final(out)@ == old(out)@ + padded(src@, cap as nat),
{
    push_bytes(out, src);
    push_zeros(out, cap - src.len());
    proof {
        assert(out@ =~= old(out)@ + padded(src@, cap as nat));
    }
}

/// Appends a u32, little endian.
fn push_u32_le(out: &mut Vec<u8>, x: u32)
    ensures
        final(out)@ == old(out)@ + spec_u32_to_le_bytes(x),
{
    let b = u32_to_le_bytes(x);
    push_bytes(out, &b);
}

/// Appends an identity's bytes.
fn push_identity(out: &mut Vec<u8>, id: &Identity)
    ensures
        final(out)@ == old(out)@ + id@,
{
    let mut i: usize = 0;
    while i < 32
        invariant
            i <= 32,
            out@ == old(out)@ + id@.subrange(0, i as int),
        decreases 32 - i,
    {
        out.push(id.bytes[i]);
        proof {
            assert(out@ =~= old(out)@ + id@.subrange(0, i + 1));
        }
        i += 1;
    }
    proof {
        assert(id@.subrange(0, 32) =~= id@);
    }
}

/// Writes a poll record in its persisted form: always exactly
/// `Poll::MAX_SIZE` bytes, whatever the record holds.
pub fn encode_poll(p: &Poll) -> (r: Vec<u8>)
    requires
        p@.wf(),
    ensures
        r@ == spec_encode_poll(p@),
        r@.len() == Poll::MAX_SIZE,
{
    let mut out: Vec<u8> = Vec::new();
    push_identity(&mut out, &p.authority);
    push_u32_le(&mut out, p.title.len() as u32);
    push_padded(&mut out, &p.title, Poll::MAX_TITLE_LEN);
    push_u32_le(&mut out, p.options.len() as u32);
    let ghost head = out@;
    let mut k: usize = 0;
    while k < Poll::MAX_OPTIONS
        invariant
            p@.wf(),
            k <= Poll::MAX_OPTIONS,
            out@ == head + option_slots(p@.options, k as int),
        decreases Poll::MAX_OPTIONS - k,
    {
        if k < p.options.len() {
            let label = &p.options[k];
            proof {
                assert(p@.options[k as int] == p.options@[k as int]@);
            }
            push_u32_le(&mut out, label.len() as u32);
            push_padded(&mut out, label, Poll::MAX_OPTION_LEN);
            proof {
                assert(out@ =~= head + option_slots(p@.options, k as int + 1));
            }
        } else {
            push_zeros(&mut out, OPTION_SLOT_SIZE);
            proof {
                assert(out@ =~= head + option_slots(p@.options, k as int + 1));
            }
        }
        k += 1;
    }
    push_u32_le(&mut out, p.votes.len() as u32);
    let ghost mid = out@;
    let mut j: usize = 0;
    while j < Poll::MAX_OPTIONS
        invariant
            p@.wf(),
            j <= Poll::MAX_OPTIONS,
            out@ == mid + vote_slots(p@.votes, j as int),
        decreases Poll::MAX_OPTIONS - j,
    {
        if j < p.votes.len() {
            push_u32_le(&mut out, p.votes[j]);
        } else {
            push_zeros(&mut out, 4);
        }
        proof {
            assert(out@ =~= mid + vote_slots(p@.votes, j as int + 1));
        }
        j += 1;
    }
    proof {
        assert(out@ =~= spec_encode_poll(p@));
        lemma_encode_fields(p@);
    }
    out
}

/// Writes a vote record in its persisted form: always exactly
/// `VoteAccount::SIZE` bytes.
pub fn encode_vote_account(v: &VoteAccount) -> (r: Vec<u8>)
    ensures
        r@ == spec_encode_vote_account(v@),
        r@.len() == VoteAccount::SIZE,
{
    let mut out: Vec<u8> = Vec::new();
    push_identity(&mut out, &v.voter);
    out.push(if v.voted {
        1
    } else {
        0
    });
    proof {
        assert(out@ =~= spec_encode_vote_account(v@));
    }
    out
}

/// What the option parser records about one parsed label: its length came
/// from the slot's length prefix, and its bytes from the label area.
spec fn parsed_label(bytes: Seq<u8>, lbl: Seq<u8>, i: int) -> bool {
    &&& lbl.len() <= Poll::MAX_OPTION_LEN
    &&& lbl.len() == spec_u32_from_le_bytes(
        bytes.subrange(option_slot_offset(i), option_slot_offset(i) + 4),
    )
    &&& lbl == bytes.subrange(option_slot_offset(i) + 4, option_slot_offset(i) + 4 + lbl.len())
}

/// Reads back a poll record from its persisted form. Exactly the images of
/// `spec_encode_poll` on well-formed records decode, each to the record
/// that produced it; everything else is rejected.
#[verifier::rlimit(50)]
pub fn decode_poll(bytes: &Vec<u8>) -> (r: Option<Poll>)
    ensures
        r matches Some(p) ==> p@.wf() && bytes@ == spec_encode_poll(p@),
        forall|pv: PollView|
            pv.wf() && bytes@ == spec_encode_poll(pv) ==> (r matches Some(p) && p@ == pv),
{
    if bytes.len() != Poll::MAX_SIZE {
        proof {
            assert forall|pv: PollView| !(pv.wf() && bytes@ == spec_encode_poll(pv)) by {
                if pv.wf() && bytes@ == spec_encode_poll(pv) {
                    lemma_encode_fields(pv);
                }
            }
        }
        return None;
    }
    let mut authority_bytes: [u8; 32] = [0; 32];
    let mut i: usize = 0;
    while i < 32
        invariant
            bytes@.len() == Poll::MAX_SIZE,
            i <= 32,
            forall|j: int| 0 <= j < i ==> authority_bytes@[j] == bytes@[j],
        decreases 32 - i,
    {
        authority_bytes[i] = bytes[i];
        i += 1;
    }
    let title_len32 = read_u32(bytes, TITLE_LEN_OFFSET);
    if title_len32 > Poll::MAX_TITLE_LEN as u32 {
        proof {
            assert forall|pv: PollView| !(pv.wf() && bytes@ == spec_encode_poll(pv)) by {
                if pv.wf() && bytes@ == spec_encode_poll(pv) {
                    lemma_auto_spec_u32_to_from_le_bytes();
                    lemma_encode_fields(pv);
                    assert(title_len32 == pv.title.len() as u32);
                }
            }
        }
        return None;
    }
    let title_len = title_len32 as usize;
    let mut title: Vec<u8> = Vec::new();
    while title.len() < title_len
        invariant
            bytes@.len() == Poll::MAX_SIZE,
            title_len <= Poll::MAX_TITLE_LEN,
            title@.len() <= title_len,
            forall|j: int| 0 <= j < title@.len() ==> title@[j] == bytes@[TITLE_OFFSET as int + j],
        decreases title_len - title.len(),
    {
        let idx = TITLE_OFFSET + title.len();
        title.push(bytes[idx]);
    }
    let count32 = read_u32(bytes, OPTION_COUNT_OFFSET);
    if count32 < 1 || count32 > Poll::MAX_OPTIONS as u32 {
        proof {
            assert forall|pv: PollView| !(pv.wf() && bytes@ == spec_encode_poll(pv)) by {
                if pv.wf() && bytes@ == spec_encode_poll(pv) {
                    lemma_auto_spec_u32_to_from_le_bytes();
                    lemma_encode_fields(pv);
                    assert(count32 == pv.options.len() as u32);
                }
            }
        }
        return None;
    }
    let count = count32 as usize;
    let mut options: Vec<Vec<u8>> = Vec::new();
    let mut k: usize = 0;
    while k < count
        invariant
            bytes@.len() == Poll::MAX_SIZE,
            1 <= count <= Poll::MAX_OPTIONS,
            count32 == spec_u32_from_le_bytes(
                bytes@.subrange(OPTION_COUNT_OFFSET as int, OPTION_COUNT_OFFSET as int + 4),
            ),
            count == count32 as usize,
            k <= count,
            options@.len() == k,
            forall|i: int| 0 <= i < k ==> parsed_label(bytes@, (#[trigger] options@[i])@, i),
        decreases count - k,
    {
        let llen32 = read_u32(bytes, OPTIONS_OFFSET + OPTION_SLOT_SIZE * k);
        if llen32 > Poll::MAX_OPTION_LEN as u32 {
            proof {
                assert forall|pv: PollView| !(pv.wf() && bytes@ == spec_encode_poll(pv)) by {
                    if pv.wf() && bytes@ == spec_encode_poll(pv) {
                        lemma_auto_spec_u32_to_from_le_bytes();
                        lemma_encode_fields(pv);
                        assert(count32 == pv.options.len() as u32);
                        lemma_encoded_option_slot(pv, k as int);
                        assert(k < pv.options.len());
                        assert(pv.options[k as int].len() <= Poll::MAX_OPTION_LEN);
                        assert(bytes@.subrange(
                            option_slot_offset(k as int),
                            option_slot_offset(k as int) + 4,
                        ) == spec_u32_to_le_bytes(pv.options[k as int].len() as u32));
                        assert(llen32 == spec_u32_from_le_bytes(
                            bytes@.subrange(
                                option_slot_offset(k as int),
                                option_slot_offset(k as int) + 4,
                            ),
                        ));
                        assert(llen32 == pv.options[k as int].len() as u32);
                    }
                }
            }
            return None;
        }
        let llen = llen32 as usize;
        let base = OPTIONS_OFFSET + OPTION_SLOT_SIZE * k + 4;
        let mut label: Vec<u8> = Vec::new();
        while label.len() < llen
            invariant
                bytes@.len() == Poll::MAX_SIZE,
                k < Poll::MAX_OPTIONS,
                llen <= Poll::MAX_OPTION_LEN,
                base == option_slot_offset(k as int) + 4,
                label@.len() <= llen,
                forall|j: int| 0 <= j < label@.len() ==> label@[j] == bytes@[base as int + j],
            decreases llen - label.len(),
        {
            let idx = base + label.len();
            label.push(bytes[idx]);
        }
        proof {
            assert(label@ =~= bytes@.subrange(base as int, base as int + label@.len()));
            assert(parsed_label(bytes@, label@, k as int));
        }
        options.push(label);
        k += 1;
    }
    let vcount32 = read_u32(bytes, VOTE_COUNT_OFFSET);
    if vcount32 != count32 {
        proof {
            assert forall|pv: PollView| !(pv.wf() && bytes@ == spec_encode_poll(pv)) by {
                if pv.wf() && bytes@ == spec_encode_poll(pv) {
                    lemma_auto_spec_u32_to_from_le_bytes();
                    lemma_encode_fields(pv);
                    assert(count32 == pv.options.len() as u32);
                    assert(vcount32 == pv.votes.len() as u32);
                }
            }
        }
        return None;
    }
    let mut votes: Vec<u32> = Vec::new();
    let mut v: usize = 0;
    while v < count
        invariant
            bytes@.len() == Poll::MAX_SIZE,
            count <= Poll::MAX_OPTIONS,
            v <= count,
            votes@.len() == v,
            forall|i: int|
                0 <= i < v ==> votes@[i] == spec_u32_from_le_bytes(
                    bytes@.subrange(vote_slot_offset(i), vote_slot_offset(i) + 4),
                ),
        decreases count - v,
    {
        let x = read_u32(bytes, VOTES_OFFSET + 4 * v);
        votes.push(x);
        v += 1;
    }
    let ghost built = PollView {
        authority: authority_bytes@,
        title: title@,
        options: labels_view(options@),
        votes: votes@,
    };
    proof {
        assert forall|i: int| 0 <= i < built.options.len() implies (#[trigger] built.options[i]).len()
            <= Poll::MAX_OPTION_LEN by {
            assert(parsed_label(bytes@, options@[i]@, i));
        }
        assert(built.wf());
        assert forall|pv: PollView| pv.wf() && bytes@ == spec_encode_poll(pv) implies pv
            == built by {
            lemma_auto_spec_u32_to_from_le_bytes();
            lemma_encode_fields(pv);
            assert forall|j: int| 0 <= j < 32 implies built.authority[j] == pv.authority[j] by {
                assert(pv.authority[j] == bytes@.subrange(0, TITLE_LEN_OFFSET as int)[j]);
            }
            assert(built.authority =~= pv.authority);
            assert(title_len32 == pv.title.len() as u32);
            assert forall|j: int| 0 <= j < pv.title.len() implies built.title[j] == pv.title[j] by {
                assert(bytes@.subrange(TITLE_OFFSET as int, OPTION_COUNT_OFFSET as int)[j]
                    == padded(pv.title, Poll::MAX_TITLE_LEN as nat)[j]);
            }
            assert(built.title =~= pv.title);
            assert(count32 == pv.options.len() as u32);
            assert forall|i: int| 0 <= i < pv.options.len() implies built.options[i]
                == pv.options[i] by {
                lemma_auto_spec_u32_to_from_le_bytes();
                lemma_encoded_option_slot(pv, i);
                assert(parsed_label(bytes@, options@[i]@, i));
                let lbl = options@[i]@;
                assert(pv.options[i].len() <= Poll::MAX_OPTION_LEN);
                assert(spec_u32_to_le_bytes(pv.options[i].len() as u32).len() == 4);
                assert(bytes@.subrange(option_slot_offset(i), option_slot_offset(i) + 4)
                    == spec_u32_to_le_bytes(pv.options[i].len() as u32));
                assert(lbl.len() == spec_u32_from_le_bytes(
                    spec_u32_to_le_bytes(pv.options[i].len() as u32),
                ));
                assert(lbl.len() == pv.options[i].len() as u32);
                assert(lbl.len() == pv.options[i].len());
                assert forall|j: int| 0 <= j < pv.options[i].len() implies lbl[j]
                    == pv.options[i][j] by {
                    assert(bytes@.subrange(option_slot_offset(i) + 4, option_slot_offset(i + 1))[j]
                        == padded(pv.options[i], Poll::MAX_OPTION_LEN as nat)[j]);
                    assert(lbl[j] == bytes@.subrange(
                        option_slot_offset(i) + 4,
                        option_slot_offset(i) + 4 + lbl.len(),
                    )[j]);
                }
                assert(lbl =~= pv.options[i]);
            }
            assert(built.options =~= pv.options);
            assert(vcount32 == pv.votes.len() as u32);
            assert forall|i: int| 0 <= i < pv.votes.len() implies built.votes[i] == pv.votes[i] by {
                lemma_auto_spec_u32_to_from_le_bytes();
                lemma_encoded_vote_slot(pv, i);
                assert(spec_u32_to_le_bytes(pv.votes[i]).len() == 4);
                assert(bytes@.subrange(vote_slot_offset(i), vote_slot_offset(i) + 4)
                    == spec_u32_to_le_bytes(pv.votes[i]));
                assert(built.votes[i] == spec_u32_from_le_bytes(
                    spec_u32_to_le_bytes(pv.votes[i]),
                ));
            }
            assert(built.votes =~= pv.votes);
        }
    }
    let q = Poll { authority: Identity::new(authority_bytes), title, options, votes };
    proof {
        assert(q@ == built);
    }
    let re = encode_poll(&q);
    if !bytes_equal(&re, bytes) {
        proof {
            assert forall|pv: PollView| !(pv.wf() && bytes@ == spec_encode_poll(pv)) by {
                if pv.wf() && bytes@ == spec_encode_poll(pv) {
                    assert(pv == built);
                    assert(re@ == spec_encode_poll(pv));
                }
            }
        }
        return None;
    }
    Some(q)
}

/// Reads back a vote record from its persisted form. Exactly the images
/// of `spec_encode_vote_account` decode; everything else is rejected.
pub fn decode_vote_account(bytes: &Vec<u8>) -> (r: Option<VoteAccount>)
    ensures
        r matches Some(v) ==> bytes@ == spec_encode_vote_account(v@),
        forall|vv: VoteAccountView|
            vv.voter.len() == 32 && bytes@ == spec_encode_vote_account(vv) ==> r is Some,
{
    if bytes.len() != VoteAccount::SIZE {
        return None;
    }
    let mut voter_bytes: [u8; 32] = [0; 32];
    let mut i: usize = 0;
    while i < 32
        invariant
            bytes@.len() == VoteAccount::SIZE,
            i <= 32,
            forall|j: int| 0 <= j < i ==> voter_bytes@[j] == bytes@[j],
        decreases 32 - i,
    {
        voter_bytes[i] = bytes[i];
        i += 1;
    }
    let flag = bytes[32];
    if flag > 1 {
        proof {
            assert forall|vv: VoteAccountView|
                !(vv.voter.len() == 32 && bytes@ == spec_encode_vote_account(vv)) by {
                if vv.voter.len() == 32 && bytes@ == spec_encode_vote_account(vv) {
                    assert(bytes@[32] == (if vv.voted {
                        1u8
                    } else {
                        0u8
                    }));
                }
            }
        }
        return None;
    }
    let v = VoteAccount { voter: Identity::new(voter_bytes), voted: flag == 1 };
    proof {
        assert(bytes@ =~= spec_encode_vote_account(v@));
    }
    Some(v)
}

} // verus!
