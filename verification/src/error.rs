use vstd::prelude::*;

verus! {

/// Every way a call into the voting core can fail. Each error is terminal
/// for the triggering call: no state is mutated when one is returned.
#[derive(Clone, Copy, Debug, PartialEq, Eq, Structural)]
pub enum ErrorCode {
    /// The selected option index is out of bounds for the poll.
    InvalidOption,
    /// A vote record for this (poll, voter) pair already exists.
    AlreadyVoted,
    /// A poll must offer at least one option.
    EmptyOptions,
    /// The chosen option's counter is at its maximum and cannot grow.
    CounterOverflow,
    /// The title exceeds the declared maximum length.
    TitleTooLong,
    /// The option list exceeds the declared maximum count.
    TooManyOptions,
    /// An option label exceeds the declared maximum length.
    OptionTooLong,
}

} // verus!
