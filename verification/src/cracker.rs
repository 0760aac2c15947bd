//! The search: a counter that runs from zero to a limit, the phrase of each
//! counter value, and the check of each phrase against the target address.

use crate::address::{address_text, mainnet_text, parse_address, require_mainnet};
use crate::counter::{
    add_small, at_most, counter_limit, is_multiple_of, max_entropy, value_of, zero,
};
use crate::derivation::{check_mnemonic, check_spec, is_match};
use crate::entropy::{entropy_bytes, entropy_of};
use crate::error::CrackerError;
use crate::mnemonic::{bip39_words, is_consistent, mnemonic_of, words_of, WORD_COUNT};
use bdk_wallet::bip39::Mnemonic;
use num_bigint::BigUint;
use vstd::arithmetic::div_mod::{lemma_mod_adds, lemma_mod_self_0, lemma_small_mod};
use vstd::prelude::*;

verus! {

/// The number of attempts between two throughput reports, unless another is
/// asked for.
pub const DEFAULT_CHUNK_SIZE: u64 = 100;

/// The words of the phrase that the counter value `counter` stands for.
pub open spec fn attempt_words(counter: nat) -> Seq<u16> {
    bip39_words(entropy_bytes(counter))
}

/// What the check of the phrase of `counter` against `target` gives.
pub open spec fn attempt_spec(counter: nat, target: Seq<char>) -> Result<
    Option<u32>,
    CrackerError,
> {
    check_spec(attempt_words(counter), target)
}

/// The same counter value stands for the same phrase, whenever it is asked.
pub proof fn lemma_same_counter_same_words(first: Mnemonic, second: Mnemonic, counter: nat)
    requires
        words_of(first) == attempt_words(counter),
        words_of(second) == attempt_words(counter),
    ensures
        words_of(first) == words_of(second),
{
}

/// Whether a throughput report is due when the counter reaches `attempts`:
/// on every multiple of the chunk size.
pub open spec fn is_checkpoint(attempts: nat, chunk: nat) -> bool {
    attempts % chunk == 0
}

/// Throughput reports fall on the multiples of the chunk size: after a
/// report at `at` attempts, the next one comes after exactly `chunk` more,
/// and none in between.
pub proof fn lemma_checkpoint_spacing(chunk: nat, at: nat)
    requires
        chunk > 0,
        is_checkpoint(at, chunk),
    ensures
        is_checkpoint(at + chunk, chunk),
        forall|between: nat|
            at < between < at + chunk ==> !#[trigger] is_checkpoint(between, chunk),
{
    lemma_mod_adds(at as int, chunk as int, chunk as int);
    lemma_mod_self_0(chunk as int);
    assert forall|between: nat| at < between < at + chunk implies !#[trigger] is_checkpoint(
        between,
        chunk,
    ) by {
        let offset = (between - at) as int;
        lemma_small_mod(offset as nat, chunk);
        lemma_mod_adds(at as int, offset, chunk as int);
    }
}

/// Where a search stands.
#[derive(Clone, Copy, Debug, PartialEq, Eq, Structural)]
pub enum SearchPhase {
    /// Phrases are still being checked.
    Running,
    /// A phrase that owns the target was found; the search is over.
    MatchFound,
    /// The counter has passed its limit without a match; the search is over.
    Exhausted,
}

/// A search in progress, as contracts see it.
pub struct StateView {
    /// The counter: the number of phrases checked and found no match.
    pub attempts: nat,
    pub phase: SearchPhase,
}

/// What one step of a search reports, as contracts see it.
pub enum EventView {
    Missed { error: Option<CrackerError>, checkpoint: bool },
    Matched { index: u32, words: Seq<u16> },
    Exhausted,
    Finished,
}

/// How a search ended, as contracts see it.
pub enum OutcomeView {
    Matched { attempts: nat, index: u32, words: Seq<u16> },
    Exhausted { total_attempts: nat },
}

/// A search in progress: the counter and the phase.
#[derive(Debug, PartialEq, Eq)]
pub struct SearchState {
    attempts: BigUint,
    phase: SearchPhase,
}

impl View for SearchState {
    type V = StateView;

    closed spec fn view(&self) -> StateView {
        StateView { attempts: value_of(self.attempts), phase: self.phase }
    }
}

impl SearchState {
    /// The counter: the number of phrases checked so far and found no match.
    pub fn attempts(&self) -> (attempts: &BigUint)
        ensures
            value_of(*attempts) == self@.attempts,
    {
        &self.attempts
    }

    /// The phase of the search.
    pub fn phase(&self) -> (phase: SearchPhase)
        ensures
            phase == self@.phase,
    {
        self.phase
    }

    /// Whether the search is over.
    pub fn is_finished(&self) -> (finished: bool)
        ensures
            finished == (self@.phase != SearchPhase::Running),
    {
        match self.phase {
            SearchPhase::Running => false,
            _ => true,
        }
    }
}

/// What one step of a search reports.
#[derive(Debug, PartialEq, Eq)]
pub enum StepEvent {
    /// A phrase was checked and does not own the target. `error` holds the
    /// failure of its derivation, if it failed; `checkpoint` says that the
    /// counter has reached a multiple of the chunk size, where throughput is
    /// reported.
    Missed { error: Option<CrackerError>, checkpoint: bool },
    /// The phrase of the counter owns the target: its address number `index`
    /// is the target.
    Matched { index: u32, mnemonic: Mnemonic },
    /// The counter has passed its limit.
    Exhausted,
    /// The search was over before the step; nothing was done.
    Finished,
}

impl View for StepEvent {
    type V = EventView;

    open spec fn view(&self) -> EventView {
        match *self {
            StepEvent::Missed { error, checkpoint } => EventView::Missed { error, checkpoint },
            StepEvent::Matched { index, mnemonic } => EventView::Matched {
                index,
                words: words_of(mnemonic),
            },
            StepEvent::Exhausted => EventView::Exhausted,
            StepEvent::Finished => EventView::Finished,
        }
    }
}

/// How a search ended.
#[derive(Debug, PartialEq, Eq)]
pub enum SearchOutcome {
    /// The phrase of the counter value `attempts` owns the target, at its
    /// address number `index`. `attempts` phrases were checked before it.
    Matched { attempts: BigUint, index: u32, mnemonic: Mnemonic },
    /// No phrase up to the limit owns the target; `total_attempts` phrases
    /// were checked.
    Exhausted { total_attempts: BigUint },
}

impl View for SearchOutcome {
    type V = OutcomeView;

    open spec fn view(&self) -> OutcomeView {
        match *self {
            SearchOutcome::Matched { attempts, index, mnemonic } => OutcomeView::Matched {
                attempts: value_of(attempts),
                index,
                words: words_of(mnemonic),
            },
            SearchOutcome::Exhausted { total_attempts } => OutcomeView::Exhausted {
                total_attempts: value_of(total_attempts),
            },
        }
    }
}

/// The search for the phrase that owns one target address.
#[derive(Debug)]
pub struct BtcWalletCracker {
    target_address: String,
    max_entropy: BigUint,
    chunk_size: u64,
}

impl BtcWalletCracker {
    /// The text of the target address.
    pub closed spec fn target(&self) -> Seq<char> {
        self.target_address@
    }

    /// The last counter value that the search checks.
    pub closed spec fn limit(&self) -> nat {
        value_of(self.max_entropy)
    }

    /// The number of attempts between two throughput reports.
    pub closed spec fn chunk(&self) -> nat {
        self.chunk_size as nat
    }

    /// What holds of every search: each counter value up to the limit has
    /// an entropy buffer, and the chunk size is not zero.
    #[verifier::type_invariant]
    spec fn inv(self) -> bool {
        value_of(self.max_entropy) < counter_limit() && self.chunk_size > 0
    }

    /// Every counter value up to the limit has an entropy buffer, and the
    /// chunk size is not zero.
    pub open spec fn wf(&self) -> bool {
        self.limit() < counter_limit() && self.chunk() > 0
    }

    /// A state that this search can be in: the counter is at most one past
    /// the limit.
    pub open spec fn admits(&self, state: StateView) -> bool {
        state.attempts <= self.limit() + 1
    }

    /// The state after one step from `state`.
    pub open spec fn next_state(&self, state: StateView) -> StateView {
        if state.phase != SearchPhase::Running {
            state
        } else if state.attempts > self.limit() {
            StateView { attempts: state.attempts, phase: SearchPhase::Exhausted }
        } else if is_match(attempt_words(state.attempts), self.target()) {
            StateView { attempts: state.attempts, phase: SearchPhase::MatchFound }
        } else {
            StateView { attempts: state.attempts + 1, phase: SearchPhase::Running }
        }
    }

    /// What one step from `state` reports.
    pub open spec fn event_of(&self, state: StateView) -> EventView {
        if state.phase != SearchPhase::Running {
            EventView::Finished
        } else if state.attempts > self.limit() {
            EventView::Exhausted
        } else {
            match attempt_spec(state.attempts, self.target()) {
                Ok(Some(index)) => EventView::Matched {
                    index,
                    words: attempt_words(state.attempts),
                },
                Ok(None) => EventView::Missed {
                    error: None,
                    checkpoint: is_checkpoint(state.attempts + 1, self.chunk()),
                },
                Err(error) => EventView::Missed {
                    error: Some(error),
                    checkpoint: is_checkpoint(state.attempts + 1, self.chunk()),
                },
            }
        }
    }

    /// How the search ends when its counter stands at `counter`: at the
    /// first counter value from there on whose phrase owns the target, or
    /// one past the limit.
    pub open spec fn search_from(&self, counter: nat) -> OutcomeView
        decreases self.limit() + 1 - counter,
    {
        if counter > self.limit() {
            OutcomeView::Exhausted { total_attempts: counter }
        } else {
            match attempt_spec(counter, self.target()) {
                Ok(Some(index)) => OutcomeView::Matched {
                    attempts: counter,
                    index,
                    words: attempt_words(counter),
                },
                _ => self.search_from(counter + 1),
            }
        }
    }

    /// A search passes over the counter values that own nothing: where no
    /// counter value from `start` up to `counter` has a phrase that owns the
    /// target, the search from `start` ends as the search from `counter`.
    pub proof fn lemma_search_skips_misses(&self, start: nat, counter: nat)
        requires
            start <= counter <= self.limit() + 1,
            forall|c: nat|
                start <= c < counter ==> !#[trigger] is_match(attempt_words(c), self.target()),
        ensures
            self.search_from(start) == self.search_from(counter),
        decreases counter - start,
    {
        if start < counter {
            assert(!is_match(attempt_words(start), self.target()));
            self.lemma_search_skips_misses(start + 1, counter);
        }
    }

    /// Where the phrase of `counter` owns the target at its address number
    /// `index`, and no phrase of a smaller counter value owns it, a search
    /// whose limit reaches `counter` ends with that match: the counter
    /// value, the index and the phrase.
    pub proof fn lemma_search_finds_first_match(&self, counter: nat, index: u32)
        requires
            counter <= self.limit(),
            attempt_spec(counter, self.target()) == Ok::<Option<u32>, CrackerError>(Some(index)),
            forall|c: nat| c < counter ==> !#[trigger] is_match(attempt_words(c), self.target()),
        ensures
            self.search_from(0) == (OutcomeView::Matched {
                attempts: counter,
                index,
                words: attempt_words(counter),
            }),
    {
        self.lemma_search_skips_misses(0, counter);
    }

    /// Where no phrase of a counter value up to the limit owns the target,
    /// the search ends exhausted, after one attempt for each of those
    /// values.
    pub proof fn lemma_search_exhausts(&self)
        requires
            forall|c: nat|
                c <= self.limit() ==> !#[trigger] is_match(attempt_words(c), self.target()),
        ensures
            self.search_from(0) == (OutcomeView::Exhausted { total_attempts: self.limit() + 1 }),
    {
        self.lemma_search_skips_misses(0, self.limit() + 1);
    }

    /// A search for `target_address` over every counter value that has an
    /// entropy buffer, with the default chunk size. The address has to be
    /// one of the main network.
    pub fn new(target_address: &str) -> (r: Result<Self, CrackerError>)
        ensures
            match address_text(target_address@) {
                None => r matches Err(error) && error == CrackerError::UnparsableAddress,
                Some(printed) => match mainnet_text(printed) {
                    None => r matches Err(error) && error == CrackerError::WrongNetwork,
                    Some(checked) => r matches Ok(cracker) && {
                        &&& cracker.wf()
                        &&& cracker.target() == checked
                        &&& cracker.limit() == counter_limit() - 1
                        &&& cracker.chunk() == DEFAULT_CHUNK_SIZE
                    },
                },
            },
    {
        let printed = match parse_address(target_address) {
            Ok(printed) => printed,
            Err(_) => {
                return Err(CrackerError::UnparsableAddress);
            },
        };
        let checked = match require_mainnet(printed.as_str()) {
            Ok(checked) => checked,
            Err(_) => {
                return Err(CrackerError::WrongNetwork);
            },
        };
        Ok(
            BtcWalletCracker {
                target_address: checked,
                max_entropy: max_entropy(),
                chunk_size: DEFAULT_CHUNK_SIZE,
            },
        )
    }

    /// The same search, ending at the counter value `max_entropy`. Nothing
    /// where that value has no entropy buffer.
    pub fn with_max_entropy(self, max_entropy: BigUint) -> (r: Option<Self>)
        ensures
            r is Some <==> value_of(max_entropy) < counter_limit(),
            r matches Some(cracker) ==> {
                &&& cracker.wf()
                &&& cracker.target() == self.target()
                &&& cracker.limit() == value_of(max_entropy)
                &&& cracker.chunk() == self.chunk()
            },
    {
        proof {
            use_type_invariant(&self);
        }
        let largest = crate::counter::max_entropy();
        if at_most(&max_entropy, &largest) {
            Some(
                BtcWalletCracker {
                    target_address: self.target_address,
                    max_entropy,
                    chunk_size: self.chunk_size,
                },
            )
        } else {
            None
        }
    }

    /// The same search, with a throughput report every `chunk_size`
    /// attempts. Nothing where `chunk_size` is zero.
    pub fn with_chunk_size(self, chunk_size: u64) -> (r: Option<Self>)
        ensures
            r is Some <==> chunk_size > 0,
            r matches Some(cracker) ==> {
                &&& cracker.wf()
                &&& cracker.target() == self.target()
                &&& cracker.limit() == self.limit()
                &&& cracker.chunk() == chunk_size
            },
    {
        proof {
            use_type_invariant(&self);
        }
        if chunk_size > 0 {
            Some(
                BtcWalletCracker {
                    target_address: self.target_address,
                    max_entropy: self.max_entropy,
                    chunk_size,
                },
            )
        } else {
            None
        }
    }

    /// The text of the target address.
    pub fn target_address(&self) -> (text: &String)
        ensures
            text@ == self.target(),
    {
        &self.target_address
    }

    /// The last counter value that the search checks.
    pub fn max_entropy(&self) -> (limit: &BigUint)
        ensures
            value_of(*limit) == self.limit(),
    {
        &self.max_entropy
    }

    /// The number of attempts between two throughput reports.
    pub fn chunk_size(&self) -> (chunk_size: u64)
        ensures
            chunk_size == self.chunk(),
    {
        self.chunk_size
    }

    /// The phrase of 24 words that the counter value `attempts` stands for.
    pub fn mnemonic_from_attempts(&self, attempts: &BigUint) -> (mnemonic: Mnemonic)
        requires
            value_of(*attempts) < counter_limit(),
        ensures
            words_of(mnemonic) == attempt_words(value_of(*attempts)),
            words_of(mnemonic).len() == WORD_COUNT,
            is_consistent(words_of(mnemonic)),
    {
        let entropy = entropy_of(attempts);
        mnemonic_of(&entropy)
    }

    /// The phrase that the counter value `attempts` stands for. Nothing
    /// where the value has no entropy buffer.
    pub fn checked_mnemonic_from_attempts(&self, attempts: &BigUint) -> (r: Option<Mnemonic>)
        ensures
            r is Some <==> value_of(*attempts) < counter_limit(),
            r matches Some(mnemonic) ==> {
                &&& words_of(mnemonic) == attempt_words(value_of(*attempts))
                &&& words_of(mnemonic).len() == WORD_COUNT
                &&& is_consistent(words_of(mnemonic))
            },
    {
        let largest = crate::counter::max_entropy();
        if at_most(attempts, &largest) {
            Some(self.mnemonic_from_attempts(attempts))
        } else {
            None
        }
    }

    /// Checks a phrase against the target: the index of the first of its 24
    /// receiving addresses that is the target, if there is one.
    pub fn check_mnemonic_address(&self, mnemonic: &Mnemonic) -> (r: Result<
        Option<u32>,
        CrackerError,
    >)
        ensures
            r == check_spec(words_of(*mnemonic), self.target()),
    {
        check_mnemonic(mnemonic, &self.target_address)
    }

    /// The state in which a search starts: nothing checked yet.
    pub fn start(&self) -> (state: SearchState)
        ensures
            state@ == (StateView { attempts: 0, phase: SearchPhase::Running }),
            self.admits(state@),
    {
        SearchState { attempts: zero(), phase: SearchPhase::Running }
    }

    /// One step of the search. A running search whose counter has passed
    /// the limit ends as exhausted. Otherwise the phrase of the counter is
    /// checked: on a match the search ends and the counter stays; on no
    /// match, and on a failed derivation, the counter advances by one. A
    /// search that is over stays as it is.
    pub fn step(&self, state: &mut SearchState) -> (event: StepEvent)
        ensures
            final(state)@ == self.next_state(old(state)@),
            event@ == self.event_of(old(state)@),
    {
        proof {
            use_type_invariant(self);
        }
        match state.phase {
            SearchPhase::Running => {},
            _ => {
                return StepEvent::Finished;
            },
        }
        if !at_most(&state.attempts, &self.max_entropy) {
            state.phase = SearchPhase::Exhausted;
            return StepEvent::Exhausted;
        }
        let mnemonic = self.mnemonic_from_attempts(&state.attempts);
        let error = match self.check_mnemonic_address(&mnemonic) {
            Ok(Some(index)) => {
                state.phase = SearchPhase::MatchFound;
                return StepEvent::Matched { index, mnemonic };
            },
            Ok(None) => None,
            Err(error) => Some(error),
        };
        add_small(&mut state.attempts, 1);
        let checkpoint = is_multiple_of(&state.attempts, self.chunk_size);
        StepEvent::Missed { error, checkpoint }
    }

    /// Runs the search from the first counter value to its end, and says how
    /// it ended.
    pub fn crack(&self) -> (outcome: SearchOutcome)
        ensures
            outcome@ == self.search_from(0),
    {
        let mut state = self.start();
        loop
            invariant
                self.admits(state@),
                state@.phase == SearchPhase::Running,
                self.search_from(0) == self.search_from(state@.attempts),
            decreases self.limit() + 1 - state@.attempts,
        {
            match self.step(&mut state) {
                StepEvent::Missed { .. } => {},
                StepEvent::Matched { index, mnemonic } => {
                    return SearchOutcome::Matched { attempts: state.attempts, index, mnemonic };
                },
                StepEvent::Exhausted => {
                    return SearchOutcome::Exhausted { total_attempts: state.attempts };
                },
                StepEvent::Finished => {
                    assert(false);
                    return SearchOutcome::Exhausted { total_attempts: state.attempts };
                },
            }
        }
    }
}

} // verus!
