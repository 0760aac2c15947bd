use btc_cracker::cracker::{
    BtcWalletCracker, SearchOutcome, SearchPhase, StepEvent, DEFAULT_CHUNK_SIZE,
};
use btc_cracker::entropy::entropy_of;
use btc_cracker::error::CrackerError;
use btc_cracker::mnemonic::mnemonic_of;
use num_bigint::BigUint;

const RICHEST: &str = "34xp4vRoCGJym3xR7yCVPFHoCNxv4Twseo";
const FIRST_OF_ZERO: &str = "bc1qzmtrqsfuaf6l6kkcsseumq26ukaphfj9skkug6";
const LAST_OF_ZERO: &str = "bc1qmrcnvkw834jrh9aglqscdju34a25v8t0ht3lsv";
const SIXTH_OF_TWO: &str = "bc1q5j5rjnpu5g24hhkzsj7l4gnw6uu5a98jpyrq8n";
const EIGHTH_OF_THREE: &str = "bc1q0mu0aza6dyept5ymzrmhrgm9p58khl45yw7gz4";
const PHRASE_OF_TWO: &str = "abandon abandon abandon abandon abandon abandon abandon abandon \
abandon abandon abandon abandon abandon abandon abandon abandon abandon abandon abandon abandon \
abandon abandon abandon false";
const PHRASE_OF_THREE: &str = "abandon abandon abandon abandon abandon abandon abandon abandon \
abandon abandon abandon abandon abandon abandon abandon abandon abandon abandon abandon abandon \
abandon abandon abandon kite";

fn search(target: &str, last: u32, chunk_size: u64) -> BtcWalletCracker {
    BtcWalletCracker::new(target)
        .unwrap()
        .with_max_entropy(BigUint::from(last))
        .unwrap()
        .with_chunk_size(chunk_size)
        .unwrap()
}

#[test]
fn new_takes_an_address_of_the_main_network() {
    let cracker = BtcWalletCracker::new(RICHEST).unwrap();
    assert_eq!(cracker.target_address(), RICHEST);
    let cracker = BtcWalletCracker::new(FIRST_OF_ZERO).unwrap();
    assert_eq!(cracker.target_address(), FIRST_OF_ZERO);
    let cracker = BtcWalletCracker::new("1BvBMSEYstWetqTFn5Au4m4GFg7xJaNVN2").unwrap();
    assert_eq!(cracker.target_address(), "1BvBMSEYstWetqTFn5Au4m4GFg7xJaNVN2");
}

#[test]
fn new_keeps_the_address_as_it_is_printed() {
    let cracker = BtcWalletCracker::new("BC1QW508D6QEJXTDG4Y5R3ZARVARY0C5XW7KV8F3T4").unwrap();
    assert_eq!(
        cracker.target_address(),
        "bc1qw508d6qejxtdg4y5r3zarvary0c5xw7kv8f3t4"
    );
}

#[test]
fn new_starts_with_the_whole_range_and_the_default_chunk() {
    let cracker = BtcWalletCracker::new(RICHEST).unwrap();
    let largest = (BigUint::from(1u32) << 256usize) - BigUint::from(1u32);
    assert_eq!(cracker.max_entropy(), &largest);
    assert_eq!(cracker.chunk_size(), 100);
    assert_eq!(DEFAULT_CHUNK_SIZE, 100);
}

#[test]
fn new_rejects_a_malformed_address() {
    for text in ["", "nonsense", "34xp4vRoCGJym3xR7yCVPFHoCNxv4Twse", "bc1qw508d6qejxtdg4y5r3zarvary0c5xw7kv8f3t5"] {
        let error = BtcWalletCracker::new(text).unwrap_err();
        assert_eq!(error, CrackerError::UnparsableAddress);
        assert_eq!(error.message(), "Unparsable Address");
    }
}

#[test]
fn new_rejects_an_address_of_another_network() {
    for text in ["tb1qw508d6qejxtdg4y5r3zarvary0c5xw7kxpjzsx", "mipcBbFg9gMiCh81Kj8tqqdgoZub1ZJRfn", "2N83imGV3gPwBzKJQvWJ7cRUY2SpUyU6A5e"] {
        let error = BtcWalletCracker::new(text).unwrap_err();
        assert_eq!(error, CrackerError::WrongNetwork);
        assert_eq!(error.message(), "Wrong Network");
    }
}

#[test]
fn error_messages_are_told_apart() {
    assert_eq!(
        CrackerError::MasterKeyDerivation.message(),
        "Failed to create master Xpriv"
    );
    assert_eq!(CrackerError::InvalidDerivationPath.message(), "Invalid path");
    assert_eq!(
        CrackerError::ChildKeyDerivation.message(),
        "Failed deriving child xpriv"
    );
}

#[test]
fn with_max_entropy_takes_a_value_of_256_bits() {
    let largest = (BigUint::from(1u32) << 256usize) - BigUint::from(1u32);
    let cracker = BtcWalletCracker::new(RICHEST).unwrap();
    let cracker = cracker.with_max_entropy(BigUint::from(9u32)).unwrap();
    assert_eq!(cracker.max_entropy(), &BigUint::from(9u32));
    assert_eq!(cracker.target_address(), RICHEST);
    assert_eq!(cracker.chunk_size(), 100);
    let cracker = cracker.with_max_entropy(largest.clone()).unwrap();
    assert_eq!(cracker.max_entropy(), &largest);
}

#[test]
fn with_max_entropy_rejects_a_value_of_257_bits() {
    let cracker = BtcWalletCracker::new(RICHEST).unwrap();
    assert!(cracker.with_max_entropy(BigUint::from(1u32) << 256usize).is_none());
}

#[test]
fn with_chunk_size_takes_any_size_but_zero() {
    let cracker = BtcWalletCracker::new(RICHEST).unwrap().with_chunk_size(7).unwrap();
    assert_eq!(cracker.chunk_size(), 7);
    assert_eq!(cracker.target_address(), RICHEST);
    assert!(cracker.with_chunk_size(0).is_none());
}

#[test]
fn mnemonic_from_attempts_is_the_phrase_of_the_counter() {
    let cracker = BtcWalletCracker::new(RICHEST).unwrap();
    assert_eq!(
        cracker.mnemonic_from_attempts(&BigUint::from(2u32)).to_string(),
        PHRASE_OF_TWO
    );
    assert_eq!(
        cracker.mnemonic_from_attempts(&BigUint::from(3u32)).to_string(),
        PHRASE_OF_THREE
    );
    let largest = (BigUint::from(1u32) << 256usize) - BigUint::from(1u32);
    assert_eq!(
        cracker.mnemonic_from_attempts(&largest),
        mnemonic_of(&[0xFFu8; 32])
    );
}

#[test]
fn mnemonic_from_attempts_is_repeatable() {
    let cracker = BtcWalletCracker::new(RICHEST).unwrap();
    let first = cracker.mnemonic_from_attempts(&BigUint::from(41u32));
    let second = cracker.mnemonic_from_attempts(&BigUint::from(41u32));
    assert_eq!(first, second);
    assert_eq!(first, mnemonic_of(&entropy_of(&BigUint::from(41u32))));
}

#[test]
fn checked_mnemonic_from_attempts_stops_at_256_bits() {
    let cracker = BtcWalletCracker::new(RICHEST).unwrap();
    let largest = (BigUint::from(1u32) << 256usize) - BigUint::from(1u32);
    assert_eq!(
        cracker.checked_mnemonic_from_attempts(&largest),
        Some(mnemonic_of(&[0xFFu8; 32]))
    );
    assert_eq!(
        cracker.checked_mnemonic_from_attempts(&BigUint::from(0u32)),
        Some(mnemonic_of(&[0u8; 32]))
    );
    assert_eq!(
        cracker.checked_mnemonic_from_attempts(&(largest + BigUint::from(1u32))),
        None
    );
}

#[test]
fn check_mnemonic_address_gives_the_index_of_the_match() {
    let cracker = BtcWalletCracker::new(LAST_OF_ZERO).unwrap();
    let owner = cracker.mnemonic_from_attempts(&BigUint::from(0u32));
    assert_eq!(cracker.check_mnemonic_address(&owner), Ok(Some(23)));
    let other = cracker.mnemonic_from_attempts(&BigUint::from(1u32));
    assert_eq!(cracker.check_mnemonic_address(&other), Ok(None));
}

#[test]
fn check_mnemonic_address_never_matches_an_address_of_another_kind() {
    let cracker = BtcWalletCracker::new(RICHEST).unwrap();
    let mnemonic = cracker.mnemonic_from_attempts(&BigUint::from(0u32));
    assert_eq!(cracker.check_mnemonic_address(&mnemonic), Ok(None));
}

#[test]
fn crack_reports_the_first_match() {
    let cracker = search(EIGHTH_OF_THREE, 6, 100);
    match cracker.crack() {
        SearchOutcome::Matched { attempts, index, mnemonic } => {
            assert_eq!(attempts, BigUint::from(3u32));
            assert_eq!(index, 7);
            assert_eq!(mnemonic.to_string(), PHRASE_OF_THREE);
            assert_eq!(mnemonic, mnemonic_of(&entropy_of(&BigUint::from(3u32))));
        }
        other => panic!("no match: {:?}", other),
    }
}

#[test]
fn crack_matches_at_the_first_counter_value() {
    let cracker = search(FIRST_OF_ZERO, 0, 100);
    assert_eq!(
        cracker.crack(),
        SearchOutcome::Matched {
            attempts: BigUint::from(0u32),
            index: 0,
            mnemonic: mnemonic_of(&[0u8; 32]),
        }
    );
}

#[test]
fn crack_matches_at_the_limit() {
    let cracker = search(SIXTH_OF_TWO, 2, 100);
    match cracker.crack() {
        SearchOutcome::Matched { attempts, index, mnemonic } => {
            assert_eq!(attempts, BigUint::from(2u32));
            assert_eq!(index, 5);
            assert_eq!(mnemonic.to_string(), PHRASE_OF_TWO);
        }
        other => panic!("no match: {:?}", other),
    }
}

#[test]
fn crack_counts_every_attempt_when_nothing_matches() {
    let cracker = search(RICHEST, 4, 100);
    assert_eq!(
        cracker.crack(),
        SearchOutcome::Exhausted { total_attempts: BigUint::from(5u32) }
    );
}

#[test]
fn crack_stops_before_a_match_past_the_limit() {
    let cracker = search(EIGHTH_OF_THREE, 2, 100);
    assert_eq!(
        cracker.crack(),
        SearchOutcome::Exhausted { total_attempts: BigUint::from(3u32) }
    );
}

#[test]
fn crack_of_one_counter_value_makes_one_attempt() {
    let cracker = search(RICHEST, 0, 100);
    assert_eq!(
        cracker.crack(),
        SearchOutcome::Exhausted { total_attempts: BigUint::from(1u32) }
    );
}

#[test]
fn start_is_a_running_search_at_zero() {
    let cracker = search(RICHEST, 3, 2);
    let state = cracker.start();
    assert_eq!(state.attempts(), &BigUint::from(0u32));
    assert_eq!(state.phase(), SearchPhase::Running);
    assert!(!state.is_finished());
}

#[test]
fn step_reports_a_checkpoint_once_every_chunk() {
    let cracker = search(RICHEST, 6, 3);
    let mut state = cracker.start();
    let mut checkpoints = Vec::new();
    for attempt in 1..=7u32 {
        match cracker.step(&mut state) {
            StepEvent::Missed { error, checkpoint } => {
                assert_eq!(error, None);
                assert_eq!(state.attempts(), &BigUint::from(attempt));
                assert_eq!(state.phase(), SearchPhase::Running);
                if checkpoint {
                    checkpoints.push(attempt);
                }
            }
            other => panic!("attempt {} gave {:?}", attempt, other),
        }
    }
    assert_eq!(checkpoints, vec![3, 6]);
    assert_eq!(cracker.step(&mut state), StepEvent::Exhausted);
    assert_eq!(state.phase(), SearchPhase::Exhausted);
    assert_eq!(state.attempts(), &BigUint::from(7u32));
    assert!(state.is_finished());
}

#[test]
fn step_with_a_chunk_of_one_reports_every_attempt() {
    let cracker = search(RICHEST, 2, 1);
    let mut state = cracker.start();
    for _ in 0..3 {
        assert_eq!(
            cracker.step(&mut state),
            StepEvent::Missed { error: None, checkpoint: true }
        );
    }
    assert_eq!(cracker.step(&mut state), StepEvent::Exhausted);
}

#[test]
fn step_ends_the_search_on_a_match() {
    let cracker = search(SIXTH_OF_TWO, 9, 2);
    let mut state = cracker.start();
    assert_eq!(
        cracker.step(&mut state),
        StepEvent::Missed { error: None, checkpoint: false }
    );
    assert_eq!(
        cracker.step(&mut state),
        StepEvent::Missed { error: None, checkpoint: true }
    );
    match cracker.step(&mut state) {
        StepEvent::Matched { index, mnemonic } => {
            assert_eq!(index, 5);
            assert_eq!(mnemonic.to_string(), PHRASE_OF_TWO);
        }
        other => panic!("no match: {:?}", other),
    }
    assert_eq!(state.phase(), SearchPhase::MatchFound);
    assert_eq!(state.attempts(), &BigUint::from(2u32));
    assert!(state.is_finished());
}

#[test]
fn step_does_nothing_once_the_search_is_over() {
    let cracker = search(FIRST_OF_ZERO, 9, 2);
    let mut state = cracker.start();
    assert!(matches!(cracker.step(&mut state), StepEvent::Matched { index: 0, .. }));
    for _ in 0..3 {
        assert_eq!(cracker.step(&mut state), StepEvent::Finished);
        assert_eq!(state.phase(), SearchPhase::MatchFound);
        assert_eq!(state.attempts(), &BigUint::from(0u32));
    }
    let cracker = search(RICHEST, 0, 2);
    let mut state = cracker.start();
    assert!(matches!(cracker.step(&mut state), StepEvent::Missed { .. }));
    assert_eq!(cracker.step(&mut state), StepEvent::Exhausted);
    for _ in 0..3 {
        assert_eq!(cracker.step(&mut state), StepEvent::Finished);
        assert_eq!(state.phase(), SearchPhase::Exhausted);
        assert_eq!(state.attempts(), &BigUint::from(1u32));
    }
}

#[test]
fn steps_and_crack_end_alike() {
    let cracker = search(EIGHTH_OF_THREE, 5, 2);
    let mut state = cracker.start();
    let mut steps = 0;
    let event = loop {
        let event = cracker.step(&mut state);
        if state.is_finished() {
            break event;
        }
        steps += 1;
    };
    assert_eq!(steps, 3);
    match (event, cracker.crack()) {
        (
            StepEvent::Matched { index, mnemonic },
            SearchOutcome::Matched { attempts, index: found, mnemonic: phrase },
        ) => {
            assert_eq!(index, found);
            assert_eq!(mnemonic, phrase);
            assert_eq!(&attempts, state.attempts());
        }
        other => panic!("the two runs differ: {:?}", other),
    }
}
