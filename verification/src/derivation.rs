//! From a seed phrase to its receiving addresses: the seed, the master key,
//! the child key at m/84'/0'/0'/0/i for each index i, its public key, and
//! the address of that key.

use crate::address::{p2wpkh, p2wpkh_text};
use crate::error::CrackerError;
use crate::keys::{child_key, derive_priv, master_key, new_master, public_key, public_key_of};
use crate::mnemonic::{bip39_seed, no_passphrase, seed_of, words_of};
use bdk_wallet::bip39::Mnemonic;
use vstd::prelude::*;

verus! {

/// The purpose segment of the path: native witness addresses of one key.
pub const PURPOSE: u32 = 84;

/// The coin segment of the path: the main network.
pub const COIN_TYPE: u32 = 0;

/// The account segment of the path.
pub const ACCOUNT: u32 = 0;

/// The branch segment of the path: receiving addresses.
pub const BRANCH: u32 = 0;

/// The number of addresses derived from one phrase.
pub const ADDRESS_COUNT: u32 = 24;

/// The bit that marks a hardened child number; an index stays below it.
pub const HARDENED_BIT: u32 = 0x8000_0000;

/// The derivation path of the receiving address number `index`, as child
/// numbers: three hardened segments, the branch, and the index.
pub open spec fn receive_path_spec(index: u32) -> Seq<u32> {
    seq![
        (PURPOSE + HARDENED_BIT) as u32,
        (COIN_TYPE + HARDENED_BIT) as u32,
        (ACCOUNT + HARDENED_BIT) as u32,
        BRANCH,
        index,
    ]
}

/// The master key of a phrase, with the empty passphrase.
pub open spec fn master_of(words: Seq<u16>) -> Option<Seq<u8>> {
    master_key(bip39_seed(words, no_passphrase()))
}

/// The text of the receiving address number `index` under a master key.
/// Nothing where a step of the derivation fails.
pub open spec fn address_at(master: Seq<u8>, index: u32) -> Option<Seq<char>> {
    match child_key(master, receive_path_spec(index)) {
        None => None,
        Some(child) => match public_key(child) {
            None => None,
            Some(public) => p2wpkh_text(public),
        },
    }
}

/// What a walk over the addresses from `index` on finds: the first index
/// whose address is the target, or the failure of the first derivation
/// that fails before one is found.
pub open spec fn scan_from(master: Seq<u8>, target: Seq<char>, index: u32) -> Result<
    Option<u32>,
    CrackerError,
>
    decreases ADDRESS_COUNT - index,
{
    if index >= ADDRESS_COUNT {
        Ok(None)
    } else {
        match address_at(master, index) {
            None => Err(CrackerError::ChildKeyDerivation),
            Some(address) => if address == target {
                Ok(Some(index))
            } else {
                scan_from(master, target, (index + 1) as u32)
            },
        }
    }
}

/// What the check of one phrase against a target address gives.
pub open spec fn check_spec(words: Seq<u16>, target: Seq<char>) -> Result<
    Option<u32>,
    CrackerError,
> {
    match master_of(words) {
        None => Err(CrackerError::MasterKeyDerivation),
        Some(master) => scan_from(master, target, 0),
    }
}

/// Whether a phrase owns the target: one of its addresses is the target, and
/// every address before that one could be derived.
pub open spec fn is_match(words: Seq<u16>, target: Seq<char>) -> bool {
    check_spec(words, target) matches Ok(Some(_))
}

/// Whether `addresses` holds the receiving addresses of a phrase: 24 texts,
/// the one at each place the address of that index.
pub open spec fn is_address_list(words: Seq<u16>, addresses: Seq<String>) -> bool {
    &&& addresses.len() == ADDRESS_COUNT
    &&& master_of(words) is Some
    &&& forall|i: u32|
        i < ADDRESS_COUNT ==> (#[trigger] address_at(master_of(words)->Some_0, i)) == Some(
            addresses[i as int]@,
        )
}

/// The addresses of a phrase are the same whenever they are derived: two
/// address lists of one phrase agree at every place.
pub proof fn lemma_addresses_are_reproducible(
    words: Seq<u16>,
    first: Seq<String>,
    second: Seq<String>,
)
    requires
        is_address_list(words, first),
        is_address_list(words, second),
    ensures
        first.len() == second.len(),
        forall|i: int| 0 <= i < first.len() ==> first[i]@ == second[i]@,
{
    let master = master_of(words)->Some_0;
    assert forall|i: int| 0 <= i < first.len() implies first[i]@ == second[i]@ by {
        let index = i as u32;
        assert(address_at(master, index) == Some(first[index as int]@));
        assert(address_at(master, index) == Some(second[index as int]@));
    }
}

/// The walk, said without the walking: a match at `index` means that the
/// address there is the target and that each address before it was derived
/// and is another; no match means that all 24 are derived and are others; a
/// failure means that some address cannot be derived and none before it is
/// the target.
pub proof fn lemma_scan_meaning(master: Seq<u8>, target: Seq<char>, start: u32)
    requires
        start <= ADDRESS_COUNT,
    ensures
        match scan_from(master, target, start) {
            Ok(Some(index)) => {
                &&& start <= index < ADDRESS_COUNT
                &&& address_at(master, index) == Some(target)
                &&& forall|j: u32|
                    start <= j < index ==> (#[trigger] address_at(master, j)) is Some
                        && address_at(master, j) != Some(target)
            },
            Ok(None) => forall|j: u32|
                start <= j < ADDRESS_COUNT ==> (#[trigger] address_at(master, j)) is Some
                    && address_at(master, j) != Some(target),
            Err(error) => {
                &&& error == CrackerError::ChildKeyDerivation
                &&& exists|index: u32|
                    {
                        &&& start <= index < ADDRESS_COUNT
                        &&& (#[trigger] address_at(master, index)) is None
                        &&& forall|j: u32|
                            start <= j < index ==> (#[trigger] address_at(master, j)) is Some
                                && address_at(master, j) != Some(target)
                    }
            },
        },
    decreases ADDRESS_COUNT - start,
{
    if start < ADDRESS_COUNT {
        match address_at(master, start) {
            None => {},
            Some(address) => {
                if address != target {
                    let next = (start + 1) as u32;
                    lemma_scan_meaning(master, target, next);
                    match scan_from(master, target, next) {
                        Ok(_) => {},
                        Err(_) => {
                            let index = choose|index: u32|
                                {
                                    &&& next <= index < ADDRESS_COUNT
                                    &&& (#[trigger] address_at(master, index)) is None
                                    &&& forall|j: u32|
                                        next <= j < index ==> (#[trigger] address_at(master, j))
                                            is Some && address_at(master, j) != Some(target)
                                };
                            assert(start <= index < ADDRESS_COUNT);
                            assert(address_at(master, index) is None);
                        },
                    }
                }
            },
        }
    }
}

/// The child number of a hardened segment. Fails on an index that does not
/// fit in 31 bits.
pub fn hardened(index: u32) -> (r: Result<u32, CrackerError>)
    ensures
        index < HARDENED_BIT ==> r == Ok::<u32, CrackerError>((index + HARDENED_BIT) as u32),
        index >= HARDENED_BIT ==> r == Err::<u32, CrackerError>(
            CrackerError::InvalidDerivationPath,
        ),
{
    if index < HARDENED_BIT {
        Ok(index + HARDENED_BIT)
    } else {
        Err(CrackerError::InvalidDerivationPath)
    }
}

/// The derivation path m/84'/0'/0'/0/index. Fails on an index that does not
/// fit in 31 bits.
pub fn receive_path(index: u32) -> (r: Result<Vec<u32>, CrackerError>)
    ensures
        index < HARDENED_BIT ==> r is Ok && r->Ok_0@ == receive_path_spec(index),
        index >= HARDENED_BIT ==> r == Err::<Vec<u32>, CrackerError>(
            CrackerError::InvalidDerivationPath,
        ),
{
    if index >= HARDENED_BIT {
        return Err(CrackerError::InvalidDerivationPath);
    }
    let purpose = hardened(PURPOSE)?;
    let coin_type = hardened(COIN_TYPE)?;
    let account = hardened(ACCOUNT)?;
    let mut path: Vec<u32> = Vec::new();
    path.push(purpose);
    path.push(coin_type);
    path.push(account);
    path.push(BRANCH);
    path.push(index);
    assert(path@ =~= receive_path_spec(index));
    Ok(path)
}

/// The serialized master key of a phrase, with the empty passphrase.
pub fn master_key_of(mnemonic: &Mnemonic) -> (r: Result<[u8; 78], CrackerError>)
    ensures
        match r {
            Ok(master) => master_of(words_of(*mnemonic)) == Some(master@),
            Err(error) => error == CrackerError::MasterKeyDerivation && master_of(
                words_of(*mnemonic),
            ) is None,
        },
{
    let seed = seed_of(mnemonic);
    match new_master(seed.as_slice()) {
        Ok(master) => Ok(master),
        Err(_) => Err(CrackerError::MasterKeyDerivation),
    }
}

/// The text of the receiving address number `index` under a master key.
pub fn derive_address(master: &[u8; 78], index: u32) -> (r: Result<String, CrackerError>)
    ensures
        match r {
            Ok(address) => index < HARDENED_BIT && address_at(master@, index) == Some(address@),
            Err(error) => if index >= HARDENED_BIT {
                error == CrackerError::InvalidDerivationPath
            } else {
                error == CrackerError::ChildKeyDerivation && address_at(master@, index) is None
            },
        },
{
    let path = receive_path(index)?;
    let child = match derive_priv(master, &path) {
        Ok(child) => child,
        Err(_) => {
            return Err(CrackerError::ChildKeyDerivation);
        },
    };
    let public = match public_key_of(&child) {
        Some(public) => public,
        None => {
            return Err(CrackerError::ChildKeyDerivation);
        },
    };
    match p2wpkh(&public) {
        Some(address) => Ok(address),
        None => Err(CrackerError::ChildKeyDerivation),
    }
}

/// Walks over the 24 receiving addresses under a master key, in the order of
/// their indices, and stops at the first that is the target.
pub fn first_match(master: &[u8; 78], target: &String) -> (r: Result<Option<u32>, CrackerError>)
    ensures
        r == scan_from(master@, target@, 0),
{
    let mut index: u32 = 0;
    while index < ADDRESS_COUNT
        invariant
            index <= ADDRESS_COUNT,
            scan_from(master@, target@, 0) == scan_from(master@, target@, index),
        decreases ADDRESS_COUNT - index,
    {
        match derive_address(master, index) {
            Err(error) => {
                return Err(error);
            },
            Ok(address) => {
                if address == *target {
                    return Ok(Some(index));
                }
            },
        }
        index += 1;
    }
    Ok(None)
}

/// Checks one phrase against a target address: the index of the first of
/// its 24 receiving addresses that is the target, if there is one.
pub fn check_mnemonic(mnemonic: &Mnemonic, target: &String) -> (r: Result<
    Option<u32>,
    CrackerError,
>)
    ensures
        r == check_spec(words_of(*mnemonic), target@),
{
    let master = master_key_of(mnemonic)?;
    first_match(&master, target)
}

/// The 24 receiving addresses of a phrase, in the order of their indices.
pub fn derive_addresses(mnemonic: &Mnemonic) -> (r: Result<Vec<String>, CrackerError>)
    ensures
        match r {
            Ok(addresses) => is_address_list(words_of(*mnemonic), addresses@),
            Err(error) => if master_of(words_of(*mnemonic)) is None {
                error == CrackerError::MasterKeyDerivation
            } else {
                &&& error == CrackerError::ChildKeyDerivation
                &&& exists|i: u32|
                    i < ADDRESS_COUNT && (#[trigger] address_at(
                        master_of(words_of(*mnemonic))->Some_0,
                        i,
                    )) is None
            },
        },
{
    let master = master_key_of(mnemonic)?;
    let mut addresses: Vec<String> = Vec::new();
    let mut index: u32 = 0;
    while index < ADDRESS_COUNT
        invariant
            index <= ADDRESS_COUNT,
            addresses@.len() == index,
            master_of(words_of(*mnemonic)) == Some(master@),
            forall|i: u32|
                i < index ==> (#[trigger] address_at(master@, i)) == Some(addresses@[i as int]@),
        decreases ADDRESS_COUNT - index,
    {
        match derive_address(&master, index) {
            Ok(address) => {
                addresses.push(address);
            },
            Err(error) => {
                assert(address_at(master_of(words_of(*mnemonic))->Some_0, index) is None);
                return Err(error);
            },
        }
        index += 1;
    }
    Ok(addresses)
}

} // verus!
