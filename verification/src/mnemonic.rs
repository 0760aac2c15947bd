//! The seed phrase of an entropy buffer, made and read by the `bip39` crate.

use bdk_wallet::bip39::{Error, Mnemonic};
use vstd::prelude::*;

verus! {

#[verifier::external_type_specification]
#[verifier::external_body]
pub struct ExMnemonic(Mnemonic);

#[verifier::external_type_specification]
#[verifier::external_body]
pub struct ExMnemonicError(Error);

/// The number of words of the phrase of a 32-byte entropy buffer.
pub const WORD_COUNT: usize = 24;

/// The number of words in the word list.
pub const WORD_LIST_LEN: u16 = 2048;

/// The length of a seed, in bytes.
pub const SEED_LEN: usize = 64;

/// What a `Mnemonic` holds: the places of its words in the English word
/// list, in the order of the phrase.
pub uninterp spec fn words_of(mnemonic: Mnemonic) -> Seq<u16>;

/// The words that `Mnemonic::from_entropy` makes of an entropy buffer: the
/// bits of the buffer, followed by the first bits of its SHA-256 digest, cut
/// into groups of eleven.
pub uninterp spec fn bip39_words(entropy: Seq<u8>) -> Seq<u16>;

/// The entropy that `Mnemonic::to_entropy` reads back from the words of a
/// phrase.
pub uninterp spec fn bip39_entropy(words: Seq<u16>) -> Seq<u8>;

/// The 64-byte seed that `Mnemonic::to_seed` stretches out of the words of a
/// phrase and a passphrase.
pub uninterp spec fn bip39_seed(words: Seq<u16>, passphrase: Seq<char>) -> Seq<u8>;

/// The entropy lengths that the seed-phrase standard has a phrase for: 16,
/// 20, 24, 28 and 32 bytes.
pub open spec fn is_supported_entropy_len(len: nat) -> bool {
    16 <= len <= 32 && len % 4 == 0
}

/// The empty passphrase.
pub open spec fn no_passphrase() -> Seq<char> {
    Seq::empty()
}

/// Calls `Mnemonic::from_entropy`. Trusted: it fails exactly on an entropy
/// length that the standard has no phrase for; the phrase it returns is a
/// function of the entropy alone, has three words for every four bytes, each
/// a place in the list of 2048 words, and `Mnemonic::to_entropy` reads the
/// same entropy back from it.
#[verifier::external_body]
pub(crate) fn from_entropy(entropy: &[u8]) -> (r: Result<Mnemonic, Error>)
    ensures
        r is Ok <==> is_supported_entropy_len(entropy@.len()),
        r matches Ok(mnemonic) ==> {
            &&& words_of(mnemonic) == bip39_words(entropy@)
            &&& words_of(mnemonic).len() == entropy@.len() / 4 * 3
            &&& forall|i: int|
                0 <= i < words_of(mnemonic).len() ==> #[trigger] words_of(mnemonic)[i]
                    < WORD_LIST_LEN
            &&& bip39_entropy(words_of(mnemonic)) == entropy@
        },
{
    Mnemonic::from_entropy(entropy)
}

/// Calls `Mnemonic::to_entropy`. Trusted: the result is a function of the
/// words of the phrase alone.
#[verifier::external_body]
pub(crate) fn to_entropy(mnemonic: &Mnemonic) -> (r: Vec<u8>)
    ensures
        r@ == bip39_entropy(words_of(*mnemonic)),
{
    mnemonic.to_entropy()
}

/// Calls `Mnemonic::to_seed`. Trusted: the result is a function of the words
/// of the phrase and of the passphrase alone.
#[verifier::external_body]
pub(crate) fn to_seed(mnemonic: &Mnemonic, passphrase: &str) -> (r: [u8; 64])
    ensures
        r@ == bip39_seed(words_of(*mnemonic), passphrase@),
{
    mnemonic.to_seed(passphrase)
}

/// A phrase is consistent when it is the phrase of the entropy that it
/// carries: its last bits are the checksum of the bits before them.
pub open spec fn is_consistent(words: Seq<u16>) -> bool {
    bip39_words(bip39_entropy(words)) == words
}

/// The seed phrase of a 32-byte entropy buffer: 24 words.
pub fn mnemonic_of(entropy: &[u8; 32]) -> (mnemonic: Mnemonic)
    ensures
        words_of(mnemonic) == bip39_words(entropy@),
        words_of(mnemonic).len() == WORD_COUNT,
        forall|i: int|
            0 <= i < WORD_COUNT ==> #[trigger] words_of(mnemonic)[i] < WORD_LIST_LEN,
        bip39_entropy(words_of(mnemonic)) == entropy@,
        is_consistent(words_of(mnemonic)),
{
    match from_entropy(entropy.as_slice()) {
        Ok(mnemonic) => mnemonic,
        Err(_) => vstd::pervasive::unreached(),
    }
}

/// Reads back the entropy that a phrase carries. For a consistent phrase,
/// and so for every phrase that `mnemonic_of` returns, the phrase of the
/// result is the phrase again.
pub fn entropy_from(mnemonic: &Mnemonic) -> (entropy: Vec<u8>)
    ensures
        entropy@ == bip39_entropy(words_of(*mnemonic)),
        is_consistent(words_of(*mnemonic)) ==> bip39_words(entropy@) == words_of(*mnemonic),
{
    to_entropy(mnemonic)
}

/// The 64-byte seed of a phrase, with the empty passphrase.
pub fn seed_of(mnemonic: &Mnemonic) -> (seed: [u8; 64])
    ensures
        seed@ == bip39_seed(words_of(*mnemonic), no_passphrase()),
{
    let passphrase = "";
    proof {
        reveal_strlit("");
        assert(passphrase@ =~= no_passphrase());
    }
    to_seed(mnemonic, passphrase)
}

} // verus!
