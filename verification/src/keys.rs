//! Hierarchical keys, computed by the `bitcoin` crate. A key travels through
//! the library in the 78 bytes of its standard serialization, a public key
//! in the 33 bytes of its compressed form.

use bdk_wallet::bitcoin::bip32::{ChildNumber, Error, Xpriv, Xpub};
use bdk_wallet::bitcoin::key::Secp256k1;
use bdk_wallet::bitcoin::Network;
use vstd::prelude::*;

verus! {

#[verifier::external_type_specification]
#[verifier::external_body]
pub struct ExKeyError(Error);

/// The length of a serialized extended key, in bytes.
pub const KEY_LEN: usize = 78;

/// The length of a compressed public key, in bytes.
pub const PUBLIC_KEY_LEN: usize = 33;

/// The serialized master private key that `Xpriv::new_master` makes of a
/// seed for the main network, where it makes one.
pub uninterp spec fn master_key(seed: Seq<u8>) -> Option<Seq<u8>>;

/// The serialized private key that `Xpriv::derive_priv` reaches from the key
/// that `parent` serializes, along a path of child numbers in their 32-bit
/// form (a hardened one has its highest bit set). Nothing where `parent`
/// serializes no key or the derivation fails.
pub uninterp spec fn child_key(parent: Seq<u8>, path: Seq<u32>) -> Option<Seq<u8>>;

/// The compressed public key that `Xpub::from_priv` gives for the private key
/// that `key` serializes. Nothing where `key` serializes no key.
pub uninterp spec fn public_key(key: Seq<u8>) -> Option<Seq<u8>>;

/// Calls `Xpriv::new_master` for the main network, and serializes the key
/// with `Xpriv::encode`. Trusted: whether a key comes back, and which, is a
/// function of the seed alone.
#[verifier::external_body]
pub(crate) fn new_master(seed: &[u8]) -> (r: Result<[u8; 78], Error>)
    ensures
        match r {
            Ok(key) => master_key(seed@) == Some(key@),
            Err(_) => master_key(seed@) is None,
        },
{
    let key = Xpriv::new_master(Network::Bitcoin, seed)?;
    Ok(key.encode())
}

/// Calls `Xpriv::derive_priv` on the key that `Xpriv::decode` reads from
/// `parent`, along `path` turned into child numbers, and serializes the
/// result. Trusted: whether a key comes back, and which, is a function of
/// the parent and the path alone. The outside function aborts where an
/// intermediate digest is no valid scalar; its source calls that
/// statistically impossible, and no contract here can name those inputs.
#[verifier::external_body]
pub(crate) fn derive_priv(parent: &[u8; 78], path: &Vec<u32>) -> (r: Result<[u8; 78], Error>)
    ensures
        match r {
            Ok(key) => child_key(parent@, path@) == Some(key@),
            Err(_) => child_key(parent@, path@) is None,
        },
{
    let steps: Vec<ChildNumber> = path.iter().copied().map(ChildNumber::from).collect();
    let key = Xpriv::decode(parent)?.derive_priv(&Secp256k1::new(), &steps)?;
    Ok(key.encode())
}

/// Calls `Xpub::from_priv` on the key that `Xpriv::decode` reads from `key`,
/// and hands out the compressed public key. Trusted: whether a public key
/// comes back, and which, is a function of `key` alone.
#[verifier::external_body]
pub(crate) fn public_key_of(key: &[u8; 78]) -> (r: Option<[u8; 33]>)
    ensures
        match r {
            Some(public) => public_key(key@) == Some(public@),
            None => public_key(key@) is None,
        },
{
    let private = Xpriv::decode(key).ok()?;
    Some(Xpub::from_priv(&Secp256k1::new(), &private).to_pub().to_bytes())
}

} // verus!
