//! Addresses, written and read by the `bitcoin` crate. An address travels
//! through the library as the text that the crate prints for it, which
//! carries its network and its kind.

use bdk_wallet::bitcoin::address::ParseError;
use bdk_wallet::bitcoin::{Address, CompressedPublicKey, Network};
use std::str::FromStr;
use vstd::prelude::*;

verus! {

#[verifier::external_type_specification]
#[verifier::external_body]
pub struct ExAddressError(ParseError);

/// The text of the address that `Address::from_str` reads from `text`, as the
/// crate prints it. Nothing where `text` is no address.
pub uninterp spec fn address_text(text: Seq<char>) -> Option<Seq<char>>;

/// The text of the address that `Address::require_network` lets pass for the
/// main network. Nothing where `text` is no address, or one of another
/// network.
pub uninterp spec fn mainnet_text(text: Seq<char>) -> Option<Seq<char>>;

/// The text of the single-key witness address (P2WPKH) of the main network
/// that `Address::p2wpkh` makes of a compressed public key. Nothing where
/// the bytes are no public key.
pub uninterp spec fn p2wpkh_text(public_key: Seq<u8>) -> Option<Seq<char>>;

/// Calls `Address::from_str`, and prints the address. Trusted: whether the
/// text parses, and the text that comes back, are functions of the input
/// alone.
#[verifier::external_body]
pub(crate) fn parse_address(text: &str) -> (r: Result<String, ParseError>)
    ensures
        match r {
            Ok(printed) => address_text(text@) == Some(printed@),
            Err(_) => address_text(text@) is None,
        },
{
    let address = Address::from_str(text)?;
    Ok(address.assume_checked().to_string())
}

/// Calls `Address::require_network` for the main network on the address that
/// `text` parses to, and prints the address. Trusted: whether the address
/// passes, and the text that comes back, are functions of the input alone.
#[verifier::external_body]
pub(crate) fn require_mainnet(text: &str) -> (r: Result<String, ParseError>)
    ensures
        match r {
            Ok(printed) => mainnet_text(text@) == Some(printed@),
            Err(_) => mainnet_text(text@) is None,
        },
{
    let address = Address::from_str(text)?.require_network(Network::Bitcoin)?;
    Ok(address.to_string())
}

/// Calls `Address::p2wpkh` for the main network on the public key that
/// `CompressedPublicKey::from_slice` reads, and prints the address. Trusted:
/// whether an address comes back, and its text, are functions of the bytes
/// alone.
#[verifier::external_body]
pub(crate) fn p2wpkh(public_key: &[u8; 33]) -> (r: Option<String>)
    ensures
        match r {
            Some(printed) => p2wpkh_text(public_key@) == Some(printed@),
            None => p2wpkh_text(public_key@) is None,
        },
{
    let key = CompressedPublicKey::from_slice(public_key).ok()?;
    Some(Address::p2wpkh(&key, Network::Bitcoin).to_string())
}

} // verus!
