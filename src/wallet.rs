//! Wallet configuration, address derivation and request checks.
use vstd::prelude::*;
use crate::types::{Network, PrimaryOutput, WalletError};
use crate::sign::is_p2tr_script;
use crate::bitcoin_ops::{destination_script, destination_script_of, p2tr_address, p2tr_address_of};

verus! {

/// What a wallet operation needs to know: the network, and the name of the
/// key the signing service derives the wallet's keys from.
#[derive(Clone, Debug)]
pub struct WalletContext {
    pub network: Network,
    pub key_name: String,
}

/// The signing key used on `network`: the local development key on regtest,
/// the shared test key elsewhere.
pub open spec fn key_name_for(network: Network) -> Seq<char> {
    match network {
        Network::Regtest => "dfx_test_key"@,
        _ => "test_key_1"@,
    }
}

impl WalletContext {
    /// The context used on `network`.
    pub fn for_network(network: Network) -> (r: WalletContext)
        ensures
            r.network == network,
            r.key_name@ == key_name_for(network),
    {
        let key_name = match network {
            Network::Regtest => "dfx_test_key".to_owned(),
            Network::Main | Network::Test => "test_key_1".to_owned(),
        };
        proof {
            reveal_strlit("dfx_test_key");
            reveal_strlit("test_key_1");
        }
        WalletContext { network, key_name }
    }
}

/// A request to send bitcoin to an address.
pub struct SendRequest {
    pub destination_address: String,
    pub amount_in_satoshi: u64,
}

/// A request to send bitcoin from the caller's Taproot address.
pub struct SendBtcRequest {
    pub destination_address: String,
    pub amount_in_satoshi: u64,
}

/// A key-path-only Taproot address: its display form and its locking script.
pub struct TaprootAddress {
    pub address: String,
    pub script_pubkey: Vec<u8>,
}

/// `r` is what deriving the wallet address from `public_key` on `network`
/// gives.
pub open spec fn derives(network: Network, public_key: Seq<u8>, r: Result<TaprootAddress, WalletError>) -> bool {
    match p2tr_address_of(public_key, network) {
        Some((a, s)) => r matches Ok(t) && t.address@ == a && t.script_pubkey@ == s,
        None => r matches Err(e) && e == WalletError::KeyDerivation,
    }
}

/// The Taproot address, committing to no script path, of the public key
/// that the signing service returned for an owner. Fails when the bytes are
/// no valid public key.
pub fn derive_address(ctx: &WalletContext, public_key: &Vec<u8>) -> (r: Result<TaprootAddress, WalletError>)
    ensures
        derives(ctx.network, public_key@, r),
        r matches Ok(t) ==> is_p2tr_script(t.script_pubkey@),
{
    match p2tr_address(public_key, ctx.network) {
        Some((address, script_pubkey)) => Ok(TaprootAddress { address, script_pubkey }),
        None => Err(WalletError::KeyDerivation),
    }
}

/// Addresses are deterministic: any two derivations from the same network
/// and public key give the same address and locking script, or both fail.
pub proof fn lemma_address_determinism(
    network: Network,
    public_key: Seq<u8>,
    first: Result<TaprootAddress, WalletError>,
    second: Result<TaprootAddress, WalletError>,
)
    requires
        derives(network, public_key, first),
        derives(network, public_key, second),
    ensures
        first is Ok <==> second is Ok,
        first matches Ok(a) ==> second matches Ok(b) && a.address@ == b.address@
            && a.script_pubkey@ == b.script_pubkey@,
{
}

/// `r` is the outcome of checking a request to send `amount` to `address`
/// on `network`.
pub open spec fn validates(network: Network, address: Seq<char>, amount: u64, r: Result<PrimaryOutput, WalletError>) -> bool {
    if amount == 0 {
        r matches Err(e) && e == WalletError::ZeroAmount
    } else {
        match destination_script_of(address, network) {
            Ok(s) => r matches Ok(PrimaryOutput::Address(script, a)) && script@ == s && a == amount,
            Err(e) => r matches Err(f) && f == e,
        }
    }
}

/// Checks a send request before anything is fetched: the amount must be
/// positive and the destination an address of the context's network. On
/// success, the output that pays the destination.
pub fn validate_send_request(ctx: &WalletContext, request: &SendBtcRequest) -> (r: Result<PrimaryOutput, WalletError>)
    ensures
        validates(ctx.network, request.destination_address@, request.amount_in_satoshi, r),
        r matches Err(e) ==> e == WalletError::ZeroAmount || e == WalletError::MalformedAddress
            || e == WalletError::WrongNetwork,
{
    if request.amount_in_satoshi == 0 {
        return Err(WalletError::ZeroAmount);
    }
    match destination_script(request.destination_address.as_str(), ctx.network) {
        Ok(script) => Ok(PrimaryOutput::Address(script, request.amount_in_satoshi)),
        Err(e) => Err(e),
    }
}

} // verus!
