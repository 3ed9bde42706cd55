//! Calls into the `bitcoin` crate: sizes, signature hashes, addresses and
//! encodings, each named by what it computes.
use vstd::prelude::*;
use bitcoin::absolute::LockTime;
use bitcoin::hashes;
use bitcoin::Transaction as Tx;
use bitcoin::key::Secp256k1;
use bitcoin::script::PushBytes;
use bitcoin::sighash::{Prevouts, SighashCache, TapSighashType};
use bitcoin::transaction::Version;
use bitcoin::{Address, Amount, OutPoint, PublicKey, ScriptBuf, Sequence, TxIn, TxOut, Txid, Witness, XOnlyPublicKey};
use std::str::FromStr;
use crate::sign::is_p2tr_script;
use crate::types::{outputs_view, without_witnesses, Network, OutputView, Transaction, TransactionView, TxOutput, WalletError};

verus! {

/// The opcode and length bytes that push `n` bytes of data: the length
/// itself below `OP_PUSHDATA1`, else `OP_PUSHDATA1`, `OP_PUSHDATA2` or
/// `OP_PUSHDATA4` followed by the length, little-endian.
pub open spec fn push_prefix(n: nat) -> Seq<u8> {
    if n < 0x4c {
        seq![n as u8]
    } else if n < 0x100 {
        seq![0x4cu8, n as u8]
    } else if n < 0x10000 {
        seq![0x4du8, (n % 0x100) as u8, (n / 0x100) as u8]
    } else {
        seq![0x4eu8, (n % 0x100) as u8, ((n / 0x100) % 0x100) as u8, ((n / 0x10000) % 0x100) as u8, (n / 0x1000000) as u8]
    }
}

/// Locking script of an OP_RETURN output that carries `data` in one push:
/// `OP_RETURN`, the push prefix, the data.
pub open spec fn op_return_script_of(data: Seq<u8>) -> Seq<u8> {
    seq![0x6au8] + push_prefix(data.len()) + data
}

/// Virtual size (BIP-141 weight over four, rounded up) of a transaction.
pub uninterp spec fn vsize_of(tx: TransactionView) -> u64;

/// BIP-341 key-path signature hash of input `index` of `tx` (given with
/// empty witnesses), committing to all `prevouts`, with the default sighash
/// type.
pub uninterp spec fn key_spend_sighash_of(tx: TransactionView, prevouts: Seq<OutputView>, index: int) -> Seq<u8>;

/// The key-path-only Taproot address of a public key on `network`, as its
/// display string and its locking script; `None` when the bytes are no key.
pub uninterp spec fn p2tr_address_of(public_key: Seq<u8>, network: Network) -> Option<(Seq<char>, Seq<u8>)>;

/// The locking script of the address written as `address`, once it is
/// checked against `network`, or why it was refused.
pub uninterp spec fn destination_script_of(address: Seq<char>, network: Network) -> Result<Seq<u8>, WalletError>;

/// Consensus serialization of a transaction, witnesses included.
pub uninterp spec fn consensus_bytes_of(tx: TransactionView) -> Seq<u8>;

/// Transaction id of a transaction, in its usual hex display form.
pub uninterp spec fn txid_text_of(tx: TransactionView) -> Seq<char>;

/// Relies on `bitcoin::ScriptBuf::new_op_return`: `OP_RETURN`, then the
/// data pushed with the shortest push opcode for its length. A slice of at
/// most `u32::MAX` bytes always converts to `PushBytes`.
#[verifier::external_body]
pub(crate) fn op_return_script(data: &Vec<u8>) -> (r: Vec<u8>)
    requires
        data@.len() <= u32::MAX,
    ensures
        r@ == op_return_script_of(data@),
{
    let push: &PushBytes = data.as_slice().try_into().unwrap();
    ScriptBuf::new_op_return(push).into_bytes()
}

/// Relies on `bitcoin::Transaction::vsize` on the version-2, lock-time-zero
/// transaction that `tx` describes.
#[verifier::external_body]
pub(crate) fn tx_vsize(tx: &Transaction) -> (r: u64)
    ensures
        r == vsize_of(tx@),
{
    let input = tx.inputs.iter().map(|i| TxIn { previous_output: OutPoint::new(<Txid as bitcoin::hashes::Hash>::from_byte_array(i.txid), i.vout),
        script_sig: ScriptBuf::new(), sequence: Sequence(i.sequence), witness: Witness::from_slice(&i.witness) });
    let output = tx.outputs.iter().map(|o| TxOut { value: Amount::from_sat(o.value), script_pubkey: ScriptBuf::from_bytes(o.script_pubkey.clone()) });
    let t = bitcoin::Transaction { version: Version::TWO, lock_time: LockTime::ZERO, input: input.collect(), output: output.collect() };
    t.vsize() as u64
}

/// Relies on `bitcoin::consensus::serialize` of the version-2, lock-time-zero
/// transaction that `tx` describes.
#[verifier::external_body]
pub(crate) fn consensus_bytes(tx: &Transaction) -> (r: Vec<u8>)
    ensures
        r@ == consensus_bytes_of(tx@),
{
    let input = tx.inputs.iter().map(|i| TxIn { previous_output: OutPoint::new(<Txid as bitcoin::hashes::Hash>::from_byte_array(i.txid), i.vout),
        script_sig: ScriptBuf::new(), sequence: Sequence(i.sequence), witness: Witness::from_slice(&i.witness) });
    let output = tx.outputs.iter().map(|o| TxOut { value: Amount::from_sat(o.value), script_pubkey: ScriptBuf::from_bytes(o.script_pubkey.clone()) });
    let t = bitcoin::Transaction { version: Version::TWO, lock_time: LockTime::ZERO, input: input.collect(), output: output.collect() };
    bitcoin::consensus::serialize(&t)
}

/// Relies on `bitcoin::Transaction::compute_txid` and the id's `Display`.
#[verifier::external_body]
pub(crate) fn txid_text(tx: &Transaction) -> (r: String)
    ensures
        r@ == txid_text_of(tx@),
{
    let input = tx.inputs.iter().map(|i| TxIn { previous_output: OutPoint::new(<Txid as bitcoin::hashes::Hash>::from_byte_array(i.txid), i.vout),
        script_sig: ScriptBuf::new(), sequence: Sequence(i.sequence), witness: Witness::from_slice(&i.witness) });
    let output = tx.outputs.iter().map(|o| TxOut { value: Amount::from_sat(o.value), script_pubkey: ScriptBuf::from_bytes(o.script_pubkey.clone()) });
    let t = bitcoin::Transaction { version: Version::TWO, lock_time: LockTime::ZERO, input: input.collect(), output: output.collect() };
    t.compute_txid().to_string()
}

/// Relies on `bitcoin::sighash::SighashCache::taproot_key_spend_signature_hash`
/// with `Prevouts::All` and `TapSighashType::Default`, on the version-2,
/// lock-time-zero transaction that `tx` describes with its witnesses left
/// out (the key-path digest does not commit to witnesses). Without
/// ANYONECANPAY the index is not looked up, so the caller keeps it in range;
/// the call fails only when the prevouts are not one per input.
#[verifier::external_body]
pub(crate) fn taproot_key_spend_sighash(tx: &Transaction, prevouts: &Vec<TxOutput>, index: usize) -> (r: Option<[u8; 32]>)
    requires
        tx.inputs@.len() > index,
    ensures
        r is Some <==> prevouts@.len() == tx.inputs@.len(),
        r matches Some(h) ==> h@ == key_spend_sighash_of(without_witnesses(tx@), outputs_view(prevouts@), index as int),
{
    let output = |o: &TxOutput| TxOut { value: Amount::from_sat(o.value), script_pubkey: o.script_pubkey.clone().into() };
    let t = Tx { version: Version::TWO, lock_time: LockTime::ZERO, output: tx.outputs.iter().map(output).collect(),
        input: tx.inputs.iter().map(|i| TxIn { previous_output: OutPoint::new(hashes::Hash::from_byte_array(i.txid), i.vout),
            sequence: Sequence(i.sequence), ..Default::default() }).collect() };
    SighashCache::new(&t).taproot_key_spend_signature_hash(index, &Prevouts::All(&prevouts.iter().map(output).collect::<Vec<_>>()),
        TapSighashType::Default).ok().map(hashes::Hash::to_byte_array)
}

/// Relies on `bitcoin::PublicKey::from_slice`, its x-only form and
/// `bitcoin::Address::p2tr` with no Merkle root: the address and its script
/// are functions of the key bytes and the network, and the script is a
/// segwit version 1 program of a 32-byte key.
#[verifier::external_body]
pub(crate) fn p2tr_address(public_key: &Vec<u8>, network: Network) -> (r: Option<(String, Vec<u8>)>)
    ensures
        r matches Some((a, s)) ==> p2tr_address_of(public_key@, network) == Some((a@, s@)),
        r matches Some((a, s)) ==> is_p2tr_script(s@),
        r is None ==> p2tr_address_of(public_key@, network) is None,
{
    let key = XOnlyPublicKey::from(PublicKey::from_slice(public_key).ok()?);
    let net = match network { Network::Main => bitcoin::Network::Bitcoin, Network::Test => bitcoin::Network::Testnet,
        Network::Regtest => bitcoin::Network::Regtest };
    let address = Address::p2tr(&Secp256k1::verification_only(), key, None, net);
    Some((address.to_string(), address.script_pubkey().into_bytes()))
}

/// Relies on `bitcoin::Address::from_str` and `require_network`: a text that
/// does not parse is a malformed address, one for another network is refused
/// as such.
#[verifier::external_body]
pub(crate) fn destination_script(address: &str, network: Network) -> (r: Result<Vec<u8>, WalletError>)
    ensures
        r matches Ok(s) ==> destination_script_of(address@, network) matches Ok(d) && d == s@,
        r matches Err(e) ==> destination_script_of(address@, network) matches Err(d) && d == e,
        r is Err ==> r->Err_0 == WalletError::MalformedAddress || r->Err_0 == WalletError::WrongNetwork,
{
    let net = match network { Network::Main => bitcoin::Network::Bitcoin, Network::Test => bitcoin::Network::Testnet,
        Network::Regtest => bitcoin::Network::Regtest };
    let parsed = Address::from_str(address).map_err(|_| WalletError::MalformedAddress)?;
    let checked = parsed.require_network(net).map_err(|_| WalletError::WrongNetwork)?;
    Ok(checked.script_pubkey().into_bytes())
}

} // verus!
