//! Taproot key-path signing steps and the size probe of a signed transaction.
use vstd::prelude::*;
use crate::types::{
    outputs_view, without_witnesses, InputView, OutputView, Transaction, TransactionView, TxInput, TxOutput, WalletError, RBF_SEQUENCE,
    SCHNORR_SIGNATURE_LEN,
};
use crate::bitcoin_ops::{
    consensus_bytes, consensus_bytes_of, key_spend_sighash_of, taproot_key_spend_sighash, tx_vsize, txid_text, txid_text_of,
    vsize_of,
};

verus! {

/// Placeholder signature, of the length of a real one, used to measure the
/// size of a signed transaction.
pub open spec fn probe_signature() -> Seq<u8> {
    Seq::new(64, |i: int| 0u8)
}

/// An input made ready for signing: same spent output, replace-by-fee
/// sequence, empty witness.
pub open spec fn reset_input(i: InputView) -> InputView {
    (i.0, i.1, RBF_SEQUENCE, Seq::empty())
}

/// An input signed on the key path with `signature` as its only witness
/// element.
pub open spec fn signed_input(i: InputView, signature: Seq<u8>) -> InputView {
    (i.0, i.1, i.2, seq![signature])
}

/// `tx` with every input reset and signed with the placeholder signature:
/// what the signed transaction will weigh.
pub open spec fn probe_view(tx: TransactionView) -> TransactionView {
    (tx.0.map_values(|i: InputView| signed_input(reset_input(i), probe_signature())), tx.1)
}

fn copy_outputs(outputs: &Vec<TxOutput>) -> (r: Vec<TxOutput>)
    ensures
        r@.map_values(|o: TxOutput| o@) == outputs@.map_values(|o: TxOutput| o@),
{
    let mut r: Vec<TxOutput> = Vec::new();
    let mut k: usize = 0;
    while k < outputs.len()
        invariant
            k <= outputs@.len(),
            r@.len() == k,
            forall|i: int| 0 <= i < k ==> #[trigger] r@[i]@ == outputs@[i]@,
        decreases outputs@.len() - k,
    {
        let o = &outputs[k];
        r.push(TxOutput { value: o.value, script_pubkey: o.script_pubkey.clone() });
        k += 1;
    }
    assert(r@.map_values(|o: TxOutput| o@) =~= outputs@.map_values(|o: TxOutput| o@));
    r
}

/// Clears every input's witness and sets its sequence to signal
/// replace-by-fee, keeping the outputs.
pub fn prepare_for_signing(tx: &mut Transaction)
    ensures
        final(tx)@ == (old(tx)@.0.map_values(|i: InputView| reset_input(i)), old(tx)@.1),
{
    let mut inputs: Vec<TxInput> = Vec::new();
    let mut k: usize = 0;
    while k < tx.inputs.len()
        invariant
            k <= tx.inputs@.len(),
            inputs@.len() == k,
            tx@ == old(tx)@,
            forall|i: int| 0 <= i < k ==> #[trigger] inputs@[i]@ == reset_input(tx.inputs@[i]@),
        decreases tx.inputs@.len() - k,
    {
        let inp = &tx.inputs[k];
        let fresh = TxInput { txid: inp.txid, vout: inp.vout, sequence: RBF_SEQUENCE, witness: Vec::new() };
        assert(fresh.witness@.map_values(|w: Vec<u8>| w@) =~= Seq::<Seq<u8>>::empty());
        inputs.push(fresh);
        k += 1;
    }
    assert(inputs@.map_values(|i: TxInput| i@) =~= old(tx)@.0.map_values(|i: InputView| reset_input(i)));
    tx.inputs = inputs;
}

/// The copy of `tx` whose size is measured to price it: every input reset
/// and carrying the placeholder signature.
pub fn probe_signed(tx: &Transaction) -> (r: Transaction)
    ensures
        r@ == probe_view(tx@),
{
    let mut inputs: Vec<TxInput> = Vec::new();
    let mut k: usize = 0;
    while k < tx.inputs.len()
        invariant
            k <= tx.inputs@.len(),
            inputs@.len() == k,
            forall|i: int| 0 <= i < k ==> #[trigger] inputs@[i]@
                == signed_input(reset_input(tx.inputs@[i]@), probe_signature()),
        decreases tx.inputs@.len() - k,
    {
        let inp = &tx.inputs[k];
        let signature: Vec<u8> = vec![0u8; SCHNORR_SIGNATURE_LEN];
        assert(signature@ =~= probe_signature());
        let mut witness: Vec<Vec<u8>> = Vec::new();
        witness.push(signature);
        let fresh = TxInput { txid: inp.txid, vout: inp.vout, sequence: RBF_SEQUENCE, witness };
        assert(fresh.witness@.map_values(|w: Vec<u8>| w@) =~= seq![probe_signature()]);
        inputs.push(fresh);
        k += 1;
    }
    let outputs = copy_outputs(&tx.outputs);
    let r = Transaction { inputs, outputs };
    assert(r@.0 =~= probe_view(tx@).0);
    r
}

/// Virtual size that `tx` will have once every input carries its key-path
/// signature.
pub fn signed_vsize(tx: &Transaction) -> (r: u64)
    ensures
        r == vsize_of(probe_view(tx@)),
{
    let probe = probe_signed(tx);
    tx_vsize(&probe)
}

/// `script` is a Taproot (segwit version 1) locking script: `OP_1`, then a
/// push of a 32-byte output key.
pub open spec fn is_p2tr_script(script: Seq<u8>) -> bool {
    script.len() == 34 && script[0] == 0x51 && script[1] == 0x20
}

/// Whether `script` is a Taproot locking script.
pub fn is_p2tr(script: &Vec<u8>) -> (r: bool)
    ensures
        r == is_p2tr_script(script@),
{
    script.len() == 34 && script[0] == 0x51 && script[1] == 0x20
}

/// The BIP-341 key-path signature hash of input `index`, committing to all
/// `prevouts`, every one of which must be a Taproot output of the signer.
/// Fails when `index` names no input or the prevouts do not pair one for one
/// with the inputs.
pub fn key_spend_sighash(tx: &Transaction, prevouts: &Vec<TxOutput>, index: usize) -> (r: Result<[u8; 32], WalletError>)
    requires
        forall|i: int| 0 <= i < prevouts@.len() ==> is_p2tr_script(#[trigger] prevouts@[i].script_pubkey@),
    ensures
        match r {
            Ok(h) => h@ == key_spend_sighash_of(without_witnesses(tx@), outputs_view(prevouts@), index as int),
            Err(e) => e == WalletError::Signing,
        },
        r is Ok <==> index < tx.inputs@.len() && prevouts@.len() == tx.inputs@.len(),
{
    if index >= tx.inputs.len() || prevouts.len() != tx.inputs.len() {
        return Err(WalletError::Signing);
    }
    match taproot_key_spend_sighash(tx, prevouts, index) {
        Some(h) => Ok(h),
        None => Err(WalletError::Signing),
    }
}

/// Attaching a signature leaves every input's digest as it was: the
/// witness-free transaction, which the key-path digest commits to, does not
/// change.
pub proof fn lemma_attach_keeps_digest(tx: TransactionView, index: int, signature: Seq<u8>)
    requires
        0 <= index < tx.0.len(),
    ensures
        without_witnesses((tx.0.update(index, signed_input(tx.0[index], signature)), tx.1)) == without_witnesses(tx),
{
    let signed = (tx.0.update(index, signed_input(tx.0[index], signature)), tx.1);
    assert(without_witnesses(signed).0 =~= without_witnesses(tx).0);
}

/// Writes `signature` as the only witness element of input `index`. Fails,
/// leaving `tx` as it was, when `index` names no input or the signature is
/// not a 64-byte Schnorr signature.
pub fn attach_signature(tx: &mut Transaction, index: usize, signature: Vec<u8>) -> (r: Result<(), WalletError>)
    ensures
        r is Ok <==> index < old(tx).inputs@.len() && signature@.len() == SCHNORR_SIGNATURE_LEN,
        r is Ok ==> final(tx)@ == (
            old(tx)@.0.update(index as int, signed_input(old(tx)@.0[index as int], signature@)),
            old(tx)@.1,
        ),
        r is Err ==> r->Err_0 == WalletError::Signing && final(tx)@ == old(tx)@,
{
    if index >= tx.inputs.len() || signature.len() != SCHNORR_SIGNATURE_LEN {
        return Err(WalletError::Signing);
    }
    let ghost sig = signature@;
    let inp = &tx.inputs[index];
    let mut witness: Vec<Vec<u8>> = Vec::new();
    witness.push(signature);
    let fresh = TxInput { txid: inp.txid, vout: inp.vout, sequence: inp.sequence, witness };
    assert(fresh.witness@.map_values(|w: Vec<u8>| w@) =~= seq![sig]);
    tx.inputs.set(index, fresh);
    assert(tx@.0 =~= old(tx)@.0.update(index as int, signed_input(old(tx)@.0[index as int], sig)));
    Ok(())
}

/// One step of signing: writes `signature`, which the signing service
/// returned for input `index`, into that input's witness, and gives the
/// digest to sign for the next input, or `None` once every input is signed.
/// The digest is the key-path signature hash of the transaction as it was
/// before this signature, signatures being outside what it commits to. Fails,
/// leaving `tx` as it was, when `index` names no input or the signature is
/// not 64 bytes.
pub fn signing_step(tx: &mut Transaction, prevouts: &Vec<TxOutput>, index: usize, signature: Vec<u8>) -> (r: Result<Option<[u8; 32]>, WalletError>)
    requires
        prevouts@.len() == old(tx).inputs@.len(),
        forall|i: int| 0 <= i < prevouts@.len() ==> is_p2tr_script(#[trigger] prevouts@[i].script_pubkey@),
    ensures
        r is Ok <==> index < old(tx).inputs@.len() && signature@.len() == SCHNORR_SIGNATURE_LEN,
        r is Err ==> r->Err_0 == WalletError::Signing && final(tx)@ == old(tx)@,
        r is Ok ==> final(tx)@ == (
            old(tx)@.0.update(index as int, signed_input(old(tx)@.0[index as int], signature@)),
            old(tx)@.1,
        ),
        r matches Ok(next) ==> (next is Some <==> index + 1 < old(tx).inputs@.len()),
        r matches Ok(Some(h)) ==> h@ == key_spend_sighash_of(without_witnesses(old(tx)@), outputs_view(prevouts@), index + 1),
{
    let ghost before = tx@;
    let ghost sig = signature@;
    match attach_signature(tx, index, signature) {
        Err(e) => Err(e),
        Ok(()) => {
            proof { lemma_attach_keeps_digest(before, index as int, sig); }
            if index < tx.inputs.len() - 1 {
                match key_spend_sighash(tx, prevouts, index + 1) {
                    Ok(h) => Ok(Some(h)),
                    Err(e) => Err(e),
                }
            } else {
                Ok(None)
            }
        },
    }
}

/// A signed transaction in the form a broadcast needs: its consensus
/// serialization, and its id as text.
pub fn broadcast_form(tx: &Transaction) -> (r: (Vec<u8>, String))
    ensures
        r.0@ == consensus_bytes_of(tx@),
        r.1@ == txid_text_of(tx@),
{
    (consensus_bytes(tx), txid_text(tx))
}

} // verus!
