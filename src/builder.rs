//! Assembling an unsigned transaction and its prevouts from chosen inputs.
use vstd::prelude::*;
use crate::types::{
    output_total, InputView, OutputView, PrimaryOutput, Transaction, TransactionView, TxInput, TxOutput, Utxo,
    WalletError, RBF_SEQUENCE,
};
use crate::select::{sum_values, total_value};
use crate::bitcoin_ops::{op_return_script, op_return_script_of};

verus! {

/// Amount that `primary` pays: zero for a data output.
pub open spec fn primary_amount(primary: PrimaryOutput) -> u64 {
    match primary {
        PrimaryOutput::Address(_, amount) => amount,
        PrimaryOutput::OpReturn(_) => 0,
    }
}

/// The output that `primary` stands for.
pub open spec fn primary_output_view(primary: PrimaryOutput) -> OutputView {
    match primary {
        PrimaryOutput::Address(script, amount) => (amount, script@),
        PrimaryOutput::OpReturn(data) => (0, op_return_script_of(data@)),
    }
}

/// What the primary output may carry: a data output's payload must fit a
/// single script push.
pub open spec fn primary_ok(primary: PrimaryOutput) -> bool {
    match primary {
        PrimaryOutput::Address(_, _) => true,
        PrimaryOutput::OpReturn(data) => data@.len() <= u32::MAX,
    }
}

/// `input` spends `u`, unsigned, with replace-by-fee signalled.
pub open spec fn spends_unsigned(input: InputView, u: Utxo) -> bool {
    &&& input.0 == u.txid@
    &&& input.1 == u.vout
    &&& input.2 == RBF_SEQUENCE
    &&& input.3.len() == 0
}

/// The change left once `amount` and `fee` are paid from `inputs`.
pub open spec fn change_of(inputs: Seq<Utxo>, amount: int, fee: int) -> int {
    total_value(inputs) - amount - fee
}

/// `tx` with `prevouts` is the skeleton built from `inputs` paying
/// `primary`, with `fee` left for the miner and any remainder sent back to
/// `own_script`.
pub open spec fn is_skeleton(
    inputs: Seq<Utxo>,
    own_script: Seq<u8>,
    primary: PrimaryOutput,
    fee: int,
    tx: TransactionView,
    prevouts: Seq<OutputView>,
) -> bool {
    let change = change_of(inputs, primary_amount(primary) as int, fee);
    &&& 0 <= change <= u64::MAX
    &&& tx.0.len() == inputs.len() == prevouts.len()
    &&& forall|i: int| 0 <= i < inputs.len() ==> spends_unsigned(#[trigger] tx.0[i], inputs[i])
    &&& forall|i: int| 0 <= i < inputs.len() ==> #[trigger] prevouts[i] == (inputs[i].value, own_script)
    &&& tx.1.len() >= 1 && tx.1[0] == primary_output_view(primary)
    &&& change > 0 ==> tx.1.len() == 2 && tx.1[1] == (change as u64, own_script)
    &&& change <= 0 ==> tx.1.len() == 1
}

proof fn lemma_prevout_total(inputs: Seq<Utxo>, prevouts: Seq<OutputView>, own_script: Seq<u8>)
    requires
        prevouts.len() == inputs.len(),
        forall|i: int| 0 <= i < inputs.len() ==> #[trigger] prevouts[i] == (inputs[i].value, own_script),
    ensures
        output_total(prevouts) == total_value(inputs),
    decreases inputs.len(),
{
    if inputs.len() > 0 {
        lemma_prevout_total(inputs.drop_last(), prevouts.drop_last(), own_script);
        assert(prevouts[prevouts.len() - 1] == (inputs.last().value, own_script));
    }
}

/// Balance: in every skeleton the builder returns, the value of the inputs
/// equals the value of the outputs plus the fee, and the prevouts carry
/// exactly the value of the inputs.
pub proof fn lemma_builder_balance(
    inputs: Seq<Utxo>,
    own_script: Seq<u8>,
    primary: PrimaryOutput,
    fee: int,
    tx: TransactionView,
    prevouts: Seq<OutputView>,
)
    requires
        is_skeleton(inputs, own_script, primary, fee, tx, prevouts),
    ensures
        total_value(inputs) == output_total(tx.1) + fee,
        output_total(prevouts) == output_total(tx.1) + fee,
{
    lemma_prevout_total(inputs, prevouts, own_script);
    let outs = tx.1;
    assert(outs.drop_last().len() == 0 ==> output_total(outs.drop_last()) == 0);
    if outs.len() == 2 {
        let head = outs.drop_last();
        assert(head.drop_last().len() == 0);
        assert(output_total(head.drop_last()) == 0);
        assert(head.last() == outs[0]);
        assert(output_total(head) == outs[0].0);
    }
}

/// Building is deterministic: for given inputs, own script, primary output
/// and fee, one transaction and one prevout list meet the description.
pub proof fn lemma_skeleton_unique(
    inputs: Seq<Utxo>,
    own_script: Seq<u8>,
    primary: PrimaryOutput,
    fee: int,
    tx1: TransactionView,
    prevouts1: Seq<OutputView>,
    tx2: TransactionView,
    prevouts2: Seq<OutputView>,
)
    requires
        is_skeleton(inputs, own_script, primary, fee, tx1, prevouts1),
        is_skeleton(inputs, own_script, primary, fee, tx2, prevouts2),
    ensures
        tx1 == tx2,
        prevouts1 == prevouts2,
{
    assert forall|i: int| 0 <= i < inputs.len() implies tx1.0[i] == tx2.0[i] by {
        assert(spends_unsigned(tx1.0[i], inputs[i]));
        assert(spends_unsigned(tx2.0[i], inputs[i]));
        assert(tx1.0[i].3 =~= tx2.0[i].3);
    }
    assert(tx1.0 =~= tx2.0);
    assert(tx1.1 =~= tx2.1);
    assert forall|i: int| 0 <= i < inputs.len() implies prevouts1[i] == prevouts2[i] by {
        assert(prevouts1[i] == (inputs[i].value, own_script));
        assert(prevouts2[i] == (inputs[i].value, own_script));
    }
    assert(prevouts1 =~= prevouts2);
}

/// Builds the unsigned skeleton spending all of `inputs`: the primary output
/// first, then change to `own_script` when anything is left, and one prevout
/// (value and `own_script`) per input in input order. Fails when `fee` and
/// the amount exceed what the inputs hold, or when the change does not fit
/// in an output value.
pub fn build_transaction_with_fee(
    inputs: &Vec<Utxo>,
    own_script: &Vec<u8>,
    primary: &PrimaryOutput,
    fee: u64,
) -> (r: Result<(Transaction, Vec<TxOutput>), WalletError>)
    requires
        primary_ok(*primary),
    ensures
        match r {
            Ok((tx, prevouts)) => is_skeleton(
                inputs@, own_script@, *primary, fee as int, tx@, prevouts@.map_values(|o: TxOutput| o@)),
            Err(e) => e == WalletError::Build,
        },
        r is Err <==> {
            let change = change_of(inputs@, primary_amount(*primary) as int, fee as int);
            change < 0 || change > u64::MAX
        },
{
    let amount: u64 = match primary {
        PrimaryOutput::Address(_, amount) => *amount,
        PrimaryOutput::OpReturn(_) => 0,
    };
    let total = sum_values(inputs);
    let needed: u128 = amount as u128 + fee as u128;
    if total < needed || total - needed > u64::MAX as u128 {
        return Err(WalletError::Build);
    }
    let change: u64 = (total - needed) as u64;
    let mut tx_inputs: Vec<TxInput> = Vec::new();
    let mut prevouts: Vec<TxOutput> = Vec::new();
    let mut k: usize = 0;
    while k < inputs.len()
        invariant
            k <= inputs@.len(),
            tx_inputs@.len() == k == prevouts@.len(),
            forall|i: int| 0 <= i < k ==> spends_unsigned(#[trigger] tx_inputs@[i]@, inputs@[i]),
            forall|i: int| 0 <= i < k ==> #[trigger] prevouts@[i]@ == (inputs@[i].value, own_script@),
        decreases inputs@.len() - k,
    {
        let u = inputs[k];
        tx_inputs.push(TxInput { txid: u.txid, vout: u.vout, sequence: RBF_SEQUENCE, witness: Vec::new() });
        prevouts.push(TxOutput { value: u.value, script_pubkey: own_script.clone() });
        k += 1;
    }
    let first = match primary {
        PrimaryOutput::Address(script, amount) => TxOutput { value: *amount, script_pubkey: script.clone() },
        PrimaryOutput::OpReturn(data) => TxOutput { value: 0, script_pubkey: op_return_script(data) },
    };
    let mut outputs: Vec<TxOutput> = Vec::new();
    outputs.push(first);
    if change > 0 {
        outputs.push(TxOutput { value: change, script_pubkey: own_script.clone() });
    }
    let tx = Transaction { inputs: tx_inputs, outputs };
    Ok((tx, prevouts))
}

} // verus!
