//! The wallet's data: networks, unspent outputs, transactions and errors.
use vstd::prelude::*;

verus! {

/// The Bitcoin network a wallet operates on.
#[derive(Clone, Copy, Debug, PartialEq, Eq, Structural)]
pub enum Network {
    Main,
    Test,
    Regtest,
}

/// How inputs are chosen for a transaction.
#[derive(Clone, Copy, Debug, PartialEq, Eq, Structural)]
pub enum SelectUtxosMode {
    /// Largest outputs first, until the target is covered.
    Greedy,
    /// The single smallest output that covers the target.
    Single,
}

/// An unspent transaction output owned by the wallet.
#[derive(Clone, Copy, Debug, PartialEq, Eq)]
pub struct Utxo {
    /// Id of the transaction that created the output (internal byte order).
    pub txid: [u8; 32],
    /// Index of the output within that transaction.
    pub vout: u32,
    /// Value in satoshis.
    pub value: u64,
    /// Height of the block that confirmed it.
    pub height: u32,
}

/// Errors reported by the wallet's transaction pipeline.
#[derive(Clone, Copy, Debug, PartialEq, Eq, Structural)]
pub enum WalletError {
    /// The amount to send is zero.
    ZeroAmount,
    /// The destination address cannot be parsed.
    MalformedAddress,
    /// The destination address belongs to another network.
    WrongNetwork,
    /// The available outputs do not cover what is needed; `shortfall` is
    /// needed minus available, in satoshis.
    InsufficientFunds { shortfall: u128 },
    /// The fee exceeds what the inputs can pay.
    Build,
    /// The signing oracle returned no usable public key.
    KeyDerivation,
    /// A signature could not be produced or has the wrong shape.
    Signing,
    /// The fee did not settle within the iteration cap.
    FeeConvergence,
}

/// Sequence number that signals replace-by-fee and no relative lock time.
pub const RBF_SEQUENCE: u32 = 0xFFFF_FFFD;

/// Length of a BIP-340 Schnorr signature, in bytes.
pub const SCHNORR_SIGNATURE_LEN: usize = 64;

/// A transaction input: the output it spends and its witness stack.
#[derive(Clone, Debug, PartialEq, Eq)]
pub struct TxInput {
    pub txid: [u8; 32],
    pub vout: u32,
    pub sequence: u32,
    pub witness: Vec<Vec<u8>>,
}

/// A transaction output: a value and the locking script that guards it.
#[derive(Clone, Debug, PartialEq, Eq)]
pub struct TxOutput {
    pub value: u64,
    pub script_pubkey: Vec<u8>,
}

/// A version-2 transaction with lock time zero.
#[derive(Clone, Debug, PartialEq, Eq)]
pub struct Transaction {
    pub inputs: Vec<TxInput>,
    pub outputs: Vec<TxOutput>,
}

/// The output a transaction exists for.
#[derive(Clone, Debug, PartialEq, Eq)]
pub enum PrimaryOutput {
    /// Pays `amount` satoshis to the given locking script.
    Address(Vec<u8>, u64),
    /// An unspendable, zero-value output carrying data.
    OpReturn(Vec<u8>),
}

/// Input as plain values: txid, output index, sequence, witness stack.
pub type InputView = (Seq<u8>, u32, u32, Seq<Seq<u8>>);

/// Output as plain values: value, locking script.
pub type OutputView = (u64, Seq<u8>);

/// Transaction as plain values: inputs, outputs.
pub type TransactionView = (Seq<InputView>, Seq<OutputView>);

impl View for TxInput {
    type V = InputView;

    open spec fn view(&self) -> InputView {
        (self.txid@, self.vout, self.sequence, self.witness@.map_values(|w: Vec<u8>| w@))
    }
}

impl View for TxOutput {
    type V = OutputView;

    open spec fn view(&self) -> OutputView {
        (self.value, self.script_pubkey@)
    }
}

impl View for Transaction {
    type V = TransactionView;

    open spec fn view(&self) -> TransactionView {
        (self.inputs@.map_values(|i: TxInput| i@), self.outputs@.map_values(|o: TxOutput| o@))
    }
}

/// `tx` with every witness stack emptied: what a key-path signature hash
/// commits to.
pub open spec fn without_witnesses(tx: TransactionView) -> TransactionView {
    (tx.0.map_values(|i: InputView| (i.0, i.1, i.2, Seq::<Seq<u8>>::empty())), tx.1)
}

/// The outputs in `outputs` as plain values.
pub open spec fn outputs_view(outputs: Seq<TxOutput>) -> Seq<OutputView> {
    outputs.map_values(|o: TxOutput| o@)
}

/// Sum of the values of `outputs`, in satoshis.
pub open spec fn output_total(outputs: Seq<OutputView>) -> int
    decreases outputs.len(),
{
    if outputs.len() == 0 {
        0
    } else {
        output_total(outputs.drop_last()) + outputs.last().0
    }
}

} // verus!
