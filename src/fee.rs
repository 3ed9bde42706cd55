//! The fee-convergence loop and the choice of fee rate.
use vstd::prelude::*;
use crate::types::{
    output_total, outputs_view, Network, OutputView, PrimaryOutput, SelectUtxosMode, Transaction, TransactionView,
    TxOutput, Utxo, WalletError,
};
use crate::select::{
    greedy_selects, is_smallest_sufficient, lemma_greedy_unique, lemma_max_value, lemma_smallest_sufficient_unique,
    max_value, select_one_utxo, select_utxos_greedy, total_value,
};
use crate::builder::{
    change_of,
    build_transaction_with_fee, is_skeleton, lemma_builder_balance, lemma_skeleton_unique, primary_amount, primary_ok,
};
use crate::sign::{probe_view, signed_vsize};
use crate::bitcoin_ops::vsize_of;

verus! {

/// The fee that `tx` owes at `fee_per_byte` millisatoshis per virtual byte,
/// once signed: its signed virtual size times the rate, over 1000, rounded
/// down.
pub open spec fn fee_for(tx: TransactionView, fee_per_byte: u64) -> int {
    (vsize_of(probe_view(tx)) as int * fee_per_byte as int) / 1000
}

/// `sel` is what `mode` selects from `utxos` for `target`.
pub open spec fn selected_by(mode: SelectUtxosMode, utxos: Seq<Utxo>, target: int, sel: Seq<Utxo>) -> bool {
    match mode {
        SelectUtxosMode::Greedy => greedy_selects(utxos, target, sel),
        SelectUtxosMode::Single => sel.len() == 1 && exists|i: int|
            #[trigger] is_smallest_sufficient(utxos, target, i) && sel[0] == utxos[i],
    }
}

/// What inputs must cover at `fee`: the primary amount plus `fee`. Greedy
/// selection, which would take nothing for a zero target, is asked for at
/// least one satoshi so that a transaction always has an input; single
/// selection always takes one.
pub open spec fn selection_target(mode: SelectUtxosMode, primary: PrimaryOutput, fee: int) -> int {
    if mode == SelectUtxosMode::Greedy && primary_amount(primary) + fee == 0 {
        1
    } else {
        primary_amount(primary) + fee
    }
}

/// Why `mode` selects nothing from `utxos` for `target`, if it does not.
pub open spec fn selection_error(mode: SelectUtxosMode, utxos: Seq<Utxo>, target: int) -> Option<WalletError> {
    let short = match mode {
        SelectUtxosMode::Greedy => total_value(utxos),
        SelectUtxosMode::Single => max_value(utxos),
    };
    // Single selection needs an output even for a zero target.
    if short < target || (mode == SelectUtxosMode::Single && utxos.len() == 0) {
        Some(WalletError::InsufficientFunds { shortfall: (target - short) as u128 })
    } else {
        None
    }
}

/// Selection is deterministic in either mode.
pub proof fn lemma_selection_unique(mode: SelectUtxosMode, utxos: Seq<Utxo>, target: int, sel1: Seq<Utxo>, sel2: Seq<Utxo>)
    requires
        selected_by(mode, utxos, target, sel1),
        selected_by(mode, utxos, target, sel2),
    ensures
        sel1 == sel2,
{
    match mode {
        SelectUtxosMode::Greedy => {
            lemma_greedy_unique(utxos, target, sel1, sel2);
        },
        SelectUtxosMode::Single => {
            let i = choose|i: int| #[trigger] is_smallest_sufficient(utxos, target, i) && sel1[0] == utxos[i];
            let j = choose|j: int| #[trigger] is_smallest_sufficient(utxos, target, j) && sel2[0] == utxos[j];
            lemma_smallest_sufficient_unique(utxos, target, i, j);
            assert(sel1 =~= sel2);
        },
    }
}

/// `tx` with `prevouts` is the skeleton built, at `fee`, from the inputs
/// that `mode` selects from `utxos` for the selection target at `fee`.
pub open spec fn built_at_fee(
    mode: SelectUtxosMode,
    utxos: Seq<Utxo>,
    own_script: Seq<u8>,
    primary: PrimaryOutput,
    fee: int,
    tx: TransactionView,
    prevouts: Seq<OutputView>,
) -> bool {
    exists|sel: Seq<Utxo>|
        #[trigger] selected_by(mode, utxos, selection_target(mode, primary, fee), sel)
            && is_skeleton(sel, own_script, primary, fee, tx, prevouts)
}

/// Fee rate used where the network reports none, and on regtest, in
/// millisatoshis per virtual byte.
pub const DEFAULT_FEE_PER_BYTE: u64 = 2000;

/// The fee rate to pay given the network's fee percentiles: the median
/// percentile, or the default rate on regtest or when none are reported.
pub open spec fn fee_rate_for(network: Network, percentiles: Seq<u64>) -> u64 {
    if network == Network::Regtest || percentiles.len() == 0 {
        DEFAULT_FEE_PER_BYTE
    } else {
        percentiles[(percentiles.len() / 2) as int]
    }
}

/// Picks the fee rate, in millisatoshis per virtual byte, from the fee
/// percentiles the network reported.
pub fn fee_per_byte(network: Network, percentiles: &Vec<u64>) -> (r: u64)
    ensures
        r == fee_rate_for(network, percentiles@),
{
    if network == Network::Regtest || percentiles.len() == 0 {
        DEFAULT_FEE_PER_BYTE
    } else {
        percentiles[percentiles.len() / 2]
    }
}

/// Fee fixed point: a transaction that the fee loop returns pays, as what
/// its inputs hold less what its outputs pay, exactly the fee that its
/// signed size costs at `fee_per_byte`.
pub proof fn lemma_fee_fixed_point(
    mode: SelectUtxosMode,
    utxos: Seq<Utxo>,
    own_script: Seq<u8>,
    primary: PrimaryOutput,
    fee_per_byte: u64,
    tx: TransactionView,
    prevouts: Seq<OutputView>,
)
    requires
        built_at_fee(mode, utxos, own_script, primary, fee_for(tx, fee_per_byte), tx, prevouts),
    ensures
        output_total(prevouts) == output_total(tx.1) + fee_for(tx, fee_per_byte),
{
    let fee = fee_for(tx, fee_per_byte);
    let sel = choose|sel: Seq<Utxo>|
        #[trigger] selected_by(mode, utxos, selection_target(mode, primary, fee), sel)
            && is_skeleton(sel, own_script, primary, fee, tx, prevouts);
    lemma_builder_balance(sel, own_script, primary, fee, tx, prevouts);
}

/// A round of the fee loop is deterministic: at a given fee, the same
/// outputs, mode, own script and primary output give one input selection
/// and one skeleton. Two runs that settle on the same fee therefore return
/// the same transaction and prevouts.
pub proof fn lemma_round_deterministic(
    mode: SelectUtxosMode,
    utxos: Seq<Utxo>,
    own_script: Seq<u8>,
    primary: PrimaryOutput,
    fee: int,
    tx1: TransactionView,
    prevouts1: Seq<OutputView>,
    tx2: TransactionView,
    prevouts2: Seq<OutputView>,
)
    requires
        built_at_fee(mode, utxos, own_script, primary, fee, tx1, prevouts1),
        built_at_fee(mode, utxos, own_script, primary, fee, tx2, prevouts2),
    ensures
        tx1 == tx2,
        prevouts1 == prevouts2,
{
    let target = selection_target(mode, primary, fee);
    let sel1 = choose|sel: Seq<Utxo>|
        #[trigger] selected_by(mode, utxos, target, sel) && is_skeleton(sel, own_script, primary, fee, tx1, prevouts1);
    let sel2 = choose|sel: Seq<Utxo>|
        #[trigger] selected_by(mode, utxos, target, sel) && is_skeleton(sel, own_script, primary, fee, tx2, prevouts2);
    lemma_selection_unique(mode, utxos, target, sel1, sel2);
    lemma_skeleton_unique(sel1, own_script, primary, fee, tx1, prevouts1, tx2, prevouts2);
}


/// The inputs that `mode` selects from `utxos` for `target`; meaningful
/// only where `selection_error` is `None`.
pub open spec fn selection(mode: SelectUtxosMode, utxos: Seq<Utxo>, target: int) -> Seq<Utxo> {
    choose|sel: Seq<Utxo>| #[trigger] selected_by(mode, utxos, target, sel)
}

/// The skeleton and prevouts built from `inputs` at `fee`; meaningful only
/// where the change fits an output.
pub open spec fn skeleton(
    inputs: Seq<Utxo>,
    own_script: Seq<u8>,
    primary: PrimaryOutput,
    fee: int,
) -> (TransactionView, Seq<OutputView>) {
    choose|pair: (TransactionView, Seq<OutputView>)| #[trigger] is_skeleton(inputs, own_script, primary, fee, pair.0, pair.1)
}

/// Where the fee loop ends when it starts a round at `fee` with `rounds`
/// rounds left: at the skeleton and prevouts of the first fee that its
/// signed size prices at itself; with the selector's shortfall when the
/// outputs cannot cover the target; with `Build` when the change does not
/// fit an output; with `FeeConvergence` when rounds run out or the price
/// outgrows a satoshi amount.
pub open spec fn settle(
    mode: SelectUtxosMode,
    utxos: Seq<Utxo>,
    own_script: Seq<u8>,
    primary: PrimaryOutput,
    fee_per_byte: u64,
    fee: int,
    rounds: nat,
) -> Result<(TransactionView, Seq<OutputView>), WalletError>
    decreases rounds,
{
    let target = selection_target(mode, primary, fee);
    if rounds == 0 {
        Err(WalletError::FeeConvergence)
    } else if let Some(e) = selection_error(mode, utxos, target) {
        Err(e)
    } else {
        let inputs = selection(mode, utxos, target);
        let change = change_of(inputs, primary_amount(primary) as int, fee);
        if change < 0 || change > u64::MAX {
            Err(WalletError::Build)
        } else {
            let pair = skeleton(inputs, own_script, primary, fee);
            let priced = fee_for(pair.0, fee_per_byte);
            if priced == fee {
                Ok(pair)
            } else if priced > u64::MAX {
                Err(WalletError::FeeConvergence)
            } else {
                settle(mode, utxos, own_script, primary, fee_per_byte, priced, (rounds - 1) as nat)
            }
        }
    }
}

/// Idempotence: two runs of the fee loop on the same outputs, mode, own
/// script, primary output and rate end alike: the same transaction and
/// prevouts, hence the same fee and inputs, or the same error.
pub proof fn lemma_fee_loop_idempotent(
    mode: SelectUtxosMode,
    utxos: Seq<Utxo>,
    own_script: Seq<u8>,
    primary: PrimaryOutput,
    fee_per_byte: u64,
    r1: Result<(TransactionView, Seq<OutputView>), WalletError>,
    r2: Result<(TransactionView, Seq<OutputView>), WalletError>,
)
    requires
        settle(mode, utxos, own_script, primary, fee_per_byte, 0, (utxos.len() + 2) as nat) == r1,
        settle(mode, utxos, own_script, primary, fee_per_byte, 0, (utxos.len() + 2) as nat) == r2,
    ensures
        r1 == r2,
{
}

/// Finds the fee at which the transaction pays for its own signed size:
/// starting from a zero fee, selects inputs for the amount plus the fee (at
/// least one satoshi in greedy mode), builds the skeleton, measures its
/// signed size and prices it, until the price equals the fee it was built with. Returns that
/// unsigned skeleton and its prevouts. Fails with the selector's shortfall
/// when the outputs cannot cover the target, with `Build` when the change
/// does not fit an output, and with `FeeConvergence` when the fee has not
/// settled after one round more than there are outputs, or outgrows a
/// satoshi amount.
pub fn build_transaction(
    own_script: &Vec<u8>,
    own_utxos: &Vec<Utxo>,
    utxos_mode: SelectUtxosMode,
    primary_output: &PrimaryOutput,
    fee_per_byte: u64,
) -> (r: Result<(Transaction, Vec<TxOutput>), WalletError>)
    requires
        primary_ok(*primary_output),
    ensures
        match r {
            Ok((tx, prevouts)) => {
                let fee = fee_for(tx@, fee_per_byte);
                &&& settle(utxos_mode, own_utxos@, own_script@, *primary_output, fee_per_byte, 0,
                    (own_utxos@.len() + 2) as nat) matches Ok(p) && p == (tx@, outputs_view(prevouts@))
                &&& 0 <= fee <= u64::MAX
                &&& built_at_fee(utxos_mode, own_utxos@, own_script@, *primary_output, fee, tx@, outputs_view(prevouts@))
                &&& tx@.0.len() >= 1
            },
            Err(e) => settle(utxos_mode, own_utxos@, own_script@, *primary_output, fee_per_byte, 0,
                (own_utxos@.len() + 2) as nat) matches Err(f) && f == e,
        },
{
    let amount: u64 = match primary_output {
        PrimaryOutput::Address(_, amount) => *amount,
        PrimaryOutput::OpReturn(_) => 0,
    };
    let mut fee: u64 = 0;
    let rounds: u128 = own_utxos.len() as u128 + 2;
    let mut round: u128 = 0;
    while round < rounds
        invariant
            primary_ok(*primary_output),
            amount == primary_amount(*primary_output),
            round <= rounds == own_utxos@.len() + 2,
            settle(utxos_mode, own_utxos@, own_script@, *primary_output, fee_per_byte, 0, rounds as nat)
                == settle(utxos_mode, own_utxos@, own_script@, *primary_output, fee_per_byte, fee as int,
                (rounds - round) as nat),
        decreases rounds - round,
    {
        let ghost target = selection_target(utxos_mode, *primary_output, fee as int);
        // A greedy target is never zero: a transaction needs an input.
        let (need, extra): (u64, u64) = if utxos_mode == SelectUtxosMode::Greedy && amount == 0 && fee == 0 {
            (1, 0)
        } else {
            (amount, fee)
        };
        assert(need + extra == target);
        proof { lemma_max_value(own_utxos@); }
        let selected = match utxos_mode {
            SelectUtxosMode::Greedy => select_utxos_greedy(own_utxos, need, extra),
            SelectUtxosMode::Single => select_one_utxo(own_utxos, need, extra),
        };
        let selected = match selected {
            Ok(s) => s,
            Err(e) => {
                proof {
                    if utxos_mode == SelectUtxosMode::Single {
                        assert forall|j: int| 0 <= j < own_utxos@.len() implies own_utxos@[j].value < target by {}
                        if own_utxos@.len() > 0 {
                            let j = choose|j: int| 0 <= j < own_utxos@.len() && own_utxos@[j].value == max_value(own_utxos@);
                        }
                    }
                }
                return Err(e);
            },
        };
        proof {
            assert(selected_by(utxos_mode, own_utxos@, target, selected@));
            if utxos_mode == SelectUtxosMode::Single {
                let i = choose|i: int| #[trigger] is_smallest_sufficient(own_utxos@, target, i) && selected@[0] == own_utxos@[i];
                assert(own_utxos@[i].value >= target);
            }
            assert(selection_error(utxos_mode, own_utxos@, target) is None);
            lemma_selection_unique(utxos_mode, own_utxos@, target, selected@,
                selection(utxos_mode, own_utxos@, target));
        }
        let (tx, prevouts) = match build_transaction_with_fee(&selected, own_script, primary_output, fee) {
            Ok(built) => built,
            Err(e) => return Err(e),
        };
        let vsize = signed_vsize(&tx);
        assert(vsize as int * fee_per_byte as int <= u64::MAX as int * u64::MAX as int) by (nonlinear_arith)
            requires vsize <= u64::MAX, fee_per_byte <= u64::MAX;
        let priced: u128 = vsize as u128 * fee_per_byte as u128 / 1000;
        assert(priced == fee_for(tx@, fee_per_byte)) by (nonlinear_arith)
            requires priced == vsize as u128 * fee_per_byte as u128 / 1000, vsize == vsize_of(probe_view(tx@)),
                vsize as int * fee_per_byte as int <= u64::MAX as int * u64::MAX as int;
        proof {
            let built = (tx@, outputs_view(prevouts@));
            let pair = skeleton(selected@, own_script@, *primary_output, fee as int);
            lemma_skeleton_unique(selected@, own_script@, *primary_output, fee as int, built.0, built.1, pair.0, pair.1);
            assert(built_at_fee(utxos_mode, own_utxos@, own_script@, *primary_output, fee as int, built.0, built.1));
            if utxos_mode == SelectUtxosMode::Greedy {
                assert(total_value(selected@) >= target);
                if selected@.len() == 0 {
                    assert(total_value(selected@) == 0);
                }
            }
        }
        if priced == fee as u128 {
            return Ok((tx, prevouts));
        }
        if priced > u64::MAX as u128 {
            return Err(WalletError::FeeConvergence);
        }
        fee = priced as u64;
        round += 1;
    }
    Err(WalletError::FeeConvergence)
}

} // verus!
