use bitcoin::key::TapTweak;
use bitcoin::secp256k1::{schnorr, Keypair, Message, Secp256k1, XOnlyPublicKey};
use btc_wallet::builder::build_transaction_with_fee;
use btc_wallet::fee::{build_transaction, fee_per_byte};
use btc_wallet::select::{outpoint_less, select_one_utxo, select_utxos_greedy};
use btc_wallet::sign::{
    attach_signature, broadcast_form, is_p2tr, signing_step, key_spend_sighash, prepare_for_signing, probe_signed, signed_vsize,
};
use btc_wallet::types::{
    Network, PrimaryOutput, SelectUtxosMode, Transaction, TxInput, TxOutput, Utxo, WalletError, RBF_SEQUENCE,
};
use btc_wallet::wallet::{derive_address, validate_send_request, SendBtcRequest, WalletContext};

fn hex(s: &str) -> Vec<u8> {
    (0..s.len() / 2).map(|i| u8::from_str_radix(&s[2 * i..2 * i + 2], 16).unwrap()).collect()
}

fn utxo(tag: u8, value: u64) -> Utxo {
    Utxo { txid: [tag; 32], vout: tag as u32, value, height: 100 }
}

// x-only internal key of the first BIP-86 receiving address, with an even-y prefix.
const BIP86_KEY: &str = "02cc8a4bc64d897bddc5fbc2f670f7a8ba0b386779106cf1223c6fc5d7cd6fc115";
const BIP86_ADDRESS: &str = "bc1p5cyxnuxmeuwuvkwfem96lqzszd02n6xdcjrs20cac6yqjjwudpxqkedrcr";

fn own_script() -> Vec<u8> {
    let ctx = WalletContext::for_network(Network::Test);
    derive_address(&ctx, &hex(BIP86_KEY)).unwrap().script_pubkey
}

#[test]
fn context_key_names() {
    assert_eq!(WalletContext::for_network(Network::Regtest).key_name, "dfx_test_key");
    assert_eq!(WalletContext::for_network(Network::Main).key_name, "test_key_1");
    assert_eq!(WalletContext::for_network(Network::Test).key_name, "test_key_1");
}

#[test]
fn derive_address_matches_bip86_vector() {
    let ctx = WalletContext::for_network(Network::Main);
    let a = derive_address(&ctx, &hex(BIP86_KEY)).unwrap();
    assert_eq!(a.address, BIP86_ADDRESS);
    assert_eq!(a.script_pubkey, hex("5120a60869f0dbcf1dc659c9cecbaf8050135ea9e8cdc487053f1dc6880949dc684c"));
}

#[test]
fn derive_address_is_deterministic() {
    let ctx = WalletContext::for_network(Network::Test);
    let a = derive_address(&ctx, &hex(BIP86_KEY)).unwrap();
    let b = derive_address(&ctx, &hex(BIP86_KEY)).unwrap();
    assert_eq!(a.address, b.address);
    assert_eq!(a.script_pubkey, b.script_pubkey);
    assert!(a.address.starts_with("tb1p"));
}

#[test]
fn derive_address_rejects_bad_key() {
    let ctx = WalletContext::for_network(Network::Test);
    assert!(matches!(derive_address(&ctx, &vec![2u8; 5]), Err(WalletError::KeyDerivation)));
}

#[test]
fn validate_rejects_zero_amount() {
    let ctx = WalletContext::for_network(Network::Main);
    let req = SendBtcRequest { destination_address: BIP86_ADDRESS.to_string(), amount_in_satoshi: 0 };
    assert!(matches!(validate_send_request(&ctx, &req), Err(WalletError::ZeroAmount)));
}

#[test]
fn validate_rejects_malformed_address() {
    let ctx = WalletContext::for_network(Network::Main);
    let req = SendBtcRequest { destination_address: "not an address".to_string(), amount_in_satoshi: 10 };
    assert!(matches!(validate_send_request(&ctx, &req), Err(WalletError::MalformedAddress)));
}

#[test]
fn validate_rejects_address_of_other_network() {
    let ctx = WalletContext::for_network(Network::Test);
    let req = SendBtcRequest { destination_address: BIP86_ADDRESS.to_string(), amount_in_satoshi: 10 };
    assert!(matches!(validate_send_request(&ctx, &req), Err(WalletError::WrongNetwork)));
}

#[test]
fn validate_accepts_address_of_own_network() {
    let ctx = WalletContext::for_network(Network::Test);
    let a = derive_address(&ctx, &hex(BIP86_KEY)).unwrap();
    let req = SendBtcRequest { destination_address: a.address.clone(), amount_in_satoshi: 10 };
    match validate_send_request(&ctx, &req) {
        Ok(PrimaryOutput::Address(script, amount)) => {
            assert_eq!(script, a.script_pubkey);
            assert_eq!(amount, 10);
        }
        _ => panic!("request should be accepted"),
    }
}

#[test]
fn greedy_takes_largest_first_and_stops() {
    let utxos = vec![utxo(1, 10), utxo(2, 50), utxo(3, 30), utxo(4, 50)];
    let sel = select_utxos_greedy(&utxos, 60, 5).unwrap();
    assert_eq!(sel, vec![utxo(2, 50), utxo(4, 50)]);
    let sel = select_utxos_greedy(&utxos, 40, 0).unwrap();
    assert_eq!(sel, vec![utxo(2, 50)]);
}

#[test]
fn greedy_zero_target_selects_nothing() {
    let utxos = vec![utxo(1, 10)];
    assert_eq!(select_utxos_greedy(&utxos, 0, 0).unwrap(), vec![]);
}

#[test]
fn greedy_reports_shortfall() {
    let utxos = vec![utxo(1, 400), utxo(2, 600)];
    assert_eq!(select_utxos_greedy(&utxos, 5_000, 0), Err(WalletError::InsufficientFunds { shortfall: 4_000 }));
    assert_eq!(select_utxos_greedy(&utxos, 5_000, 7), Err(WalletError::InsufficientFunds { shortfall: 4_007 }));
    assert_eq!(select_utxos_greedy(&vec![], 1, 0), Err(WalletError::InsufficientFunds { shortfall: 1 }));
}

#[test]
fn greedy_handles_largest_values() {
    let utxos = vec![utxo(1, u64::MAX), utxo(2, u64::MAX)];
    let sel = select_utxos_greedy(&utxos, u64::MAX, u64::MAX).unwrap();
    assert_eq!(sel.len(), 2);
}

#[test]
fn single_picks_smallest_sufficient() {
    let utxos = vec![utxo(1, 90), utxo(2, 40), utxo(3, 60), utxo(4, 40), utxo(5, 20)];
    assert_eq!(select_one_utxo(&utxos, 35, 5).unwrap(), vec![utxo(2, 40)]);
    assert_eq!(select_one_utxo(&utxos, 41, 0).unwrap(), vec![utxo(3, 60)]);
}

#[test]
fn single_reports_shortfall_against_largest() {
    let utxos = vec![utxo(1, 90), utxo(2, 40)];
    assert_eq!(select_one_utxo(&utxos, 100, 10), Err(WalletError::InsufficientFunds { shortfall: 20 }));
}

#[test]
fn builder_adds_change_and_balances() {
    let own = own_script();
    let dest = vec![0x51, 0x20, 7, 7];
    let inputs = vec![utxo(1, 700), utxo(2, 500)];
    let (tx, prevouts) = build_transaction_with_fee(&inputs, &own, &PrimaryOutput::Address(dest.clone(), 1_000), 50).unwrap();
    assert_eq!(tx.inputs.len(), 2);
    assert_eq!(tx.inputs[1], TxInput { txid: [2; 32], vout: 2, sequence: RBF_SEQUENCE, witness: vec![] });
    assert_eq!(tx.outputs, vec![
        TxOutput { value: 1_000, script_pubkey: dest },
        TxOutput { value: 150, script_pubkey: own.clone() },
    ]);
    assert_eq!(prevouts, vec![
        TxOutput { value: 700, script_pubkey: own.clone() },
        TxOutput { value: 500, script_pubkey: own },
    ]);
    let out: u64 = tx.outputs.iter().map(|o| o.value).sum();
    assert_eq!(1_200, out + 50);
}

#[test]
fn builder_omits_zero_change() {
    let own = own_script();
    let inputs = vec![utxo(1, 1_050)];
    let (tx, _) = build_transaction_with_fee(&inputs, &own, &PrimaryOutput::Address(vec![1], 1_000), 50).unwrap();
    assert_eq!(tx.outputs.len(), 1);
}

#[test]
fn builder_rejects_fee_beyond_inputs() {
    let own = own_script();
    let inputs = vec![utxo(1, 1_000)];
    assert_eq!(build_transaction_with_fee(&inputs, &own, &PrimaryOutput::Address(vec![1], 1_000), 1), Err(WalletError::Build));
}

#[test]
fn builder_writes_op_return_output() {
    let own = own_script();
    let inputs = vec![utxo(1, 1_000)];
    let (tx, _) = build_transaction_with_fee(&inputs, &own, &PrimaryOutput::OpReturn(b"hi".to_vec()), 100).unwrap();
    assert_eq!(tx.outputs[0], TxOutput { value: 0, script_pubkey: vec![0x6a, 2, b'h', b'i'] });
    assert_eq!(tx.outputs[1], TxOutput { value: 900, script_pubkey: own });
}

#[test]
fn probe_has_one_signature_per_input() {
    let own = own_script();
    let inputs = vec![utxo(1, 1_000), utxo(2, 1_000)];
    let (tx, _) = build_transaction_with_fee(&inputs, &own, &PrimaryOutput::Address(vec![1], 500), 0).unwrap();
    let probe = probe_signed(&tx);
    assert!(probe.inputs.iter().all(|i| i.witness.len() == 1 && i.witness[0].len() == 64));
    assert_eq!(probe.outputs, tx.outputs);
    assert!(signed_vsize(&tx) > signed_vsize(&Transaction { inputs: vec![], outputs: tx.outputs.clone() }));
}

#[test]
fn fee_loop_one_input_two_outputs() {
    let own = own_script();
    let utxos = vec![utxo(9, 100_000)];
    let dest = derive_address(&WalletContext::for_network(Network::Test), &hex(BIP86_KEY)).unwrap().script_pubkey;
    for rate in [2u64, 2_000, 25_000] {
        let (tx, prevouts) =
            build_transaction(&own, &utxos, SelectUtxosMode::Greedy, &PrimaryOutput::Address(dest.clone(), 50_000), rate).unwrap();
        assert_eq!(tx.inputs.len(), 1);
        assert_eq!(tx.outputs.len(), 2);
        let fee = signed_vsize(&tx) * rate / 1000;
        assert_eq!(tx.outputs[0].value, 50_000);
        assert_eq!(tx.outputs[1].value, 100_000 - 50_000 - fee);
        assert_eq!(prevouts[0].value, 100_000);
        if rate == 2 {
            assert_eq!(fee, 0);
        } else {
            assert!(fee > 0);
        }
    }
}

#[test]
fn fee_loop_adds_inputs_when_fee_needs_them() {
    let own = own_script();
    let utxos = vec![utxo(1, 50_000), utxo(2, 20_000)];
    let (tx, prevouts) =
        build_transaction(&own, &utxos, SelectUtxosMode::Greedy, &PrimaryOutput::Address(vec![0x51, 0x20], 50_000), 10_000).unwrap();
    assert_eq!(tx.inputs.len(), 2);
    let fee = signed_vsize(&tx) * 10_000 / 1000;
    let out: u64 = tx.outputs.iter().map(|o| o.value).sum();
    assert_eq!(prevouts.iter().map(|p| p.value).sum::<u64>(), out + fee);
}

#[test]
fn fee_loop_is_repeatable() {
    let own = own_script();
    let utxos = vec![utxo(1, 30_000), utxo(2, 30_000), utxo(3, 5_000)];
    let primary = PrimaryOutput::Address(vec![0x51, 0x20], 40_000);
    let first = build_transaction(&own, &utxos, SelectUtxosMode::Greedy, &primary, 3_000);
    let second = build_transaction(&own, &utxos, SelectUtxosMode::Greedy, &primary, 3_000);
    assert_eq!(first, second);
}

#[test]
fn fee_loop_reports_insufficient_funds() {
    let own = own_script();
    let utxos = vec![utxo(1, 600), utxo(2, 400)];
    let r = build_transaction(&own, &utxos, SelectUtxosMode::Greedy, &PrimaryOutput::Address(vec![1], 5_000), 2_000);
    assert_eq!(r, Err(WalletError::InsufficientFunds { shortfall: 4_000 }));
}

#[test]
fn fee_loop_single_mode() {
    let own = own_script();
    let utxos = vec![utxo(1, 90_000), utxo(2, 60_000)];
    let (tx, _) = build_transaction(&own, &utxos, SelectUtxosMode::Single, &PrimaryOutput::Address(vec![1], 50_000), 1_000).unwrap();
    assert_eq!(tx.inputs[0].txid, [2; 32]);
    let r = build_transaction(&own, &utxos, SelectUtxosMode::Single, &PrimaryOutput::Address(vec![1], 95_000), 1_000);
    assert_eq!(r, Err(WalletError::InsufficientFunds { shortfall: 5_000 }));
}

#[test]
fn sighash_rejects_bad_index_and_prevouts() {
    let own = own_script();
    let (tx, prevouts) = build_transaction_with_fee(&vec![utxo(1, 1_000)], &own, &PrimaryOutput::Address(vec![1], 500), 0).unwrap();
    assert_eq!(key_spend_sighash(&tx, &prevouts, 1), Err(WalletError::Signing));
    assert_eq!(key_spend_sighash(&tx, &vec![], 0), Err(WalletError::Signing));
    let h = key_spend_sighash(&tx, &prevouts, 0).unwrap();
    assert_ne!(h, [0u8; 32]);
}

#[test]
fn attach_rejects_wrong_length() {
    let own = own_script();
    let (mut tx, _) = build_transaction_with_fee(&vec![utxo(1, 1_000)], &own, &PrimaryOutput::Address(vec![1], 500), 0).unwrap();
    let before = tx.clone();
    assert_eq!(attach_signature(&mut tx, 0, vec![1u8; 65]), Err(WalletError::Signing));
    assert_eq!(attach_signature(&mut tx, 1, vec![1u8; 64]), Err(WalletError::Signing));
    assert_eq!(tx, before);
    assert_eq!(attach_signature(&mut tx, 0, vec![1u8; 64]), Ok(()));
    assert_eq!(tx.inputs[0].witness, vec![vec![1u8; 64]]);
}

#[test]
fn prepare_resets_inputs() {
    let mut tx = Transaction {
        inputs: vec![TxInput { txid: [3; 32], vout: 1, sequence: 0, witness: vec![vec![9]] }],
        outputs: vec![TxOutput { value: 5, script_pubkey: vec![1] }],
    };
    prepare_for_signing(&mut tx);
    assert_eq!(tx.inputs[0], TxInput { txid: [3; 32], vout: 1, sequence: RBF_SEQUENCE, witness: vec![] });
    assert_eq!(tx.outputs, vec![TxOutput { value: 5, script_pubkey: vec![1] }]);
}

#[test]
fn key_path_signature_verifies() {
    let secp = Secp256k1::new();
    let keypair = Keypair::from_seckey_slice(&secp, &[7u8; 32]).unwrap();
    let public = bitcoin::PublicKey::new(keypair.public_key()).to_bytes();
    let ctx = WalletContext::for_network(Network::Test);
    let own = derive_address(&ctx, &public).unwrap().script_pubkey;
    let utxos = vec![utxo(1, 40_000), utxo(2, 30_000)];
    let (mut tx, prevouts) =
        build_transaction(&own, &utxos, SelectUtxosMode::Greedy, &PrimaryOutput::Address(vec![0x51, 0x20], 60_000), 2_000).unwrap();
    prepare_for_signing(&mut tx);
    let tweaked = keypair.tap_tweak(&secp, None).to_inner();
    let output_key = XOnlyPublicKey::from_slice(&own[2..]).unwrap();
    for i in 0..tx.inputs.len() {
        let digest = key_spend_sighash(&tx, &prevouts, i).unwrap();
        let sig = secp.sign_schnorr_no_aux_rand(&Message::from_digest(digest), &tweaked);
        attach_signature(&mut tx, i, sig.as_ref().to_vec()).unwrap();
    }
    for i in 0..tx.inputs.len() {
        let digest = key_spend_sighash(&tx, &prevouts, i).unwrap();
        let sig = schnorr::Signature::from_slice(&tx.inputs[i].witness[0]).unwrap();
        assert!(secp.verify_schnorr(&sig, &Message::from_digest(digest), &output_key).is_ok());
    }
    assert_eq!(tx.inputs.len(), 2);
}

#[test]
fn fee_rate_from_percentiles() {
    let percentiles: Vec<u64> = (0..101).map(|p| p * 10).collect();
    assert_eq!(fee_per_byte(Network::Main, &percentiles), 500);
    assert_eq!(fee_per_byte(Network::Test, &vec![]), 2000);
    assert_eq!(fee_per_byte(Network::Regtest, &percentiles), 2000);
}

#[test]
fn fee_loop_fails_when_fee_outgrows_amounts() {
    let own = own_script();
    let utxos = vec![utxo(1, 1_000)];
    let r = build_transaction(&own, &utxos, SelectUtxosMode::Greedy, &PrimaryOutput::OpReturn(vec![0u8; 5_000]), u64::MAX);
    assert_eq!(r, Err(WalletError::FeeConvergence));
}

#[test]
fn p2tr_script_check() {
    assert!(is_p2tr(&own_script()));
    assert!(!is_p2tr(&vec![0x00, 0x14, 1, 2]));
}

#[test]
fn broadcast_form_round_trips() {
    let own = own_script();
    let (mut tx, _) = build_transaction_with_fee(&vec![utxo(4, 9_000)], &own, &PrimaryOutput::Address(vec![0x51, 0x20], 5_000), 300).unwrap();
    attach_signature(&mut tx, 0, vec![5u8; 64]).unwrap();
    let (bytes, txid) = broadcast_form(&tx);
    let decoded: bitcoin::Transaction = bitcoin::consensus::deserialize(&bytes).unwrap();
    assert_eq!(decoded.compute_txid().to_string(), txid);
    assert_eq!(decoded.input.len(), 1);
    assert_eq!(decoded.input[0].previous_output.vout, 4);
    assert_eq!(decoded.input[0].witness.len(), 1);
    assert_eq!(decoded.output.len(), 2);
    assert_eq!(decoded.output[1].value.to_sat(), 3_700);
    assert_eq!(txid.len(), 64);
}

#[test]
fn greedy_breaks_ties_by_outpoint() {
    let utxos = vec![utxo(5, 50), utxo(3, 50), utxo(4, 80)];
    assert_eq!(select_utxos_greedy(&utxos, 100, 0).unwrap(), vec![utxo(4, 80), utxo(3, 50)]);
    let same_tx = vec![Utxo { txid: [1; 32], vout: 7, value: 10, height: 1 }, Utxo { txid: [1; 32], vout: 2, value: 10, height: 1 }];
    assert_eq!(select_utxos_greedy(&same_tx, 5, 0).unwrap()[0].vout, 2);
}

#[test]
fn outpoint_order() {
    let mut a = utxo(1, 0);
    let mut b = utxo(1, 0);
    a.txid[31] = 9;
    b.txid[0] = 2;
    assert!(outpoint_less(&a, &b));
    assert!(!outpoint_less(&b, &a));
    assert!(!outpoint_less(&a, &a));
    b = a;
    b.vout += 1;
    assert!(outpoint_less(&a, &b));
}

#[test]
fn fee_loop_always_spends_an_input() {
    let own = own_script();
    let utxos = vec![utxo(1, 10_000)];
    let (tx, _) = build_transaction(&own, &utxos, SelectUtxosMode::Greedy, &PrimaryOutput::OpReturn(b"memo".to_vec()), 0).unwrap();
    assert_eq!(tx.inputs.len(), 1);
    let r = build_transaction(&own, &vec![], SelectUtxosMode::Greedy, &PrimaryOutput::OpReturn(b"memo".to_vec()), 0);
    assert_eq!(r, Err(WalletError::InsufficientFunds { shortfall: 1 }));
}

#[test]
fn signing_step_hands_out_next_digest() {
    let own = own_script();
    let (mut tx, prevouts) =
        build_transaction_with_fee(&vec![utxo(1, 1_000), utxo(2, 1_000)], &own, &PrimaryOutput::Address(vec![1], 500), 0).unwrap();
    prepare_for_signing(&mut tx);
    let second = key_spend_sighash(&tx, &prevouts, 1).unwrap();
    assert_eq!(signing_step(&mut tx, &prevouts, 0, vec![3u8; 63]), Err(WalletError::Signing));
    assert_eq!(signing_step(&mut tx, &prevouts, 0, vec![3u8; 64]), Ok(Some(second)));
    assert_eq!(key_spend_sighash(&tx, &prevouts, 1).unwrap(), second);
    assert_eq!(signing_step(&mut tx, &prevouts, 1, vec![4u8; 64]), Ok(None));
    assert_eq!(tx.inputs[1].witness, vec![vec![4u8; 64]]);
}

#[test]
fn single_mode_zero_target_takes_smallest_output() {
    let own = own_script();
    let utxos = vec![utxo(1, 700), utxo(2, 0), utxo(3, 300)];
    let (tx, _) = build_transaction(&own, &utxos, SelectUtxosMode::Single, &PrimaryOutput::OpReturn(b"x".to_vec()), 0).unwrap();
    assert_eq!(tx.inputs.len(), 1);
    assert_eq!(tx.inputs[0].txid, [2; 32]);
    let r = build_transaction(&own, &vec![], SelectUtxosMode::Single, &PrimaryOutput::OpReturn(b"x".to_vec()), 0);
    assert_eq!(r, Err(WalletError::InsufficientFunds { shortfall: 0 }));
}

#[test]
fn op_return_uses_pushdata_prefixes() {
    let own = own_script();
    let inputs = vec![utxo(1, 1_000)];
    for (len, prefix) in [(75usize, vec![0x6a, 75]), (76, vec![0x6a, 0x4c, 76]), (300, vec![0x6a, 0x4d, 0x2c, 0x01])] {
        let data = vec![7u8; len];
        let (tx, _) = build_transaction_with_fee(&inputs, &own, &PrimaryOutput::OpReturn(data.clone()), 0).unwrap();
        let mut expected = prefix.clone();
        expected.extend_from_slice(&data);
        assert_eq!(tx.outputs[0].script_pubkey, expected);
    }
}
