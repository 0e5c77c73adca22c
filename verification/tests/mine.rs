use bdk_compat::consensus::compute_txid;
use bdk_compat::primitives::{BlockHash, ScriptBuf, Transaction, TxOut};
use bdk_compat::testenv::mine::{
    block_time, coinbase_outputs, coinbase_script_sig, find_nonce, mine, try_coinbase_script_sig,
    try_mine, BlockTemplate, MineError, MineParams, TemplateTransaction,
};
use bitcoin::hashes::Hash as _;

fn template(transactions: Vec<TemplateTransaction>, commitment: Option<&str>) -> BlockTemplate {
    BlockTemplate {
        version: 0x2000_0000,
        previous_block_hash: BlockHash { bytes: [9; 32] },
        transactions,
        coinbase_aux: vec![],
        coinbase_value: 5_000_000_000,
        min_time: 1_700_000_000,
        bits: 0x207f_ffff,
        height: 101,
        default_witness_commitment: commitment.map(|s| s.to_string()),
    }
}

fn spend(fee: i64) -> TemplateTransaction {
    TemplateTransaction {
        data: Transaction {
            version: 2,
            lock_time: 0,
            input: vec![bdk_compat::primitives::TxIn {
                previous_output: bdk_compat::primitives::OutPoint {
                    txid: bdk_compat::primitives::Txid { bytes: [5; 32] },
                    vout: 0,
                },
                script_sig: ScriptBuf { bytes: vec![] },
                sequence: 0xffff_ffff,
                witness: vec![vec![1; 72], vec![2; 33]],
            }],
            output: vec![TxOut { value: 1000, script_pubkey: ScriptBuf { bytes: vec![0x51] } }],
        },
        fee,
    }
}

#[test]
fn coinbase_script_sig_starts_with_the_height() {
    // Heights 1..=16 are a single small-integer opcode: padded with OP_0.
    assert_eq!(coinbase_script_sig(1, &vec![]), vec![0x51, 0x00]);
    assert_eq!(coinbase_script_sig(16, &vec![]), vec![0x60, 0x00]);
    // Height 0 is OP_0, padded with another OP_0.
    assert_eq!(coinbase_script_sig(0, &vec![]), vec![0x00, 0x00]);
    // Larger heights are data pushes of their script-number encoding.
    assert_eq!(coinbase_script_sig(17, &vec![]), vec![0x01, 0x11]);
    assert_eq!(coinbase_script_sig(101, &vec![]), vec![0x01, 0x65]);
    assert_eq!(coinbase_script_sig(128, &vec![]), vec![0x02, 0x80, 0x00]);
    assert_eq!(coinbase_script_sig(500_000, &vec![]), vec![0x03, 0x20, 0xa1, 0x07]);
    // Auxiliary data follows as pushes.
    assert_eq!(
        coinbase_script_sig(1, &vec!["abcd".to_string(), "".to_string()]),
        vec![0x51, 0x02, 0xab, 0xcd, 0x00]
    );
}

#[test]
fn coinbase_script_sig_refuses_bad_hex() {
    assert!(try_coinbase_script_sig(1, &vec!["zz".to_string()]).is_none());
    assert!(try_coinbase_script_sig(1, &vec!["abc".to_string()]).is_none());
    assert_eq!(try_coinbase_script_sig(2, &vec!["ff".to_string()]), Some(vec![0x52, 0x01, 0xff]));
}

#[test]
fn anyone_can_spend_is_the_default_coinbase_script() {
    let params = MineParams::default();
    assert_eq!(params.address_or_anyone_can_spend().bytes, vec![0x51]);
    let params = MineParams {
        empty: false,
        time: None,
        coinbase_address: Some(ScriptBuf { bytes: vec![0x00, 0x14, 1, 2] }),
    };
    assert_eq!(params.address_or_anyone_can_spend().bytes, vec![0x00, 0x14, 1, 2]);
}

#[test]
fn empty_block_coinbase_leaves_out_the_fees() {
    let t = template(vec![spend(1_000), spend(2_500)], Some("6a24aa21a9ed"));
    let params = MineParams { empty: true, time: None, coinbase_address: None };
    let outs = coinbase_outputs(&params, &t).unwrap();
    assert_eq!(outs.len(), 1);
    assert_eq!(outs[0].value, 5_000_000_000 - 3_500);
    assert_eq!(outs[0].script_pubkey.bytes, vec![0x51]);
}

#[test]
fn full_block_coinbase_claims_everything_and_commits() {
    let t = template(vec![spend(1_000)], Some("6a24aa21a9ed"));
    let params = MineParams { empty: false, time: None, coinbase_address: None };
    let outs = coinbase_outputs(&params, &t).unwrap();
    assert_eq!(outs.len(), 2);
    assert_eq!(outs[0].value, 5_000_000_000);
    assert_eq!(outs[1].value, 0);
    assert_eq!(outs[1].script_pubkey.bytes, vec![0x6a, 0x24, 0xaa, 0x21, 0xa9, 0xed]);
    let t = template(vec![], None);
    assert_eq!(coinbase_outputs(&params, &t).unwrap().len(), 1);
}

#[test]
fn bad_witness_commitment_is_an_error() {
    let t = template(vec![], Some("not hex"));
    let params = MineParams { empty: false, time: None, coinbase_address: None };
    assert_eq!(coinbase_outputs(&params, &t).unwrap_err(), MineError::WitnessCommitmentHex);
    match mine(&params, &t, 0) {
        Err(e) => assert_eq!(e, MineError::WitnessCommitmentHex),
        Ok(_) => panic!("must fail"),
    }
    // An empty block leaves the commitment out, so it is not read.
    let params = MineParams { empty: true, time: None, coinbase_address: None };
    assert!(mine(&params, &t, 0).is_ok());
}

#[test]
fn block_time_is_custom_or_the_later_of_min_time_and_now() {
    assert_eq!(block_time(Some(5), 100, 200), 5);
    assert_eq!(block_time(None, 100, 200), 200);
    assert_eq!(block_time(None, 300, 200), 300);
    // The current time is cut to 32 bits.
    assert_eq!(block_time(None, 7, (1u64 << 32) + 3), 7);
    assert_eq!(block_time(None, 7, (1u64 << 32) + 9), 9);
}

#[test]
fn mined_empty_block_is_valid_for_regtest() {
    let t = template(vec![spend(1_000)], Some("6a24aa21a9ed"));
    let params = MineParams { empty: true, time: Some(1_700_000_123), coinbase_address: None };
    let m = mine(&params, &t, 0).unwrap();
    assert_eq!(m.height, 101);
    assert_eq!(m.block.txdata.len(), 1);
    let cb = &m.block.txdata[0];
    assert_eq!(cb.input.len(), 1);
    assert_eq!(cb.input[0].previous_output.vout, u32::MAX);
    assert_eq!(cb.input[0].previous_output.txid.bytes, [0; 32]);
    assert_eq!(cb.input[0].script_sig.bytes, vec![0x01, 0x65]);
    assert_eq!(cb.output[0].value, 5_000_000_000 - 1_000);
    assert_eq!(m.block.header.time, 1_700_000_123);
    assert_eq!(m.block.header.bits, 0x207f_ffff);
    assert_eq!(m.block.header.prev_blockhash.bytes, [9; 32]);
    // One transaction: the merkle root is its txid.
    assert_eq!(m.block.header.merkle_root.bytes, compute_txid(cb).bytes);
    // The hash is the header's, and it meets the target.
    let header = bitcoin::block::Header {
        version: bitcoin::block::Version::from_consensus(m.block.header.version),
        prev_blockhash: bitcoin::BlockHash::from_byte_array(m.block.header.prev_blockhash.bytes),
        merkle_root: bitcoin::TxMerkleNode::from_byte_array(m.block.header.merkle_root.bytes),
        time: m.block.header.time,
        bits: bitcoin::CompactTarget::from_consensus(m.block.header.bits),
        nonce: m.block.header.nonce,
    };
    assert_eq!(header.block_hash().to_byte_array(), m.hash.bytes);
    assert!(header.target().is_met_by(header.block_hash()));
}

#[test]
fn mined_full_block_holds_the_template_transactions() {
    let t = template(vec![spend(1_000), spend(2_000)], Some("6a24aa21a9ed"));
    let params = MineParams { empty: false, time: None, coinbase_address: None };
    let m = mine(&params, &t, 1_800_000_000).unwrap();
    assert_eq!(m.block.txdata.len(), 3);
    assert_eq!(m.block.txdata[0].output.len(), 2);
    assert_eq!(m.block.txdata[0].output[0].value, 5_000_000_000);
    assert_eq!(m.block.txdata[1].input[0].witness.len(), 2);
    assert_eq!(m.block.header.time, 1_800_000_000);
    // The merkle root is bitcoin's over the three txids.
    let ids = m.block.txdata.iter().map(|tx| bitcoin::Txid::from_byte_array(compute_txid(tx).bytes));
    let root: bitcoin::Txid = bitcoin::merkle_tree::calculate_root(ids).unwrap();
    assert_eq!(m.block.header.merkle_root.bytes, root.to_byte_array());
    assert!(try_mine(&params, &t, 0).unwrap().is_ok());
    let mut bad = template(vec![], None);
    bad.coinbase_aux = vec!["xyz".to_string()];
    assert!(try_mine(&params, &bad, 0).is_none());
}

#[test]
fn nonce_search_takes_the_first_nonce_that_meets_the_target() {
    let t = template(vec![], None);
    let params = MineParams { empty: false, time: Some(1), coinbase_address: None };
    let m = mine(&params, &t, 0).unwrap();
    let mut header = m.block.header;
    header.nonce = 0;
    let (found, hash) = find_nonce(header).unwrap();
    assert_eq!(found.nonce, m.block.header.nonce);
    assert_eq!(hash.bytes, m.hash.bytes);
    for n in 0..found.nonce {
        let mut h = header;
        h.nonce = n;
        let hash = bdk_compat::consensus::block_hash(&h);
        assert!(!bdk_compat::consensus::target_is_met(h.bits, &hash));
    }
}

fn send(value: u64, tag: u8) -> TemplateTransaction {
    let mut t = spend(1_000);
    t.data.input[0].previous_output.txid.bytes = [tag; 32];
    t.data.output[0].value = value;
    t
}

#[test]
fn test_mine_block() {
    let anyone_can_spend = vec![0x51];

    // A block with a custom time.
    let t = template(vec![], Some("6a24aa21a9ed"));
    let custom_time = t.min_time + 100;
    let params = MineParams { empty: false, time: Some(custom_time), coinbase_address: None };
    let a = mine(&params, &t, 1_600_000_000).unwrap();
    assert_eq!(a.block.header.time, custom_time);
    assert_eq!(
        a.block.txdata[0].output[0].script_pubkey.bytes, anyone_can_spend,
        "Subsidy address must be anyone_can_spend"
    );

    // A block at the minimum time, with the template's transactions.
    let sends = vec![send(100_000, 1), send(200_000, 2), send(300_000, 3)];
    let expected: std::collections::BTreeSet<[u8; 32]> =
        sends.iter().map(|s| compute_txid(&s.data).bytes).collect();
    let t = template(sends, Some("6a24aa21a9ed"));
    let min_time = t.min_time;
    let params = MineParams { empty: false, time: Some(min_time), coinbase_address: None };
    let b = mine(&params, &t, 1_900_000_000).unwrap();
    assert_eq!(b.block.header.time, min_time);
    assert_eq!(
        b.block.txdata[0].output[0].script_pubkey.bytes, anyone_can_spend,
        "Subsidy address must be anyone_can_spend"
    );
    let included: std::collections::BTreeSet<[u8; 32]> =
        b.block.txdata.iter().skip(1).map(|tx| compute_txid(tx).bytes).collect();
    assert_eq!(included, expected, "Must have all txs");

    // A custom subsidy script.
    let addr_spk = vec![0x00, 0x14, 0xe8, 0xdf, 0x01, 0x8c, 0x7e, 0x32, 0x6c, 0xc2, 0x53, 0xfa,
        0xac, 0x7e, 0x46, 0xcd, 0xc5, 0x1e, 0x68, 0x54, 0x2c, 0x42];
    let params = MineParams {
        empty: false,
        time: None,
        coinbase_address: Some(ScriptBuf { bytes: addr_spk.clone() }),
    };
    let c = mine(&params, &t, 1_900_000_000).unwrap();
    assert_eq!(c.block.txdata[0].output[0].script_pubkey.bytes, addr_spk, "Custom address works");
}
