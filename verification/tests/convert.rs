use bdk_compat::bitcoin_032;
use bdk_compat::bitcoind_rpc;
use bdk_compat::chain::compat::{amount_from_ms, spk_from_ms, spk_to_ms};
use bdk_compat::convert::{try_amount_from_032, try_tx_round_trip};
use bdk_compat::electrum;
use bdk_compat::electrum::compat::{history_from_032, GetHistoryRes};
use bdk_compat::primitives::{
    Address, Amount, Block, BlockHash, Header, OutPoint, ScriptBuf, Transaction, TxIn, TxOut,
    Txid, TxMerkleNode, MAX_MONEY,
};
use bdk_compat::testenv::compat;
use bdk_compat::witness::{tx_witnesses_fit, tx_witnesses_within_limit, witness_len_at_most};
use bitcoin::hashes::Hash as _;

fn sample_tx(with_witness: bool, inputs: usize) -> Transaction {
    let input = (0..inputs)
        .map(|i| TxIn {
            previous_output: OutPoint { txid: Txid { bytes: [i as u8 + 1; 32] }, vout: i as u32 },
            script_sig: ScriptBuf { bytes: vec![0x51, 0x52] },
            sequence: 0xffff_fffd,
            witness: if with_witness { vec![vec![1, 2, 3], vec![]] } else { vec![] },
        })
        .collect();
    Transaction {
        version: 2,
        lock_time: 500_000,
        input,
        output: vec![
            TxOut { value: 50_000, script_pubkey: ScriptBuf { bytes: vec![0x00, 0x14, 7, 7] } },
            TxOut { value: 0, script_pubkey: ScriptBuf { bytes: vec![0x6a] } },
        ],
    }
}

fn same_tx(a: &Transaction, b: &Transaction) -> bool {
    a.version == b.version
        && a.lock_time == b.lock_time
        && a.input.len() == b.input.len()
        && a.output.len() == b.output.len()
        && a.input.iter().zip(b.input.iter()).all(|(x, y)| {
            x.previous_output.txid.bytes == y.previous_output.txid.bytes
                && x.previous_output.vout == y.previous_output.vout
                && x.script_sig.bytes == y.script_sig.bytes
                && x.sequence == y.sequence
                && x.witness == y.witness
        })
        && a.output.iter().zip(b.output.iter()).all(|(x, y)| {
            x.value == y.value && x.script_pubkey.bytes == y.script_pubkey.bytes
        })
}

#[test]
fn hashes_keep_their_bytes() {
    let mut bytes = [0u8; 32];
    for (i, b) in bytes.iter_mut().enumerate() {
        *b = i as u8;
    }
    let txid = Txid { bytes };
    assert_eq!(compat::txid_from_032(txid).bytes, bytes);
    assert_eq!(compat::txid_to_032(compat::txid_from_032(txid)).bytes, bytes);
    let hash = BlockHash { bytes };
    assert_eq!(bitcoind_rpc::compat::blockhash_to_032(compat::blockhash_from_032(hash)).bytes, bytes);
    assert_eq!(electrum::compat::merkle_node_to_032(TxMerkleNode { bytes }).bytes, bytes);
}

#[test]
fn transactions_round_trip() {
    for (w, n) in [(true, 1), (false, 2), (false, 0), (true, 3)] {
        let tx = sample_tx(w, n);
        let from = compat::tx_from_032(&tx);
        assert!(same_tx(&from, &tx));
        let back = bitcoind_rpc::compat::tx_to_032(&from);
        assert!(same_tx(&back, &tx));
        assert!(same_tx(&try_tx_round_trip(&tx).unwrap(), &tx));
    }
}

#[test]
fn transaction_encoding_is_the_bitcoin_encoding() {
    let tx = sample_tx(true, 1);
    let ours = bdk_compat::consensus::serialize_tx(&tx);
    let theirs = bitcoin::Transaction {
        version: bitcoin::transaction::Version::TWO,
        lock_time: bitcoin::absolute::LockTime::from_consensus(500_000),
        input: vec![bitcoin::TxIn {
            previous_output: bitcoin::OutPoint::new(bitcoin::Txid::from_byte_array([1; 32]), 0),
            script_sig: bitcoin::ScriptBuf::from_bytes(vec![0x51, 0x52]),
            sequence: bitcoin::Sequence(0xffff_fffd),
            witness: bitcoin::Witness::from_slice(&[vec![1u8, 2, 3], vec![]]),
        }],
        output: vec![
            bitcoin::TxOut {
                value: bitcoin::Amount::from_sat(50_000),
                script_pubkey: bitcoin::ScriptBuf::from_bytes(vec![0x00, 0x14, 7, 7]),
            },
            bitcoin::TxOut {
                value: bitcoin::Amount::ZERO,
                script_pubkey: bitcoin::ScriptBuf::from_bytes(vec![0x6a]),
            },
        ],
    };
    assert_eq!(ours, bitcoin::consensus::serialize(&theirs));
    // Segwit marker and flag follow the version.
    assert_eq!(&ours[4..6], &[0x00, 0x01]);
    assert_eq!(bdk_compat::consensus::compute_txid(&tx).bytes, theirs.compute_txid().to_byte_array());
}

#[test]
fn undecodable_transaction_bytes_are_refused() {
    assert!(bdk_compat::consensus::deserialize_tx(&[0x02, 0x00, 0x00]).is_none());
    assert!(bdk_compat::consensus::deserialize_tx(&[]).is_none());
}

#[test]
fn headers_round_trip_and_hash_like_bitcoin() {
    // The mainnet genesis block header.
    let genesis = bitcoin::blockdata::constants::genesis_block(bitcoin::Network::Bitcoin).header;
    let header = Header {
        version: genesis.version.to_consensus(),
        prev_blockhash: BlockHash { bytes: genesis.prev_blockhash.to_byte_array() },
        merkle_root: TxMerkleNode { bytes: genesis.merkle_root.to_byte_array() },
        time: genesis.time,
        bits: genesis.bits.to_consensus(),
        nonce: genesis.nonce,
    };
    let bytes = bdk_compat::consensus::serialize_header(&header);
    assert_eq!(bytes.len(), 80);
    assert_eq!(bytes, bitcoin::consensus::serialize(&genesis));
    let back = electrum::compat::header_from_032(header);
    assert_eq!(back.nonce, 2083236893);
    assert_eq!(back.time, 1231006505);
    assert_eq!(back.merkle_root.bytes, header.merkle_root.bytes);
    let hash = bdk_compat::consensus::block_hash(&header);
    let mut shown = hash.bytes;
    shown.reverse();
    let hex: String = shown.iter().map(|b| format!("{:02x}", b)).collect();
    assert_eq!(hex, "000000000019d6689c085ae165831e934ff763ae46a2a6c172b3f1b60a8ce26f");
}

#[test]
fn blocks_convert_part_by_part() {
    let header = Header {
        version: 4,
        prev_blockhash: BlockHash { bytes: [3; 32] },
        merkle_root: TxMerkleNode { bytes: [4; 32] },
        time: 7,
        bits: 0x207f_ffff,
        nonce: 9,
    };
    let block = Block { header, txdata: vec![sample_tx(false, 1), sample_tx(true, 2)] };
    let converted = compat::block_from_032(&block);
    assert_eq!(converted.header.nonce, 9);
    assert_eq!(converted.header.prev_blockhash.bytes, [3; 32]);
    assert_eq!(converted.txdata.len(), 2);
    assert!(same_tx(&converted.txdata[1], &block.txdata[1]));
}

#[test]
fn scripts_keep_their_bytes() {
    let spk = ScriptBuf { bytes: vec![0x51, 0x20, 0xaa] };
    assert_eq!(compat::spk_to_032(compat::spk_from_032(spk)).bytes, vec![0x51, 0x20, 0xaa]);
    let spk = ScriptBuf { bytes: vec![0x00, 0x14] };
    assert_eq!(spk_to_ms(spk_from_ms(spk)).bytes, vec![0x00, 0x14]);
    let borrowed = ScriptBuf { bytes: vec![1, 2, 3] };
    assert_eq!(electrum::compat::spk_to_032(&borrowed).bytes, vec![1, 2, 3]);
}

#[test]
fn amounts_keep_their_satoshis_up_to_the_cap() {
    let a = compat::amount_from_032(bitcoin_032::Amount { sat: 100_000 });
    assert_eq!(a.to_sat(), 100_000);
    assert_eq!(compat::amount_to_032(a).sat, 100_000);
    let max = compat::amount_from_032(bitcoin_032::Amount { sat: MAX_MONEY });
    assert_eq!(max.to_sat(), 2_100_000_000_000_000);
    assert!(try_amount_from_032(bitcoin_032::Amount { sat: MAX_MONEY + 1 }).is_none());
    assert!(Amount::from_sat(MAX_MONEY + 1).is_none());
    assert_eq!(amount_from_ms(bitcoin_032::Amount { sat: 294 }).to_sat(), 294);
}

#[test]
fn addresses_convert_through_their_text() {
    let text = "bc1qar0srrr7xfkvy5l643lydnw9re59gtzzwf5mdq";
    let a = Address::from_text(text).unwrap();
    assert_eq!(a.as_str(), text);
    let from = compat::address_from_032(&a);
    assert_eq!(from.as_str(), text);
    let back = compat::address_to_032(&from);
    assert_eq!(back.as_str(), text);
    // An address keeps the text it displays as.
    let upper = Address::from_text(&text.to_uppercase()).unwrap();
    assert_eq!(upper.as_str(), text);
    assert!(Address::from_text("not an address").is_none());
    assert!(Address::from_text("").is_none());
}

#[test]
fn history_keeps_entries_in_order() {
    let history = vec![
        GetHistoryRes { tx_hash: Txid { bytes: [1; 32] }, height: 100 },
        GetHistoryRes { tx_hash: Txid { bytes: [2; 32] }, height: 0 },
        GetHistoryRes { tx_hash: Txid { bytes: [3; 32] }, height: -1 },
    ];
    let out = history_from_032(history);
    assert_eq!(out.len(), 3);
    assert_eq!(out[0].tx_hash.bytes, [1; 32]);
    assert_eq!(out[0].height, 100);
    assert_eq!(out[1].height, 0);
    assert_eq!(out[2].tx_hash.bytes, [3; 32]);
    assert_eq!(out[2].height, -1);
    assert!(history_from_032(vec![]).is_empty());
}

#[test]
fn oversized_witness_does_not_survive_the_round_trip() {
    let mut tx = sample_tx(true, 1);
    tx.input[0].witness = vec![vec![0u8; 4_000_001]];
    assert!(try_tx_round_trip(&tx).is_none());
    let header = Header {
        version: 1,
        prev_blockhash: BlockHash { bytes: [0; 32] },
        merkle_root: TxMerkleNode { bytes: [0; 32] },
        time: 0,
        bits: 0,
        nonce: 0,
    };
    let block = Block { header, txdata: vec![sample_tx(false, 1), tx] };
    assert!(bdk_compat::convert::try_block_from_032(&block).is_none());
    let ok = Block { header, txdata: vec![sample_tx(false, 1)] };
    assert_eq!(bdk_compat::convert::try_block_from_032(&ok).unwrap().txdata.len(), 1);
}

#[test]
fn large_transactions_within_the_witness_limit_round_trip() {
    // Each witness within the limit, the whole transaction well above four million bytes.
    let mut tx = sample_tx(true, 2);
    tx.input[0].witness = vec![vec![7u8; 2_500_000]];
    tx.input[1].witness = vec![vec![8u8; 2_500_000], vec![9u8; 1_000]];
    tx.input[1].script_sig.bytes = vec![0x51; 1_000_000];
    let back = try_tx_round_trip(&tx).unwrap();
    assert!(same_tx(&back, &tx));
    // At the limit: one element of 3_999_995 bytes and its five-byte length.
    let mut tx = sample_tx(true, 1);
    tx.input[0].witness = vec![vec![1u8; 3_999_995]];
    assert!(same_tx(&try_tx_round_trip(&tx).unwrap(), &tx));
    tx.input[0].witness = vec![vec![1u8; 3_999_996]];
    assert!(try_tx_round_trip(&tx).is_none());
}

#[test]
fn converted_addresses_convert_back_unchanged() {
    for (text, normal) in [
        ("bc1qar0srrr7xfkvy5l643lydnw9re59gtzzwf5mdq", "bc1qar0srrr7xfkvy5l643lydnw9re59gtzzwf5mdq"),
        ("BC1QAR0SRRR7XFKVY5L643LYDNW9RE59GTZZWF5MDQ", "bc1qar0srrr7xfkvy5l643lydnw9re59gtzzwf5mdq"),
        ("tb1qw508d6qejxtdg4y5r3zarvary0c5xw7kxpjzsx", "tb1qw508d6qejxtdg4y5r3zarvary0c5xw7kxpjzsx"),
        ("1BvBMSEYstWetqTFn5Au4m4GFg7xJaNVN2", "1BvBMSEYstWetqTFn5Au4m4GFg7xJaNVN2"),
        ("3J98t1WpEZ73CNmQviecrnyiWrnqRhWNLy", "3J98t1WpEZ73CNmQviecrnyiWrnqRhWNLy"),
    ] {
        let a = Address::from_text(text).unwrap();
        assert_eq!(a.as_str(), normal);
        let back = compat::address_from_032(&compat::address_to_032(&a));
        assert_eq!(back.as_str(), a.as_str());
    }
}

#[test]
fn converted_blocks_encode_and_hash_as_before() {
    let header = Header {
        version: 4,
        prev_blockhash: BlockHash { bytes: [3; 32] },
        merkle_root: TxMerkleNode { bytes: [4; 32] },
        time: 7,
        bits: 0x207f_ffff,
        nonce: 9,
    };
    let block = Block { header, txdata: vec![sample_tx(true, 1), sample_tx(false, 0)] };
    let converted = bitcoind_rpc::compat::block_from_032(&block);
    assert_eq!(
        bdk_compat::consensus::block_hash(&converted.header).bytes,
        bdk_compat::consensus::block_hash(&block.header).bytes
    );
    for (a, b) in converted.txdata.iter().zip(block.txdata.iter()) {
        assert_eq!(bdk_compat::consensus::serialize_tx(a), bdk_compat::consensus::serialize_tx(b));
        assert_eq!(
            bdk_compat::consensus::compute_txid(a).bytes,
            bdk_compat::consensus::compute_txid(b).bytes
        );
    }
    // A decoded transaction encodes back to the bytes it came from.
    let bytes = bdk_compat::consensus::serialize_tx(&block.txdata[0]);
    let decoded = bdk_compat::consensus::deserialize_tx(&bytes).unwrap();
    assert_eq!(bdk_compat::consensus::serialize_tx(&decoded), bytes);
}

#[test]
fn witness_limits_are_checked_before_encoding() {
    let mut tx = sample_tx(true, 1);
    assert!(tx_witnesses_fit(&tx));
    assert!(tx_witnesses_within_limit(&tx));
    // Two elements of 3 and 0 bytes take 4 + 1 bytes with their lengths.
    assert!(witness_len_at_most(&tx.input[0].witness, 2, 5));
    assert!(!witness_len_at_most(&tx.input[0].witness, 2, 4));
    assert!(witness_len_at_most(&tx.input[0].witness, 1, 4));
    tx.input[0].witness = vec![vec![0u8; 4_000_000]];
    assert!(tx_witnesses_fit(&tx));
    assert!(!tx_witnesses_within_limit(&tx));
    assert!(try_tx_round_trip(&tx).is_none());
}
