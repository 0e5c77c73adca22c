use bdk_compat::chain::serde_util::{tx_set, txout_map};
use bdk_compat::chain::serde_util::tx_set::TxSet;
use bdk_compat::chain::serde_util::txout_map::{TxOutMap, TxOutMapError};
use bdk_compat::consensus::{outpoint_from_str, outpoint_to_string};
use bdk_compat::primitives::{
    bytes_eq, tx_eq, witness_eq, OutPoint, ScriptBuf, Transaction, TxIn, TxOut, Txid,
};

fn op(b: u8, vout: u32) -> OutPoint {
    let mut bytes = [0u8; 32];
    bytes[0] = b;
    bytes[31] = 0xee;
    OutPoint { txid: Txid { bytes }, vout }
}

fn txout(value: u64, spk: &[u8]) -> TxOut {
    TxOut { value, script_pubkey: ScriptBuf { bytes: spk.to_vec() } }
}

#[test]
fn outpoint_text_is_reversed_txid_hex_colon_vout() {
    let text = outpoint_to_string(&op(0x01, 7));
    assert_eq!(text.len(), 64 + 1 + 1);
    assert!(text.starts_with("ee"));
    assert!(text.ends_with("01:7"));
    let parsed = outpoint_from_str(&text).unwrap();
    assert_eq!(parsed.txid.bytes, op(0x01, 7).txid.bytes);
    assert_eq!(parsed.vout, 7);
    // Upper-case hex parses too; a leading zero in the index does not.
    assert!(outpoint_from_str(&text.to_uppercase()).is_some());
    assert!(outpoint_from_str(&format!("{}:07", &text[..64])).is_none());
    assert!(outpoint_from_str("zz:1").is_none());
}

#[test]
fn txout_map_round_trips() {
    let mut map = TxOutMap::new();
    map.insert(op(3, 1), txout(1_000, &[0x51]));
    map.insert(op(1, 0), txout(2_000, &[0x00, 0x14, 9, 9]));
    map.insert(op(2, u32::MAX), txout(0, &[]));
    let entries = txout_map::serialize(&map);
    assert_eq!(entries.len(), 3);
    // Entries come out in outpoint order: by txid bytes, then index.
    assert!(entries[0].0.ends_with("01:0"));
    assert!(entries[1].0.ends_with("02:4294967295"));
    assert!(entries[2].0.ends_with("03:1"));
    // A value is its consensus encoding: 8-byte value, CompactSize length, script.
    assert_eq!(entries[2].1, vec![0xe8, 0x03, 0, 0, 0, 0, 0, 0, 0x01, 0x51]);
    let back = txout_map::deserialize(&entries).unwrap();
    assert_eq!(back.len(), 3);
    for ((k1, v1), (k2, v2)) in back.entries().iter().zip(map.entries().iter()) {
        assert_eq!(k1.txid.bytes, k2.txid.bytes);
        assert_eq!(k1.vout, k2.vout);
        assert_eq!(v1.value, v2.value);
        assert_eq!(v1.script_pubkey.bytes, v2.script_pubkey.bytes);
    }
}

#[test]
fn txout_map_keeps_keys_in_order_and_replaces_values() {
    let mut map = TxOutMap::new();
    map.insert(op(2, 5), txout(1, &[]));
    map.insert(op(2, 1), txout(2, &[]));
    map.insert(op(1, 9), txout(3, &[]));
    map.insert(op(2, 5), txout(4, &[]));
    assert_eq!(map.len(), 3);
    let keys: Vec<(u8, u32)> = map.entries().iter().map(|(k, _)| (k.txid.bytes[0], k.vout)).collect();
    assert_eq!(keys, vec![(1, 9), (2, 1), (2, 5)]);
    let values: Vec<u64> = map.entries().iter().map(|(_, v)| v.value).collect();
    assert_eq!(values, vec![3, 2, 4]);
    // The first differing txid byte decides before the index does.
    let mut low = op(0, u32::MAX);
    low.txid.bytes[31] = 0;
    map.insert(low, txout(5, &[]));
    assert_eq!(map.entries()[0].1.value, 5);
    // Deserializing a repeated key keeps the later value; the order is the key order.
    let mut entries = txout_map::serialize(&map);
    entries.push((entries[1].0.clone(), entries[3].1.clone()));
    entries.reverse();
    let back = txout_map::deserialize(&entries).unwrap();
    assert_eq!(back.len(), 4);
    let values: Vec<u64> = back.entries().iter().map(|(_, v)| v.value).collect();
    assert_eq!(values, vec![5, 3, 2, 4]);
}

#[test]
fn txout_map_reports_the_first_bad_entry() {
    let mut map = TxOutMap::new();
    map.insert(op(1, 0), txout(1, &[0x51]));
    let good = txout_map::serialize(&map);
    let mut entries = good.clone();
    entries.push(("not an outpoint".to_string(), good[0].1.clone()));
    assert_eq!(txout_map::deserialize(&entries).unwrap_err(), TxOutMapError::InvalidKey { index: 1 });
    let mut entries = good.clone();
    entries.push((good[0].0.clone(), vec![1, 2, 3]));
    assert_eq!(txout_map::deserialize(&entries).unwrap_err(), TxOutMapError::InvalidValue { index: 1 });
    // A value with trailing bytes is refused too.
    let mut long = good[0].1.clone();
    long.push(0);
    let entries = vec![(good[0].0.clone(), long)];
    assert_eq!(txout_map::deserialize(&entries).unwrap_err(), TxOutMapError::InvalidValue { index: 0 });
    assert_eq!(txout_map::deserialize(&vec![]).unwrap().len(), 0);
}

fn tx(lock_time: u32, witness: bool) -> Transaction {
    Transaction {
        version: 1,
        lock_time,
        input: vec![TxIn {
            previous_output: op(4, 2),
            script_sig: ScriptBuf { bytes: vec![0x01, 0x02] },
            sequence: 0,
            witness: if witness { vec![vec![0xaa]] } else { vec![] },
        }],
        output: vec![txout(42, &[0x51])],
    }
}

fn set_of(txs: Vec<Transaction>) -> TxSet {
    let mut set = TxSet::new();
    for t in txs {
        set.insert(t);
    }
    set
}

#[test]
fn tx_set_round_trips() {
    let txs = vec![tx(0, false), tx(1, true), tx(2, false)];
    let first = bdk_compat::consensus::serialize_tx(&txs[0]);
    let items = tx_set::serialize(&set_of(txs));
    assert_eq!(items.len(), 3);
    assert_eq!(items[0], first);
    let back = tx_set::deserialize(&items).unwrap();
    assert_eq!(back.len(), 3);
    assert_eq!(back.txs()[1].lock_time, 1);
    assert_eq!(back.txs()[1].input[0].witness, vec![vec![0xaa]]);
    assert_eq!(back.txs()[2].output[0].value, 42);
}

#[test]
fn tx_set_holds_each_transaction_once() {
    let mut set = TxSet::new();
    assert!(set.insert(tx(5, false)));
    assert!(set.insert(tx(3, true)));
    assert!(!set.insert(tx(5, false)));
    assert_eq!(set.len(), 2);
    let mut items = tx_set::serialize(&set);
    items.push(items[0].clone());
    items.insert(1, items[0].clone());
    assert_eq!(items.len(), 4);
    let back = tx_set::deserialize(&items).unwrap();
    assert_eq!(back.len(), 2);
    let txs = back.into_txs();
    assert_eq!(txs[0].lock_time, 5);
    assert_eq!(txs[1].lock_time, 3);
    assert_eq!(txs[1].input[0].witness, vec![vec![0xaa]]);
}

#[test]
fn tx_set_reports_the_first_bad_item() {
    let mut items = tx_set::serialize(&set_of(vec![tx(0, false)]));
    items.push(vec![0xde, 0xad]);
    items.push(vec![]);
    assert_eq!(tx_set::deserialize(&items).unwrap_err(), 1);
    assert_eq!(tx_set::deserialize(&vec![]).unwrap().len(), 0);
}

#[test]
fn outpoints_order_by_txid_bytes_then_index() {
    assert!(txout_map::outpoint_less(&op(1, 9), &op(2, 0)));
    assert!(!txout_map::outpoint_less(&op(2, 0), &op(1, 9)));
    assert!(txout_map::outpoint_less(&op(2, 0), &op(2, 1)));
    assert!(!txout_map::outpoint_less(&op(2, 1), &op(2, 1)));
    let mut later = op(2, 0);
    later.txid.bytes[31] = 0xef;
    assert!(txout_map::outpoint_less(&op(2, 7), &later));
}

#[test]
fn transactions_compare_field_by_field() {
    assert!(tx_eq(&tx(1, true), &tx(1, true)));
    assert!(!tx_eq(&tx(1, true), &tx(1, false)));
    assert!(!tx_eq(&tx(1, true), &tx(2, true)));
    let mut other = tx(1, true);
    other.output[0].script_pubkey.bytes.push(0);
    assert!(!tx_eq(&tx(1, true), &other));
    assert!(witness_eq(&vec![vec![1], vec![]], &vec![vec![1], vec![]]));
    assert!(!witness_eq(&vec![vec![1], vec![]], &vec![vec![1]]));
    assert!(bytes_eq(&[1, 2], &[1, 2]));
    assert!(!bytes_eq(&[1, 2], &[1, 3]));
}
