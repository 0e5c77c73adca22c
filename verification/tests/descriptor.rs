use bdk_compat::chain::descriptor_ext::{Descriptor, DescriptorExt};
use bdk_compat::consensus::{minimal_non_dust, sha256_hash};
use bitcoin::hashes::Hash as _;
use std::str::FromStr;

const XPUB: &str = "xpub661MyMwAqRbcFtXgS5sYJABqqG9YLmC4Q1Rdap9gSE8NqtwybGhePY2gZ29ESFjqJoCu1Rupje8YtGqsefD265TMg7usUDFdp6W1EGMcet8";

fn spk_at_zero(text: &str) -> Vec<u8> {
    let d = miniscript::Descriptor::<miniscript::DescriptorPublicKey>::from_str(text).unwrap();
    d.at_derivation_index(0).unwrap().script_pubkey().into_bytes()
}

#[test]
fn wpkh_dust_value_is_294() {
    let text = format!("wpkh({}/0/*)", XPUB);
    let d = Descriptor { text: text.clone() };
    assert_eq!(d.dust_value().to_sat(), 294);
    assert_eq!(spk_at_zero(&text).len(), 22);
}

#[test]
fn pkh_dust_value_is_546() {
    let d = Descriptor { text: format!("pkh({}/0/*)", XPUB) };
    assert_eq!(d.dust_value().to_sat(), 546);
    assert_eq!(d.try_dust_value().unwrap().to_sat(), 546);
}

#[test]
fn descriptor_id_is_the_sha256_of_the_first_spk() {
    let text = format!("tr({}/1/*)", XPUB);
    let d = Descriptor { text: text.clone() };
    let expected = bitcoin::hashes::sha256::Hash::hash(&spk_at_zero(&text)).to_byte_array();
    assert_eq!(d.descriptor_id().bytes, expected);
    assert_eq!(d.try_descriptor_id().unwrap().bytes, expected);
    // Descriptors that differ at index 0 have different IDs.
    let other = Descriptor { text: format!("tr({}/0/*)", XPUB) };
    assert_ne!(other.descriptor_id().bytes, expected);
}

#[test]
fn hardened_wildcard_derives_nothing() {
    let d = Descriptor { text: format!("wpkh({}/0/*')", XPUB) };
    assert!(d.try_dust_value().is_none());
    assert!(d.try_descriptor_id().is_none());
    let bad = Descriptor { text: "not a descriptor".to_string() };
    assert!(bad.try_descriptor_id().is_none());
}

#[test]
fn dust_thresholds_follow_the_script_kind() {
    // OP_RETURN outputs are never dust.
    assert_eq!(minimal_non_dust(&[0x6a, 0x01, 0x00]), 0);
    // P2WSH: 3 * (67 + 8 + 1 + 34).
    let mut p2wsh = vec![0x00, 0x20];
    p2wsh.extend([0u8; 32]);
    assert_eq!(minimal_non_dust(&p2wsh), 330);
    // P2TR: 3 * (67 + 8 + 1 + 34).
    let mut p2tr = vec![0x51, 0x20];
    p2tr.extend([0u8; 32]);
    assert_eq!(minimal_non_dust(&p2tr), 330);
    // A bare script of 3 bytes: 3 * (148 + 8 + 1 + 3).
    assert_eq!(minimal_non_dust(&[0x51, 0x52, 0x93]), 480);
    assert_eq!(sha256_hash(b"").len(), 32);
}
