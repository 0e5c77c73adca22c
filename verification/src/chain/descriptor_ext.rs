//! Extra functions on descriptors: their dust value and their ID.
use crate::bitcoin_032;
use crate::chain::compat::amount_from_ms;
use crate::consensus::{
    compact_size, descriptor_script_pubkey, lemma_compact_size_len, descriptor_spk, is_op_return, is_witness_program,
    minimal_non_dust, minimal_non_dust_sat, sha256, sha256_hash,
};
use crate::primitives::{Amount, MAX_MONEY};
use vstd::prelude::*;

verus! {

/// The unique ID of a descriptor: the SHA-256 of the script pubkey it derives at index 0.
///
/// It gives a descriptor a fixed-length representation, so that changes of application state
/// that concern the descriptor can be persisted without writing the whole descriptor each time.
#[derive(Clone, Copy, Debug)]
pub struct DescriptorId {
    pub bytes: [u8; 32],
}

impl View for DescriptorId {
    type V = Seq<u8>;

    open spec fn view(&self) -> Seq<u8> {
        self.bytes@
    }
}

/// A descriptor of public keys, held as its text.
#[derive(Debug)]
pub struct Descriptor {
    pub text: String,
}

impl View for Descriptor {
    type V = Seq<char>;

    open spec fn view(&self) -> Seq<char> {
        self.text@
    }
}

/// Extends a descriptor with its dust value and its ID.
pub trait DescriptorExt {
    /// The script pubkey that the descriptor derives at index 0, if it derives one (a hardened
    /// wildcard does not).
    spec fn spk_at_index_zero(&self) -> Option<Seq<u8>>;

    /// The minimum amount at which an output to the descriptor (at index 0) is not dust.
    /// The descriptor must derive at index 0: a hardened wildcard does not.
    fn dust_value(&self) -> (r: Amount)
        requires
            self.spk_at_index_zero() is Some,
            self.spk_at_index_zero()->0.len() <= 0xffff_ffff,
        ensures
            r.spec_sat() == minimal_non_dust_sat(self.spk_at_index_zero()->0),
    ;

    /// The descriptor ID: the SHA-256 of the script pubkey derived at index 0.
    fn descriptor_id(&self) -> (r: DescriptorId)
        requires
            self.spk_at_index_zero() is Some,
        ensures
            r@ == sha256(self.spk_at_index_zero()->0),
    ;
}

/// The dust threshold of scripts of at most 2^32 - 1 bytes is far below the supply cap.
pub proof fn lemma_dust_below_cap(s: Seq<u8>)
    requires
        s.len() <= 0xffff_ffff,
    ensures
        minimal_non_dust_sat(s) <= MAX_MONEY,
{
    let script_size = compact_size(s.len()).len() + s.len();
    lemma_compact_size_len(s.len());
    let size: nat = if is_op_return(s) {
        0
    } else if is_witness_program(s) {
        67 + 8 + script_size
    } else {
        148 + 8 + script_size
    };
    assert(size <= 0x1_0000_0100);
    assert(3000 * size / 1000 <= 3 * 0x1_0000_0100) by (nonlinear_arith)
        requires
            size <= 0x1_0000_0100,
    ;
}

impl DescriptorExt for Descriptor {
    open spec fn spk_at_index_zero(&self) -> Option<Seq<u8>> {
        descriptor_spk(self.text@, 0)
    }

    fn dust_value(&self) -> (r: Amount) {
        let spk = descriptor_script_pubkey(self.text.as_str(), 0).unwrap();
        let sat = minimal_non_dust(spk.as_slice());
        proof {
            lemma_dust_below_cap(spk@);
        }
        amount_from_ms(bitcoin_032::Amount::from_sat(sat))
    }

    fn descriptor_id(&self) -> (r: DescriptorId) {
        let spk = descriptor_script_pubkey(self.text.as_str(), 0).unwrap();
        DescriptorId { bytes: sha256_hash(spk.as_slice()) }
    }
}

impl Descriptor {
    /// The dust value, or `None` where the descriptor does not derive at index 0 (or derives a
    /// script of 2^32 bytes or more).
    pub fn try_dust_value(&self) -> (r: Option<Amount>)
        ensures
            r is Some <==> (self.spk_at_index_zero() is Some
                && self.spk_at_index_zero()->0.len() <= 0xffff_ffff),
            r matches Some(a) ==> a.spec_sat() == minimal_non_dust_sat(
                self.spk_at_index_zero()->0,
            ),
    {
        match descriptor_script_pubkey(self.text.as_str(), 0) {
            Some(spk) => {
                if spk.len() as u64 <= 0xffff_ffffu64 {
                    Some(self.dust_value())
                } else {
                    None
                }
            },
            None => None,
        }
    }

    /// The descriptor ID, or `None` where the descriptor does not derive at index 0.
    pub fn try_descriptor_id(&self) -> (r: Option<DescriptorId>)
        ensures
            r is Some <==> self.spk_at_index_zero() is Some,
            r matches Some(id) ==> id@ == sha256(self.spk_at_index_zero()->0),
    {
        match descriptor_script_pubkey(self.text.as_str(), 0) {
            Some(_) => Some(self.descriptor_id()),
            None => None,
        }
    }
}

} // verus!
