//! Conversions between the values of `miniscript`'s `bitcoin` dependency and the version that
//! bdk tracks. Values cross the descriptor boundary as raw bytes and satoshis.
use crate::bitcoin_032;
use crate::convert;
use crate::primitives::{Amount, ScriptBuf, MAX_MONEY};
use vstd::prelude::*;

verus! {

/// Converts a script pubkey from `miniscript`'s `bitcoin` version, moving its bytes.
pub fn spk_from_ms(spk: ScriptBuf) -> (r: ScriptBuf)
    ensures
        r@ == spk@,
{
    convert::spk_from_032(spk)
}

/// Converts a script pubkey to `miniscript`'s `bitcoin` version, moving its bytes.
pub fn spk_to_ms(spk: ScriptBuf) -> (r: ScriptBuf)
    ensures
        r@ == spk@,
{
    convert::spk_to_032(spk)
}

/// Converts an amount from `miniscript`'s `bitcoin` version. The amount must not exceed the
/// supply cap, which the version bdk tracks enforces.
pub fn amount_from_ms(amount: bitcoin_032::Amount) -> (r: Amount)
    requires
        amount.sat <= MAX_MONEY,
    ensures
        r.spec_sat() == amount.sat,
{
    convert::amount_from_032(amount)
}

} // verus!
