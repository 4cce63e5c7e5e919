//! The colour that a player is drawn in.

use vstd::prelude::*;

verus! {

/// The hue of the player with the peer identifier `peer_bits`, in degrees:
/// thirty times the identifier, wrapped to 64 bits, modulo a full turn.
pub open spec fn spec_hue_of(peer_bits: u64) -> u64 {
    (((peer_bits as nat * 30) % 0x1_0000_0000_0000_0000) % 360) as u64
}

/// The hue of the player with the peer identifier `peer_bits`, in degrees.
pub fn hue_of(peer_bits: u64) -> (hue: u64)
    ensures
        hue == spec_hue_of(peer_bits),
        hue < 360,
{
    peer_bits.wrapping_mul(30) % 360
}

} // verus!
