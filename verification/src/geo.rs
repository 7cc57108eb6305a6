//! The tile grid of the Web-Mercator ("slippy map") world.

use crate::config::Real;
#[allow(unused_imports)]
use vstd::arithmetic::power2::*;
#[allow(unused_imports)]
use vstd::bits::*;
use vstd::prelude::*;

verus! {

/// Side length of a single tile in pixels.
pub const TILE_SIZE: u32 = 256;

/// Number of tiles along one axis at the given zoom: two to the power of
/// `zoom`, as far as that fits. At 63 the one bit that is left is the sign.
pub fn tile_count(zoom: u8) -> (r: i64)
    requires
        zoom < 64,
    ensures
        zoom < 63 ==> r == pow2(zoom as nat),
        zoom == 63 ==> r == i64::MIN,
{
    let r: i64 = 1i64 << zoom;
    proof {
        let wide = 1u64 << (zoom as u64);
        lemma_u64_pow2_no_overflow(zoom as nat);
        lemma_u64_shl_is_mul(1, zoom as u64);
        assert(r == (1u64 << (zoom as u64)) as i64) by (bit_vector)
            requires
                zoom < 64,
                r == 1i64 << zoom,
        ;
        if zoom < 63 {
            assert(0 <= wide as i64 && wide == wide as i64) by (bit_vector)
                requires
                    zoom < 63,
                    wide == 1u64 << (zoom as u64),
            ;
        } else {
            assert(wide as i64 == i64::MIN) by (bit_vector)
                requires
                    zoom == 63,
                    wide == 1u64 << (zoom as u64),
            ;
        }
    }
    r
}

/// Each zoom level has twice as many tiles along an axis as the one above.
pub proof fn law_tile_count_doubles(zoom: u8)
    ensures
        pow2((zoom + 1) as nat) == 2 * pow2(zoom as nat),
{
    lemma_pow2_unfold((zoom + 1) as nat);
}

/// The viewport: a geographic centre, in degrees, and an integer zoom level.
#[derive(Debug, Clone, Copy, PartialEq, Eq, Structural)]
pub struct MapState {
    pub center_lon: Real,
    pub center_lat: Real,
    pub zoom: u8,
}

} // verus!
