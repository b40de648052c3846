//! The rebuild policy of a refresh tick.
//!
//! A tick enumerates the store's keys, bulk-fetches their values, and then
//! decides what the cache becomes: the fetched records, the legitimate empty
//! state when the store held no keys at all, or — when an otherwise-populated
//! store yielded nothing — the previous contents, kept untouched until the
//! next tick.

use vstd::prelude::*;
use crate::cache::{devices_map, DeviceCache};
use crate::device::Device;

verus! {

/// Applies one refresh tick's outcome to the cache.
///
/// `enumerated_keys` is how many keys the store enumeration returned and
/// `fetched` the records the bulk fetch retrieved for them. The cache is
/// replaced by the fetched records when any were retrieved; it is replaced
/// by the empty mapping when the store was legitimately empty; and it is
/// left exactly as it was when a populated store yielded nothing — a failed
/// refresh never clears the cache. Returns whether the cache was replaced.
pub fn refresh_cache(cache: &mut DeviceCache, enumerated_keys: usize, fetched: Vec<Device>) -> (r:
    bool)
    requires
        fetched@.len() <= enumerated_keys,
    ensures
        r == (enumerated_keys == 0 || fetched@.len() > 0),
        enumerated_keys == 0 ==> final(cache)@ == Map::<Seq<u8>, crate::device::DeviceModel>::empty(),
        fetched@.len() > 0 ==> final(cache)@ == devices_map(fetched@),
        enumerated_keys > 0 && fetched@.len() == 0 ==> final(cache)@ == old(cache)@,
{
    if enumerated_keys == 0 || fetched.len() > 0 {
        proof {
            if enumerated_keys == 0 {
                assert(devices_map(fetched@) =~= Map::<Seq<u8>, crate::device::DeviceModel>::empty());
            }
        }
        cache.replace_all(fetched);
        true
    } else {
        false
    }
}

} // verus!
