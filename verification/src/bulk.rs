//! Bookkeeping of the fan-out bulk fetch.
//!
//! The fetches themselves run concurrently in the surrounding process, each
//! key independent of the others; this module decides the batching that
//! bounds how many are in flight at once, and collects the raw per-key
//! outcomes — value bytes or a per-key failure — into decoded records and a
//! dropped count.

use vstd::prelude::*;
use crate::codec::spec_decode_device;
use crate::device::{Device, DeviceModel};
use crate::store::decode_stored;

verus! {

/// The views of a sequence of per-key fetch outcomes.
pub open spec fn spec_raw_views(raw: Seq<Option<Vec<u8>>>) -> Seq<Option<Seq<u8>>> {
    raw.map_values(
        |o: Option<Vec<u8>>|
            match o {
                Some(v) => Some(v@),
                None => None,
            },
    )
}

/// The records that a sequence of per-key outcomes yields, in order: failed
/// keys and undecodable values are dropped, never aborting the rest.
pub open spec fn spec_collect(vs: Seq<Option<Seq<u8>>>) -> Seq<DeviceModel>
    decreases vs.len(),
{
    if vs.len() == 0 {
        Seq::empty()
    } else {
        let rest = spec_collect(vs.drop_last());
        match vs.last() {
            None => rest,
            Some(b) => match spec_decode_device(b) {
                None => rest,
                Some(m) => rest.push(m),
            },
        }
    }
}

/// Collects raw per-key fetch outcomes: decoded records in input order,
/// and the count of keys that were dropped.
pub fn collect_fetched(raw: Vec<Option<Vec<u8>>>) -> (r: (Vec<Device>, usize))
    ensures
        r.0@.map_values(|d: Device| d@) == spec_collect(spec_raw_views(raw@)),
        r.0@.len() + r.1 == raw@.len(),
{
    let mut kept: Vec<Device> = Vec::new();
    let mut i: usize = 0;
    while i < raw.len()
        invariant
            i <= raw.len(),
            kept@.len() <= i,
            kept@.map_values(|d: Device| d@) == spec_collect(spec_raw_views(raw@.take(i as int))),
        decreases raw.len() - i,
    {
        let ghost pre = kept@;
        match &raw[i] {
            None => {},
            Some(bytes) => {
                match decode_stored(bytes) {
                    Ok(d) => {
                        kept.push(d);
                    },
                    Err(_) => {},
                }
            },
        }
        i = i + 1;
        proof {
            let vs = spec_raw_views(raw@.take(i as int));
            assert(vs.drop_last() =~= spec_raw_views(raw@.take(i - 1)));
            assert(vs.last() == (match raw@[i - 1] {
                Some(v) => Some(v@),
                None => None,
            }));
            assert(kept@.map_values(|d: Device| d@) =~= spec_collect(vs));
        }
    }
    proof {
        assert(raw@.take(raw@.len() as int) =~= raw@);
    }
    let dropped = raw.len() - kept.len();
    (kept, dropped)
}

/// Splits `n` items into consecutive batches of at most `bound` items: the
/// fan-out runs one batch at a time, so at most `bound` fetches are in
/// flight at once.
pub fn fan_out_batches(n: usize, bound: usize) -> (r: Vec<(usize, usize)>)
    requires
        1 <= bound,
    ensures
        n == 0 ==> r@.len() == 0,
        n > 0 ==> r@.len() > 0 && r@[0].0 == 0 && r@[r@.len() - 1].1 == n,
        forall|i: int|
            0 <= i < r@.len() ==> (#[trigger] r@[i]).0 < r@[i].1 <= n && r@[i].1 - r@[i].0
                <= bound,
        forall|i: int| 0 <= i < r@.len() - 1 ==> (#[trigger] r@[i]).1 == r@[i + 1].0,
{
    let mut r: Vec<(usize, usize)> = Vec::new();
    let mut start: usize = 0;
    while start < n
        invariant
            start <= n,
            1 <= bound,
            start < n ==> (r@.len() > 0 ==> r@[r@.len() - 1].1 == start),
            start == 0 ==> r@.len() == 0,
            start > 0 ==> r@.len() > 0 && r@[0].0 == 0 && r@[r@.len() - 1].1 == start,
            forall|i: int|
                0 <= i < r@.len() ==> (#[trigger] r@[i]).0 < r@[i].1 <= n && r@[i].1 - r@[i].0
                    <= bound,
            forall|i: int| 0 <= i < r@.len() - 1 ==> (#[trigger] r@[i]).1 == r@[i + 1].0,
        decreases n - start,
    {
        let end = if n - start < bound {
            n
        } else {
            start + bound
        };
        r.push((start, end));
        start = end;
    }
    r
}

} // verus!
