//! The process-local device cache.
//!
//! A `DeviceCache` is a mapping from device identifier to the most recently
//! known device record. It is not authoritative — the durable store is — but
//! it is what readers are served from. Its model is a `Map` from identifier
//! bytes to device models. Rebuilds follow the swap policy: the new contents
//! are built off to the side and moved in as a single assignment, so a state
//! mixing old and new entries never exists in the structure.

use vstd::prelude::*;
use crate::device::{Device, DeviceModel};

verus! {

/// Whether all records in the sequence carry distinct identifiers.
pub open spec fn unique_ids(s: Seq<Device>) -> bool {
    forall|i: int, j: int|
        #![trigger s[i], s[j]]
        0 <= i < j < s.len() ==> s[i].id@ != s[j].id@
}

/// The mapping that a sequence of records denotes: each record maps its
/// identifier to its model, later records winning over earlier ones.
pub open spec fn devices_map(s: Seq<Device>) -> Map<Seq<u8>, DeviceModel>
    decreases s.len(),
{
    if s.len() == 0 {
        Map::empty()
    } else {
        devices_map(s.drop_last()).insert(s.last().id@, s.last()@)
    }
}

/// An identifier is in the mapping exactly when some record carries it.
pub proof fn lemma_devices_map_contains(s: Seq<Device>, id: Seq<u8>)
    ensures
        devices_map(s).dom().contains(id) <==> (exists|i: int|
            0 <= i < s.len() && (#[trigger] s[i]).id@ == id),
    decreases s.len(),
{
    if s.len() > 0 {
        lemma_devices_map_contains(s.drop_last(), id);
        if devices_map(s).dom().contains(id) {
            if s.last().id@ == id {
                assert(s[s.len() - 1].id@ == id);
            } else {
                let i = choose|i: int|
                    0 <= i < s.drop_last().len() && (#[trigger] s.drop_last()[i]).id@ == id;
                assert(s[i].id@ == id);
            }
        }
        if exists|i: int| 0 <= i < s.len() && (#[trigger] s[i]).id@ == id {
            let i = choose|i: int| 0 <= i < s.len() && (#[trigger] s[i]).id@ == id;
            if i < s.len() - 1 {
                assert(s.drop_last()[i].id@ == id);
            }
        }
    }
}

/// With distinct identifiers, every record is found in the mapping under
/// its own identifier, unshadowed.
pub proof fn lemma_devices_map_index(s: Seq<Device>, i: int)
    requires
        unique_ids(s),
        0 <= i < s.len(),
    ensures
        devices_map(s).dom().contains(s[i].id@),
        devices_map(s)[s[i].id@] == s[i]@,
    decreases s.len(),
{
    if i < s.len() - 1 {
        assert(unique_ids(s.drop_last())) by {
            assert(forall|k: int, l: int|
                #![trigger s.drop_last()[k], s.drop_last()[l]]
                0 <= k < l < s.drop_last().len() ==> s[k].id@ != s[l].id@);
        }
        lemma_devices_map_index(s.drop_last(), i);
        assert(s.drop_last()[i] == s[i]);
        assert(s[i].id@ != s.last().id@);
    }
}

/// Two pointwise model-equal sequences denote the same mapping.
pub proof fn lemma_devices_map_congruence(s1: Seq<Device>, s2: Seq<Device>)
    requires
        s1.len() == s2.len(),
        forall|i: int| 0 <= i < s1.len() ==> (#[trigger] s1[i])@ == s2[i]@,
    ensures
        devices_map(s1) == devices_map(s2),
    decreases s1.len(),
{
    if s1.len() > 0 {
        lemma_devices_map_congruence(s1.drop_last(), s2.drop_last());
        assert(s1.last()@ == s2.last()@);
        assert(s1.last().id@ == s2.last().id@);
    }
}

/// Replacing the record at `i` by one with the same identifier denotes an
/// insert of the new record, provided identifiers are distinct.
pub proof fn lemma_devices_map_update(s: Seq<Device>, i: int, d: Device)
    requires
        unique_ids(s),
        0 <= i < s.len(),
        s[i].id@ == d.id@,
    ensures
        devices_map(s.update(i, d)) == devices_map(s).insert(d.id@, d@),
    decreases s.len(),
{
    let t = s.update(i, d);
    if i == s.len() - 1 {
        assert(t.drop_last() =~= s.drop_last());
        assert(t.last() == d);
        assert(devices_map(s).insert(d.id@, d@) =~=
            devices_map(s.drop_last()).insert(d.id@, d@));
    } else {
        assert(unique_ids(s.drop_last())) by {
            assert(forall|k: int, l: int|
                #![trigger s.drop_last()[k], s.drop_last()[l]]
                0 <= k < l < s.drop_last().len() ==> s[k].id@ != s[l].id@);
        }
        assert(s.drop_last()[i] == s[i]);
        lemma_devices_map_update(s.drop_last(), i, d);
        assert(t.drop_last() =~= s.drop_last().update(i, d));
        assert(t.last() == s.last());
        assert(s[i].id@ != s.last().id@);
        assert(devices_map(s.drop_last()).insert(d.id@, d@).insert(s.last().id@, s.last()@)
            =~= devices_map(s.drop_last()).insert(s.last().id@, s.last()@).insert(d.id@, d@));
    }
}

/// Law: a reader only ever observes the mapping of a completed call. Each
/// mutation lands in one step — `replace_all` swaps the whole contents in a
/// single assignment and `upsert_one` settles one key — so between calls
/// the observable mapping is exactly what the last call's contract names:
/// after a `replace_all` its key set is precisely the identifiers of that
/// call's input, independent of whatever was there before (no mix of old
/// and new, no transient empty state), and after an `upsert_one` it is the
/// prior key set plus the upserted identifier.
pub proof fn lemma_observed_key_sets(
    m: Map<Seq<u8>, DeviceModel>,
    devices: Seq<Device>,
    d: Device,
)
    ensures
        devices_map(devices).dom() == Set::new(
            |id: Seq<u8>| exists|i: int| 0 <= i < devices.len() && (#[trigger] devices[i]).id@ == id,
        ),
        m.insert(d.id@, d@).dom() == m.dom().insert(d.id@),
{
    let ids = Set::new(
        |id: Seq<u8>| exists|i: int| 0 <= i < devices.len() && (#[trigger] devices[i]).id@ == id,
    );
    assert forall|id: Seq<u8>| devices_map(devices).dom().contains(id) == ids.contains(id) by {
        lemma_devices_map_contains(devices, id);
    }
    assert(devices_map(devices).dom() =~= ids);
    assert(m.insert(d.id@, d@).dom() =~= m.dom().insert(d.id@));
}

/// Finds the position of the record carrying `id`, if any.
fn find_by_id(devices: &Vec<Device>, id: &Vec<u8>) -> (r: Option<usize>)
    ensures
        match r {
            Some(i) => i < devices@.len() && devices@[i as int].id@ == id@,
            None => forall|k: int|
                0 <= k < devices@.len() ==> (#[trigger] devices@[k]).id@ != id@,
        },
{
    let mut i: usize = 0;
    while i < devices.len()
        invariant
            i <= devices.len(),
            forall|k: int| 0 <= k < i ==> (#[trigger] devices@[k]).id@ != id@,
        decreases devices.len() - i,
    {
        if bytes_eq(&devices[i].id, id) {
            return Some(i);
        }
        i = i + 1;
    }
    None
}

/// Compares two byte strings for equality.
fn bytes_eq(a: &Vec<u8>, b: &Vec<u8>) -> (r: bool)
    ensures
        r == (a@ == b@),
{
    if a.len() != b.len() {
        return false;
    }
    let mut i: usize = 0;
    while i < a.len()
        invariant
            a@.len() == b@.len(),
            i <= a.len(),
            forall|k: int| 0 <= k < i ==> a@[k] == b@[k],
        decreases a.len() - i,
    {
        if a[i] != b[i] {
            return false;
        }
        i = i + 1;
    }
    proof {
        assert(a@ =~= b@);
    }
    true
}

/// The device cache: a shared, rebuild-on-interval read copy of the store.
pub struct DeviceCache {
    devices: Vec<Device>,
}

impl View for DeviceCache {
    type V = Map<Seq<u8>, DeviceModel>;

    closed spec fn view(&self) -> Map<Seq<u8>, DeviceModel> {
        devices_map(self.devices@)
    }
}

impl DeviceCache {
    /// Internal invariant: no identifier occurs twice.
    #[verifier::type_invariant]
    spec fn wf(&self) -> bool {
        unique_ids(self.devices@)
    }

    /// An empty cache.
    pub fn new() -> (r: DeviceCache)
        ensures
            r@ == Map::<Seq<u8>, DeviceModel>::empty(),
    {
        DeviceCache { devices: Vec::new() }
    }

    /// Looks one record up by identifier.
    pub fn get(&self, id: &Vec<u8>) -> (r: Option<&Device>)
        ensures
            match r {
                Some(d) => self@.dom().contains(id@) && d@ == self@[id@],
                None => !self@.dom().contains(id@),
            },
    {
        proof {
            use_type_invariant(&*self);
        }
        match find_by_id(&self.devices, id) {
            Some(i) => {
                proof {
                    lemma_devices_map_index(self.devices@, i as int);
                }
                Some(&self.devices[i])
            },
            None => {
                proof {
                    lemma_devices_map_contains(self.devices@, id@);
                }
                None
            },
        }
    }

    /// Inserts or overwrites a single record, disturbing no other entry.
    /// The new contents are settled aside and moved in by one swap.
    pub fn upsert_one(&mut self, d: Device)
        ensures
            final(self)@ == old(self)@.insert(d.id@, d@),
    {
        proof {
            use_type_invariant(&*self);
        }
        let ghost s0 = old(self).devices@;
        let mut devices: Vec<Device> = Vec::new();
        core::mem::swap(&mut self.devices, &mut devices);
        match find_by_id(&devices, &d.id) {
            Some(i) => {
                proof {
                    lemma_devices_map_update(s0, i as int, d);
                    let t = s0.update(i as int, d);
                    assert(forall|k: int, l: int|
                        #![trigger t[k], t[l]]
                        0 <= k < l < t.len() ==> t[k].id@ != t[l].id@);
                }
                devices.set(i, d);
            },
            None => {
                proof {
                    let t = s0.push(d);
                    assert(t.drop_last() =~= s0);
                    assert(forall|k: int, l: int|
                        #![trigger t[k], t[l]]
                        0 <= k < l < t.len() ==> t[k].id@ != t[l].id@);
                }
                devices.push(d);
            },
        }
        core::mem::swap(&mut self.devices, &mut devices);
    }

    /// Replaces the whole contents by the given records, later duplicates
    /// winning. The new contents are assembled off to the side and moved in
    /// as one assignment, so the structure never holds a mixed state.
    pub fn replace_all(&mut self, devices: Vec<Device>)
        ensures
            final(self)@ == devices_map(devices@),
    {
        let mut fresh = DeviceCache::new();
        let mut i: usize = 0;
        while i < devices.len()
            invariant
                i <= devices.len(),
                fresh@ == devices_map(devices@.take(i as int)),
            decreases devices.len() - i,
        {
            let d = devices[i].clone();
            proof {
                let t = devices@.take(i + 1);
                assert(t.drop_last() =~= devices@.take(i as int));
                assert(t.last() == devices@[i as int]);
            }
            fresh.upsert_one(d);
            i = i + 1;
        }
        proof {
            assert(devices@.take(devices@.len() as int) =~= devices@);
            use_type_invariant(&fresh);
        }
        let DeviceCache { devices: rebuilt } = fresh;
        self.devices = rebuilt;
    }

    /// A full snapshot of the mapping: one copy of every record, each under
    /// its own identifier.
    pub fn snapshot(&self) -> (r: Vec<Device>)
        ensures
            unique_ids(r@),
            devices_map(r@) == self@,
    {
        proof {
            use_type_invariant(&*self);
        }
        let mut r: Vec<Device> = Vec::new();
        let mut i: usize = 0;
        while i < self.devices.len()
            invariant
                unique_ids(self.devices@),
                i <= self.devices.len(),
                r@.len() == i,
                forall|k: int| 0 <= k < i ==> (#[trigger] r@[k])@ == self.devices@[k]@,
            decreases self.devices.len() - i,
        {
            let d = self.devices[i].clone();
            r.push(d);
            i = i + 1;
        }
        proof {
            assert(forall|k: int, l: int|
                #![trigger r@[k], r@[l]]
                0 <= k < l < r@.len() ==> r@[k].id@ != r@[l].id@) by {
                assert(forall|k: int| 0 <= k < r@.len() ==> (#[trigger] r@[k]).id@ == self.devices@[k].id@);
            }
            lemma_devices_map_congruence(r@, self.devices@);
        }
        r
    }
}

} // verus!
