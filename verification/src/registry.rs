//! The device registry: the last-known record for each device name, owned
//! by the poll loop for the lifetime of the process.

use crate::device::{Device, DeviceView};
use crate::text::str_eq;
use vstd::prelude::*;

verus! {

/// The map from names to records that a sequence of devices holds; a later
/// entry wins, though a well-formed registry keeps names unique.
pub open spec fn records_map(s: Seq<Device>) -> Map<Seq<char>, DeviceView>
    decreases s.len(),
{
    if s.len() == 0 {
        Map::empty()
    } else {
        records_map(s.drop_last()).insert(s.last()@.name, s.last()@)
    }
}

/// An entry of `s` with `name` is what `records_map` holds under `name`.
proof fn lemma_records_map_index(s: Seq<Device>, i: int)
    requires
        0 <= i < s.len(),
        forall|p: int, q: int| 0 <= p < q < s.len() ==> s[p]@.name != s[q]@.name,
    ensures
        records_map(s).contains_key(s[i]@.name),
        records_map(s)[s[i]@.name] == s[i]@,
    decreases s.len(),
{
    if i < s.len() - 1 {
        lemma_records_map_index(s.drop_last(), i);
        assert(s.drop_last()[i] == s[i]);
    }
}

/// A name no entry of `s` carries is absent from `records_map`.
proof fn lemma_records_map_absent(s: Seq<Device>, name: Seq<char>)
    requires
        forall|p: int| 0 <= p < s.len() ==> s[p]@.name != name,
    ensures
        !records_map(s).contains_key(name),
    decreases s.len(),
{
    if s.len() > 0 {
        lemma_records_map_absent(s.drop_last(), name);
    }
}

/// Replacing the entry at `i` by one with the same name updates just that
/// key of `records_map`.
proof fn lemma_records_map_update(s: Seq<Device>, i: int, d: Device)
    requires
        0 <= i < s.len(),
        d@.name == s[i]@.name,
        forall|p: int, q: int| 0 <= p < q < s.len() ==> s[p]@.name != s[q]@.name,
    ensures
        records_map(s.update(i, d)) == records_map(s).insert(d@.name, d@),
    decreases s.len(),
{
    let t = s.update(i, d);
    if i == s.len() - 1 {
        assert(t.drop_last() =~= s.drop_last());
        assert(t.last() == d);
        assert(records_map(t) =~= records_map(s).insert(d@.name, d@));
    } else {
        lemma_records_map_update(s.drop_last(), i, d);
        assert(t.drop_last() =~= s.drop_last().update(i, d));
        assert(t.last() == s.last());
        assert(s.last()@.name != d@.name);
        assert(records_map(t) =~= records_map(s).insert(d@.name, d@));
    }
}

/// Registry of last-known device records, keyed by device name.
pub struct Registry {
    devices: Vec<Device>,
}

impl View for Registry {
    type V = Map<Seq<char>, DeviceView>;

    closed spec fn view(&self) -> Map<Seq<char>, DeviceView> {
        records_map(self.devices@)
    }
}

impl Registry {
    /// Names of the stored records are pairwise distinct.
    pub closed spec fn wf(&self) -> bool {
        forall|p: int, q: int|
            0 <= p < q < self.devices@.len() ==> self.devices@[p]@.name != self.devices@[q]@.name
    }

    /// An empty registry.
    pub fn new() -> (r: Registry)
        ensures
            r.wf(),
            r@ == Map::<Seq<char>, DeviceView>::empty(),
    {
        Registry { devices: Vec::new() }
    }

    /// Read-only probe for the record stored under `name`.
    pub fn lookup(&self, name: &str) -> (r: Option<&Device>)
        requires
            self.wf(),
        ensures
            match r {
                Some(d) => self@.contains_key(name@) && d@ == self@[name@],
                None => !self@.contains_key(name@),
            },
    {
        let n = self.devices.len();
        let mut i: usize = 0;
        while i < n
            invariant
                i <= n,
                n == self.devices@.len(),
                self.wf(),
                forall|p: int| 0 <= p < i ==> self.devices@[p]@.name != name@,
            decreases n - i,
        {
            if str_eq(self.devices[i].name.as_str(), name) {
                proof {
                    lemma_records_map_index(self.devices@, i as int);
                }
                return Some(&self.devices[i]);
            }
            i += 1;
        }
        proof {
            lemma_records_map_absent(self.devices@, name@);
        }
        None
    }

    /// Replaces or inserts the record stored under the device's name: a
    /// total overwrite, no partial merge.
    pub fn upsert(&mut self, device: Device)
        requires
            old(self).wf(),
        ensures
            final(self).wf(),
            final(self)@ == old(self)@.insert(device@.name, device@),
    {
        let n = self.devices.len();
        let mut i: usize = 0;
        while i < n
            invariant
                i <= n,
                n == self.devices@.len(),
                self.wf(),
                forall|p: int| 0 <= p < i ==> self.devices@[p]@.name != device@.name,
                self.devices@ == old(self).devices@,
            decreases n - i,
        {
            if str_eq(self.devices[i].name.as_str(), device.name.as_str()) {
                proof {
                    lemma_records_map_update(self.devices@, i as int, device);
                }
                let ghost before = self.devices@;
                self.devices[i] = device;
                proof {
                    assert(self.devices@ == before.update(i as int, self.devices@[i as int]));
                }
                return ;
            }
            i += 1;
        }
        proof {
            lemma_records_map_absent(self.devices@, device@.name);
            assert(self.devices@.push(device).drop_last() =~= self.devices@);
        }
        self.devices.push(device);
    }

    /// The stored records, for a read-only walk; each is what the registry
    /// holds under its name.
    pub fn records(&self) -> (r: &Vec<Device>)
        requires
            self.wf(),
        ensures
            forall|i: int|
                0 <= i < r@.len() ==> self@.contains_key(#[trigger] r@[i]@.name) && self@[r@[i]@.name]
                    == r@[i]@,
    {
        proof {
            assert forall|i: int| 0 <= i < self.devices@.len() implies self@.contains_key(
                #[trigger] self.devices@[i]@.name,
            ) && self@[self.devices@[i]@.name] == self.devices@[i]@ by {
                lemma_records_map_index(self.devices@, i);
            }
        }
        &self.devices
    }
}

} // verus!
