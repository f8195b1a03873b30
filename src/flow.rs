//! The flow table: one accumulation buffer per directional flow.
use vstd::prelude::*;

verus! {

/// An IP address, version 4 or 6, as its numeric value.
#[derive(Clone, Copy, Debug, PartialEq, Eq, Structural)]
pub enum IpAddress {
    V4(u32),
    V6(u128),
}

/// One end of a transport connection.
#[derive(Clone, Copy, Debug, PartialEq, Eq, Structural)]
pub struct Endpoint {
    pub ip: IpAddress,
    pub port: u16,
}

/// A directional flow: traffic from `source` to `destination`. The reverse
/// direction of the same connection is a different key.
#[derive(Clone, Copy, Debug, PartialEq, Eq, Structural)]
pub struct FlowKey {
    pub source: Endpoint,
    pub destination: Endpoint,
}

/// Accumulation buffers keyed by flow. Each worker owns its own table.
pub struct FlowTable {
    entries: Vec<(FlowKey, Vec<u8>)>,
    model: Ghost<Map<FlowKey, Seq<u8>>>,
}

impl View for FlowTable {
    type V = Map<FlowKey, Seq<u8>>;

    closed spec fn view(&self) -> Map<FlowKey, Seq<u8>> {
        self.model@
    }
}

impl FlowTable {
    /// Keys are unique, and the entries are exactly the model's.
    pub closed spec fn wf(&self) -> bool {
        &&& forall|i: int, j: int|
            0 <= i < j < self.entries@.len() ==> self.entries@[i].0 != self.entries@[j].0
        &&& forall|i: int|
            0 <= i < self.entries@.len() ==> #[trigger] self.model@.contains_key(
                self.entries@[i].0,
            ) && self.model@[self.entries@[i].0] == self.entries@[i].1@
        &&& forall|k: FlowKey|
            #[trigger] self.model@.contains_key(k) ==> exists|i: int|
                0 <= i < self.entries@.len() && self.entries@[i].0 == k
    }

    /// An empty table.
    pub fn new() -> (r: FlowTable)
        ensures
            r.wf(),
            r@ == Map::<FlowKey, Seq<u8>>::empty(),
    {
        FlowTable { entries: Vec::new(), model: Ghost(Map::empty()) }
    }

    /// Number of flows that hold a buffer.
    pub fn len(&self) -> (r: usize)
        requires
            self.wf(),
        ensures
            r == self@.len(),
    {
        proof {
            self.lemma_domain_size();
        }
        self.entries.len()
    }

    proof fn lemma_domain_size(&self)
        requires
            self.wf(),
        ensures
            self@.len() == self.entries@.len(),
            self@.dom().finite(),
        decreases self.entries@.len(),
    {
        let keys = self.entries@.map_values(|e: (FlowKey, Vec<u8>)| e.0);
        assert(self@.dom() =~= keys.to_set()) by {
            assert forall|k: FlowKey| self@.dom().contains(k) implies keys.to_set().contains(k) by {
                let i = choose|i: int| 0 <= i < self.entries@.len() && self.entries@[i].0 == k;
                assert(keys[i] == k);
            }
            assert forall|k: FlowKey| keys.to_set().contains(k) implies self@.dom().contains(k) by {
                let i = choose|i: int| 0 <= i < keys.len() && keys[i] == k;
                assert(self.model@.contains_key(self.entries@[i].0));
            }
        }
        assert(keys.no_duplicates()) by {
            assert forall|i: int, j: int| 0 <= i < keys.len() && 0 <= j < keys.len() && i != j
                implies keys[i] != keys[j] by {
                if i < j {
                } else {
                }
            }
        }
        keys.unique_seq_to_set();
    }

    /// Position of `key` among the entries, if it is there.
    fn find(&self, key: &FlowKey) -> (r: Option<usize>)
        requires
            self.wf(),
        ensures
            match r {
                Some(i) => i < self.entries@.len() && self.entries@[i as int].0 == *key,
                None => !self@.contains_key(*key),
            },
    {
        let mut i: usize = 0;
        while i < self.entries.len()
            invariant
                self.wf(),
                i <= self.entries@.len(),
                forall|j: int| 0 <= j < i ==> self.entries@[j].0 != *key,
            decreases self.entries@.len() - i,
        {
            if self.entries[i].0 == *key {
                return Some(i);
            }
            i = i + 1;
        }
        None
    }

    /// Removes the flow's buffer and hands it over; an absent flow gives an
    /// empty buffer.
    pub fn take(&mut self, key: &FlowKey) -> (r: Vec<u8>)
        requires
            old(self).wf(),
        ensures
            final(self).wf(),
            r@ == (if old(self)@.contains_key(*key) { old(self)@[*key] } else { Seq::empty() }),
            final(self)@ == old(self)@.remove(*key),
    {
        match self.find(key) {
            Some(i) => {
                let ghost before = self.entries@;
                let (_, buf) = self.entries.remove(i);
                self.model = Ghost(self.model@.remove(*key));
                proof {
                    assert forall|k: FlowKey| #[trigger] self.model@.contains_key(k) implies exists|
                        j: int,
                    | 0 <= j < self.entries@.len() && self.entries@[j].0 == k by {
                        let j = choose|j: int| 0 <= j < before.len() && before[j].0 == k;
                        if j < i {
                            assert(self.entries@[j] == before[j]);
                        } else {
                            assert(self.entries@[j - 1] == before[j]);
                        }
                    }
                    assert forall|j: int| 0 <= j < self.entries@.len() implies #[trigger] self.model@.contains_key(
                        self.entries@[j].0,
                    ) && self.model@[self.entries@[j].0] == self.entries@[j].1@ by {
                        if j < i {
                            assert(self.entries@[j] == before[j]);
                        } else {
                            assert(self.entries@[j] == before[j + 1]);
                        }
                    }
                }
                buf
            },
            None => {
                assert(self.model@.remove(*key) =~= self.model@);
                Vec::new()
            },
        }
    }

    /// Stores `buf` as the flow's buffer, replacing any earlier one.
    pub fn put(&mut self, key: FlowKey, buf: Vec<u8>)
        requires
            old(self).wf(),
        ensures
            final(self).wf(),
            final(self)@ == old(self)@.insert(key, buf@),
    {
        let _ = self.take(&key);
        let ghost before = self.entries@;
        let ghost m = self.model@;
        self.entries.push((key, buf));
        self.model = Ghost(m.insert(key, buf@));
        proof {
            assert forall|k: FlowKey| #[trigger] self.model@.contains_key(k) implies exists|j: int|
                0 <= j < self.entries@.len() && self.entries@[j].0 == k by {
                if k == key {
                    assert(self.entries@[before.len() as int].0 == k);
                } else {
                    let j = choose|j: int| 0 <= j < before.len() && before[j].0 == k;
                    assert(self.entries@[j] == before[j]);
                }
            }
            assert forall|j: int| 0 <= j < self.entries@.len() implies #[trigger] self.model@.contains_key(
                self.entries@[j].0,
            ) && self.model@[self.entries@[j].0] == self.entries@[j].1@ by {
                if j < before.len() {
                    assert(self.entries@[j] == before[j]);
                }
            }
            assert forall|i: int, j: int| 0 <= i < j < self.entries@.len() implies self.entries@[i].0
                != self.entries@[j].0 by {
                assert(self.entries@[i] == before[i]);
                assert(m.contains_key(before[i].0));
                if j < before.len() {
                    assert(self.entries@[j] == before[j]);
                }
            }
        }
        assert(self.model@ =~= old(self)@.insert(key, buf@));
    }

    /// Adds `bytes` at the end of the flow's buffer, creating it if needed.
    pub fn append(&mut self, key: FlowKey, bytes: &[u8])
        requires
            old(self).wf(),
        ensures
            final(self).wf(),
            final(self)@ == old(self)@.insert(
                key,
                (if old(self)@.contains_key(key) { old(self)@[key] } else { Seq::empty() })
                    + bytes@,
            ),
    {
        let mut buf = self.take(&key);
        append_bytes(&mut buf, bytes);
        self.put(key, buf);
    }

    /// Drops the flow's buffer.
    pub fn remove(&mut self, key: &FlowKey)
        requires
            old(self).wf(),
        ensures
            final(self).wf(),
            final(self)@ == old(self)@.remove(*key),
    {
        let _ = self.take(key);
    }

    /// Whether the flow holds a buffer.
    pub fn contains(&self, key: &FlowKey) -> (r: bool)
        requires
            self.wf(),
        ensures
            r == self@.contains_key(*key),
    {
        self.find(key).is_some()
    }
}

/// Copies `bytes` onto the end of `buf`.
pub fn append_bytes(buf: &mut Vec<u8>, bytes: &[u8])
    ensures
        final(buf)@ == old(buf)@ + bytes@,
{
    let mut i: usize = 0;
    while i < bytes.len()
        invariant
            i <= bytes@.len(),
            buf@ == old(buf)@ + bytes@.subrange(0, i as int),
        decreases bytes@.len() - i,
    {
        buf.push(bytes[i]);
        i = i + 1;
        assert(bytes@.subrange(0, i as int) =~= bytes@.subrange(0, i - 1) + seq![bytes@[i - 1]]);
    }
    assert(bytes@.subrange(0, i as int) =~= bytes@);
}

} // verus!
