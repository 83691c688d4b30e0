//! The snapshot: every qualifying address of the host at one instant, each
//! with the record the classifier made for it.
//!
//! A snapshot is a map from address to record. It is held as a list of
//! entries in which no address occurs twice; the list's order is the order in
//! which the addresses were first inserted, and it is the order in which the
//! snapshot is scanned. Two snapshots are equal when they are equal as maps,
//! whatever their order.

use crate::addr::IpAddress;
use crate::text::{cidr_text, push_cidr_text};
use vstd::prelude::*;

verus! {

/// An address of an interface: the key of a snapshot.
#[derive(Clone, Copy, Debug, PartialEq, Eq, Hash, Structural)]
pub struct IfaceIpAddr {
    pub addr: IpAddress,
    pub prefix_len: u8,
}

/// What a snapshot records of an address.
#[derive(Clone, Debug, PartialEq, Eq)]
pub struct IfaceIpAddrData {
    pub iface: String,
    /// The address masked by its prefix.
    pub subnet_addr: IpAddress,
    pub metric: u8,
}

/// A record as a plain value.
pub struct IfaceIpAddrDataView {
    pub iface: Seq<char>,
    pub subnet_addr: IpAddress,
    pub metric: u8,
}

impl View for IfaceIpAddrData {
    type V = IfaceIpAddrDataView;

    open spec fn view(&self) -> IfaceIpAddrDataView {
        IfaceIpAddrDataView { iface: self.iface@, subnet_addr: self.subnet_addr, metric: self.metric }
    }
}

/// One entry of a snapshot as a plain value.
pub type Entry = (IfaceIpAddr, IfaceIpAddrDataView);

/// No address occurs twice.
pub open spec fn keys_unique(entries: Seq<Entry>) -> bool {
    forall|i: int, j: int| 0 <= i < j < entries.len() ==> entries[i].0 != entries[j].0
}

/// Whether some entry is that of `key`.
pub open spec fn has_key(entries: Seq<Entry>, key: IfaceIpAddr) -> bool {
    exists|i: int| 0 <= i < entries.len() && (#[trigger] entries[i]).0 == key
}

/// A position at which `key` stands, where there is one.
pub open spec fn key_index(entries: Seq<Entry>, key: IfaceIpAddr) -> int {
    choose|i: int| 0 <= i < entries.len() && (#[trigger] entries[i]).0 == key
}

/// The entries as a map from address to record.
pub open spec fn entries_map(entries: Seq<Entry>) -> Map<IfaceIpAddr, IfaceIpAddrDataView> {
    Map::new(
        |key: IfaceIpAddr| has_key(entries, key),
        |key: IfaceIpAddr| entries[key_index(entries, key)].1,
    )
}

/// The entries after `key` was given the record `data`: the record replaces
/// the one that `key` had, in its place, or else the entry is added at the
/// end.
pub open spec fn entries_insert(entries: Seq<Entry>, key: IfaceIpAddr, data: IfaceIpAddrDataView) -> Seq<
    Entry,
> {
    if has_key(entries, key) {
        entries.update(key_index(entries, key), (key, data))
    } else {
        entries.push((key, data))
    }
}

/// Where no address occurs twice, the position of an address is the one
/// position at which it stands.
pub proof fn lemma_key_index(entries: Seq<Entry>, i: int)
    requires
        keys_unique(entries),
        0 <= i < entries.len(),
    ensures
        has_key(entries, entries[i].0),
        key_index(entries, entries[i].0) == i,
        entries_map(entries).contains_key(entries[i].0),
        entries_map(entries)[entries[i].0] == entries[i].1,
{
    let key = entries[i].0;
    assert(entries[i].0 == key);
    let k = key_index(entries, key);
    assert(0 <= k < entries.len() && entries[k].0 == key);
    if k < i {
        assert(entries[k].0 != entries[i].0);
    } else if i < k {
        assert(entries[i].0 != entries[k].0);
    }
}

/// Inserting into the list is inserting into the map, and keeps every
/// address single.
pub proof fn lemma_insert_is_map_insert(entries: Seq<Entry>, key: IfaceIpAddr, data: IfaceIpAddrDataView)
    requires
        keys_unique(entries),
    ensures
        keys_unique(entries_insert(entries, key, data)),
        entries_map(entries_insert(entries, key, data)) == entries_map(entries).insert(key, data),
{
    let after = entries_insert(entries, key, data);
    let pos = if has_key(entries, key) {
        key_index(entries, key)
    } else {
        entries.len() as int
    };
    assert(0 <= pos < after.len());
    assert(after[pos] == (key, data));
    assert(after.len() == if has_key(entries, key) {
        entries.len()
    } else {
        entries.len() + 1
    });
    assert forall|i: int| 0 <= i < after.len() && i != pos implies 0 <= i < entries.len()
        && after[i] == entries[i] && entries[i].0 != key by {
        if has_key(entries, key) {
            lemma_key_index(entries, pos);
            if i < pos {
                assert(entries[i].0 != entries[pos].0);
            } else {
                assert(entries[pos].0 != entries[i].0);
            }
        } else {
            if entries[i].0 == key {
                assert(has_key(entries, key));
            }
        }
    }
    assert(keys_unique(after)) by {
        assert forall|i: int, j: int| 0 <= i < j < after.len() implies after[i].0 != after[j].0 by {
            if i != pos && j != pos {
                assert(entries[i].0 != entries[j].0);
            }
        }
    }
    let left = entries_map(after);
    let right = entries_map(entries).insert(key, data);
    assert forall|k: IfaceIpAddr| left.contains_key(k) == right.contains_key(k) by {
        if has_key(after, k) {
            let i = key_index(after, k);
            if i != pos {
                assert(entries[i].0 == k);
            }
        }
        if has_key(entries, k) {
            let i = key_index(entries, k);
            assert(after[i].0 == k);
        }
        if k == key {
            assert(after[pos].0 == k);
        }
    }
    assert forall|k: IfaceIpAddr| left.contains_key(k) implies left[k] == right[k] by {
        let i = key_index(after, k);
        lemma_key_index(after, i);
        if i != pos {
            lemma_key_index(entries, i);
        }
    }
    assert(left =~= right);
}

/// The addresses of a host at one instant, each with its record.
#[derive(Debug)]
pub struct Snapshot {
    entries: Vec<(IfaceIpAddr, IfaceIpAddrData)>,
}

impl View for Snapshot {
    type V = Seq<Entry>;

    /// The entries in the order in which their addresses were first inserted.
    closed spec fn view(&self) -> Seq<Entry> {
        Seq::new(self.entries@.len(), |i: int| (self.entries@[i].0, self.entries@[i].1@))
    }
}

impl IfaceIpAddr {
    /// The form in which an address is written to the log: the address, a
    /// slash, the prefix length and a closing parenthesis.
    pub open spec fn spec_text(&self) -> Seq<char> {
        cidr_text(self.addr, self.prefix_len).push(')')
    }

    /// The address in the form in which it is written to the log.
    pub fn to_text(&self) -> (text: String)
        ensures
            text@ == self.spec_text(),
    {
        let mut out = String::new();
        push_cidr_text(&mut out, &self.addr, self.prefix_len);
        out.push(')');
        assert(out@ =~= self.spec_text());
        out
    }
}

impl IfaceIpAddrData {
    /// Whether two records hold the same interface name, subnet and metric.
    pub fn same_as(&self, other: &IfaceIpAddrData) -> (same: bool)
        ensures
            same == (self@ == other@),
    {
        self.iface == other.iface && self.subnet_addr == other.subnet_addr && self.metric
            == other.metric
    }
}

impl Snapshot {
    /// Every snapshot holds each address once.
    #[verifier::type_invariant]
    pub open spec fn wf(&self) -> bool {
        keys_unique(self@)
    }

    /// The snapshot as a map from address to record.
    pub open spec fn as_map(&self) -> Map<IfaceIpAddr, IfaceIpAddrDataView> {
        entries_map(self@)
    }

    /// The snapshot without any address.
    pub fn new() -> (s: Snapshot)
        ensures
            s@ == Seq::<Entry>::empty(),
    {
        let s = Snapshot { entries: Vec::new() };
        assert(s@ =~= Seq::<Entry>::empty());
        s
    }

    /// The number of addresses.
    pub fn len(&self) -> (n: usize)
        ensures
            n == self@.len(),
    {
        self.entries.len()
    }

    /// Whether the snapshot holds no address.
    pub fn is_empty(&self) -> (empty: bool)
        ensures
            empty == (self@.len() == 0),
    {
        self.entries.len() == 0
    }

    /// The entry at position `i` of the scan order, if there is one.
    pub fn entry(&self, i: usize) -> (e: Option<(&IfaceIpAddr, &IfaceIpAddrData)>)
        ensures
            (i < self@.len()) == (e is Some),
            e matches Some(pair) ==> *pair.0 == self@[i as int].0 && pair.1@ == self@[i as int].1,
    {
        if i < self.entries.len() {
            let pair = &self.entries[i];
            Some((&pair.0, &pair.1))
        } else {
            None
        }
    }

    /// The position of `key` in the scan order, if the snapshot holds it.
    pub fn position(&self, key: &IfaceIpAddr) -> (pos: Option<usize>)
        ensures
            keys_unique(self@),
            has_key(self@, *key) == (pos is Some),
            pos matches Some(i) ==> i < self@.len() && key_index(self@, *key) == i && self@[i as int].0
                == *key,
    {
        proof {
            use_type_invariant(self);
        }
        let mut i: usize = 0;
        while i < self.entries.len()
            invariant
                i <= self.entries@.len(),
                self@.len() == self.entries@.len(),
                keys_unique(self@),
                forall|j: int| 0 <= j < i ==> (#[trigger] self@[j]).0 != *key,
            decreases self.entries.len() - i,
        {
            if self.entries[i].0 == *key {
                proof {
                    assert(self@[i as int].0 == *key);
                    lemma_key_index(self@, i as int);
                }
                return Some(i);
            }
            i += 1;
        }
        None
    }

    /// The record of `key`, if the snapshot holds the address.
    pub fn get(&self, key: &IfaceIpAddr) -> (data: Option<&IfaceIpAddrData>)
        ensures
            self.as_map().contains_key(*key) == (data is Some),
            data matches Some(d) ==> d@ == self.as_map()[*key],
    {
        match self.position(key) {
            Some(i) => {
                proof {
                    lemma_key_index(self@, i as int);
                }
                Some(&self.entries[i].1)
            },
            None => None,
        }
    }

    /// Whether the snapshot holds the address.
    pub fn contains_key(&self, key: &IfaceIpAddr) -> (found: bool)
        ensures
            found == self.as_map().contains_key(*key),
            found == has_key(self@, *key),
    {
        self.position(key).is_some()
    }

    /// The snapshot in which `key` has the record `data`. An address that
    /// the snapshot already holds keeps its place in the scan order.
    pub fn insert(self, key: IfaceIpAddr, data: IfaceIpAddrData) -> (s: Snapshot)
        ensures
            s@ == entries_insert(self@, key, data@),
            s.as_map() == self.as_map().insert(key, data@),
    {
        let ghost before = self@;
        let ghost record = data@;
        proof {
            use_type_invariant(&self);
            lemma_insert_is_map_insert(before, key, record);
        }
        let pos = self.position(&key);
        let mut entries = self.entries;
        match pos {
            Some(i) => {
                entries.set(i, (key, data));
            },
            None => {
                entries.push((key, data));
            },
        }
        let ghost after = Seq::new(entries@.len(), |i: int| (entries@[i].0, entries@[i].1@));
        assert(after =~= entries_insert(before, key, record));
        Snapshot { entries }
    }

    /// A second snapshot with the same entries in the same order.
    pub fn duplicate(&self) -> (s: Snapshot)
        ensures
            s@ == self@,
    {
        proof {
            use_type_invariant(self);
        }
        let mut entries: Vec<(IfaceIpAddr, IfaceIpAddrData)> = Vec::new();
        let mut i: usize = 0;
        while i < self.entries.len()
            invariant
                i <= self.entries@.len(),
                entries@.len() == i,
                forall|j: int|
                    0 <= j < i ==> (#[trigger] entries@[j]).0 == self.entries@[j].0 && entries@[j].1@
                        == self.entries@[j].1@,
            decreases self.entries.len() - i,
        {
            let pair = &self.entries[i];
            let data = IfaceIpAddrData {
                iface: pair.1.iface.clone(),
                subnet_addr: pair.1.subnet_addr,
                metric: pair.1.metric,
            };
            entries.push((pair.0, data));
            i += 1;
        }
        let ghost copied = Seq::new(entries@.len(), |i: int| (entries@[i].0, entries@[i].1@));
        assert(copied =~= self@);
        Snapshot { entries }
    }

    /// Whether every address of `self` is in `other` with the same record.
    fn within(&self, other: &Snapshot) -> (r: bool)
        ensures
            r == forall|k: IfaceIpAddr| #[trigger]
                self.as_map().contains_key(k) ==> other.as_map().contains_key(k)
                    && other.as_map()[k] == self.as_map()[k],
    {
        proof {
            use_type_invariant(self);
        }
        let mut i: usize = 0;
        while i < self.entries.len()
            invariant
                i <= self.entries@.len(),
                self@.len() == self.entries@.len(),
                keys_unique(self@),
                forall|j: int|
                    0 <= j < i ==> other.as_map().contains_key((#[trigger] self@[j]).0)
                        && other.as_map()[self@[j].0] == self@[j].1,
            decreases self.entries.len() - i,
        {
            let key = &self.entries[i].0;
            assert(*key == self@[i as int].0);
            proof {
                lemma_key_index(self@, i as int);
            }
            match other.get(key) {
                Some(d) => {
                    if !d.same_as(&self.entries[i].1) {
                        proof {
                            assert(self.as_map().contains_key(*key));
                            assert(other.as_map()[*key] != self.as_map()[*key]);
                        }
                        return false;
                    }
                },
                None => {
                    proof {
                        assert(self.as_map().contains_key(*key));
                        assert(!other.as_map().contains_key(*key));
                    }
                    return false;
                },
            }
            i += 1;
        }
        proof {
            assert forall|k: IfaceIpAddr| #[trigger]
                self.as_map().contains_key(k) implies other.as_map().contains_key(k)
                && other.as_map()[k] == self.as_map()[k] by {
                let j = key_index(self@, k);
                lemma_key_index(self@, j);
            }
        }
        true
    }

    /// Whether two snapshots hold the same addresses with the same records.
    pub fn equals(&self, other: &Snapshot) -> (equal: bool)
        ensures
            equal == (self.as_map() == other.as_map()),
    {
        let equal = self.within(other) && other.within(self);
        proof {
            if equal {
                assert(self.as_map() =~= other.as_map());
            }
        }
        equal
    }
}

impl Clone for Snapshot {
    fn clone(&self) -> (s: Snapshot)
        ensures
            s@ == self@,
    {
        self.duplicate()
    }
}

} // verus!
