//! Append-only association tables backing the protocol state.
//!
//! Each table is a vector of entries viewed as a mathematical `Map`. The
//! view folds the entries left to right, so a later entry for a key would
//! override an earlier one; the state machines always test for presence
//! before inserting, which keeps recorded bindings immutable. Lookups
//! scan from the newest entry backward, which makes them agree with the
//! view without any uniqueness side condition.
//!
//! Three key shapes are used by the protocol:
//! * a round alone (sender-side counters and outputs),
//! * an (originator, round) slot (echo, vote and delivery records),
//! * an (originator, round, value) tally (per-value witness sets).

use vstd::prelude::*;

verus! {

/// A fresh vector with the same plain items.
pub fn copy_vec<T: Copy>(v: &Vec<T>) -> (r: Vec<T>)
    ensures
        r@ == v@,
{
    let mut out: Vec<T> = Vec::new();
    let mut i: usize = 0;
    while i < v.len()
        invariant
            i <= v.len(),
            out@ == v@.subrange(0, i as int),
        decreases v.len() - i,
    {
        out.push(v[i]);
        i = i + 1;
        proof {
            assert(out@ =~= v@.subrange(0, i as int));
        }
    }
    proof {
        assert(out@ =~= v@);
    }
    out
}

// ---------------------------------------------------------------------
// Tables keyed by a single identifier (a round or an address).
// ---------------------------------------------------------------------

#[derive(Clone)]
pub struct KeyEntry<V> {
    pub key: u64,
    pub val: V,
}

/// An association table keyed by a single identifier.
#[derive(Clone)]
pub struct KeyTable<V> {
    pub entries: Vec<KeyEntry<V>>,
}

pub open spec fn key_map_of<V: View>(entries: Seq<KeyEntry<V>>) -> Map<u64, V::V>
    decreases entries.len(),
{
    if entries.len() == 0 {
        Map::empty()
    } else {
        key_map_of(entries.drop_last()).insert(entries.last().key, entries.last().val@)
    }
}

impl<V: View> View for KeyTable<V> {
    type V = Map<u64, V::V>;

    open spec fn view(&self) -> Map<u64, V::V> {
        key_map_of(self.entries@)
    }
}

proof fn lemma_key_map_of_match<V: View>(entries: Seq<KeyEntry<V>>, k: u64, i: int)
    requires
        0 <= i < entries.len(),
        entries[i].key == k,
        forall|j: int| i < j < entries.len() ==> entries[j].key != k,
    ensures
        key_map_of(entries).contains_key(k),
        key_map_of(entries)[k] == entries[i].val@,
    decreases entries.len(),
{
    if i == entries.len() - 1 {
    } else {
        lemma_key_map_of_match(entries.drop_last(), k, i);
    }
}

proof fn lemma_key_map_of_no_match<V: View>(entries: Seq<KeyEntry<V>>, k: u64)
    requires
        forall|j: int| 0 <= j < entries.len() ==> entries[j].key != k,
    ensures
        !key_map_of(entries).contains_key(k),
    decreases entries.len(),
{
    if entries.len() > 0 {
        lemma_key_map_of_no_match(entries.drop_last(), k);
    }
}

impl<V: View> KeyTable<V> {
    pub fn new() -> (t: Self)
        ensures
            t@ == Map::<u64, V::V>::empty(),
    {
        KeyTable { entries: Vec::new() }
    }

    pub fn get(&self, k: u64) -> (r: Option<&V>)
        ensures
            match r {
                Some(v) => self@.contains_key(k) && v@ == self@[k],
                None => !self@.contains_key(k),
            },
    {
        let mut i: usize = self.entries.len();
        while i > 0
            invariant
                i <= self.entries.len(),
                forall|j: int| i <= j < self.entries@.len() ==> self.entries@[j].key != k,
            decreases i,
        {
            i = i - 1;
            if self.entries[i].key == k {
                proof {
                    lemma_key_map_of_match(self.entries@, k, i as int);
                }
                return Some(&self.entries[i].val);
            }
        }
        proof {
            lemma_key_map_of_no_match(self.entries@, k);
        }
        None
    }

    pub fn contains(&self, k: u64) -> (r: bool)
        ensures
            r == self@.contains_key(k),
    {
        match self.get(k) {
            Some(_) => true,
            None => false,
        }
    }

    pub fn insert(&mut self, k: u64, v: V)
        ensures
            final(self)@ == old(self)@.insert(k, v@),
    {
        let ghost pre = self.entries@;
        self.entries.push(KeyEntry { key: k, val: v });
        proof {
            assert(self.entries@.drop_last() =~= pre);
        }
    }
}

// ---------------------------------------------------------------------
// Tables keyed by an (originator, round) slot.
// ---------------------------------------------------------------------

#[derive(Clone)]
pub struct SlotEntry<V> {
    pub originator: u64,
    pub round: u64,
    pub val: V,
}

pub open spec fn slot_key<V>(e: SlotEntry<V>) -> (u64, u64) {
    (e.originator, e.round)
}

/// An association table keyed by an (originator, round) pair.
#[derive(Clone)]
pub struct SlotTable<V> {
    pub entries: Vec<SlotEntry<V>>,
}

pub open spec fn slot_map_of<V: View>(entries: Seq<SlotEntry<V>>) -> Map<(u64, u64), V::V>
    decreases entries.len(),
{
    if entries.len() == 0 {
        Map::empty()
    } else {
        slot_map_of(entries.drop_last()).insert(slot_key(entries.last()), entries.last().val@)
    }
}

impl<V: View> View for SlotTable<V> {
    type V = Map<(u64, u64), V::V>;

    open spec fn view(&self) -> Map<(u64, u64), V::V> {
        slot_map_of(self.entries@)
    }
}

proof fn lemma_slot_map_of_match<V: View>(entries: Seq<SlotEntry<V>>, k: (u64, u64), i: int)
    requires
        0 <= i < entries.len(),
        slot_key(entries[i]) == k,
        forall|j: int| i < j < entries.len() ==> slot_key(entries[j]) != k,
    ensures
        slot_map_of(entries).contains_key(k),
        slot_map_of(entries)[k] == entries[i].val@,
    decreases entries.len(),
{
    if i == entries.len() - 1 {
    } else {
        lemma_slot_map_of_match(entries.drop_last(), k, i);
    }
}

proof fn lemma_slot_map_of_no_match<V: View>(entries: Seq<SlotEntry<V>>, k: (u64, u64))
    requires
        forall|j: int| 0 <= j < entries.len() ==> slot_key(entries[j]) != k,
    ensures
        !slot_map_of(entries).contains_key(k),
    decreases entries.len(),
{
    if entries.len() > 0 {
        lemma_slot_map_of_no_match(entries.drop_last(), k);
    }
}

impl<V: View> SlotTable<V> {
    pub fn new() -> (t: Self)
        ensures
            t@ == Map::<(u64, u64), V::V>::empty(),
    {
        SlotTable { entries: Vec::new() }
    }

    pub fn get(&self, o: u64, r: u64) -> (res: Option<&V>)
        ensures
            match res {
                Some(v) => self@.contains_key((o, r)) && v@ == self@[(o, r)],
                None => !self@.contains_key((o, r)),
            },
    {
        let mut i: usize = self.entries.len();
        while i > 0
            invariant
                i <= self.entries.len(),
                forall|j: int| i <= j < self.entries@.len() ==> slot_key(self.entries@[j]) != (o, r),
            decreases i,
        {
            i = i - 1;
            if self.entries[i].originator == o && self.entries[i].round == r {
                proof {
                    lemma_slot_map_of_match(self.entries@, (o, r), i as int);
                }
                return Some(&self.entries[i].val);
            }
        }
        proof {
            lemma_slot_map_of_no_match(self.entries@, (o, r));
        }
        None
    }

    pub fn contains(&self, o: u64, r: u64) -> (res: bool)
        ensures
            res == self@.contains_key((o, r)),
    {
        match self.get(o, r) {
            Some(_) => true,
            None => false,
        }
    }

    pub fn insert(&mut self, o: u64, r: u64, v: V)
        ensures
            final(self)@ == old(self)@.insert((o, r), v@),
    {
        let ghost pre = self.entries@;
        self.entries.push(SlotEntry { originator: o, round: r, val: v });
        proof {
            assert(self.entries@.drop_last() =~= pre);
        }
    }
}

// ---------------------------------------------------------------------
// Tables keyed by an (originator, round, value) tally.
// ---------------------------------------------------------------------

#[derive(Clone)]
pub struct TallyEntry<V> {
    pub originator: u64,
    pub round: u64,
    pub value: Vec<u8>,
    pub val: V,
}

pub open spec fn tally_key<V>(e: TallyEntry<V>) -> (u64, u64, Seq<u8>) {
    (e.originator, e.round, e.value@)
}

/// An association table keyed by an (originator, round, value) triple.
#[derive(Clone)]
pub struct TallyTable<V> {
    pub entries: Vec<TallyEntry<V>>,
}

pub open spec fn tally_map_of<V: View>(
    entries: Seq<TallyEntry<V>>,
) -> Map<(u64, u64, Seq<u8>), V::V>
    decreases entries.len(),
{
    if entries.len() == 0 {
        Map::empty()
    } else {
        tally_map_of(entries.drop_last()).insert(tally_key(entries.last()), entries.last().val@)
    }
}

impl<V: View> View for TallyTable<V> {
    type V = Map<(u64, u64, Seq<u8>), V::V>;

    open spec fn view(&self) -> Map<(u64, u64, Seq<u8>), V::V> {
        tally_map_of(self.entries@)
    }
}

proof fn lemma_tally_map_of_match<V: View>(
    entries: Seq<TallyEntry<V>>,
    k: (u64, u64, Seq<u8>),
    i: int,
)
    requires
        0 <= i < entries.len(),
        tally_key(entries[i]) == k,
        forall|j: int| i < j < entries.len() ==> tally_key(entries[j]) != k,
    ensures
        tally_map_of(entries).contains_key(k),
        tally_map_of(entries)[k] == entries[i].val@,
    decreases entries.len(),
{
    if i == entries.len() - 1 {
    } else {
        lemma_tally_map_of_match(entries.drop_last(), k, i);
    }
}

proof fn lemma_tally_map_of_no_match<V: View>(entries: Seq<TallyEntry<V>>, k: (u64, u64, Seq<u8>))
    requires
        forall|j: int| 0 <= j < entries.len() ==> tally_key(entries[j]) != k,
    ensures
        !tally_map_of(entries).contains_key(k),
    decreases entries.len(),
{
    if entries.len() > 0 {
        lemma_tally_map_of_no_match(entries.drop_last(), k);
    }
}

impl<V: View> TallyTable<V> {
    pub fn new() -> (t: Self)
        ensures
            t@ == Map::<(u64, u64, Seq<u8>), V::V>::empty(),
    {
        TallyTable { entries: Vec::new() }
    }

    pub fn get(&self, o: u64, r: u64, value: &Vec<u8>) -> (res: Option<&V>)
        ensures
            match res {
                Some(v) => self@.contains_key((o, r, value@)) && v@ == self@[(o, r, value@)],
                None => !self@.contains_key((o, r, value@)),
            },
    {
        let mut i: usize = self.entries.len();
        while i > 0
            invariant
                i <= self.entries.len(),
                forall|j: int|
                    i <= j < self.entries@.len() ==> tally_key(self.entries@[j]) != (o, r, value@),
            decreases i,
        {
            i = i - 1;
            if self.entries[i].originator == o && self.entries[i].round == r
                && crate::bytes::bytes_eq(&self.entries[i].value, value) {
                proof {
                    lemma_tally_map_of_match(self.entries@, (o, r, value@), i as int);
                }
                return Some(&self.entries[i].val);
            }
        }
        proof {
            lemma_tally_map_of_no_match(self.entries@, (o, r, value@));
        }
        None
    }

    pub fn insert(&mut self, o: u64, r: u64, value: Vec<u8>, v: V)
        ensures
            final(self)@ == old(self)@.insert((o, r, value@), v@),
    {
        let ghost pre = self.entries@;
        self.entries.push(TallyEntry { originator: o, round: r, value, val: v });
        proof {
            assert(self.entries@.drop_last() =~= pre);
        }
    }
}

} // verus!
