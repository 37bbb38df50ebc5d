//! The persistent state of the ledger: its configuration, the version of the
//! code that owns it, the records by height and the latest-height pointer.

use vstd::prelude::*;
use crate::msg::{AnchorView, Data};
use crate::version::{ModuleVersion, VersionView};

verus! {

/// The configuration, created once at initialization.
#[derive(Debug, Clone, PartialEq, Eq)]
pub struct Config {
    /// The only sender that may anchor records.
    pub owner: String,
}

/// The mathematical value of a [`Config`].
pub struct ConfigView {
    pub owner: Seq<char>,
}

impl View for Config {
    type V = ConfigView;

    open spec fn view(&self) -> ConfigView {
        ConfigView { owner: self.owner@ }
    }
}

impl Config {
    /// Hands the configuration back for changes in place. By itself this
    /// changes nothing, and no operation of the ledger changes a field.
    pub fn update(&mut self) -> (r: &mut Self)
        ensures
            *r == *old(self),
            *final(self) == *final(r),
    {
        self
    }
}

/// What is stored under one height.
#[derive(Debug, Clone, PartialEq, Eq)]
pub struct BlockData {
    pub block_hash: String,
    pub data_merkle: String,
    pub timestamp: String,
}

/// The mathematical value of a [`BlockData`].
pub struct RecordView {
    pub block_hash: Seq<char>,
    pub data_merkle: Seq<char>,
    pub timestamp: Seq<char>,
}

impl View for BlockData {
    type V = RecordView;

    open spec fn view(&self) -> RecordView {
        RecordView {
            block_hash: self.block_hash@,
            data_merkle: self.data_merkle@,
            timestamp: self.timestamp@,
        }
    }
}

/// The mapping `m` after the records of `records` have been stored in it one
/// by one, each under its height and in place of what was stored there.
pub open spec fn upsert_all(m: Map<Seq<char>, RecordView>, records: Seq<AnchorView>) -> Map<
    Seq<char>,
    RecordView,
>
    decreases records.len(),
{
    if records.len() == 0 {
        m
    } else {
        upsert_all(m, records.drop_last()).insert(records.last().height, records.last().record())
    }
}

#[derive(Debug)]
struct Entry {
    height: String,
    record: BlockData,
}

/// `entries[i]` is stored under the height `h`.
spec fn stored_at(entries: Seq<Entry>, i: int, h: Seq<char>) -> bool {
    0 <= i < entries.len() && entries[i].height@ == h
}

/// No two entries share a height.
spec fn distinct_heights(entries: Seq<Entry>) -> bool {
    forall|i: int, j: int|
        #![trigger entries[i], entries[j]]
        0 <= i < j < entries.len() ==> entries[i].height@ != entries[j].height@
}

/// The mapping that `entries` stands for.
spec fn mapping(entries: Seq<Entry>) -> Map<Seq<char>, RecordView> {
    Map::new(
        |h: Seq<char>| exists|i: int| stored_at(entries, i, h),
        |h: Seq<char>| entries[choose|i: int| stored_at(entries, i, h)].record@,
    )
}

/// Where no two entries share a height, each entry is what the mapping holds
/// under its height.
proof fn lemma_mapping_holds_entries(entries: Seq<Entry>)
    requires
        distinct_heights(entries),
    ensures
        forall|j: int|
            0 <= j < entries.len() ==> mapping(entries).contains_key(
                #[trigger] entries[j].height@,
            ) && mapping(entries)[entries[j].height@] == entries[j].record@,
{
    assert forall|j: int| 0 <= j < entries.len() implies mapping(entries).contains_key(
        #[trigger] entries[j].height@,
    ) && mapping(entries)[entries[j].height@] == entries[j].record@ by {
        let k = entries[j].height@;
        assert(stored_at(entries, j, k));
        let c = choose|c: int| stored_at(entries, c, k);
        if c != j {
            assert(entries[c].height@ == entries[j].height@);
        }
    }
}

/// Replacing the record of the `i`-th entry is an insertion under its height.
proof fn lemma_replaced(before: Seq<Entry>, after: Seq<Entry>, i: int)
    requires
        distinct_heights(before),
        0 <= i < before.len(),
        after.len() == before.len(),
        after[i].height@ == before[i].height@,
        forall|j: int| 0 <= j < before.len() && j != i ==> after[j] == before[j],
    ensures
        distinct_heights(after),
        mapping(after) == mapping(before).insert(after[i].height@, after[i].record@),
{
    assert forall|a: int, b: int|
        #![trigger after[a], after[b]]
        0 <= a < b < after.len() implies after[a].height@ != after[b].height@ by {
        assert(before[a].height@ != before[b].height@);
    }
    lemma_mapping_holds_entries(before);
    lemma_mapping_holds_entries(after);
    let target = mapping(before).insert(after[i].height@, after[i].record@);
    assert forall|k: Seq<char>|
        #![trigger mapping(after).dom().contains(k)]
        #![trigger target.dom().contains(k)]
        mapping(after).dom().contains(k) == target.dom().contains(k) && (target.dom().contains(k)
            ==> mapping(after)[k] == target[k]) by {
        if mapping(after).dom().contains(k) {
            let c = choose|c: int| stored_at(after, c, k);
            assert(after[c].height@ == before[c].height@);
            assert(stored_at(before, c, k));
        }
        if mapping(before).dom().contains(k) {
            let c = choose|c: int| stored_at(before, c, k);
            assert(after[c].height@ == before[c].height@);
            assert(stored_at(after, c, k));
        }
        assert(stored_at(after, i, after[i].height@));
    }
    assert(mapping(after) =~= target);
}

/// Appending an entry under a height that is not stored yet is an insertion.
proof fn lemma_appended(before: Seq<Entry>, after: Seq<Entry>)
    requires
        distinct_heights(before),
        after.len() == before.len() + 1,
        forall|j: int| 0 <= j < before.len() ==> after[j] == before[j],
        forall|j: int| !stored_at(before, j, after.last().height@),
    ensures
        distinct_heights(after),
        mapping(after) == mapping(before).insert(after.last().height@, after.last().record@),
{
    let n = before.len() as int;
    assert(after.last() == after[n]);
    assert forall|a: int, b: int|
        #![trigger after[a], after[b]]
        0 <= a < b < after.len() implies after[a].height@ != after[b].height@ by {
        if b == n {
            assert(!stored_at(before, a, after[n].height@));
        } else {
            assert(before[a].height@ != before[b].height@);
        }
    }
    lemma_mapping_holds_entries(before);
    lemma_mapping_holds_entries(after);
    let target = mapping(before).insert(after[n].height@, after[n].record@);
    assert forall|k: Seq<char>|
        #![trigger mapping(after).dom().contains(k)]
        #![trigger target.dom().contains(k)]
        mapping(after).dom().contains(k) == target.dom().contains(k) && (target.dom().contains(k)
            ==> mapping(after)[k] == target[k]) by {
        if mapping(after).dom().contains(k) {
            let c = choose|c: int| stored_at(after, c, k);
            if c < n {
                assert(stored_at(before, c, k));
            }
        }
        if mapping(before).dom().contains(k) {
            let c = choose|c: int| stored_at(before, c, k);
            assert(after[c] == before[c]);
            assert(stored_at(after, c, k));
        }
        assert(stored_at(after, n, after[n].height@));
    }
    assert(mapping(after) =~= target);
}

/// The records by height, at most one for each height.
#[derive(Debug)]
pub struct Anchors {
    entries: Vec<Entry>,
}

impl View for Anchors {
    type V = Map<Seq<char>, RecordView>;

    closed spec fn view(&self) -> Map<Seq<char>, RecordView> {
        mapping(self.entries@)
    }
}

impl Anchors {
    #[verifier::type_invariant]
    spec fn well_formed(&self) -> bool {
        distinct_heights(self.entries@)
    }

    /// The empty mapping.
    pub fn new() -> (r: Self)
        ensures
            r@ == Map::<Seq<char>, RecordView>::empty(),
    {
        let r = Anchors { entries: Vec::new() };
        assert(r@ =~= Map::<Seq<char>, RecordView>::empty());
        r
    }

    /// Where the record of `height` stands, if there is one.
    fn find(&self, height: &String) -> (r: Option<usize>)
        ensures
            match r {
                Some(i) => stored_at(self.entries@, i as int, height@),
                None => forall|j: int| !stored_at(self.entries@, j, height@),
            },
    {
        let mut i: usize = 0;
        while i < self.entries.len()
            invariant
                i <= self.entries.len(),
                forall|j: int| 0 <= j < i ==> !stored_at(self.entries@, j, height@),
            decreases self.entries.len() - i,
        {
            if self.entries[i].height == *height {
                return Some(i);
            }
            i = i + 1;
        }
        None
    }

    /// Stores `record` under `height`, in place of the record that was stored
    /// there, if any.
    pub fn save(&mut self, height: String, record: BlockData)
        ensures
            final(self)@ == old(self)@.insert(height@, record@),
    {
        proof {
            use_type_invariant(&*self);
        }
        let ghost before = self.entries@;
        let found = self.find(&height);
        let mut entries: Vec<Entry> = Vec::new();
        core::mem::swap(&mut self.entries, &mut entries);
        match found {
            Some(i) => {
                entries[i] = Entry { height, record };
                proof {
                    lemma_replaced(before, entries@, i as int);
                }
            },
            None => {
                entries.push(Entry { height, record });
                proof {
                    lemma_appended(before, entries@);
                }
            },
        }
        core::mem::swap(&mut self.entries, &mut entries);
    }

    /// Stores every record of `records`, in order: where two of them name the
    /// same height, the later one stays.
    pub fn save_all(&mut self, records: &Vec<Data>)
        ensures
            final(self)@ == upsert_all(old(self)@, records@.map_values(|d: Data| d@)),
    {
        let ghost views = records@.map_values(|d: Data| d@);
        let mut i: usize = 0;
        while i < records.len()
            invariant
                i <= records.len(),
                views == records@.map_values(|d: Data| d@),
                self@ == upsert_all(old(self)@, views.take(i as int)),
            decreases records.len() - i,
        {
            let d = &records[i];
            let record = BlockData {
                block_hash: d.block_hash.clone(),
                data_merkle: d.data_merkle.clone(),
                timestamp: d.timestamp.clone(),
            };
            self.save(d.height.clone(), record);
            proof {
                let next = views.take(i as int + 1);
                assert(next.drop_last() =~= views.take(i as int));
                assert(next.last() == d@);
            }
            i = i + 1;
        }
        proof {
            assert(views.take(i as int) =~= views);
        }
    }

    /// Every stored record with its height, each height once.
    pub fn records(&self) -> (r: Vec<Data>)
        ensures
            forall|i: int|
                0 <= i < r.len() ==> self@.contains_key(#[trigger] r[i]@.height) && self@[r[i]@.height]
                    == r[i]@.record(),
            forall|i: int, j: int|
                #![trigger r[i], r[j]]
                0 <= i < j < r.len() ==> r[i]@.height != r[j]@.height,
            forall|h: Seq<char>|
                self@.contains_key(h) ==> exists|i: int|
                    0 <= i < r.len() && #[trigger] r[i]@.height == h,
    {
        proof {
            use_type_invariant(self);
            lemma_mapping_holds_entries(self.entries@);
        }
        let mut r: Vec<Data> = Vec::new();
        let mut i: usize = 0;
        while i < self.entries.len()
            invariant
                i <= self.entries.len(),
                r.len() == i,
                forall|j: int|
                    0 <= j < i ==> (#[trigger] r[j])@ == AnchorView::of(
                        self.entries[j].height@,
                        self.entries[j].record@,
                    ),
            decreases self.entries.len() - i,
        {
            let e = &self.entries[i];
            r.push(
                Data {
                    height: e.height.clone(),
                    block_hash: e.record.block_hash.clone(),
                    data_merkle: e.record.data_merkle.clone(),
                    timestamp: e.record.timestamp.clone(),
                },
            );
            i = i + 1;
        }
        proof {
            assert forall|a: int, b: int|
                #![trigger r[a], r[b]]
                0 <= a < b < r.len() implies r[a]@.height != r[b]@.height by {
                assert(self.entries[a].height@ != self.entries[b].height@);
            }
            assert forall|h: Seq<char>| self@.contains_key(h) implies exists|i: int|
                0 <= i < r.len() && #[trigger] r[i]@.height == h by {
                let c = choose|c: int| stored_at(self.entries@, c, h);
                assert(r[c]@.height == h);
            }
        }
        r
    }

    /// The record stored under `height`, if there is one.
    pub fn may_load(&self, height: &String) -> (r: Option<BlockData>)
        ensures
            match r {
                Some(record) => self@.contains_key(height@) && record@ == self@[height@],
                None => !self@.contains_key(height@),
            },
    {
        proof {
            use_type_invariant(self);
        }
        match self.find(height) {
            Some(i) => {
                let e = &self.entries[i];
                proof {
                    lemma_mapping_holds_entries(self.entries@);
                }
                Some(
                    BlockData {
                        block_hash: e.record.block_hash.clone(),
                        data_merkle: e.record.data_merkle.clone(),
                        timestamp: e.record.timestamp.clone(),
                    },
                )
            },
            None => None,
        }
    }
}

/// Everything that the ledger keeps between operations. Each of the three
/// single items is absent until it is first saved.
#[derive(Debug)]
pub struct Store {
    pub config: Option<Config>,
    pub version: Option<ModuleVersion>,
    pub latest: Option<String>,
    pub anchoring: Anchors,
}

/// The mathematical value of a [`Store`].
pub struct StoreView {
    pub config: Option<ConfigView>,
    pub version: Option<VersionView>,
    pub latest: Option<Seq<char>>,
    pub anchoring: Map<Seq<char>, RecordView>,
}

impl StoreView {
    /// The state before initialization: nothing is stored.
    pub open spec fn empty() -> StoreView {
        StoreView { config: None, version: None, latest: None, anchoring: Map::empty() }
    }
}

impl View for Store {
    type V = StoreView;

    open spec fn view(&self) -> StoreView {
        StoreView {
            config: match self.config {
                Some(c) => Some(c@),
                None => None,
            },
            version: match self.version {
                Some(v) => Some(v@),
                None => None,
            },
            latest: match self.latest {
                Some(l) => Some(l@),
                None => None,
            },
            anchoring: self.anchoring@,
        }
    }
}

impl Store {
    /// A store in which nothing has been saved yet.
    pub fn new() -> (r: Self)
        ensures
            r@ == StoreView::empty(),
    {
        Store { config: None, version: None, latest: None, anchoring: Anchors::new() }
    }

    /// Stores every record of `records`, then sets the latest-height pointer
    /// to `new_latest`, whatever it was and whatever the batch holds.
    pub fn apply_batch(&mut self, records: &Vec<Data>, new_latest: String)
        ensures
            final(self)@ == (StoreView {
                latest: Some(new_latest@),
                anchoring: upsert_all(old(self)@.anchoring, records@.map_values(|d: Data| d@)),
                ..old(self)@
            }),
    {
        self.anchoring.save_all(records);
        self.latest = Some(new_latest);
    }
}

} // verus!
