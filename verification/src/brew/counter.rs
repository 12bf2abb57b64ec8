//! Download counters: one record for each `(project, version, platform)`
//! that was ever downloaded, holding how often.

use crate::text::str_eq;
use vstd::prelude::*;

verus! {

/// What identifies a counter: project, version and platform.
pub type Triple = (Seq<char>, Seq<char>, Seq<char>);

/// One row of the download table.
#[derive(Debug, Clone)]
pub struct DownloadRecord {
    pub id: i32,
    pub project: String,
    pub version: String,
    pub platform: String,
    pub count: i32,
}

impl DownloadRecord {
    /// The triple that the record counts.
    pub open spec fn key(&self) -> Triple {
        (self.project@, self.version@, self.platform@)
    }
}

/// What to persist for one observed download.
#[derive(Debug, Clone)]
pub enum UpsertAction {
    /// No record exists yet: create one with this count.
    Insert { project: String, version: String, platform: String, count: i32 },
    /// The record with this id exists: set its count to this value.
    Update { id: i32, count: i32 },
}

/// The count a triple has after one more download, given its count before.
pub open spec fn next_count(before: int) -> int {
    before + 1
}

/// Decides what one download of a triple does to the table, given the
/// record found for that triple, if any: an existing record's count grows by
/// exactly one, and a first download creates a record with count 1.
pub fn upsert_action(
    existing: Option<&DownloadRecord>,
    project: &str,
    version: &str,
    platform: &str,
) -> (action: UpsertAction)
    requires
        existing is Some ==> existing->0.count < i32::MAX,
    ensures
        match existing {
            Some(record) => action matches UpsertAction::Update { id, count } && id == record.id
                && count == next_count(record.count as int),
            None => action matches UpsertAction::Insert { project: p, version: v, platform: f, count }
                && p@ == project@ && v@ == version@ && f@ == platform@ && count == next_count(0),
        },
{
    match existing {
        Some(record) => UpsertAction::Update { id: record.id, count: record.count + 1 },
        None => UpsertAction::Insert {
            project: project.to_owned(),
            version: version.to_owned(),
            platform: platform.to_owned(),
            count: 1,
        },
    }
}

/// `rows[i]` is the record of `key`.
pub open spec fn holds_at(rows: Seq<DownloadRecord>, key: Triple, i: int) -> bool {
    0 <= i < rows.len() && rows[i].key() == key
}

/// Some record of `rows` counts `key`.
pub open spec fn has_key(rows: Seq<DownloadRecord>, key: Triple) -> bool {
    exists|i: int| holds_at(rows, key, i)
}

/// No two records count the same triple.
pub open spec fn unique_keys(rows: Seq<DownloadRecord>) -> bool {
    forall|i: int, j: int| 0 <= i < j < rows.len() ==> rows[i].key() != rows[j].key()
}

/// The counters of a table: the count of each triple that has a record.
pub open spec fn counters(rows: Seq<DownloadRecord>) -> Map<Triple, int> {
    Map::new(
        |key: Triple| has_key(rows, key),
        |key: Triple| rows[choose|i: int| holds_at(rows, key, i)].count as int,
    )
}

/// How often `key` was downloaded according to `counters`: zero when it has
/// no record.
pub open spec fn count_in(counters: Map<Triple, int>, key: Triple) -> int {
    if counters.contains_key(key) {
        counters[key]
    } else {
        0
    }
}

/// The counters after one more download of `key`.
pub open spec fn recorded(counters: Map<Triple, int>, key: Triple) -> Map<Triple, int> {
    counters.insert(key, next_count(count_in(counters, key)))
}

/// The counters after `n` more downloads of `key`.
pub open spec fn recorded_times(counters: Map<Triple, int>, key: Triple, n: nat) -> Map<
    Triple,
    int,
>
    decreases n,
{
    if n == 0 {
        counters
    } else {
        recorded(recorded_times(counters, key, (n - 1) as nat), key)
    }
}

/// No download is lost: after `n` downloads of a triple its count has grown
/// by exactly `n`, and no other counter has changed.
pub proof fn lemma_recorded_times(counters: Map<Triple, int>, key: Triple, n: nat)
    ensures
        count_in(recorded_times(counters, key, n), key) == count_in(counters, key) + n,
        forall|other: Triple|
            other != key ==> (#[trigger] recorded_times(counters, key, n).contains_key(other)
                == counters.contains_key(other)) && count_in(
                recorded_times(counters, key, n),
                other,
            ) == count_in(counters, other),
        n > 0 ==> recorded_times(counters, key, n).contains_key(key),
    decreases n,
{
    if n > 0 {
        lemma_recorded_times(counters, key, (n - 1) as nat);
    }
}

/// The counters after the downloads `calls`, one after the other.
pub open spec fn recorded_all(counters: Map<Triple, int>, calls: Seq<Triple>) -> Map<Triple, int>
    decreases calls.len(),
{
    if calls.len() == 0 {
        counters
    } else {
        recorded(recorded_all(counters, calls.drop_last()), calls.last())
    }
}

/// How often `key` occurs in `calls`.
pub open spec fn occurrences(calls: Seq<Triple>, key: Triple) -> nat
    decreases calls.len(),
{
    if calls.len() == 0 {
        0
    } else {
        occurrences(calls.drop_last(), key) + if calls.last() == key {
            1nat
        } else {
            0nat
        }
    }
}

/// In whatever order downloads of several triples are counted, each triple
/// ends with its old count and one more for each of its downloads.
pub proof fn lemma_recorded_all(counters: Map<Triple, int>, calls: Seq<Triple>, key: Triple)
    ensures
        count_in(recorded_all(counters, calls), key) == count_in(counters, key) + occurrences(
            calls,
            key,
        ),
    decreases calls.len(),
{
    if calls.len() > 0 {
        lemma_recorded_all(counters, calls.drop_last(), key);
    }
}

/// Two downloads of a triple that was never seen count 1 and then 2.
pub proof fn lemma_first_two_downloads(counters: Map<Triple, int>, key: Triple)
    requires
        !counters.contains_key(key),
    ensures
        count_in(recorded(counters, key), key) == 1,
        count_in(recorded(recorded(counters, key), key), key) == 2,
{
}

/// The download table, as the tracking logic sees it.
pub struct DownloadStore {
    records: Vec<DownloadRecord>,
}

impl DownloadStore {
    /// The records of the table, oldest first.
    pub closed spec fn rows(&self) -> Seq<DownloadRecord> {
        self.records@
    }

    /// The table is well formed: each triple has at most one record, and the
    /// ids count up from 1.
    pub open spec fn wf(&self) -> bool {
        &&& unique_keys(self.rows())
        &&& self.rows().len() < i32::MAX
        &&& forall|i: int| 0 <= i < self.rows().len() ==> (#[trigger] self.rows()[i]).id == i + 1
    }

    /// The counters of the table.
    pub open spec fn view(&self) -> Map<Triple, int> {
        counters(self.rows())
    }

    /// One more download of `key` can be counted: neither its count nor the
    /// number of records would leave the range of an `i32`.
    pub open spec fn has_room_for(&self, key: Triple) -> bool {
        &&& count_in(self@, key) < i32::MAX
        &&& !self@.contains_key(key) ==> self.rows().len() + 1 < i32::MAX
    }

    /// An empty table.
    pub fn new() -> (store: Self)
        ensures
            store.wf(),
            store.rows().len() == 0,
            store@ == Map::<Triple, int>::empty(),
    {
        let store = DownloadStore { records: Vec::new() };
        assert(store@ =~= Map::<Triple, int>::empty());
        store
    }

    /// The number of records.
    pub fn len(&self) -> (n: usize)
        ensures
            n == self.rows().len(),
    {
        self.records.len()
    }

    /// The records of the table, oldest first.
    pub fn records(&self) -> (rows: &Vec<DownloadRecord>)
        ensures
            rows@ == self.rows(),
    {
        &self.records
    }

    /// Where the first record of a triple is, if it has one.
    pub fn find(&self, project: &str, version: &str, platform: &str) -> (at: Option<usize>)
        ensures
            match at {
                Some(i) => holds_at(self.rows(), (project@, version@, platform@), i as int)
                    && forall|j: int|
                    0 <= j < i ==> !holds_at(self.rows(), (project@, version@, platform@), j),
                None => !has_key(self.rows(), (project@, version@, platform@)),
            },
    {
        let ghost key = (project@, version@, platform@);
        let mut i: usize = 0;
        while i < self.records.len()
            invariant
                i <= self.records@.len(),
                key == (project@, version@, platform@),
                forall|j: int| 0 <= j < i ==> !holds_at(self.records@, key, j),
            decreases self.records@.len() - i,
        {
            let record = &self.records[i];
            if str_eq(record.project.as_str(), project) && str_eq(record.version.as_str(), version)
                && str_eq(record.platform.as_str(), platform) {
                return Some(i);
            }
            i += 1;
        }
        None
    }

    /// How often a triple was downloaded: zero when it has no record.
    pub fn count(&self, project: &str, version: &str, platform: &str) -> (n: i32)
        requires
            self.wf(),
        ensures
            n == count_in(self@, (project@, version@, platform@)),
    {
        let ghost key = (project@, version@, platform@);
        match self.find(project, version, platform) {
            Some(i) => {
                proof {
                    lemma_counter_at(self.rows(), key, i as int);
                }
                self.records[i].count
            },
            None => 0,
        }
    }

    /// Records one download of a triple: the count of its record grows by
    /// one, or, at its first download, exactly one record with count 1 is
    /// created. Returns the count after the download. No other counter
    /// changes.
    pub fn record_download(&mut self, project: &str, version: &str, platform: &str) -> (n: i32)
        requires
            old(self).wf(),
            old(self).has_room_for((project@, version@, platform@)),
        ensures
            final(self).wf(),
            final(self)@ == recorded(old(self)@, (project@, version@, platform@)),
            n == count_in(final(self)@, (project@, version@, platform@)),
            n == count_in(old(self)@, (project@, version@, platform@)) + 1,
            final(self).rows().len() == old(self).rows().len() + if old(self)@.contains_key(
                (project@, version@, platform@),
            ) {
                0int
            } else {
                1int
            },
    {
        let ghost key = (project@, version@, platform@);
        let ghost before = self.records@;
        let found = self.find(project, version, platform);
        let existing = match found {
            Some(i) => {
                proof {
                    lemma_counter_at(before, key, i as int);
                }
                Some(&self.records[i])
            },
            None => None,
        };
        match upsert_action(existing, project, version, platform) {
            UpsertAction::Update { id, count } => {
                let i = found.unwrap();
                let record = DownloadRecord {
                    id,
                    project: self.records[i].project.clone(),
                    version: self.records[i].version.clone(),
                    platform: self.records[i].platform.clone(),
                    count,
                };
                self.records.set(i, record);
                proof {
                    lemma_counters_update(before, self.records@, key, i as int);
                }
                count
            },
            UpsertAction::Insert { project, version, platform, count } => {
                let id: i32 = self.next_id();
                self.records.push(DownloadRecord { id, project, version, platform, count });
                proof {
                    lemma_counters_push(before, self.records@, key);
                }
                count
            },
        }
    }

    fn next_id(&self) -> (id: i32)
        requires
            self.rows().len() < i32::MAX,
        ensures
            id == self.rows().len() + 1,
    {
        let n: usize = self.records.len();
        let id: i32 = n as i32;
        id + 1
    }
}

/// The counter of a triple is the count of its record.
pub proof fn lemma_counter_at(rows: Seq<DownloadRecord>, key: Triple, i: int)
    requires
        unique_keys(rows),
        holds_at(rows, key, i),
    ensures
        counters(rows).contains_key(key),
        counters(rows)[key] == rows[i].count,
{
    let j = choose|j: int| holds_at(rows, key, j);
    assert(j == i) by {
        if j < i {
            assert(rows[j].key() != rows[i].key());
        } else if i < j {
            assert(rows[i].key() != rows[j].key());
        }
    }
}

/// Raising the count of the record of `key` by one is one download of `key`.
proof fn lemma_counters_update(
    before: Seq<DownloadRecord>,
    after: Seq<DownloadRecord>,
    key: Triple,
    i: int,
)
    requires
        unique_keys(before),
        holds_at(before, key, i),
        after.len() == before.len(),
        forall|j: int| 0 <= j < before.len() && j != i ==> after[j] == before[j],
        after[i].key() == key,
        after[i].id == before[i].id,
        after[i].count == before[i].count + 1,
    ensures
        unique_keys(after),
        counters(after) == recorded(counters(before), key),
{
    assert forall|j: int| 0 <= j < before.len() implies #[trigger] after[j].key()
        == before[j].key() by {}
    assert(unique_keys(after)) by {
        assert forall|a: int, b: int| 0 <= a < b < after.len() implies after[a].key()
            != after[b].key() by {
            assert(before[a].key() != before[b].key());
        }
    }
    let target = recorded(counters(before), key);
    lemma_counter_at(before, key, i);
    assert forall|k: Triple| counters(after).contains_key(k) == target.contains_key(k) by {
        if has_key(after, k) {
            let j = choose|j: int| holds_at(after, k, j);
            assert(holds_at(before, k, j));
        }
        if has_key(before, k) {
            let j = choose|j: int| holds_at(before, k, j);
            assert(holds_at(after, k, j));
        }
        assert(holds_at(after, key, i));
    }
    assert forall|k: Triple| counters(after).contains_key(k) implies counters(after)[k]
        == target[k] by {
        let j = choose|j: int| holds_at(after, k, j);
        lemma_counter_at(after, k, j);
        assert(holds_at(before, k, j));
        lemma_counter_at(before, k, j);
        if k == key {
            assert(holds_at(after, key, i));
            lemma_counter_at(after, key, i);
        }
    }
    assert(counters(after) =~= target);
}

/// Adding a record with count 1 for a triple without one is one download of
/// that triple.
proof fn lemma_counters_push(before: Seq<DownloadRecord>, after: Seq<DownloadRecord>, key: Triple)
    requires
        unique_keys(before),
        !has_key(before, key),
        after.len() == before.len() + 1,
        forall|j: int| 0 <= j < before.len() ==> after[j] == before[j],
        after[before.len() as int].key() == key,
        after[before.len() as int].count == 1,
    ensures
        unique_keys(after),
        counters(after) == recorded(counters(before), key),
{
    let last = before.len() as int;
    assert(unique_keys(after)) by {
        assert forall|a: int, b: int| 0 <= a < b < after.len() implies after[a].key()
            != after[b].key() by {
            if b == last {
                assert(!holds_at(before, key, a));
            } else {
                assert(before[a].key() != before[b].key());
            }
        }
    }
    let target = recorded(counters(before), key);
    assert(holds_at(after, key, last));
    assert forall|k: Triple| counters(after).contains_key(k) == target.contains_key(k) by {
        if has_key(after, k) {
            let j = choose|j: int| holds_at(after, k, j);
            if j != last {
                assert(holds_at(before, k, j));
            }
        }
        if has_key(before, k) {
            let j = choose|j: int| holds_at(before, k, j);
            assert(holds_at(after, k, j));
        }
    }
    assert forall|k: Triple| counters(after).contains_key(k) implies counters(after)[k]
        == target[k] by {
        let j = choose|j: int| holds_at(after, k, j);
        lemma_counter_at(after, k, j);
        if j != last {
            assert(holds_at(before, k, j));
            lemma_counter_at(before, k, j);
        }
    }
    assert(counters(after) =~= target);
}

} // verus!
